use rust_dsp::random::{Lcg, DEFAULT_SEED};

#[test]
fn first_draws_from_default_seed() {
    let mut g = Lcg::new(DEFAULT_SEED);
    assert_eq!(g.next_draw(), 54236);
    assert_eq!(g.state(), 3554416254);
    assert_eq!(g.next_draw(), 42756);
    assert_eq!(g.next_draw(), 54885);
    assert_eq!(g.state(), 3596950572);
}

#[test]
fn same_seed_gives_identical_sequences() {
    let mut a = Lcg::new(DEFAULT_SEED);
    let mut b = Lcg::new(DEFAULT_SEED);
    let xs = a.draws(1000);
    let ys = b.draws(1000);
    assert_eq!(xs, ys);
    assert_eq!(a.state(), b.state());
    let mut c = Lcg::new(DEFAULT_SEED);
    let zs: Vec<u16> = (0..1000).map(|_| c.next_draw()).collect();
    assert_eq!(xs, zs);
}

#[test]
fn different_seeds_differ() {
    let mut a = Lcg::new(1);
    let mut b = Lcg::new(2);
    assert_ne!(a.draws(8), b.draws(8));
    let mut z = Lcg::new(0);
    assert_eq!(z.next_draw(), 0);
    assert_eq!(z.state(), 12345);
}
