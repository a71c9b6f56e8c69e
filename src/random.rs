use vstd::prelude::*;

verus! {

/// Seed that a sample-and-hold generator starts from unless told otherwise.
pub const DEFAULT_SEED: u32 = 12345;

/// One step of the linear-congruential generator:
/// `state * 1103515245 + 12345`, modulo 2^32.
pub open spec fn lcg_step(state: u32) -> u32 {
    ((state as int * 1103515245 + 12345) % 0x1_0000_0000) as u32
}

/// The generator's state after `k` steps from `seed`.
pub open spec fn lcg_state(seed: u32, k: nat) -> u32
    decreases k,
{
    if k == 0 {
        seed
    } else {
        lcg_step(lcg_state(seed, (k - 1) as nat))
    }
}

/// The draw that a step yields: the upper 16 bits of the new state.
pub open spec fn draw_of(state: u32) -> u16 {
    (state / 0x1_0000) as u16
}

/// The first `n` draws of a generator seeded with `seed`.
pub open spec fn lcg_draws(seed: u32, n: nat) -> Seq<u16> {
    Seq::new(n, |k: int| draw_of(lcg_state(seed, (k + 1) as nat)))
}

/// Pseudo-random source of a sample-and-hold LFO; each instance owns its
/// state, so instances do not influence one another.
pub struct Lcg {
    state: u32,
}

impl Lcg {
    /// The current state.
    pub closed spec fn view(&self) -> u32 {
        self.state
    }

    /// A generator seeded with `seed`.
    pub fn new(seed: u32) -> (r: Lcg)
        ensures
            r@ == seed,
    {
        Lcg { state: seed }
    }

    /// The current state.
    pub fn state(&self) -> (r: u32)
        ensures
            r == self@,
    {
        self.state
    }

    /// Advances the generator one step and returns the draw, a value in
    /// `0 .. 65536` that the caller scales to its range.
    pub fn next_draw(&mut self) -> (r: u16)
        ensures
            final(self)@ == lcg_step(old(self)@),
            r == draw_of(final(self)@),
    {
        let s: u64 = self.state as u64;
        assert(s * 1103515245 <= 0xffff_ffff * 1103515245) by (nonlinear_arith)
            requires
                s <= 0xffff_ffff,
        ;
        let next: u64 = (s * 1103515245 + 12345) % 0x1_0000_0000;
        self.state = next as u32;
        (next / 0x1_0000) as u16
    }

    /// The next `count` draws, in order.
    pub fn draws(&mut self, count: usize) -> (r: Vec<u16>)
        ensures
            r@ == lcg_draws(old(self)@, count as nat),
            final(self)@ == lcg_state(old(self)@, count as nat),
    {
        let ghost seed = self@;
        let mut out: Vec<u16> = Vec::with_capacity(count);
        let mut i: usize = 0;
        while i < count
            invariant
                i <= count,
                self@ == lcg_state(seed, i as nat),
                out@ =~= lcg_draws(seed, i as nat),
            decreases count - i,
        {
            let d = self.next_draw();
            out.push(d);
            i = i + 1;
        }
        out
    }
}

/// Two generators that start from the same state yield the same draws, one
/// for one, and end in the same state: a sample-and-hold sequence is fixed
/// by its seed.
pub proof fn lemma_same_seed_same_draws(a: u32, b: u32, n: nat)
    requires
        a == b,
    ensures
        lcg_draws(a, n) == lcg_draws(b, n),
        lcg_state(a, n) == lcg_state(b, n),
        forall|k: int| 0 <= k < n ==> #[trigger] lcg_draws(a, n)[k] == draw_of(lcg_state(a, (k + 1) as nat)),
{
}

} // verus!
