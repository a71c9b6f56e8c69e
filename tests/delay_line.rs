use rust_dsp::delay_line::DelayLine;

#[test]
fn zero_feedback_delay_echoes_input() {
    // out[k] = in[k] + mix * in[k - d], with the delayed tap written back
    // unchanged (feedback 0).
    let mut line: DelayLine<i64> = DelayLine::new(8, 0);
    let d: usize = 3;
    let mix: i64 = 2;
    let input: Vec<i64> = (1..=20).map(|x| x * 10).collect();
    let mut out = Vec::new();
    for &x in &input {
        let delayed = line.read(d);
        out.push(x + delayed * mix);
        line.push(x);
    }
    for k in d..input.len() {
        assert_eq!(out[k], input[k] + mix * input[k - d]);
    }
    for k in 0..d {
        assert_eq!(out[k], input[k]);
    }
}

#[test]
fn read_position_wraps_without_going_negative() {
    let mut line: DelayLine<u8> = DelayLine::new(5, 0);
    assert_eq!(line.read_position(0), 0);
    assert_eq!(line.read_position(1), 4);
    assert_eq!(line.read_position(5), 0);
    line.push(1);
    line.push(2);
    assert_eq!(line.write_pos(), 2);
    assert_eq!(line.read_position(1), 1);
    assert_eq!(line.read_position(2), 0);
    assert_eq!(line.read_position(3), 4);
    assert_eq!(line.read(1), 2);
    assert_eq!(line.read(2), 1);
}

#[test]
fn cursor_wraps_after_last_cell() {
    let mut line: DelayLine<u8> = DelayLine::new(3, 9);
    assert_eq!(line.len(), 3);
    for x in 0..3u8 {
        line.push(x);
    }
    assert_eq!(line.write_pos(), 0);
    assert_eq!(line.read(0), 0);
    assert_eq!(line.read(3), 0);
    line.push(7);
    assert_eq!(line.write_pos(), 1);
    assert_eq!(line.read(1), 7);
}

#[test]
fn delay_lengths_are_bounded() {
    let line: DelayLine<u8> = DelayLine::new(480, 0);
    assert_eq!(line.clamp_delay(100), 100);
    assert_eq!(line.clamp_delay(480), 480);
    assert_eq!(line.clamp_delay(96000), 480);
    assert_eq!(line.clamp_delay(line.clamp_delay(96000)), 480);
    assert_eq!(line.clamp_delay_below_len(480), 479);
    assert_eq!(line.clamp_delay_below_len(12), 12);
}

#[test]
fn fresh_line_holds_fill_value() {
    let line: DelayLine<i32> = DelayLine::new(4, -1);
    for d in 0..=4 {
        assert_eq!(line.read(d), -1);
    }
}
