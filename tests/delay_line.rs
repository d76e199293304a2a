use aych_delay::{pairs_to_process, DelayLine, Mode};

#[test]
fn zero_length_line_is_rejected() {
    assert!(DelayLine::new(0, 0.0f32).is_none());
}

#[test]
fn new_line_is_silent_with_cursor_at_start() {
    let line = DelayLine::new(441, 0.0f32).unwrap();
    assert_eq!(line.len(), 441);
    assert_eq!(line.cursor(), 0);
    assert_eq!(line.read(), (0.0, 0.0));
}

#[test]
fn new_line_fills_every_frame_with_silence() {
    let mut line = DelayLine::new(3, 7i32).unwrap();
    for _ in 0..3 {
        assert_eq!(line.read(), (7, 7));
        line.advance();
    }
}

#[test]
fn cursor_after_n_advances_is_n_mod_length() {
    let mut line = DelayLine::new(7, 0u8).unwrap();
    for n in 1..=30usize {
        line.advance();
        assert_eq!(line.cursor(), n % 7);
    }
}

#[test]
fn single_frame_line_keeps_cursor_at_zero() {
    let mut line = DelayLine::new(1, 0.0f32).unwrap();
    line.write((0.5, -0.5));
    line.advance();
    assert_eq!(line.cursor(), 0);
    assert_eq!(line.read(), (0.5, -0.5));
}

#[test]
fn write_replaces_only_the_frame_under_the_cursor() {
    let mut line = DelayLine::new(3, 0i32).unwrap();
    line.advance();
    line.write((4, 5));
    assert_eq!(line.read(), (4, 5));
    assert_eq!(line.cursor(), 1);
    line.advance();
    assert_eq!(line.read(), (0, 0));
    line.advance();
    assert_eq!(line.read(), (0, 0));
    line.advance();
    assert_eq!(line.read(), (4, 5));
}

#[test]
fn impulse_echoes_exactly_one_length_later() {
    let length = 441usize;
    let mut line = DelayLine::new(length, 0.0f32).unwrap();
    let mut reads: Vec<(f32, f32)> = Vec::new();
    for step in 0..(2 * length + 1) {
        reads.push(line.read());
        let input = if step == 0 { (1.0, 0.0) } else { (0.0, 0.0) };
        line.write(input);
        line.advance();
    }
    for (step, frame) in reads.iter().enumerate() {
        if step == length {
            assert_eq!(*frame, (1.0, 0.0));
        } else {
            assert_eq!(*frame, (0.0, 0.0));
        }
    }
}

#[test]
fn pairs_follow_the_shorter_buffer() {
    assert_eq!(pairs_to_process(8, 8), 4);
    assert_eq!(pairs_to_process(8, 4), 2);
    assert_eq!(pairs_to_process(4, 8), 2);
}

#[test]
fn trailing_half_frame_is_ignored() {
    assert_eq!(pairs_to_process(5, 10), 2);
    assert_eq!(pairs_to_process(10, 5), 2);
    assert_eq!(pairs_to_process(1, 1), 0);
    assert_eq!(pairs_to_process(0, 6), 0);
}

#[test]
fn modes_compare_by_variant() {
    assert_eq!(Mode::LOWPASS, Mode::LOWPASS.clone());
    assert_ne!(Mode::LOWPASS, Mode::HIGHPASS);
    assert_ne!(Mode::HIGHPASS, Mode::ALLPASS);
}
