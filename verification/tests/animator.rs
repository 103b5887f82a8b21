use led_matrix::pixel::Pixel;
use led_matrix::scroll::{drain_ticks, text_run_width, Animator};

fn sample_run() -> Vec<Pixel> {
    vec![
        Pixel { x: 0, y: 0, on: true },
        Pixel { x: 4, y: 3, on: true },
        Pixel { x: 10, y: 7, on: true },
    ]
}

#[test]
fn width_of_two_glyph_run_is_eleven() {
    // Two glyphs of 5 columns each, one blank column between them.
    assert_eq!(text_run_width(2, 5, 1), 11);
}

#[test]
fn width_of_empty_and_single_glyph_runs() {
    assert_eq!(text_run_width(0, 5, 1), 0);
    assert_eq!(text_run_width(1, 5, 1), 5);
    assert_eq!(text_run_width(4, 5, 1), 23);
}

#[test]
fn offset_starts_at_zero() {
    let a = Animator::new(sample_run(), 11);
    assert_eq!(a.effective_offset(), 0);
}

#[test]
fn batched_ticks_advance_like_single_ticks() {
    let mut batched = Animator::new(sample_run(), 11);
    batched.advance_ticks(3);

    let mut single = Animator::new(sample_run(), 11);
    single.advance_ticks(1);
    single.advance_ticks(1);
    single.advance_ticks(1);

    assert_eq!(batched.effective_offset(), 3);
    assert_eq!(batched.effective_offset(), single.effective_offset());
    assert_eq!(batched.rendered_pixels(), single.rendered_pixels());
}

#[test]
fn offset_wraps_modulo_width() {
    let mut a = Animator::new(sample_run(), 5);
    a.advance_ticks(7);
    assert_eq!(a.effective_offset(), 2);
    a.advance_ticks(3);
    assert_eq!(a.effective_offset(), 0);
}

#[test]
fn full_cycle_restores_the_frame() {
    // A run of width 11 ("AB" at 5 columns per glyph plus one blank
    // column): after 11 ticks the offset and the frame are back.
    let width = text_run_width(2, 5, 1);
    assert_eq!(width, 11);

    let mut a = Animator::new(sample_run(), width);
    let frame_at_start = a.rendered_pixels();
    a.advance_ticks(11);
    assert_eq!(a.effective_offset(), 0);
    assert_eq!(a.rendered_pixels(), frame_at_start);
}

#[test]
fn zero_ticks_repeat_the_frame() {
    let mut a = Animator::new(sample_run(), 11);
    a.advance_ticks(4);
    let first = a.rendered_pixels();
    a.advance_ticks(0);
    let second = a.rendered_pixels();
    assert_eq!(a.effective_offset(), 4);
    assert_eq!(first, second);
}

#[test]
fn translation_moves_pixels_left() {
    let mut a = Animator::new(sample_run(), 11);
    a.advance_ticks(2);
    let frame = a.rendered_pixels();
    assert_eq!(frame[0], Pixel { x: -2, y: 0, on: true });
    assert_eq!(frame[1], Pixel { x: 2, y: 3, on: true });
    assert_eq!(frame[2], Pixel { x: 8, y: 7, on: true });
}

#[test]
fn drain_counts_every_pending_tick() {
    let (tx, rx) = std::sync::mpsc::channel();
    for _ in 0..4 {
        tx.send(()).unwrap();
    }
    assert_eq!(drain_ticks(&rx), 4);
    assert_eq!(drain_ticks(&rx), 0);
}

#[test]
fn drain_after_sender_gone_is_empty() {
    let (tx, rx) = std::sync::mpsc::channel::<()>();
    tx.send(()).unwrap();
    drop(tx);
    assert_eq!(drain_ticks(&rx), 1);
    assert_eq!(drain_ticks(&rx), 0);
}
