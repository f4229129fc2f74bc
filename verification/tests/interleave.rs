use cplp::interleave::{deinterleave_to_interleaved, interleaved_to_deinterleaved};

#[test]
fn deinterleave_stereo() {
    let deinterleaved = [1.0f32, 2.0, 3.0, 4.0, 5.0, 6.0];
    let mut interleaved = [0.0f32; 6];
    deinterleave_to_interleaved(&deinterleaved, &mut interleaved, 2, 3);
    assert_eq!(interleaved, [1.0, 4.0, 2.0, 5.0, 3.0, 6.0]);
}

#[test]
fn deinterleave_mono() {
    let deinterleaved = [1.0f32, 2.0, 3.0];
    let mut interleaved = [0.0f32; 3];
    deinterleave_to_interleaved(&deinterleaved, &mut interleaved, 1, 3);
    assert_eq!(interleaved, [1.0, 2.0, 3.0]);
}

#[test]
fn interleave_roundtrip() {
    let original_interleaved = [1.0f32, 4.0, 2.0, 5.0, 3.0, 6.0];
    let mut deinterleaved = [0.0f32; 6];
    let mut result = [0.0f32; 6];
    interleaved_to_deinterleaved(&original_interleaved, &mut deinterleaved, 2, 3);
    deinterleave_to_interleaved(&deinterleaved, &mut result, 2, 3);
    assert_eq!(result, original_interleaved);
}

#[test]
fn planar_layout_of_three_channels() {
    let interleaved = [10, 20, 30, 11, 21, 31];
    let mut planar = [0; 6];
    interleaved_to_deinterleaved(&interleaved, &mut planar, 3, 2);
    assert_eq!(planar, [10, 11, 20, 21, 30, 31]);
}

#[test]
fn samples_past_the_block_are_left_alone() {
    let planar = [1, 2, 3, 4, 99, 99];
    let mut out = [7; 6];
    deinterleave_to_interleaved(&planar, &mut out, 2, 2);
    assert_eq!(out, [1, 3, 2, 4, 7, 7]);
}
