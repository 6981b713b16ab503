use sensor_spectrum::audio::{frame_count, write_data};

#[test]
fn stereo_frames_take_left_then_right() {
    let mut output = [0.0f32; 6];
    write_data(&mut output, 2, &[(1.0, -1.0), (2.0, -2.0), (3.0, -3.0)]);
    assert_eq!(output, [1.0, -1.0, 2.0, -2.0, 3.0, -3.0]);
}

#[test]
fn mono_frames_take_left_only() {
    let mut output = [0i16; 3];
    write_data(&mut output, 1, &[(7, 70), (8, 80), (9, 90)]);
    assert_eq!(output, [7, 8, 9]);
}

#[test]
fn further_channels_repeat_the_right_sample() {
    let mut output = [0u16; 8];
    write_data(&mut output, 4, &[(1, 2), (3, 4)]);
    assert_eq!(output, [1, 2, 2, 2, 3, 4, 4, 4]);
}

#[test]
fn short_last_frame_is_filled_as_far_as_it_goes() {
    let mut output = [0i16; 5];
    write_data(&mut output, 3, &[(1, 2), (3, 4)]);
    assert_eq!(output, [1, 2, 2, 3, 4]);
}

#[test]
fn empty_output_needs_no_pairs() {
    let mut output: [i16; 0] = [];
    write_data(&mut output, 2, &[]);
    assert_eq!(output.len(), 0);
}

#[test]
fn frame_count_rounds_up() {
    assert_eq!(frame_count(0, 2), 0);
    assert_eq!(frame_count(6, 2), 3);
    assert_eq!(frame_count(5, 3), 2);
    assert_eq!(frame_count(1, 8), 1);
    assert_eq!(frame_count(7, 1), 7);
    assert_eq!(frame_count(usize::MAX, 2), usize::MAX / 2 + 1);
}

#[test]
fn frame_count_pairs_fill_the_output() {
    for len in 0..20usize {
        for channels in 1..5usize {
            let frames = frame_count(len, channels);
            let pairs: Vec<(u16, u16)> = (0..frames as u16).map(|f| (2 * f, 2 * f + 1)).collect();
            let mut output = vec![0xffffu16; len];
            write_data(&mut output, channels, &pairs);
            for (i, sample) in output.iter().enumerate() {
                let frame = (i / channels) as u16;
                let expected = if i % channels == 0 { 2 * frame } else { 2 * frame + 1 };
                assert_eq!(*sample, expected);
            }
        }
    }
}
