use linuxpal::renderer::{blit_frame, clear};
use linuxpal::sprites::Frame;

#[test]
fn premultiplied_blit_matches_float_scaling_for_every_value_and_alpha() {
    let mut data = Vec::with_capacity(256 * 256 * 4);
    for a in 0..256u32 {
        for v in 0..256u32 {
            data.extend_from_slice(&[v as u8, v as u8, v as u8, a as u8]);
        }
    }
    let frame = Frame { data, width: 256, height: 256 };
    let stride = 256 * 4;
    let mut buf = vec![0u8; stride * 256];
    blit_frame(&mut buf, 256, 256, stride, &frame, 0);
    for a in 0..256usize {
        for v in 0..256usize {
            let off = a * stride + v * 4;
            let alpha = a as f32 / 255.0;
            let expect = (v as f32 * alpha) as u8;
            assert_eq!(buf[off], expect, "v={v} a={a}");
            assert_eq!(buf[off + 1], expect);
            assert_eq!(buf[off + 2], expect);
            assert_eq!(buf[off + 3], a as u8);
        }
    }
}

#[test]
fn blit_converts_rgba_to_bgra_and_clips() {
    let frame = Frame { data: vec![10, 20, 30, 255, 1, 2, 3, 255], width: 2, height: 1 };
    let mut buf = vec![7u8; 4 * 2];
    blit_frame(&mut buf, 1, 1, 8, &frame, 1);
    assert_eq!(buf, vec![7, 7, 7, 7, 30, 20, 10, 255]);
    let short = Frame { data: vec![1, 2, 3], width: 1, height: 1 };
    let mut buf2 = vec![9u8; 4];
    blit_frame(&mut buf2, 1, 1, 4, &short, 0);
    assert_eq!(buf2, vec![9, 9, 9, 9]);
    clear(&mut buf2);
    assert_eq!(buf2, vec![0, 0, 0, 0]);
}
