use linuxpal::geometry::{choose_target, output_index, sort_outputs, Rect};

fn r(id: usize, x: i32, y: i32) -> Rect {
    Rect { id, x, y, w: 1920, h: 1080 }
}

#[test]
fn layout_order_is_by_left_then_top_and_stable() {
    let v = vec![r(0, 1920, 0), r(1, 0, 1080), r(2, 0, 0), r(3, 1920, 0), r(4, -1920, 500)];
    let s = sort_outputs(&v);
    let ids: Vec<usize> = s.iter().map(|g| g.id).collect();
    assert_eq!(ids, vec![4, 2, 1, 0, 3]);
}

#[test]
fn points_are_found_on_the_first_output_holding_them() {
    let v = vec![r(0, 0, 0), r(1, 1920, 0)];
    assert_eq!(output_index(&v, 0, 0), Some(0));
    assert_eq!(output_index(&v, 1919, 1079), Some(0));
    assert_eq!(output_index(&v, 1920, 10), Some(1));
    assert_eq!(output_index(&v, 3840, 10), None);
    assert_eq!(output_index(&v, 10, -1), None);
}

#[test]
fn targets_land_on_real_outputs() {
    let v = vec![r(0, 0, 0), Rect { id: 1, x: 1920, y: 300, w: 1280, h: 720 }];
    let mut rng = 12345u64;
    for _ in 0..500 {
        let (next, tx, ty) = choose_target(&v, rng);
        rng = next;
        assert!(tx >= 0);
        let on_a = ty >= 0 && ty <= 1080 - 165;
        let on_b = ty >= 300 && ty <= 300 + 720 - 165;
        assert!(on_a || on_b, "ty={ty}");
    }
    let (_, tx, ty) = choose_target(&vec![], 99);
    assert!((16..=1400).contains(&tx));
    assert!((16..=915).contains(&ty));
}
