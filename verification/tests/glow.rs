#[test]
fn fullscreen_triangle_covers_screen() {
    // The vertex index picks a corner: 0 -> (-1, -1), 1 -> (-1, 3), 2 -> (3, -1);
    // the triangle covers the whole [-1, 1] x [-1, 1] screen.
    let verts: Vec<(f32, f32)> = (0..3)
        .map(|idx: u32| {
            let x = (idx / 2) as f32 * 4.0 - 1.0;
            let y = (idx % 2) as f32 * 4.0 - 1.0;
            (x, y)
        })
        .collect();
    assert_eq!(verts[0], (-1.0, -1.0));
    assert_eq!(verts[1], (-1.0, 3.0));
    assert_eq!(verts[2], (3.0, -1.0));
}
