use ray_trace_challenge::canvas::Canvas;

#[test]
fn test_create() {
    let c = Canvas::new(10, 20, (0.0, 0.0, 0.0));
    assert_eq!(c.get(3, 4).unwrap(), (0.0, 0.0, 0.0));
    assert_eq!(c.width(), 10);
    assert_eq!(c.height(), 20);
}

#[test]
fn test_set_pixel() {
    let mut c = Canvas::new(10, 20, (0.0, 0.0, 0.0));
    c.write_pixel(1, 0, (1.0, 0.0, 0.0));
    assert_eq!(c.get(1, 0).unwrap(), (1.0, 0.0, 0.0));
    assert_eq!(c.get(0, 1).unwrap(), (0.0, 0.0, 0.0));
}

#[test]
fn writes_outside_the_canvas_are_ignored() {
    let mut c = Canvas::new(2, 2, 0u8);
    c.write_pixel(2, 0, 7);
    c.write_pixel(0, 2, 7);
    for x in 0..2 {
        for y in 0..2 {
            assert_eq!(c.get(x, y), Some(0));
        }
    }
    assert_eq!(c.get(2, 0), None);
}

#[test]
fn fill_sets_every_pixel() {
    let mut c = Canvas::new(3, 2, 0u8);
    c.write_pixel(1, 1, 5);
    c.fill(9);
    for x in 0..3 {
        for y in 0..2 {
            assert_eq!(c.get(x, y), Some(9));
        }
    }
}
