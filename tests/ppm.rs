use ray_trace_challenge::ppm::ppm;

#[test]
fn test_save_blank() {
    let channels: Vec<u8> = [255u8, 204, 153].iter().cycle().take(3 * 10 * 2).cloned().collect();
    let text = String::from_utf8(ppm(10, 2, &channels)).unwrap();
    let half = "255 204 153 255 204 153 255 204 153 255 204 153 255 204 153 \n";
    let expected = format!("P3\n10 2\n255\n{half}{half}{half}{half}\n");
    assert_eq!(text, expected);
}

#[test]
fn ppm_of_small_values() {
    let text = String::from_utf8(ppm(2, 1, &vec![0, 7, 100, 10, 99, 255])).unwrap();
    assert_eq!(text, "P3\n2 1\n255\n0 7 100 10 99 255 \n\n");
}

#[test]
fn ppm_of_an_empty_image() {
    let text = String::from_utf8(ppm(0, 0, &vec![])).unwrap();
    assert_eq!(text, "P3\n0 0\n255\n\n");
}
