use audio_visualizer::eye::{filter_close_values, is_dark_pixel, keep_dark_candidates};

#[test]
fn close_detections_collapse() {
    let points = vec![[0, 0], [3, 4], [10, 0], [20, 0], [21, 1]];
    assert_eq!(filter_close_values(&points, 10), vec![[0, 0], [10, 0], [20, 0]]);
    assert_eq!(filter_close_values(&points, 0), points);
    assert_eq!(filter_close_values(&[], 10), Vec::<[u32; 2]>::new());
    assert_eq!(filter_close_values(&[[5, 5], [5, 5]], 1), vec![[5, 5]]);
}

#[test]
fn detections_are_sorted_before_collapsing() {
    assert_eq!(filter_close_values(&[[1, 0], [0, 0]], 1), vec![[0, 0], [1, 0]]);
    assert_eq!(filter_close_values(&[[5, 5], [4, 5]], 3), vec![[4, 5]]);
    // row-by-row order, as pixels are enumerated
    let rows = vec![[30, 0], [2, 1], [31, 1], [1, 2]];
    assert_eq!(filter_close_values(&rows, 10), vec![[1, 2], [30, 0]]);
    assert_eq!(
        filter_close_values(&[[3, 9], [3, 1], [0, 7]], 0),
        vec![[0, 7], [3, 1], [3, 9]]
    );
}

#[test]
fn dark_is_within_a_fifth_of_black() {
    assert!(is_dark_pixel(0, 0, 0));
    assert!(is_dark_pixel(51, 0, 0));
    assert!(!is_dark_pixel(52, 0, 0));
    assert!(is_dark_pixel(29, 29, 29));
    assert!(!is_dark_pixel(30, 30, 30));
    assert!(!is_dark_pixel(255, 255, 255));
}

#[test]
fn candidates_on_dark_pixels_are_kept() {
    // 2 x 2 image: black, white / white, dark grey.
    let rgb = vec![0, 0, 0, 255, 255, 255, 255, 255, 255, 20, 20, 20];
    let points = vec![[0, 0], [1, 0], [0, 1], [1, 1], [2, 0], [0, 2]];
    assert_eq!(keep_dark_candidates(&points, &rgb, 2, 2), vec![[0, 0], [1, 1]]);
    assert_eq!(keep_dark_candidates(&points, &rgb[..6], 2, 2), vec![[0, 0]]);
}
