use rustautogui::errors::AutoGuiError;
use rustautogui::imgtools::{
    cut_screen_region_gray, cut_screen_region_rgba, gray_image_dimensions, rgba_image_dimensions,
};
use rustautogui::screen::Screen;

fn bgra(pixels: &[(u8, u8, u8)]) -> Vec<u8> {
    let mut v = Vec::new();
    for &(b, g, r) in pixels {
        v.extend_from_slice(&[b, g, r, 0]);
    }
    v
}

/// The RGBA bytes of pixels given as (blue, green, red): red, green, blue, 255.
fn rgba(pixels: &[(u8, u8, u8)]) -> Vec<u8> {
    let mut v = Vec::new();
    for &(b, g, r) in pixels {
        v.extend_from_slice(&[r, g, b, 255]);
    }
    v
}

fn img_error(e: &AutoGuiError) -> &str {
    match e {
        AutoGuiError::ImgError(m) => m.as_str(),
        other => panic!("not an image error: {:?}", other),
    }
}

#[test]
fn new_screen_has_zeroed_buffer_and_full_region() {
    let s = Screen::new(3, 2, 11, 12, 13);
    assert_eq!(s.dimension(), (3, 2));
    assert_eq!(s.region_dimension(), (3, 2));
    assert_eq!(s.screen_data.pixel_data, vec![0u8; 24]);
    assert_eq!(
        (s.screen_data.h_screen_dc, s.screen_data.h_memory_dc, s.screen_data.h_bitmap),
        (11, 12, 13)
    );
    assert_eq!(s.capture_buffer(), vec![0u8; 24]);
}

#[test]
fn new_screen_of_zero_size() {
    let s = Screen::new(0, 0, 0, 0, 0);
    assert!(s.screen_data.pixel_data.is_empty());
    assert!(s.capture_buffer().is_empty());
}

#[test]
fn rgba_conversion_orders_red_green_blue_alpha() {
    let mut s = Screen::new(2, 1, 0, 0, 0);
    s.screen_data.pixel_data = bgra(&[(1, 2, 3), (4, 5, 6)]);
    let img = s.convert_bitmap_to_rgba().unwrap();
    assert_eq!(img.image.dimensions(), (2, 1));
    assert_eq!(img.image.as_raw(), &vec![3, 2, 1, 255, 6, 5, 4, 255]);
    assert_eq!(img.image.get_pixel(0, 0).0, [3, 2, 1, 255]);
}

#[test]
fn conversions_ignore_unused_byte() {
    let mut s1 = Screen::new(2, 1, 0, 0, 0);
    let mut s2 = Screen::new(2, 1, 0, 0, 0);
    s1.screen_data.pixel_data = vec![10, 20, 30, 0, 40, 50, 60, 0];
    s2.screen_data.pixel_data = vec![10, 20, 30, 99, 40, 50, 60, 255];
    assert_eq!(
        s1.convert_bitmap_to_rgba().unwrap().image.as_raw(),
        s2.convert_bitmap_to_rgba().unwrap().image.as_raw()
    );
    assert_eq!(
        s1.convert_bitmap_to_grayscale().unwrap().image.as_raw(),
        s2.convert_bitmap_to_grayscale().unwrap().image.as_raw()
    );
}

#[test]
fn rgba_conversion_fails_on_short_data() {
    let mut s = Screen::new(2, 2, 0, 0, 0);
    s.screen_data.pixel_data = bgra(&[(1, 2, 3)]);
    let e = s.convert_bitmap_to_rgba().unwrap_err();
    assert_eq!(img_error(&e), "failed to convert to RGBA");
}

#[test]
fn grayscale_uses_luminance_weights() {
    let mut s = Screen::new(3, 1, 0, 0, 0);
    // (blue, green, red)
    s.screen_data.pixel_data = bgra(&[(10, 20, 30), (255, 255, 255), (0, 0, 100)]);
    let img = s.convert_bitmap_to_grayscale().unwrap();
    assert_eq!(img.image.dimensions(), (3, 1));
    // (30*30 + 20*59 + 10*11) / 100 = 21; white stays 255; (100*30)/100 = 30
    assert_eq!(img.image.as_raw(), &vec![21, 255, 30]);
}

#[test]
fn grayscale_equal_channels_keep_level() {
    let mut s = Screen::new(4, 1, 0, 0, 0);
    s.screen_data.pixel_data = bgra(&[(0, 0, 0), (77, 77, 77), (128, 128, 128), (254, 254, 254)]);
    let img = s.convert_bitmap_to_grayscale().unwrap();
    assert_eq!(img.image.as_raw(), &vec![0, 77, 128, 254]);
}

#[test]
fn grayscale_ignores_trailing_partial_pixel() {
    let mut s = Screen::new(1, 1, 0, 0, 0);
    let mut data = bgra(&[(50, 50, 50)]);
    data.extend_from_slice(&[9, 9]);
    s.screen_data.pixel_data = data;
    let img = s.convert_bitmap_to_grayscale().unwrap();
    assert_eq!(img.image.as_raw(), &vec![50]);
}

#[test]
fn grayscale_fails_on_short_data() {
    let mut s = Screen::new(2, 2, 0, 0, 0);
    s.screen_data.pixel_data = bgra(&[(1, 2, 3), (1, 2, 3), (1, 2, 3)]);
    let e = s.convert_bitmap_to_grayscale().unwrap_err();
    assert_eq!(img_error(&e), "could not convert image to grayscale");
}

#[test]
fn grab_screen_image_cuts_region() {
    let mut s = Screen::new(3, 2, 0, 0, 0);
    let capture = bgra(&[(1, 1, 1), (2, 2, 2), (3, 3, 3), (4, 4, 4), (5, 5, 5), (6, 6, 6)]);
    let img = s.grab_screen_image((1, 0, 2, 2), Ok(capture.clone())).unwrap();
    assert_eq!(s.region_dimension(), (2, 2));
    assert_eq!(s.screen_data.pixel_data, capture);
    assert_eq!(img.image.dimensions(), (2, 2));
    assert_eq!(img.image.as_raw(), &rgba(&[(2, 2, 2), (3, 3, 3), (5, 5, 5), (6, 6, 6)]));
}

#[test]
fn grab_screen_image_passes_capture_failure_on() {
    let mut s = Screen::new(3, 2, 0, 0, 0);
    let before = s.screen_data.pixel_data.clone();
    let r = s.grab_screen_image((0, 0, 1, 1), Err(AutoGuiError::OSFailure("no screen".to_string())));
    match r {
        Err(AutoGuiError::OSFailure(m)) => assert_eq!(m, "no screen"),
        other => panic!("unexpected {:?}", other.map(|_| ())),
    }
    assert_eq!(s.region_dimension(), (1, 1));
    assert_eq!(s.screen_data.pixel_data, before);
}

#[test]
fn grab_screen_image_reports_short_capture() {
    let mut s = Screen::new(3, 2, 0, 0, 0);
    let r = s.grab_screen_image((0, 0, 9, 9), Ok(vec![0u8; 4]));
    assert_eq!(img_error(&r.map(|_| ()).unwrap_err()), "failed to convert to RGBA");
    assert_eq!(s.region_dimension(), (9, 9));
}

#[test]
fn grab_grayscale_cuts_region() {
    let mut s = Screen::new(2, 2, 0, 0, 0);
    let capture = bgra(&[(10, 10, 10), (20, 20, 20), (30, 30, 30), (40, 40, 40)]);
    let img = s.grab_screen_image_grayscale(&(0, 1, 2, 1), Ok(capture)).unwrap();
    assert_eq!(img.image.dimensions(), (2, 1));
    assert_eq!(img.image.as_raw(), &vec![30, 40]);
    assert_eq!(s.region_dimension(), (2, 1));
}

#[test]
fn grab_grayscale_reports_short_capture() {
    let mut s = Screen::new(2, 2, 0, 0, 0);
    let r = s.grab_screen_image_grayscale(&(0, 0, 1, 1), Ok(vec![1u8; 12]));
    assert_eq!(img_error(&r.map(|_| ()).unwrap_err()), "could not convert image to grayscale");
}

#[test]
fn grab_screenshot_is_whole_capture() {
    let mut s = Screen::new(1, 2, 0, 0, 0);
    let capture = bgra(&[(7, 8, 9), (1, 2, 3)]);
    let img = s.grab_screenshot(Ok(capture.clone())).unwrap();
    assert_eq!(img.image.dimensions(), (1, 2));
    assert_eq!(img.image.as_raw(), &rgba(&[(7, 8, 9), (1, 2, 3)]));
    assert_eq!(s.screen_data.pixel_data, capture);
    assert_eq!(s.region_dimension(), (1, 2));
}

#[test]
fn grab_screenshot_passes_capture_failure_on() {
    let mut s = Screen::new(1, 2, 0, 0, 0);
    let r = s.grab_screenshot(Err(AutoGuiError::OSFailure("busy".to_string())));
    assert!(matches!(r, Err(AutoGuiError::OSFailure(_))));
}

#[test]
fn cutting_whole_image_gives_it_back() {
    let mut s = Screen::new(2, 2, 0, 0, 0);
    let capture = bgra(&[(1, 2, 3), (4, 5, 6), (7, 8, 9), (10, 11, 12)]);
    let img = s.grab_screenshot(Ok(capture.clone())).unwrap();
    assert_eq!(rgba_image_dimensions(&img), (2, 2));
    let whole = cut_screen_region_rgba(0, 0, 2, 2, &img);
    assert_eq!(whole.image.as_raw(), img.image.as_raw());
    let gray = s.convert_bitmap_to_grayscale().unwrap();
    assert_eq!(gray_image_dimensions(&gray), (2, 2));
    let whole_gray = cut_screen_region_gray(0, 0, 2, 2, &gray);
    assert_eq!(whole_gray.image.as_raw(), gray.image.as_raw());
}

#[test]
fn cutting_empty_region() {
    let mut s = Screen::new(2, 2, 0, 0, 0);
    let img = s.grab_screenshot(Ok(vec![5u8; 16])).unwrap();
    let empty = cut_screen_region_rgba(2, 1, 0, 1, &img);
    assert_eq!(empty.image.dimensions(), (0, 1));
    assert!(empty.image.as_raw().is_empty());
}

#[test]
fn os_error_becomes_os_failure() {
    let err = windows_result::Error::from_hresult(windows_result::HRESULT(0x8000_4005u32 as i32));
    assert!(matches!(AutoGuiError::from_os_error(err), AutoGuiError::OSFailure(_)));
}

#[test]
fn grab_sequence_keeps_size_and_tracks_last_region() {
    let mut s = Screen::new(4, 3, 1, 2, 3);
    assert_eq!(s.region_dimension(), (4, 3));
    let _ = s.grab_screen_image((0, 0, 2, 1), Ok(vec![0u8; 48]));
    let _ = s.grab_screenshot(Err(AutoGuiError::OSFailure("x".to_string())));
    assert_eq!(s.region_dimension(), (2, 1));
    let _ = s.grab_screen_image_grayscale(&(1, 1, 3, 2), Err(AutoGuiError::OSFailure("y".to_string())));
    assert_eq!(s.region_dimension(), (3, 2));
    let _ = s.grab_screenshot(Ok(vec![0u8; 48]));
    assert_eq!(s.region_dimension(), (3, 2));
    assert_eq!(s.dimension(), (4, 3));
    assert_eq!(
        (s.screen_data.h_screen_dc, s.screen_data.h_memory_dc, s.screen_data.h_bitmap),
        (1, 2, 3)
    );
}

#[test]
fn os_failure_carries_message() {
    match AutoGuiError::os_failure("Access is denied.".to_string()) {
        AutoGuiError::OSFailure(m) => assert_eq!(m, "Access is denied."),
        other => panic!("unexpected {:?}", other),
    }
}

#[test]
fn rgba_conversion_keeps_trailing_bytes() {
    let mut s = Screen::new(1, 1, 0, 0, 0);
    s.screen_data.pixel_data = vec![1, 2, 3, 0, 7, 8];
    let img = s.convert_bitmap_to_rgba().unwrap();
    assert_eq!(img.image.dimensions(), (1, 1));
    assert_eq!(img.image.as_raw(), &vec![3, 2, 1, 255, 7, 8]);
}
