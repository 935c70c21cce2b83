use screenshare::capture::{
    capture_source_from_request, encode_frame, rgba_to_rgb, frame_interval_ms, list_windows, pacing_sleep_ms,
    window_choice_label, CaptureSource, LatestFrame, RawWindow, WindowInfo,
};
use screenshare::viewer::decode_frame;

fn win(app: &str, title: &str) -> WindowInfo {
    WindowInfo { id: 7, app_name: app.into(), title: title.into() }
}

#[test]
fn source_labels() {
    assert_eq!(CaptureSource::FullScreen.to_string(), "Full Screen");
    assert_eq!(CaptureSource::Window(win("Firefox", "")).to_string(), "Firefox");
    assert_eq!(CaptureSource::Window(win("Firefox", "Home")).to_string(), "Firefox - Home");
    let t50 = "x".repeat(50);
    assert_eq!(CaptureSource::Window(win("A", &t50)).to_string(), format!("A - {t50}"));
    let t51 = format!("{}yyyy", "x".repeat(47));
    assert_eq!(CaptureSource::Window(win("A", &t51)).to_string(), format!("A - {}…", "x".repeat(47)));
}

#[test]
fn source_label_cuts_by_bytes() {
    // 45 ASCII bytes, then a two-byte character ending at byte 47, then more.
    let title = format!("{}é{}", "a".repeat(45), "b".repeat(10));
    assert_eq!(title.len(), 57);
    assert!(title.is_char_boundary(47));
    let label = CaptureSource::Window(win("App", &title)).to_string();
    assert_eq!(label, format!("App - {}é…", "a".repeat(45)));
}

#[test]
fn window_choice_labels() {
    let t60 = "z".repeat(60);
    assert_eq!(window_choice_label(&win("T", &t60)), format!("T - {t60}"));
    let t61 = "z".repeat(61);
    assert_eq!(window_choice_label(&win("T", &t61)), format!("T - {}…", "z".repeat(57)));
    assert_eq!(window_choice_label(&win("T", "")), "T");
}

fn raw(min: Option<bool>, w: Option<u32>, h: Option<u32>, id: Option<u32>, app: Option<&str>, title: Option<&str>) -> RawWindow {
    RawWindow {
        is_minimized: min,
        width: w,
        height: h,
        id,
        app_name: app.map(String::from),
        title: title.map(String::from),
    }
}

#[test]
fn windows_offered() {
    let raws = vec![
        raw(Some(false), Some(800), Some(600), Some(1), Some("Term"), Some("bash")),
        raw(Some(true), Some(800), Some(600), Some(2), Some("Min"), Some("x")),
        raw(None, Some(800), Some(600), Some(3), Some("Unknown"), Some("x")),
        raw(Some(false), Some(0), Some(600), Some(4), Some("Zero"), Some("x")),
        raw(Some(false), Some(800), None, Some(5), Some("NoH"), Some("x")),
        raw(Some(false), Some(800), Some(600), None, Some("NoId"), Some("x")),
        raw(Some(false), Some(800), Some(600), Some(6), None, Some("")),
        raw(Some(false), Some(10), Some(10), Some(7), None, Some("Untitled app")),
    ];
    let out = list_windows(&raws);
    assert_eq!(out.len(), 2);
    assert_eq!(out[0].id, 1);
    assert_eq!(out[0].app_name, "Term");
    assert_eq!(out[0].title, "bash");
    assert_eq!(out[1].id, 7);
    assert_eq!(out[1].app_name, "");
    assert_eq!(out[1].title, "Untitled app");
}

#[test]
fn request_to_capture_source() {
    match capture_source_from_request("window", Some(42), Some("Code".into()), None) {
        CaptureSource::Window(w) => {
            assert_eq!(w.id, 42);
            assert_eq!(w.app_name, "Code");
            assert_eq!(w.title, "");
        }
        CaptureSource::FullScreen => panic!("expected a window"),
    }
    match capture_source_from_request("window", None, None, None) {
        CaptureSource::Window(w) => assert_eq!(w.id, 0),
        CaptureSource::FullScreen => panic!("expected a window"),
    }
    assert!(matches!(capture_source_from_request("screen", Some(1), None, None), CaptureSource::FullScreen));
    assert_eq!(CaptureSource::Window(win("a", "b")).window_id(), Some(7));
    assert_eq!(CaptureSource::FullScreen.window_id(), None);
}

#[test]
fn pacing() {
    assert_eq!(frame_interval_ms(), 66);
    assert_eq!(pacing_sleep_ms(0), 66);
    assert_eq!(pacing_sleep_ms(16), 50);
    assert_eq!(pacing_sleep_ms(66), 0);
    assert_eq!(pacing_sleep_ms(1000), 0);
}

#[test]
fn jpeg_frames_encode_and_decode() {
    let rgba: Vec<u8> = [255u8, 0, 0, 255].repeat(16 * 8);
    let jpeg = encode_frame(16, 8, &rgba).expect("encodes");
    assert_eq!(&jpeg[..2], &[0xff, 0xd8]);
    assert_ne!(jpeg, rgba);
    let frame = decode_frame(&jpeg).expect("decodes");
    assert_eq!(frame.width, 16);
    assert_eq!(frame.height, 8);
    assert_eq!(frame.rgba.len(), 16 * 8 * 4);
    assert!(frame.rgba[0] > 200 && frame.rgba[1] < 60);
}

#[test]
fn jpeg_encoder_refusals() {
    assert!(encode_frame(0, 8, &[]).is_none());
    assert!(encode_frame(4, 4, &[0u8; 10]).is_none());
    assert!(encode_frame(70000, 1, &vec![0u8; 70000 * 4]).is_none());
    assert!(decode_frame(&[1, 2, 3, 4]).is_none());
}

#[test]
fn latest_frame_keeps_last_success() {
    let mut slot = LatestFrame::new();
    assert!(slot.current().is_none());
    slot.store(Some(vec![1, 2, 3]));
    slot.store(None);
    assert_eq!(slot.current(), Some(vec![1, 2, 3]));
    slot.capture(0, 0, &[]);
    assert_eq!(slot.current(), Some(vec![1, 2, 3]));
    let rgba = vec![0u8; 4 * 4 * 4];
    slot.capture(4, 4, &rgba);
    let f = slot.current().unwrap();
    assert_eq!(&f[..2], &[0xff, 0xd8]);
}

#[test]
fn alpha_is_dropped() {
    assert_eq!(rgba_to_rgb(&[1, 2, 3, 4, 5, 6, 7, 8, 9]), vec![1, 2, 3, 5, 6, 7]);
    assert_eq!(rgba_to_rgb(&[]), Vec::<u8>::new());
}
