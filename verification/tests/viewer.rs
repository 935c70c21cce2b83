use screenshare::viewer::{data_url, jpeg_data_url, newest_frame, DecodedFrame};

#[test]
fn data_urls() {
    assert_eq!(data_url("QUJD"), "data:image/jpeg;base64,QUJD");
    assert_eq!(jpeg_data_url(&[0, 1, 2]), "data:image/jpeg;base64,AAEC");
    assert_eq!(jpeg_data_url(&[0xff]), "data:image/jpeg;base64,/w==");
    assert_eq!(jpeg_data_url(&[]), "data:image/jpeg;base64,");
    assert_eq!(jpeg_data_url(b"Man"), "data:image/jpeg;base64,TWFu");
}

#[test]
fn newest_frame_wins() {
    let f = |w: u32| DecodedFrame { width: w, height: 1, rgba: vec![0; (w * 4) as usize] };
    assert!(newest_frame(vec![]).is_none());
    assert_eq!(newest_frame(vec![f(1), f(2), f(3)]).unwrap().width, 3);
}
