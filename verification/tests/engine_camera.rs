use ctrl_eqip::engine::camera::{create_camera, flip_horizontal_rgb_in_place, CameraConfig, CameraError};

fn config_with(source: Option<&str>, index: u32) -> CameraConfig {
    let mut c = CameraConfig::default();
    c.source = source.map(|s| s.to_string());
    c.index = index;
    c
}

#[test]
fn default_config() {
    let c = CameraConfig::default();
    assert!(c.source.is_none());
    assert_eq!((c.index, c.width, c.height, c.fps), (0, 640, 480, 30));
    assert!(!c.flip_horizontal);
}

#[test]
fn stream_urls_need_stream_backend() {
    assert!(matches!(create_camera(&config_with(Some("rtsp://cam/1"), 3)), Err(CameraError::RtspDisabled)));
    assert!(matches!(create_camera(&config_with(Some("http://cam"), 3)), Err(CameraError::RtspDisabled)));
}

#[test]
fn numeric_source_is_usb_index() {
    assert_eq!(create_camera(&config_with(Some("2"), 5)).unwrap(), 2);
    assert_eq!(create_camera(&config_with(Some("+7"), 5)).unwrap(), 7);
    assert_eq!(create_camera(&config_with(Some("007"), 5)).unwrap(), 7);
    assert_eq!(create_camera(&config_with(Some("4294967295"), 5)).unwrap(), 4294967295);
}

#[test]
fn other_sources_use_index() {
    assert_eq!(create_camera(&config_with(None, 4)).unwrap(), 4);
    assert_eq!(create_camera(&config_with(Some("front"), 4)).unwrap(), 4);
    assert_eq!(create_camera(&config_with(Some("4294967296"), 4)).unwrap(), 4);
    assert_eq!(create_camera(&config_with(Some("-1"), 4)).unwrap(), 4);
    assert_eq!(create_camera(&config_with(Some(""), 4)).unwrap(), 4);
    assert_eq!(create_camera(&config_with(Some("rtsp:/x"), 4)).unwrap(), 4);
}

#[test]
fn flip_mirrors_each_row() {
    // 3 pixels wide, 2 rows, plus 2 trailing bytes
    let mut rgb: Vec<u8> = (0u8..20).collect();
    flip_horizontal_rgb_in_place(&mut rgb, 3, 2);
    assert_eq!(
        rgb,
        vec![6, 7, 8, 3, 4, 5, 0, 1, 2, 15, 16, 17, 12, 13, 14, 9, 10, 11, 18, 19]
    );
}

#[test]
fn flip_twice_restores() {
    let original: Vec<u8> = (0u8..24).collect();
    let mut rgb = original.clone();
    flip_horizontal_rgb_in_place(&mut rgb, 4, 2);
    assert_ne!(rgb, original);
    flip_horizontal_rgb_in_place(&mut rgb, 4, 2);
    assert_eq!(rgb, original);
}

#[test]
fn flip_empty_frames() {
    let mut rgb = vec![1u8, 2, 3];
    flip_horizontal_rgb_in_place(&mut rgb, 0, 5);
    flip_horizontal_rgb_in_place(&mut rgb, 1, 0);
    flip_horizontal_rgb_in_place(&mut rgb, 1, 1);
    assert_eq!(rgb, vec![1, 2, 3]);
}
