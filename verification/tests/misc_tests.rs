use kart_stocks::obs::{
    crop, jpeg_bytes, RgbFrame, image_frame, screenshot_bytes, screenshot_frame, screenshot_payload, source_line,
    ScreenshotError,
};
use kart_stocks::phash::{get_closest, THRESHOLD};
use kart_stocks::run::cycle_sleep_secs;
use kart_stocks::window::{expired, retain_unexpired, ActionText, Chart, Tone};

#[test]
fn screenshot_payloads() {
    assert_eq!(screenshot_payload("data:image/png;base64,QUJD"), Some("QUJD"));
    assert_eq!(screenshot_payload("no marker"), None);
    assert_eq!(screenshot_bytes("data:image/png;base64,QUJD"), Some(b"ABC".to_vec()));
    assert_eq!(screenshot_bytes("data:image/png;base64,aGk="), Some(b"hi".to_vec()));
    assert_eq!(screenshot_bytes("data:image/png;base64,!!"), None);
    assert_eq!(screenshot_bytes("plain"), None);
}

#[test]
fn source_lines() {
    assert_eq!(source_line(0, "Game Capture"), "  0: \"Game Capture\"");
    assert_eq!(source_line(12, ""), "  12: \"\"");
}

#[test]
fn closest_reference() {
    let d = vec![("a".to_string(), 30u32), ("b".to_string(), 5), ("c".to_string(), 5), ("d".to_string(), 9)];
    assert_eq!(get_closest(&d), Some("b".to_string()));
    let far = vec![("a".to_string(), THRESHOLD), ("b".to_string(), 40)];
    assert_eq!(get_closest(&far), None);
    assert_eq!(get_closest(&Vec::new()), None);
    let edge = vec![("x".to_string(), THRESHOLD - 1)];
    assert_eq!(get_closest(&edge), Some("x".to_string()));
}

#[test]
fn cycle_pacing() {
    assert_eq!(cycle_sleep_secs(10, 3), 7);
    assert_eq!(cycle_sleep_secs(10, 10), 0);
    assert_eq!(cycle_sleep_secs(10, 25), 0);
    assert_eq!(cycle_sleep_secs(-5, 0), 0);
}

#[test]
fn chart_series_follow_races() {
    let mut c = Chart::new(50);
    c.on_value(40);
    assert_eq!(c.value, 40);
    assert!(c.values.is_empty());
    assert_eq!(c.on_race_change(None), None);
    c.on_value(41);
    c.on_value(43);
    assert_eq!(c.values, vec![41, 43]);
    assert_eq!(c.on_race_change(Some(60)), Some(60));
    c.on_value(50);
    assert_eq!(c.values, vec![41, 43]);
    assert_eq!(c.value, 50);
    c.on_race_change(None);
    c.on_value(44);
    assert_eq!(c.values, vec![44]);
}

#[test]
fn action_texts() {
    let buy = ActionText { value: 30, special: false, is_buy: true };
    assert_eq!(buy.tone(), Tone::Purchase);
    assert_eq!(buy.label(), "$30");
    let payout = ActionText { value: 80, special: true, is_buy: false };
    assert_eq!(payout.tone(), Tone::Payout);
    assert_eq!(payout.label(), "$80");
    let loss = ActionText { value: -7, special: false, is_buy: false };
    assert_eq!(loss.tone(), Tone::Loss);
    assert_eq!(loss.label(), "-$7");
    let gain = ActionText { value: 0, special: false, is_buy: false };
    assert_eq!(gain.tone(), Tone::Gain);
    assert_eq!(gain.label(), "+$0");
    assert!(expired(3000, 3000));
    assert!(!expired(2999, 3000));
}

#[test]
fn retain_unexpired_keeps_order_of_survivors() {
    let mut texts = vec!["a", "b", "c", "d", "e"];
    let elapsed = vec![10u128, 3000, 2999, 5000, 0];
    retain_unexpired(&mut texts, &elapsed, 3000);
    assert_eq!(texts, vec!["a", "c", "e"]);
    let mut none: Vec<u8> = vec![];
    retain_unexpired(&mut none, &vec![], 1);
    assert!(none.is_empty());
    let mut all_gone = vec![1, 2];
    retain_unexpired(&mut all_gone, &vec![7, 9], 0);
    assert!(all_gone.is_empty());
}

#[test]
fn chart_over_a_sequence_of_events() {
    let mut c = Chart::new(10);
    c.on_value(11);
    c.on_race_change(None);
    c.on_race_change(Some(5));
    c.on_race_change(None);
    c.on_value(12);
    c.on_value(13);
    c.on_race_change(Some(40));
    c.on_value(14);
    assert!(!c.racing);
    assert_eq!(c.value, 14);
    assert_eq!(c.values, vec![12, 13]);
}

#[test]
fn screenshot_frames_decode() {
    // A 2x1 PNG: one red pixel, one blue pixel.
    let mut png: Vec<u8> = Vec::new();
    let img = image::RgbImage::from_raw(2, 1, vec![255, 0, 0, 0, 0, 255]).unwrap();
    img.write_to(&mut std::io::Cursor::new(&mut png), image::ImageFormat::Png).unwrap();
    let url = format!("data:image/png;base64,{}", base64::Engine::encode(&base64::engine::general_purpose::STANDARD, &png));
    let f = screenshot_frame(&url).ok().unwrap();
    assert_eq!((f.width, f.height), (2, 1));
    assert_eq!(f.pixels, vec![255, 0, 0, 0, 0, 255]);
    assert_eq!(screenshot_frame("data:image/png;base64,QUJD").err(), Some(ScreenshotError::NotImage));
    assert_eq!(screenshot_frame("data:image/png;base64,!!").err(), Some(ScreenshotError::NotBase64));
    assert_eq!(screenshot_frame("nothing").err(), Some(ScreenshotError::NoPayload));
    let g = image_frame(&png).unwrap();
    assert_eq!((g.width, g.height, g.pixels), (2, 1, vec![255, 0, 0, 0, 0, 255]));
    assert!(image_frame(b"not an image").is_none());
}

#[test]
fn cropping_and_encoding_frames() {
    // 3x2 frame, pixel (c, r) = [10r+c, 100+10r+c, 200+c].
    let mut pixels = Vec::new();
    for r in 0..2u8 {
        for c in 0..3u8 {
            pixels.extend_from_slice(&[10 * r + c, 100 + 10 * r + c, 200 + c]);
        }
    }
    let frame = RgbFrame { width: 3, height: 2, pixels: pixels.clone() };
    let img = image::RgbImage::from_raw(3, 2, pixels).unwrap();
    let part = crop(&frame, 1, 0, 2, 2);
    assert_eq!((part.width, part.height), (2, 2));
    let mut original = img.clone();
    let expected = image::GenericImage::sub_image(&mut original, 1, 0, 2, 2).to_image();
    assert_eq!(part.pixels, expected.into_raw());
    let empty = crop(&frame, 3, 2, 0, 0);
    assert!(empty.pixels.is_empty());
    let jpeg = jpeg_bytes(&frame).unwrap();
    assert_eq!(&jpeg[..2], &[0xFF, 0xD8]);
    let back = kart_stocks::obs::image_frame(&jpeg).unwrap();
    assert_eq!((back.width, back.height), (3, 2));
}
