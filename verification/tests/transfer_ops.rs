use coppas::clipboard::{ClipData, SimClipboard};
use coppas::negotiate::SelectedImage;
use coppas::transfer::{copy_text, paste_image, paste_text, TransferError};
use coppas::ImageFormat;

#[test]
fn copy_then_paste_round_trips_hello() {
    // Copy mode followed immediately by text paste yields the identical
    // text back.
    let mut clip = SimClipboard::new();
    copy_text(&mut clip, "Hello".to_string());
    match paste_text(&clip) {
        Ok(Some(t)) => assert_eq!(t, "Hello"),
        _ => panic!("expected the copied text back"),
    }
}

#[test]
fn copy_replaces_previous_clipboard_content() {
    let mut clip = SimClipboard::new();
    clip.put("Png".to_string(), ClipData::Bytes(vec![1, 2]));
    copy_text(&mut clip, "fresh".to_string());
    assert!(!clip.advertises("Png"));
    assert!(clip.advertises("CF_UNICODETEXT"));
    match paste_text(&clip) {
        Ok(Some(t)) => assert_eq!(t, "fresh"),
        _ => panic!("expected the copied text back"),
    }
}

#[test]
fn repeated_paste_is_idempotent() {
    // Without an intervening copy or clipboard mutation, every paste
    // returns identical output.
    let mut clip = SimClipboard::new();
    copy_text(&mut clip, "steady".to_string());
    let first = paste_text(&clip);
    let second = paste_text(&clip);
    let third = paste_text(&clip);
    for r in [&first, &second, &third] {
        match r {
            Ok(Some(t)) => assert_eq!(t, "steady"),
            _ => panic!("expected the copied text back"),
        }
    }
    let candidates = vec![ImageFormat::Png];
    clip.put("Png".to_string(), ClipData::Bytes(vec![4, 5, 6]));
    for _ in 0..3 {
        match paste_image(&candidates, &clip) {
            Ok(SelectedImage::BinaryImage { format, bytes }) => {
                assert_eq!(format, ImageFormat::Png);
                assert_eq!(bytes, vec![4, 5, 6]);
            }
            _ => panic!("expected the same binary selection each time"),
        }
    }
}

#[test]
fn paste_without_text_formats_outputs_nothing() {
    // A clipboard holding only non-text content is a normal zero-output
    // success for text paste.
    let mut clip = SimClipboard::new();
    clip.put("Png".to_string(), ClipData::Bytes(vec![1]));
    match paste_text(&clip) {
        Ok(None) => {}
        _ => panic!("expected a normal empty outcome"),
    }
    let empty = SimClipboard::new();
    match paste_text(&empty) {
        Ok(None) => {}
        _ => panic!("expected a normal empty outcome"),
    }
}

#[test]
fn advertised_legacy_text_without_unicode_fails_the_read() {
    // A text variant is advertised, so paste commits to reading the
    // Unicode representation; its absence is the fatal read failure.
    let mut clip = SimClipboard::new();
    clip.put("CF_OEMTEXT".to_string(), ClipData::Text("legacy".to_string()));
    match paste_text(&clip) {
        Err(TransferError::ReadFailed) => {}
        _ => panic!("expected a read failure"),
    }
}

#[test]
fn unicode_text_with_binary_payload_fails_the_read() {
    let mut clip = SimClipboard::new();
    clip.put("CF_UNICODETEXT".to_string(), ClipData::Bytes(vec![0xff]));
    match paste_text(&clip) {
        Err(TransferError::ReadFailed) => {}
        _ => panic!("expected a read failure"),
    }
}

#[test]
fn binary_scenario_reports_count_matching_payload() {
    // The clipboard advertises only a bitmap-family format; requesting
    // ["Png", "Bmp"] takes the binary path and the reported byte count
    // equals the payload written to the output stream.
    let mut clip = SimClipboard::new();
    let payload = vec![0x42u8, 0x4d, 0x00, 0x01, 0x02];
    clip.put("Bmp".to_string(), ClipData::Bytes(payload.clone()));
    let candidates = vec![ImageFormat::Png, ImageFormat::Bmp];
    let img = match paste_image(&candidates, &clip) {
        Ok(img) => img,
        Err(_) => panic!("expected a successful selection"),
    };
    match &img {
        SelectedImage::BinaryImage { format, bytes } => {
            assert_eq!(*format, ImageFormat::Bmp);
            assert_eq!(*bytes, payload);
        }
        _ => panic!("expected the binary path"),
    }
    let (out, count) = img.binary_payload().expect("binary selection has a payload");
    assert_eq!(out, payload);
    assert_eq!(count, payload.len());
}

#[test]
fn non_binary_selection_has_no_binary_payload() {
    let mut clip = SimClipboard::new();
    clip.put("Svg".to_string(), ClipData::Text("<svg/>".to_string()));
    let candidates = vec![ImageFormat::Svg];
    match paste_image(&candidates, &clip) {
        Ok(img) => assert!(img.binary_payload().is_none()),
        Err(_) => panic!("expected a successful selection"),
    }
    assert!(SelectedImage::NotFound.binary_payload().is_none());
}

#[test]
fn clipboard_read_operations_see_what_was_put() {
    let mut clip = SimClipboard::new();
    clip.put("Svg".to_string(), ClipData::Text("<svg/>".to_string()));
    clip.put("Png".to_string(), ClipData::Bytes(vec![9]));
    assert_eq!(clip.read_text("Svg"), Some("<svg/>".to_string()));
    assert_eq!(clip.read_bytes("Png"), Some(vec![9]));
    assert_eq!(clip.read_bytes("Svg"), None);
    assert_eq!(clip.read_text("Png"), None);
    assert_eq!(clip.read_text("Gone"), None);
    // A second put under the same name replaces the payload.
    clip.put("Png".to_string(), ClipData::Bytes(vec![7, 8]));
    assert_eq!(clip.read_bytes("Png"), Some(vec![7, 8]));
    // Clearing removes every advertised format.
    clip.clear();
    assert!(!clip.advertises("Svg"));
    assert!(!clip.advertises("Png"));
    assert!(clip.advertised_names().is_empty());
}

#[test]
fn advertised_names_cover_exactly_the_content() {
    let mut clip = SimClipboard::new();
    clip.put("Bmp".to_string(), ClipData::Bytes(vec![1]));
    clip.put("Gif".to_string(), ClipData::Bytes(vec![2]));
    let mut names = clip.advertised_names();
    names.sort();
    assert_eq!(names, vec!["Bmp".to_string(), "Gif".to_string()]);
}
