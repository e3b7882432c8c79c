use coppas::clipboard::{ClipData, SimClipboard};
use coppas::formats::{default_preference, format_name, is_string_encoded, parse_format, resolve_candidates};
use coppas::negotiate::{choose_format, select, ExtractError, SelectedImage};
use coppas::ImageFormat;

fn clip_with(entries: Vec<(&str, ClipData)>) -> SimClipboard {
    let mut clip = SimClipboard::new();
    for (id, data) in entries {
        clip.put(id.to_string(), data);
    }
    clip
}

fn bytes(v: &[u8]) -> ClipData {
    ClipData::Bytes(v.to_vec())
}

fn text(s: &str) -> ClipData {
    ClipData::Text(s.to_string())
}

#[test]
fn parse_accepts_each_registered_name() {
    assert_eq!(parse_format("Svg"), Some(ImageFormat::Svg));
    assert_eq!(parse_format("Ico"), Some(ImageFormat::Ico));
    assert_eq!(parse_format("Png"), Some(ImageFormat::Png));
    assert_eq!(parse_format("Bmp"), Some(ImageFormat::Bmp));
    assert_eq!(parse_format("Jpeg"), Some(ImageFormat::Jpeg));
    assert_eq!(parse_format("Gif"), Some(ImageFormat::Gif));
}

#[test]
fn parse_rejects_other_spellings() {
    assert_eq!(parse_format("png"), None);
    assert_eq!(parse_format("PNG"), None);
    assert_eq!(parse_format(""), None);
    assert_eq!(parse_format("*"), None);
    assert_eq!(parse_format("Tiff"), None);
}

#[test]
fn names_round_trip_through_parse() {
    for f in default_preference() {
        assert_eq!(parse_format(&format_name(f)), Some(f));
    }
}

#[test]
fn only_the_vector_format_is_string_encoded() {
    assert!(is_string_encoded(ImageFormat::Svg));
    assert!(!is_string_encoded(ImageFormat::Ico));
    assert!(!is_string_encoded(ImageFormat::Png));
    assert!(!is_string_encoded(ImageFormat::Bmp));
    assert!(!is_string_encoded(ImageFormat::Jpeg));
    assert!(!is_string_encoded(ImageFormat::Gif));
}

#[test]
fn wildcard_resolves_to_builtin_preference_order() {
    let resolved = resolve_candidates("*").expect("wildcard resolves");
    assert_eq!(
        resolved,
        vec![
            ImageFormat::Svg,
            ImageFormat::Ico,
            ImageFormat::Png,
            ImageFormat::Bmp,
            ImageFormat::Jpeg,
            ImageFormat::Gif,
        ]
    );
}

#[test]
fn explicit_name_resolves_to_single_candidate() {
    assert_eq!(resolve_candidates("Gif"), Some(vec![ImageFormat::Gif]));
    assert_eq!(resolve_candidates("Webp"), None);
}

#[test]
fn single_advertised_candidate_is_selected_at_any_position() {
    // The clipboard advertises exactly one of the candidates; negotiation
    // must pick it wherever it stands in the candidate list.
    let candidates = vec![ImageFormat::Png, ImageFormat::Jpeg, ImageFormat::Gif];
    for wanted in &candidates {
        let clip = clip_with(vec![(&format_name(*wanted), bytes(&[1, 2, 3]))]);
        match select(&candidates, &clip) {
            Ok(SelectedImage::BinaryImage { format, bytes }) => {
                assert_eq!(format, *wanted);
                assert_eq!(bytes, vec![1, 2, 3]);
            }
            other => panic!("expected a binary selection, got {:?}", dbg_kind(&other)),
        }
    }
}

#[test]
fn single_advertised_candidate_survives_enumeration_noise() {
    // Unrelated formats around the single matching one change nothing,
    // whatever position the platform enumerates it at.
    let candidates = vec![ImageFormat::Png, ImageFormat::Jpeg];
    let orders: Vec<Vec<(&str, ClipData)>> = vec![
        vec![
            ("CF_HDROP", bytes(&[0])),
            ("Jpeg", bytes(&[9, 9])),
            ("SomethingElse", bytes(&[1])),
        ],
        vec![
            ("Jpeg", bytes(&[9, 9])),
            ("CF_HDROP", bytes(&[0])),
            ("SomethingElse", bytes(&[1])),
        ],
        vec![
            ("SomethingElse", bytes(&[1])),
            ("CF_HDROP", bytes(&[0])),
            ("Jpeg", bytes(&[9, 9])),
        ],
    ];
    for entries in orders {
        let clip = clip_with(entries);
        match select(&candidates, &clip) {
            Ok(SelectedImage::BinaryImage { format, bytes }) => {
                assert_eq!(format, ImageFormat::Jpeg);
                assert_eq!(bytes, vec![9, 9]);
            }
            other => panic!("expected Jpeg, got {:?}", dbg_kind(&other)),
        }
    }
}

#[test]
fn no_advertised_candidate_returns_not_found() {
    let candidates = vec![ImageFormat::Png, ImageFormat::Bmp];
    let clip = clip_with(vec![("CF_HDROP", bytes(&[0])), ("SomeText", text("x"))]);
    match select(&candidates, &clip) {
        Ok(SelectedImage::NotFound) => {}
        other => panic!("expected NotFound, got {:?}", dbg_kind(&other)),
    }
}

#[test]
fn empty_clipboard_returns_not_found() {
    let candidates = vec![ImageFormat::Svg, ImageFormat::Png];
    let clip = SimClipboard::new();
    match select(&candidates, &clip) {
        Ok(SelectedImage::NotFound) => {}
        other => panic!("expected NotFound, got {:?}", dbg_kind(&other)),
    }
}

#[test]
fn empty_candidate_list_returns_not_found() {
    let candidates: Vec<ImageFormat> = Vec::new();
    let clip = clip_with(vec![("Png", bytes(&[1]))]);
    match select(&candidates, &clip) {
        Ok(SelectedImage::NotFound) => {}
        other => panic!("expected NotFound, got {:?}", dbg_kind(&other)),
    }
}

#[test]
fn earliest_candidate_wins_over_enumeration_order() {
    // Two candidates advertised at once: the one earliest in the candidate
    // list wins, never the one the platform enumerated first.
    let candidates = vec![ImageFormat::Png, ImageFormat::Bmp];
    let clip = clip_with(vec![("Bmp", bytes(&[2])), ("Png", bytes(&[1]))]);
    match select(&candidates, &clip) {
        Ok(SelectedImage::BinaryImage { format, bytes }) => {
            assert_eq!(format, ImageFormat::Png);
            assert_eq!(bytes, vec![1]);
        }
        other => panic!("expected Png, got {:?}", dbg_kind(&other)),
    }
    let clip_other_order = clip_with(vec![("Png", bytes(&[1])), ("Bmp", bytes(&[2]))]);
    match select(&candidates, &clip_other_order) {
        Ok(SelectedImage::BinaryImage { format, .. }) => assert_eq!(format, ImageFormat::Png),
        other => panic!("expected Png, got {:?}", dbg_kind(&other)),
    }
}

#[test]
fn choose_format_ignores_enumeration_order() {
    let candidates = vec![ImageFormat::Ico, ImageFormat::Gif];
    let forward = vec!["Gif".to_string(), "Ico".to_string()];
    let backward = vec!["Ico".to_string(), "Gif".to_string()];
    assert_eq!(choose_format(&candidates, &forward), Some(ImageFormat::Ico));
    assert_eq!(choose_format(&candidates, &backward), Some(ImageFormat::Ico));
    assert_eq!(choose_format(&candidates, &Vec::new()), None);
}

#[test]
fn wildcard_equivalent_to_explicit_default_list() {
    // For a spread of clipboard states, negotiating over the wildcard's
    // resolved list equals negotiating over the built-in list passed
    // explicitly.
    let wildcard = resolve_candidates("*").expect("wildcard resolves");
    let explicit = default_preference();
    let states: Vec<Vec<(&str, ClipData)>> = vec![
        vec![],
        vec![("Png", bytes(&[1]))],
        vec![("Gif", bytes(&[2])), ("Bmp", bytes(&[3]))],
        vec![("Svg", text("<svg/>")), ("Png", bytes(&[4]))],
        vec![("CF_HDROP", bytes(&[5]))],
    ];
    for entries in states {
        let clip = clip_with(entries.clone());
        let clip_again = clip_with(entries);
        let via_wildcard = select(&wildcard, &clip);
        let via_explicit = select(&explicit, &clip_again);
        assert_eq!(dbg_kind(&via_wildcard), dbg_kind(&via_explicit));
        assert_eq!(payload_of(&via_wildcard), payload_of(&via_explicit));
    }
}

#[test]
fn string_format_selected_over_string_path() {
    let candidates = vec![ImageFormat::Svg, ImageFormat::Png];
    let clip = clip_with(vec![("Svg", text("<svg/>")), ("Png", bytes(&[1]))]);
    match select(&candidates, &clip) {
        Ok(SelectedImage::StringImage { format, name, text }) => {
            assert_eq!(format, ImageFormat::Svg);
            assert_eq!(name, "Svg");
            assert_eq!(text, "<svg/>");
        }
        other => panic!("expected the string path, got {:?}", dbg_kind(&other)),
    }
}

#[test]
fn wrong_encoding_is_an_extraction_error() {
    // A string-encoded format whose payload only offers the binary path
    // cannot be extracted; that is the fatal read/decode failure.
    let candidates = vec![ImageFormat::Svg];
    let clip = clip_with(vec![("Svg", bytes(&[0, 1]))]);
    match select(&candidates, &clip) {
        Err(ExtractError::WrongEncoding(f)) => assert_eq!(f, ImageFormat::Svg),
        _ => panic!("expected a wrong-encoding error"),
    }
    let candidates_bin = vec![ImageFormat::Png];
    let clip_text = clip_with(vec![("Png", text("not bytes"))]);
    match select(&candidates_bin, &clip_text) {
        Err(ExtractError::WrongEncoding(f)) => assert_eq!(f, ImageFormat::Png),
        _ => panic!("expected a wrong-encoding error"),
    }
}

fn dbg_kind(r: &Result<SelectedImage, ExtractError>) -> &'static str {
    match r {
        Ok(SelectedImage::StringImage { .. }) => "string",
        Ok(SelectedImage::BinaryImage { .. }) => "binary",
        Ok(SelectedImage::NotFound) => "not-found",
        Err(ExtractError::WrongEncoding(_)) => "wrong-encoding",
    }
}

fn payload_of(r: &Result<SelectedImage, ExtractError>) -> Option<Vec<u8>> {
    match r {
        Ok(SelectedImage::BinaryImage { bytes, .. }) => Some(bytes.clone()),
        Ok(SelectedImage::StringImage { text, .. }) => Some(text.as_bytes().to_vec()),
        _ => None,
    }
}
