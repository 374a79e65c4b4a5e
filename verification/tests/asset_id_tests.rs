use immich_describer::{asset_id_text, extract_uuid_from_preview_filename, AssetId, ImageAnalysisError};

const SAMPLE: &str = "550e8400-e29b-41d4-a716-446655440000";
const SAMPLE_BYTES: [u8; 16] = [
    0x55, 0x0e, 0x84, 0x00, 0xe2, 0x9b, 0x41, 0xd4, 0xa7, 0x16, 0x44, 0x66, 0x55, 0x44, 0x00, 0x00,
];
const OTHER: &str = "0123abcd-4567-89ef-0123-456789abcdef";
const OTHER_BYTES: [u8; 16] = [
    0x01, 0x23, 0xab, 0xcd, 0x45, 0x67, 0x89, 0xef, 0x01, 0x23, 0x45, 0x67, 0x89, 0xab, 0xcd, 0xef,
];

fn bytes_of(name: &str) -> Option<[u8; 16]> {
    match extract_uuid_from_preview_filename(name) {
        Ok(id) => Some(id.bytes),
        Err(_) => None,
    }
}

#[test]
fn extracts_from_preview_filename() {
    assert_eq!(bytes_of(&format!("{}-preview.jpeg", SAMPLE)), Some(SAMPLE_BYTES));
}

#[test]
fn extracts_from_preview_filename_inside_a_path() {
    let name = format!("thumbs/user/55/0e/{}-preview.webp", SAMPLE);
    assert_eq!(bytes_of(&name), Some(SAMPLE_BYTES));
}

#[test]
fn preview_match_wins_over_earlier_plain_uuid() {
    let name = format!("{}/{}-preview.jpeg", OTHER, SAMPLE);
    assert_eq!(bytes_of(&name), Some(SAMPLE_BYTES));
}

#[test]
fn falls_back_to_first_plain_uuid() {
    let name = format!("x_{}_{}.jpeg", OTHER, SAMPLE);
    assert_eq!(bytes_of(&name), Some(OTHER_BYTES));
}

#[test]
fn upper_case_uuid_is_refused() {
    let name = "550E8400-E29B-41D4-A716-446655440000-preview.jpeg";
    match extract_uuid_from_preview_filename(name) {
        Err(ImageAnalysisError::InvalidUuid { filename }) => assert_eq!(filename, name),
        _ => panic!("expected InvalidUuid"),
    }
}

#[test]
fn name_without_uuid_is_refused() {
    match extract_uuid_from_preview_filename("holiday.jpeg") {
        Err(ImageAnalysisError::InvalidUuid { filename }) => assert_eq!(filename, "holiday.jpeg"),
        _ => panic!("expected InvalidUuid"),
    }
}

#[test]
fn truncated_uuid_is_refused() {
    assert_eq!(bytes_of("550e8400-e29b-41d4-a716-44665544000-preview.jpeg"), None);
}

#[test]
fn asset_id_text_is_hyphenated_lower_case() {
    assert_eq!(asset_id_text(&AssetId { bytes: SAMPLE_BYTES }), SAMPLE);
    assert_eq!(asset_id_text(&AssetId { bytes: OTHER_BYTES }), OTHER);
}

#[test]
fn text_of_an_id_extracts_back_to_it() {
    let text = asset_id_text(&AssetId { bytes: OTHER_BYTES });
    assert_eq!(bytes_of(&format!("{}-preview.jpg", text)), Some(OTHER_BYTES));
}
