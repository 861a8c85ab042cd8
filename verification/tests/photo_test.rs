use photo_organizer::photo::get_exif_datetime_original;
use photo_organizer::photo::get_shooting_datetime;
use photo_organizer::photo::timestamp_from_fields;
use photo_organizer::photo::timestamp_from_unix_seconds;
use photo_organizer::photo::Timestamp;

/// A minimal little-endian TIFF container whose primary image carries one
/// DateTimeOriginal field holding the given nineteen-byte date text.
fn tiff_with_datetime_original(text: &str) -> Vec<u8> {
    assert_eq!(text.len(), 19);
    let mut v: Vec<u8> = vec![
        0x49, 0x49, 42, 0, 8, 0, 0, 0, // TIFF header, first IFD at offset 8
        1, 0, // one entry in the first IFD
        0x69, 0x87, 4, 0, 1, 0, 0, 0, 26, 0, 0, 0, // Exif IFD pointer -> offset 26
        0, 0, 0, 0, // no next IFD
        1, 0, // one entry in the Exif IFD
        0x03, 0x90, 2, 0, 20, 0, 0, 0, 44, 0, 0, 0, // DateTimeOriginal, ASCII, 20 bytes at 44
        0, 0, 0, 0, // no next IFD
    ];
    v.extend_from_slice(text.as_bytes());
    v.push(0);
    v
}

fn ts(year: i32, month: u8, day: u8, hour: u8, minute: u8, second: u8) -> Timestamp {
    Timestamp { year, month, day, hour, minute, second }
}

#[test]
fn test_embedded_datetime_is_returned() {
    let bytes = tiff_with_datetime_original("2021:06:15 10:00:00");
    assert_eq!(get_exif_datetime_original(&bytes), Some(ts(2021, 6, 15, 10, 0, 0)));
}

#[test]
fn test_embedded_datetime_takes_precedence_over_mtime() {
    let bytes = tiff_with_datetime_original("2021:06:15 10:00:00");
    let r = get_shooting_datetime(&Some(bytes), Some(1640995200));
    assert_eq!(r, Some(ts(2021, 6, 15, 10, 0, 0)));
}

#[test]
fn test_corrupt_bytes_fall_back_to_mtime() {
    let bytes: Vec<u8> = b"definitely not an image container".to_vec();
    let r = get_shooting_datetime(&Some(bytes), Some(1640995200));
    assert_eq!(r, Some(ts(2022, 1, 1, 0, 0, 0)));
}

#[test]
fn test_truncated_container_yields_no_embedded_datetime() {
    let whole = tiff_with_datetime_original("2021:06:15 10:00:00");
    let truncated: Vec<u8> = whole[..24].to_vec();
    assert_eq!(get_exif_datetime_original(&truncated), None);
}

#[test]
fn test_malformed_date_text_falls_back_to_mtime() {
    let bytes = tiff_with_datetime_original("2021-06-15 10:00:00");
    assert_eq!(get_exif_datetime_original(&bytes), None);
    let r = get_shooting_datetime(&Some(bytes), Some(1640995200));
    assert_eq!(r, Some(ts(2022, 1, 1, 0, 0, 0)));
}

#[test]
fn test_invalid_calendar_date_falls_back_to_mtime() {
    let bytes = tiff_with_datetime_original("2021:02:29 10:00:00");
    assert_eq!(get_exif_datetime_original(&bytes), None);
    let r = get_shooting_datetime(&Some(bytes), Some(1640995200));
    assert_eq!(r, Some(ts(2022, 1, 1, 0, 0, 0)));
}

#[test]
fn test_leap_day_of_a_leap_year_is_accepted() {
    let bytes = tiff_with_datetime_original("2020:02:29 23:59:59");
    assert_eq!(get_exif_datetime_original(&bytes), Some(ts(2020, 2, 29, 23, 59, 59)));
}

#[test]
fn test_unreadable_file_resolves_absent() {
    assert_eq!(get_shooting_datetime(&None, None), None);
}

#[test]
fn test_resolution_is_idempotent() {
    let bytes = tiff_with_datetime_original("2021:06:15 10:00:00");
    let first = get_shooting_datetime(&Some(bytes.clone()), Some(1640995200));
    let second = get_shooting_datetime(&Some(bytes), Some(1640995200));
    assert_eq!(first, second);
}

#[test]
fn test_timestamp_from_fields_validates_the_calendar() {
    assert_eq!(timestamp_from_fields(2021, 6, 15, 10, 0, 0), Some(ts(2021, 6, 15, 10, 0, 0)));
    assert_eq!(timestamp_from_fields(2021, 2, 29, 10, 0, 0), None);
    assert_eq!(timestamp_from_fields(2020, 2, 29, 10, 0, 0), Some(ts(2020, 2, 29, 10, 0, 0)));
    assert_eq!(timestamp_from_fields(1900, 2, 29, 10, 0, 0), None);
    assert_eq!(timestamp_from_fields(2000, 2, 29, 10, 0, 0), Some(ts(2000, 2, 29, 10, 0, 0)));
    assert_eq!(timestamp_from_fields(2021, 13, 1, 10, 0, 0), None);
    assert_eq!(timestamp_from_fields(2021, 0, 1, 10, 0, 0), None);
    assert_eq!(timestamp_from_fields(2021, 4, 31, 10, 0, 0), None);
    assert_eq!(timestamp_from_fields(2021, 6, 0, 10, 0, 0), None);
    assert_eq!(timestamp_from_fields(2021, 6, 15, 24, 0, 0), None);
    assert_eq!(timestamp_from_fields(2021, 6, 15, 10, 60, 0), None);
    assert_eq!(timestamp_from_fields(2021, 6, 15, 10, 0, 60), None);
}

#[test]
fn test_unix_seconds_conversion() {
    assert_eq!(timestamp_from_unix_seconds(0), Some(ts(1970, 1, 1, 0, 0, 0)));
    assert_eq!(timestamp_from_unix_seconds(1640995200), Some(ts(2022, 1, 1, 0, 0, 0)));
    assert_eq!(timestamp_from_unix_seconds(-1), Some(ts(1969, 12, 31, 23, 59, 59)));
    assert_eq!(timestamp_from_unix_seconds(951827696), Some(ts(2000, 2, 29, 12, 34, 56)));
}

#[test]
fn test_directory_of_three_files_end_to_end() {
    let entries = vec![String::from("a.jpg"), String::from("b.txt"), String::from("c.png")];
    let images = photo_organizer::files::get_images(entries);
    assert_eq!(images, vec![String::from("a.jpg"), String::from("c.png")]);

    let a_bytes = tiff_with_datetime_original("2021:06:15 10:00:00");
    let a = get_shooting_datetime(&Some(a_bytes), Some(1623751200));
    assert_eq!(a, Some(ts(2021, 6, 15, 10, 0, 0)));

    let c_bytes: Vec<u8> = vec![
        0x89, 0x50, 0x4e, 0x47, 0x0d, 0x0a, 0x1a, 0x0a, // PNG signature, no metadata after it
    ];
    let c = get_shooting_datetime(&Some(c_bytes), Some(1640995200));
    assert_eq!(c, Some(ts(2022, 1, 1, 0, 0, 0)));
}
