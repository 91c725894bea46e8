use filetype::engine::{classify_file, file_type, Classifier, FileType};
use filetype::{is_byte_ascii, is_byte_latin1};

#[test]
fn ascii_predicate_accepts_exactly_its_ranges() {
    for b in 0u16..=255 {
        let b = b as u8;
        let expected = (0x07..=0x0D).contains(&b) || b == 0x1B || (0x20..=0x7E).contains(&b);
        assert_eq!(is_byte_ascii(b), expected, "byte {:#04x}", b);
    }
    assert!(!is_byte_ascii(0x7F));
    assert!(!is_byte_ascii(0x0E));
    assert!(!is_byte_ascii(0x06));
    assert!(is_byte_ascii(0x1B));
}

#[test]
fn latin1_predicate_is_ascii_or_high() {
    for b in 0u16..=255 {
        let b = b as u8;
        assert_eq!(is_byte_latin1(b), is_byte_ascii(b) || b >= 0xA0, "byte {:#04x}", b);
    }
    assert!(!is_byte_latin1(0x80));
    assert!(!is_byte_latin1(0x9F));
    assert!(is_byte_latin1(0xA0));
    assert!(is_byte_latin1(0xFF));
}

#[test]
fn ascii_bytes_are_latin1() {
    for b in 0u16..=255 {
        let b = b as u8;
        if is_byte_ascii(b) {
            assert!(is_byte_latin1(b));
        }
    }
}

#[test]
fn empty_file_is_empty() {
    assert_eq!(file_type(&[]), FileType::Empty);
}

#[test]
fn empty_stream_passes_as_ascii() {
    assert_eq!(classify_file(&[]), FileType::Ascii);
}

#[test]
fn ascii_text_is_ascii() {
    let text = b"Hello, world!\n\tbell\x07 escape\x1b end\r\n";
    assert_eq!(file_type(text), FileType::Ascii);
}

#[test]
fn bare_continuation_byte_is_data() {
    assert!(!is_byte_latin1(0x80));
    assert_eq!(file_type(&[0x80]), FileType::Data);
}

#[test]
fn euro_sign_is_utf8() {
    assert_eq!(file_type(&[0xE2, 0x82, 0xAC]), FileType::Utf8);
}

#[test]
fn truncated_sequence_is_data() {
    assert_eq!(file_type(&[0xE2, 0x82]), FileType::Data);
}

#[test]
fn overlong_nul_is_data() {
    assert_eq!(file_type(&[0xE0, 0x80, 0x80]), FileType::Data);
}

#[test]
fn encoded_surrogate_is_not_utf8() {
    assert_eq!(file_type(&[0xED, 0xA0, 0x80]), FileType::Data);
    assert_eq!(file_type(&[0xED, 0x9F, 0xBF]), FileType::Utf8);
}

#[test]
fn above_last_code_point_is_not_utf8() {
    assert_eq!(file_type(&[0xF4, 0x90, 0x80, 0x80]), FileType::Data);
    assert_eq!(file_type(&[0xF4, 0x8F, 0xBF, 0xBF]), FileType::Utf8);
}

#[test]
fn latin1_text_is_latin1() {
    assert_eq!(file_type(b"caf\xe9"), FileType::Latin1);
    assert_eq!(file_type(b"\xa9 2024 \xb5"), FileType::Latin1);
}

#[test]
fn utf8_text_is_utf8() {
    assert_eq!(file_type("café, naïve, 日本語, 😀".as_bytes()), FileType::Utf8);
}

#[test]
fn truncated_utf8_that_is_latin1_is_latin1() {
    // E9 would open a three-byte character; the file ends before it closes.
    assert_eq!(file_type(&[0x41, 0xE9]), FileType::Latin1);
}

#[test]
fn nul_after_non_ascii_stays_utf8() {
    assert_eq!(file_type(&[0x00]), FileType::Utf8);
    assert_eq!(file_type(&[0x7F, 0x41]), FileType::Utf8);
}

#[test]
fn control_byte_in_latin1_is_data_unless_utf8() {
    assert_eq!(file_type(&[0xE9, 0x01]), FileType::Data);
}

#[test]
fn classifier_stops_once_nothing_is_left() {
    let mut c = Classifier::new();
    assert!(c.push(b'a'));
    assert!(!c.push(0x80));
    assert_eq!(c.finish(), FileType::Data);
    assert_eq!(file_type(&[0x80, 0x41, 0x42, 0xC3, 0xA9]), FileType::Data);
}

#[test]
fn classifier_streams_a_character() {
    let mut c = Classifier::new();
    assert!(c.push(0xE2));
    assert!(c.push(0x82));
    assert_eq!(c.finish(), FileType::Data);
    assert!(c.push(0xAC));
    assert_eq!(c.finish(), FileType::Utf8);
}
