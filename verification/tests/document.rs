use hexi_lib::document::{format_bytes, Document};
use hexi_lib::error::{Error, IoFailure};
use hexi_lib::options::Options;

fn sample() -> Vec<u8> {
    vec![
        0x31, 0x32, 0x33, 0x34, 0x35, 0x36, 0x37, 0x38, 0x61, 0x62, 0x63, 0x64, 0x65, 0x66, 0x67,
        0x68,
    ]
}

fn options(section_length: usize, sections_per_line: usize, chunk_size: usize) -> Options {
    Options { file: String::from("test.data"), section_length, sections_per_line, chunk_size }
}

fn document(bytes: Vec<u8>, section: usize, per_line: usize, chunk: usize) -> Document {
    Document::from_options(options(section, per_line, chunk), Ok(bytes)).unwrap()
}

#[test]
fn from_options() {
    let document = Document::from_options(options(8, 2, 1), Ok(sample()));

    assert!(document.is_ok());

    let document = document.unwrap();
    assert_eq!(
        document.data(),
        &[
            0x31, 0x32, 0x33, 0x34, 0x35, 0x36, 0x37, 0x38, 0x61, 0x62, 0x63, 0x64, 0x65, 0x66,
            0x67, 0x68
        ]
    )
}

#[test]
fn get_line_length() {
    let document = document(sample(), 8, 2, 1);

    assert_eq!(document.get_line_length(), 16);

    let document = self::document(sample(), 2, 2, 2);

    assert_eq!(document.get_line_length(), 4);
}

#[test]
fn format_line() {
    let document = document(sample(), 8, 2, 1);

    assert_eq!(
        document.format_line(0).unwrap().trim(),
        "31 32 33 34 35 36 37 38   61 62 63 64 65 66 67 68"
    );

    let document = self::document(sample(), 2, 2, 2);

    assert_eq!(document.format_line(0).unwrap().trim(), "3132   3334");
}

#[test]
fn format_line_needs_no_trimming() {
    let document = document(sample(), 2, 2, 2);
    for line in 0..document.len() {
        let text = document.format_line(line).unwrap();
        assert_eq!(text.trim(), text);
    }
}

#[test]
fn failed_load_gives_the_error() {
    let missing = Document::from_options(options(8, 2, 1), Err(IoFailure::NotFound));
    assert!(matches!(missing, Err(Error::FileNotFound)));
    let forbidden = Document::from_options(options(8, 2, 1), Err(IoFailure::PermissionDenied));
    assert!(matches!(forbidden, Err(Error::FileNotFound)));
    let other = Document::from_options(options(8, 2, 1), Err(IoFailure::Other));
    assert!(matches!(other, Err(Error::Other)));
}

#[test]
fn line_count_rounds_up() {
    assert_eq!(document(vec![], 8, 2, 1).len(), 0);
    assert_eq!(document(vec![0], 8, 2, 1).len(), 1);
    assert_eq!(document(vec![0; 16], 8, 2, 1).len(), 1);
    assert_eq!(document(vec![0; 17], 8, 2, 1).len(), 2);
    assert_eq!(document(vec![0; 32], 8, 2, 1).len(), 2);
    assert_eq!(document(vec![0; 33], 8, 2, 1).len(), 3);
    assert_eq!(document(sample(), 2, 2, 2).len(), 4);
    assert_eq!(document(vec![0; 7], 1, 1, 1).len(), 7);
}

#[test]
fn line_bytes_cuts_the_buffer() {
    let document = document(sample(), 3, 2, 2);
    assert_eq!(document.line_bytes(0), Some(&sample()[0..6]));
    assert_eq!(document.line_bytes(1), Some(&sample()[6..12]));
    assert_eq!(document.line_bytes(2), Some(&sample()[12..16]));
    assert_eq!(document.line_bytes(3), None);
    assert_eq!(document.line_bytes(usize::MAX), None);
}

#[test]
fn line_offset_is_index_times_length() {
    let document = document(sample(), 3, 2, 2);
    assert_eq!(document.line_offset(0), Some(0));
    assert_eq!(document.line_offset(1), Some(6));
    assert_eq!(document.line_offset(2), Some(12));
    assert_eq!(document.line_offset(3), None);
}

#[test]
fn format_line_out_of_range_gives_nothing() {
    let document = document(sample(), 8, 2, 1);
    assert_eq!(document.format_line(1), None);
    assert_eq!(document.format_line(usize::MAX), None);
    assert_eq!(self::document(vec![], 8, 2, 1).format_line(0), None);
}

#[test]
fn short_last_line_has_no_padding() {
    let document = document(sample(), 3, 2, 2);
    assert_eq!(document.format_line(0).unwrap(), "3132 33   3435 36");
    assert_eq!(document.format_line(1).unwrap(), "3738 61   6263 64");
    assert_eq!(document.format_line(2).unwrap(), "6566 67   68");
}

#[test]
fn chunk_wider_than_section() {
    assert_eq!(format_bytes(&sample()[0..6], 2, 5), "3132   3334   3536");
    assert_eq!(format_bytes(&sample()[0..6], 2, 2), "3132   3334   3536");
}

#[test]
fn format_bytes_digits_are_upper_case() {
    assert_eq!(format_bytes(&[0x00, 0x0a, 0xa0, 0xff, 0x9f, 0xf9], 6, 1), "00 0A A0 FF 9F F9");
    assert_eq!(format_bytes(&[0x3a, 0x1f], 2, 2), "3A1F");
    assert_eq!(format_bytes(&[], 2, 2), "");
}

#[test]
fn text_without_spaces_is_the_plain_encoding() {
    let bytes: Vec<u8> = (0..=255u8).collect();
    let text = format_bytes(&bytes, 7, 3);
    let stripped: String = text.chars().filter(|c| *c != ' ').collect();
    let mut plain = String::new();
    for b in &bytes {
        plain.push_str(&format!("{:02X}", b));
    }
    assert_eq!(stripped, plain);
}

#[test]
fn error_messages() {
    assert_eq!(Error::FileNotFound.message(), "File not found");
    assert_eq!(Error::InvalidFileName.message(), "File name is invalid");
    assert_eq!(Error::Other.message(), "Unknown error");
}

#[test]
fn error_from_failure() {
    assert_eq!(Error::from(IoFailure::NotFound), Error::FileNotFound);
    assert_eq!(Error::from(IoFailure::PermissionDenied), Error::FileNotFound);
    assert_eq!(Error::from(IoFailure::Other), Error::Other);
}

#[test]
fn options_validity() {
    assert!(options(8, 2, 1).is_valid());
    assert!(!options(0, 2, 1).is_valid());
    assert!(!options(8, 0, 1).is_valid());
    assert!(!options(8, 2, 0).is_valid());
    assert!(!options(usize::MAX, 2, 1).is_valid());
    assert!(options(usize::MAX, 1, 1).is_valid());
    let blank = Options::default();
    assert_eq!(blank.file, "");
    assert_eq!(blank.section_length, 0);
    assert_eq!(blank.sections_per_line, 0);
    assert_eq!(blank.chunk_size, 0);
    assert!(!blank.is_valid());
}

#[test]
fn text_length_counts_digits_and_gaps() {
    // sixteen bytes, fourteen single spaces and one gap of three
    assert_eq!(format_bytes(&sample(), 8, 1).len(), 2 * 16 + 14 + 3);
    assert_eq!(format_bytes(&[0u8; 16], 8, 1).len(), 2 * 16 + 14 + 3);
    // sections of five bytes in chunks of two: two spaces inside each of the two full sections
    assert_eq!(format_bytes(&sample()[0..12], 5, 2), "3132 3334 35   3637 3861 62   6364");
    assert_eq!(format_bytes(&sample()[0..12], 5, 2).len(), 2 * 12 + 2 * 2 + 2 * 3);
}

#[test]
fn layout_getters() {
    let document = document(sample(), 3, 2, 5);
    assert_eq!(document.get_section_length(), 3);
    assert_eq!(document.get_sections_per_line(), 2);
    assert_eq!(document.get_chunk_size(), 5);
    assert_eq!(document.get_line_length(), 6);
}
