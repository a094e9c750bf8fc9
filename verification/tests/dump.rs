use hexi_lib::error::{Error, IoFailure};
use hexi_lib::hex::{push_byte_hex, push_hex_digits, push_offset};
use hexi_lib::hexi::{dump_line, Hexi};
use hexi_lib::options::Options;

fn letters() -> Vec<u8> {
    vec![
        0x31, 0x32, 0x33, 0x34, 0x35, 0x36, 0x37, 0x38, 0x61, 0x62, 0x63, 0x64, 0x65, 0x66, 0x67,
        0x68,
    ]
}

fn viewer(bytes: Vec<u8>, section_length: usize, sections_per_line: usize, chunk_size: usize) -> Hexi {
    let options =
        Options { file: String::from("test.data"), section_length, sections_per_line, chunk_size };
    Hexi::with_options(options, Ok(bytes)).unwrap()
}

fn all_lines(hexi: &Hexi) -> Vec<String> {
    let mut dump = hexi.dump_file();
    let mut lines = Vec::new();
    while let Some(line) = dump.next_line() {
        lines.push(line);
    }
    assert_eq!(dump.next_line(), None);
    lines
}

#[test]
fn dump_one_line_of_two_sections() {
    let hexi = viewer(letters(), 8, 2, 1);
    assert_eq!(all_lines(&hexi), vec!["0000| 31 32 33 34 35 36 37 38   61 62 63 64 65 66 67 68"]);
}

#[test]
fn dump_four_lines_of_two_chunks() {
    let hexi = viewer(letters(), 2, 2, 2);
    assert_eq!(
        all_lines(&hexi),
        vec!["0000| 3132   3334", "0004| 3536   3738", "0008| 6162   6364", "000C| 6566   6768"]
    );
}

#[test]
fn dump_single_byte() {
    let hexi = viewer(vec![0xFF], 8, 1, 1);
    assert_eq!(all_lines(&hexi), vec!["0000| FF"]);
}

#[test]
fn dump_empty_file() {
    let hexi = viewer(vec![], 8, 2, 1);
    assert_eq!(hexi.get_document().len(), 0);
    assert!(all_lines(&hexi).is_empty());
    assert_eq!(dump_line(hexi.get_document(), 0), None);
}

#[test]
fn dump_line_by_index() {
    let hexi = viewer(letters(), 2, 2, 2);
    let document = hexi.get_document();
    assert_eq!(dump_line(document, 3).unwrap(), "000C| 6566   6768");
    assert_eq!(dump_line(document, 1).unwrap(), "0004| 3536   3738");
    assert_eq!(dump_line(document, 4), None);
}

#[test]
fn dump_starts_over_with_each_call() {
    let hexi = viewer(letters(), 2, 2, 2);
    let mut first = hexi.dump_file();
    assert_eq!(first.next_line().unwrap(), "0000| 3132   3334");
    assert_eq!(first.next_line().unwrap(), "0004| 3536   3738");
    let mut second = hexi.dump_file();
    assert_eq!(second.next_line().unwrap(), "0000| 3132   3334");
    assert_eq!(first.next_line().unwrap(), "0008| 6162   6364");
}

#[test]
fn dump_offsets_beyond_four_digits() {
    let hexi = viewer(vec![0xAB; 0x10000 + 3], 8, 2, 8);
    let document = hexi.get_document();
    assert_eq!(dump_line(document, 0x0FFF).unwrap(), "FFF0| ABABABABABABABAB   ABABABABABABABAB");
    assert_eq!(dump_line(document, 0x1000).unwrap(), "10000| ABABAB");
    assert_eq!(dump_line(document, 0x1001), None);
}

#[test]
fn with_options_reports_a_failed_load() {
    let options =
        Options { file: String::from("nowhere"), section_length: 8, sections_per_line: 2, chunk_size: 1 };
    assert!(matches!(
        Hexi::with_options(options, Err(IoFailure::NotFound)),
        Err(Error::FileNotFound)
    ));
}

#[test]
fn offsets_are_padded_to_four_digits() {
    let cases: [(usize, &str); 9] = [
        (0, "0000"),
        (9, "0009"),
        (0xA, "000A"),
        (0x10, "0010"),
        (0xFF, "00FF"),
        (0x100, "0100"),
        (0xFFF, "0FFF"),
        (0x1000, "1000"),
        (0xFFFF, "FFFF"),
    ];
    for (n, expected) in cases {
        let mut text = String::from(">");
        push_offset(&mut text, n);
        assert_eq!(text, format!(">{}", expected));
        assert_eq!(text, format!(">{:04X}", n));
    }
    let mut wide = String::new();
    push_offset(&mut wide, 0x12345678);
    assert_eq!(wide, "12345678");
    let mut widest = String::new();
    push_offset(&mut widest, usize::MAX);
    assert_eq!(widest, format!("{:04X}", usize::MAX));
}

#[test]
fn hex_digits_have_no_leading_zeros() {
    let mut text = String::new();
    push_hex_digits(&mut text, 0);
    push_hex_digits(&mut text, 0x1F);
    push_hex_digits(&mut text, 0xABCDE);
    assert_eq!(text, "01FABCDE");
}

#[test]
fn every_byte_is_two_digits() {
    for b in 0..=255u8 {
        let mut text = String::from("x");
        push_byte_hex(&mut text, b);
        assert_eq!(text, format!("x{:02X}", b));
    }
}
