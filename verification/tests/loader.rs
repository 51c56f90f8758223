use cargo_scry::image::Image;
use cargo_scry::loader::{checksum, download_frame, format_operand, Ack, Event, Report, ReportParser};

#[test]
fn download_frame_layout() {
    let image = Image {
        load_address: 0x100,
        entry: 0x0123_4567,
        bytes: vec![0xff, 0x02, 0x10],
        memory_end: 0x200,
    };
    let frame = download_frame(&image);

    assert_eq!(&frame[..8], b"SCRYLD! ");
    assert_eq!(frame[8..12], [0x67, 0x45, 0x23, 0x01]);
    assert_eq!(frame[12..16], [0x00, 0x01, 0x00, 0x00]);
    assert_eq!(frame[16..20], [3, 0, 0, 0]);
    assert_eq!(frame[20..23], [0xff, 0x02, 0x10]);
    // 0xff + 0x02 + 0x10 = 0x111, modulo 256.
    assert_eq!(frame[23], 0x11);
    assert_eq!(frame.len(), 24);
}

#[test]
fn acknowledgements() {
    assert_eq!(Ack::from(b'K'), Ack::Launched);
    assert_eq!(Ack::from(b'E'), Ack::BadChecksum);
    assert_eq!(Ack::from(b'T'), Ack::TimedOut);
    assert_eq!(Ack::from(b'?'), Ack::Unknown(b'?'));
}

#[test]
fn operand_formatting() {
    assert_eq!(format_operand(0x00, 42), "42u8");
    assert_eq!(format_operand(0x02, 80), "80u32");
    assert_eq!(format_operand(0x02, u32::MAX), "4294967295u32");
    // Only the low `width` bits count.
    assert_eq!(format_operand(0x00, 0x1_2a), "42u8");
    assert_eq!(format_operand(0x20, 0xfc), "-4i8");
    assert_eq!(format_operand(0x21, 0x7fff), "32767i16");
    assert_eq!(format_operand(0x22, u32::MAX), "-1i32");
    assert_eq!(format_operand(0x80, 0), "NaR");
    assert_eq!(format_operand(0x40, 0), "NaN");
}

fn run(parser: &mut ReportParser, bytes: &[u8]) -> (Vec<u8>, Option<Report>) {
    let mut output = Vec::new();
    for &byte in bytes {
        match parser.feed(byte) {
            Event::Output(bytes) => output.extend(bytes),
            Event::Done(report) => return (output, Some(report)),
        }
    }
    (output, None)
}

#[test]
fn separates_program_output_from_the_report() {
    let mut stream = b"Hello, world!\n".to_vec();
    stream.extend_from_slice(b"SCRYRT! ");
    stream.extend_from_slice(&[0, 2]);
    stream.extend_from_slice(&[0x00, 42, 0, 0, 0]);
    stream.extend_from_slice(&[0x22, 0xff, 0xff, 0xff, 0xff]);

    let (output, report) = run(&mut ReportParser::default(), &stream);
    assert_eq!(output, b"Hello, world!\n");
    let report = report.unwrap();
    assert!(!report.trapped);
    assert_eq!(report.operands, [(0x00, 42), (0x22, u32::MAX)]);
    assert_eq!(
        report.to_scryer_format(),
        "----------  Returned Operands  ----------\n42u8, -1i32, \n"
    );
}

#[test]
fn a_partial_magic_in_the_output_is_not_lost() {
    let mut stream = b"SCRY is not SCRYRT yet SS".to_vec();
    stream.extend_from_slice(b"SCRYRT! ");
    stream.extend_from_slice(&[1, 0]);

    let (output, report) = run(&mut ReportParser::default(), &stream);
    assert_eq!(output, b"SCRY is not SCRYRT yet SS");
    let report = report.unwrap();
    assert!(report.trapped);
    assert!(report.operands.is_empty());
    assert!(report.to_scryer_format().contains("trapped"));
}

#[test]
fn an_unfinished_report_is_not_reported() {
    let mut stream = b"SCRYRT! ".to_vec();
    stream.extend_from_slice(&[0, 1, 0x00, 42]);
    let (_, report) = run(&mut ReportParser::default(), &stream);
    assert!(report.is_none());
}

#[test]
fn checksum_is_the_byte_sum_modulo_256() {
    assert_eq!(checksum(&[]), 0);
    assert_eq!(checksum(&[0xff, 0x02, 0x10]), 0x11);
    assert_eq!(checksum(&[0x80, 0x80]), 0);
    assert_eq!(checksum(&[1; 300]), 44);
}

#[test]
fn frame_fields_keep_the_low_32_bits() {
    let image = Image {
        load_address: 0x1_0000_0010,
        entry: 0x2_0000_0020,
        bytes: vec![],
        memory_end: 0,
    };
    let frame = download_frame(&image);
    assert_eq!(frame[8..12], [0x20, 0, 0, 0]);
    assert_eq!(frame[12..16], [0x10, 0, 0, 0]);
    assert_eq!(frame[16..20], [0, 0, 0, 0]);
    assert_eq!(frame[20], 0);
    assert_eq!(frame.len(), 21);
}

#[test]
fn a_trapped_report_is_formatted_as_an_error() {
    let report = Report { trapped: true, operands: vec![(0, 1)] };
    assert_eq!(
        report.to_scryer_format(),
        "----------  Error  ----------\nErr(\"The program trapped\")\n"
    );
    let empty = Report { trapped: false, operands: vec![] };
    assert_eq!(empty.to_scryer_format(), "----------  Returned Operands  ----------\n\n");
}

#[test]
fn operand_widths_and_signs() {
    assert_eq!(format_operand(0x03, 7), "7u64");
    assert_eq!(format_operand(0x23, u32::MAX), "4294967295i64");
    assert_eq!(format_operand(0x21, 0x8000), "-32768i16");
    assert_eq!(format_operand(0x20, 0x80), "-128i8");
    assert_eq!(format_operand(0x20, 0x7f), "127i8");
    assert_eq!(format_operand(0xc0, 0), "NaR");
    assert_eq!(format_operand(0x01, 0x1_0001), "1u16");
}

#[test]
fn program_output_before_the_magic_is_passed_on_unchanged() {
    // A stream that ends in the middle of a possible magic holds only that start back.
    let mut parser = ReportParser::default();
    let (output, report) = run(&mut parser, b"abcSCRY");
    assert_eq!(output, b"abc");
    assert!(report.is_none());
    // A byte that breaks the match releases what was held back.
    let (output, _) = run(&mut parser, b"x");
    assert_eq!(output, b"SCRYx");
    // "SS": the second S may start the magic.
    let (output, _) = run(&mut parser, b"SS");
    assert_eq!(output, b"S");
}

#[test]
fn the_report_completes_with_its_last_operand_byte() {
    let mut parser = ReportParser::default();
    let mut stream = b"SCRYRT! ".to_vec();
    stream.extend_from_slice(&[0, 1, 0x21, 0xff, 0x7f, 0, 0]);
    let (output, report) = run(&mut parser, &stream[..stream.len() - 1]);
    assert!(output.is_empty());
    assert!(report.is_none());
    match parser.feed(0) {
        Event::Done(report) => {
            assert_eq!(report.operands, [(0x21, 0x7fff)]);
            assert_eq!(
                report.to_scryer_format(),
                "----------  Returned Operands  ----------\n32767i16, \n"
            );
        }
        Event::Output(_) => panic!("the report should be complete"),
    }
}
