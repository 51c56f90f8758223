use cargo_scry::board::{default_baud, Board, Link, Loader, Memory, Region};
use cargo_scry::image::{Image, ReadSegment};

/// Builds a minimal ELF32 executable by hand: a header, program headers, and segment bytes.
/// `segments` are (address, file bytes, size in memory).
fn elf32(entry: u32, segments: &[(u32, &[u8], u32)]) -> Vec<u8> {
    const EHDR: usize = 52;
    const PHDR: usize = 32;
    let headers = EHDR + PHDR * segments.len();

    let mut elf = Vec::new();
    elf.extend_from_slice(&[0x7f, b'E', b'L', b'F', 1, 1, 1, 0]);
    elf.extend_from_slice(&[0; 8]);
    elf.extend_from_slice(&2u16.to_le_bytes()); // ET_EXEC
    elf.extend_from_slice(&264u16.to_le_bytes()); // EM_SCRY
    elf.extend_from_slice(&1u32.to_le_bytes());
    elf.extend_from_slice(&entry.to_le_bytes());
    elf.extend_from_slice(&(EHDR as u32).to_le_bytes()); // e_phoff
    elf.extend_from_slice(&0u32.to_le_bytes()); // e_shoff
    elf.extend_from_slice(&0u32.to_le_bytes()); // e_flags
    elf.extend_from_slice(&(EHDR as u16).to_le_bytes());
    elf.extend_from_slice(&(PHDR as u16).to_le_bytes());
    elf.extend_from_slice(&(segments.len() as u16).to_le_bytes());
    elf.extend_from_slice(&40u16.to_le_bytes()); // e_shentsize
    elf.extend_from_slice(&0u16.to_le_bytes()); // e_shnum
    elf.extend_from_slice(&0u16.to_le_bytes()); // e_shstrndx
    assert_eq!(elf.len(), EHDR);

    let mut offset = headers;
    for &(address, data, memory_size) in segments {
        for field in [
            1, // PT_LOAD
            offset as u32,
            address,
            address,
            data.len() as u32,
            memory_size,
            7, // flags
            1, // align
        ] {
            elf.extend_from_slice(&field.to_le_bytes());
        }
        offset += data.len();
    }
    for &(_, data, _) in segments {
        elf.extend_from_slice(data);
    }
    elf
}

fn board(start: u64, end: u64, max_payload: Option<u64>) -> Board {
    Board {
        name: "Test board".to_owned(),
        link: Link::default(),
        memory: Memory { program: Region { start, end } },
        loader: Loader { baud: default_baud(), max_payload },
    }
}

fn segment(address: u64, data: &[u8], size: u64) -> ReadSegment {
    ReadSegment { address, data: Ok(data.to_vec()), size }
}

#[test]
fn flattens_segments_with_gaps_and_bss() {
    let elf = elf32(
        0x104,
        &[
            (0x100, &[1, 2, 3, 4, 5, 6], 6),
            // Two bytes of gap, then data followed by 8 bytes of zero-initialised memory.
            (0x108, &[9, 8], 10),
        ],
    );
    let image = Image::from_elf(&elf).unwrap();

    assert_eq!(image.load_address, 0x100);
    assert_eq!(image.entry, 0x104);
    assert_eq!(image.bytes, [1, 2, 3, 4, 5, 6, 0, 0, 9, 8]);
    assert_eq!(image.file_end(), 0x10a);
    assert_eq!(image.memory_end, 0x112);
    image.verify_against(&elf).unwrap();
}

#[test]
fn segment_order_in_the_file_does_not_matter() {
    let elf = elf32(0x200, &[(0x208, &[7, 7], 2), (0x200, &[1, 2, 3, 4], 4)]);
    let image = Image::from_elf(&elf).unwrap();
    assert_eq!(image.load_address, 0x200);
    assert_eq!(image.bytes, [1, 2, 3, 4, 0, 0, 0, 0, 7, 7]);
    image.verify_against(&elf).unwrap();
}

#[test]
fn rejects_overlapping_segments_and_empty_files() {
    let overlapping = elf32(0x100, &[(0x100, &[1, 2, 3, 4], 4), (0x102, &[5, 6], 2)]);
    let error = Image::from_elf(&overlapping).unwrap_err();
    assert!(error.contains("overlap"), "{error}");

    let error = Image::from_elf(&elf32(0, &[])).unwrap_err();
    assert!(error.contains("no loadable segments"), "{error}");
}

#[test]
fn verification_catches_a_wrong_image() {
    let elf = elf32(0x100, &[(0x100, &[1, 2, 3, 4], 4)]);
    let mut image = Image::from_elf(&elf).unwrap();
    image.bytes[2] ^= 0xff;
    assert!(image.verify_against(&elf).is_err());
}

#[test]
fn checks_the_program_region() {
    let elf = elf32(0x100, &[(0x100, &[1, 2, 3, 4], 0x40)]);
    let image = Image::from_elf(&elf).unwrap();

    image.check_against(&board(0x100, 0x140, None)).unwrap();

    // The zero-initialised tail counts: it needs memory too.
    let error = image.check_against(&board(0x100, 0x13f, None)).unwrap_err();
    assert!(error.contains("outside the memory"), "{error}");

    let error = image.check_against(&board(0x104, 0x200, None)).unwrap_err();
    assert!(error.contains("outside the memory"), "{error}");
}

#[test]
fn checks_the_entry_point_and_the_payload_limit() {
    let outside = elf32(0x300, &[(0x100, &[1, 2, 3, 4], 4)]);
    let image = Image::from_elf(&outside).unwrap();
    let error = image.check_against(&board(0, 0x1000, None)).unwrap_err();
    assert!(error.contains("entry point"), "{error}");

    let elf = elf32(0x100, &[(0x100, &[1, 2, 3, 4], 4)]);
    let image = Image::from_elf(&elf).unwrap();
    image.check_against(&board(0, 0x1000, Some(4))).unwrap();
    let error = image.check_against(&board(0, 0x1000, Some(3))).unwrap_err();
    assert!(error.contains("accepts at most 3"), "{error}");
}

#[test]
fn check_messages_are_exact() {
    let elf = elf32(0x100, &[(0x100, &[1, 2, 3, 4], 0x40)]);
    let image = Image::from_elf(&elf).unwrap();
    assert_eq!(
        image.check_against(&board(0x100, 0x13f, None)).unwrap_err(),
        "the program occupies 0x100..0x140, which is outside the memory Test board provides for \
         programs, 0x100..0x13f"
    );
    let outside = Image::from_elf(&elf32(0x300, &[(0x100, &[1, 2, 3, 4], 4)])).unwrap();
    assert_eq!(
        outside.check_against(&board(0, 0x1000, None)).unwrap_err(),
        "the entry point 0x300 is outside the loaded image 0x100..0x104"
    );
    let small = Image::from_elf(&elf32(0x100, &[(0x100, &[1, 2, 3, 4], 4)])).unwrap();
    assert_eq!(
        small.check_against(&board(0, 0x1000, Some(3))).unwrap_err(),
        "the image is 4 bytes, but the loader of Test board accepts at most 3"
    );
}

#[test]
fn addresses_beyond_32_bits_are_rejected() {
    let image = Image {
        load_address: 0x1_0000_0000,
        entry: 0x1_0000_0000,
        bytes: vec![1, 2],
        memory_end: 0x1_0000_0002,
    };
    assert_eq!(
        image.check_against(&board(0, u64::MAX, None)).unwrap_err(),
        "the load address 0x100000000 does not fit in 32 bits"
    );
}

#[test]
fn the_entry_point_at_the_last_byte_is_inside() {
    let image = Image::from_elf(&elf32(0x103, &[(0x100, &[1, 2, 3, 4], 4)])).unwrap();
    image.check_against(&board(0, 0x1000, None)).unwrap();
    let image = Image::from_elf(&elf32(0x104, &[(0x100, &[1, 2, 3, 4], 4)])).unwrap();
    assert!(image.check_against(&board(0, 0x1000, None)).is_err());
}

#[test]
fn summary_describes_the_image() {
    let elf = elf32(0x104, &[(0x100, &[1, 2, 3, 4, 5, 6], 6), (0x108, &[9, 8], 10)]);
    let image = Image::from_elf(&elf).unwrap();
    assert_eq!(
        image.summary(),
        "load address 0x100, entry 0x104, 10 bytes, memory up to 0x112"
    );
}

#[test]
fn not_an_elf_is_an_error() {
    let error = Image::from_elf(&[1, 2, 3]).unwrap_err();
    assert!(error.starts_with("not a valid ELF: "), "{error}");
    let image = Image::from_elf(&elf32(0x100, &[(0x100, &[1], 1)])).unwrap();
    let error = image.verify_against(&[1, 2, 3]).unwrap_err();
    assert!(error.starts_with("not a valid ELF: "), "{error}");
}

#[test]
fn the_reader_hands_over_the_segments_of_the_file() {
    // The image is built from what the ELF reader found, not from the file's bytes as they are.
    let elf = elf32(0x208, &[(0x208, &[7, 7], 2), (0x200, &[1, 2, 3, 4], 4)]);
    let image = Image::from_elf(&elf).unwrap();
    assert_eq!(image.entry, 0x208);
    assert_eq!(image.memory_end, 0x20a);
    assert_ne!(image.bytes, elf);
    assert_eq!(image.bytes.len(), 10);
}

#[test]
fn zero_sized_segments_are_skipped_and_read_errors_come_first() {
    let segments = vec![
        segment(0x100, &[1, 2], 2),
        segment(0x50, &[], 0),
        ReadSegment { address: 0x400, data: Err("bad range".to_owned()), size: 0 },
    ];
    let error = Image::from_segments(0x100, &segments).unwrap_err();
    assert_eq!(error, "cannot read a loadable segment: bad range");

    let segments = vec![segment(0x100, &[1, 2], 2), segment(0x50, &[], 0)];
    let image = Image::from_segments(0x100, &segments).unwrap();
    assert_eq!(image.load_address, 0x100);
    assert_eq!(image.bytes, [1, 2]);
}

#[test]
fn the_lowest_overlap_is_reported() {
    let segments = vec![
        segment(0x300, &[1, 2, 3, 4], 4),
        segment(0x302, &[5], 1),
        segment(0x100, &[1, 2, 3, 4], 4),
        segment(0x102, &[5], 1),
    ];
    assert_eq!(
        Image::from_segments(0, &segments).unwrap_err(),
        "loadable segments overlap at 0x102; cannot build a flat image"
    );
}

#[test]
fn a_segment_past_the_address_space_is_rejected() {
    let segments = vec![segment(u64::MAX - 1, &[1, 2, 3], 3)];
    assert_eq!(
        Image::from_segments(0, &segments).unwrap_err(),
        "the segment at 0xfffffffffffffffe reaches past the end of the address space"
    );
}

#[test]
fn segments_sharing_an_address_keep_their_file_order() {
    // Memory-only data at an address, then file bytes at the same address: no overlap.
    let segments = vec![segment(0x100, &[], 8), segment(0x100, &[4, 5], 2)];
    let image = Image::from_segments(0x100, &segments).unwrap();
    assert_eq!(image.bytes, [4, 5]);
    assert_eq!(image.memory_end, 0x108);
    // The other way round the file bytes reach into the later segment.
    let segments = vec![segment(0x100, &[4, 5], 2), segment(0x100, &[], 8)];
    assert!(Image::from_segments(0x100, &segments).is_err());
}

#[test]
fn a_built_image_verifies_against_its_segments() {
    let segments = vec![
        segment(0x208, &[7, 7], 2),
        segment(0x200, &[1, 2, 3, 4], 4),
        segment(0x300, &[], 0),
    ];
    let image = Image::from_segments(0x200, &segments).unwrap();
    image.verify_segments(&segments).unwrap();
    let mut changed = image;
    changed.bytes[8] = 0;
    assert_eq!(
        changed.verify_segments(&segments).unwrap_err(),
        "the image does not match the ELF segment at 0x208"
    );
}

#[test]
fn an_image_reaching_past_the_address_space_is_checked_without_overflow() {
    let image = Image {
        load_address: u64::MAX - 1,
        entry: 0,
        bytes: vec![1, 2, 3, 4],
        memory_end: u64::MAX,
    };
    assert_eq!(
        image.check_against(&board(0x1000, 0x2000, None)).unwrap_err(),
        "the program occupies 0xfffffffffffffffe..0xffffffffffffffff, which is outside the memory \
         Test board provides for programs, 0x1000..0x2000"
    );
    assert_eq!(
        image.check_against(&board(0, u64::MAX, None)).unwrap_err(),
        "the entry point 0x0 is outside the loaded image 0xfffffffffffffffe..0x10000000000000002"
    );
}

#[test]
fn an_image_verifies_exactly_when_it_holds_every_occupying_segment() {
    let image = Image { load_address: 0x100, entry: 0x100, bytes: vec![1, 2, 3, 4], memory_end: 0x104 };
    // A segment that occupies no memory is not compared.
    let held = vec![segment(0x100, &[1, 2], 2), segment(0x102, &[3, 4], 2), segment(0x300, &[9], 0)];
    image.verify_segments(&held).unwrap();
    // One byte off, or a segment below the image, is a mismatch.
    let off = vec![segment(0x100, &[1, 2], 2), segment(0x102, &[3, 5], 2)];
    assert_eq!(
        image.verify_segments(&off).unwrap_err(),
        "the image does not match the ELF segment at 0x102"
    );
    let below = vec![segment(0xff, &[0], 1)];
    assert_eq!(
        image.verify_segments(&below).unwrap_err(),
        "the image does not match the ELF segment at 0xff"
    );
}
