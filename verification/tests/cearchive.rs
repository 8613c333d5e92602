use cepack::cearchive::{read_entry, read_field, CEArchive, CEArchiveFile, CountFieldEndianness};
use cepack::decompress::decompress;
use cepack::errors::UnpackError;

/// A field as it stands in a container: length, then bytes.
fn field(content: &[u8]) -> Vec<u8> {
    let mut out = (content.len() as u32).to_le_bytes().to_vec();
    out.extend_from_slice(content);
    out
}

fn entry(name: &str, folder: &str, data: &[u8]) -> Vec<u8> {
    let mut out = field(name.as_bytes());
    out.extend(field(folder.as_bytes()));
    out.extend(field(data));
    out
}

/// A raw DEFLATE stream of one stored block that holds `data`.
fn stored(data: &[u8]) -> Vec<u8> {
    assert!(data.len() <= 0xFFFF);
    let len = data.len() as u16;
    let mut out = vec![0x01];
    out.extend_from_slice(&len.to_le_bytes());
    out.extend_from_slice(&(!len).to_le_bytes());
    out.extend_from_slice(data);
    out
}

fn container(count: u32, plain: &[u8]) -> Vec<u8> {
    let mut out = count.to_le_bytes().to_vec();
    out.extend(stored(plain));
    out
}

fn scenario_plain() -> Vec<u8> {
    let mut plain = entry("a", "", &[1, 2, 3]);
    plain.extend(entry("b.txt", "x", &[]));
    plain
}

fn assert_file(file: &CEArchiveFile, name: &str, folder: &str, data: &[u8]) {
    assert_eq!(file.name, name);
    assert_eq!(file.folder, folder);
    assert_eq!(file.data, data);
}

fn is_err<T>(r: &Result<T, UnpackError>, e: UnpackError) -> bool {
    match r {
        Ok(_) => false,
        Err(got) => *got == e,
    }
}

#[test]
fn file_new_copies_its_arguments() {
    let file = CEArchiveFile::new("name", "folder", &[9, 8, 7]);
    assert_file(&file, "name", "folder", &[9, 8, 7]);
}

#[test]
fn file_new_with_empty_fields() {
    let file = CEArchiveFile::new("", "", &[]);
    assert_file(&file, "", "", &[]);
}

#[test]
fn scenario_bytes_are_as_documented() {
    let expected: Vec<u8> = vec![
        1, 0, 0, 0, b'a', 0, 0, 0, 0, 3, 0, 0, 0, 1, 2, 3, //
        5, 0, 0, 0, b'b', b'.', b't', b'x', b't', 1, 0, 0, 0, b'x', 0, 0, 0, 0,
    ];
    assert_eq!(scenario_plain(), expected);
}

#[test]
fn scenario_two_entries_from_expanded_bytes() {
    let archive = CEArchive::from_inflated(2, &scenario_plain()).unwrap();
    assert_eq!(archive.filecount, 2);
    assert_eq!(archive.files.len(), 2);
    assert_file(&archive.files[0], "a", "", &[1, 2, 3]);
    assert_file(&archive.files[1], "b.txt", "x", &[]);
}

#[test]
fn scenario_two_entries_from_a_container() {
    let archive = CEArchive::new(&container(2, &scenario_plain())).unwrap();
    assert_eq!(archive.filecount, 2);
    assert_eq!(archive.files.len(), 2);
    assert_file(&archive.files[0], "a", "", &[1, 2, 3]);
    assert_file(&archive.files[1], "b.txt", "x", &[]);
}

#[test]
fn container_with_no_files() {
    let archive = CEArchive::new(&container(0, &[])).unwrap();
    assert_eq!(archive.filecount, 0);
    assert!(archive.files.is_empty());
}

#[test]
fn container_without_a_stream_and_no_files() {
    let archive = CEArchive::new(&[0, 0, 0, 0]).unwrap();
    assert_eq!(archive.filecount, 0);
    assert!(archive.files.is_empty());
}

#[test]
fn bytes_after_the_last_file_are_not_looked_at() {
    let mut plain = scenario_plain();
    plain.extend_from_slice(&[0xFF, 0xFF, 0xFF, 0xFF, 0xFF]);
    let archive = CEArchive::from_inflated(2, &plain).unwrap();
    assert_eq!(archive.files.len(), 2);
    let first_only = CEArchive::from_inflated(1, &plain).unwrap();
    assert_eq!(first_only.filecount, 1);
    assert_eq!(first_only.files.len(), 1);
    assert_file(&first_only.files[0], "a", "", &[1, 2, 3]);
}

#[test]
fn more_files_declared_than_present_is_malformed() {
    let r = CEArchive::from_inflated(3, &scenario_plain());
    assert!(is_err(&r, UnpackError::MalformedArchive));
    let r = CEArchive::new(&container(3, &scenario_plain()));
    assert!(is_err(&r, UnpackError::MalformedArchive));
    let r = CEArchive::from_inflated(u32::MAX, &scenario_plain());
    assert!(is_err(&r, UnpackError::MalformedArchive));
}

#[test]
fn every_truncation_is_malformed() {
    let plain = scenario_plain();
    for cut in 0..plain.len() {
        let r = CEArchive::from_inflated(2, &plain[..cut]);
        assert!(is_err(&r, UnpackError::MalformedArchive), "cut at {}", cut);
        let r = CEArchive::new(&container(2, &plain[..cut]));
        assert!(is_err(&r, UnpackError::MalformedArchive), "cut at {}", cut);
    }
    assert!(CEArchive::from_inflated(2, &plain).is_ok());
}

#[test]
fn length_past_the_end_is_malformed() {
    // name length 5, but only 2 bytes follow
    let r = CEArchive::from_inflated(1, &[5, 0, 0, 0, b'a', b'b']);
    assert!(is_err(&r, UnpackError::MalformedArchive));
    // data length 0xFFFFFFFF
    let mut plain = field(b"a");
    plain.extend(field(b""));
    plain.extend_from_slice(&[0xFF, 0xFF, 0xFF, 0xFF, 1, 2, 3]);
    let r = CEArchive::from_inflated(1, &plain);
    assert!(is_err(&r, UnpackError::MalformedArchive));
    // folder length one more than what is left
    let mut plain = field(b"a");
    plain.extend_from_slice(&[9, 0, 0, 0, 1, 2, 3, 4, 5, 6, 7, 8]);
    let r = CEArchive::from_inflated(1, &plain);
    assert!(is_err(&r, UnpackError::MalformedArchive));
}

#[test]
fn lengths_are_least_significant_byte_first() {
    // 0x00000100 bytes of data: as most significant first it would be 0x00010000
    let mut plain = field(b"n");
    plain.extend(field(b"f"));
    plain.extend_from_slice(&[0x00, 0x01, 0x00, 0x00]);
    plain.extend(vec![7u8; 256]);
    let archive = CEArchive::from_inflated(1, &plain).unwrap();
    assert_eq!(archive.files[0].data, vec![7u8; 256]);
}

#[test]
fn name_that_is_no_utf8_is_malformed() {
    let mut plain = field(&[0xFF, 0xFE]);
    plain.extend(field(b"x"));
    plain.extend(field(&[1]));
    let r = CEArchive::from_inflated(1, &plain);
    assert!(is_err(&r, UnpackError::MalformedArchive));
}

#[test]
fn folder_that_is_no_utf8_is_malformed() {
    let mut plain = field(b"a");
    plain.extend(field(&[0xC3]));
    plain.extend(field(&[1]));
    let r = CEArchive::from_inflated(1, &plain);
    assert!(is_err(&r, UnpackError::MalformedArchive));
}

#[test]
fn data_may_be_any_bytes() {
    let plain = entry("a", "b", &[0xFF, 0xFE, 0x00, 0x80]);
    let archive = CEArchive::from_inflated(1, &plain).unwrap();
    assert_eq!(archive.files[0].data, vec![0xFF, 0xFE, 0x00, 0x80]);
}

#[test]
fn fewer_than_four_bytes_is_malformed() {
    for len in 0..4usize {
        let r = CEArchive::new(&vec![0u8; len]);
        assert!(is_err(&r, UnpackError::MalformedArchive), "length {}", len);
    }
}

#[test]
fn rejected_stream_is_zlib_error() {
    // reserved block type
    let r = CEArchive::new(&[0, 0, 0, 0, 0x07]);
    assert!(is_err(&r, UnpackError::ZlibError));
    // stored block whose two lengths disagree
    let r = CEArchive::new(&[1, 0, 0, 0, 0x01, 0x01, 0x00, 0x00, 0x00, 0x41]);
    assert!(is_err(&r, UnpackError::ZlibError));
}

#[test]
fn rejected_stream_comes_before_the_layout() {
    let r = CEArchive::with_count(5, &[0x07]);
    assert!(is_err(&r, UnpackError::ZlibError));
}

#[test]
fn round_trip_of_written_files() {
    let cases: Vec<Vec<(&str, &str, Vec<u8>)>> = vec![
        vec![],
        vec![("", "", vec![])],
        vec![("a", "", vec![1, 2, 3]), ("b.txt", "x", vec![])],
        vec![
            ("CET_TRAINER.CETRAINER", "", vec![0u8; 1000]),
            ("gr\u{fc}n.lua", "\u{4e2d}\u{6587}/\u{1f600}", vec![0xFF; 3]),
            ("", "only folder", vec![5]),
            ("same", "", vec![1]),
            ("same", "", vec![2]),
        ],
    ];
    for files in cases {
        let mut plain = Vec::new();
        for (name, folder, data) in &files {
            plain.extend(entry(name, folder, data));
        }
        let count = files.len() as u32;
        let direct = CEArchive::from_inflated(count, &plain).unwrap();
        let packed = CEArchive::new(&container(count, &plain)).unwrap();
        for archive in [direct, packed] {
            assert_eq!(archive.filecount, count);
            assert_eq!(archive.files.len(), files.len());
            for (file, (name, folder, data)) in archive.files.iter().zip(files.iter()) {
                assert_file(file, name, folder, data);
            }
        }
    }
}

#[test]
fn round_trip_of_many_files() {
    let mut plain = Vec::new();
    for i in 0..200u32 {
        plain.extend(entry(&format!("file{}", i), &format!("dir{}", i % 7), &vec![i as u8; (i % 5) as usize]));
    }
    let archive = CEArchive::new(&container(200, &plain)).unwrap();
    assert_eq!(archive.filecount, 200);
    assert_eq!(archive.files.len(), 200);
    for (i, file) in archive.files.iter().enumerate() {
        assert_file(file, &format!("file{}", i), &format!("dir{}", i % 7), &vec![i as u8; i % 5]);
    }
}

#[test]
fn compressed_stream_is_expanded() {
    // "Hello, world" compressed with fixed codes
    let compressed = [243u8, 72, 205, 201, 201, 215, 81, 40, 207, 47, 202, 73, 1, 0];
    assert_eq!(decompress(&compressed), Ok(b"Hello, world".to_vec()));
}

#[test]
fn stored_stream_is_expanded() {
    assert_eq!(decompress(&stored(b"abc")), Ok(b"abc".to_vec()));
    assert_eq!(decompress(&stored(b"")), Ok(vec![]));
}

#[test]
fn stream_of_several_blocks_is_expanded() {
    let data: Vec<u8> = (0..100_000u32).map(|i| (i % 251) as u8).collect();
    let mut stream = Vec::new();
    let chunks: Vec<&[u8]> = data.chunks(30_000).collect();
    for (i, chunk) in chunks.iter().enumerate() {
        let len = chunk.len() as u16;
        stream.push(if i + 1 == chunks.len() { 0x01 } else { 0x00 });
        stream.extend_from_slice(&len.to_le_bytes());
        stream.extend_from_slice(&(!len).to_le_bytes());
        stream.extend_from_slice(chunk);
    }
    assert_eq!(decompress(&stream), Ok(data));
}

#[test]
fn large_file_in_a_container() {
    let data: Vec<u8> = (0..60_000u32).map(|i| (i * 7) as u8).collect();
    let plain = entry("big.bin", "", &data);
    let archive = CEArchive::new(&container(1, &plain)).unwrap();
    assert_eq!(archive.files[0].data, data);
}

#[test]
fn decompress_rejected_stream() {
    assert_eq!(decompress(&[0x07]), Err(UnpackError::ZlibError));
}

#[test]
fn read_count_little_endian() {
    assert_eq!(CEArchive::read_count(&[2, 1, 0, 0, 9, 9], CountFieldEndianness::LittleEndian), Ok(258));
    assert_eq!(CEArchive::read_count(&[0xFF, 0xFF, 0xFF, 0xFF], CountFieldEndianness::LittleEndian), Ok(u32::MAX));
}

#[test]
fn read_count_native() {
    let head = [2u8, 1, 0, 0];
    assert_eq!(CEArchive::read_count(&head, CountFieldEndianness::Native), Ok(u32::from_ne_bytes(head)));
}

#[test]
fn read_count_needs_four_bytes() {
    for order in [CountFieldEndianness::LittleEndian, CountFieldEndianness::Native] {
        assert_eq!(CEArchive::read_count(&[1, 0, 0], order), Err(UnpackError::MalformedArchive));
        assert_eq!(CEArchive::read_count(&[], order), Err(UnpackError::MalformedArchive));
    }
}

#[test]
fn parse_little_endian_is_new() {
    let data = container(2, &scenario_plain());
    let archive = CEArchive::parse(&data, CountFieldEndianness::LittleEndian).unwrap();
    assert_eq!(archive.filecount, 2);
    assert_file(&archive.files[1], "b.txt", "x", &[]);
}

#[test]
fn parse_native_reads_the_count_in_the_machines_order() {
    let mut data = 2u32.to_ne_bytes().to_vec();
    data.extend(stored(&scenario_plain()));
    let archive = CEArchive::parse(&data, CountFieldEndianness::Native).unwrap();
    assert_eq!(archive.filecount, 2);
    assert_eq!(archive.files.len(), 2);
    assert_file(&archive.files[0], "a", "", &[1, 2, 3]);
}

#[test]
fn parse_native_of_a_short_container() {
    let r = CEArchive::parse(&[1, 2], CountFieldEndianness::Native);
    assert!(is_err(&r, UnpackError::MalformedArchive));
}

#[test]
fn find_gives_the_first_of_a_name() {
    let mut plain = entry("other", "", &[0]);
    plain.extend(entry("same", "one", &[1]));
    plain.extend(entry("same", "two", &[2]));
    let archive = CEArchive::from_inflated(3, &plain).unwrap();
    let found = archive.find("same").unwrap();
    assert_file(found, "same", "one", &[1]);
    assert_file(archive.find("other").unwrap(), "other", "", &[0]);
}

#[test]
fn find_of_a_name_that_is_not_there() {
    let archive = CEArchive::from_inflated(2, &scenario_plain()).unwrap();
    assert!(archive.find("A").is_none());
    assert!(archive.find("").is_none());
    assert!(archive.find("b.tx").is_none());
    let empty = CEArchive::from_inflated(0, &[]).unwrap();
    assert!(empty.find("a").is_none());
}

#[test]
fn find_matches_the_name_not_the_folder() {
    let archive = CEArchive::from_inflated(2, &scenario_plain()).unwrap();
    assert!(archive.find("x").is_none());
}

#[test]
fn read_field_gives_bytes_and_next_place() {
    let buf = [9u8, 2, 0, 0, 0, 0xAA, 0xBB, 7];
    let (bytes, next) = read_field(&buf, 1).unwrap();
    assert_eq!(bytes, &[0xAA, 0xBB]);
    assert_eq!(next, 7);
    let (bytes, next) = read_field(&[0, 0, 0, 0], 0).unwrap();
    assert!(bytes.is_empty());
    assert_eq!(next, 4);
}

#[test]
fn read_field_that_runs_past_the_end() {
    assert!(read_field(&[3, 0, 0, 0, 1, 2], 0).is_none());
    assert!(read_field(&[0, 0, 0], 0).is_none());
    assert!(read_field(&[0, 0, 0, 0], 1).is_none());
    assert!(read_field(&[0, 0, 0, 0], 4).is_none());
    assert!(read_field(&[0, 0, 0, 0], 5).is_none());
    assert!(read_field(&[0, 0, 0, 0], usize::MAX).is_none());
    assert!(read_field(&[0xFF, 0xFF, 0xFF, 0xFF, 0], 0).is_none());
}

#[test]
fn read_entry_gives_file_and_next_place() {
    let plain = scenario_plain();
    let (first, next) = read_entry(&plain, 0).unwrap();
    assert_file(&first, "a", "", &[1, 2, 3]);
    assert_eq!(next, 16);
    let (second, end) = read_entry(&plain, next).unwrap();
    assert_file(&second, "b.txt", "x", &[]);
    assert_eq!(end, plain.len());
    assert!(read_entry(&plain, end).is_none());
}
