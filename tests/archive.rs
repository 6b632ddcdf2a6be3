use tar_wasm::archive::parse_tar;
use tar_wasm::entry::EntryType;
use tar_wasm::error::TarErrors;
use tar_wasm::header::{read_octal, trimmed_end};

fn header(name: &[u8], size: &[u8], flag: u8) -> Vec<u8> {
    let mut block = vec![0u8; 512];
    block[..name.len()].copy_from_slice(name);
    block[124..124 + size.len()].copy_from_slice(size);
    block[156] = flag;
    block
}

fn entry(name: &[u8], data: &[u8]) -> Vec<u8> {
    let size = format!("{:011o}", data.len());
    let mut out = header(name, size.as_bytes(), b'0');
    out.extend_from_slice(data);
    let rem = data.len() % 512;
    if rem != 0 {
        out.extend(std::iter::repeat(0u8).take(512 - rem));
    }
    out
}

fn finish(mut buf: Vec<u8>) -> Vec<u8> {
    buf.extend(std::iter::repeat(0u8).take(1024));
    buf
}

#[test]
fn hello_world_end_to_end() {
    let mut buf = header(b"hello.txt", b"000000000005", b'0');
    buf.extend_from_slice(b"world");
    buf.extend(std::iter::repeat(0u8).take(507));
    buf.extend(std::iter::repeat(0u8).take(512));
    assert_eq!(buf.len(), 1536);
    let tar = parse_tar(&buf).ok().unwrap();
    assert_eq!(tar.get_filenames(), vec!["hello.txt".to_string()]);
    assert_eq!(tar.get_payload("hello.txt").ok().unwrap(), b"world".to_vec());
}

#[test]
fn lookup_finds_named_entry() {
    let mut buf = entry(b"a.txt", b"first");
    buf.extend(entry(b"b.txt", b"second payload"));
    let tar = parse_tar(&finish(buf)).ok().unwrap();
    assert_eq!(tar.get_payload("b.txt").ok().unwrap(), b"second payload".to_vec());
    assert_eq!(tar.get_payload("a.txt").ok().unwrap(), b"first".to_vec());
    assert_eq!(tar.get_payload("c.txt").err().unwrap(), TarErrors::FileNotFound);
    assert_eq!(tar.get_payload("B.txt").err().unwrap(), TarErrors::FileNotFound);
}

#[test]
fn lookup_returns_first_of_duplicates() {
    let mut buf = entry(b"same", b"one");
    buf.extend(entry(b"same", b"two"));
    let tar = parse_tar(&finish(buf)).ok().unwrap();
    assert_eq!(tar.get_filenames(), vec!["same".to_string(), "same".to_string()]);
    assert_eq!(tar.get_payload("same").ok().unwrap(), b"one".to_vec());
}

#[test]
fn all_zero_first_block_is_empty_archive() {
    let tar = parse_tar(&vec![0u8; 512]).ok().unwrap();
    assert!(tar.get_filenames().is_empty());
    let tar = parse_tar(&vec![0u8; 2048]).ok().unwrap();
    assert!(tar.entries().is_empty());
}

#[test]
fn short_buffer_is_not_a_tar_file() {
    assert_eq!(parse_tar(&[]).err().unwrap(), TarErrors::NotATarFile);
    assert_eq!(parse_tar(&vec![0u8; 511]).err().unwrap(), TarErrors::NotATarFile);
    assert_eq!(parse_tar(&vec![b'a'; 100]).err().unwrap(), TarErrors::NotATarFile);
}

#[test]
fn truncated_trailing_header_is_damaged() {
    let mut buf = entry(b"a.txt", b"");
    buf.extend_from_slice(&header(b"b.txt", b"00000000000", b'0')[..300]);
    assert_eq!(buf.len(), 812);
    assert_eq!(parse_tar(&buf).err().unwrap(), TarErrors::DamagedHeader);
}

#[test]
fn payload_past_end_is_damaged() {
    let mut buf = header(b"big.bin", b"00000001000", b'0');
    buf.extend_from_slice(&[7u8; 100]);
    assert_eq!(parse_tar(&buf).err().unwrap(), TarErrors::DamagedHeader);
}

#[test]
fn octal_size_field_decodes() {
    assert_eq!(read_octal(b"000000000012", 0, 12), Some(10));
    assert_eq!(read_octal(b"777", 0, 3), Some(511));
    assert_eq!(read_octal(b"00000000001x", 0, 12), None);
    assert_eq!(read_octal(b"8", 0, 1), None);
    assert_eq!(read_octal(b"", 0, 0), None);
    let mut buf = header(b"ten.bin", b"000000000012", b'0');
    buf.extend_from_slice(&[1u8; 10]);
    buf.extend(std::iter::repeat(0u8).take(502));
    let tar = parse_tar(&finish(buf)).ok().unwrap();
    assert_eq!(tar.entries()[0].size(), 10);
    assert_eq!(tar.get_payload("ten.bin").ok().unwrap(), vec![1u8; 10]);
}

#[test]
fn non_octal_size_is_unreadable() {
    let buf = finish(header(b"x.txt", b"00000000001x", b'0'));
    assert_eq!(parse_tar(&buf).err().unwrap(), TarErrors::SizeUnreadable);
    let buf = finish(header(b"x.txt", b"9", b'0'));
    assert_eq!(parse_tar(&buf).err().unwrap(), TarErrors::SizeUnreadable);
    let buf = finish(header(b"x.txt", b" 0000000005", b'0'));
    assert_eq!(parse_tar(&buf).err().unwrap(), TarErrors::SizeUnreadable);
}

#[test]
fn empty_size_field_is_unreadable() {
    let buf = finish(header(b"x.txt", b"", b'0'));
    assert_eq!(parse_tar(&buf).err().unwrap(), TarErrors::SizeUnreadable);
}

#[test]
fn size_field_trailing_nuls_are_trimmed() {
    let mut buf = header(b"five", b"0000000005\0\0", b'0');
    buf.extend_from_slice(b"abcde");
    buf.extend(std::iter::repeat(0u8).take(507));
    let tar = parse_tar(&buf).ok().unwrap();
    assert_eq!(tar.get_payload("five").ok().unwrap(), b"abcde".to_vec());
}

#[test]
fn one_byte_entry_advances_two_blocks() {
    let mut buf = header(b"one", b"00000000001", b'0');
    buf.push(b'z');
    buf.extend(std::iter::repeat(0u8).take(511));
    assert_eq!(buf.len(), 1024);
    buf.extend(entry(b"two", b"yy"));
    let tar = parse_tar(&finish(buf)).ok().unwrap();
    assert_eq!(tar.get_filenames(), vec!["one".to_string(), "two".to_string()]);
    assert_eq!(tar.get_payload("one").ok().unwrap(), b"z".to_vec());
    assert_eq!(tar.get_payload("two").ok().unwrap(), b"yy".to_vec());
}

#[test]
fn full_block_payload_takes_no_padding() {
    let mut buf = entry(b"block", &[5u8; 512]);
    assert_eq!(buf.len(), 1024);
    buf.extend(entry(b"after", b"!"));
    let tar = parse_tar(&finish(buf)).ok().unwrap();
    assert_eq!(tar.get_filenames(), vec!["block".to_string(), "after".to_string()]);
    assert_eq!(tar.get_payload("block").ok().unwrap(), vec![5u8; 512]);
}

#[test]
fn archive_may_end_without_terminator() {
    let buf = entry(b"only", b"data");
    assert_eq!(buf.len(), 1024);
    let tar = parse_tar(&buf).ok().unwrap();
    assert_eq!(tar.get_filenames(), vec!["only".to_string()]);
}

#[test]
fn names_keep_stream_order() {
    let mut buf = entry(b"zeta", b"1");
    buf.extend(entry(b"alpha", b"22"));
    buf.extend(entry(b"mid", b""));
    let tar = parse_tar(&finish(buf)).ok().unwrap();
    assert_eq!(
        tar.get_filenames(),
        vec!["zeta".to_string(), "alpha".to_string(), "mid".to_string()]
    );
}

#[test]
fn payload_length_equals_size() {
    let mut buf = entry(b"a", b"");
    buf.extend(entry(b"b", &[3u8; 700]));
    buf.extend(entry(b"c", b"xyz"));
    let tar = parse_tar(&finish(buf)).ok().unwrap();
    let sizes: Vec<usize> = tar.entries().iter().map(|e| e.size()).collect();
    assert_eq!(sizes, vec![0, 700, 3]);
    for e in tar.entries() {
        assert_eq!(e.payload().len(), e.size());
        assert!(!e.filename().is_empty());
    }
}

#[test]
fn name_is_decoded_lossily() {
    let mut buf = entry(b"caf\xc3\xa9", b"ok");
    buf.extend(entry(b"bad\xff", b"no"));
    let tar = parse_tar(&finish(buf)).ok().unwrap();
    assert_eq!(
        tar.get_filenames(),
        vec!["caf\u{e9}".to_string(), "bad\u{fffd}".to_string()]
    );
    assert_eq!(tar.get_payload("bad\u{fffd}").ok().unwrap(), b"no".to_vec());
}

#[test]
fn type_flag_is_recorded() {
    let mut buf = header(b"dir/", b"00000000000", b'5');
    buf.extend(header(b"link", b"00000000000", b'2'));
    buf.extend(header(b"old", b"00000000000", 0));
    let tar = parse_tar(&finish(buf)).ok().unwrap();
    let kinds: Vec<EntryType> = tar.entries().iter().map(|e| e.variant()).collect();
    assert_eq!(
        kinds,
        vec![EntryType::Directory, EntryType::SymbolicLink, EntryType::NormalFile]
    );
}

#[test]
fn type_flags_map_to_kinds() {
    assert_eq!(EntryType::from_flag(b'0'), EntryType::NormalFile);
    assert_eq!(EntryType::from_flag(0), EntryType::NormalFile);
    assert_eq!(EntryType::from_flag(b'1'), EntryType::HardLink);
    assert_eq!(EntryType::from_flag(b'3'), EntryType::CharacterSpecial);
    assert_eq!(EntryType::from_flag(b'4'), EntryType::BlockSpecial);
    assert_eq!(EntryType::from_flag(b'6'), EntryType::FIFO);
    assert_eq!(EntryType::from_flag(b'7'), EntryType::ContiguousFile);
    assert_eq!(EntryType::from_flag(b'g'), EntryType::GlobalExtendedHeader);
    assert_eq!(EntryType::from_flag(b'x'), EntryType::NextFileExtendedHeader);
    assert_eq!(EntryType::from_flag(b'L'), EntryType::VendorSpecific);
    assert_eq!(EntryType::from_flag(b'?'), EntryType::NormalFile);
}

#[test]
fn name_field_trailing_nuls_trimmed() {
    let field = b"abc\0\0\0";
    assert_eq!(trimmed_end(field, 0, 6), 3);
    assert_eq!(trimmed_end(b"\0\0", 0, 2), 0);
    assert_eq!(trimmed_end(b"a\0b\0", 0, 4), 3);
}

#[test]
fn error_messages() {
    assert_eq!(TarErrors::NotATarFile.message(), "Not a tar file");
    assert_eq!(TarErrors::DamagedHeader.message(), "File header could not be read");
    assert_eq!(TarErrors::SizeUnreadable.message(), "Could not read file entry size");
    assert_eq!(
        TarErrors::FileNotFound.message(),
        "File with provided filename could not be found"
    );
}
