use cdrs_frame::error::Error;
use cdrs_frame::wire::{
    read_bytes, read_bytes_map, read_int, read_int_length, read_raw_bytes, read_short,
    read_short_length, read_string, read_string_list, set_entry, Cursor,
};

#[test]
fn read_int_is_big_endian_signed() {
    let buf = [0xff, 0xff, 0xff, 0xfe, 0x00, 0x00, 0x01, 0x00];
    let mut c = Cursor::new(&buf);
    assert_eq!(read_int(&mut c), Ok(-2));
    assert_eq!(read_int(&mut c), Ok(256));
    assert_eq!(c.pos, 8);
    assert_eq!(read_int(&mut c), Err(Error::Io));
}

#[test]
fn read_int_length_rejects_negative() {
    let buf = [0x80, 0x00, 0x00, 0x00];
    let mut c = Cursor::new(&buf);
    assert_eq!(read_int_length(&mut c), Err(Error::MalformedLength));
    let buf = [0x00, 0x00, 0x01, 0x02];
    let mut c = Cursor::new(&buf);
    assert_eq!(read_int_length(&mut c), Ok(258));
}

#[test]
fn read_short_is_big_endian_unsigned() {
    let buf = [0xff, 0xfe, 0x01];
    let mut c = Cursor::new(&buf);
    assert_eq!(read_short(&mut c), Ok(0xfffe));
    assert_eq!(c.remaining(), 1);
    assert_eq!(read_short_length(&mut c), Err(Error::Io));
}

#[test]
fn read_raw_and_length_prefixed_bytes() {
    let buf = [0x00, 0x00, 0x00, 0x02, 7, 8, 9];
    let mut c = Cursor::new(&buf);
    assert_eq!(read_bytes(&mut c), Ok(vec![7, 8]));
    assert_eq!(read_raw_bytes(1, &mut c), Ok(vec![9]));
    assert_eq!(read_raw_bytes(1, &mut c), Err(Error::Io));
    let buf = [0x00, 0x00, 0x00, 0x05, 1];
    let mut c = Cursor::new(&buf);
    assert_eq!(read_bytes(&mut c), Err(Error::Io));
}

#[test]
fn read_string_decodes_utf8() {
    let buf = [0x00, 0x03, 0x61, 0xc3, 0xa9];
    let mut c = Cursor::new(&buf);
    assert_eq!(read_string(&mut c), Ok("a\u{e9}".to_string()));
    let buf = [0x00, 0x01, 0xff];
    let mut c = Cursor::new(&buf);
    assert_eq!(read_string(&mut c), Err(Error::Encoding));
}

#[test]
fn read_string_list_reads_count() {
    let buf = [0x00, 0x02, 0x00, 0x01, 0x78, 0x00, 0x00];
    let mut c = Cursor::new(&buf);
    assert_eq!(read_string_list(&mut c), Ok(vec!["x".to_string(), String::new()]));
    assert_eq!(c.pos, 7);
}

#[test]
fn read_bytes_map_reads_entries() {
    let buf = [0x00, 0x01, 0x00, 0x01, 0x6b, 0x00, 0x00, 0x00, 0x01, 0x05];
    let mut c = Cursor::new(&buf);
    assert_eq!(read_bytes_map(&mut c), Ok(vec![("k".to_string(), vec![5])]));
    let buf = [0x00, 0x02, 0x00, 0x01, 0x6b, 0x00, 0x00, 0x00, 0x00];
    let mut c = Cursor::new(&buf);
    assert_eq!(read_bytes_map(&mut c), Err(Error::Io));
}

#[test]
fn set_entry_replaces_or_appends() {
    let mut m = vec![("a".to_string(), vec![1])];
    set_entry(&mut m, "b".to_string(), vec![2]);
    set_entry(&mut m, "a".to_string(), vec![3]);
    assert_eq!(m, vec![("a".to_string(), vec![3]), ("b".to_string(), vec![2])]);
}
