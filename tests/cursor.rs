use pico_shim::buffer::Buffer;
use pico_shim::cursor::Cursor;
use pico_shim::error::ErrorKind;

#[test]
fn four_reads_then_out_of_range() {
    let data = [7u8, 8, 9, 10];
    let mut c: Cursor<&[u8], u8> = Cursor::new(&data[..]);
    assert_eq!(c.pos(), 0);
    assert_eq!(*c.read_one().unwrap(), 7);
    assert_eq!(*c.read_one().unwrap(), 8);
    assert_eq!(*c.read_one().unwrap(), 9);
    assert_eq!(*c.read_one().unwrap(), 10);
    let err = c.read_one().unwrap_err();
    assert_eq!(err.kind, ErrorKind::OutOfRange);
    assert_eq!(err.message, "Cannot read beyond end of buffer");
    assert_eq!(c.pos(), 4);
}

#[test]
fn as_parts_clamps_position_past_end() {
    let data = [1u32, 2, 3, 4];
    let mut c: Cursor<&[u32], u32> = Cursor::new(&data[..]);
    c.seek(10);
    assert_eq!(c.pos(), 10);
    let (head, tail) = c.as_parts();
    assert_eq!(head, &[1, 2, 3, 4]);
    assert!(tail.is_empty());
    assert!(c.read_one().is_err());
    assert_eq!(c.pos(), 10);
}

#[test]
fn as_parts_splits_at_position() {
    let data = [1u32, 2, 3, 4];
    let mut c: Cursor<&[u32], u32> = Cursor::new(&data[..]);
    c.seek(1);
    let (head, tail) = c.as_parts();
    assert_eq!(head, &[1]);
    assert_eq!(tail, &[2, 3, 4]);
    assert_eq!(c.as_slice(), &[1, 2, 3, 4]);
}

#[test]
fn write_one_over_mutable_slice() {
    let mut data = [0u8; 3];
    {
        let mut c: Cursor<&mut [u8], u8> = Cursor::new(&mut data[..]);
        assert!(c.write_one(5).is_ok());
        assert!(c.write_one(6).is_ok());
        assert!(c.write_one(7).is_ok());
        let err = c.write_one(8).unwrap_err();
        assert_eq!(err.kind, ErrorKind::OutOfRange);
        assert_eq!(err.message, "Cannot write beyond end of buffer");
        assert_eq!(c.pos(), 3);
    }
    assert_eq!(data, [5, 6, 7]);
}

#[test]
fn write_one_past_end_changes_nothing() {
    let mut c: Cursor<[u8; 2], u8> = Cursor::new([1, 2]);
    c.seek(5);
    assert!(c.write_one(9).is_err());
    let (buf, pos) = c.into_inner();
    assert_eq!(buf, [1, 2]);
    assert_eq!(pos, 5);
}

#[test]
fn as_parts_mut_writes_reach_storage() {
    let mut c: Cursor<Vec<i32>, i32> = Cursor::new(vec![1, 2, 3, 4, 5]);
    c.seek(2);
    {
        let (head, tail) = c.as_parts_mut();
        assert_eq!(head.len(), 2);
        assert_eq!(tail.len(), 3);
        head[0] = 10;
        tail[0] = 30;
    }
    c.seek(99);
    {
        let (head, tail) = c.as_parts_mut();
        assert_eq!(head.len(), 5);
        assert!(tail.is_empty());
    }
    c.as_slice_mut()[4] = 50;
    assert_eq!(c.as_slice(), &[10, 2, 30, 4, 50]);
    assert_eq!(c.pos(), 99);
}

#[test]
fn cursor_over_buffer_hands_it_back() {
    let mut b: Buffer<u8, 4> = Buffer::new();
    b.push(0).unwrap();
    b.push(0).unwrap();
    let mut c: Cursor<Buffer<u8, 4>, u8> = Cursor::new(b);
    assert!(c.write_one(3).is_ok());
    assert!(c.write_one(4).is_ok());
    assert!(c.write_one(5).is_err());
    let (b, pos) = c.into_inner();
    assert_eq!(b.as_slice(), &[3, 4]);
    assert_eq!(pos, 2);
}

#[test]
fn cursor_write_str_keeps_partial_write() {
    let mut c: Cursor<[u8; 6], u8> = Cursor::new([b'.'; 6]);
    c.seek(1);
    assert!(c.write_str("ab").is_ok());
    assert_eq!(c.pos(), 3);
    let err = c.write_str("cdefg").unwrap_err();
    assert_eq!(err.kind, ErrorKind::OutOfRange);
    assert_eq!(c.pos(), 6);
    assert_eq!(c.as_slice(), b".abcde");
}

#[test]
fn cursor_write_str_from_past_end_writes_nothing() {
    let mut c: Cursor<[u8; 2], u8> = Cursor::new([1, 2]);
    c.seek(3);
    assert!(c.write_str("x").is_err());
    assert!(c.write_str("").is_ok());
    assert_eq!(c.as_slice(), &[1, 2]);
    assert_eq!(c.pos(), 3);
}
