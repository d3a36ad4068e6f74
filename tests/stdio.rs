use pico_shim::error::ErrorKind;
use pico_shim::stdio::{FmtTarget, Stdio};

#[test]
fn long_message_is_cut_at_capacity() {
    let message = "x".repeat(300) + "tail";
    let mut target = FmtTarget::new([0u8; 256]);
    let err = target.write_str(&message).unwrap_err();
    assert_eq!(err.kind, ErrorKind::OutOfRange);
    assert_eq!(target.written().len(), 256);
    assert!(target.written().iter().all(|&b| b == b'x'));
    assert!(target.write_str("more").is_err());
    assert_eq!(target.written().len(), 256);
}

#[test]
fn short_messages_append() {
    let mut target = FmtTarget::new([0u8; 16]);
    assert!(target.write_str("panicked at ").is_ok());
    assert!(target.write_str("a.rs").is_ok());
    assert_eq!(target.written(), b"panicked at a.rs");
    assert!(target.write_str("").is_ok());
    assert!(target.write_str("!").is_err());
    assert_eq!(target.written(), b"panicked at a.rs");
}

#[test]
fn partial_write_keeps_bytes_that_fit() {
    let mut target = FmtTarget::new(vec![0u8; 4]);
    assert!(target.write_str("abcdef").is_err());
    assert_eq!(target.written(), b"abcd");
}

#[test]
fn fmt_target_over_borrowed_slice() {
    let mut backing = [b'-'; 5];
    {
        let mut target = FmtTarget::new(&mut backing[..]);
        assert!(target.write_str("hé").is_ok());
        assert_eq!(target.written(), "hé".as_bytes());
    }
    assert_eq!(&backing[..3], "hé".as_bytes());
    assert_eq!(&backing[3..], b"--");
}

#[test]
fn stdio_handle_can_be_made() {
    let _s = Stdio::new();
}
