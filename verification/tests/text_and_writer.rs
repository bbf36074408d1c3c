use kshell::text::{bytes_eq, check_utf8, tokenize, trim};
use kshell::writer::{copy_str, write_output};

#[test]
fn trim_removes_surrounding_whitespace() {
    assert_eq!(trim(b"  hi \n"), b"hi".to_vec());
    assert_eq!(trim(b"\t read \r\n"), b"read".to_vec());
    assert_eq!(trim(b"ls"), b"ls".to_vec());
    assert_eq!(trim(b"a  b"), b"a  b".to_vec());
}

#[test]
fn trim_of_whitespace_only_is_empty() {
    assert_eq!(trim(b""), Vec::<u8>::new());
    assert_eq!(trim(b" \t\r\n "), Vec::<u8>::new());
}

#[test]
fn tokenize_splits_on_whitespace_runs() {
    let toks = tokenize(b"cat  foo.txt\tbar");
    assert_eq!(toks, vec![b"cat".to_vec(), b"foo.txt".to_vec(), b"bar".to_vec()]);
}

#[test]
fn tokenize_handles_surrounding_whitespace() {
    let toks = tokenize(b"  echo hi ");
    assert_eq!(toks, vec![b"echo".to_vec(), b"hi".to_vec()]);
    assert_eq!(tokenize(b"   "), Vec::<Vec<u8>>::new());
    assert_eq!(tokenize(b""), Vec::<Vec<u8>>::new());
}

#[test]
fn check_utf8_accepts_valid_encodings() {
    assert!(check_utf8(b"plain ascii"));
    assert!(check_utf8("héllo wörld".as_bytes()));
    assert!(check_utf8("euro \u{20ac} sign".as_bytes()));
    assert!(check_utf8("clef \u{1d11e}".as_bytes()));
    assert!(check_utf8(b""));
}

#[test]
fn check_utf8_rejects_invalid_encodings() {
    assert!(!check_utf8(&[0xff]));
    assert!(!check_utf8(&[0x80])); // lone continuation byte
    assert!(!check_utf8(&[0xc3])); // truncated two-byte sequence
    assert!(!check_utf8(&[0xc0, 0xaf])); // overlong encoding
    assert!(!check_utf8(&[0xe0, 0x80, 0x80])); // overlong encoding
    assert!(!check_utf8(&[0xed, 0xa0, 0x80])); // surrogate range
    assert!(!check_utf8(&[0xf4, 0x90, 0x80, 0x80])); // past the last scalar
    assert!(!check_utf8(&[b'o', b'k', 0xe2, 0x82])); // truncated at the end
}

#[test]
fn check_utf8_agrees_with_std() {
    let samples: &[&[u8]] = &[
        b"ls",
        &[0xc3, 0xa9],
        &[0xc3, 0x29],
        &[0xe2, 0x82, 0xac],
        &[0xf0, 0x9d, 0x84, 0x9e],
        &[0xf5, 0x80, 0x80, 0x80],
        &[0xc2, 0x80],
        &[0xc1, 0xbf],
    ];
    for s in samples {
        assert_eq!(check_utf8(s), std::str::from_utf8(s).is_ok());
    }
}

#[test]
fn bytes_eq_compares_contents() {
    assert!(bytes_eq(b"help", b"help"));
    assert!(!bytes_eq(b"help", b"help "));
    assert!(!bytes_eq(b"help", b"helq"));
    assert!(bytes_eq(b"", b""));
}

#[test]
fn copy_str_copies_what_fits() {
    let mut dest = vec![9u8; 4];
    assert_eq!(copy_str(b"ab", &mut dest), 2);
    assert_eq!(dest, vec![b'a', b'b', 9, 9]);
    let mut small = vec![0u8; 3];
    assert_eq!(copy_str(b"abcdef", &mut small), 3);
    assert_eq!(small, vec![b'a', b'b', b'c']);
}

#[test]
fn write_output_never_exceeds_capacity() {
    let mut out = vec![1u8; 4];
    let n = write_output(b"0123456789", &mut out);
    assert_eq!(n, 4);
    assert_eq!(out, b"0123".to_vec());
}

#[test]
fn write_output_terminates_short_responses() {
    let mut out = vec![1u8; 8];
    let n = write_output(b"abc", &mut out);
    assert_eq!(n, 3);
    assert_eq!(out, vec![b'a', b'b', b'c', 0, 1, 1, 1, 1]);
}

#[test]
fn write_output_exact_fit_has_no_terminator() {
    let mut out = vec![1u8; 3];
    let n = write_output(b"abc", &mut out);
    assert_eq!(n, 3);
    assert_eq!(out, b"abc".to_vec());
}

#[test]
fn write_output_zero_capacity_writes_nothing() {
    let mut out = Vec::new();
    let n = write_output(b"abc", &mut out);
    assert_eq!(n, 0);
    assert!(out.is_empty());
}
