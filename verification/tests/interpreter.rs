use kshell::shell::{
    classify, command_action, file_outcome, interpret, list_outcome, sector_outcome, Action,
    Command, FILENAME_MAX, RESPONSE_CAPACITY, SECTOR_SIZE,
};
use kshell::text::trim;
use kshell::writer::write_output;

fn reply_of(a: Action) -> Vec<u8> {
    match a {
        Action::Reply(text) => text,
        Action::ListFiles => panic!("expected a finished reply, got a directory-list request"),
        Action::ReadFile(_) => panic!("expected a finished reply, got a file-read request"),
        Action::ReadSector => panic!("expected a finished reply, got a sector-read request"),
    }
}

const HELP_TEXT: &[u8] = b"Available commands:\n  ls    - List files\n  cat   - Show file content\n  whoami- Current user\n  date  - System date\n  clear - Clear screen\n  echo  - Echo text\n  os    - OS Info\n  read  - Read Sector 0";

#[test]
fn help_ignores_trailing_arguments() {
    assert_eq!(reply_of(interpret(b"help")), HELP_TEXT.to_vec());
    assert_eq!(reply_of(interpret(b"help me please")), HELP_TEXT.to_vec());
}

#[test]
fn whoami_ignores_trailing_arguments() {
    assert_eq!(reply_of(interpret(b"whoami")), b"root".to_vec());
    assert_eq!(reply_of(interpret(b"whoami now")), b"root".to_vec());
}

#[test]
fn date_ignores_trailing_arguments() {
    let expected = b"Sat Dec 14 01:15:00 UTC 2025".to_vec();
    assert_eq!(reply_of(interpret(b"date")), expected);
    assert_eq!(reply_of(interpret(b"date --utc extra")), expected);
}

#[test]
fn os_ignores_trailing_arguments() {
    let expected = b"Mithl OS v0.4 (Rust Shell Enabled)".to_vec();
    assert_eq!(reply_of(interpret(b"os")), expected);
    assert_eq!(reply_of(interpret(b"os version")), expected);
}

#[test]
fn clear_yields_empty_reply() {
    assert_eq!(reply_of(interpret(b"clear")), Vec::<u8>::new());
}

#[test]
fn empty_and_whitespace_input_yield_empty_reply() {
    assert_eq!(reply_of(interpret(b"")), Vec::<u8>::new());
    assert_eq!(reply_of(interpret(b"   \t \r\n ")), Vec::<u8>::new());
}

#[test]
fn invalid_utf8_input_yields_empty_reply() {
    assert_eq!(reply_of(interpret(&[0xff, b'l', b's'])), Vec::<u8>::new());
    assert_eq!(reply_of(interpret(&[b'l', b's', 0xc3])), Vec::<u8>::new());
}

#[test]
fn unknown_command_text() {
    let expected = b"Unknown command. Type 'help' for list.".to_vec();
    assert_eq!(reply_of(interpret(b"frobnicate")), expected);
    assert_eq!(reply_of(interpret(b"Help")), expected);
    assert_eq!(reply_of(interpret(b"lsx -l")), expected);
}

#[test]
fn cat_without_argument_yields_usage() {
    assert_eq!(reply_of(interpret(b"cat")), b"Usage: cat <filename>".to_vec());
}

#[test]
fn cat_rejects_long_filename_without_service_call() {
    let mut input = b"cat ".to_vec();
    input.extend(std::iter::repeat(b'a').take(FILENAME_MAX + 1));
    assert_eq!(reply_of(interpret(&input)), b"Filename too long.".to_vec());
}

#[test]
fn cat_accepts_longest_filename() {
    let mut input = b"cat ".to_vec();
    input.extend(std::iter::repeat(b'a').take(FILENAME_MAX));
    match interpret(&input) {
        Action::ReadFile(name) => {
            let mut expected: Vec<u8> = std::iter::repeat(b'a').take(FILENAME_MAX).collect();
            expected.push(0);
            assert_eq!(name, expected);
        }
        _ => panic!("expected a file-read request"),
    }
}

#[test]
fn cat_passes_filename_with_terminator() {
    match interpret(b"cat foo.txt") {
        Action::ReadFile(name) => assert_eq!(name, b"foo.txt\0".to_vec()),
        _ => panic!("expected a file-read request"),
    }
}

#[test]
fn cat_uses_first_argument_only() {
    match interpret(b"cat a b c") {
        Action::ReadFile(name) => assert_eq!(name, b"a\0".to_vec()),
        _ => panic!("expected a file-read request"),
    }
}

#[test]
fn ls_asks_for_directory_list() {
    assert!(matches!(interpret(b"ls"), Action::ListFiles));
    assert!(matches!(interpret(b"  ls  "), Action::ListFiles));
    assert!(matches!(interpret(b"ls -l"), Action::ListFiles));
}

#[test]
fn read_asks_for_sector() {
    assert!(matches!(interpret(b"read"), Action::ReadSector));
    assert!(matches!(interpret(b"read 1"), Action::ReadSector));
}

#[test]
fn echo_returns_rest_of_line() {
    assert_eq!(reply_of(interpret(b"echo hello world")), b"hello world".to_vec());
}

#[test]
fn echo_slices_after_fixed_prefix() {
    // The payload is the trimmed line past the five-byte prefix `echo `,
    // so extra separating whitespace is kept verbatim.
    assert_eq!(reply_of(interpret(b"echo   spaced")), b"  spaced".to_vec());
    assert_eq!(reply_of(interpret(b"  echo hi  ")), b"hi".to_vec());
    assert_eq!(reply_of(interpret(b"echo\tx")), b"x".to_vec());
}

#[test]
fn echo_is_clipped_to_the_scratch_capacity() {
    let mut input = b"echo ".to_vec();
    input.extend(std::iter::repeat(b'x').take(RESPONSE_CAPACITY + 100));
    let response = reply_of(interpret(&input));
    assert_eq!(response.len(), RESPONSE_CAPACITY);
    assert!(response.iter().all(|&b| b == b'x'));
}

#[test]
fn echo_without_argument_yields_empty_reply() {
    assert_eq!(reply_of(interpret(b"echo")), Vec::<u8>::new());
}

#[test]
fn classify_and_act_compose() {
    let line = trim(b" whoami ");
    let c = classify(&line);
    assert!(matches!(c, Command::Whoami));
    match command_action(c) {
        Action::Reply(text) => assert_eq!(text, b"root".to_vec()),
        _ => panic!("whoami needs no external call"),
    }
    let cat_line = trim(b"cat boot.cfg");
    match classify(&cat_line) {
        Command::Cat(Some(name)) => assert_eq!(name, b"boot.cfg".to_vec()),
        _ => panic!("expected a cat command with its filename"),
    }
}

#[test]
fn list_outcome_failure_text() {
    let buf = vec![0u8; RESPONSE_CAPACITY];
    assert_eq!(list_outcome(-1, &buf), b"Failed to list files.".to_vec());
}

#[test]
fn list_outcome_passes_bytes_verbatim() {
    let mut buf = vec![0u8; RESPONSE_CAPACITY];
    buf[..10].copy_from_slice(b"0123456789");
    assert_eq!(list_outcome(10, &buf), b"0123456789".to_vec());
    assert_eq!(list_outcome(0, &buf), Vec::<u8>::new());
}

#[test]
fn file_outcome_failure_text() {
    let buf = vec![0u8; RESPONSE_CAPACITY];
    assert_eq!(file_outcome(-7, &buf), b"File not found or read error.".to_vec());
}

#[test]
fn file_outcome_passes_bytes_verbatim() {
    let mut buf = vec![0u8; RESPONSE_CAPACITY];
    buf[..5].copy_from_slice(b"hello");
    assert_eq!(file_outcome(5, &buf), b"hello".to_vec());
}

#[test]
fn sector_outcome_finds_boot_signature() {
    let mut sector = vec![0u8; SECTOR_SIZE];
    sector[510] = 0x55;
    sector[511] = 0xaa;
    assert_eq!(
        sector_outcome(0, &sector),
        b"Read Sector 0 Success! Found Boot Signature (0x55AA).".to_vec()
    );
}

#[test]
fn sector_outcome_reports_missing_signature() {
    let expected = b"Read Sector 0 Success! (No Boot Sig)".to_vec();
    let mut sector = vec![0u8; SECTOR_SIZE];
    assert_eq!(sector_outcome(0, &sector), expected);
    // the signature bytes count only at offsets 510 and 511
    sector[0] = 0x55;
    sector[1] = 0xaa;
    assert_eq!(sector_outcome(0, &sector), expected);
    sector[510] = 0x55;
    sector[511] = 0xab;
    assert_eq!(sector_outcome(0, &sector), expected);
    sector[510] = 0x54;
    sector[511] = 0xaa;
    assert_eq!(sector_outcome(0, &sector), expected);
}

#[test]
fn sector_outcome_reports_read_failure() {
    let mut sector = vec![0u8; SECTOR_SIZE];
    sector[510] = 0x55;
    sector[511] = 0xaa;
    assert_eq!(sector_outcome(1, &sector), b"ATA Read Failed (Error Bit Set)".to_vec());
    assert_eq!(sector_outcome(-1, &sector), b"ATA Read Failed (Error Bit Set)".to_vec());
}

#[test]
fn ls_success_scenario() {
    // input "ls", capacity 2048, directory-list succeeds with 10 bytes
    assert!(matches!(interpret(b"ls"), Action::ListFiles));
    let mut buf = vec![0u8; RESPONSE_CAPACITY];
    buf[..10].copy_from_slice(b"a.txt\nb.c\n");
    let response = list_outcome(10, &buf);
    let mut out = vec![0xeeu8; 2048];
    let n = write_output(&response, &mut out);
    assert_eq!(n, 10);
    assert_eq!(&out[..10], b"a.txt\nb.c\n");
    assert_eq!(out[10], 0);
    assert_eq!(out[11], 0xee);
}

#[test]
fn cat_usage_scenario() {
    // input "cat " (trailing space, no name)
    let response = reply_of(interpret(b"cat "));
    assert_eq!(response, b"Usage: cat <filename>".to_vec());
    let mut out = vec![0u8; 2048];
    let n = write_output(&response, &mut out);
    assert_eq!(n, b"Usage: cat <filename>".len());
}

#[test]
fn invalid_encoding_scenario() {
    // invalid text encoding: zero-length result, buffer untouched past the
    // terminator at offset 0
    let response = reply_of(interpret(&[0x80, 0x81]));
    assert_eq!(response.len(), 0);
    let mut out = vec![0x77u8; 64];
    let n = write_output(&response, &mut out);
    assert_eq!(n, 0);
    assert_eq!(out[0], 0);
    assert!(out[1..].iter().all(|&b| b == 0x77));
}
