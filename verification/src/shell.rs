//! The command dispatcher: classifies a trimmed command line into one of
//! the fixed shell commands, decides which external service call (if any)
//! the command needs, and turns each service outcome into response text.
//!
//! The disk and filesystem services live outside this core.  [`interpret`]
//! therefore returns an [`Action`]: either the finished response text, or
//! a description of the single service call to perform.  The surrounding
//! shell loop makes that call and hands its raw result to
//! [`list_outcome`], [`file_outcome`] or [`sector_outcome`], which produce
//! the response text for every possible outcome.

use vstd::prelude::*;
use vstd::slice::{slice_subrange, slice_to_vec};
use vstd::utf8::{encode_utf8, is_ascii_chars, is_ascii_chars_encode_utf8, valid_utf8};

use crate::text::{
    bytes_eq, check_utf8, is_space, lemma_token_run, lemma_tokens_head, lemma_tokens_nonempty,
    lemma_tokens_skip_space, lemma_trimmed_ends, lemma_trimmed_idempotent, token_run, tokenize,
    tokens, trim, trimmed,
};

verus! {

/// Capacity in bytes of the scratch buffer a shell loop should hand to the
/// directory-list and file-read services for one invocation.
pub const RESPONSE_CAPACITY: usize = 2048;

/// Longest accepted filename, in bytes.  The file-read service takes a
/// NUL-terminated name of at most this many data bytes; longer names are
/// rejected before the service is called.
pub const FILENAME_MAX: usize = 62;

/// Number of bytes in a disk sector.
pub const SECTOR_SIZE: usize = 512;

// The nine recognized command names, as the bytes of their UTF-8 (here:
// ASCII) encodings.
pub open spec fn name_help() -> Seq<u8> {
    encode_utf8("help"@)
}

pub open spec fn name_clear() -> Seq<u8> {
    encode_utf8("clear"@)
}

pub open spec fn name_ls() -> Seq<u8> {
    encode_utf8("ls"@)
}

pub open spec fn name_cat() -> Seq<u8> {
    encode_utf8("cat"@)
}

pub open spec fn name_whoami() -> Seq<u8> {
    encode_utf8("whoami"@)
}

pub open spec fn name_date() -> Seq<u8> {
    encode_utf8("date"@)
}

pub open spec fn name_echo() -> Seq<u8> {
    encode_utf8("echo"@)
}

pub open spec fn name_os() -> Seq<u8> {
    encode_utf8("os"@)
}

pub open spec fn name_read() -> Seq<u8> {
    encode_utf8("read"@)
}

// The fixed response texts.
pub open spec fn msg_help() -> Seq<u8> {
    encode_utf8(
        "Available commands:\n  ls    - List files\n  cat   - Show file content\n  whoami- Current user\n  date  - System date\n  clear - Clear screen\n  echo  - Echo text\n  os    - OS Info\n  read  - Read Sector 0"@,
    )
}

pub open spec fn msg_cat_usage() -> Seq<u8> {
    encode_utf8("Usage: cat <filename>"@)
}

pub open spec fn msg_name_too_long() -> Seq<u8> {
    encode_utf8("Filename too long."@)
}

pub open spec fn msg_list_failed() -> Seq<u8> {
    encode_utf8("Failed to list files."@)
}

pub open spec fn msg_file_failed() -> Seq<u8> {
    encode_utf8("File not found or read error."@)
}

pub open spec fn msg_whoami() -> Seq<u8> {
    encode_utf8("root"@)
}

pub open spec fn msg_date() -> Seq<u8> {
    encode_utf8("Sat Dec 14 01:15:00 UTC 2025"@)
}

pub open spec fn msg_os() -> Seq<u8> {
    encode_utf8("Mithl OS v0.4 (Rust Shell Enabled)"@)
}

pub open spec fn msg_boot_sig() -> Seq<u8> {
    encode_utf8("Read Sector 0 Success! Found Boot Signature (0x55AA)."@)
}

pub open spec fn msg_no_boot_sig() -> Seq<u8> {
    encode_utf8("Read Sector 0 Success! (No Boot Sig)"@)
}

pub open spec fn msg_ata_failed() -> Seq<u8> {
    encode_utf8("ATA Read Failed (Error Bit Set)"@)
}

pub open spec fn msg_unknown() -> Seq<u8> {
    encode_utf8("Unknown command. Type 'help' for list."@)
}

/// Copy of a fixed text as its bytes.
fn fixed_text(s: &str) -> (v: Vec<u8>)
    ensures
        v@ == encode_utf8(s@),
{
    slice_to_vec(s.as_bytes())
}

/// One parsed command, classified from the first word of the command line
/// by exact, case-sensitive match.
pub enum Command {
    Help,
    Clear,
    List,
    /// `cat` with its filename argument, or `None` when no argument was
    /// given.
    Cat(Option<Vec<u8>>),
    Whoami,
    Date,
    /// `echo` with the bytes of the trimmed input line after the
    /// five-byte prefix `echo `; empty when no argument was given.
    Echo(Vec<u8>),
    OsInfo,
    ReadSector0,
    Unknown,
}

/// Mathematical model of a [`Command`].
pub enum CommandModel {
    Help,
    Clear,
    List,
    Cat(Option<Seq<u8>>),
    Whoami,
    Date,
    Echo(Seq<u8>),
    OsInfo,
    ReadSector0,
    Unknown,
}

impl View for Command {
    type V = CommandModel;

    open spec fn view(&self) -> CommandModel {
        match self {
            Command::Help => CommandModel::Help,
            Command::Clear => CommandModel::Clear,
            Command::List => CommandModel::List,
            Command::Cat(None) => CommandModel::Cat(None),
            Command::Cat(Some(name)) => CommandModel::Cat(Some(name@)),
            Command::Whoami => CommandModel::Whoami,
            Command::Date => CommandModel::Date,
            Command::Echo(text) => CommandModel::Echo(text@),
            Command::OsInfo => CommandModel::OsInfo,
            Command::ReadSector0 => CommandModel::ReadSector0,
            Command::Unknown => CommandModel::Unknown,
        }
    }
}

/// What one invocation asks of the surrounding shell loop.
pub enum Action {
    /// The response text is complete; no external call is needed.
    Reply(Vec<u8>),
    /// Call the directory-list service with a scratch buffer of
    /// [`RESPONSE_CAPACITY`] bytes, then apply [`list_outcome`].
    ListFiles,
    /// Call the file-read service with this NUL-terminated filename and a
    /// scratch buffer of [`RESPONSE_CAPACITY`] bytes, then apply
    /// [`file_outcome`].
    ReadFile(Vec<u8>),
    /// Read disk sector 0 into a [`SECTOR_SIZE`]-byte buffer, then apply
    /// [`sector_outcome`].
    ReadSector,
}

/// Mathematical model of an [`Action`].
pub enum ActionModel {
    Reply(Seq<u8>),
    ListFiles,
    ReadFile(Seq<u8>),
    ReadSector,
}

impl View for Action {
    type V = ActionModel;

    open spec fn view(&self) -> ActionModel {
        match self {
            Action::Reply(text) => ActionModel::Reply(text@),
            Action::ListFiles => ActionModel::ListFiles,
            Action::ReadFile(name) => ActionModel::ReadFile(name@),
            Action::ReadSector => ActionModel::ReadSector,
        }
    }
}

/// The command a trimmed, non-empty command line names: its first word,
/// matched exactly against the nine command names.  `cat` takes the second
/// word as its filename; `echo` takes the bytes of the line after the
/// five-byte prefix `echo ` verbatim, extra separating whitespace
/// included.
pub open spec fn classify_model(line: Seq<u8>) -> CommandModel
    recommends
        tokens(line).len() > 0,
{
    let toks = tokens(line);
    let name = toks[0];
    if name == name_help() {
        CommandModel::Help
    } else if name == name_clear() {
        CommandModel::Clear
    } else if name == name_ls() {
        CommandModel::List
    } else if name == name_cat() {
        if toks.len() < 2 {
            CommandModel::Cat(None)
        } else {
            CommandModel::Cat(Some(toks[1]))
        }
    } else if name == name_whoami() {
        CommandModel::Whoami
    } else if name == name_date() {
        CommandModel::Date
    } else if name == name_echo() {
        if toks.len() > 1 {
            CommandModel::Echo(line.skip(5))
        } else {
            CommandModel::Echo(Seq::empty())
        }
    } else if name == name_os() {
        CommandModel::OsInfo
    } else if name == name_read() {
        CommandModel::ReadSector0
    } else {
        CommandModel::Unknown
    }
}

/// A response text clipped to the scratch buffer: each command assembles
/// its response in a buffer of [`RESPONSE_CAPACITY`] bytes, so no response
/// leaves the dispatcher longer than that.  Only `echo`, whose text comes
/// from the input line, can reach the bound.
pub open spec fn clipped(s: Seq<u8>) -> Seq<u8> {
    if s.len() <= RESPONSE_CAPACITY {
        s
    } else {
        s.take(RESPONSE_CAPACITY as int)
    }
}

/// What each command does: its finished response text, or the one
/// external call it needs.  A `cat` filename longer than [`FILENAME_MAX`]
/// bytes is rejected here, before any service call; an accepted filename
/// is passed on with a NUL terminator appended.
pub open spec fn action_model(c: CommandModel) -> ActionModel {
    match c {
        CommandModel::Help => ActionModel::Reply(msg_help()),
        CommandModel::Clear => ActionModel::Reply(Seq::empty()),
        CommandModel::List => ActionModel::ListFiles,
        CommandModel::Cat(None) => ActionModel::Reply(msg_cat_usage()),
        CommandModel::Cat(Some(name)) => if name.len() <= FILENAME_MAX {
            ActionModel::ReadFile(name.push(0))
        } else {
            ActionModel::Reply(msg_name_too_long())
        },
        CommandModel::Whoami => ActionModel::Reply(msg_whoami()),
        CommandModel::Date => ActionModel::Reply(msg_date()),
        CommandModel::Echo(text) => ActionModel::Reply(clipped(text)),
        CommandModel::OsInfo => ActionModel::Reply(msg_os()),
        CommandModel::ReadSector0 => ActionModel::ReadSector,
        CommandModel::Unknown => ActionModel::Reply(msg_unknown()),
    }
}

/// The whole decision of one invocation, from raw input bytes to the
/// action the shell loop must take: input that is not valid UTF-8, or is
/// only whitespace, yields an empty response and no external call.
pub open spec fn interpret_model(input: Seq<u8>) -> ActionModel {
    if !valid_utf8(input) {
        ActionModel::Reply(Seq::empty())
    } else if trimmed(input).len() == 0 {
        ActionModel::Reply(Seq::empty())
    } else {
        action_model(classify_model(trimmed(input)))
    }
}

/// The encoding of `echo` is four bytes long.
proof fn lemma_name_echo_len()
    ensures
        name_echo().len() == 4,
{
    reveal_strlit("echo");
    assert(is_ascii_chars("echo"@));
    is_ascii_chars_encode_utf8("echo"@);
}

/// Classify a trimmed, non-empty command line by its first word.
pub fn classify(line: &Vec<u8>) -> (c: Command)
    requires
        line@ == trimmed(line@),
        line@.len() > 0,
    ensures
        c@ == classify_model(line@),
{
    proof {
        lemma_trimmed_ends(line@);
        lemma_tokens_head(line@);
    }
    let toks = tokenize(line.as_slice());
    assert(toks@.len() == tokens(line@).len());
    let name = &toks[0];
    assert(name@ == tokens(line@)[0]);
    if bytes_eq(name.as_slice(), "help".as_bytes()) {
        Command::Help
    } else if bytes_eq(name.as_slice(), "clear".as_bytes()) {
        Command::Clear
    } else if bytes_eq(name.as_slice(), "ls".as_bytes()) {
        Command::List
    } else if bytes_eq(name.as_slice(), "cat".as_bytes()) {
        if toks.len() < 2 {
            Command::Cat(None)
        } else {
            let filename = slice_to_vec(toks[1].as_slice());
            assert(filename@ == tokens(line@)[1]);
            Command::Cat(Some(filename))
        }
    } else if bytes_eq(name.as_slice(), "whoami".as_bytes()) {
        Command::Whoami
    } else if bytes_eq(name.as_slice(), "date".as_bytes()) {
        Command::Date
    } else if bytes_eq(name.as_slice(), "echo".as_bytes()) {
        if toks.len() > 1 {
            proof {
                lemma_name_echo_len();
                lemma_token_run(line@);
                // The first word is `echo`, so bytes 0..4 are its word run
                // and byte 4 is whitespace; a second word follows it.
                assert(token_run(line@) == 4);
                lemma_tokens_nonempty(line@.skip(4));
                assert(is_space(line@[4]));
                lemma_tokens_skip_space(line@.skip(4));
            }
            let text = slice_to_vec(slice_subrange(line.as_slice(), 5, line.len()));
            assert(text@ =~= line@.skip(5));
            Command::Echo(text)
        } else {
            Command::Echo(Vec::new())
        }
    } else if bytes_eq(name.as_slice(), "os".as_bytes()) {
        Command::OsInfo
    } else if bytes_eq(name.as_slice(), "read".as_bytes()) {
        Command::ReadSector0
    } else {
        Command::Unknown
    }
}

/// The action a classified command asks for.
pub fn command_action(c: Command) -> (a: Action)
    ensures
        a@ == action_model(c@),
{
    match c {
        Command::Help => Action::Reply(
            fixed_text(
                "Available commands:\n  ls    - List files\n  cat   - Show file content\n  whoami- Current user\n  date  - System date\n  clear - Clear screen\n  echo  - Echo text\n  os    - OS Info\n  read  - Read Sector 0",
            ),
        ),
        Command::Clear => Action::Reply(Vec::new()),
        Command::List => Action::ListFiles,
        Command::Cat(None) => Action::Reply(fixed_text("Usage: cat <filename>")),
        Command::Cat(Some(name)) => {
            if name.len() <= FILENAME_MAX {
                let mut name_z = name;
                name_z.push(0);
                Action::ReadFile(name_z)
            } else {
                Action::Reply(fixed_text("Filename too long."))
            }
        },
        Command::Whoami => Action::Reply(fixed_text("root")),
        Command::Date => Action::Reply(fixed_text("Sat Dec 14 01:15:00 UTC 2025")),
        Command::Echo(text) => {
            let ghost whole = text@;
            let mut text = text;
            if text.len() > RESPONSE_CAPACITY {
                text.truncate(RESPONSE_CAPACITY);
                assert(text@ =~= clipped(whole));
            }
            Action::Reply(text)
        },
        Command::OsInfo => Action::Reply(fixed_text("Mithl OS v0.4 (Rust Shell Enabled)")),
        Command::ReadSector0 => Action::ReadSector,
        Command::Unknown => Action::Reply(fixed_text("Unknown command. Type 'help' for list.")),
    }
}

/// One invocation's decision: validate and trim the raw input, classify
/// the command line, and return the action the shell loop must take.
pub fn interpret(input: &[u8]) -> (a: Action)
    ensures
        a@ == interpret_model(input@),
{
    if !check_utf8(input) {
        return Action::Reply(Vec::new());
    }
    let line = trim(input);
    if line.len() == 0 {
        return Action::Reply(Vec::new());
    }
    proof {
        lemma_trimmed_idempotent(input@);
    }
    let c = classify(&line);
    command_action(c)
}

/// Response text of `ls`, given the directory-list service's raw result:
/// the count of bytes the service wrote into the scratch buffer, or its
/// negative failure sentinel.
pub open spec fn list_outcome_model(ret: int, buf: Seq<u8>) -> Seq<u8>
    recommends
        ret >= 0 ==> ret <= buf.len(),
{
    if ret >= 0 {
        buf.take(ret)
    } else {
        msg_list_failed()
    }
}

/// Response text of `ls` for every possible service result: the bytes the
/// service wrote, verbatim, on success; the fixed failure text otherwise.
pub fn list_outcome(ret: i32, buf: &Vec<u8>) -> (r: Vec<u8>)
    requires
        ret >= 0 ==> ret as int <= buf@.len(),
    ensures
        r@ == list_outcome_model(ret as int, buf@),
{
    if ret >= 0 {
        let n = ret as usize;
        let r = slice_to_vec(slice_subrange(buf.as_slice(), 0, n));
        assert(r@ =~= buf@.take(ret as int));
        r
    } else {
        fixed_text("Failed to list files.")
    }
}

/// Response text of `cat`, given the file-read service's raw result.
pub open spec fn file_outcome_model(ret: int, buf: Seq<u8>) -> Seq<u8>
    recommends
        ret >= 0 ==> ret <= buf.len(),
{
    if ret >= 0 {
        buf.take(ret)
    } else {
        msg_file_failed()
    }
}

/// Response text of `cat` for every possible service result: the bytes
/// the service wrote, verbatim, on success; the fixed failure text
/// otherwise.
pub fn file_outcome(ret: i32, buf: &Vec<u8>) -> (r: Vec<u8>)
    requires
        ret >= 0 ==> ret as int <= buf@.len(),
    ensures
        r@ == file_outcome_model(ret as int, buf@),
{
    if ret >= 0 {
        let n = ret as usize;
        let r = slice_to_vec(slice_subrange(buf.as_slice(), 0, n));
        assert(r@ =~= buf@.take(ret as int));
        r
    } else {
        fixed_text("File not found or read error.")
    }
}

/// Response text of `read`, given the disk service's raw result for
/// sector 0: zero for success, any other value for failure.  A successful
/// read is classified by exactly the bytes at offsets 510 and 511, which
/// hold the boot signature `0x55`, `0xAA` when one is present.
pub open spec fn sector_outcome_model(ret: int, sector: Seq<u8>) -> Seq<u8>
    recommends
        sector.len() == SECTOR_SIZE,
{
    if ret == 0 {
        if sector[510] == 0x55 && sector[511] == 0xaa {
            msg_boot_sig()
        } else {
            msg_no_boot_sig()
        }
    } else {
        msg_ata_failed()
    }
}

/// Response text of `read` for every possible service result.
pub fn sector_outcome(ret: i32, sector: &Vec<u8>) -> (r: Vec<u8>)
    requires
        sector@.len() == SECTOR_SIZE,
    ensures
        r@ == sector_outcome_model(ret as int, sector@),
{
    if ret == 0 {
        if sector[510] == 0x55 && sector[511] == 0xaa {
            fixed_text("Read Sector 0 Success! Found Boot Signature (0x55AA).")
        } else {
            fixed_text("Read Sector 0 Success! (No Boot Sig)")
        }
    } else {
        fixed_text("ATA Read Failed (Error Bit Set)")
    }
}

} // verus!
