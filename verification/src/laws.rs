//! Laws of the dispatcher, proved over the models: which response each
//! command class yields for every allowed input, and when no external
//! call is asked for.

use vstd::prelude::*;
use vstd::utf8::{is_ascii_chars, is_ascii_chars_encode_utf8, valid_utf8};

use crate::shell::{
    interpret_model, msg_cat_usage, msg_date, msg_help, msg_name_too_long, msg_os, msg_unknown,
    msg_whoami, name_cat, name_clear, name_date, name_echo, name_help, name_ls, name_os,
    name_read, name_whoami, ActionModel, FILENAME_MAX,
};
use crate::text::{lemma_tokens_nonempty, tokens, trimmed};

verus! {

/// Lengths of the nine command names, and the byte-level facts that tell
/// the equal-length ones apart.
proof fn lemma_names()
    ensures
        name_help().len() == 4,
        name_clear().len() == 5,
        name_ls().len() == 2,
        name_cat().len() == 3,
        name_whoami().len() == 6,
        name_date().len() == 4,
        name_echo().len() == 4,
        name_read().len() == 4,
        name_os().len() == 2,
        name_help() != name_date(),
        name_help() != name_echo(),
        name_help() != name_read(),
        name_date() != name_echo(),
        name_date() != name_read(),
        name_echo() != name_read(),
        name_ls() != name_os(),
{
    reveal_strlit("help");
    reveal_strlit("clear");
    reveal_strlit("ls");
    reveal_strlit("cat");
    reveal_strlit("whoami");
    reveal_strlit("date");
    reveal_strlit("echo");
    reveal_strlit("os");
    reveal_strlit("read");
    assert(is_ascii_chars("help"@));
    assert(is_ascii_chars("clear"@));
    assert(is_ascii_chars("ls"@));
    assert(is_ascii_chars("cat"@));
    assert(is_ascii_chars("whoami"@));
    assert(is_ascii_chars("date"@));
    assert(is_ascii_chars("echo"@));
    assert(is_ascii_chars("os"@));
    assert(is_ascii_chars("read"@));
    is_ascii_chars_encode_utf8("help"@);
    is_ascii_chars_encode_utf8("clear"@);
    is_ascii_chars_encode_utf8("ls"@);
    is_ascii_chars_encode_utf8("cat"@);
    is_ascii_chars_encode_utf8("whoami"@);
    is_ascii_chars_encode_utf8("date"@);
    is_ascii_chars_encode_utf8("echo"@);
    is_ascii_chars_encode_utf8("os"@);
    is_ascii_chars_encode_utf8("read"@);
    assert(name_help()[0] == 'h' as u8);
    assert(name_date()[0] == 'd' as u8);
    assert(name_echo()[0] == 'e' as u8);
    assert(name_read()[0] == 'r' as u8);
    assert(name_ls()[0] == 'l' as u8);
    assert(name_os()[0] == 'o' as u8);
}

/// `help`, `whoami`, `date` and `os` produce exactly their fixed response
/// texts, whatever arguments follow the command name, and ask for no
/// external call.
pub proof fn lemma_fixed_commands_ignore_arguments(input: Seq<u8>)
    requires
        valid_utf8(input),
        tokens(trimmed(input)).len() > 0,
    ensures
        tokens(trimmed(input))[0] == name_help() ==> interpret_model(input)
            == ActionModel::Reply(msg_help()),
        tokens(trimmed(input))[0] == name_whoami() ==> interpret_model(input)
            == ActionModel::Reply(msg_whoami()),
        tokens(trimmed(input))[0] == name_date() ==> interpret_model(input)
            == ActionModel::Reply(msg_date()),
        tokens(trimmed(input))[0] == name_os() ==> interpret_model(input) == ActionModel::Reply(
            msg_os(),
        ),
{
    lemma_names();
    lemma_tokens_nonempty(trimmed(input));
}

/// `cat` with no argument yields exactly the usage text, and asks for no
/// external call.
pub proof fn lemma_cat_usage(input: Seq<u8>)
    requires
        valid_utf8(input),
        tokens(trimmed(input)).len() == 1,
        tokens(trimmed(input))[0] == name_cat(),
    ensures
        interpret_model(input) == ActionModel::Reply(msg_cat_usage()),
{
    lemma_names();
    lemma_tokens_nonempty(trimmed(input));
}

/// A `cat` filename longer than [`FILENAME_MAX`] bytes yields exactly the
/// fixed rejection text, and asks for no external call.
pub proof fn lemma_cat_name_too_long(input: Seq<u8>)
    requires
        valid_utf8(input),
        tokens(trimmed(input)).len() >= 2,
        tokens(trimmed(input))[0] == name_cat(),
        tokens(trimmed(input))[1].len() > FILENAME_MAX,
    ensures
        interpret_model(input) == ActionModel::Reply(msg_name_too_long()),
{
    lemma_names();
    lemma_tokens_nonempty(trimmed(input));
}

/// `cat` with an accepted filename asks for exactly one file read, of
/// that filename with a NUL terminator appended.
pub proof fn lemma_cat_reads_file(input: Seq<u8>)
    requires
        valid_utf8(input),
        tokens(trimmed(input)).len() >= 2,
        tokens(trimmed(input))[0] == name_cat(),
        tokens(trimmed(input))[1].len() <= FILENAME_MAX,
    ensures
        interpret_model(input) == ActionModel::ReadFile(tokens(trimmed(input))[1].push(0)),
{
    lemma_names();
    lemma_tokens_nonempty(trimmed(input));
}

/// An input whose first word matches none of the nine command names
/// yields exactly the unknown-command text, and asks for no external
/// call.
pub proof fn lemma_unknown_command(input: Seq<u8>)
    requires
        valid_utf8(input),
        tokens(trimmed(input)).len() > 0,
        tokens(trimmed(input))[0] != name_help(),
        tokens(trimmed(input))[0] != name_clear(),
        tokens(trimmed(input))[0] != name_ls(),
        tokens(trimmed(input))[0] != name_cat(),
        tokens(trimmed(input))[0] != name_whoami(),
        tokens(trimmed(input))[0] != name_date(),
        tokens(trimmed(input))[0] != name_echo(),
        tokens(trimmed(input))[0] != name_os(),
        tokens(trimmed(input))[0] != name_read(),
    ensures
        interpret_model(input) == ActionModel::Reply(msg_unknown()),
{
    lemma_tokens_nonempty(trimmed(input));
}

} // verus!

