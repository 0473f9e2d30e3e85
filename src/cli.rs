//! The command line: what its arguments ask for, and the texts it prints.
use vstd::prelude::*;
use vstd::string::StringExecFns;
use vstd::utf8::encode_utf8_decode_utf8;
use vstd::string::StringSliceAdditionalSpecFns;
use crate::text::matches_at;

verus! {

/// The usage text shown for `--help` and with an argument count error.
pub const HELP_MESSAGE: &'static str = r#"fr - A simple find-replace tool for the command line

Usage: 
- fr <find_text> <replace_text>
- fr --version
- fr --help

Description:
    fr recursively finds and replaces text in files, starting from the current
    directory. fr uses .gitignore patterns if in a git repository.

Example:
    fr "old_text" "new_text"    # Replace all occurrences of "old_text" with "new_text"

Note:
    - Text matching is literal (no regular expressions)
    - Files matching .gitignore patterns are skipped
    - Only text files are processed
"#;

/// What the command line asks for.
#[derive(Debug)]
pub enum CommandArgs<'a> {
    /// Show help message and exit
    Help,
    /// Show version and exit
    Version,
    /// Perform find and replace with the given text
    FindReplace { find_text: &'a str, replace_text: &'a str },
}

/// The character of a decimal digit `d < 10`.
pub open spec fn digit_char(d: nat) -> char {
    if d == 0 {
        '0'
    } else if d == 1 {
        '1'
    } else if d == 2 {
        '2'
    } else if d == 3 {
        '3'
    } else if d == 4 {
        '4'
    } else if d == 5 {
        '5'
    } else if d == 6 {
        '6'
    } else if d == 7 {
        '7'
    } else if d == 8 {
        '8'
    } else {
        '9'
    }
}

/// `n` written in decimal, without sign or leading zeros.
pub open spec fn decimal(n: nat) -> Seq<char>
    decreases n,
{
    if n < 10 {
        seq![digit_char(n)]
    } else {
        decimal(n / 10).push(digit_char(n % 10))
    }
}

/// The command line (program name first) is exactly `flag` after the program name.
pub open spec fn is_single_flag(args: Seq<String>, flag: Seq<char>) -> bool {
    args.len() == 2 && args[1]@ == flag
}

/// The command line names a text to find, which is not empty, and its replacement.
pub open spec fn is_find_replace(args: Seq<String>) -> bool {
    args.len() == 3 && args[1]@.len() > 0
}

/// The error for a command line of `n` words (program name included) that is
/// neither a single flag nor a text to find and its replacement.
pub open spec fn usage_error(n: nat) -> Seq<char> {
    HELP_MESSAGE@ + "\nExpected 2 arguments, got "@ + decimal(
        if n == 0 {
            0
        } else {
            (n - 1) as nat
        },
    )
}

/// The one-character text of the decimal digit `d`.
fn digit_text(d: usize) -> (r: &'static str)
    requires
        d < 10,
    ensures
        r@ == seq![digit_char(d as nat)],
{
    proof {
        reveal_strlit("0");
        reveal_strlit("1");
        reveal_strlit("2");
        reveal_strlit("3");
        reveal_strlit("4");
        reveal_strlit("5");
        reveal_strlit("6");
        reveal_strlit("7");
        reveal_strlit("8");
        reveal_strlit("9");
    }
    if d == 0 {
        "0"
    } else if d == 1 {
        "1"
    } else if d == 2 {
        "2"
    } else if d == 3 {
        "3"
    } else if d == 4 {
        "4"
    } else if d == 5 {
        "5"
    } else if d == 6 {
        "6"
    } else if d == 7 {
        "7"
    } else if d == 8 {
        "8"
    } else {
        "9"
    }
}

/// Appends `n` in decimal to `s`.
fn append_decimal(s: &mut String, n: usize)
    ensures
        final(s)@ == old(s)@ + decimal(n as nat),
    decreases n,
{
    if n >= 10 {
        append_decimal(s, n / 10);
    }
    s.append(digit_text(n % 10));
    proof {
        if n >= 10 {
            assert(old(s)@ + decimal(n as nat) =~= old(s)@ + decimal((n / 10) as nat) + seq![
                digit_char((n % 10) as nat),
            ]);
        } else {
            assert(old(s)@ + decimal(n as nat) =~= old(s)@ + seq![digit_char(n as nat)]);
        }
    }
}

/// Whether two texts hold the same characters.
pub fn same_text(a: &str, b: &str) -> (r: bool)
    ensures
        r == (a@ == b@),
{
    let x = a.as_bytes();
    let y = b.as_bytes();
    let r = x.len() == y.len() && matches_at(x, y, 0);
    proof {
        encode_utf8_decode_utf8(a@);
        encode_utf8_decode_utf8(b@);
        if a@ == b@ {
            assert(x@.subrange(0, y@.len() as int) =~= y@);
        }
        if r {
            assert(x@ =~= x@.subrange(0, y@.len() as int));
        }
    }
    r
}

/// Reads the command line, program name first.
pub fn parse_arguments<'a>(args: &'a [String]) -> (r: Result<CommandArgs<'a>, String>)
    ensures
        r matches Ok(CommandArgs::Help) <==> is_single_flag(args@, "--help"@),
        r matches Ok(CommandArgs::Version) <==> is_single_flag(args@, "--version"@),
        r matches Ok(CommandArgs::FindReplace { .. }) <==> is_find_replace(args@),
        r matches Ok(CommandArgs::FindReplace { find_text, replace_text }) ==> find_text@
            == args@[1]@ && replace_text@ == args@[2]@,
        r matches Err(e) ==> e@ == if args@.len() != 3 {
            usage_error(args@.len() as nat)
        } else {
            "Find text cannot be empty"@
        },
{
    proof {
        reveal_strlit("--help");
        reveal_strlit("--version");
    }
    if args.len() == 2 && same_text(args[1].as_str(), "--help") {
        return Ok(CommandArgs::Help);
    }
    if args.len() == 2 && same_text(args[1].as_str(), "--version") {
        return Ok(CommandArgs::Version);
    }
    if args.len() != 3 {
        let mut e = String::from_str(HELP_MESSAGE);
        e.append("\nExpected 2 arguments, got ");
        append_decimal(&mut e, args.len().saturating_sub(1));
        return Err(e);
    }
    if args[1].as_str().is_empty() {
        return Err(String::from_str("Find text cannot be empty"));
    }
    Ok(CommandArgs::FindReplace { find_text: args[1].as_str(), replace_text: args[2].as_str() })
}

/// The line printed for `--version`: the program's name and `version`.
pub fn version_line(version: &str) -> (r: String)
    ensures
        r@ == "fr "@ + version@,
{
    let mut r = String::from_str("fr ");
    r.append(version);
    r
}

} // verus!
