//! Decisions of the command-line session: what the arguments ask for, what
//! an entered line asks for, and which language the messages use.
use vstd::prelude::*;
use vstd::string::StrSliceExecFns;
use crate::address::{is_valid_ip_port, valid_address};

verus! {

/// Language of the messages.
#[derive(PartialEq, Eq, Structural, Clone, Copy, Debug)]
pub enum Language {
    Chinese,
    English,
}

/// Whether `a` begins with `b`.
pub open spec fn has_prefix(a: Seq<char>, b: Seq<char>) -> bool {
    b.len() <= a.len() && a.subrange(0, b.len() as int) == b
}

/// Whether two texts hold the same characters.
pub fn same_text(a: &str, b: &str) -> (r: bool)
    ensures
        r == (a@ == b@),
{
    let n = a.unicode_len();
    if n != b.unicode_len() {
        return false;
    }
    let mut i: usize = 0;
    while i < n
        invariant
            i <= n,
            n == a@.len(),
            n == b@.len(),
            a@.subrange(0, i as int) == b@.subrange(0, i as int),
        decreases n - i,
    {
        if a.get_char(i) != b.get_char(i) {
            return false;
        }
        assert(a@.subrange(0, i + 1) =~= a@.subrange(0, i as int).push(a@[i as int]));
        assert(b@.subrange(0, i + 1) =~= b@.subrange(0, i as int).push(b@[i as int]));
        i = i + 1;
    }
    assert(a@ =~= a@.subrange(0, n as int));
    assert(b@ =~= b@.subrange(0, n as int));
    true
}

/// Whether `s` begins with the characters `zh`.
pub fn starts_with_zh(s: &str) -> (r: bool)
    ensures
        r == has_prefix(s@, seq!['z', 'h']),
{
    let n = s.unicode_len();
    let r = n >= 2 && s.get_char(0) == 'z' && s.get_char(1) == 'h';
    assert(r == has_prefix(s@, seq!['z', 'h'])) by {
        if n >= 2 {
            if r {
                assert(s@.subrange(0, 2) =~= seq!['z', 'h']);
            } else if has_prefix(s@, seq!['z', 'h']) {
                assert(s@.subrange(0, 2)[0] == s@[0]);
                assert(s@.subrange(0, 2)[1] == s@[1]);
            }
        }
    }
    r
}

/// Whether a user-interface language identifier denotes Chinese.
pub open spec fn chinese_ui_id(id: u16) -> bool {
    id == 0x0804 || id == 0x1004
}

/// The language of the messages, from the `LANG` and `LC_ALL` variables (empty
/// where unset) and, where the platform has one, the user-interface language
/// identifier: Chinese where a variable begins with `zh`, or where both are
/// empty and the identifier denotes Chinese; else English.
pub fn choose_language(lang: &str, lc_all: &str, ui_language: Option<u16>) -> (r: Language)
    ensures
        (r == Language::Chinese) == (has_prefix(lang@, seq!['z', 'h']) || has_prefix(
            lc_all@,
            seq!['z', 'h'],
        ) || (lang@.len() == 0 && lc_all@.len() == 0 && (ui_language matches Some(id)
            && chinese_ui_id(id)))),
{
    if starts_with_zh(lang) || starts_with_zh(lc_all) {
        Language::Chinese
    } else if lang.unicode_len() > 0 || lc_all.unicode_len() > 0 {
        Language::English
    } else {
        match ui_language {
            Some(id) => if id == 0x0804 || id == 0x1004 {
                Language::Chinese
            } else {
                Language::English
            },
            None => Language::English,
        }
    }
}

} // verus!

verus! {

/// Whether an argument asks for the help text.
pub open spec fn is_help_token(s: Seq<char>) -> bool {
    s == "help"@ || s == "--help"@ || s == "-?"@
}

/// Whether an argument asks for the version notice.
pub open spec fn is_version_token(s: Seq<char>) -> bool {
    s == "version"@ || s == "--version"@ || s == "-v"@
}

/// What an invocation asks for.
#[derive(PartialEq, Eq, Structural, Clone, Copy, Debug)]
pub enum Invocation {
    /// No argument: prompt for addresses until the exit keyword.
    Interactive,
    /// Show the help text.
    Help,
    /// Show the version notice.
    Version,
    /// Probe the address given as the argument.
    Probe,
    /// The one argument is no valid address.
    BadAddress,
    /// More than one argument.
    TooManyArguments,
}

/// What a single argument asks for.
pub open spec fn single_argument(s: Seq<char>) -> Invocation {
    if is_help_token(s) {
        Invocation::Help
    } else if is_version_token(s) {
        Invocation::Version
    } else if valid_address(s) {
        Invocation::Probe
    } else {
        Invocation::BadAddress
    }
}

/// What the arguments after the program's name ask for.
pub fn classify_args(args: &Vec<String>) -> (r: Invocation)
    ensures
        args@.len() == 0 ==> r == Invocation::Interactive,
        args@.len() >= 2 ==> r == Invocation::TooManyArguments,
        args@.len() == 1 ==> r == single_argument(args@[0]@),
{
    if args.len() == 0 {
        return Invocation::Interactive;
    }
    if args.len() >= 2 {
        return Invocation::TooManyArguments;
    }
    let a = args[0].as_str();
    if same_text(a, "help") || same_text(a, "--help") || same_text(a, "-?") {
        Invocation::Help
    } else if same_text(a, "version") || same_text(a, "--version") || same_text(a, "-v") {
        Invocation::Version
    } else if is_valid_ip_port(a) {
        Invocation::Probe
    } else {
        Invocation::BadAddress
    }
}

/// What an entered line asks for.
#[derive(PartialEq, Eq, Structural, Clone, Copy, Debug)]
pub enum LineAction {
    /// The exit keyword: end the session.
    Exit,
    /// A valid address: probe it.
    Probe,
    /// Anything else: report the error and prompt again.
    Invalid,
}

/// What a trimmed line asks for.
pub open spec fn line_action(line: Seq<char>) -> LineAction {
    if line == "exit"@ {
        LineAction::Exit
    } else if valid_address(line) {
        LineAction::Probe
    } else {
        LineAction::Invalid
    }
}

/// What a line, already trimmed, asks for.
pub fn decide_line(line: &str) -> (r: LineAction)
    ensures
        r == line_action(line@),
{
    if same_text(line, "exit") {
        LineAction::Exit
    } else if is_valid_ip_port(line) {
        LineAction::Probe
    } else {
        LineAction::Invalid
    }
}

/// `s` without leading and trailing white space.
pub uninterp spec fn trim_of(s: Seq<char>) -> Seq<char>;

/// Relies on `str::trim`: the text without leading and trailing white space,
/// which depends on the characters alone.
#[verifier::external_body]
fn trimmed(s: &str) -> (r: &str)
    ensures
        r@ == trim_of(s@),
{
    s.trim()
}

/// An entered line, trimmed, and what it asks for.
pub fn read_entry(raw: &str) -> (r: (LineAction, &str))
    ensures
        r.1@ == trim_of(raw@),
        r.0 == line_action(r.1@),
{
    let line = trimmed(raw);
    (decide_line(line), line)
}

} // verus!
