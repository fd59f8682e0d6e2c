//! Checksum lines, as the classic checksum tools write and read them:
//! `<hash>  <name>` in text mode and `<hash> *<name>` in binary mode.

use vstd::prelude::*;
use vstd::string::*;
use vstd::std_specs::iter::IteratorSpec;
use crate::hexfmt::{digest_text, hex_digest, lemma_hex_string_ascii};
use crate::sponge::{hash256, hash512, lemma_hash_mode_consistency};

verus! {

/// Whether a character has the Unicode property White_Space.
pub uninterp spec fn white_space(c: char) -> bool;

/// Calls `char::is_whitespace` of the standard library, which is not
/// verified here. Its answer depends on the character alone, and
/// `white_space` is the name of that answer.
#[verifier::external_body]
fn is_white_space(c: char) -> (yes: bool)
    ensures
        yes == white_space(c),
{
    c.is_whitespace()
}

/// The first index at or after `from` whose character is not white space,
/// or the length of `s` where every character from `from` on is white space.
pub open spec fn skip_white(s: Seq<char>, from: int) -> int
    decreases s.len() - from,
{
    if 0 <= from < s.len() && white_space(s[from]) {
        skip_white(s, from + 1)
    } else {
        from
    }
}

/// The end of `s` once white space before index `to` is cut off: the least
/// index such that everything from it up to `to` is white space.
pub open spec fn back_white(s: Seq<char>, to: int) -> int
    decreases to,
{
    if 0 < to <= s.len() && white_space(s[to - 1]) {
        back_white(s, to - 1)
    } else {
        to
    }
}

/// `s` without its leading white space.
pub open spec fn trim_start(s: Seq<char>) -> Seq<char> {
    s.skip(skip_white(s, 0))
}

/// `s` without its leading and trailing white space.
pub open spec fn trimmed(s: Seq<char>) -> Seq<char> {
    let start = skip_white(s, 0);
    let end = back_white(s, s.len() as int);
    if start < end {
        s.subrange(start, end)
    } else {
        Seq::empty()
    }
}

/// The first index at or after `from` that holds a space character, or the
/// length of `s` where there is none.
pub open spec fn find_space(s: Seq<char>, from: int) -> int
    decreases s.len() - from,
{
    if 0 <= from < s.len() && s[from] != ' ' {
        find_space(s, from + 1)
    } else {
        from
    }
}

/// What one line of a checksum file says.
pub enum LineModel {
    /// Nothing: the line is blank or a comment.
    Ignored,
    /// The line has no space between a hash and a name.
    Malformed,
    /// A hash and the name of the file it belongs to.
    Entry { expected: Seq<char>, filename: Seq<char> },
}

/// The meaning of a line.
///
/// The line is trimmed. An empty line and one that starts with `#` say
/// nothing. Otherwise the hash runs up to the first space, and a line
/// without a space is malformed. After that space a `*` marks binary mode
/// and the name follows it directly; without the `*`, the name follows after
/// any further white space.
pub open spec fn parse_line(line: Seq<char>) -> LineModel {
    let text = trimmed(line);
    if text.len() == 0 || text[0] == '#' {
        LineModel::Ignored
    } else {
        let cut = find_space(text, 0);
        if cut >= text.len() {
            LineModel::Malformed
        } else {
            let target = text.skip(cut + 1);
            LineModel::Entry {
                expected: text.take(cut),
                filename: if target.len() > 0 && target[0] == '*' {
                    target.skip(1)
                } else {
                    trim_start(target)
                },
            }
        }
    }
}

/// One line of a checksum file, read.
#[derive(Debug)]
pub enum CheckLine {
    /// A blank line or a comment.
    Ignored,
    /// A line without a space between a hash and a name.
    Malformed,
    /// A hash and the name of the file it belongs to.
    Entry { expected: String, filename: String },
}

impl View for CheckLine {
    type V = LineModel;

    open spec fn view(&self) -> LineModel {
        match self {
            CheckLine::Ignored => LineModel::Ignored,
            CheckLine::Malformed => LineModel::Malformed,
            CheckLine::Entry { expected, filename } => LineModel::Entry {
                expected: expected@,
                filename: filename@,
            },
        }
    }
}

/// The characters of a string, in order.
fn chars_of(text: &str) -> (chars: Vec<char>)
    ensures
        chars@ == text@,
{
    let mut chars: Vec<char> = Vec::new();
    for c in rest: text.chars()
        invariant
            rest.seq() == text@,
            chars@ == text@.take(rest.index() as int),
    {
        chars.push(c);
        assert(text@.take(rest.index() + 1) =~= text@.take(rest.index() as int).push(c));
    }
    assert(text@.take(text@.len() as int) =~= text@);
    chars
}

/// Finds where the white space that starts at `lo` ends, looking no
/// further than `hi`.
fn skip_white_in(chars: &Vec<char>, lo: usize, hi: usize) -> (at: usize)
    requires
        lo <= hi <= chars@.len(),
    ensures
        lo <= at <= hi,
        at == lo + skip_white(chars@.subrange(lo as int, hi as int), 0),
{
    let ghost part = chars@.subrange(lo as int, hi as int);
    let mut at: usize = lo;
    while at < hi && is_white_space(chars[at])
        invariant
            lo <= at <= hi <= chars@.len(),
            part == chars@.subrange(lo as int, hi as int),
            skip_white(part, 0) == skip_white(part, at - lo),
        decreases hi - at,
    {
        at = at + 1;
    }
    at
}

/// Finds where the white space that ends at `hi` starts, looking no
/// further back than `lo`.
fn back_white_in(chars: &Vec<char>, lo: usize, hi: usize) -> (at: usize)
    requires
        lo <= hi <= chars@.len(),
    ensures
        lo <= at <= hi,
        at == lo + back_white(chars@.subrange(lo as int, hi as int), hi - lo),
{
    let ghost part = chars@.subrange(lo as int, hi as int);
    let mut at: usize = hi;
    while at > lo && is_white_space(chars[at - 1])
        invariant
            lo <= at <= hi <= chars@.len(),
            part == chars@.subrange(lo as int, hi as int),
            back_white(part, hi - lo) == back_white(part, at - lo),
        decreases at - lo,
    {
        at = at - 1;
    }
    at
}

/// Finds the first space from `lo` on, looking no further than `hi`.
fn find_space_in(chars: &Vec<char>, lo: usize, hi: usize) -> (at: usize)
    requires
        lo <= hi <= chars@.len(),
    ensures
        lo <= at <= hi,
        at == lo + find_space(chars@.subrange(lo as int, hi as int), 0),
{
    let ghost part = chars@.subrange(lo as int, hi as int);
    let mut at: usize = lo;
    while at < hi && chars[at] != ' '
        invariant
            lo <= at <= hi <= chars@.len(),
            part == chars@.subrange(lo as int, hi as int),
            find_space(part, 0) == find_space(part, at - lo),
        decreases hi - at,
    {
        at = at + 1;
    }
    at
}

/// Reads one line of a checksum file.
pub fn parse_check_line(line: &str) -> (parsed: CheckLine)
    ensures
        parsed@ == parse_line(line@),
{
    let chars: Vec<char> = chars_of(line);
    let len: usize = chars.len();
    let start: usize = skip_white_in(&chars, 0, len);
    let end: usize = back_white_in(&chars, 0, len);
    assert(chars@.subrange(0, len as int) =~= line@);
    if start >= end {
        return CheckLine::Ignored;
    }
    let ghost text = line@.subrange(start as int, end as int);
    if chars[start] == '#' {
        return CheckLine::Ignored;
    }
    let cut: usize = find_space_in(&chars, start, end);
    if cut >= end {
        return CheckLine::Malformed;
    }
    let ghost target = text.skip(cut - start + 1);
    assert(target =~= line@.subrange(cut + 1, end as int));
    let name_from: usize = if cut + 1 < end && chars[cut + 1] == '*' {
        cut + 2
    } else {
        skip_white_in(&chars, cut + 1, end)
    };
    let expected: String = line.substring_char(start, cut).to_owned();
    let filename: String = line.substring_char(name_from, end).to_owned();
    assert(expected@ =~= text.take(cut - start));
    assert(target.len() > 0 && target[0] == '*' ==> filename@ =~= target.skip(1));
    assert(!(target.len() > 0 && target[0] == '*') ==> filename@ =~= trim_start(target));
    CheckLine::Entry { expected, filename }
}

/// The outcome of holding data against an expected digest.
#[derive(Debug)]
pub struct DigestCheck {
    /// The digest of the data, in hexadecimal, in the mode that the
    /// expected text asked for.
    pub actual: String,
    /// Whether the expected text is that digest.
    pub matches: bool,
}

/// Holds `data` against `expected`, a digest in hexadecimal. A text of 128
/// bytes is held against the 512-bit digest, any other against the 256-bit
/// digest. So the text matches exactly if it is one of the two digests of
/// `data`.
pub fn check_digest(expected: &str, data: &[u8]) -> (check: DigestCheck)
    ensures
        check.actual@ == digest_text(expected.len() == 128, data@),
        check.matches == (expected@ == check.actual@),
        check.matches == (expected@ == digest_text(false, data@) || expected@ == digest_text(
            true,
            data@,
        )),
{
    let actual: String = hex_digest(data, expected.len() == 128);
    let matches: bool = actual == expected.to_owned();
    proof {
        lemma_hash_mode_consistency(data@);
        lemma_hex_string_ascii(hash256(data@));
        lemma_hex_string_ascii(hash512(data@));
    }
    DigestCheck { actual, matches }
}

/// The two characters between hash and name: a space and `*` in binary
/// mode, two spaces in text mode.
pub open spec fn separator(binary: bool) -> Seq<char> {
    if binary {
        seq![' ', '*']
    } else {
        seq![' ', ' ']
    }
}

/// Writes the checksum line for a named file: the hash, the separator of
/// the mode, the name.
pub fn digest_line(hash: &str, name: &str, binary: bool) -> (line: String)
    ensures
        line@ == hash@ + separator(binary) + name@,
{
    proof {
        reveal_strlit(" *");
        reveal_strlit("  ");
    }
    let mut line: String = hash.to_owned();
    if binary {
        line.append(" *");
        assert(" *"@ =~= separator(true));
    } else {
        line.append("  ");
        assert("  "@ =~= separator(false));
    }
    line.append(name);
    line
}

/// The name that stands for standard input on a checksum line: `-` in
/// text mode, `--` in binary mode.
pub open spec fn stdin_name(binary: bool) -> Seq<char> {
    if binary {
        seq!['-', '-']
    } else {
        seq!['-']
    }
}

/// Writes the checksum line for data read from standard input.
pub fn stdin_line(hash: &str, binary: bool) -> (line: String)
    ensures
        line@ == hash@ + separator(binary) + stdin_name(binary),
{
    proof {
        reveal_strlit("--");
        reveal_strlit("-");
    }
    if binary {
        assert("--"@ =~= stdin_name(true));
        digest_line(hash, "--", true)
    } else {
        assert("-"@ =~= stdin_name(false));
        digest_line(hash, "-", false)
    }
}

/// The digest width in bits as the verbose line shows it.
pub open spec fn width_tag(use_512: bool) -> Seq<char> {
    if use_512 {
        seq!['5', '1', '2']
    } else {
        seq!['2', '5', '6']
    }
}

/// Writes the verbose line for a named file: the name of the algorithm, a
/// space, the hash, `*` in binary mode or a space in text mode, two spaces,
/// the digest width, and directly after it the name of the file.
pub fn verbose_line(algorithm: &str, hash: &str, name: &str, use_512: bool, binary: bool) -> (line:
    String)
    ensures
        line@ == algorithm@ + seq![' '] + hash@ + seq![if binary {
            '*'
        } else {
            ' '
        }] + seq![' ', ' '] + width_tag(use_512) + name@,
{
    proof {
        reveal_strlit(" ");
        reveal_strlit("*  ");
        reveal_strlit("   ");
        reveal_strlit("512");
        reveal_strlit("256");
    }
    let mut line: String = algorithm.to_owned();
    line.append(" ");
    assert(" "@ =~= seq![' ']);
    line.append(hash);
    if binary {
        line.append("*  ");
        assert("*  "@ =~= seq!['*'] + seq![' ', ' ']);
    } else {
        line.append("   ");
        assert("   "@ =~= seq![' '] + seq![' ', ' ']);
    }
    let ghost mark = if binary {
        '*'
    } else {
        ' '
    };
    assert(line@ =~= algorithm@ + seq![' '] + hash@ + seq![mark] + seq![' ', ' ']);
    if use_512 {
        line.append("512");
        assert("512"@ =~= width_tag(true));
    } else {
        line.append("256");
        assert("256"@ =~= width_tag(false));
    }
    line.append(name);
    line
}

} // verus!
