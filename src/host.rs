//! The environment metadata of a combined report. Every probe of the host is
//! best effort: a probe that fails leaves its value absent, never the report.

use vstd::prelude::*;
use vstd::string::{StrSliceExecFns, StringExecFns};
use crate::text::{parse_decimal, parsed_u64};

verus! {

/// The compiler version as the toolchain reported it, or `unknown` when it
/// could not be asked.
pub fn get_rust_version(probe: Option<String>) -> (r: String)
    ensures
        match probe {
            Some(v) => r == v,
            None => r@ == "unknown"@,
        },
{
    match probe {
        Some(v) => v,
        None => String::from_str("unknown"),
    }
}

/// The database server version, present only when a running server answered.
pub fn get_postgres_version(probe: Option<String>) -> (r: Option<String>)
    ensures
        r == probe,
{
    probe
}

/// Whether `c` has the Unicode `White_Space` property.
pub open spec fn is_white_space(c: char) -> bool {
    c == ' ' || ('\t' <= c && c <= '\r') || c == '\u{85}' || c == '\u{a0}' || c == '\u{1680}' || (
    '\u{2000}' <= c && c <= '\u{200a}') || c == '\u{2028}' || c == '\u{2029}' || c == '\u{202f}'
        || c == '\u{205f}' || c == '\u{3000}'
}

/// The text without its leading white space.
pub open spec fn trim_start(s: Seq<char>) -> Seq<char>
    decreases s.len(),
{
    if s.len() > 0 && is_white_space(s[0]) {
        trim_start(s.drop_first())
    } else {
        s
    }
}

/// The text without its trailing white space.
pub open spec fn trim_end(s: Seq<char>) -> Seq<char>
    decreases s.len(),
{
    if s.len() > 0 && is_white_space(s.last()) {
        trim_end(s.drop_last())
    } else {
        s
    }
}

/// The text without white space at either end.
pub open spec fn trimmed(s: Seq<char>) -> Seq<char> {
    trim_end(trim_start(s))
}

/// What follows the leading run of characters that are not white space.
pub open spec fn skip_word(s: Seq<char>) -> Seq<char>
    decreases s.len(),
{
    if s.len() > 0 && !is_white_space(s[0]) {
        skip_word(s.drop_first())
    } else {
        s
    }
}

/// The leading run of characters that are not white space.
pub open spec fn first_word(s: Seq<char>) -> Seq<char> {
    s.subrange(0, s.len() - skip_word(s).len())
}

/// The second of the words that white space separates, if there are two.
pub open spec fn second_word(s: Seq<char>) -> Option<Seq<char>> {
    let rest = trim_start(skip_word(trim_start(s)));
    if rest.len() == 0 {
        None
    } else {
        Some(first_word(rest))
    }
}

/// The position of the first `c` in `s`, or the length of `s` when there is none.
pub open spec fn find_char(s: Seq<char>, c: char) -> int
    decreases s.len(),
{
    if s.len() == 0 {
        0
    } else if s[0] == c {
        0
    } else {
        1 + find_char(s.drop_first(), c)
    }
}

/// The processor model in a `name : value` line: the trimmed text between the
/// first colon and the next one; the whole line when it has no colon.
pub open spec fn cpu_model_text(line: Seq<char>) -> Seq<char> {
    let i = find_char(line, ':');
    if i < line.len() {
        let rest = line.subrange(i + 1, line.len() as int);
        trimmed(rest.subrange(0, find_char(rest, ':')))
    } else {
        line
    }
}

proof fn lemma_find_char_bounds(s: Seq<char>, c: char)
    ensures
        0 <= find_char(s, c) <= s.len(),
        find_char(s, c) < s.len() ==> s[find_char(s, c)] == c,
    decreases s.len(),
{
    if s.len() > 0 && s[0] != c {
        lemma_find_char_bounds(s.drop_first(), c);
    }
}

proof fn lemma_skip_word_suffix(s: Seq<char>)
    ensures
        skip_word(s).len() <= s.len(),
        skip_word(s) == s.subrange(s.len() - skip_word(s).len(), s.len() as int),
    decreases s.len(),
{
    if s.len() > 0 && !is_white_space(s[0]) {
        lemma_skip_word_suffix(s.drop_first());
        assert(s.drop_first().subrange(
            s.drop_first().len() - skip_word(s.drop_first()).len(),
            s.drop_first().len() as int,
        ) =~= s.subrange(s.len() - skip_word(s).len(), s.len() as int));
    } else {
        assert(s.subrange(0, s.len() as int) =~= s);
    }
}

/// Whether `c` has the Unicode `White_Space` property.
pub fn is_white_space_char(c: char) -> (r: bool)
    ensures
        r == is_white_space(c),
{
    c == ' ' || ('\t' <= c && c <= '\r') || c == '\u{85}' || c == '\u{a0}' || c == '\u{1680}' || (
    '\u{2000}' <= c && c <= '\u{200a}') || c == '\u{2028}' || c == '\u{2029}' || c == '\u{202f}'
        || c == '\u{205f}' || c == '\u{3000}'
}

/// The first position from `from` on that does not hold white space.
fn skip_white_space(s: &str, len: usize, from: usize) -> (r: usize)
    requires
        len == s@.len(),
        from <= len,
    ensures
        from <= r <= len,
        s@.subrange(r as int, len as int) == trim_start(s@.subrange(from as int, len as int)),
{
    let mut i = from;
    while i < len && is_white_space_char(s.get_char(i))
        invariant
            len == s@.len(),
            from <= i <= len,
            trim_start(s@.subrange(i as int, len as int)) == trim_start(
                s@.subrange(from as int, len as int),
            ),
        decreases len - i,
    {
        assert(s@.subrange(i as int, len as int).drop_first() =~= s@.subrange(i + 1, len as int));
        i = i + 1;
    }
    if i < len {
        assert(s@.subrange(i as int, len as int)[0] == s@[i as int]);
    } else {
        assert(s@.subrange(i as int, len as int).len() == 0);
    }
    i
}

/// The first position from `from` on that holds white space.
fn skip_non_white_space(s: &str, len: usize, from: usize) -> (r: usize)
    requires
        len == s@.len(),
        from <= len,
    ensures
        from <= r <= len,
        s@.subrange(r as int, len as int) == skip_word(s@.subrange(from as int, len as int)),
{
    let mut i = from;
    while i < len && !is_white_space_char(s.get_char(i))
        invariant
            len == s@.len(),
            from <= i <= len,
            skip_word(s@.subrange(i as int, len as int)) == skip_word(
                s@.subrange(from as int, len as int),
            ),
        decreases len - i,
    {
        assert(s@.subrange(i as int, len as int).drop_first() =~= s@.subrange(i + 1, len as int));
        i = i + 1;
    }
    if i < len {
        assert(s@.subrange(i as int, len as int)[0] == s@[i as int]);
    } else {
        assert(s@.subrange(i as int, len as int).len() == 0);
    }
    i
}

/// The text without white space at either end.
pub fn trim_text(s: &str) -> (r: &str)
    ensures
        r@ == trimmed(s@),
{
    let len = s.unicode_len();
    let start = skip_white_space(s, len, 0);
    assert(s@.subrange(0, len as int) =~= s@);
    let mut end = len;
    assert(s@.subrange(start as int, end as int) =~= trim_start(s@));
    while end > start && is_white_space_char(s.get_char(end - 1))
        invariant
            len == s@.len(),
            start <= end <= len,
            trim_end(s@.subrange(start as int, end as int)) == trim_end(trim_start(s@)),
        decreases end,
    {
        assert(s@.subrange(start as int, end as int).drop_last() =~= s@.subrange(
            start as int,
            end - 1,
        ));
        end = end - 1;
    }
    if end > start {
        assert(s@.subrange(start as int, end as int).last() == s@[end - 1]);
    } else {
        assert(s@.subrange(start as int, end as int).len() == 0);
    }
    s.substring_char(start, end)
}

/// The first position from `from` on that holds `c`, or the length.
fn find_from(s: &str, len: usize, from: usize, c: char) -> (r: usize)
    requires
        len == s@.len(),
        from <= len,
    ensures
        r == from + find_char(s@.subrange(from as int, len as int), c),
{
    let mut i = from;
    while i < len && s.get_char(i) != c
        invariant
            len == s@.len(),
            from <= i <= len,
            from + find_char(s@.subrange(from as int, len as int), c) == i + find_char(
                s@.subrange(i as int, len as int),
                c,
            ),
        decreases len - i,
    {
        assert(s@.subrange(i as int, len as int).drop_first() =~= s@.subrange(i + 1, len as int));
        i = i + 1;
    }
    if i < len {
        assert(s@.subrange(i as int, len as int)[0] == s@[i as int]);
    }
    i
}

/// The processor model in the line that names it (`model name : ...`).
pub fn cpu_model_from(line: &str) -> (r: String)
    ensures
        r@ == cpu_model_text(line@),
{
    let len = line.unicode_len();
    let i = find_from(line, len, 0, ':');
    assert(line@.subrange(0, len as int) =~= line@);
    if i < len {
        let j = find_from(line, len, i + 1, ':');
        proof {
            let rest = line@.subrange(i + 1, len as int);
            lemma_find_char_bounds(rest, ':');
            assert(line@.subrange(i + 1, j as int) =~= rest.subrange(0, find_char(rest, ':')));
        }
        let field = line.substring_char(i + 1, j);
        String::from_str(trim_text(field))
    } else {
        String::from_str(line)
    }
}

/// The number of processor cores that a probe printed.
pub fn parse_core_count(s: &str) -> (r: Option<u32>)
    ensures
        r == match parsed_u64(s@) {
            Some(n) => if n <= u32::MAX {
                Some(n as u32)
            } else {
                None
            },
            None => None,
        },
{
    match parse_decimal(s) {
        Some(n) => if n <= u32::MAX as u64 {
            Some(n as u32)
        } else {
            None
        },
        None => None,
    }
}

/// A memory size that a probe printed as a whole number of bytes.
pub fn mem_size_bytes(s: &str) -> (r: Option<u64>)
    ensures
        r == parsed_u64(s@),
{
    parse_decimal(s)
}

/// The amount in a `MemTotal: <amount> kB` line: its second word, read as a
/// whole number.
pub fn mem_total_kib(line: &str) -> (r: Option<u64>)
    ensures
        r == match second_word(line@) {
            Some(w) => parsed_u64(w),
            None => None,
        },
{
    let len = line.unicode_len();
    assert(line@.subrange(0, len as int) =~= line@);
    let a = skip_white_space(line, len, 0);
    let b = skip_non_white_space(line, len, a);
    let c = skip_white_space(line, len, b);
    if c == len {
        assert(line@.subrange(c as int, len as int).len() == 0);
        return None;
    }
    let d = skip_non_white_space(line, len, c);
    proof {
        let rest = line@.subrange(c as int, len as int);
        lemma_skip_word_suffix(rest);
        assert(line@.subrange(c as int, d as int) =~= first_word(rest));
    }
    parse_decimal(line.substring_char(c, d))
}

} // verus!
