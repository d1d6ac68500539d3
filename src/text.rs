//! Decimal numbers as text, and the names of the per-run artifact files.

use vstd::prelude::*;
use vstd::string::StringExecFns;

verus! {

/// The character of a single decimal digit.
pub open spec fn digit_char(d: nat) -> char {
    if d == 0 {
        '0'
    } else if d == 1 {
        '1'
    } else if d == 2 {
        '2'
    } else if d == 3 {
        '3'
    } else if d == 4 {
        '4'
    } else if d == 5 {
        '5'
    } else if d == 6 {
        '6'
    } else if d == 7 {
        '7'
    } else if d == 8 {
        '8'
    } else {
        '9'
    }
}

/// The decimal digits of `n`, most significant first, without leading zeros.
pub open spec fn decimal_text(n: nat) -> Seq<char>
    decreases n,
{
    if n < 10 {
        seq![digit_char(n)]
    } else {
        decimal_text(n / 10).push(digit_char(n % 10))
    }
}

/// Whether `c` is one of the ASCII digits `0` to `9`.
pub open spec fn is_digit(c: char) -> bool {
    '0' <= c && c <= '9'
}

/// The value of an ASCII digit character.
pub open spec fn digit_value(c: char) -> int {
    (c as u32) as int - ('0' as u32) as int
}

/// The value of a sequence of digits read in base ten.
pub open spec fn digits_value(s: Seq<char>) -> int
    decreases s.len(),
{
    if s.len() == 0 {
        0
    } else {
        digits_value(s.drop_last()) * 10 + digit_value(s.last())
    }
}

/// The digits of an unsigned decimal number, with its optional leading `+` removed.
pub open spec fn unsigned_digits(s: Seq<char>) -> Seq<char> {
    if s.len() > 0 && s[0] == '+' {
        s.drop_first()
    } else {
        s
    }
}

/// The `u64` that the text `s` denotes, if it is an optional `+` followed by one
/// or more ASCII digits whose value fits in 64 bits.
pub open spec fn parsed_u64(s: Seq<char>) -> Option<u64> {
    let d = unsigned_digits(s);
    if d.len() > 0 && (forall|i: int| 0 <= i < d.len() ==> is_digit(#[trigger] d[i]))
        && digits_value(d) <= u64::MAX {
        Some(digits_value(d) as u64)
    } else {
        None
    }
}

/// Relies on the `Display` impl of `u64` (through `ToString`): the number in base
/// ten, without sign and without leading zeros.
#[verifier::external_body]
pub(crate) fn decimal(n: u64) -> (r: String)
    ensures
        r@ == decimal_text(n as nat),
{
    n.to_string()
}

/// Relies on `str::parse::<u64>`: an optional `+` and then only ASCII digits, with
/// an error on empty input, on any other character, and on overflow.
#[verifier::external_body]
pub(crate) fn parse_decimal(s: &str) -> (r: Option<u64>)
    ensures
        r == parsed_u64(s@),
{
    s.parse::<u64>().ok()
}

/// The name of the artifact file that records how many rows one ingest run of
/// `bench_name` inserted: `target/<bench_name>-<num_records>_<run_index>.json`.
pub open spec fn artifact_path_text(
    bench_name: Seq<char>,
    num_records: nat,
    run_index: nat,
) -> Seq<char> {
    "target/"@ + bench_name + "-"@ + decimal_text(num_records) + "_"@ + decimal_text(run_index)
        + ".json"@
}

/// The artifact file of run `run_index` of `bench_name` with `num_records` rows.
pub fn artifact_path(bench_name: &str, num_records: u64, run_index: u64) -> (r: String)
    ensures
        r@ == artifact_path_text(bench_name@, num_records as nat, run_index as nat),
{
    let mut path = String::from_str("target/");
    path.append(bench_name);
    path.append("-");
    let n = decimal(num_records);
    path.append(n.as_str());
    path.append("_");
    let i = decimal(run_index);
    path.append(i.as_str());
    path.append(".json");
    path
}

} // verus!
