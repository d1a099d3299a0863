//! Small text operations on `Seq<char>` and their executable counterparts on
//! `String`, as the emitters need them: joining lines, decimal numerals,
//! replacing a character, and substring search.

use vstd::prelude::*;
use vstd::string::StrSliceExecFns;
use vstd::string::StringExecFns;

verus! {

/// The separator that [`join_lines`] puts between two lines.
pub const NEWLINE: &'static str = "\n";

/// The lines in order, with a newline between neighbours and none at either end.
pub open spec fn joined(lines: Seq<Seq<char>>) -> Seq<char>
    decreases lines.len(),
{
    if lines.len() == 0 {
        Seq::empty()
    } else if lines.len() == 1 {
        lines[0]
    } else {
        joined(lines.drop_last()) + NEWLINE@ + lines.last()
    }
}

/// The view of each string, in order.
pub open spec fn texts(strings: Seq<String>) -> Seq<Seq<char>> {
    strings.map_values(|s: String| s@)
}

/// Joins `lines` with newlines.
pub fn join_lines(lines: &Vec<String>) -> (out: String)
    ensures
        out@ == joined(texts(lines@)),
{
    let mut out = String::new();
    let mut i: usize = 0;
    while i < lines.len()
        invariant
            i <= lines.len(),
            out@ == joined(texts(lines@).take(i as int)),
        decreases lines.len() - i,
    {
        let ghost done = texts(lines@).take(i as int);
        let ghost next = texts(lines@).take(i + 1);
        assert(next.drop_last() == done);
        assert(next.last() == lines@[i as int]@);
        if i > 0 {
            out.append(NEWLINE);
        }
        out.append(lines[i].as_str());
        i += 1;
    }
    assert(texts(lines@).take(lines.len() as int) == texts(lines@));
    out
}

/// The numeral of a single digit; of anything larger, that of nine.
pub open spec fn digit_text(d: nat) -> Seq<char> {
    if d == 0 {
        "0"@
    } else if d == 1 {
        "1"@
    } else if d == 2 {
        "2"@
    } else if d == 3 {
        "3"@
    } else if d == 4 {
        "4"@
    } else if d == 5 {
        "5"@
    } else if d == 6 {
        "6"@
    } else if d == 7 {
        "7"@
    } else if d == 8 {
        "8"@
    } else {
        "9"@
    }
}

/// The decimal numeral of `n`, without leading zeros.
pub open spec fn decimal_text(n: nat) -> Seq<char>
    decreases n,
{
    if n < 10 {
        digit_text(n)
    } else {
        decimal_text(n / 10) + digit_text(n % 10)
    }
}

fn digit(d: u128) -> (s: &'static str)
    requires
        d < 10,
    ensures
        s@ == digit_text(d as nat),
{
    if d == 0 {
        "0"
    } else if d == 1 {
        "1"
    } else if d == 2 {
        "2"
    } else if d == 3 {
        "3"
    } else if d == 4 {
        "4"
    } else if d == 5 {
        "5"
    } else if d == 6 {
        "6"
    } else if d == 7 {
        "7"
    } else if d == 8 {
        "8"
    } else {
        "9"
    }
}

/// Writes `n` in decimal.
pub fn decimal(n: u128) -> (out: String)
    ensures
        out@ == decimal_text(n as nat),
    decreases n,
{
    if n < 10 {
        String::from_str(digit(n))
    } else {
        let mut out = decimal(n / 10);
        out.append(digit(n % 10));
        out
    }
}

/// `s` with every `from` replaced by `to`.
pub open spec fn replaced(s: Seq<char>, from: char, to: char) -> Seq<char> {
    s.map_values(|c: char| if c == from { to } else { c })
}

/// Replaces every dot of `name` by an underscore, which turns a namespaced
/// column name into an identifier.
pub fn underscore_dots(name: &str) -> (out: String)
    ensures
        out@ == replaced(name@, '.', '_'),
{
    let n = name.unicode_len();
    let mut out = String::new();
    let mut i: usize = 0;
    while i < n
        invariant
            i <= n,
            n == name@.len(),
            out@ == replaced(name@.take(i as int), '.', '_'),
        decreases n - i,
    {
        let ghost before = out@;
        if name.get_char(i) == '.' {
            proof {
                reveal_strlit("_");
            }
            out.append("_");
            assert(out@ == before.push('_'));
        } else {
            out.append(name.substring_char(i, i + 1));
            assert(out@ == before.push(name@[i as int]));
        }
        i += 1;
        assert(out@ == replaced(name@.take(i as int), '.', '_'));
    }
    assert(name@.take(n as int) == name@);
    out
}

/// Whether `pattern` occurs in `s` as a contiguous run of characters.
pub open spec fn has_substring(s: Seq<char>, pattern: Seq<char>) -> bool {
    exists|at: int| occurs_at(s, pattern, at)
}

/// Whether `pattern` stands in `s` at position `at`.
pub open spec fn occurs_at(s: Seq<char>, pattern: Seq<char>, at: int) -> bool {
    &&& 0 <= at
    &&& at + pattern.len() <= s.len()
    &&& s.subrange(at, at + pattern.len()) == pattern
}

/// The characters of `s`, for access by position.
pub fn characters(s: &str) -> (out: Vec<char>)
    ensures
        out@ == s@,
{
    let n = s.unicode_len();
    let mut out: Vec<char> = Vec::new();
    let mut i: usize = 0;
    while i < n
        invariant
            i <= n,
            n == s@.len(),
            out@ == s@.take(i as int),
        decreases n - i,
    {
        out.push(s.get_char(i));
        i += 1;
    }
    assert(s@.take(n as int) == s@);
    out
}

fn matches_at(s: &Vec<char>, pattern: &Vec<char>, at: usize) -> (found: bool)
    requires
        at + pattern.len() <= s.len(),
    ensures
        found == occurs_at(s@, pattern@, at as int),
{
    let mut k: usize = 0;
    while k < pattern.len()
        invariant
            k <= pattern.len(),
            at + pattern.len() <= s.len(),
            forall|j: int| 0 <= j < k ==> s@[at + j] == pattern@[j],
        decreases pattern.len() - k,
    {
        if s[at + k] != pattern[k] {
            assert(s@.subrange(at as int, at + pattern.len())[k as int] != pattern@[k as int]);
            return false;
        }
        k += 1;
    }
    assert(s@.subrange(at as int, at + pattern.len()) =~= pattern@);
    true
}

/// Tells whether `pattern` occurs in `s`.
pub fn contains(s: &str, pattern: &str) -> (found: bool)
    ensures
        found == has_substring(s@, pattern@),
{
    let text = characters(s);
    let wanted = characters(pattern);
    if wanted.len() > text.len() {
        return false;
    }
    let last = text.len() - wanted.len();
    let mut at: usize = 0;
    loop
        invariant
            at <= last,
            last == text.len() - wanted.len(),
            wanted.len() <= text.len(),
            text@ == s@,
            wanted@ == pattern@,
            forall|j: int| 0 <= j < at ==> !occurs_at(s@, pattern@, j),
        decreases last - at,
    {
        if matches_at(&text, &wanted, at) {
            return true;
        }
        if at == last {
            return false;
        }
        at += 1;
    }
}

} // verus!
