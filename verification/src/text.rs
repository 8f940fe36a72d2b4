//! Text helpers: comparison, ASCII case, decimal numbers and trimming.

use vstd::prelude::*;
use vstd::string::*;

verus! {

pub open spec fn digit_char(d: nat) -> char {
    (48 + d) as char
}

/// `n` in decimal notation, without leading zeros.
pub open spec fn decimal_text(n: nat) -> Seq<char>
    decreases n,
{
    if n < 10 {
        seq![digit_char(n)]
    } else {
        decimal_text(n / 10).push(digit_char(n % 10))
    }
}

fn digit(d: u64) -> (r: &'static str)
    requires
        d < 10,
    ensures
        r@ == seq![digit_char(d as nat)],
{
    proof {
        reveal_strlit("0");
        reveal_strlit("1");
        reveal_strlit("2");
        reveal_strlit("3");
        reveal_strlit("4");
        reveal_strlit("5");
        reveal_strlit("6");
        reveal_strlit("7");
        reveal_strlit("8");
        reveal_strlit("9");
    }
    let r: &'static str = match d {
        0 => "0",
        1 => "1",
        2 => "2",
        3 => "3",
        4 => "4",
        5 => "5",
        6 => "6",
        7 => "7",
        8 => "8",
        _ => "9",
    };
    assert(r@ =~= seq![digit_char(d as nat)]);
    r
}

/// Writes a number in decimal notation.
pub fn decimal(n: u64) -> (r: String)
    ensures
        r@ == decimal_text(n as nat),
    decreases n,
{
    if n < 10 {
        digit(n).to_owned()
    } else {
        let mut s: String = decimal(n / 10);
        s.append(digit(n % 10));
        assert(s@ =~= decimal_text(n as nat));
        s
    }
}

/// Writes an optional number: `Some(n)` or `None`.
pub open spec fn option_text(n: Option<usize>) -> Seq<char> {
    match n {
        Some(v) => "Some("@ + decimal_text(v as nat) + ")"@,
        None => "None"@,
    }
}

pub fn option_decimal(n: Option<usize>) -> (r: String)
    ensures
        r@ == option_text(n),
{
    match n {
        Some(v) => {
            let mut s: String = "Some(".to_owned();
            s.append(decimal(v as u64).as_str());
            s.append(")");
            s
        },
        None => "None".to_owned(),
    }
}

/// The numbers of a list, each but the first behind a comma.
pub open spec fn numbers_text(numbers: Seq<usize>) -> Seq<char>
    decreases numbers.len(),
{
    if numbers.len() == 0 {
        Seq::empty()
    } else if numbers.len() == 1 {
        decimal_text(numbers[0] as nat)
    } else {
        numbers_text(numbers.drop_last()) + ", "@ + decimal_text(numbers.last() as nat)
    }
}

/// Writes a list of numbers: `[0, 1]`.
pub open spec fn list_text(numbers: Seq<usize>) -> Seq<char> {
    "["@ + numbers_text(numbers) + "]"@
}

/// Writes a list of numbers.
pub fn list_decimal(numbers: &[usize]) -> (r: String)
    ensures
        r@ == list_text(numbers@),
{
    let mut s: String = "[".to_owned();
    for i in 0..numbers.len()
        invariant
            s@ == "["@ + numbers_text(numbers@.take(i as int)),
    {
        if i > 0 {
            s.append(", ");
        }
        s.append(decimal(numbers[i] as u64).as_str());
        assert(numbers@.take(i as int + 1).drop_last() =~= numbers@.take(i as int));
        assert(s@ =~= "["@ + numbers_text(numbers@.take(i as int + 1)));
    }
    assert(numbers@.take(numbers@.len() as int) =~= numbers@);
    s.append("]");
    s
}

/// Whether two texts are equal.
pub fn same_text(a: &str, b: &str) -> (r: bool)
    ensures
        r == (a@ == b@),
{
    let x: String = a.to_owned();
    let y: String = b.to_owned();
    x == y
}

/// The characters of a text.
pub fn chars_of(text: &str) -> (r: Vec<char>)
    ensures
        r@ == text@,
{
    let mut out: Vec<char> = Vec::new();
    for c in it: text.chars()
        invariant
            out@ == it.seq().take(it.index() as int),
    {
        out.push(c);
    }
    out
}

/// Whether a text ends in another.
pub fn ends_with(text: &str, suffix: &str) -> (r: bool)
    ensures
        r == suffix@.is_suffix_of(text@),
{
    let t: Vec<char> = chars_of(text);
    let s: Vec<char> = chars_of(suffix);
    if t.len() < s.len() {
        return false;
    }
    let total: usize = t.len();
    let start: usize = total - s.len();
    for i in 0..s.len()
        invariant
            total == t@.len(),
            t@ == text@,
            s@ == suffix@,
            start == t@.len() - s@.len(),
            forall|k: int| 0 <= k < i ==> t@[start + k] == s@[k],
    {
        if t[start + i] != s[i] {
            assert(text@.subrange(text@.len() - suffix@.len(), text@.len() as int)[i as int]
                != suffix@[i as int]);
            return false;
        }
    }
    assert(text@.subrange(text@.len() - suffix@.len(), text@.len() as int) =~= suffix@);
    true
}

pub open spec fn ascii_lower(c: char) -> char {
    if 'A' <= c <= 'Z' {
        (c as u32 + 32) as char
    } else {
        c
    }
}

/// A text with its ASCII capitals made small.
pub open spec fn lowered(s: Seq<char>) -> Seq<char> {
    Seq::new(s.len(), |i: int| ascii_lower(s[i]))
}

/// `str::to_ascii_lowercase` of std: the letters `A` to `Z` become `a` to `z`, every other
/// character is kept.
#[verifier::external_body]
pub(crate) fn to_ascii_lowercase(text: &str) -> (r: String)
    ensures
        r@ == lowered(text@),
{
    text.to_ascii_lowercase()
}

/// The characters with the Unicode property `White_Space`.
pub open spec fn white_space(c: char) -> bool {
    let v = c as u32;
    9 <= v <= 13 || v == 0x20 || v == 0x85 || v == 0xa0 || v == 0x1680 || 0x2000 <= v <= 0x200a
        || v == 0x2028 || v == 0x2029 || v == 0x202f || v == 0x205f || v == 0x3000
}

pub fn is_white_space(c: char) -> (r: bool)
    ensures
        r == white_space(c),
{
    let v: u32 = c as u32;
    (9 <= v && v <= 13) || v == 0x20 || v == 0x85 || v == 0xa0 || v == 0x1680 || (0x2000 <= v && v
        <= 0x200a) || v == 0x2028 || v == 0x2029 || v == 0x202f || v == 0x205f || v == 0x3000
}

/// A text without the white space before its first other character.
pub open spec fn trimmed_start(s: Seq<char>) -> Seq<char>
    decreases s.len(),
{
    if s.len() > 0 && white_space(s[0]) {
        trimmed_start(s.skip(1))
    } else {
        s
    }
}

/// A text without the white space behind its last other character.
pub open spec fn trimmed_end(s: Seq<char>) -> Seq<char>
    decreases s.len(),
{
    if s.len() > 0 && white_space(s.last()) {
        trimmed_end(s.drop_last())
    } else {
        s
    }
}

/// A text without white space at its ends.
pub open spec fn trimmed(s: Seq<char>) -> Seq<char> {
    trimmed_end(trimmed_start(s))
}

/// The part of a text that is left when white space at its ends is taken away.
pub fn trim_part(chars: &[char], from: usize, to: usize) -> (r: (usize, usize))
    requires
        from <= to <= chars@.len(),
    ensures
        from <= r.0 <= r.1 <= to,
        chars@.subrange(r.0 as int, r.1 as int) == trimmed(
            chars@.subrange(from as int, to as int),
        ),
{
    let ghost part = chars@.subrange(from as int, to as int);
    let mut start: usize = from;
    while start < to && is_white_space(chars[start])
        invariant
            from <= start <= to <= chars@.len(),
            trimmed_start(part) == trimmed_start(chars@.subrange(start as int, to as int)),
        decreases to - start,
    {
        assert(chars@.subrange(start as int, to as int).skip(1) =~= chars@.subrange(
            start + 1,
            to as int,
        ));
        start = start + 1;
    }
    let ghost rest = chars@.subrange(start as int, to as int);
    assert(trimmed_start(part) == rest);
    let mut end: usize = to;
    while start < end && is_white_space(chars[end - 1])
        invariant
            from <= start <= end <= to <= chars@.len(),
            trimmed_end(rest) == trimmed_end(chars@.subrange(start as int, end as int)),
        decreases end,
    {
        assert(chars@.subrange(start as int, end as int).drop_last() =~= chars@.subrange(
            start as int,
            end - 1,
        ));
        end = end - 1;
    }
    (start, end)
}

/// The first place of a character at or behind `from`, or the length of the text.
pub open spec fn char_place(s: Seq<char>, c: char, from: int) -> int
    decreases s.len() - from,
{
    if from >= s.len() || s[from] == c {
        from
    } else {
        char_place(s, c, from + 1)
    }
}

/// The place of a character in a part of a text is where it first stands there.
proof fn char_place_in_part(s: Seq<char>, c: char, from: int, to: int, at: int)
    requires
        0 <= from <= at <= to <= s.len(),
        forall|i: int| from <= i < at ==> s[i] != c,
        at < to ==> s[at] == c,
    ensures
        char_place(s.subrange(from, to), c, 0) == at - from,
{
    let part = s.subrange(from, to);
    char_place_runs(part, c, 0, at - from);
}

proof fn char_place_runs(s: Seq<char>, c: char, from: int, at: int)
    requires
        0 <= from <= at <= s.len(),
        forall|i: int| from <= i < at ==> s[i] != c,
        at < s.len() ==> s[at] == c,
    ensures
        char_place(s, c, from) == at,
    decreases at - from,
{
    if from < at {
        char_place_runs(s, c, from + 1, at);
    }
}

/// Finds a character in a part of a text.
pub fn find_char(chars: &[char], c: char, from: usize, to: usize) -> (r: usize)
    requires
        from <= to <= chars@.len(),
    ensures
        from <= r <= to,
        r - from == char_place(chars@.subrange(from as int, to as int), c, 0),
        r < to ==> chars@[r as int] == c,
{
    let mut at: usize = from;
    while at < to && chars[at] != c
        invariant
            from <= at <= to <= chars@.len(),
            forall|i: int| from <= i < at ==> chars@[i] != c,
        decreases to - at,
    {
        at = at + 1;
    }
    proof {
        char_place_in_part(chars@, c, from as int, to as int, at as int);
    }
    at
}

/// A text occurs within another.
pub open spec fn holds_part(s: Seq<char>, part: Seq<char>) -> bool {
    exists|i: int|
        0 <= i <= s.len() - part.len() && #[trigger] s.subrange(i, i + part.len()) == part
}

/// Whether a text occurs within another.
pub fn contains_text(text: &str, part: &str) -> (r: bool)
    ensures
        r == holds_part(text@, part@),
{
    let t: Vec<char> = chars_of(text);
    let p: Vec<char> = chars_of(part);
    if t.len() < p.len() {
        return false;
    }
    let total: usize = t.len();
    let last: usize = total - p.len();
    let mut i: usize = 0;
    while i <= last
        invariant
            total == t@.len(),
            t@ == text@,
            p@ == part@,
            last == t@.len() - p@.len(),
            i <= last + 1,
            forall|k: int| 0 <= k < i ==> #[trigger] text@.subrange(k, k + part@.len()) != part@,
        decreases last + 1 - i,
    {
        let mut n: usize = 0;
        while n < p.len() && t[i + n] == p[n]
            invariant
                total == t@.len(),
                i <= last,
                last == t@.len() - p@.len(),
                n <= p@.len(),
                forall|k: int| 0 <= k < n ==> t@[i + k] == p@[k],
            decreases p@.len() - n,
        {
            n = n + 1;
        }
        let ghost here = text@.subrange(i as int, i + part@.len());
        if n == p.len() {
            assert(here =~= part@);
            return true;
        }
        assert(here[n as int] != part@[n as int]);
        if i == last {
            return false;
        }
        i = i + 1;
    }
    false
}

} // verus!
