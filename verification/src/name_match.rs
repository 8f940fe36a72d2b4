//! Numbers taken out of file names by regular expressions.

use vstd::prelude::*;

verus! {

/// What `regex::Regex::new` and `Regex::captures` give for a pattern and a text: nothing when the
/// pattern is invalid or does not match, else the text of each group, the whole match first, with
/// nothing for a group that took no part.
pub uninterp spec fn regex_captures(pattern: Seq<char>, text: Seq<char>) -> Option<
    Seq<Option<Seq<char>>>,
>;

/// The view of captured groups.
pub open spec fn groups_view(groups: Option<Vec<Option<String>>>) -> Option<
    Seq<Option<Seq<char>>>,
> {
    match groups {
        Some(v) => Some(Seq::new(v@.len(), |i: int| group_view(v@[i]))),
        None => None,
    }
}

pub open spec fn group_view(group: Option<String>) -> Option<Seq<char>> {
    match group {
        Some(s) => Some(s@),
        None => None,
    }
}

/// `regex::Regex::new` followed by `Regex::captures`: the groups of the leftmost match. The
/// contract names the result and says no more of it than that it depends on the pattern and the
/// text alone.
#[verifier::external_body]
pub(crate) fn capture(pattern: &str, text: &str) -> (r: Option<Vec<Option<String>>>)
    ensures
        groups_view(r) == regex_captures(pattern@, text@),
{
    let re = regex::Regex::new(pattern).ok()?;
    let caps = re.captures(text)?;
    Some(caps.iter().map(|m| m.map(|g| g.as_str().to_string())).collect())
}

/// A decimal digit.
pub open spec fn is_digit(c: char) -> bool {
    '0' <= c <= '9'
}

pub open spec fn all_digits(s: Seq<char>) -> bool {
    forall|i: int| 0 <= i < s.len() ==> is_digit(#[trigger] s[i])
}

/// The value of a run of decimal digits.
pub open spec fn digits_value(s: Seq<char>) -> nat
    decreases s.len(),
{
    if s.len() == 0 {
        0
    } else {
        digits_value(s.drop_last()) * 10 + (s.last() as u32 - 48) as nat
    }
}

/// The digits of a number text, behind an optional `+`.
pub open spec fn unsigned_digits(s: Seq<char>) -> Seq<char> {
    if s.len() > 0 && s[0] == '+' {
        s.skip(1)
    } else {
        s
    }
}

/// The number a text stands for: an optional `+`, then at least one digit and nothing else, with
/// a value that `usize` can hold.
pub open spec fn usize_value(s: Seq<char>) -> Option<usize> {
    let d = unsigned_digits(s);
    if d.len() > 0 && all_digits(d) && digits_value(d) <= usize::MAX {
        Some(digits_value(d) as usize)
    } else {
        None
    }
}

proof fn digits_value_grows(s: Seq<char>, n: int)
    requires
        0 <= n <= s.len(),
    ensures
        digits_value(s.take(n)) <= digits_value(s),
    decreases s.len() - n,
{
    if n < s.len() {
        digits_value_grows(s, n + 1);
        assert(s.take(n + 1).drop_last() =~= s.take(n));
    } else {
        assert(s.take(n) =~= s);
    }
}

/// Reads a number in decimal notation, as `usize::from_str` does.
pub fn parse_usize(chars: &[char]) -> (r: Option<usize>)
    ensures
        r == usize_value(chars@),
{
    let len: usize = chars.len();
    let mut start: usize = 0;
    if len > 0 && chars[0] == '+' {
        start = 1;
    }
    let ghost d = unsigned_digits(chars@);
    assert(d =~= chars@.skip(start as int));
    if start == len {
        return None;
    }
    let mut value: usize = 0;
    let mut i: usize = start;
    while i < len
        invariant
            start <= i <= len,
            len == chars@.len(),
            d == chars@.skip(start as int),
            d == unsigned_digits(chars@),
            all_digits(d.take(i - start)),
            value == digits_value(d.take(i - start)),
        decreases len - i,
    {
        let c: char = chars[i];
        assert(d[i - start] == c);
        if !(c >= '0' && c <= '9') {
            assert(!is_digit(d[i - start]));
            return None;
        }
        let v: usize = (c as u32 - 48) as usize;
        proof {
            assert(d.take(i - start + 1).drop_last() =~= d.take(i - start));
            assert(d.take(i - start + 1).last() == c);
            digits_value_grows(d, i - start + 1);
            assert forall|k: int| 0 <= k < d.take(i - start + 1).len() implies is_digit(
                #[trigger] d.take(i - start + 1)[k],
            ) by {
                if k < i - start {
                    assert(d.take(i - start)[k] == d[k]);
                }
            }
        }
        match value.checked_mul(10) {
            Some(m) => match m.checked_add(v) {
                Some(s) => {
                    value = s;
                },
                None => {
                    return None;
                },
            },
            None => {
                return None;
            },
        }
        i = i + 1;
    }
    assert(d.take(len - start) =~= d);
    Some(value)
}

/// The number in group `index` of a match.
pub open spec fn group_number(groups: Option<Seq<Option<Seq<char>>>>, index: int) -> Option<usize> {
    match groups {
        Some(g) => if 0 <= index < g.len() {
            match g[index] {
                Some(text) => usize_value(text),
                None => None,
            }
        } else {
            None
        },
        None => None,
    }
}

/// Reads the number that a group of a match holds.
pub fn number_in_group(groups: &Option<Vec<Option<String>>>, index: usize) -> (r: Option<usize>)
    ensures
        r == group_number(groups_view(*groups), index as int),
{
    match groups {
        Some(g) => {
            if index < g.len() {
                match &g[index] {
                    Some(text) => {
                        let chars: Vec<char> = crate::text::chars_of(text.as_str());
                        parse_usize(chars.as_slice())
                    },
                    None => None,
                }
            } else {
                None
            }
        },
        None => None,
    }
}

/// Why a text that was matched as a number is none.
#[derive(Debug, Clone, Copy, PartialEq, Eq, Structural)]
pub enum NumberFault {
    TooLarge,
    NotDigits,
}

impl NumberFault {
    pub open spec fn text(self) -> Seq<char> {
        match self {
            NumberFault::TooLarge => "number too large to fit in target type"@,
            NumberFault::NotDigits => "invalid digit found in string"@,
        }
    }

    /// The fault in words.
    pub fn message(self) -> (r: &'static str)
        ensures
            r@ == self.text(),
    {
        match self {
            NumberFault::TooLarge => "number too large to fit in target type",
            NumberFault::NotDigits => "invalid digit found in string",
        }
    }
}

/// How many decimal digits a text starts with, from `from` on.
pub open spec fn digits_end(s: Seq<char>, from: nat) -> nat
    decreases s.len() - from,
{
    if from >= s.len() || !is_digit(s[from as int]) {
        from
    } else {
        digits_end(s, from + 1)
    }
}

/// What stops reading a text from the left: its leading digits make too large a number, or another
/// character follows them.
pub open spec fn fault_in(s: Seq<char>) -> NumberFault {
    if digits_value(s.take(digits_end(s, 0) as int)) > usize::MAX {
        NumberFault::TooLarge
    } else {
        NumberFault::NotDigits
    }
}

/// Says why a text is no number.
pub fn find_fault(text: &str) -> (r: NumberFault)
    ensures
        r == fault_in(text@),
{
    let chars: Vec<char> = crate::text::chars_of(text);
    let mut digits: Vec<char> = Vec::new();
    let mut i: usize = 0;
    while i < chars.len() && chars[i] >= '0' && chars[i] <= '9'
        invariant
            i <= chars@.len(),
            chars@ == text@,
            digits@ == chars@.take(i as int),
            all_digits(digits@),
            digits_end(chars@, 0) == digits_end(chars@, i as nat),
        decreases chars@.len() - i,
    {
        digits.push(chars[i]);
        i = i + 1;
        assert(digits@ =~= chars@.take(i as int));
    }
    assert(digits_end(chars@, i as nat) == i);
    if digits.len() == 0 {
        assert(digits_value(digits@) == 0);
        return NumberFault::NotDigits;
    }
    assert(is_digit(digits@[0]));
    match parse_usize(digits.as_slice()) {
        Some(_) => NumberFault::NotDigits,
        None => NumberFault::TooLarge,
    }
}

/// Why group `index` of a match holds no number.
pub open spec fn group_fault(groups: Option<Seq<Option<Seq<char>>>>, index: int) -> NumberFault {
    match groups {
        Some(g) => if 0 <= index < g.len() {
            match g[index] {
                Some(text) => fault_in(text),
                None => NumberFault::NotDigits,
            }
        } else {
            NumberFault::NotDigits
        },
        None => NumberFault::NotDigits,
    }
}

/// Says why a group of a match holds no number.
pub fn fault_in_group(groups: &Option<Vec<Option<String>>>, index: usize) -> (r: NumberFault)
    ensures
        r == group_fault(groups_view(*groups), index as int),
{
    match groups {
        Some(g) => {
            if index < g.len() {
                match &g[index] {
                    Some(text) => find_fault(text.as_str()),
                    None => NumberFault::NotDigits,
                }
            } else {
                NumberFault::NotDigits
            }
        },
        None => NumberFault::NotDigits,
    }
}

} // verus!
