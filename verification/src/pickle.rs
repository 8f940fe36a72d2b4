//! Fields of a pickled dictionary, found by scanning for their keys.

use crate::bytes::{le_u16_at, le_u32_at};
use vstd::prelude::*;
use vstd::string::*;

verus! {

/// `String::from_utf8` of std: the text that the bytes encode in UTF-8, nothing if they are not
/// valid UTF-8.
#[verifier::external_body]
pub(crate) fn text_from_utf8(bytes: &[u8]) -> (r: Option<String>)
    ensures
        match r {
            Some(text) => vstd::utf8::valid_utf8(bytes@) && text@ == vstd::utf8::decode_utf8(
                bytes@,
            ),
            None => !vstd::utf8::valid_utf8(bytes@),
        },
{
    String::from_utf8(bytes.to_vec()).ok()
}

/// `X`: a text follows, its length first.
pub const BINUNICODE: u8 = 0x58;

/// The opcode for a text, its length and the text stand at `pos`.
pub open spec fn text_at(data: Seq<u8>, text: Seq<u8>, pos: int) -> bool {
    &&& 0 <= pos
    &&& pos + 5 + text.len() <= data.len()
    &&& data[pos] == BINUNICODE
    &&& crate::bytes::le_u32(data, pos + 1) == text.len()
    &&& data.subrange(pos + 5, pos + 5 + text.len()) == text
}

fn is_text_at(data: &[u8], text: &[u8], pos: usize) -> (r: bool)
    requires
        pos <= data@.len(),
    ensures
        r == text_at(data@, text@, pos as int),
{
    let total: usize = data.len();
    let length: usize = text.len();
    if total - pos < 5 || total - pos - 5 < length {
        return false;
    }
    if data[pos] != BINUNICODE || le_u32_at(data, pos + 1) as usize != length {
        return false;
    }
    for i in 0..length
        invariant
            total == data@.len(),
            length == text@.len(),
            pos + 5 + length <= total,
            forall|k: int| 0 <= k < i ==> data@[pos + 5 + k] == text@[k],
    {
        if data[pos + 5 + i] != text[i] {
            assert(data@.subrange(pos + 5, pos + 5 + text@.len())[i as int] != text@[i as int]);
            return false;
        }
    }
    assert(data@.subrange(pos + 5, pos + 5 + text@.len()) =~= text@);
    true
}

/// The first place of a text.
pub fn find_binunicode(data: &[u8], value: &str) -> (r: Option<usize>)
    ensures
        match r {
            Some(p) => {
                &&& text_at(data@, value.spec_bytes(), p as int)
                &&& forall|q: int| 0 <= q < p ==> !text_at(data@, value.spec_bytes(), q)
            },
            None => forall|q: int| !text_at(data@, value.spec_bytes(), q),
        },
{
    let text: &[u8] = value.as_bytes();
    let total: usize = data.len();
    for pos in 0..total
        invariant
            total == data@.len(),
            text@ == value.spec_bytes(),
            forall|q: int| 0 <= q < pos ==> !text_at(data@, text@, q),
    {
        if is_text_at(data, text, pos) {
            return Some(pos);
        }
    }
    None
}

/// The place behind the memo opcode `q` and its number, where they stand at `pos`.
pub open spec fn behind_memo(data: Seq<u8>, pos: int) -> int {
    if pos < data.len() && data[pos] == 0x71 {
        crate::basis_bank_edit::saturated(pos + 2)
    } else {
        pos
    }
}

/// Skips a memo opcode and its number.
pub fn skip_binput(data: &[u8], pos: &mut usize)
    ensures
        *final(pos) == behind_memo(data@, *old(pos) as int),
{
    let total: usize = data.len();
    if *pos < total && data[*pos] == 0x71 {
        *pos = pos.saturating_add(2);
    }
}

/// `true` or `false` at `pos`.
pub open spec fn bool_at(data: Seq<u8>, pos: int) -> Option<bool> {
    if pos >= data.len() {
        None
    } else if data[pos] == 0x88 {
        Some(true)
    } else if data[pos] == 0x89 {
        Some(false)
    } else {
        None
    }
}

/// Reads `true` or `false`.
pub fn read_pickle_bool(data: &[u8], pos: usize) -> (r: Option<bool>)
    ensures
        r == bool_at(data@, pos as int),
{
    if pos >= data.len() {
        None
    } else if data[pos] == 0x88 {
        Some(true)
    } else if data[pos] == 0x89 {
        Some(false)
    } else {
        None
    }
}

/// A 32-bit pattern as a signed number.
pub open spec fn signed(v: u32) -> int {
    if v >= 0x8000_0000 {
        v - 0x1_0000_0000
    } else {
        v as int
    }
}

/// The number at `pos`: one byte behind `K`, two behind `M`, four with a sign behind `J`; and the
/// place where reading stops, whether it succeeds or not.
pub open spec fn int_at(data: Seq<u8>, pos: int) -> (Option<int>, int) {
    let len = data.len() as int;
    if pos >= len {
        (None, pos)
    } else if data[pos] == 0x4b {
        if pos + 2 <= len {
            (Some(data[pos + 1] as int), pos + 2)
        } else {
            (None, pos + 1)
        }
    } else if data[pos] == 0x4d {
        if pos + 3 <= len {
            (Some(crate::bytes::le_u16(data, pos + 1) as int), pos + 3)
        } else {
            (None, pos + 1)
        }
    } else if data[pos] == 0x4a {
        if pos + 5 <= len {
            (Some(signed(crate::bytes::le_u32(data, pos + 1))), pos + 5)
        } else {
            (None, pos + 1)
        }
    } else {
        (None, pos)
    }
}

/// Reads a number.
pub fn read_pickle_int(data: &[u8], pos: &mut usize) -> (r: Option<i64>)
    ensures
        match r {
            Some(v) => int_at(data@, *old(pos) as int).0 == Some(v as int),
            None => int_at(data@, *old(pos) as int).0 is None,
        },
        *final(pos) == int_at(data@, *old(pos) as int).1,
{
    let total: usize = data.len();
    let at: usize = *pos;
    if at >= total {
        return None;
    }
    if data[at] == 0x4b {
        *pos = at + 1;
        if total - at < 2 {
            return None;
        }
        *pos = at + 2;
        return Some(data[at + 1] as i64);
    }
    if data[at] == 0x4d {
        *pos = at + 1;
        if total - at < 3 {
            return None;
        }
        *pos = at + 3;
        return Some(le_u16_at(data, at + 1) as i64);
    }
    if data[at] == 0x4a {
        *pos = at + 1;
        if total - at < 5 {
            return None;
        }
        *pos = at + 5;
        let v: u32 = le_u32_at(data, at + 1);
        if v >= 0x8000_0000 {
            return Some(v as i64 - 0x1_0000_0000);
        }
        return Some(v as i64);
    }
    None
}

/// The text at `pos`, and the place where reading stops.
pub open spec fn string_at(data: Seq<u8>, pos: int) -> (Option<Seq<char>>, int) {
    let len = data.len() as int;
    if pos >= len || data[pos] != BINUNICODE {
        (None, pos)
    } else if pos + 5 > len {
        (None, pos + 1)
    } else {
        let length = crate::bytes::le_u32(data, pos + 1) as int;
        if pos + 5 + length > len {
            (None, pos + 5)
        } else {
            let bytes = data.subrange(pos + 5, pos + 5 + length);
            (
                if vstd::utf8::valid_utf8(bytes) {
                    Some(vstd::utf8::decode_utf8(bytes))
                } else {
                    None
                },
                pos + 5 + length,
            )
        }
    }
}

pub open spec fn text_view(text: Option<String>) -> Option<Seq<char>> {
    match text {
        Some(t) => Some(t@),
        None => None,
    }
}

/// Reads a text.
pub fn read_binunicode(data: &[u8], pos: &mut usize) -> (r: Option<String>)
    ensures
        text_view(r) == string_at(data@, *old(pos) as int).0,
        *final(pos) == string_at(data@, *old(pos) as int).1,
{
    let total: usize = data.len();
    let at: usize = *pos;
    if at >= total || data[at] != BINUNICODE {
        return None;
    }
    *pos = at + 1;
    if total - at < 5 {
        return None;
    }
    *pos = at + 5;
    let length: usize = le_u32_at(data, at + 1) as usize;
    if total - at - 5 < length {
        return None;
    }
    *pos = at + 5 + length;
    text_from_utf8(vstd::slice::slice_subrange(data, at + 5, at + 5 + length))
}

/// A number in the form it is pickled in: a double as its bit pattern, a decimal text, or an
/// integer.
#[derive(Debug, Clone)]
pub enum PickleNumber {
    Double { bits: u64 },
    Text { text: String },
    Integer { value: i64 },
}

/// The contents of a pickled number.
pub enum NumberModel {
    Double { bits: u64 },
    Text { text: Seq<char> },
    Integer { value: int },
}

impl PickleNumber {
    pub open spec fn model(self) -> NumberModel {
        match self {
            PickleNumber::Double { bits } => NumberModel::Double { bits },
            PickleNumber::Text { text } => NumberModel::Text { text: text@ },
            PickleNumber::Integer { value } => NumberModel::Integer { value: value as int },
        }
    }
}

pub open spec fn number_view(number: Option<PickleNumber>) -> Option<NumberModel> {
    match number {
        Some(n) => Some(n.model()),
        None => None,
    }
}

/// The big-endian 64-bit number at `at`.
pub open spec fn be_u64(data: Seq<u8>, at: int) -> u64 {
    (data[at + 7] + 0x100 * data[at + 6] + 0x1_0000 * data[at + 5] + 0x100_0000 * data[at + 4]
        + 0x1_0000_0000 * (data[at + 3] + 0x100 * data[at + 2] + 0x1_0000 * data[at + 1]
        + 0x100_0000 * data[at])) as u64
}

/// The first line end from `from` on, or the end of the data.
pub open spec fn line_end(data: Seq<u8>, from: int) -> int
    decreases data.len() - from,
{
    if from >= data.len() {
        data.len() as int
    } else if data[from] == 0x0a {
        from
    } else {
        line_end(data, from + 1)
    }
}

/// The number at `pos`, eight bytes behind `G`, a line of text behind `F` or an integer; and the
/// place where reading stops.
pub open spec fn number_at(data: Seq<u8>, pos: int) -> (Option<NumberModel>, int) {
    let len = data.len() as int;
    if pos >= len {
        (None, pos)
    } else if data[pos] == 0x47 {
        if pos + 9 <= len {
            (Some(NumberModel::Double { bits: be_u64(data, pos + 1) }), pos + 9)
        } else {
            (None, pos + 1)
        }
    } else if data[pos] == 0x46 {
        let end = line_end(data, pos + 1);
        let bytes = data.subrange(pos + 1, end);
        if vstd::utf8::valid_utf8(bytes) {
            (
                Some(NumberModel::Text { text: vstd::utf8::decode_utf8(bytes) }),
                if end < len {
                    end + 1
                } else {
                    end
                },
            )
        } else {
            (None, end)
        }
    } else {
        match int_at(data, pos) {
            (Some(value), next) => (Some(NumberModel::Integer { value }), next),
            (None, next) => (None, next),
        }
    }
}

/// Reads a number of any kind.
pub fn read_pickle_float(data: &[u8], pos: &mut usize) -> (r: Option<PickleNumber>)
    ensures
        number_view(r) == number_at(data@, *old(pos) as int).0,
        *final(pos) == number_at(data@, *old(pos) as int).1,
{
    let total: usize = data.len();
    let at: usize = *pos;
    if at >= total {
        return None;
    }
    if data[at] == 0x47 {
        *pos = at + 1;
        if total - at < 9 {
            return None;
        }
        *pos = at + 9;
        let low: u64 = data[at + 8] as u64 + 0x100 * (data[at + 7] as u64) + 0x1_0000 * (data[at
            + 6] as u64) + 0x100_0000 * (data[at + 5] as u64);
        let high: u64 = data[at + 4] as u64 + 0x100 * (data[at + 3] as u64) + 0x1_0000 * (data[at
            + 2] as u64) + 0x100_0000 * (data[at + 1] as u64);
        return Some(PickleNumber::Double { bits: low + 0x1_0000_0000 * high });
    }
    if data[at] == 0x46 {
        let mut end: usize = at + 1;
        while end < total && data[end] != 0x0a
            invariant
                at < end <= total,
                total == data@.len(),
                line_end(data@, at + 1) == line_end(data@, end as int),
            decreases total - end,
        {
            end = end + 1;
        }
        *pos = end;
        return match text_from_utf8(vstd::slice::slice_subrange(data, at + 1, end)) {
            Some(text) => {
                if end < total {
                    *pos = end + 1;
                }
                Some(PickleNumber::Text { text })
            },
            None => None,
        };
    }
    match read_pickle_int(data, pos) {
        Some(value) => Some(PickleNumber::Integer { value }),
        None => None,
    }
}

/// The memo number that a text at `pos` is stored under: one byte behind `q`, four behind `r`.
pub open spec fn memo_id_at(data: Seq<u8>, text: Seq<u8>, pos: int) -> Option<usize> {
    let end = pos + 5 + text.len();
    if !text_at(data, text, pos) || end >= data.len() {
        None
    } else if data[end] == 0x71 && end + 2 <= data.len() {
        Some(data[end + 1] as usize)
    } else if data[end] == 0x72 && end + 5 <= data.len() {
        Some(crate::bytes::le_u32(data, end + 1) as usize)
    } else {
        None
    }
}

/// The memo numbers of a text, those at the first `n` places.
pub open spec fn memo_ids(data: Seq<u8>, text: Seq<u8>, n: nat) -> Seq<usize>
    decreases n,
{
    if n == 0 {
        Seq::empty()
    } else {
        match memo_id_at(data, text, n - 1) {
            Some(id) => memo_ids(data, text, (n - 1) as nat).push(id),
            None => memo_ids(data, text, (n - 1) as nat),
        }
    }
}

/// The memo numbers that a text is stored under.
pub fn binunicode_memo_ids(data: &[u8], value: &str) -> (r: Vec<usize>)
    ensures
        r@ == memo_ids(data@, value.spec_bytes(), data@.len()),
{
    let text: &[u8] = value.as_bytes();
    let length: usize = text.len();
    let total: usize = data.len();
    let mut ids: Vec<usize> = Vec::new();
    for pos in 0..total
        invariant
            total == data@.len(),
            length == text@.len(),
            text@ == value.spec_bytes(),
            ids@ == memo_ids(data@, text@, pos as nat),
    {
        if is_text_at(data, text, pos) {
            let end: usize = pos + 5 + length;
            if end < total {
                if data[end] == 0x71 && total - end >= 2 {
                    ids.push(data[end + 1] as usize);
                } else if data[end] == 0x72 && total - end >= 5 {
                    ids.push(le_u32_at(data, end + 1) as usize);
                }
            }
        }
    }
    ids
}

/// The first truth value behind a reference to a memo number, from `pos` on: `h` with the low byte
/// of the number, `j` with all of it.
pub open spec fn memoized_bool(data: Seq<u8>, id: usize, pos: int) -> Option<bool>
    decreases data.len() - pos,
{
    let len = data.len() as int;
    if pos >= len {
        None
    } else if data[pos] == 0x68 && pos + 1 < len && data[pos + 1] == id as u8 {
        if bool_at(data, pos + 2) is Some {
            bool_at(data, pos + 2)
        } else {
            memoized_bool(data, id, pos + 2)
        }
    } else if data[pos] == 0x6a && pos + 5 <= len && crate::bytes::le_u32(data, pos + 1) == id {
        if bool_at(data, pos + 5) is Some {
            bool_at(data, pos + 5)
        } else {
            memoized_bool(data, id, pos + 5)
        }
    } else {
        memoized_bool(data, id, pos + 1)
    }
}

/// The first truth value behind a reference to any of the numbers from `from` on.
pub open spec fn first_memoized_bool(data: Seq<u8>, ids: Seq<usize>, from: nat) -> Option<bool>
    decreases ids.len() - from,
{
    if from >= ids.len() {
        None
    } else if memoized_bool(data, ids[from as int], 0) is Some {
        memoized_bool(data, ids[from as int], 0)
    } else {
        first_memoized_bool(data, ids, from + 1)
    }
}

fn find_memoized_bool(data: &[u8], id: usize) -> (r: Option<bool>)
    ensures
        r == memoized_bool(data@, id, 0),
{
    let total: usize = data.len();
    let mut pos: usize = 0;
    while pos < total
        invariant
            pos <= total,
            total == data@.len(),
            memoized_bool(data@, id, 0) == memoized_bool(data@, id, pos as int),
        decreases total - pos,
    {
        let left: usize = total - pos;
        if data[pos] == 0x68 && left > 1 && data[pos + 1] == id as u8 {
            pos = pos + 2;
            let value: Option<bool> = read_pickle_bool(data, pos);
            if value.is_some() {
                return value;
            }
        } else if data[pos] == 0x6a && left >= 5 && le_u32_at(data, pos + 1) as usize == id {
            pos = pos + 5;
            let value: Option<bool> = read_pickle_bool(data, pos);
            if value.is_some() {
                return value;
            }
        } else {
            pos = pos + 1;
        }
    }
    None
}

/// The place behind a key, if it occurs.
pub open spec fn key_end(data: Seq<u8>, key: Seq<u8>) -> Option<int> {
    if exists|p: int| text_at(data, key, p) {
        Some(first_place(data, key, 0) + 5 + key.len())
    } else {
        None
    }
}

/// The first place of a text from `from` on.
pub open spec fn first_place(data: Seq<u8>, text: Seq<u8>, from: int) -> int
    decreases data.len() - from,
{
    if from >= data.len() || text_at(data, text, from) {
        from
    } else {
        first_place(data, text, from + 1)
    }
}

proof fn first_place_is(data: Seq<u8>, text: Seq<u8>, from: int, p: int)
    requires
        from <= p,
        text_at(data, text, p),
        forall|q: int| from <= q < p ==> !text_at(data, text, q),
    ensures
        first_place(data, text, from) == p,
    decreases p - from,
{
    if from < p {
        first_place_is(data, text, from + 1, p);
    }
}

/// The numbers from `pos` on up to the mark `t`; nothing if something else comes first.
pub open spec fn ints_from(data: Seq<u8>, pos: int) -> Option<Seq<int>>
    decreases data.len() - pos,
{
    if pos >= data.len() {
        None
    } else if data[pos] == 0x74 {
        Some(Seq::empty())
    } else {
        match int_at(data, pos) {
            (Some(value), next) => match ints_from(data, next) {
                Some(rest) => Some(seq![value] + rest),
                None => None,
            },
            (None, _) => None,
        }
    }
}

pub open spec fn ints_view(values: Option<Vec<i64>>) -> Option<Seq<int>> {
    match values {
        Some(v) => Some(Seq::new(v@.len(), |i: int| v@[i] as int)),
        None => None,
    }
}

/// The value of a field, as the kind of value that is asked for.
pub open spec fn string_field(data: Seq<u8>, key: Seq<u8>) -> Option<Seq<char>> {
    match key_end(data, key) {
        Some(end) => string_at(data, behind_memo(data, end)).0,
        None => None,
    }
}

pub open spec fn int_field(data: Seq<u8>, key: Seq<u8>) -> Option<int> {
    match key_end(data, key) {
        Some(end) => int_at(data, behind_memo(data, end)).0,
        None => None,
    }
}

pub open spec fn number_field(data: Seq<u8>, key: Seq<u8>) -> Option<NumberModel> {
    match key_end(data, key) {
        Some(end) => number_at(data, behind_memo(data, end)).0,
        None => None,
    }
}

/// Directly behind the key, else behind a reference to it.
pub open spec fn bool_field(data: Seq<u8>, key: Seq<u8>) -> Option<bool> {
    match key_end(data, key) {
        Some(end) => if bool_at(data, behind_memo(data, end)) is Some {
            bool_at(data, behind_memo(data, end))
        } else {
            first_memoized_bool(data, memo_ids(data, key, data.len()), 0)
        },
        None => None,
    }
}

/// Between the marks `(` and `t`.
pub open spec fn int_tuple_field(data: Seq<u8>, key: Seq<u8>) -> Option<Seq<int>> {
    match key_end(data, key) {
        Some(end) => {
            let pos = behind_memo(data, end);
            if pos < data.len() && data[pos] == 0x28 {
                ints_from(data, pos + 1)
            } else {
                None
            }
        },
        None => None,
    }
}

/// A pickled dictionary and the binary arrays that go with it.
#[derive(Debug)]
pub struct ParsedPt {
    pub pkl: Vec<u8>,
    pub storages: Vec<Vec<u8>>,
}

impl ParsedPt {
    /// The place behind a key.
    pub fn after_key(&self, key: &str) -> (r: Option<usize>)
        ensures
            match r {
                Some(end) => key_end(self.pkl@, key.spec_bytes()) == Some(end as int),
                None => key_end(self.pkl@, key.spec_bytes()) is None,
            },
    {
        let total: usize = self.pkl.len();
        match find_binunicode(self.pkl.as_slice(), key) {
            Some(p) => {
                proof {
                    first_place_is(self.pkl@, key.spec_bytes(), 0, p as int);
                }
                Some(p + 5 + key.len())
            },
            None => None,
        }
    }

    pub fn string_field(&self, key: &str) -> (r: Option<String>)
        ensures
            text_view(r) == string_field(self.pkl@, key.spec_bytes()),
    {
        match self.after_key(key) {
            Some(end) => {
                let mut pos: usize = end;
                skip_binput(self.pkl.as_slice(), &mut pos);
                read_binunicode(self.pkl.as_slice(), &mut pos)
            },
            None => None,
        }
    }

    pub fn int_field(&self, key: &str) -> (r: Option<i64>)
        ensures
            match r {
                Some(v) => int_field(self.pkl@, key.spec_bytes()) == Some(v as int),
                None => int_field(self.pkl@, key.spec_bytes()) is None,
            },
    {
        match self.after_key(key) {
            Some(end) => {
                let mut pos: usize = end;
                skip_binput(self.pkl.as_slice(), &mut pos);
                read_pickle_int(self.pkl.as_slice(), &mut pos)
            },
            None => None,
        }
    }

    pub fn float_field(&self, key: &str) -> (r: Option<PickleNumber>)
        ensures
            number_view(r) == number_field(self.pkl@, key.spec_bytes()),
    {
        match self.after_key(key) {
            Some(end) => {
                let mut pos: usize = end;
                skip_binput(self.pkl.as_slice(), &mut pos);
                read_pickle_float(self.pkl.as_slice(), &mut pos)
            },
            None => None,
        }
    }

    pub fn bool_field(&self, key: &str) -> (r: Option<bool>)
        ensures
            r == bool_field(self.pkl@, key.spec_bytes()),
    {
        match self.after_key(key) {
            Some(end) => {
                let mut pos: usize = end;
                skip_binput(self.pkl.as_slice(), &mut pos);
                let direct: Option<bool> = read_pickle_bool(self.pkl.as_slice(), pos);
                if direct.is_some() {
                    return direct;
                }
                self.memoized_bool_field(key)
            },
            None => None,
        }
    }

    /// The truth value behind a reference to a key.
    pub fn memoized_bool_field(&self, key: &str) -> (r: Option<bool>)
        ensures
            r == first_memoized_bool(
                self.pkl@,
                memo_ids(self.pkl@, key.spec_bytes(), self.pkl@.len()),
                0,
            ),
    {
        let ids: Vec<usize> = binunicode_memo_ids(self.pkl.as_slice(), key);
        for i in 0..ids.len()
            invariant
                ids@ == memo_ids(self.pkl@, key.spec_bytes(), self.pkl@.len()),
                first_memoized_bool(self.pkl@, ids@, 0) == first_memoized_bool(
                    self.pkl@,
                    ids@,
                    i as nat,
                ),
        {
            let value: Option<bool> = find_memoized_bool(self.pkl.as_slice(), ids[i]);
            if value.is_some() {
                return value;
            }
        }
        None
    }

    pub fn int_tuple_field(&self, key: &str) -> (r: Option<Vec<i64>>)
        ensures
            ints_view(r) == int_tuple_field(self.pkl@, key.spec_bytes()),
    {
        let data: &[u8] = self.pkl.as_slice();
        let total: usize = data.len();
        let mut pos: usize = match self.after_key(key) {
            Some(end) => end,
            None => {
                return None;
            },
        };
        skip_binput(data, &mut pos);
        if pos >= total || data[pos] != 0x28 {
            return None;
        }
        pos = pos + 1;
        let ghost start = pos as int;
        let mut values: Vec<i64> = Vec::new();
        let ghost mut read: Seq<int> = Seq::empty();
        while pos < total
            invariant
                pos <= total,
                total == data@.len(),
                data@ == self.pkl@,
                read == Seq::new(values@.len(), |i: int| values@[i] as int),
                int_tuple_field(self.pkl@, key.spec_bytes()) == ints_from(data@, start),
                ints_from(data@, start) == match ints_from(data@, pos as int) {
                    Some(rest) => Some(read + rest),
                    None => None,
                },
            decreases total - pos,
        {
            if data[pos] == 0x74 {
                proof {
                    assert(read + Seq::<int>::empty() =~= read);
                }
                return Some(values);
            }
            let ghost at = pos as int;
            match read_pickle_int(data, &mut pos) {
                Some(value) => {
                    values.push(value);
                    proof {
                        let more = read.push(value as int);
                        if let Some(rest) = ints_from(data@, pos as int) {
                            assert(read + (seq![value as int] + rest) =~= more + rest);
                        }
                        read = more;
                        assert(read =~= Seq::new(values@.len(), |i: int| values@[i] as int));
                    }
                },
                None => {
                    return None;
                },
            }
        }
        None
    }
}

} // verus!
