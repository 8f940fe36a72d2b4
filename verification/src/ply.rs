//! The header of a binary PLY file, the columns a splat cloud needs of it, and its rows.

use crate::name_match::parse_usize;
use crate::text::chars_of;
use vstd::prelude::*;
use vstd::string::*;

verus! {

/// Lines after which a header without an end is given up.
pub const MAX_HEADER_LINES: usize = 256;

/// The scalar types of a PLY property.
#[derive(Clone, Copy, Debug, PartialEq, Eq, Structural)]
pub enum PlyScalarType {
    Char,
    UChar,
    Short,
    UShort,
    Int,
    UInt,
    Float,
    Double,
}

/// A property of a vertex row.
#[derive(Clone, Debug)]
pub struct PlyPropertySpec {
    pub name: Vec<u8>,
    pub data_type: PlyScalarType,
    pub byte_offset: usize,
}

/// What the header of a PLY file says of its vertices.
#[derive(Clone, Debug)]
pub struct PlyHeader {
    pub file_header_size: usize,
    pub splat_count: usize,
    pub row_stride: usize,
    pub properties: Vec<PlyPropertySpec>,
}

/// Why a header is refused.
#[derive(Clone, Debug)]
pub enum PlyHeaderError {
    NotFormatted,
    VertexCount { token: Vec<u8> },
    PropertySyntax { line: Vec<u8> },
    ScalarType { token: Vec<u8> },
    NotBinaryLittleEndian,
    NoProperties,
}

/// The text that bytes encode in UTF-8, nothing if they encode none.
pub open spec fn utf8_text(bytes: Seq<u8>) -> Seq<char> {
    if vstd::utf8::valid_utf8(bytes) {
        vstd::utf8::decode_utf8(bytes)
    } else {
        Seq::empty()
    }
}

fn quoted(before: &str, bytes: &Vec<u8>) -> (r: String)
    ensures
        r@ == before@ + utf8_text(bytes@) + "'"@,
{
    let mut s: String = before.to_owned();
    if let Some(text) = crate::pickle::text_from_utf8(bytes.as_slice()) {
        s.append(text.as_str());
    }
    assert(s@ =~= before@ + utf8_text(bytes@));
    s.append("'");
    s
}

impl PlyHeaderError {
    pub open spec fn text(self) -> Seq<char> {
        match self {
            PlyHeaderError::NotFormatted => {
                "Scene::parse_file_header(): ERROR: the file is not correctly formatted."@
            },
            PlyHeaderError::VertexCount { token } => {
                "Scene::parse_file_header(): invalid vertex count '"@ + utf8_text(token@) + "'"@
            },
            PlyHeaderError::PropertySyntax { line } => {
                "Scene::parse_file_header(): unsupported vertex property syntax '"@ + utf8_text(
                    line@,
                ) + "'"@
            },
            PlyHeaderError::ScalarType { token } => {
                "Scene::parse_file_header(): unsupported PLY scalar type '"@ + utf8_text(token@)
                    + "'"@
            },
            PlyHeaderError::NotBinaryLittleEndian => {
                "Scene::parse_file_header(): only binary_little_endian PLY is supported."@
            },
            PlyHeaderError::NoProperties => {
                "Scene::parse_file_header(): vertex element has no scalar properties."@
            },
        }
    }

    /// The error in words.
    pub fn message(&self) -> (r: String)
        ensures
            r@ == self.text(),
    {
        match self {
            PlyHeaderError::NotFormatted => {
                "Scene::parse_file_header(): ERROR: the file is not correctly formatted.".to_owned()
            },
            PlyHeaderError::VertexCount { token } => {
                quoted("Scene::parse_file_header(): invalid vertex count '", token)
            },
            PlyHeaderError::PropertySyntax { line } => {
                quoted("Scene::parse_file_header(): unsupported vertex property syntax '", line)
            },
            PlyHeaderError::ScalarType { token } => {
                quoted("Scene::parse_file_header(): unsupported PLY scalar type '", token)
            },
            PlyHeaderError::NotBinaryLittleEndian => {
                "Scene::parse_file_header(): only binary_little_endian PLY is supported.".to_owned()
            },
            PlyHeaderError::NoProperties => {
                "Scene::parse_file_header(): vertex element has no scalar properties.".to_owned()
            },
        }
    }
}

/// The same, over the contents of the texts.
pub enum HeaderFault {
    NotFormatted,
    VertexCount(Seq<u8>),
    PropertySyntax(Seq<u8>),
    ScalarType(Seq<u8>),
    NotBinaryLittleEndian,
    NoProperties,
}

impl PlyHeaderError {
    pub open spec fn fault(self) -> HeaderFault {
        match self {
            PlyHeaderError::NotFormatted => HeaderFault::NotFormatted,
            PlyHeaderError::VertexCount { token } => HeaderFault::VertexCount(token@),
            PlyHeaderError::PropertySyntax { line } => HeaderFault::PropertySyntax(line@),
            PlyHeaderError::ScalarType { token } => HeaderFault::ScalarType(token@),
            PlyHeaderError::NotBinaryLittleEndian => HeaderFault::NotBinaryLittleEndian,
            PlyHeaderError::NoProperties => HeaderFault::NoProperties,
        }
    }
}

/// Bytes read as characters of the same number.
pub open spec fn latin(s: Seq<u8>) -> Seq<char> {
    Seq::new(s.len(), |i: int| s[i] as char)
}

/// Whether bytes spell an ASCII text.
pub fn spells(bytes: &[u8], text: &str) -> (r: bool)
    ensures
        r == (latin(bytes@) == text@),
{
    let chars: Vec<char> = chars_of(text);
    if bytes.len() != chars.len() {
        assert(latin(bytes@).len() != text@.len());
        return false;
    }
    for i in 0..bytes.len()
        invariant
            bytes@.len() == chars@.len(),
            chars@ == text@,
            forall|k: int| 0 <= k < i ==> latin(bytes@)[k] == text@[k],
    {
        if bytes[i] as char != chars[i] {
            assert(latin(bytes@)[i as int] != text@[i as int]);
            return false;
        }
    }
    assert(latin(bytes@) =~= text@);
    true
}

/// Whether bytes start with an ASCII text.
pub fn spells_start(bytes: &[u8], text: &str) -> (r: bool)
    ensures
        r == text@.is_prefix_of(latin(bytes@)),
{
    let chars: Vec<char> = chars_of(text);
    if bytes.len() < chars.len() {
        return false;
    }
    for i in 0..chars.len()
        invariant
            bytes@.len() >= chars@.len(),
            chars@ == text@,
            forall|k: int| 0 <= k < i ==> latin(bytes@)[k] == text@[k],
    {
        if bytes[i] as char != chars[i] {
            assert(latin(bytes@)[i as int] != text@[i as int]);
            return false;
        }
    }
    assert(latin(bytes@).subrange(0, text@.len() as int) =~= text@);
    true
}

fn part(bytes: &[u8], from: usize, to: usize) -> (r: Vec<u8>)
    requires
        from <= to <= bytes@.len(),
    ensures
        r@ == bytes@.subrange(from as int, to as int),
{
    let mut out: Vec<u8> = Vec::new();
    for i in from..to
        invariant
            from <= i <= to <= bytes@.len(),
            out@ == bytes@.subrange(from as int, i as int),
    {
        out.push(bytes[i]);
        assert(out@ =~= bytes@.subrange(from as int, i + 1));
    }
    out
}

/// The number that bytes spell, if they spell one.
pub open spec fn spelled_number(s: Seq<u8>) -> Option<usize> {
    crate::name_match::usize_value(latin(s))
}

fn read_number(bytes: &[u8]) -> (r: Option<usize>)
    ensures
        r == spelled_number(bytes@),
{
    let mut chars: Vec<char> = Vec::new();
    for i in 0..bytes.len()
        invariant
            chars@ == latin(bytes@.take(i as int)),
    {
        chars.push(bytes[i] as char);
        assert(chars@ =~= latin(bytes@.take(i + 1)));
    }
    assert(bytes@.take(bytes@.len() as int) =~= bytes@);
    parse_usize(chars.as_slice())
}

/// The end of the line that starts at `from`: behind its line feed, or the end of the data.
pub open spec fn line_end(s: Seq<u8>, from: int) -> int
    decreases s.len() - from,
{
    if from >= s.len() {
        s.len() as int
    } else if s[from] == 10 {
        from + 1
    } else {
        line_end(s, from + 1)
    }
}

proof fn line_end_in_range(s: Seq<u8>, from: int)
    requires
        0 <= from <= s.len(),
    ensures
        from <= line_end(s, from) <= s.len(),
    decreases s.len() - from,
{
    if from < s.len() && s[from] != 10 {
        line_end_in_range(s, from + 1);
    }
}

fn find_line_end(bytes: &[u8], from: usize) -> (r: usize)
    requires
        from <= bytes@.len(),
    ensures
        r == line_end(bytes@, from as int),
        from <= r <= bytes@.len(),
{
    let mut i: usize = from;
    while i < bytes.len()
        invariant
            from <= i <= bytes@.len(),
            line_end(bytes@, from as int) == line_end(bytes@, i as int),
        decreases bytes@.len() - i,
    {
        if bytes[i] == 10 {
            return i + 1;
        }
        i = i + 1;
    }
    i
}

/// Bytes of the white-space character at the end of UTF-8 text; 0 if it ends in another character.
pub open spec fn trailing_space(s: Seq<u8>) -> int {
    let n = s.len() as int;
    if n >= 1 && (9 <= s[n - 1] <= 13 || s[n - 1] == 0x20) {
        1
    } else if n >= 2 && s[n - 2] == 0xc2 && (s[n - 1] == 0x85 || s[n - 1] == 0xa0) {
        2
    } else if n >= 3 && ((s[n - 3] == 0xe1 && s[n - 2] == 0x9a && s[n - 1] == 0x80) || (s[n - 3]
        == 0xe2 && s[n - 2] == 0x80 && (0x80 <= s[n - 1] <= 0x8a || s[n - 1] == 0xa8 || s[n - 1]
        == 0xa9 || s[n - 1] == 0xaf)) || (s[n - 3] == 0xe2 && s[n - 2] == 0x81 && s[n - 1] == 0x9f)
        || (s[n - 3] == 0xe3 && s[n - 2] == 0x80 && s[n - 1] == 0x80)) {
        3
    } else {
        0
    }
}

/// Text without the white space at its end.
pub open spec fn trimmed_end(s: Seq<u8>) -> Seq<u8>
    decreases s.len(),
{
    if trailing_space(s) > 0 {
        trimmed_end(s.take(s.len() - trailing_space(s)))
    } else {
        s
    }
}

fn trim_end(line: &Vec<u8>) -> (r: Vec<u8>)
    ensures
        r@ == trimmed_end(line@),
{
    let mut n: usize = line.len();
    assert(line@.take(n as int) =~= line@);
    loop
        invariant
            n <= line@.len(),
            trimmed_end(line@) == trimmed_end(line@.take(n as int)),
        ensures
            n <= line@.len(),
            trimmed_end(line@) == line@.take(n as int),
        decreases n,
    {
        let ghost cur = line@.take(n as int);
        let mut width: usize = 0;
        if n >= 1 && ((line[n - 1] >= 9 && line[n - 1] <= 13) || line[n - 1] == 0x20) {
            width = 1;
        } else if n >= 2 && line[n - 2] == 0xc2 && (line[n - 1] == 0x85 || line[n - 1] == 0xa0) {
            width = 2;
        } else if n >= 3 && ((line[n - 3] == 0xe1 && line[n - 2] == 0x9a && line[n - 1] == 0x80)
            || (line[n - 3] == 0xe2 && line[n - 2] == 0x80 && ((line[n - 1] >= 0x80 && line[n - 1]
            <= 0x8a) || line[n - 1] == 0xa8 || line[n - 1] == 0xa9 || line[n - 1] == 0xaf)) || (
        line[n - 3] == 0xe2 && line[n - 2] == 0x81 && line[n - 1] == 0x9f) || (line[n - 3] == 0xe3
            && line[n - 2] == 0x80 && line[n - 1] == 0x80)) {
            width = 3;
        }
        assert(width == trailing_space(cur));
        if width == 0 {
            break ;
        }
        assert(cur.take(n - width) =~= line@.take(n - width));
        n = n - width;
    }
    part(line.as_slice(), 0, n)
}

/// The ASCII characters that separate tokens.
pub open spec fn separator(b: u8) -> bool {
    b == 0x20 || b == 9 || b == 10 || b == 12 || b == 13
}

pub open spec fn token_start(s: Seq<u8>, from: int) -> int
    decreases s.len() - from,
{
    if from < s.len() && separator(s[from]) {
        token_start(s, from + 1)
    } else {
        from
    }
}

pub open spec fn token_end(s: Seq<u8>, from: int) -> int
    decreases s.len() - from,
{
    if from < s.len() && !separator(s[from]) {
        token_end(s, from + 1)
    } else {
        from
    }
}

/// The tokens of a line from `from` on.
pub open spec fn tokens(s: Seq<u8>, from: int) -> Seq<Seq<u8>>
    decreases s.len() - from,
    via tokens_shrink
{
    let a = token_start(s, from);
    if a >= s.len() {
        Seq::empty()
    } else {
        seq![s.subrange(a, token_end(s, a))] + tokens(s, token_end(s, a))
    }
}

#[via_fn]
proof fn tokens_shrink(s: Seq<u8>, from: int) {
    let a = token_start(s, from);
    token_start_in_range(s, from);
    if a < s.len() {
        token_end_in_range(s, a);
    }
}

proof fn token_start_in_range(s: Seq<u8>, from: int)
    ensures
        from <= token_start(s, from),
        from <= s.len() ==> token_start(s, from) <= s.len(),
        token_start(s, from) < s.len() ==> !separator(s[token_start(s, from)]),
    decreases s.len() - from,
{
    if from < s.len() && separator(s[from]) {
        token_start_in_range(s, from + 1);
    }
}

proof fn token_end_in_range(s: Seq<u8>, from: int)
    ensures
        from <= token_end(s, from),
        from <= s.len() ==> token_end(s, from) <= s.len(),
        from < s.len() && !separator(s[from]) ==> from < token_end(s, from),
    decreases s.len() - from,
{
    if from < s.len() && !separator(s[from]) {
        token_end_in_range(s, from + 1);
    }
}

pub open spec fn token_views(v: Seq<Vec<u8>>) -> Seq<Seq<u8>> {
    Seq::new(v.len(), |i: int| v[i]@)
}

fn is_separator(b: u8) -> (r: bool)
    ensures
        r == separator(b),
{
    b == 0x20 || b == 9 || b == 10 || b == 12 || b == 13
}

fn split_tokens(line: &Vec<u8>) -> (r: Vec<Vec<u8>>)
    ensures
        token_views(r@) == tokens(line@, 0),
{
    let mut out: Vec<Vec<u8>> = Vec::new();
    let mut at: usize = 0;
    let n: usize = line.len();
    loop
        invariant
            at <= n,
            n == line@.len(),
            tokens(line@, 0) == token_views(out@) + tokens(line@, at as int),
        ensures
            tokens(line@, 0) == token_views(out@),
        decreases n - at,
    {
        let mut a: usize = at;
        while a < n && is_separator(line[a])
            invariant
                at <= a <= n,
                n == line@.len(),
                token_start(line@, at as int) == token_start(line@, a as int),
            decreases n - a,
        {
            a = a + 1;
        }
        assert(a == token_start(line@, at as int));
        if a == n {
            assert(token_views(out@) + tokens(line@, at as int) =~= token_views(out@));
            break ;
        }
        let mut b: usize = a;
        while b < n && !is_separator(line[b])
            invariant
                a <= b <= n,
                n == line@.len(),
                token_end(line@, a as int) == token_end(line@, b as int),
            decreases n - b,
        {
            b = b + 1;
        }
        proof {
            token_start_in_range(line@, at as int);
            token_end_in_range(line@, a as int);
        }
        let token: Vec<u8> = part(line.as_slice(), a, b);
        let ghost before = token_views(out@);
        out.push(token);
        assert(token_views(out@) =~= before.push(line@.subrange(a as int, b as int)));
        assert(before + tokens(line@, at as int) =~= token_views(out@) + tokens(line@, b as int));
        at = b;
    }
    assert(token_views(out@) =~= tokens(line@, 0));
    out
}

impl PlyScalarType {
    /// The type a token names.
    pub open spec fn named(token: Seq<char>) -> Option<PlyScalarType> {
        if token == "char"@ || token == "int8"@ {
            Some(PlyScalarType::Char)
        } else if token == "uchar"@ || token == "uint8"@ {
            Some(PlyScalarType::UChar)
        } else if token == "short"@ || token == "int16"@ {
            Some(PlyScalarType::Short)
        } else if token == "ushort"@ || token == "uint16"@ {
            Some(PlyScalarType::UShort)
        } else if token == "int"@ || token == "int32"@ {
            Some(PlyScalarType::Int)
        } else if token == "uint"@ || token == "uint32"@ {
            Some(PlyScalarType::UInt)
        } else if token == "float"@ || token == "float32"@ {
            Some(PlyScalarType::Float)
        } else if token == "double"@ || token == "float64"@ {
            Some(PlyScalarType::Double)
        } else {
            None
        }
    }

    /// The scalar type that a header token names.
    pub fn from_token(token: &[u8]) -> (r: Option<PlyScalarType>)
        ensures
            r == PlyScalarType::named(latin(token@)),
    {
        if spells(token, "char") || spells(token, "int8") {
            Some(PlyScalarType::Char)
        } else if spells(token, "uchar") || spells(token, "uint8") {
            Some(PlyScalarType::UChar)
        } else if spells(token, "short") || spells(token, "int16") {
            Some(PlyScalarType::Short)
        } else if spells(token, "ushort") || spells(token, "uint16") {
            Some(PlyScalarType::UShort)
        } else if spells(token, "int") || spells(token, "int32") {
            Some(PlyScalarType::Int)
        } else if spells(token, "uint") || spells(token, "uint32") {
            Some(PlyScalarType::UInt)
        } else if spells(token, "float") || spells(token, "float32") {
            Some(PlyScalarType::Float)
        } else if spells(token, "double") || spells(token, "float64") {
            Some(PlyScalarType::Double)
        } else {
            None
        }
    }

    pub open spec fn width(self) -> usize {
        match self {
            PlyScalarType::Char => 1,
            PlyScalarType::UChar => 1,
            PlyScalarType::Short => 2,
            PlyScalarType::UShort => 2,
            PlyScalarType::Int => 4,
            PlyScalarType::UInt => 4,
            PlyScalarType::Float => 4,
            PlyScalarType::Double => 8,
        }
    }

    /// Bytes of a value of this type.
    pub fn byte_size(self) -> (r: usize)
        ensures
            r == self.width(),
            1 <= r <= 8,
    {
        match self {
            PlyScalarType::Char => 1,
            PlyScalarType::UChar => 1,
            PlyScalarType::Short => 2,
            PlyScalarType::UShort => 2,
            PlyScalarType::Int => 4,
            PlyScalarType::UInt => 4,
            PlyScalarType::Float => 4,
            PlyScalarType::Double => 8,
        }
    }
}

/// A property over the contents of its name.
pub struct Column {
    pub name: Seq<u8>,
    pub data_type: PlyScalarType,
    pub offset: int,
}

impl PlyPropertySpec {
    pub open spec fn column(self) -> Column {
        Column { name: self.name@, data_type: self.data_type, offset: self.byte_offset as int }
    }
}

pub open spec fn columns(properties: Seq<PlyPropertySpec>) -> Seq<Column> {
    Seq::new(properties.len(), |i: int| properties[i].column())
}

/// What the lines read so far say.
pub struct HeaderState {
    pub splat_count: usize,
    pub stride: int,
    pub columns: Seq<Column>,
    pub in_vertex: bool,
    pub little_endian: bool,
}

pub open spec fn header_start() -> HeaderState {
    HeaderState {
        splat_count: 0,
        stride: 0,
        columns: Seq::empty(),
        in_vertex: false,
        little_endian: false,
    }
}

/// What one line adds.
pub open spec fn header_line(state: HeaderState, raw: Seq<u8>) -> Result<HeaderState, HeaderFault> {
    let line = trimmed_end(raw);
    let t = tokens(line, 0);
    if "format "@.is_prefix_of(latin(line)) {
        if t.len() >= 2 && latin(t[1]) == "binary_little_endian"@ {
            Ok(HeaderState { little_endian: true, ..state })
        } else {
            Ok(state)
        }
    } else if "element "@.is_prefix_of(latin(line)) {
        if t.len() != 3 {
            Ok(state)
        } else if latin(t[1]) != "vertex"@ {
            Ok(HeaderState { in_vertex: false, ..state })
        } else {
            match spelled_number(t[2]) {
                Some(count) => Ok(HeaderState { in_vertex: true, splat_count: count, ..state }),
                None => Err(HeaderFault::VertexCount(t[2])),
            }
        }
    } else if "property "@.is_prefix_of(latin(line)) && state.in_vertex {
        if t.len() != 3 || latin(t[1]) == "list"@ {
            Err(HeaderFault::PropertySyntax(line))
        } else {
            match PlyScalarType::named(latin(t[1])) {
                Some(data_type) => Ok(
                    HeaderState {
                        columns: state.columns.push(
                            Column { name: t[2], data_type, offset: state.stride },
                        ),
                        stride: state.stride + data_type.width(),
                        ..state
                    },
                ),
                None => Err(HeaderFault::ScalarType(t[1])),
            }
        }
    } else {
        Ok(state)
    }
}

pub open spec fn ends_header(line: Seq<u8>) -> bool {
    latin(line) == "end_header\n"@ || latin(line) == "end_header\r\n"@
}

/// Reads lines from `from` on until the header ends: what they say and where they end.
pub open spec fn header_lines(bytes: Seq<u8>, from: int, index: nat, state: HeaderState) -> Result<
    (HeaderState, int),
    HeaderFault,
>
    decreases MAX_HEADER_LINES + 1 - index,
{
    let end = line_end(bytes, from);
    let line = bytes.subrange(from, end);
    if ends_header(line) {
        Ok((state, end))
    } else {
        match header_line(state, line) {
            Err(fault) => Err(fault),
            Ok(next) => if index >= MAX_HEADER_LINES {
                Err(HeaderFault::NotFormatted)
            } else {
                header_lines(bytes, end, index + 1, next)
            },
        }
    }
}

/// The header of a file.
pub open spec fn header_of(bytes: Seq<u8>) -> Result<(HeaderState, int), HeaderFault> {
    match header_lines(bytes, 0, 0, header_start()) {
        Err(fault) => Err(fault),
        Ok((state, end)) => if !state.little_endian {
            Err(HeaderFault::NotBinaryLittleEndian)
        } else if state.columns.len() == 0 || state.stride == 0 {
            Err(HeaderFault::NoProperties)
        } else {
            Ok((state, end))
        },
    }
}

/// Columns follow each other without gaps and fill the row.
pub open spec fn columns_tile_row(columns: Seq<Column>, stride: int) -> bool {
    &&& columns.len() > 0 ==> columns[0].offset == 0
    &&& columns.len() == 0 ==> stride == 0
    &&& columns.len() > 0 ==> columns.last().offset + columns.last().data_type.width() == stride
    &&& forall|i: int|
        0 < i < columns.len() ==> (#[trigger] columns[i]).offset == columns[i - 1].offset
            + columns[i - 1].data_type.width()
}

proof fn columns_stay_tiled(
    before: Seq<Column>,
    before_stride: int,
    after: Seq<Column>,
    stride: int,
)
    requires
        columns_tile_row(before, before_stride),
        after == before && stride == before_stride || {
            &&& after.len() == before.len() + 1
            &&& after.drop_last() == before
            &&& after.last().offset == before_stride
            &&& stride == before_stride + after.last().data_type.width()
        },
    ensures
        columns_tile_row(after, stride),
{
    if after.len() > before.len() {
        assert forall|i: int| 0 < i < after.len() implies (#[trigger] after[i]).offset == after[i
            - 1].offset + after[i - 1].data_type.width() by {
            assert(after[i - 1] == after.drop_last()[i - 1]);
            if i < before.len() {
                assert(after[i] == after.drop_last()[i]);
            }
        }
        if before.len() > 0 {
            assert(after[0] == after.drop_last()[0]);
        }
    }
}

/// A line adds at most one column, behind the others.
proof fn header_line_extends(state: HeaderState, raw: Seq<u8>)
    ensures
        match header_line(state, raw) {
            Ok(next) => next.columns == state.columns && next.stride == state.stride || {
                &&& next.columns.len() == state.columns.len() + 1
                &&& next.columns.drop_last() == state.columns
                &&& next.columns.last().offset == state.stride
                &&& next.stride == state.stride + next.columns.last().data_type.width()
            },
            Err(_) => true,
        },
{
    match header_line(state, raw) {
        Ok(next) => {
            if next.columns.len() > state.columns.len() {
                assert(next.columns.drop_last() =~= state.columns);
            }
        },
        Err(_) => {},
    }
}

fn read_header_line(
    raw: &Vec<u8>,
    splat_count: &mut usize,
    stride: &mut usize,
    properties: &mut Vec<PlyPropertySpec>,
    in_vertex: &mut bool,
    little_endian: &mut bool,
) -> (r: Result<(), PlyHeaderError>)
    requires
        *old(stride) + 8 <= usize::MAX,
    ensures
        ({
            let state = HeaderState {
                splat_count: *old(splat_count),
                stride: *old(stride) as int,
                columns: columns(old(properties)@),
                in_vertex: *old(in_vertex),
                little_endian: *old(little_endian),
            };
            match r {
                Ok(_) => header_line(state, raw@) == Ok::<HeaderState, HeaderFault>(
                    HeaderState {
                        splat_count: *final(splat_count),
                        stride: *final(stride) as int,
                        columns: columns(final(properties)@),
                        in_vertex: *final(in_vertex),
                        little_endian: *final(little_endian),
                    },
                ),
                Err(error) => header_line(state, raw@) == Err::<HeaderState, HeaderFault>(
                    error.fault(),
                ),
            }
        }),
        *old(stride) <= *final(stride) <= *old(stride) + 8,
{
    let line: Vec<u8> = trim_end(raw);
    if spells_start(line.as_slice(), "format ") {
        let t: Vec<Vec<u8>> = split_tokens(&line);
        assert(token_views(t@).len() == t@.len());
        if t.len() >= 2 {
            assert(token_views(t@)[1] == t@[1]@);
            if spells(t[1].as_slice(), "binary_little_endian") {
                *little_endian = true;
            }
        }
    } else if spells_start(line.as_slice(), "element ") {
        let t: Vec<Vec<u8>> = split_tokens(&line);
        assert(token_views(t@).len() == t@.len());
        if t.len() == 3 {
            assert(token_views(t@)[1] == t@[1]@);
            assert(token_views(t@)[2] == t@[2]@);
            *in_vertex = spells(t[1].as_slice(), "vertex");
            if *in_vertex {
                match read_number(t[2].as_slice()) {
                    Some(count) => {
                        *splat_count = count;
                    },
                    None => {
                        let token: Vec<u8> = part(t[2].as_slice(), 0, t[2].len());
                        assert(token@ =~= t@[2]@);
                        return Err(PlyHeaderError::VertexCount { token });
                    },
                }
            }
        }
    } else if *in_vertex && spells_start(line.as_slice(), "property ") {
        let t: Vec<Vec<u8>> = split_tokens(&line);
        assert(token_views(t@).len() == t@.len());
        if t.len() != 3 {
            return Err(PlyHeaderError::PropertySyntax { line });
        }
        assert(token_views(t@)[1] == t@[1]@);
        assert(token_views(t@)[2] == t@[2]@);
        if spells(t[1].as_slice(), "list") {
            return Err(PlyHeaderError::PropertySyntax { line });
        }
        match PlyScalarType::from_token(t[1].as_slice()) {
            Some(data_type) => {
                let name: Vec<u8> = part(t[2].as_slice(), 0, t[2].len());
                assert(name@ =~= t@[2]@);
                let ghost before = columns(properties@);
                properties.push(PlyPropertySpec { name, data_type, byte_offset: *stride });
                *stride = *stride + data_type.byte_size();
                assert(columns(properties@) =~= before.push(properties@.last().column()));
            },
            None => {
                let token: Vec<u8> = part(t[1].as_slice(), 0, t[1].len());
                assert(token@ =~= t@[1]@);
                return Err(PlyHeaderError::ScalarType { token });
            },
        }
    }
    Ok(())
}

/// Reads the header of a PLY file, up to its `end_header` line.
#[verifier::rlimit(40)]
pub fn parse_file_header(bytes: &[u8]) -> (r: Result<PlyHeader, PlyHeaderError>)
    requires
        vstd::utf8::valid_utf8(header_text(bytes@)),
    ensures
        match r {
            Ok(header) => {
                &&& header_of(bytes@) is Ok
                &&& header.splat_count == (header_of(bytes@)->Ok_0).0.splat_count
                &&& header.row_stride == (header_of(bytes@)->Ok_0).0.stride
                &&& columns(header.properties@) == (header_of(bytes@)->Ok_0).0.columns
                &&& header.file_header_size == (header_of(bytes@)->Ok_0).1
                &&& header.file_header_size <= bytes@.len()
                &&& columns_tile_row(columns(header.properties@), header.row_stride as int)
                &&& header.properties@.len() > 0
            },
            Err(error) => header_of(bytes@) == Err::<(HeaderState, int), HeaderFault>(
                error.fault(),
            ),
        },
{
    let mut splat_count: usize = 0;
    let mut stride: usize = 0;
    let mut properties: Vec<PlyPropertySpec> = Vec::new();
    let mut in_vertex: bool = false;
    let mut little_endian: bool = false;
    let mut from: usize = 0;
    let mut index: usize = 0;
    assert(columns(properties@) =~= Seq::empty());
    loop
        invariant_except_break
            from <= bytes@.len(),
            index <= MAX_HEADER_LINES,
            stride <= 8 * index,
            columns_tile_row(columns(properties@), stride as int),
            header_lines(bytes@, 0, 0, header_start()) == header_lines(
                bytes@,
                from as int,
                index as nat,
                HeaderState {
                    splat_count,
                    stride: stride as int,
                    columns: columns(properties@),
                    in_vertex,
                    little_endian,
                },
            ),
        ensures
            from <= bytes@.len(),
            columns_tile_row(columns(properties@), stride as int),
            header_lines(bytes@, 0, 0, header_start()) == Ok::<(HeaderState, int), HeaderFault>(
                (
                    HeaderState {
                        splat_count,
                        stride: stride as int,
                        columns: columns(properties@),
                        in_vertex,
                        little_endian,
                    },
                    from as int,
                ),
            ),
        decreases MAX_HEADER_LINES + 1 - index,
    {
        let end: usize = find_line_end(bytes, from);
        let line: Vec<u8> = part(bytes, from, end);
        if spells(line.as_slice(), "end_header\n") || spells(line.as_slice(), "end_header\r\n") {
            from = end;
            break ;
        }
        let ghost state = HeaderState {
            splat_count,
            stride: stride as int,
            columns: columns(properties@),
            in_vertex,
            little_endian,
        };
        match read_header_line(
            &line,
            &mut splat_count,
            &mut stride,
            &mut properties,
            &mut in_vertex,
            &mut little_endian,
        ) {
            Ok(_) => {},
            Err(error) => {
                return Err(error);
            },
        }
        if index >= MAX_HEADER_LINES {
            return Err(PlyHeaderError::NotFormatted);
        }
        proof {
            header_line_extends(state, line@);
            columns_stay_tiled(state.columns, state.stride, columns(properties@), stride as int);
        }
        from = end;
        index = index + 1;
    }
    if !little_endian {
        return Err(PlyHeaderError::NotBinaryLittleEndian);
    }
    if properties.len() == 0 || stride == 0 {
        return Err(PlyHeaderError::NoProperties);
    }
    Ok(PlyHeader { file_header_size: from, splat_count, row_stride: stride, properties })
}

/// Where the lines that are read as header text end: behind `end_header`, behind the first line
/// that is refused, or behind the last line that is looked at.
pub open spec fn header_text_end(bytes: Seq<u8>, from: int, index: nat, state: HeaderState) -> int
    decreases MAX_HEADER_LINES + 1 - index,
{
    let end = line_end(bytes, from);
    let line = bytes.subrange(from, end);
    if ends_header(line) || index >= MAX_HEADER_LINES {
        end
    } else {
        match header_line(state, line) {
            Err(_) => end,
            Ok(next) => header_text_end(bytes, end, index + 1, next),
        }
    }
}

/// The bytes that are read as header text.
pub open spec fn header_text(bytes: Seq<u8>) -> Seq<u8> {
    bytes.take(header_text_end(bytes, 0, 0, header_start()))
}

/// Length of the bytes that are read as header text; they have to be UTF-8.
#[verifier::rlimit(40)]
pub fn header_text_len(bytes: &[u8]) -> (r: usize)
    ensures
        r == header_text(bytes@).len(),
        r <= bytes@.len(),
{
    let mut splat_count: usize = 0;
    let mut stride: usize = 0;
    let mut properties: Vec<PlyPropertySpec> = Vec::new();
    let mut in_vertex: bool = false;
    let mut little_endian: bool = false;
    let mut from: usize = 0;
    let mut index: usize = 0;
    assert(columns(properties@) =~= Seq::empty());
    loop
        invariant
            from <= bytes@.len(),
            index <= MAX_HEADER_LINES,
            stride <= 8 * index,
            header_text_end(bytes@, 0, 0, header_start()) == header_text_end(
                bytes@,
                from as int,
                index as nat,
                HeaderState {
                    splat_count,
                    stride: stride as int,
                    columns: columns(properties@),
                    in_vertex,
                    little_endian,
                },
            ),
        decreases MAX_HEADER_LINES + 1 - index,
    {
        let end: usize = find_line_end(bytes, from);
        let line: Vec<u8> = part(bytes, from, end);
        if spells(line.as_slice(), "end_header\n") || spells(line.as_slice(), "end_header\r\n")
            || index >= MAX_HEADER_LINES {
            return end;
        }
        match read_header_line(
            &line,
            &mut splat_count,
            &mut stride,
            &mut properties,
            &mut in_vertex,
            &mut little_endian,
        ) {
            Ok(_) => {},
            Err(_) => {
                return end;
            },
        }
        from = end;
        index = index + 1;
    }
}

/// Properties that every splat cloud has.
pub const REQUIRED_PROPERTIES: usize = 14;

pub open spec fn required_text(i: int) -> Seq<char> {
    if i == 0 {
        "x"@
    } else if i == 1 {
        "y"@
    } else if i == 2 {
        "z"@
    } else if i == 3 {
        "opacity"@
    } else if i == 4 {
        "f_dc_0"@
    } else if i == 5 {
        "f_dc_1"@
    } else if i == 6 {
        "f_dc_2"@
    } else if i == 7 {
        "scale_0"@
    } else if i == 8 {
        "scale_1"@
    } else if i == 9 {
        "scale_2"@
    } else if i == 10 {
        "rot_0"@
    } else if i == 11 {
        "rot_1"@
    } else if i == 12 {
        "rot_2"@
    } else {
        "rot_3"@
    }
}

/// The name of a required property.
pub fn required_name(i: usize) -> (r: &'static str)
    requires
        i < REQUIRED_PROPERTIES,
    ensures
        r@ == required_text(i as int),
{
    match i {
        0 => "x",
        1 => "y",
        2 => "z",
        3 => "opacity",
        4 => "f_dc_0",
        5 => "f_dc_1",
        6 => "f_dc_2",
        7 => "scale_0",
        8 => "scale_1",
        9 => "scale_2",
        10 => "rot_0",
        11 => "rot_1",
        12 => "rot_2",
        _ => "rot_3",
    }
}

/// The last column of a name among the first `n`.
pub open spec fn column_named(columns: Seq<Column>, n: nat, name: Seq<char>) -> Option<int>
    decreases n,
{
    if n == 0 {
        None
    } else if latin(columns[n - 1].name) == name {
        Some(n - 1)
    } else {
        column_named(columns, (n - 1) as nat, name)
    }
}

pub open spec fn column_of(columns: Seq<Column>, name: Seq<char>) -> Option<int> {
    column_named(columns, columns.len(), name)
}

/// Finds the column of a name; of columns with the same name the last one counts.
pub fn find_column(properties: &Vec<PlyPropertySpec>, name: &str) -> (r: Option<usize>)
    ensures
        match r {
            Some(i) => i < properties@.len() && column_of(columns(properties@), name@) == Some(
                i as int,
            ),
            None => column_of(columns(properties@), name@) is None,
        },
{
    let mut n: usize = properties.len();
    while n > 0
        invariant
            n <= properties@.len(),
            column_of(columns(properties@), name@) == column_named(
                columns(properties@),
                n as nat,
                name@,
            ),
        decreases n,
    {
        assert(columns(properties@)[n - 1] == properties@[n - 1].column());
        if spells(properties[n - 1].name.as_slice(), name) {
            return Some(n - 1);
        }
        n = n - 1;
    }
    None
}

/// A column `f_rest_` with a number.
pub open spec fn is_rest_column(name: Seq<u8>) -> bool {
    &&& "f_rest_"@.is_prefix_of(latin(name))
    &&& spelled_number(name.skip(7)) is Some
}

fn has_rest_column(properties: &Vec<PlyPropertySpec>) -> (r: bool)
    ensures
        r == exists|i: int|
            0 <= i < properties@.len() && is_rest_column(#[trigger] columns(properties@)[i].name),
{
    for i in 0..properties.len()
        invariant
            forall|k: int|
                0 <= k < i ==> !is_rest_column(#[trigger] columns(properties@)[k].name),
    {
        let name: &Vec<u8> = &properties[i].name;
        assert(columns(properties@)[i as int].name == name@);
        if spells_start(name.as_slice(), "f_rest_") {
            proof {
                reveal_strlit("f_rest_");
            }
            let digits: Vec<u8> = part(name.as_slice(), 7, name.len());
            assert(digits@ =~= name@.skip(7));
            if let Some(_) = read_number(digits.as_slice()) {
                return true;
            }
        }
    }
    false
}

/// Why the rows of a file cannot be read.
#[derive(Clone, Copy, Debug, PartialEq, Eq, Structural)]
pub enum PlyLoadError {
    /// A required property, by its place in the list, is missing.
    MissingProperty { which: usize },
    /// No property `f_rest_*`.
    MissingRest,
    /// Some but not all coordinates of the original position.
    PartialOrigin,
    PayloadOverflow,
    /// The file ends before its rows do.
    Truncated,
}

impl PlyLoadError {
    pub open spec fn text(self) -> Seq<char> {
        match self {
            PlyLoadError::MissingProperty { which } => "Scene::load(): required PLY property '"@
                + required_text(which as int) + "' not found"@,
            PlyLoadError::MissingRest =>
                "Scene::load(): required PLY property pattern 'f_rest_*' not found"@,
            PlyLoadError::PartialOrigin =>
                "Scene::load(): found partial orig position properties; expected orig_x/y/z or ox/oy/oz."@,
            PlyLoadError::PayloadOverflow => "Scene::load(): payload size overflow"@,
            PlyLoadError::Truncated => {
                "Scene::load(): failed to read payload: failed to fill whole buffer"@
            },
        }
    }

    /// The error in words.
    pub fn message(self) -> (r: String)
        requires
            self matches PlyLoadError::MissingProperty { which } ==> which < REQUIRED_PROPERTIES,
        ensures
            r@ == self.text(),
    {
        match self {
            PlyLoadError::MissingProperty { which } => {
                let mut s: String = "Scene::load(): required PLY property '".to_owned();
                s.append(required_name(which));
                s.append("' not found");
                s
            },
            PlyLoadError::MissingRest =>
                "Scene::load(): required PLY property pattern 'f_rest_*' not found".to_owned(),
            PlyLoadError::PartialOrigin =>
                "Scene::load(): found partial orig position properties; expected orig_x/y/z or ox/oy/oz.".to_owned(),
            PlyLoadError::PayloadOverflow => "Scene::load(): payload size overflow".to_owned(),
            PlyLoadError::Truncated => {
                "Scene::load(): failed to read payload: failed to fill whole buffer".to_owned()
            },
        }
    }
}

/// The columns that the splats are read from.
#[derive(Clone, Debug)]
pub struct SplatColumns {
    /// The required properties, in their order.
    pub required: Vec<usize>,
    /// The original position, where the file has one.
    pub origin: Option<[usize; 3]>,
}

pub open spec fn present(columns: Seq<Column>, name: Seq<char>) -> bool {
    column_of(columns, name) is Some
}

pub open spec fn has_all_orig(c: Seq<Column>) -> bool {
    present(c, "orig_x"@) && present(c, "orig_y"@) && present(c, "orig_z"@)
}

pub open spec fn has_all_short(c: Seq<Column>) -> bool {
    present(c, "ox"@) && present(c, "oy"@) && present(c, "oz"@)
}

pub open spec fn has_some_origin(c: Seq<Column>) -> bool {
    ||| present(c, "orig_x"@)
    ||| present(c, "orig_y"@)
    ||| present(c, "orig_z"@)
    ||| present(c, "ox"@)
    ||| present(c, "oy"@)
    ||| present(c, "oz"@)
}

/// The columns of the original position: `orig_x`, `orig_y`, `orig_z` before `ox`, `oy`, `oz`.
pub open spec fn origin_columns(c: Seq<Column>) -> Option<(int, int, int)> {
    if has_all_orig(c) {
        Some(
            (
                column_of(c, "orig_x"@)->0,
                column_of(c, "orig_y"@)->0,
                column_of(c, "orig_z"@)->0,
            ),
        )
    } else if has_all_short(c) {
        Some((column_of(c, "ox"@)->0, column_of(c, "oy"@)->0, column_of(c, "oz"@)->0))
    } else {
        None
    }
}

/// All required properties before `which` are there and that one is not.
pub open spec fn first_missing(c: Seq<Column>, which: int) -> bool {
    &&& 0 <= which < REQUIRED_PROPERTIES
    &&& !present(c, required_text(which))
    &&& forall|k: int| 0 <= k < which ==> present(c, #[trigger] required_text(k))
}

pub open spec fn all_required(c: Seq<Column>) -> bool {
    forall|k: int| 0 <= k < REQUIRED_PROPERTIES ==> present(c, #[trigger] required_text(k))
}

pub open spec fn has_rest(c: Seq<Column>) -> bool {
    exists|i: int| 0 <= i < c.len() && is_rest_column(#[trigger] c[i].name)
}

/// Why columns are refused.
pub open spec fn columns_error(c: Seq<Column>, error: PlyLoadError) -> bool {
    match error {
        PlyLoadError::MissingProperty { which } => first_missing(c, which as int),
        PlyLoadError::MissingRest => all_required(c) && !has_rest(c),
        PlyLoadError::PartialOrigin => all_required(c) && has_rest(c) && !has_all_orig(c)
            && !has_all_short(c) && has_some_origin(c),
        _ => false,
    }
}

/// The columns that were found are those of the required names and of the original position.
pub open spec fn columns_found(c: Seq<Column>, found: SplatColumns) -> bool {
    &&& all_required(c)
    &&& has_rest(c)
    &&& found.required@.len() == REQUIRED_PROPERTIES
    &&& forall|k: int|
        0 <= k < REQUIRED_PROPERTIES ==> column_of(c, required_text(k)) == Some(
            #[trigger] found.required@[k] as int,
        ) && found.required@[k] < c.len()
    &&& match found.origin {
        Some(o) => {
            &&& origin_columns(c) == Some((o[0] as int, o[1] as int, o[2] as int))
            &&& o[0] < c.len()
            &&& o[1] < c.len()
            &&& o[2] < c.len()
        },
        None => !has_some_origin(c),
    }
}

fn find_triple(properties: &Vec<PlyPropertySpec>, x: &str, y: &str, z: &str) -> (r: (
    Option<[usize; 3]>,
    bool,
))
    ensures
        ({
            let c = columns(properties@);
            &&& match r.0 {
                Some(o) => {
                    &&& column_of(c, x@) == Some(o[0] as int)
                    &&& column_of(c, y@) == Some(o[1] as int)
                    &&& column_of(c, z@) == Some(o[2] as int)
                    &&& o[0] < c.len()
                    &&& o[1] < c.len()
                    &&& o[2] < c.len()
                },
                None => !(present(c, x@) && present(c, y@) && present(c, z@)),
            }
            &&& r.1 == (present(c, x@) || present(c, y@) || present(c, z@))
        }),
{
    let a: Option<usize> = find_column(properties, x);
    let b: Option<usize> = find_column(properties, y);
    let c: Option<usize> = find_column(properties, z);
    let any: bool = a.is_some() || b.is_some() || c.is_some();
    match (a, b, c) {
        (Some(i), Some(j), Some(k)) => (Some([i, j, k]), any),
        _ => (None, any),
    }
}

/// Finds the columns that splats are read from.
pub fn find_splat_columns(header: &PlyHeader) -> (r: Result<SplatColumns, PlyLoadError>)
    ensures
        match r {
            Ok(found) => columns_found(columns(header.properties@), found),
            Err(error) => columns_error(columns(header.properties@), error),
        },
{
    let ghost c = columns(header.properties@);
    let mut required: Vec<usize> = Vec::new();
    let mut i: usize = 0;
    while i < REQUIRED_PROPERTIES
        invariant
            i <= REQUIRED_PROPERTIES,
            c == columns(header.properties@),
            required@.len() == i,
            forall|k: int|
                0 <= k < i ==> column_of(c, required_text(k)) == Some(
                    #[trigger] required@[k] as int,
                ) && required@[k] < c.len(),
            forall|k: int| 0 <= k < i ==> present(c, #[trigger] required_text(k)),
        decreases REQUIRED_PROPERTIES - i,
    {
        match find_column(&header.properties, required_name(i)) {
            Some(index) => {
                required.push(index);
            },
            None => {
                return Err(PlyLoadError::MissingProperty { which: i });
            },
        }
        i = i + 1;
    }
    if !has_rest_column(&header.properties) {
        return Err(PlyLoadError::MissingRest);
    }
    let (long, some_long) = find_triple(&header.properties, "orig_x", "orig_y", "orig_z");
    let (short, some_short) = find_triple(&header.properties, "ox", "oy", "oz");
    let origin: Option<[usize; 3]> = if long.is_some() {
        long
    } else if short.is_some() {
        short
    } else if some_long || some_short {
        return Err(PlyLoadError::PartialOrigin);
    } else {
        None
    };
    Ok(SplatColumns { required, origin })
}

/// A value of a row as the file holds it.
#[derive(Clone, Copy, Debug, PartialEq, Eq, Structural)]
pub enum RawScalar {
    Integer { value: i64 },
    /// Bit pattern of a 32-bit number.
    Single { bits: u32 },
    /// Bit pattern of a 64-bit number.
    Double { bits: u64 },
}

/// The value of a column whose bytes start at `at`.
pub open spec fn scalar_at(data_type: PlyScalarType, bytes: Seq<u8>, at: int) -> RawScalar {
    match data_type {
        PlyScalarType::Char => RawScalar::Integer {
            value: if bytes[at] < 0x80 {
                bytes[at] as i64
            } else {
                (bytes[at] - 0x100) as i64
            },
        },
        PlyScalarType::UChar => RawScalar::Integer { value: bytes[at] as i64 },
        PlyScalarType::Short => RawScalar::Integer {
            value: if crate::bytes::le_u16(bytes, at) < 0x8000 {
                crate::bytes::le_u16(bytes, at) as i64
            } else {
                (crate::bytes::le_u16(bytes, at) - 0x1_0000) as i64
            },
        },
        PlyScalarType::UShort => RawScalar::Integer {
            value: crate::bytes::le_u16(bytes, at) as i64,
        },
        PlyScalarType::Int => RawScalar::Integer {
            value: if crate::bytes::le_u32(bytes, at) < 0x8000_0000 {
                crate::bytes::le_u32(bytes, at) as i64
            } else {
                (crate::bytes::le_u32(bytes, at) - 0x1_0000_0000) as i64
            },
        },
        PlyScalarType::UInt => RawScalar::Integer {
            value: crate::bytes::le_u32(bytes, at) as i64,
        },
        PlyScalarType::Float => RawScalar::Single { bits: crate::bytes::le_u32(bytes, at) },
        PlyScalarType::Double => RawScalar::Double { bits: crate::bytes::le_u64(bytes, at) },
    }
}

fn read_scalar(data_type: PlyScalarType, bytes: &[u8], at: usize) -> (r: RawScalar)
    requires
        at + data_type.width() <= bytes@.len(),
    ensures
        r == scalar_at(data_type, bytes@, at as int),
{
    match data_type {
        PlyScalarType::Char => {
            let v: i64 = bytes[at] as i64;
            RawScalar::Integer {
                value: if v < 0x80 {
                    v
                } else {
                    v - 0x100
                },
            }
        },
        PlyScalarType::UChar => RawScalar::Integer { value: bytes[at] as i64 },
        PlyScalarType::Short => {
            let v: i64 = crate::bytes::le_u16_at(bytes, at) as i64;
            RawScalar::Integer {
                value: if v < 0x8000 {
                    v
                } else {
                    v - 0x1_0000
                },
            }
        },
        PlyScalarType::UShort => RawScalar::Integer {
            value: crate::bytes::le_u16_at(bytes, at) as i64,
        },
        PlyScalarType::Int => {
            let v: i64 = crate::bytes::le_u32_at(bytes, at) as i64;
            RawScalar::Integer {
                value: if v < 0x8000_0000 {
                    v
                } else {
                    v - 0x1_0000_0000
                },
            }
        },
        PlyScalarType::UInt => RawScalar::Integer {
            value: crate::bytes::le_u32_at(bytes, at) as i64,
        },
        PlyScalarType::Float => RawScalar::Single { bits: crate::bytes::le_u32_at(bytes, at) },
        PlyScalarType::Double => RawScalar::Double { bits: crate::bytes::le_u64_at(bytes, at) },
    }
}

/// The values of one row that make a splat.
#[derive(Clone, Copy, Debug, PartialEq, Eq)]
pub struct PlyRow {
    pub position: [RawScalar; 3],
    pub opacity: RawScalar,
    pub f_dc: [RawScalar; 3],
    pub scale: [RawScalar; 3],
    pub rotation: [RawScalar; 4],
    pub origin: Option<[RawScalar; 3]>,
}

/// The value of column `column` in row `row`.
pub open spec fn cell(header: PlyHeader, bytes: Seq<u8>, row: int, column: int) -> RawScalar {
    let c = columns(header.properties@)[column];
    scalar_at(c.data_type, bytes, header.file_header_size + row * header.row_stride + c.offset)
}

/// Row `row` holds the values of the columns that were found.
#[verifier::opaque]
pub open spec fn row_matches(
    header: PlyHeader,
    bytes: Seq<u8>,
    found: SplatColumns,
    row: int,
    values: PlyRow,
) -> bool {
    let f = found.required@;
    &&& values.position@ == seq![
        cell(header, bytes, row, f[0] as int),
        cell(header, bytes, row, f[1] as int),
        cell(header, bytes, row, f[2] as int),
    ]
    &&& values.opacity == cell(header, bytes, row, f[3] as int)
    &&& values.f_dc@ == seq![
        cell(header, bytes, row, f[4] as int),
        cell(header, bytes, row, f[5] as int),
        cell(header, bytes, row, f[6] as int),
    ]
    &&& values.scale@ == seq![
        cell(header, bytes, row, f[7] as int),
        cell(header, bytes, row, f[8] as int),
        cell(header, bytes, row, f[9] as int),
    ]
    &&& values.rotation@ == seq![
        cell(header, bytes, row, f[10] as int),
        cell(header, bytes, row, f[11] as int),
        cell(header, bytes, row, f[12] as int),
        cell(header, bytes, row, f[13] as int),
    ]
    &&& match (found.origin, values.origin) {
        (Some(o), Some(v)) => v@ == seq![
            cell(header, bytes, row, o[0] as int),
            cell(header, bytes, row, o[1] as int),
            cell(header, bytes, row, o[2] as int),
        ],
        (None, None) => true,
        _ => false,
    }
}

/// A header as the header parser gives it.
pub open spec fn header_well_formed(header: PlyHeader) -> bool {
    &&& columns_tile_row(columns(header.properties@), header.row_stride as int)
    &&& header.properties@.len() > 0
}

pub open spec fn payload_size(header: PlyHeader) -> int {
    header.splat_count * header.row_stride
}

/// Why rows are refused although their columns are there.
pub open spec fn payload_error(header: PlyHeader, bytes: Seq<u8>) -> Option<PlyLoadError> {
    if payload_size(header) > usize::MAX {
        Some(PlyLoadError::PayloadOverflow)
    } else if header.file_header_size + payload_size(header) > bytes.len() {
        Some(PlyLoadError::Truncated)
    } else {
        None
    }
}

proof fn column_in_row(c: Seq<Column>, stride: int, i: int)
    requires
        columns_tile_row(c, stride),
        0 <= i < c.len(),
    ensures
        0 <= c[i].offset,
        c[i].offset + c[i].data_type.width() <= stride,
    decreases c.len() - i,
{
    column_offset_positive(c, stride, i);
    if i < c.len() - 1 {
        column_in_row(c, stride, i + 1);
        assert(c[i + 1].offset == c[i + 1 - 1].offset + c[i + 1 - 1].data_type.width());
    }
}

proof fn column_offset_positive(c: Seq<Column>, stride: int, i: int)
    requires
        columns_tile_row(c, stride),
        0 <= i < c.len(),
    ensures
        0 <= c[i].offset,
    decreases i,
{
    if i > 0 {
        column_offset_positive(c, stride, i - 1);
        assert(c[i].offset == c[i - 1].offset + c[i - 1].data_type.width());
    }
}

fn read_cell(header: &PlyHeader, bytes: &[u8], row: usize, column: usize) -> (r: RawScalar)
    requires
        header_well_formed(*header),
        payload_error(*header, bytes@) is None,
        row < header.splat_count,
        column < header.properties@.len(),
    ensures
        r == cell(*header, bytes@, row as int, column as int),
{
    let total: usize = bytes.len();
    let property: &PlyPropertySpec = &header.properties[column];
    proof {
        assert(columns(header.properties@)[column as int] == property.column());
        column_in_row(columns(header.properties@), header.row_stride as int, column as int);
        assert(row * header.row_stride + header.row_stride <= header.splat_count
            * header.row_stride) by (nonlinear_arith)
            requires
                0 <= row < header.splat_count,
                0 <= header.row_stride,
        ;
        assert(0 <= row * header.row_stride) by (nonlinear_arith)
            requires
                0 <= row,
                0 <= header.row_stride,
        ;
    }
    let at: usize = header.file_header_size + row * header.row_stride + property.byte_offset;
    read_scalar(property.data_type, bytes, at)
}

fn read_row(header: &PlyHeader, bytes: &[u8], found: &SplatColumns, row: usize) -> (r: PlyRow)
    requires
        header_well_formed(*header),
        payload_error(*header, bytes@) is None,
        row < header.splat_count,
        columns_found(columns(header.properties@), *found),
    ensures
        row_matches(*header, bytes@, *found, row as int, r),
{
    let f: &Vec<usize> = &found.required;
    assert(columns(header.properties@).len() == header.properties@.len());
    assert forall|k: int| 0 <= k < REQUIRED_PROPERTIES implies (#[trigger] f@[k])
        < header.properties@.len() by {}
    let position: [RawScalar; 3] = [
        read_cell(header, bytes, row, f[0]),
        read_cell(header, bytes, row, f[1]),
        read_cell(header, bytes, row, f[2]),
    ];
    let opacity: RawScalar = read_cell(header, bytes, row, f[3]);
    let f_dc: [RawScalar; 3] = [
        read_cell(header, bytes, row, f[4]),
        read_cell(header, bytes, row, f[5]),
        read_cell(header, bytes, row, f[6]),
    ];
    let scale: [RawScalar; 3] = [
        read_cell(header, bytes, row, f[7]),
        read_cell(header, bytes, row, f[8]),
        read_cell(header, bytes, row, f[9]),
    ];
    let rotation: [RawScalar; 4] = [
        read_cell(header, bytes, row, f[10]),
        read_cell(header, bytes, row, f[11]),
        read_cell(header, bytes, row, f[12]),
        read_cell(header, bytes, row, f[13]),
    ];
    let origin: Option<[RawScalar; 3]> = match found.origin {
        Some(o) => {
            let v: [RawScalar; 3] = [
                read_cell(header, bytes, row, o[0]),
                read_cell(header, bytes, row, o[1]),
                read_cell(header, bytes, row, o[2]),
            ];
            assert(v@ =~= seq![
                cell(*header, bytes@, row as int, o[0] as int),
                cell(*header, bytes@, row as int, o[1] as int),
                cell(*header, bytes@, row as int, o[2] as int),
            ]);
            Some(v)
        },
        None => None,
    };
    proof {
        reveal(row_matches);
        let h = *header;
        let b = bytes@;
        let i = row as int;
        assert(position@ =~= seq![
            cell(h, b, i, f@[0] as int),
            cell(h, b, i, f@[1] as int),
            cell(h, b, i, f@[2] as int),
        ]);
        assert(f_dc@ =~= seq![
            cell(h, b, i, f@[4] as int),
            cell(h, b, i, f@[5] as int),
            cell(h, b, i, f@[6] as int),
        ]);
        assert(scale@ =~= seq![
            cell(h, b, i, f@[7] as int),
            cell(h, b, i, f@[8] as int),
            cell(h, b, i, f@[9] as int),
        ]);
        assert(rotation@ =~= seq![
            cell(h, b, i, f@[10] as int),
            cell(h, b, i, f@[11] as int),
            cell(h, b, i, f@[12] as int),
            cell(h, b, i, f@[13] as int),
        ]);
    }
    PlyRow { position, opacity, f_dc, scale, rotation, origin }
}

/// Reads the rows of a PLY file whose header is known.
pub fn read_splat_rows(header: &PlyHeader, bytes: &[u8]) -> (r: Result<Vec<PlyRow>, PlyLoadError>)
    requires
        header_well_formed(*header),
    ensures
        match r {
            Ok(rows) => {
                &&& payload_error(*header, bytes@) is None
                &&& rows@.len() == header.splat_count
                &&& exists|found: SplatColumns|
                    {
                        &&& #[trigger] columns_found(columns(header.properties@), found)
                        &&& forall|i: int|
                            0 <= i < rows@.len() ==> row_matches(
                                *header,
                                bytes@,
                                found,
                                i,
                                #[trigger] rows@[i],
                            )
                    }
            },
            Err(error) => {
                ||| columns_error(columns(header.properties@), error)
                ||| (exists|found: SplatColumns|
                    #[trigger] columns_found(columns(header.properties@), found))
                    && payload_error(*header, bytes@) == Some(error)
            },
        },
{
    let found: SplatColumns = match find_splat_columns(header) {
        Ok(found) => found,
        Err(error) => {
            return Err(error);
        },
    };
    let size: usize = match header.splat_count.checked_mul(header.row_stride) {
        Some(size) => size,
        None => {
            return Err(PlyLoadError::PayloadOverflow);
        },
    };
    if header.file_header_size > bytes.len() || bytes.len() - header.file_header_size < size {
        assert(payload_size(*header) >= 0) by (nonlinear_arith)
            requires
                payload_size(*header) == header.splat_count * header.row_stride,
                header.splat_count >= 0,
                header.row_stride >= 0,
        ;
        return Err(PlyLoadError::Truncated);
    }
    let mut rows: Vec<PlyRow> = Vec::new();
    let mut i: usize = 0;
    while i < header.splat_count
        invariant
            i <= header.splat_count,
            rows@.len() == i,
            header_well_formed(*header),
            payload_error(*header, bytes@) is None,
            columns_found(columns(header.properties@), found),
            forall|k: int|
                0 <= k < i ==> row_matches(*header, bytes@, found, k, #[trigger] rows@[k]),
        decreases header.splat_count - i,
    {
        rows.push(read_row(header, bytes, &found, i));
        i = i + 1;
    }
    Ok(rows)
}

/// The columns that are found for a header do not depend on how they were found.
pub proof fn found_columns_are_unique(c: Seq<Column>, a: SplatColumns, b: SplatColumns)
    requires
        columns_found(c, a),
        columns_found(c, b),
    ensures
        a.required@ == b.required@,
        a.origin is Some <==> b.origin is Some,
        a.origin is Some ==> (a.origin->0)@ == (b.origin->0)@,
{
    assert forall|k: int| 0 <= k < REQUIRED_PROPERTIES implies a.required@[k] == b.required@[k] by {
        assert(column_of(c, required_text(k)) == Some(a.required@[k] as int));
        assert(column_of(c, required_text(k)) == Some(b.required@[k] as int));
    }
    assert(a.required@ =~= b.required@);
    if a.origin is Some && b.origin is Some {
        assert((a.origin->0)@ =~= (b.origin->0)@);
    }
}

} // verus!
