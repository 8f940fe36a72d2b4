//! Laws of PLY files: what a header line adds, what a token is, and where the numbers of a row stand.

use crate::ply::{
    Column, HeaderFault, HeaderState, PlyHeader, PlyLoadError, PlyRow, PlyScalarType, RawScalar,
    SplatColumns,
};
use vstd::prelude::*;

verus! {

/// A type has two names, one of them with its number of bits, and no other name.
pub proof fn scalar_types_have_two_names(token: Seq<char>)
    ensures
        ({
            let named = PlyScalarType::named(token);
            &&& named == Some(PlyScalarType::Char) <==> token == "char"@ || token == "int8"@
            &&& named == Some(PlyScalarType::UChar) <==> token == "uchar"@ || token == "uint8"@
            &&& named == Some(PlyScalarType::Short) <==> token == "short"@ || token == "int16"@
            &&& named == Some(PlyScalarType::UShort) <==> token == "ushort"@ || token
                == "uint16"@
            &&& named == Some(PlyScalarType::Int) <==> token == "int"@ || token == "int32"@
            &&& named == Some(PlyScalarType::UInt) <==> token == "uint"@ || token == "uint32"@
            &&& named == Some(PlyScalarType::Float) <==> token == "float"@ || token == "float32"@
            &&& named == Some(PlyScalarType::Double) <==> token == "double"@ || token
                == "float64"@
        }),
{
    reveal_strlit("char");
    reveal_strlit("int8");
    reveal_strlit("uchar");
    reveal_strlit("uint8");
    reveal_strlit("short");
    reveal_strlit("int16");
    reveal_strlit("ushort");
    reveal_strlit("uint16");
    reveal_strlit("int");
    reveal_strlit("int32");
    reveal_strlit("uint");
    reveal_strlit("uint32");
    reveal_strlit("float");
    reveal_strlit("float32");
    reveal_strlit("double");
    reveal_strlit("float64");
    assert("char"@[0] == 'c' && "int8"@[0] == 'i' && "uchar"@[1] == 'c' && "uint8"@[1] == 'i');
    assert("short"@[0] == 's' && "int16"@[3] == '1' && "ushort"@[1] == 's' && "uint16"@[4] == '1');
    assert("int"@.len() == 3 && "int32"@[3] == '3' && "uint"@[0] == 'u' && "uint32"@[4] == '3');
    assert("float"@[0] == 'f' && "float32"@[5] == '3' && "double"@[0] == 'd' && "float64"@[5]
        == '6');
    assert("int8"@[3] == '8' && "uint8"@[4] == '8' && "uint16"@[0] == 'u' && "uint32"@[0] == 'u');
    assert("int16"@[0] == 'i' && "int32"@[0] == 'i' && "float32"@[0] == 'f' && "float64"@[0]
        == 'f');
    assert("uint"@.len() == 4 && "uint8"@.len() == 5 && "uint16"@.len() == 6 && "uint32"@.len()
        == 6);
    assert("float"@.len() == 5 && "float32"@.len() == 7 && "float64"@.len() == 7 && "double"@.len()
        == 6);
    assert("uint16"@[1] == 'i' && "uint32"@[1] == 'i' && "int16"@[1] == 'n' && "uint"@[1] == 'i');
    assert("uchar"@[0] == 'u' && "uint8"@[0] == 'u' && "ushort"@[0] == 'u');
}

/// How many bytes a number of a type takes: one, two, four or eight.
pub proof fn scalar_types_take_their_bytes(data_type: PlyScalarType)
    ensures
        data_type is Char || data_type is UChar ==> data_type.width() == 1,
        data_type is Short || data_type is UShort ==> data_type.width() == 2,
        data_type is Int || data_type is UInt || data_type is Float ==> data_type.width() == 4,
        data_type is Double ==> data_type.width() == 8,
{
}

/// A number is read from its bytes, the lowest first: whole numbers by their sign and size, the
/// others by their bit pattern.
pub proof fn scalars_are_their_bytes(data_type: PlyScalarType, bytes: Seq<u8>, at: int)
    ensures
        ({
            let two = bytes[at] + 0x100 * bytes[at + 1];
            let four = two + 0x1_0000 * bytes[at + 2] + 0x100_0000 * bytes[at + 3];
            match crate::ply::scalar_at(data_type, bytes, at) {
                RawScalar::Integer { value } => {
                    &&& data_type is UChar ==> value == bytes[at]
                    &&& data_type is Char ==> -0x80 <= value < 0x80 && (value == bytes[at] || value
                        + 0x100 == bytes[at])
                    &&& data_type is UShort ==> value == two
                    &&& data_type is Short ==> -0x8000 <= value < 0x8000 && (value == two || value
                        + 0x1_0000 == two)
                    &&& data_type is UInt ==> value == four
                    &&& data_type is Int ==> -0x8000_0000 <= value < 0x8000_0000 && (value == four
                        || value + 0x1_0000_0000 == four)
                    &&& !(data_type is Float)
                    &&& !(data_type is Double)
                },
                RawScalar::Single { bits } => data_type is Float && bits == four,
                RawScalar::Double { bits } => data_type is Double && bits == four + 0x1_0000_0000
                    * (bytes[at + 4] + 0x100 * bytes[at + 5] + 0x1_0000 * bytes[at + 6]
                    + 0x100_0000 * bytes[at + 7]),
            }
        }),
{
}

proof fn last_of_a_name_is_found(columns: Seq<Column>, n: nat, name: Seq<char>)
    requires
        n <= columns.len(),
    ensures
        match crate::ply::column_named(columns, n, name) {
            Some(i) => {
                &&& 0 <= i < n
                &&& crate::ply::latin(columns[i].name) == name
                &&& forall|j: int| i < j < n ==> crate::ply::latin((#[trigger] columns[j]).name) != name
            },
            None => forall|j: int|
                0 <= j < n ==> crate::ply::latin((#[trigger] columns[j]).name) != name,
        },
    decreases n,
{
    if n > 0 && crate::ply::latin(columns[n - 1].name) != name {
        last_of_a_name_is_found(columns, (n - 1) as nat, name);
    }
}

/// A column is found by its name; of several of one name it is the last.
pub proof fn columns_are_found_by_name(columns: Seq<Column>, name: Seq<char>)
    ensures
        match crate::ply::column_of(columns, name) {
            Some(i) => {
                &&& 0 <= i < columns.len()
                &&& crate::ply::latin(columns[i].name) == name
                &&& forall|j: int|
                    i < j < columns.len() ==> crate::ply::latin((#[trigger] columns[j]).name)
                        != name
            },
            None => forall|j: int|
                0 <= j < columns.len() ==> crate::ply::latin((#[trigger] columns[j]).name) != name,
        },
{
    last_of_a_name_is_found(columns, columns.len(), name);
}

/// A value is what a row holds in the column of a name.
pub open spec fn is_cell_named(
    value: RawScalar,
    header: PlyHeader,
    bytes: Seq<u8>,
    row: int,
    name: Seq<char>,
) -> bool {
    exists|i: int|
        {
            &&& 0 <= i < header.properties@.len()
            &&& crate::ply::latin((#[trigger] header.properties@[i]).name@) == name
            &&& value == crate::ply::scalar_at(
                header.properties@[i].data_type,
                bytes,
                header.file_header_size + row * header.row_stride
                    + header.properties@[i].byte_offset,
            )
        }
}

proof fn a_cell_has_its_name(
    value: RawScalar,
    header: PlyHeader,
    bytes: Seq<u8>,
    row: int,
    name: Seq<char>,
    i: int,
)
    requires
        crate::ply::column_of(crate::ply::columns(header.properties@), name) == Some(i),
        value == crate::ply::cell(header, bytes, row, i),
    ensures
        is_cell_named(value, header, bytes, row, name),
{
    let c = crate::ply::columns(header.properties@);
    columns_are_found_by_name(c, name);
    assert(c[i] == header.properties@[i].column());
    assert(crate::ply::latin(header.properties@[i].name@) == name);
}

proof fn rows_hold_their_cells(
    header: PlyHeader,
    bytes: Seq<u8>,
    found: SplatColumns,
    row: int,
    values: PlyRow,
)
    requires
        crate::ply::row_matches(header, bytes, found, row, values),
    ensures
        values.position[0] == crate::ply::cell(
            header,
            bytes,
            row,
            found.required@[0] as int,
        ),
        values.position[1] == crate::ply::cell(
            header,
            bytes,
            row,
            found.required@[1] as int,
        ),
        values.position[2] == crate::ply::cell(
            header,
            bytes,
            row,
            found.required@[2] as int,
        ),
        values.f_dc[0] == crate::ply::cell(
            header,
            bytes,
            row,
            found.required@[4] as int,
        ),
        values.f_dc[1] == crate::ply::cell(
            header,
            bytes,
            row,
            found.required@[5] as int,
        ),
        values.f_dc[2] == crate::ply::cell(
            header,
            bytes,
            row,
            found.required@[6] as int,
        ),
        values.scale[0] == crate::ply::cell(
            header,
            bytes,
            row,
            found.required@[7] as int,
        ),
        values.scale[1] == crate::ply::cell(
            header,
            bytes,
            row,
            found.required@[8] as int,
        ),
        values.scale[2] == crate::ply::cell(
            header,
            bytes,
            row,
            found.required@[9] as int,
        ),
        values.rotation[0] == crate::ply::cell(
            header,
            bytes,
            row,
            found.required@[10] as int,
        ),
        values.rotation[1] == crate::ply::cell(
            header,
            bytes,
            row,
            found.required@[11] as int,
        ),
        values.rotation[2] == crate::ply::cell(
            header,
            bytes,
            row,
            found.required@[12] as int,
        ),
        values.rotation[3] == crate::ply::cell(
            header,
            bytes,
            row,
            found.required@[13] as int,
        ),
        values.opacity == crate::ply::cell(header, bytes, row, found.required@[3] as int),
        values.origin is Some <==> found.origin is Some,
        values.origin is Some ==> {
            let o = values.origin->0;
            let f = found.origin->0;
            &&& o[0] == crate::ply::cell(header, bytes, row, f[0] as int)
            &&& o[1] == crate::ply::cell(header, bytes, row, f[1] as int)
            &&& o[2] == crate::ply::cell(header, bytes, row, f[2] as int)
        },
{
    reveal(crate::ply::row_matches);
    let position = seq![
        crate::ply::cell(header, bytes, row, found.required@[0] as int),
        crate::ply::cell(header, bytes, row, found.required@[1] as int),
        crate::ply::cell(header, bytes, row, found.required@[2] as int),
    ];
    assert(values.position@ == position);
    assert(values.position[0] == position[0] && values.position[1] == position[1] && values.position[2] == position[2]);
    let f_dc = seq![
        crate::ply::cell(header, bytes, row, found.required@[4] as int),
        crate::ply::cell(header, bytes, row, found.required@[5] as int),
        crate::ply::cell(header, bytes, row, found.required@[6] as int),
    ];
    assert(values.f_dc@ == f_dc);
    assert(values.f_dc[0] == f_dc[0] && values.f_dc[1] == f_dc[1] && values.f_dc[2] == f_dc[2]);
    let scale = seq![
        crate::ply::cell(header, bytes, row, found.required@[7] as int),
        crate::ply::cell(header, bytes, row, found.required@[8] as int),
        crate::ply::cell(header, bytes, row, found.required@[9] as int),
    ];
    assert(values.scale@ == scale);
    assert(values.scale[0] == scale[0] && values.scale[1] == scale[1] && values.scale[2] == scale[2]);
    let rotation = seq![
        crate::ply::cell(header, bytes, row, found.required@[10] as int),
        crate::ply::cell(header, bytes, row, found.required@[11] as int),
        crate::ply::cell(header, bytes, row, found.required@[12] as int),
        crate::ply::cell(header, bytes, row, found.required@[13] as int),
    ];
    assert(values.rotation@ == rotation);
    assert(values.rotation[0] == rotation[0] && values.rotation[1] == rotation[1] && values.rotation[2] == rotation[2] && values.rotation[3] == rotation[3]);
    if values.origin is Some {
        let o = values.origin->0;
        let f = found.origin->0;
        let origin = seq![
            crate::ply::cell(header, bytes, row, f[0] as int),
            crate::ply::cell(header, bytes, row, f[1] as int),
            crate::ply::cell(header, bytes, row, f[2] as int),
        ];
        assert(o@ == origin);
        assert(o[0] == origin[0] && o[1] == origin[1] && o[2] == origin[2]);
    }
}

/// The numbers of a splat come from the columns of their names: the position from `x`, `y` and `z`,
/// then `opacity`, the colour from `f_dc_0` on, the scale from `scale_0` on and the rotation from
/// `rot_0` on.
pub proof fn rows_hold_the_named_columns(
    header: PlyHeader,
    bytes: Seq<u8>,
    found: SplatColumns,
    row: int,
    values: PlyRow,
)
    requires
        crate::ply::columns_found(crate::ply::columns(header.properties@), found),
        crate::ply::row_matches(header, bytes, found, row, values),
    ensures
        is_cell_named(values.position[0], header, bytes, row, "x"@),
        is_cell_named(values.position[1], header, bytes, row, "y"@),
        is_cell_named(values.position[2], header, bytes, row, "z"@),
        is_cell_named(values.opacity, header, bytes, row, "opacity"@),
        is_cell_named(values.f_dc[0], header, bytes, row, "f_dc_0"@),
        is_cell_named(values.f_dc[1], header, bytes, row, "f_dc_1"@),
        is_cell_named(values.f_dc[2], header, bytes, row, "f_dc_2"@),
        is_cell_named(values.scale[0], header, bytes, row, "scale_0"@),
        is_cell_named(values.scale[1], header, bytes, row, "scale_1"@),
        is_cell_named(values.scale[2], header, bytes, row, "scale_2"@),
        is_cell_named(values.rotation[0], header, bytes, row, "rot_0"@),
        is_cell_named(values.rotation[1], header, bytes, row, "rot_1"@),
        is_cell_named(values.rotation[2], header, bytes, row, "rot_2"@),
        is_cell_named(values.rotation[3], header, bytes, row, "rot_3"@),
{
    let f = found.required@;
    rows_hold_their_cells(header, bytes, found, row, values);
    a_cell_has_its_name(values.position[0], header, bytes, row, "x"@, f[0] as int);
    a_cell_has_its_name(values.position[1], header, bytes, row, "y"@, f[1] as int);
    a_cell_has_its_name(values.position[2], header, bytes, row, "z"@, f[2] as int);
    a_cell_has_its_name(values.opacity, header, bytes, row, "opacity"@, f[3] as int);
    a_cell_has_its_name(values.f_dc[0], header, bytes, row, "f_dc_0"@, f[4] as int);
    a_cell_has_its_name(values.f_dc[1], header, bytes, row, "f_dc_1"@, f[5] as int);
    a_cell_has_its_name(values.f_dc[2], header, bytes, row, "f_dc_2"@, f[6] as int);
    a_cell_has_its_name(values.scale[0], header, bytes, row, "scale_0"@, f[7] as int);
    a_cell_has_its_name(values.scale[1], header, bytes, row, "scale_1"@, f[8] as int);
    a_cell_has_its_name(values.scale[2], header, bytes, row, "scale_2"@, f[9] as int);
    a_cell_has_its_name(values.rotation[0], header, bytes, row, "rot_0"@, f[10] as int);
    a_cell_has_its_name(values.rotation[1], header, bytes, row, "rot_1"@, f[11] as int);
    a_cell_has_its_name(values.rotation[2], header, bytes, row, "rot_2"@, f[12] as int);
    a_cell_has_its_name(values.rotation[3], header, bytes, row, "rot_3"@, f[13] as int);
}

/// The original position of a splat comes from `orig_x`, `orig_y` and `orig_z` where a file has all
/// three, and else from `ox`, `oy` and `oz`; a file with none of the six has none.
pub proof fn original_positions_come_from_their_columns(
    header: PlyHeader,
    bytes: Seq<u8>,
    found: SplatColumns,
    row: int,
    values: PlyRow,
)
    requires
        crate::ply::columns_found(crate::ply::columns(header.properties@), found),
        crate::ply::row_matches(header, bytes, found, row, values),
    ensures
        ({
            let c = crate::ply::columns(header.properties@);
            let long = crate::ply::column_of(c, "orig_x"@) is Some && crate::ply::column_of(
                c,
                "orig_y"@,
            ) is Some && crate::ply::column_of(c, "orig_z"@) is Some;
            &&& values.origin matches Some(o) ==> {
                &&& long ==> is_cell_named(o[0], header, bytes, row, "orig_x"@)
                &&& long ==> is_cell_named(o[1], header, bytes, row, "orig_y"@)
                &&& long ==> is_cell_named(o[2], header, bytes, row, "orig_z"@)
                &&& !long ==> is_cell_named(o[0], header, bytes, row, "ox"@)
                &&& !long ==> is_cell_named(o[1], header, bytes, row, "oy"@)
                &&& !long ==> is_cell_named(o[2], header, bytes, row, "oz"@)
            }
            &&& values.origin is None ==> crate::ply::column_of(c, "orig_x"@) is None
                && crate::ply::column_of(c, "orig_y"@) is None && crate::ply::column_of(
                c,
                "orig_z"@,
            ) is None && crate::ply::column_of(c, "ox"@) is None && crate::ply::column_of(
                c,
                "oy"@,
            ) is None && crate::ply::column_of(c, "oz"@) is None
        }),
{
    let c = crate::ply::columns(header.properties@);
    rows_hold_their_cells(header, bytes, found, row, values);
    if let Some(o) = values.origin {
        let f = found.origin->0;
        if crate::ply::has_all_orig(c) {
            a_cell_has_its_name(o[0], header, bytes, row, "orig_x"@, f[0] as int);
            a_cell_has_its_name(o[1], header, bytes, row, "orig_y"@, f[1] as int);
            a_cell_has_its_name(o[2], header, bytes, row, "orig_z"@, f[2] as int);
        } else {
            a_cell_has_its_name(o[0], header, bytes, row, "ox"@, f[0] as int);
            a_cell_has_its_name(o[1], header, bytes, row, "oy"@, f[1] as int);
            a_cell_has_its_name(o[2], header, bytes, row, "oz"@, f[2] as int);
        }
    }
}

/// A file holds its rows where they fit behind its header; the error tells a size that no memory
/// holds from a file that ends too early.
pub proof fn files_hold_their_rows(header: PlyHeader, bytes: Seq<u8>)
    ensures
        ({
            let size = header.splat_count * header.row_stride;
            let error = crate::ply::payload_error(header, bytes);
            &&& error is None <==> size <= usize::MAX && header.file_header_size + size
                <= bytes.len()
            &&& error matches Some(e) ==> if size > usize::MAX {
                e is PayloadOverflow
            } else {
                e is Truncated
            }
        }),
{
}

/// A column of the further colours is named `f_rest_` and a number.
pub proof fn further_colours_are_numbered(name: Seq<u8>)
    ensures
        crate::ply::is_rest_column(name) ==> {
            &&& name.len() > 7
            &&& name[0] == 'f' as u8 && name[1] == '_' as u8 && name[2] == 'r' as u8 && name[3]
                == 'e' as u8 && name[4] == 's' as u8 && name[5] == 't' as u8 && name[6] == '_' as u8
            &&& name[7] == '+' as u8 || '0' as u8 <= name[7] <= '9' as u8
        },
{
    reveal_strlit("f_rest_");
    if crate::ply::is_rest_column(name) {
        let text = crate::ply::latin(name);
        let start = "f_rest_"@;
        assert(start =~= text.subrange(0, 7));
        assert(text.subrange(0, 7)[0] == text[0] && text.subrange(0, 7)[1] == text[1]
            && text.subrange(0, 7)[2] == text[2] && text.subrange(0, 7)[3] == text[3]
            && text.subrange(0, 7)[4] == text[4] && text.subrange(0, 7)[5] == text[5]
            && text.subrange(0, 7)[6] == text[6]);
        assert(name[0] as char == text[0] && name[1] as char == text[1] && name[2] as char
            == text[2] && name[3] as char == text[3] && name[4] as char == text[4]
            && name[5] as char == text[5] && name[6] as char == text[6]);
        let rest = crate::ply::latin(name.skip(7));
        let digits = crate::name_match::unsigned_digits(rest);
        assert(rest.len() > 0);
        assert(rest[0] == name[7] as char);
        if rest[0] != '+' {
            assert(crate::name_match::is_digit(digits[0]));
        }
    }
}

/// A line ends behind its first line feed, or with the file.
pub proof fn lines_end_at_the_first_line_feed(s: Seq<u8>, from: int)
    requires
        0 <= from <= s.len(),
    ensures
        from <= crate::ply::line_end(s, from) <= s.len(),
        forall|i: int| from <= i < crate::ply::line_end(s, from) - 1 ==> #[trigger] s[i] != 10,
        from < s.len() ==> from < crate::ply::line_end(s, from),
        from < crate::ply::line_end(s, from) < s.len() ==> s[crate::ply::line_end(s, from) - 1]
            == 10,
    decreases s.len() - from,
{
    if from < s.len() && s[from] != 10 {
        lines_end_at_the_first_line_feed(s, from + 1);
    }
}

/// A line without the white space at its end is the start of the line, and has none at its own end.
pub proof fn lines_lose_their_trailing_space(s: Seq<u8>)
    ensures
        crate::ply::trimmed_end(s).len() <= s.len(),
        crate::ply::trimmed_end(s) == s.take(crate::ply::trimmed_end(s).len() as int),
        ({
            let line = crate::ply::trimmed_end(s);
            line.len() > 0 ==> line.last() != 0x20 && !(9 <= line.last() <= 13)
        }),
        s.len() > 0 && !(9 <= s.last() <= 13) && s.last() != 0x20 && s.last() < 0x80
            ==> crate::ply::trimmed_end(s) == s,
    decreases s.len(),
{
    let k = crate::ply::trailing_space(s);
    if k > 0 {
        let shorter = s.take(s.len() - k);
        lines_lose_their_trailing_space(shorter);
        let n = crate::ply::trimmed_end(s).len() as int;
        assert(shorter.take(n) =~= s.take(n));
    } else {
        assert(s.take(s.len() as int) =~= s);
    }
}

proof fn separators_are_skipped(s: Seq<u8>, from: int)
    requires
        0 <= from <= s.len(),
    ensures
        from <= crate::ply::token_start(s, from) <= s.len(),
        forall|i: int|
            from <= i < crate::ply::token_start(s, from) ==> crate::ply::separator(#[trigger] s[i]),
        crate::ply::token_start(s, from) < s.len() ==> !crate::ply::separator(
            s[crate::ply::token_start(s, from)],
        ),
    decreases s.len() - from,
{
    if from < s.len() && crate::ply::separator(s[from]) {
        separators_are_skipped(s, from + 1);
    }
}

proof fn tokens_run_to_a_separator(s: Seq<u8>, from: int)
    requires
        0 <= from <= s.len(),
    ensures
        from <= crate::ply::token_end(s, from) <= s.len(),
        forall|i: int|
            from <= i < crate::ply::token_end(s, from) ==> !crate::ply::separator(#[trigger] s[i]),
        crate::ply::token_end(s, from) < s.len() ==> crate::ply::separator(
            s[crate::ply::token_end(s, from)],
        ),
        from < s.len() && !crate::ply::separator(s[from]) ==> from < crate::ply::token_end(s, from),
    decreases s.len() - from,
{
    if from < s.len() && !crate::ply::separator(s[from]) {
        tokens_run_to_a_separator(s, from + 1);
    }
}

/// A token is a part of its line.
pub open spec fn is_part_of(token: Seq<u8>, line: Seq<u8>) -> bool {
    exists|a: int, b: int| 0 <= a <= b <= line.len() && token == #[trigger] line.subrange(a, b)
}

/// The tokens of a line are parts of it, not empty and free of blanks, tabs and line feeds.
pub proof fn tokens_have_no_separators(s: Seq<u8>, from: int)
    requires
        0 <= from <= s.len(),
    ensures
        forall|t: int|
            0 <= t < crate::ply::tokens(s, from).len() ==> {
                let token = #[trigger] crate::ply::tokens(s, from)[t];
                &&& token.len() > 0
                &&& is_part_of(token, s)
                &&& forall|i: int|
                    0 <= i < token.len() ==> #[trigger] token[i] != 0x20 && token[i] != 9
                        && token[i] != 10 && token[i] != 12 && token[i] != 13
            },
        crate::ply::tokens(s, from).len() == 0 ==> forall|i: int|
            from <= i < s.len() ==> crate::ply::separator(#[trigger] s[i]),
    decreases s.len() - from,
{
    separators_are_skipped(s, from);
    let a = crate::ply::token_start(s, from);
    if a < s.len() {
        tokens_run_to_a_separator(s, a);
        let b = crate::ply::token_end(s, a);
        tokens_have_no_separators(s, b);
        let first = s.subrange(a, b);
        let rest = crate::ply::tokens(s, b);
        let all = crate::ply::tokens(s, from);
        assert(all == seq![first] + rest);
        assert forall|t: int| 0 <= t < all.len() implies {
            let token = #[trigger] all[t];
            &&& token.len() > 0
            &&& is_part_of(token, s)
            &&& forall|i: int|
                0 <= i < token.len() ==> #[trigger] token[i] != 0x20 && token[i] != 9 && token[i]
                    != 10 && token[i] != 12 && token[i] != 13
        } by {
            if t == 0 {
                assert(all[0] == first);
                assert forall|i: int| 0 <= i < first.len() implies #[trigger] first[i] != 0x20
                    && first[i] != 9 && first[i] != 10 && first[i] != 12 && first[i] != 13 by {
                    assert(!crate::ply::separator(s[a + i]));
                }
            } else {
                assert(all[t] == rest[t - 1]);
            }
        }
    }
}

/// What a header line may do: add one column, of a vertex, named by its third token, right behind the
/// columns before it; set the number of splats, of a vertex, to its third token; or tell that the
/// file is little-endian. All else stays.
pub proof fn header_lines_add_what_they_say(state: HeaderState, raw: Seq<u8>, next: HeaderState)
    requires
        crate::ply::header_line(state, raw) == Ok::<HeaderState, HeaderFault>(next),
    ensures
        ({
            let t = crate::ply::tokens(crate::ply::trimmed_end(raw), 0);
            let same = next.columns == state.columns && next.stride == state.stride;
            let added = {
                &&& state.in_vertex
                &&& t.len() == 3
                &&& next.columns.len() == state.columns.len() + 1
                &&& next.columns.take(state.columns.len() as int) == state.columns
                &&& next.columns.last().name == t[2]
                &&& PlyScalarType::named(crate::ply::latin(t[1])) == Some(
                    next.columns.last().data_type,
                )
                &&& next.columns.last().offset == state.stride
                &&& next.stride == state.stride + next.columns.last().data_type.width()
            };
            &&& same || added
            &&& added ==> next.splat_count == state.splat_count && next.in_vertex
            &&& next.splat_count != state.splat_count ==> t.len() == 3 && next.in_vertex
                && crate::ply::spelled_number(t[2]) == Some(next.splat_count) && crate::ply::latin(
                t[1],
            ) == "vertex"@
            &&& next.in_vertex && !state.in_vertex ==> t.len() == 3 && crate::ply::spelled_number(
                t[2],
            ) == Some(next.splat_count) && crate::ply::latin(t[1]) == "vertex"@
            &&& state.little_endian ==> next.little_endian
            &&& next.little_endian && !state.little_endian ==> t.len() >= 2 && crate::ply::latin(
                t[1],
            ) == "binary_little_endian"@
        }),
{
    if next.columns.len() > state.columns.len() {
        assert(next.columns.take(state.columns.len() as int) =~= state.columns);
    }
}

/// A header is accepted where it tells that the file is little-endian and has a column.
pub proof fn accepted_headers_have_columns(bytes: Seq<u8>)
    ensures
        crate::ply::header_of(bytes) matches Ok((state, end)) ==> state.little_endian
            && state.columns.len() > 0 && state.stride != 0,
{
}

/// The header ends with the line `end_header`.
pub proof fn headers_end_with_their_last_line(line: Seq<u8>)
    ensures
        crate::ply::ends_header(line) ==> {
            &&& line.len() == 11 || line.len() == 12
            &&& line.last() == 10
            &&& line.len() == 12 ==> line[10] == 13
            &&& line[0] == 'e' as u8 && line[1] == 'n' as u8 && line[2] == 'd' as u8 && line[3]
                == '_' as u8 && line[4] == 'h' as u8 && line[9] == 'r' as u8
        },
{
    reveal_strlit("end_header\n");
    reveal_strlit("end_header\r\n");
    if crate::ply::ends_header(line) {
        let text = crate::ply::latin(line);
        assert(text.len() == line.len());
        assert(text[0] == line[0] as char && text[1] == line[1] as char && text[2]
            == line[2] as char && text[3] == line[3] as char && text[4] == line[4] as char
            && text[9] == line[9] as char && text[10] == line[10] as char);
        assert(text[text.len() - 1] == line[line.len() - 1] as char);
    }
}

/// A file without all its columns is refused for the first that is missing, for want of further
/// colours, or for an original position that is not whole.
pub proof fn refused_columns_are_named(c: Seq<Column>, error: PlyLoadError)
    requires
        crate::ply::columns_error(c, error),
    ensures
        match error {
            PlyLoadError::MissingProperty { which } => {
                &&& which < 14
                &&& crate::ply::column_of(c, crate::ply::required_text(which as int)) is None
                &&& forall|k: int|
                    0 <= k < which ==> crate::ply::column_of(
                        c,
                        #[trigger] crate::ply::required_text(k),
                    ) is Some
            },
            PlyLoadError::MissingRest => forall|i: int|
                0 <= i < c.len() ==> !crate::ply::is_rest_column(#[trigger] c[i].name),
            PlyLoadError::PartialOrigin => {
                let x = crate::ply::column_of(c, "orig_x"@) is Some;
                let y = crate::ply::column_of(c, "orig_y"@) is Some;
                let z = crate::ply::column_of(c, "orig_z"@) is Some;
                let ox = crate::ply::column_of(c, "ox"@) is Some;
                let oy = crate::ply::column_of(c, "oy"@) is Some;
                let oz = crate::ply::column_of(c, "oz"@) is Some;
                &&& x || y || z || ox || oy || oz
                &&& !(x && y && z)
                &&& !(ox && oy && oz)
            },
            _ => false,
        },
{
}

/// Where line `k` of a file starts.
pub open spec fn line_start(bytes: Seq<u8>, k: nat) -> int
    decreases k,
{
    if k == 0 {
        0
    } else {
        crate::ply::line_end(bytes, line_start(bytes, (k - 1) as nat))
    }
}

/// Line `k` of a file ends its header.
pub open spec fn ends_at_line(bytes: Seq<u8>, k: nat) -> bool {
    crate::ply::ends_header(bytes.subrange(line_start(bytes, k), line_start(bytes, k + 1)))
}

/// Reading a header stops with a fault at line `k`: the line has the fault, or none may follow it.
pub open spec fn stops_at_line(bytes: Seq<u8>, k: nat, fault: HeaderFault) -> bool {
    k == 256 || exists|state: HeaderState|
        #[trigger] crate::ply::header_line(
            state,
            bytes.subrange(line_start(bytes, k), line_start(bytes, k + 1)),
        ) == Err::<HeaderState, HeaderFault>(fault)
}

/// A header ends with its first line that says so, which is among the first 257 of the file.
pub proof fn headers_end_within_their_lines(bytes: Seq<u8>, index: nat, state: HeaderState)
    requires
        index <= 256,
    ensures
        match crate::ply::header_lines(bytes, line_start(bytes, index), index, state) {
            Ok((_, end)) => exists|k: nat|
                {
                    &&& index <= k <= 256
                    &&& #[trigger] ends_at_line(bytes, k)
                    &&& end == line_start(bytes, k + 1)
                    &&& forall|j: nat| index <= j < k ==> !#[trigger] ends_at_line(bytes, j)
                },
            Err(fault) => exists|k: nat|
                {
                    &&& index <= k <= 256
                    &&& #[trigger] stops_at_line(bytes, k, fault)
                    &&& forall|j: nat| index <= j <= k ==> !#[trigger] ends_at_line(bytes, j)
                },
        },
    decreases 256 - index,
{
    let fault = crate::ply::header_lines(bytes, line_start(bytes, index), index, state)->Err_0;
    let line = bytes.subrange(line_start(bytes, index), line_start(bytes, index + 1));
    assert(ends_at_line(bytes, index) == crate::ply::ends_header(line));
    if !crate::ply::ends_header(line) && index < 256 {
        if let Ok(next) = crate::ply::header_line(state, line) {
            headers_end_within_their_lines(bytes, index + 1, next);
            if crate::ply::header_lines(
                bytes,
                line_start(bytes, index + 1),
                index + 1,
                next,
            ) is Ok {
                let k = choose|k: nat|
                    {
                        &&& index + 1 <= k <= 256
                        &&& #[trigger] ends_at_line(bytes, k)
                        &&& crate::ply::header_lines(
                            bytes,
                            line_start(bytes, index + 1),
                            index + 1,
                            next,
                        )->Ok_0.1 == line_start(bytes, k + 1)
                        &&& forall|j: nat|
                            index + 1 <= j < k ==> !#[trigger] ends_at_line(bytes, j)
                    };
                assert(ends_at_line(bytes, k));
            } else {
                let k = choose|k: nat|
                    {
                        &&& index + 1 <= k <= 256
                        &&& #[trigger] stops_at_line(bytes, k, fault)
                        &&& forall|j: nat|
                            index + 1 <= j <= k ==> !#[trigger] ends_at_line(bytes, j)
                    };
                assert(stops_at_line(bytes, k, fault));
            }
        } else {
            assert(crate::ply::header_line(state, line) == Err::<HeaderState, HeaderFault>(fault));
            assert(stops_at_line(bytes, index, fault));
        }
    } else if !crate::ply::ends_header(line) {
        assert(stops_at_line(bytes, index, fault));
    }
}

/// A line about the format takes effect where it names the one format that is read, and else changes
/// nothing.
pub proof fn format_lines_take_effect(state: HeaderState, raw: Seq<u8>)
    requires
        "format "@.is_prefix_of(crate::ply::latin(crate::ply::trimmed_end(raw))),
    ensures
        ({
            let t = crate::ply::tokens(crate::ply::trimmed_end(raw), 0);
            let little = t.len() >= 2 && crate::ply::latin(t[1]) == "binary_little_endian"@;
            let r = crate::ply::header_line(state, raw);
            &&& r is Ok
            &&& r->Ok_0.little_endian == (state.little_endian || little)
            &&& r->Ok_0.columns == state.columns && r->Ok_0.stride == state.stride
            &&& r->Ok_0.splat_count == state.splat_count && r->Ok_0.in_vertex == state.in_vertex
        }),
{
}

/// A line about an element starts the rows of splats where it names vertices, with their number; that
/// of another element ends them.
pub proof fn element_lines_take_effect(state: HeaderState, raw: Seq<u8>)
    requires
        "element "@.is_prefix_of(crate::ply::latin(crate::ply::trimmed_end(raw))),
    ensures
        ({
            let t = crate::ply::tokens(crate::ply::trimmed_end(raw), 0);
            let r = crate::ply::header_line(state, raw);
            let vertex = t.len() == 3 && crate::ply::latin(t[1]) == "vertex"@;
            let count = crate::ply::spelled_number(t[2]);
            &&& r is Err <==> vertex && count is None
            &&& r is Err ==> r->Err_0 == HeaderFault::VertexCount(t[2])
            &&& r is Ok && vertex ==> r->Ok_0.in_vertex && Some(r->Ok_0.splat_count) == count
            &&& r is Ok && !vertex ==> r->Ok_0.splat_count == state.splat_count
            &&& r is Ok && !vertex && t.len() == 3 ==> !r->Ok_0.in_vertex
            &&& r is Ok && t.len() != 3 ==> r->Ok_0.in_vertex == state.in_vertex
            &&& r is Ok ==> r->Ok_0.columns == state.columns && r->Ok_0.stride == state.stride
                && r->Ok_0.little_endian == state.little_endian
        }),
{
    reveal_strlit("format ");
    reveal_strlit("element ");
    let text = crate::ply::latin(crate::ply::trimmed_end(raw));
    assert("element "@[0] == 'e' && "format "@[0] == 'f');
    assert(text[0] == 'e') by {
        assert(text.subrange(0, 8) == "element "@);
        assert(text.subrange(0, 8)[0] == text[0]);
    }
    if "format "@.is_prefix_of(text) {
        assert(text.subrange(0, 7)[0] == text[0]);
    }
}

/// A line about a property of the splats adds a column of its name and type behind the others; a list,
/// an unknown type and too few or too many words are refused; of other elements it says nothing.
pub proof fn property_lines_take_effect(state: HeaderState, raw: Seq<u8>)
    requires
        "property "@.is_prefix_of(crate::ply::latin(crate::ply::trimmed_end(raw))),
    ensures
        ({
            let line = crate::ply::trimmed_end(raw);
            let t = crate::ply::tokens(line, 0);
            let r = crate::ply::header_line(state, raw);
            let simple = t.len() == 3 && crate::ply::latin(t[1]) != "list"@;
            let named = PlyScalarType::named(crate::ply::latin(t[1]));
            &&& !state.in_vertex ==> r == Ok::<HeaderState, HeaderFault>(state)
            &&& state.in_vertex && !simple ==> r == Err::<HeaderState, HeaderFault>(
                HeaderFault::PropertySyntax(line),
            )
            &&& state.in_vertex && simple && named is None ==> r == Err::<HeaderState, HeaderFault>(
                HeaderFault::ScalarType(t[1]),
            )
            &&& state.in_vertex && simple && named is Some ==> {
                &&& r is Ok
                &&& r->Ok_0.columns.len() == state.columns.len() + 1
                &&& r->Ok_0.columns.last().name == t[2]
                &&& Some(r->Ok_0.columns.last().data_type) == named
                &&& r->Ok_0.columns.last().offset == state.stride
            }
        }),
{
    reveal_strlit("format ");
    reveal_strlit("element ");
    reveal_strlit("property ");
    let text = crate::ply::latin(crate::ply::trimmed_end(raw));
    assert("element "@[0] == 'e' && "format "@[0] == 'f' && "property "@[0] == 'p');
    assert(text[0] == 'p') by {
        assert(text.subrange(0, 9) == "property "@);
        assert(text.subrange(0, 9)[0] == text[0]);
    }
    if "format "@.is_prefix_of(text) {
        assert(text.subrange(0, 7)[0] == text[0]);
    }
    if "element "@.is_prefix_of(text) {
        assert(text.subrange(0, 8)[0] == text[0]);
    }
}

} // verus!
