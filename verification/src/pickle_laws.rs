//! Laws of pickled containers: how values are written in them, and how they are found.

use crate::pickle::NumberModel;
use crate::torch_archive::{PtEntry, PtError, PtScan};
use crate::zip_file::EntryError;
use vstd::prelude::*;

verus! {

/// A small number is written behind `K` in one byte, behind `M` in two and behind `J` in four, the
/// lowest first, where only the last has a sign. Reading goes on behind it.
pub proof fn numbers_are_written_by_size(data: Seq<u8>, pos: int)
    requires
        0 <= pos < data.len(),
    ensures
        ({
            let (value, next) = crate::pickle::int_at(data, pos);
            let left = data.len() - pos;
            &&& data[pos] == 'K' as u8 && left >= 2 ==> value == Some(data[pos + 1] as int) && next
                == pos + 2
            &&& data[pos] == 'M' as u8 && left >= 3 ==> value == Some(
                data[pos + 1] + 0x100 * data[pos + 2],
            ) && next == pos + 3
            &&& data[pos] == 'J' as u8 && left >= 5 ==> {
                let word = crate::bank_laws::word(data, pos + 1);
                &&& value is Some
                &&& -0x8000_0000 <= value->0 < 0x8000_0000
                &&& value->0 == word || value->0 + 0x1_0000_0000 == word
                &&& next == pos + 5
            }
            &&& data[pos] != 'K' as u8 && data[pos] != 'M' as u8 && data[pos] != 'J' as u8
                ==> value is None && next == pos
            &&& value is Some ==> pos < next <= data.len()
        }),
{
    assert(crate::bytes::le_u32(data, pos + 1) == crate::bank_laws::word(data, pos + 1));
}

/// A truth value is one byte: 0x88 for true, 0x89 for false.
pub proof fn truth_values_are_one_byte(data: Seq<u8>, pos: int)
    ensures
        crate::pickle::bool_at(data, pos) == Some(true) <==> pos < data.len() && data[pos] == 0x88,
        crate::pickle::bool_at(data, pos) == Some(false) <==> pos < data.len() && data[pos] == 0x89,
{
}

/// A text is written behind `X` and its length in four bytes, and read back from there.
pub proof fn texts_are_written_with_their_length(data: Seq<u8>, pos: int, text: Seq<u8>)
    requires
        0 <= pos,
        pos + 5 + text.len() <= data.len(),
        data[pos] == 'X' as u8,
        crate::bank_laws::word(data, pos + 1) == text.len(),
        data.subrange(pos + 5, pos + 5 + text.len()) == text,
    ensures
        crate::pickle::text_at(data, text, pos),
        crate::pickle::string_at(data, pos).1 == pos + 5 + text.len(),
        vstd::utf8::valid_utf8(text) ==> crate::pickle::string_at(data, pos).0 == Some(
            vstd::utf8::decode_utf8(text),
        ),
        !vstd::utf8::valid_utf8(text) ==> crate::pickle::string_at(data, pos).0 is None,
{
    assert(crate::bytes::le_u32(data, pos + 1) == crate::bank_laws::word(data, pos + 1));
}

/// A place without `X` holds no text.
pub proof fn other_places_hold_no_text(data: Seq<u8>, pos: int, text: Seq<u8>)
    requires
        0 <= pos,
        pos >= data.len() || data[pos] != 'X' as u8,
    ensures
        !crate::pickle::text_at(data, text, pos),
        crate::pickle::string_at(data, pos).0 is None,
{
}

/// A long number is written behind `G` in eight bytes, the highest first; behind `F` as a line of
/// text; and else as a small number.
pub proof fn long_numbers_are_written_highest_first(data: Seq<u8>, pos: int)
    requires
        0 <= pos < data.len(),
    ensures
        data[pos] == 'G' as u8 && pos + 9 <= data.len() ==> {
            let (value, next) = crate::pickle::number_at(data, pos);
            &&& next == pos + 9
            &&& value matches Some(NumberModel::Double { bits }) && bits == 0x100_0000_0000_0000
                * data[pos + 1] + 0x1_0000_0000_0000 * data[pos + 2] + 0x100_0000_0000 * data[pos
                + 3] + 0x1_0000_0000 * data[pos + 4] + 0x100_0000 * data[pos + 5] + 0x1_0000
                * data[pos + 6] + 0x100 * data[pos + 7] + data[pos + 8]
        },
        data[pos] != 'G' as u8 && data[pos] != 'F' as u8 ==> {
            let (value, next) = crate::pickle::number_at(data, pos);
            &&& next == crate::pickle::int_at(data, pos).1
            &&& value is Some <==> crate::pickle::int_at(data, pos).0 is Some
            &&& value is Some ==> value == Some(
                NumberModel::Integer { value: crate::pickle::int_at(data, pos).0->0 },
            )
        },
{
}

/// A line ends at its line feed, or with the data.
pub proof fn lines_end_at_their_line_feed(data: Seq<u8>, from: int)
    requires
        0 <= from <= data.len(),
    ensures
        from <= crate::pickle::line_end(data, from) <= data.len(),
        crate::pickle::line_end(data, from) < data.len() ==> data[crate::pickle::line_end(
            data,
            from,
        )] == 10,
        forall|i: int| from <= i < crate::pickle::line_end(data, from) ==> #[trigger] data[i] != 10,
    decreases data.len() - from,
{
    if from < data.len() && data[from] != 10 {
        lines_end_at_their_line_feed(data, from + 1);
    }
}

/// Where a value is memoized, `q` and a byte stand between it and the next; they are skipped.
pub proof fn memos_are_skipped(data: Seq<u8>, pos: int)
    requires
        0 <= pos < data.len(),
        pos + 2 <= usize::MAX,
    ensures
        data[pos] == 'q' as u8 ==> crate::pickle::behind_memo(data, pos) == pos + 2,
        data[pos] != 'q' as u8 ==> crate::pickle::behind_memo(data, pos) == pos,
{
}

/// The memo of a text is told behind it: after `q` in one byte, after `r` in four.
pub proof fn memos_are_told_behind_the_text(data: Seq<u8>, text: Seq<u8>, pos: int)
    requires
        crate::pickle::text_at(data, text, pos),
    ensures
        ({
            let end = pos + 5 + text.len();
            let id = crate::pickle::memo_id_at(data, text, pos);
            &&& end + 2 <= data.len() && data[end] == 'q' as u8 ==> id == Some(
                data[end + 1] as usize,
            )
            &&& end + 5 <= data.len() && data[end] == 'r' as u8 ==> id is Some && id->0
                == crate::bank_laws::word(data, end + 1)
            &&& end >= data.len() || (data[end] != 'q' as u8 && data[end] != 'r' as u8)
                ==> id is None
        }),
{
    let end = pos + 5 + text.len();
    assert(crate::bytes::le_u32(data, end + 1) == crate::bank_laws::word(data, end + 1));
}

/// A memoized value is asked for by `h` and a byte, or `j` and four; the truth value behind the first
/// such place that has one is taken.
pub proof fn memoized_truth_values_are_found(data: Seq<u8>, id: usize, pos: int)
    requires
        0 <= pos < data.len(),
        id < 256,
    ensures
        pos + 1 < data.len() && data[pos] == 'h' as u8 && data[pos + 1] == id
            && crate::pickle::bool_at(data, pos + 2) is Some ==> crate::pickle::memoized_bool(
            data,
            id,
            pos,
        ) == crate::pickle::bool_at(data, pos + 2),
        pos + 5 <= data.len() && data[pos] == 'j' as u8 && crate::bank_laws::word(data, pos + 1)
            == id && crate::pickle::bool_at(data, pos + 5) is Some ==> crate::pickle::memoized_bool(
            data,
            id,
            pos,
        ) == crate::pickle::bool_at(data, pos + 5),
        data[pos] != 'h' as u8 && data[pos] != 'j' as u8 ==> crate::pickle::memoized_bool(
            data,
            id,
            pos,
        ) == crate::pickle::memoized_bool(data, id, pos + 1),
{
    assert(crate::bytes::le_u32(data, pos + 1) == crate::bank_laws::word(data, pos + 1));
}

proof fn first_places_are_first(data: Seq<u8>, text: Seq<u8>, from: int)
    requires
        0 <= from <= data.len(),
    ensures
        from <= crate::pickle::first_place(data, text, from) <= data.len(),
        crate::pickle::first_place(data, text, from) < data.len() ==> crate::pickle::text_at(
            data,
            text,
            crate::pickle::first_place(data, text, from),
        ),
        forall|q: int|
            from <= q < crate::pickle::first_place(data, text, from) ==> !crate::pickle::text_at(
                data,
                text,
                q,
            ),
    decreases data.len() - from,
{
    if from < data.len() && !crate::pickle::text_at(data, text, from) {
        first_places_are_first(data, text, from + 1);
    }
}

/// The value of a field stands behind the first place that holds its key; a field whose key stands
/// nowhere has none.
pub proof fn fields_stand_behind_their_key(data: Seq<u8>, key: Seq<u8>, place: int)
    requires
        crate::pickle::text_at(data, key, place),
        forall|q: int| 0 <= q < place ==> !crate::pickle::text_at(data, key, q),
    ensures
        ({
            let at = crate::pickle::behind_memo(data, place + 5 + key.len());
            &&& crate::pickle::key_end(data, key) == Some(place + 5 + key.len())
            &&& crate::pickle::string_field(data, key) == crate::pickle::string_at(data, at).0
            &&& crate::pickle::int_field(data, key) == crate::pickle::int_at(data, at).0
            &&& crate::pickle::number_field(data, key) == crate::pickle::number_at(data, at).0
            &&& crate::pickle::bool_at(data, at) is Some ==> crate::pickle::bool_field(data, key)
                == crate::pickle::bool_at(data, at)
        }),
{
    first_places_are_first(data, key, 0);
    let found = crate::pickle::first_place(data, key, 0);
    if found < place {
        assert(!crate::pickle::text_at(data, key, found));
    }
    if found > place {
        assert(!crate::pickle::text_at(data, key, place));
    }
}

/// Without its key a field has no value.
pub proof fn fields_without_a_key_have_no_value(data: Seq<u8>, key: Seq<u8>)
    requires
        forall|q: int| !crate::pickle::text_at(data, key, q),
    ensures
        crate::pickle::string_field(data, key) is None,
        crate::pickle::int_field(data, key) is None,
        crate::pickle::number_field(data, key) is None,
        crate::pickle::bool_field(data, key) is None,
        crate::pickle::int_tuple_field(data, key) is None,
{
}

/// The numbers of a tuple are read one by one up to `t`; anything else among them refuses it.
pub proof fn tuples_are_read_to_their_end(data: Seq<u8>, pos: int)
    requires
        0 <= pos < data.len(),
    ensures
        data[pos] == 't' as u8 ==> crate::pickle::ints_from(data, pos) == Some(Seq::<int>::empty()),
        data[pos] != 't' as u8 ==> {
            let (value, next) = crate::pickle::int_at(data, pos);
            let rest = crate::pickle::ints_from(data, next);
            let all = crate::pickle::ints_from(data, pos);
            &&& all is Some <==> value is Some && rest is Some
            &&& all is Some ==> {
                &&& (all->0).len() == (rest->0).len() + 1
                &&& (all->0)[0] == value->0
                &&& forall|i: int|
                    0 <= i < (rest->0).len() ==> #[trigger] (rest->0)[i] == (all->0)[i + 1]
            }
        },
{
}

/// A container entry is the pickle where its name ends in `data.pkl`.
pub proof fn pickles_are_told_by_name(name: Seq<char>, groups: Option<Seq<Option<Seq<char>>>>)
    ensures
        crate::torch_archive::entry_kind(name, groups) is Pickle <==> {
            let n = name.len() as int;
            &&& n >= 8
            &&& name[n - 8] == 'd' && name[n - 7] == 'a' && name[n - 6] == 't' && name[n - 5] == 'a'
            &&& name[n - 4] == '.' && name[n - 3] == 'p' && name[n - 2] == 'k' && name[n - 1] == 'l'
        },
        !(crate::torch_archive::entry_kind(name, groups) is Pickle) ==> {
            let number = crate::name_match::group_number(groups, 1);
            &&& groups is None ==> crate::torch_archive::entry_kind(name, groups) is Other
            &&& groups is Some && number is Some ==> crate::torch_archive::entry_kind(name, groups)
                == (PtEntry::Storage { id: number->0 })
            &&& groups is Some && number is None ==> crate::torch_archive::entry_kind(name, groups)
                == (PtEntry::BadNumber { fault: crate::name_match::group_fault(groups, 1) })
        },
{
    reveal_strlit("data.pkl");
    let n = name.len() as int;
    let end = "data.pkl"@;
    if n >= 8 {
        let last = name.subrange(n - 8, n);
        assert(last[0] == name[n - 8] && last[1] == name[n - 7] && last[2] == name[n - 6]
            && last[3] == name[n - 5] && last[4] == name[n - 4] && last[5] == name[n - 3]
            && last[6] == name[n - 2] && last[7] == name[n - 1]);
        if end.is_suffix_of(name) {
            assert(last == end);
        }
        if last[0] == 'd' && last[1] == 'a' && last[2] == 't' && last[3] == 'a' && last[4] == '.'
            && last[5] == 'p' && last[6] == 'k' && last[7] == 'l' {
            assert(last =~= end);
        }
    }
}

proof fn last_arrays_are_last(arrays: Seq<(usize, Seq<u8>)>, n: nat, id: int)
    requires
        n <= arrays.len(),
    ensures
        match crate::torch_archive::last_array(arrays, n, id) {
            Some(bytes) => exists|i: int|
                {
                    &&& 0 <= i < n
                    &&& (#[trigger] arrays[i]).0 == id
                    &&& arrays[i].1 == bytes
                    &&& forall|j: int| i < j < n ==> (#[trigger] arrays[j]).0 != id
                },
            None => forall|j: int| 0 <= j < n ==> (#[trigger] arrays[j]).0 != id,
        },
    decreases n,
{
    if n > 0 {
        if arrays[n - 1].0 == id {
            assert(arrays[n - 1].1 == arrays[n - 1].1);
        } else {
            last_arrays_are_last(arrays, (n - 1) as nat, id);
            if crate::torch_archive::last_array(arrays, n, id) is Some {
                let bytes = crate::torch_archive::last_array(arrays, n, id)->0;
                let i = choose|i: int|
                    {
                        &&& 0 <= i < n - 1
                        &&& (#[trigger] arrays[i]).0 == id
                        &&& arrays[i].1 == bytes
                        &&& forall|j: int| i < j < n - 1 ==> (#[trigger] arrays[j]).0 != id
                    };
                assert(arrays[i].0 == id);
            }
        }
    }
}

/// The arrays of a container are put in the order of their numbers: array `id` is the last that has
/// this number.
pub proof fn arrays_come_by_number(arrays: Seq<(usize, Seq<u8>)>, n: nat, id: int)
    requires
        crate::torch_archive::arrays_before(arrays, n) is Ok,
        0 <= id < n,
    ensures
        ({
            let list = crate::torch_archive::arrays_before(arrays, n)->Ok_0;
            &&& list.len() == n
            &&& exists|i: int|
                {
                    &&& 0 <= i < arrays.len()
                    &&& (#[trigger] arrays[i]).0 == id
                    &&& arrays[i].1 == list[id]
                    &&& forall|j: int| i < j < arrays.len() ==> (#[trigger] arrays[j]).0 != id
                }
        }),
    decreases n,
{
    arrays_are_counted(arrays, n);
    arrays_are_counted(arrays, (n - 1) as nat);
    last_arrays_are_last(arrays, arrays.len(), id);
    if id < n - 1 {
        arrays_come_by_number(arrays, (n - 1) as nat, id);
        assert(crate::torch_archive::arrays_before(arrays, n)->Ok_0[id]
            == crate::torch_archive::arrays_before(arrays, (n - 1) as nat)->Ok_0[id]);
    }
}

proof fn arrays_are_counted(arrays: Seq<(usize, Seq<u8>)>, n: nat)
    ensures
        crate::torch_archive::arrays_before(arrays, n) matches Ok(list) ==> list.len() == n,
    decreases n,
{
    if n > 0 {
        arrays_are_counted(arrays, (n - 1) as nat);
    }
}

/// Arrays with different numbers all count; one whose number comes again later does not.
pub proof fn arrays_count_once(arrays: Seq<(usize, Seq<u8>)>, from: nat)
    requires
        from <= arrays.len(),
    ensures
        crate::torch_archive::distinct_from(arrays, from) <= arrays.len() - from,
        (forall|i: int, j: int|
            from <= i < j < arrays.len() ==> (#[trigger] arrays[i]).0 != (#[trigger] arrays[j]).0)
            ==> crate::torch_archive::distinct_from(arrays, from) == arrays.len() - from,
        from + 1 < arrays.len() && arrays[from as int].0 == arrays[(from + 1) as int].0
            ==> crate::torch_archive::distinct_from(arrays, from)
            == crate::torch_archive::distinct_from(arrays, from + 1),
    decreases arrays.len() - from,
{
    if from < arrays.len() {
        arrays_count_once(arrays, from + 1);
        if from + 1 < arrays.len() && arrays[from as int].0 == arrays[(from + 1) as int].0 {
            assert(arrays[(from + 1) as int].0 == arrays[from as int].0);
            assert(crate::torch_archive::replaced(arrays, from as int));
        }
    }
}

/// A container needs its pickle, and all arrays from 0 up to as many as there are.
pub proof fn containers_need_their_pickle(scan: PtScan)
    ensures
        ({
            let r = crate::torch_archive::assembled_pt(scan);
            let list = crate::torch_archive::arrays_before(
                scan.arrays,
                crate::torch_archive::distinct_from(scan.arrays, 0),
            );
            &&& scan.pkl is None ==> r == Err::<(Seq<u8>, Seq<Seq<u8>>), PtError>(PtError::NoPickle)
            &&& r is Ok <==> scan.pkl is Some && list is Ok
            &&& r is Ok ==> Some((r->Ok_0).0) == scan.pkl && (r->Ok_0).1 == list->Ok_0
        }),
{
}

/// The numbers of an array are read in fours of bytes, where there is such an array and it has whole
/// fours.
pub proof fn arrays_are_read_in_fours(storages: Seq<Seq<u8>>, id: int)
    requires
        0 <= id <= usize::MAX,
    ensures
        ({
            let r = crate::torch_archive::array_numbers(storages, id);
            &&& r is Ok <==> id < storages.len() && storages[id].len() as int % 4 == 0
            &&& r matches Ok(values) ==> {
                &&& 4 * values.len() == storages[id].len()
                &&& forall|i: int|
                    0 <= i < values.len() ==> #[trigger] values[i] == crate::bank_laws::word(
                        storages[id],
                        4 * i,
                    )
            }
            &&& r matches Err(error) ==> if id >= storages.len() {
                error == PtError::StorageMissing { id: id as usize }
            } else {
                error == PtError::StorageLength { id: id as usize }
            }
        }),
{
}

/// The data of an entry counts where it could be read and has the length that was asked for.
pub proof fn entries_are_read_whole(
    data: Result<Seq<u8>, Seq<char>>,
    index: usize,
    wanted: u64,
)
    ensures
        ({
            let r = crate::zip_file::complete_data(data, index, wanted);
            &&& r is Ok <==> data is Ok && data->Ok_0.len() == wanted
            &&& r is Ok ==> r->Ok_0 == data->Ok_0
            &&& data is Err ==> r == Err::<Seq<u8>, EntryError>(
                EntryError::Read { index, limit: wanted },
            )
            &&& data is Ok && data->Ok_0.len() != wanted ==> r == Err::<Seq<u8>, EntryError>(
                EntryError::Short,
            )
        }),
{
}

/// The start of an entry is read where the entry is that long.
pub proof fn starts_of_entries_are_read_where_long_enough(
    archive: Seq<u8>,
    index: usize,
    prefix: u64,
)
    ensures
        ({
            let r = crate::zip_file::entry_prefix(archive, index, prefix);
            let size = crate::zip_file::zip_size(archive, index);
            &&& size is Err ==> r == Err::<Seq<u8>, EntryError>(EntryError::Open { index })
            &&& size is Ok && size->Ok_0 < prefix ==> r == Err::<Seq<u8>, EntryError>(
                EntryError::TooSmall { size: size->Ok_0, expected: prefix },
            )
            &&& r matches Ok(bytes) ==> size is Ok && size->Ok_0 >= prefix && bytes.len() == prefix
            &&& crate::zip_file::whole_entry(archive, index) matches Ok(bytes) ==> size is Ok
                && bytes.len() == size->Ok_0
            &&& size is Err ==> crate::zip_file::whole_entry(archive, index) == Err::<
                Seq<u8>,
                EntryError,
            >(EntryError::Open { index })
        }),
{
}

/// The memos of a text are those told behind each place that holds it.
pub proof fn memos_of_all_places_count(data: Seq<u8>, text: Seq<u8>, n: nat, pos: int)
    requires
        0 <= pos < n,
        crate::pickle::memo_id_at(data, text, pos) is Some,
    ensures
        crate::pickle::memo_ids(data, text, n).contains(
            crate::pickle::memo_id_at(data, text, pos)->0,
        ),
    decreases n,
{
    let id = crate::pickle::memo_id_at(data, text, pos)->0;
    let before = crate::pickle::memo_ids(data, text, (n - 1) as nat);
    let ids = crate::pickle::memo_ids(data, text, n);
    if pos < n - 1 {
        memos_of_all_places_count(data, text, (n - 1) as nat, pos);
        let i = choose|i: int| 0 <= i < before.len() && before[i] == id;
        assert(ids[i] == id);
    } else {
        assert(ids[before.len() as int] == id);
    }
}

/// Nothing else is a memo of a text.
pub proof fn memos_come_from_a_place(data: Seq<u8>, text: Seq<u8>, n: nat, i: int)
    requires
        0 <= i < crate::pickle::memo_ids(data, text, n).len(),
    ensures
        exists|pos: int|
            0 <= pos < n && #[trigger] crate::pickle::memo_id_at(data, text, pos) == Some(
                crate::pickle::memo_ids(data, text, n)[i],
            ),
    decreases n,
{
    let before = crate::pickle::memo_ids(data, text, (n - 1) as nat);
    let ids = crate::pickle::memo_ids(data, text, n);
    if n > 0 {
        if i < before.len() {
            memos_come_from_a_place(data, text, (n - 1) as nat, i);
            let pos = choose|pos: int|
                0 <= pos < n - 1 && #[trigger] crate::pickle::memo_id_at(data, text, pos) == Some(
                    before[i],
                );
            assert(crate::pickle::memo_id_at(data, text, pos) == Some(ids[i]));
        } else {
            assert(crate::pickle::memo_id_at(data, text, n - 1) == Some(ids[i]));
        }
    }
}

/// Of several memos the first that has a truth value gives it.
pub proof fn the_first_memo_with_a_value_counts(
    data: Seq<u8>,
    ids: Seq<usize>,
    from: nat,
    at: int,
)
    requires
        from <= at < ids.len(),
        crate::pickle::memoized_bool(data, ids[at], 0) is Some,
        forall|i: int|
            from <= i < at ==> crate::pickle::memoized_bool(data, #[trigger] ids[i], 0) is None,
    ensures
        crate::pickle::first_memoized_bool(data, ids, from) == crate::pickle::memoized_bool(
            data,
            ids[at],
            0,
        ),
    decreases ids.len() - from,
{
    if from < at {
        assert(crate::pickle::memoized_bool(data, ids[from as int], 0) is None);
        the_first_memo_with_a_value_counts(data, ids, from + 1, at);
    }
}

} // verus!
