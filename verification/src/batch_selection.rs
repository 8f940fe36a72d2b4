//! Selections of bases that are typed as a list of numbers and ranges, such as `0, 3, 8-12`.

use crate::name_match::parse_usize;
use crate::text::{chars_of, decimal, find_char, to_ascii_lowercase, trim_part};
use vstd::prelude::*;
use vstd::string::*;

verus! {

/// A selection so far: the bases in the order in which they were first named, or what is wrong.
pub type Selection = Result<Seq<usize>, Seq<char>>;

pub open spec fn quoted(before: Seq<char>, entry: Seq<char>, behind: Seq<char>) -> Seq<char> {
    before + entry + behind
}

/// A list with a number at its end, unless the list holds it already.
pub open spec fn with_new(list: Seq<usize>, id: usize) -> Seq<usize> {
    if list.contains(id) {
        list
    } else {
        list.push(id)
    }
}

/// Adds the bases `start` to `end`; the first that there is not is refused.
pub open spec fn add_range(valid: Seq<usize>, list: Seq<usize>, start: int, end: int) -> Selection
    decreases end - start + 1,
{
    if start > end {
        Ok(list)
    } else if !valid.contains(start as usize) {
        Err("Basis "@ + crate::text::decimal_text(start as nat) + " is out of range"@)
    } else {
        add_range(valid, with_new(list, start as usize), start + 1, end)
    }
}

/// Adds an entry: a number, or two numbers with a hyphen between them.
pub open spec fn add_entry(valid: Seq<usize>, list: Seq<usize>, entry: Seq<char>) -> Selection {
    let hyphen = crate::text::char_place(entry, '-', 0);
    if entry.len() == 0 {
        Err("Empty basis entry"@)
    } else if hyphen < entry.len() {
        let first = entry.take(hyphen);
        let last = entry.skip(hyphen + 1);
        if crate::text::char_place(last, '-', 0) < last.len() {
            Err(quoted("Invalid range '"@, entry, "'"@))
        } else {
            match (
                crate::name_match::usize_value(crate::text::trimmed(first)),
                crate::name_match::usize_value(crate::text::trimmed(last)),
            ) {
                (Some(start), Some(end)) => if start > end {
                    Err(quoted("Range '"@, entry, "' is reversed"@))
                } else {
                    add_range(valid, list, start as int, end as int)
                },
                _ => Err(quoted("Invalid basis '"@, entry, "'"@)),
            }
        }
    } else {
        match crate::name_match::usize_value(entry) {
            Some(id) => add_range(valid, list, id as int, id as int),
            None => Err(quoted("Invalid basis '"@, entry, "'"@)),
        }
    }
}

/// Adds the entries of a text, which commas separate; white space around an entry does not count.
pub open spec fn add_entries(valid: Seq<usize>, list: Seq<usize>, text: Seq<char>) -> Selection
    decreases text.len(),
{
    let comma = crate::text::char_place(text, ',', 0);
    match add_entry(valid, list, crate::text::trimmed(text.take(comma))) {
        Err(e) => Err(e),
        Ok(more) => if 0 <= comma < text.len() {
            add_entries(valid, more, text.skip(comma + 1))
        } else {
            Ok(more)
        },
    }
}

/// The bases that a text selects: all of them, or those that it lists.
pub open spec fn selected(text: Seq<char>, valid: Seq<usize>) -> Selection {
    let t = crate::text::trimmed(text);
    if t.len() == 0 {
        Err("Enter basis IDs or ranges"@)
    } else if crate::text::lowered(t) == "all"@ {
        if valid.len() == 0 {
            Err("No basis IDs available"@)
        } else {
            Ok(valid)
        }
    } else {
        match add_entries(valid, Seq::empty(), t) {
            Err(e) => Err(e),
            Ok(list) => if list.len() == 0 {
                Err("No basis IDs selected"@)
            } else {
                Ok(list)
            },
        }
    }
}

pub open spec fn selection_view(r: Result<Vec<usize>, String>) -> Selection {
    match r {
        Ok(v) => Ok(v@),
        Err(e) => Err(e@),
    }
}

fn message(before: &str, entry: &str, behind: &str) -> (r: String)
    ensures
        r@ == quoted(before@, entry@, behind@),
{
    let mut s: String = before.to_owned();
    s.append(entry);
    s.append(behind);
    s
}

fn holds(list: &[usize], id: usize) -> (r: bool)
    ensures
        r == list@.contains(id),
{
    for i in 0..list.len()
        invariant
            forall|k: int| 0 <= k < i ==> list@[k] != id,
    {
        if list[i] == id {
            return true;
        }
    }
    false
}

fn push_range(valid: &[usize], list: &mut Vec<usize>, start: usize, end: usize) -> (r: Result<
    (),
    String,
>)
    requires
        start <= end,
    ensures
        match r {
            Ok(()) => add_range(valid@, old(list)@, start as int, end as int) == Selection::Ok(
                final(list)@,
            ),
            Err(e) => add_range(valid@, old(list)@, start as int, end as int) == Selection::Err(e@),
        },
{
    let ghost whole = add_range(valid@, list@, start as int, end as int);
    let mut id: usize = start;
    loop
        invariant_except_break
            start <= id <= end,
            whole == add_range(valid@, list@, id as int, end as int),
            whole == add_range(valid@, old(list)@, start as int, end as int),
        ensures
            whole == Selection::Ok(list@),
            whole == add_range(valid@, old(list)@, start as int, end as int),
        decreases end - id,
    {
        if !holds(valid, id) {
            let number: String = decimal(id as u64);
            return Err(message("Basis ", number.as_str(), " is out of range"));
        }
        if !holds(list.as_slice(), id) {
            list.push(id);
        }
        if id == end {
            assert(add_range(valid@, list@, id + 1, end as int) == Selection::Ok(list@));
            break;
        }
        id = id + 1;
    }
    Ok(())
}

fn push_entry(
    valid: &[usize],
    list: &mut Vec<usize>,
    text: &str,
    chars: &[char],
    from: usize,
    to: usize,
) -> (r: Result<(), String>)
    requires
        chars@ == text@,
        from <= to <= chars@.len(),
    ensures
        match r {
            Ok(()) => add_entry(
                valid@,
                old(list)@,
                text@.subrange(from as int, to as int),
            ) == Selection::Ok(final(list)@),
            Err(e) => add_entry(
                valid@,
                old(list)@,
                text@.subrange(from as int, to as int),
            ) == Selection::Err(e@),
        },
{
    let ghost entry = text@.subrange(from as int, to as int);
    if from == to {
        return Err("Empty basis entry".to_owned());
    }
    let hyphen: usize = find_char(chars, '-', from, to);
    let shown: &str = text.substring_char(from, to);
    if hyphen < to {
        assert(entry.take(hyphen - from) =~= text@.subrange(from as int, hyphen as int));
        assert(entry.skip(hyphen - from + 1) =~= text@.subrange(hyphen + 1, to as int));
        if find_char(chars, '-', hyphen + 1, to) < to {
            return Err(message("Invalid range '", shown, "'"));
        }
        let (a, b): (usize, usize) = trim_part(chars, from, hyphen);
        let (c, d): (usize, usize) = trim_part(chars, hyphen + 1, to);
        let first: Option<usize> = parse_usize(vstd::slice::slice_subrange(chars, a, b));
        let last: Option<usize> = parse_usize(vstd::slice::slice_subrange(chars, c, d));
        match (first, last) {
            (Some(start), Some(end)) => {
                if start > end {
                    return Err(message("Range '", shown, "' is reversed"));
                }
                push_range(valid, list, start, end)
            },
            _ => Err(message("Invalid basis '", shown, "'")),
        }
    } else {
        match parse_usize(vstd::slice::slice_subrange(chars, from, to)) {
            Some(id) => push_range(valid, list, id, id),
            None => Err(message("Invalid basis '", shown, "'")),
        }
    }
}

/// Reads a selection of bases from a text.
pub fn parse_basis_batch_selection(text: &str, valid_ids: &[usize]) -> (r: Result<
    Vec<usize>,
    String,
>)
    ensures
        selection_view(r) == selected(text@, valid_ids@),
{
    let chars: Vec<char> = chars_of(text);
    let whole: &[char] = chars.as_slice();
    let (start, end): (usize, usize) = trim_part(whole, 0, chars.len());
    assert(text@.subrange(0, text@.len() as int) =~= text@);
    let ghost t = crate::text::trimmed(text@);
    if start == end {
        return Err("Enter basis IDs or ranges".to_owned());
    }
    let lower: String = to_ascii_lowercase(text.substring_char(start, end));
    if lower == "all".to_owned() {
        if valid_ids.len() == 0 {
            return Err("No basis IDs available".to_owned());
        }
        return Ok(vstd::slice::slice_to_vec(valid_ids));
    }
    let mut list: Vec<usize> = Vec::new();
    let ghost outcome = add_entries(valid_ids@, list@, t);
    let mut from: usize = start;
    loop
        invariant_except_break
            start <= from <= end,
            outcome == add_entries(
                valid_ids@,
                list@,
                text@.subrange(from as int, end as int),
            ),
        invariant
            end <= whole@.len(),
            whole@ == text@,
            outcome is Err ==> selected(text@, valid_ids@) == outcome,
        ensures
            outcome == Selection::Ok(list@),
        decreases end - from,
    {
        let comma: usize = find_char(whole, ',', from, end);
        let (a, b): (usize, usize) = trim_part(whole, from, comma);
        assert(text@.subrange(from as int, end as int).take(comma - from) =~= text@.subrange(
            from as int,
            comma as int,
        ));
        match push_entry(valid_ids, &mut list, text, whole, a, b) {
            Ok(()) => {},
            Err(e) => {
                return Err(e);
            },
        }
        if comma == end {
            break;
        }
        assert(text@.subrange(from as int, end as int).skip(comma - from + 1) =~= text@.subrange(
            comma + 1,
            end as int,
        ));
        from = comma + 1;
    }
    if list.len() == 0 {
        Err("No basis IDs selected".to_owned())
    } else {
        Ok(list)
    }
}

/// Reads a selection among the first `basis_count` bases.
pub fn basis_batch_ids(basis_count: usize, text: &str) -> (r: Result<Vec<usize>, String>)
    ensures
        selection_view(r) == selected(text@, Seq::new(basis_count as nat, |i: int| i as usize)),
{
    let mut valid: Vec<usize> = Vec::new();
    for i in 0..basis_count
        invariant
            valid@ == Seq::new(i as nat, |k: int| k as usize),
    {
        valid.push(i);
    }
    parse_basis_batch_selection(text, valid.as_slice())
}

/// A listed selection names bases that there are, each once.
pub proof fn selections_are_valid_and_distinct(text: Seq<char>, valid: Seq<usize>)
    ensures
        selected(text, valid) is Ok ==> {
            let list = selected(text, valid)->Ok_0;
            &&& list.len() > 0
            &&& forall|i: int| 0 <= i < list.len() ==> valid.contains(#[trigger] list[i])
            &&& list == valid || list.no_duplicates()
        },
{
    let t = crate::text::trimmed(text);
    entries_stay_valid(valid, Seq::empty(), t);
}

spec fn sound(list: Seq<usize>, valid: Seq<usize>) -> bool {
    &&& forall|i: int| 0 <= i < list.len() ==> valid.contains(#[trigger] list[i])
    &&& list.no_duplicates()
}

proof fn entries_stay_valid(valid: Seq<usize>, list: Seq<usize>, text: Seq<char>)
    requires
        sound(list, valid),
    ensures
        add_entries(valid, list, text) is Ok ==> sound(
            add_entries(valid, list, text)->Ok_0,
            valid,
        ),
    decreases text.len(),
{
    let comma = crate::text::char_place(text, ',', 0);
    let entry = crate::text::trimmed(text.take(comma));
    entry_stays_valid(valid, list, entry);
    if add_entry(valid, list, entry) is Ok && 0 <= comma < text.len() {
        entries_stay_valid(valid, add_entry(valid, list, entry)->Ok_0, text.skip(comma + 1));
    }
}

proof fn entry_stays_valid(valid: Seq<usize>, list: Seq<usize>, entry: Seq<char>)
    requires
        sound(list, valid),
    ensures
        add_entry(valid, list, entry) is Ok ==> sound(add_entry(valid, list, entry)->Ok_0, valid),
{
    let hyphen = crate::text::char_place(entry, '-', 0);
    if hyphen < entry.len() {
        let first = crate::name_match::usize_value(crate::text::trimmed(entry.take(hyphen)));
        let last = crate::name_match::usize_value(crate::text::trimmed(entry.skip(hyphen + 1)));
        if first is Some && last is Some {
            range_stays_valid(valid, list, first->0 as int, last->0 as int);
        }
    } else {
        let id = crate::name_match::usize_value(entry);
        if id is Some {
            range_stays_valid(valid, list, id->0 as int, id->0 as int);
        }
    }
}

proof fn range_stays_valid(valid: Seq<usize>, list: Seq<usize>, start: int, end: int)
    requires
        sound(list, valid),
    ensures
        add_range(valid, list, start, end) is Ok ==> sound(
            add_range(valid, list, start, end)->Ok_0,
            valid,
        ),
    decreases end - start + 1,
{
    if start <= end && valid.contains(start as usize) {
        range_stays_valid(valid, with_new(list, start as usize), start + 1, end);
    }
}

} // verus!
