//! Laws of the texts: numbers that are written and read back, labels, and lists of bases.

use crate::basis_bank_messages::BasisPayload;
use crate::basis_bank_motion::BasisPayloadError;
use crate::basis_branch_regions::BasisGraphBranchDomain;
use crate::basis_graph_playback::{
    BasisBranchRejection, BasisGraphLastEdge, BasisGraphPlaybackPolicy,
};
use crate::batch_selection::Selection;
use crate::scene_archive::SceneArchiveError;
use vstd::prelude::*;

verus! {

/// A number in decimal notation has digits only, no zero in front, and is read back.
pub proof fn numbers_are_read_back(n: nat)
    ensures
        crate::text::decimal_text(n).len() > 0,
        crate::name_match::all_digits(crate::text::decimal_text(n)),
        crate::name_match::digits_value(crate::text::decimal_text(n)) == n,
        n > 0 ==> crate::text::decimal_text(n)[0] != '0',
        n <= usize::MAX ==> crate::name_match::usize_value(crate::text::decimal_text(n)) == Some(
            n as usize,
        ),
    decreases n,
{
    let text = crate::text::decimal_text(n);
    if n < 10 {
        assert(text[0] == crate::text::digit_char(n));
        assert(text.drop_last() =~= Seq::<char>::empty());
        assert(crate::name_match::digits_value(Seq::<char>::empty()) == 0);
        assert(text.last() as u32 == 48 + n);
    } else {
        numbers_are_read_back(n / 10);
        let front = crate::text::decimal_text(n / 10);
        assert(text.drop_last() =~= front);
        assert(text.last() as u32 == 48 + n % 10);
        assert(text[0] == front[0]);
        assert forall|i: int| 0 <= i < text.len() implies crate::name_match::is_digit(
            #[trigger] text[i],
        ) by {
            if i < front.len() {
                assert(crate::name_match::is_digit(front[i]));
            }
        }
    }
    assert(crate::name_match::is_digit(text[0]));
    assert(text[0] != '+');
}

/// Different numbers have different texts.
pub proof fn numbers_have_their_own_text(m: nat, n: nat)
    requires
        crate::text::decimal_text(m) == crate::text::decimal_text(n),
    ensures
        m == n,
{
    numbers_are_read_back(m);
    numbers_are_read_back(n);
}

/// A text without its commas.
pub open spec fn without_commas(s: Seq<char>) -> Seq<char>
    decreases s.len(),
{
    if s.len() == 0 {
        Seq::empty()
    } else if s.last() == ',' {
        without_commas(s.drop_last())
    } else {
        without_commas(s.drop_last()).push(s.last())
    }
}

proof fn commas_go_from_both_parts(a: Seq<char>, b: Seq<char>)
    ensures
        without_commas(a + b) == without_commas(a) + without_commas(b),
    decreases b.len(),
{
    if b.len() == 0 {
        assert(a + b =~= a);
        assert(without_commas(a) + without_commas(b) =~= without_commas(a));
    } else {
        commas_go_from_both_parts(a, b.drop_last());
        assert((a + b).drop_last() =~= a + b.drop_last());
        assert(without_commas(a + b) =~= without_commas(a) + without_commas(b));
    }
}

proof fn digits_have_no_commas(s: Seq<char>)
    requires
        crate::name_match::all_digits(s),
    ensures
        without_commas(s) == s,
    decreases s.len(),
{
    if s.len() > 0 {
        assert(crate::name_match::is_digit(s[s.len() - 1]));
        assert(crate::name_match::all_digits(s.drop_last())) by {
            assert forall|i: int| 0 <= i < s.drop_last().len() implies crate::name_match::is_digit(
                #[trigger] s.drop_last()[i],
            ) by {
                assert(crate::name_match::is_digit(s[i]));
            }
        }
        digits_have_no_commas(s.drop_last());
        assert(s.drop_last().push(s.last()) =~= s);
    } else {
        assert(without_commas(s) =~= s);
    }
}

/// A grouped number is the number in decimal notation with commas in it, one before each group of
/// three digits.
pub proof fn grouped_numbers_are_the_number(n: nat)
    ensures
        without_commas(crate::gui_labels::grouped_text(n)) == crate::text::decimal_text(n),
        n >= 1000 ==> {
            let text = crate::gui_labels::grouped_text(n);
            &&& text.len() >= 5
            &&& text[text.len() - 4] == ','
            &&& text.take(text.len() - 4) == crate::gui_labels::grouped_text(n / 1000)
        },
    decreases n,
{
    let text = crate::gui_labels::grouped_text(n);
    if n < 1000 {
        numbers_are_read_back(n);
        digits_have_no_commas(crate::text::decimal_text(n));
    } else {
        grouped_numbers_are_the_number(n / 1000);
        let head = crate::gui_labels::grouped_text(n / 1000);
        let tail = crate::gui_labels::three_digits(n);
        assert(head.len() > 0) by {
            if n / 1000 < 1000 {
                numbers_are_read_back(n / 1000);
            }
        }
        assert(text == head + seq![','] + tail);
        commas_go_from_both_parts(head + seq![','], tail);
        commas_go_from_both_parts(head, seq![',']);
        assert(seq![','].drop_last() =~= Seq::<char>::empty());
        assert(without_commas(Seq::<char>::empty()) =~= Seq::<char>::empty());
        assert(without_commas(seq![',']) == without_commas(seq![','].drop_last()));
        assert(crate::name_match::all_digits(tail));
        digits_have_no_commas(tail);
        let d1 = n % 10;
        let d2 = n / 10 % 10;
        let d3 = n / 100 % 10;
        assert(n / 10 / 10 == n / 100 && n / 100 / 10 == n / 1000);
        assert(crate::text::decimal_text(n) == crate::text::decimal_text(n / 10).push(
            crate::text::digit_char(d1),
        ));
        assert(crate::text::decimal_text(n / 10) == crate::text::decimal_text(n / 100).push(
            crate::text::digit_char(d2),
        ));
        assert(crate::text::decimal_text(n / 100) == crate::text::decimal_text(n / 1000).push(
            crate::text::digit_char(d3),
        ));
        assert(without_commas(text) =~= crate::text::decimal_text(n));
        assert(text.take(text.len() - 4) =~= head);
    }
}

/// Making capitals small changes the letters `A` to `Z` alone, and once is enough.
pub proof fn small_letters_stay(s: Seq<char>, i: int)
    requires
        0 <= i < s.len(),
    ensures
        crate::text::lowered(s).len() == s.len(),
        'A' <= s[i] <= 'Z' ==> crate::text::lowered(s)[i] as u32 == s[i] as u32 + 32,
        !('A' <= s[i] <= 'Z') ==> crate::text::lowered(s)[i] == s[i],
        !('A' <= crate::text::lowered(s)[i] <= 'Z'),
        crate::text::lowered(crate::text::lowered(s)) == crate::text::lowered(s),
{
    assert(crate::text::lowered(crate::text::lowered(s)) =~= crate::text::lowered(s));
}

proof fn starts_are_trimmed(s: Seq<char>) -> (from: int)
    ensures
        0 <= from <= s.len(),
        crate::text::trimmed_start(s) == s.skip(from),
        forall|i: int| 0 <= i < from ==> crate::text::white_space(#[trigger] s[i]),
        from < s.len() ==> !crate::text::white_space(s[from]),
    decreases s.len(),
{
    if s.len() > 0 && crate::text::white_space(s[0]) {
        let rest = s.skip(1);
        let from = starts_are_trimmed(rest);
        assert forall|i: int| 0 <= i < from + 1 implies crate::text::white_space(
            #[trigger] s[i],
        ) by {
            if i > 0 {
                assert(rest[i - 1] == s[i]);
            }
        }
        assert(rest.skip(from) =~= s.skip(from + 1));
        from + 1
    } else {
        assert(s.skip(0) =~= s);
        0
    }
}

proof fn ends_are_trimmed(s: Seq<char>) -> (to: int)
    ensures
        0 <= to <= s.len(),
        crate::text::trimmed_end(s) == s.take(to),
        forall|i: int| to <= i < s.len() ==> crate::text::white_space(#[trigger] s[i]),
        to > 0 ==> !crate::text::white_space(s[to - 1]),
    decreases s.len(),
{
    if s.len() > 0 && crate::text::white_space(s.last()) {
        let rest = s.drop_last();
        let to = ends_are_trimmed(rest);
        assert forall|i: int| to <= i < s.len() implies crate::text::white_space(
            #[trigger] s[i],
        ) by {
            if i < rest.len() {
                assert(rest[i] == s[i]);
            }
        }
        assert(rest.take(to) =~= s.take(to));
        to
    } else {
        assert(s.take(s.len() as int) =~= s);
        s.len() as int
    }
}

/// What is left of a text when it is trimmed is a part of it, with nothing but white space before and
/// behind, and no white space at its own ends.
pub proof fn trimmed_texts_have_bare_ends(s: Seq<char>) -> (r: (int, int))
    ensures
        0 <= r.0 <= r.1 <= s.len(),
        crate::text::trimmed(s) == s.subrange(r.0, r.1),
        forall|i: int| 0 <= i < r.0 ==> crate::text::white_space(#[trigger] s[i]),
        forall|i: int| r.1 <= i < s.len() ==> crate::text::white_space(#[trigger] s[i]),
        r.0 < r.1 ==> !crate::text::white_space(s[r.0]) && !crate::text::white_space(s[r.1 - 1]),
{
    let from = starts_are_trimmed(s);
    let rest = s.skip(from);
    let to = ends_are_trimmed(rest);
    assert forall|i: int| from + to <= i < s.len() implies crate::text::white_space(
        #[trigger] s[i],
    ) by {
        assert(rest[i - from] == s[i]);
    }
    assert(rest.take(to) =~= s.subrange(from, from + to));
    if to > 0 {
        assert(rest[to - 1] == s[from + to - 1]);
    }
    (from, from + to)
}

/// Blanks, tabs and ends of lines are white space; what is printed is not.
pub proof fn blanks_are_white_space(c: char)
    ensures
        c == ' ' || c == '\t' || c == '\n' || c == '\r' ==> crate::text::white_space(c),
        '!' <= c <= '~' ==> !crate::text::white_space(c),
{
}

/// A character is found where it first stands, or not at all.
pub proof fn characters_are_found_where_they_first_stand(s: Seq<char>, c: char, from: int)
    requires
        0 <= from <= s.len(),
    ensures
        from <= crate::text::char_place(s, c, from) <= s.len(),
        crate::text::char_place(s, c, from) < s.len() ==> s[crate::text::char_place(s, c, from)]
            == c,
        forall|i: int| from <= i < crate::text::char_place(s, c, from) ==> #[trigger] s[i] != c,
    decreases s.len() - from,
{
    if from < s.len() && s[from] != c {
        characters_are_found_where_they_first_stand(s, c, from + 1);
    }
}

/// A range adds its bases to a selection, each once, where all of them exist. Otherwise the first
/// that does not exist is named.
pub proof fn ranges_add_their_bases(valid: Seq<usize>, list: Seq<usize>, start: int, end: int)
    requires
        0 <= start,
        end <= usize::MAX,
    ensures
        match crate::batch_selection::add_range(valid, list, start, end) {
            Ok(more) => {
                &&& list.is_prefix_of(more)
                &&& forall|i: int| start <= i <= end ==> #[trigger] valid.contains(i as usize)
                &&& forall|i: int| start <= i <= end ==> #[trigger] more.contains(i as usize)
                &&& forall|id: usize|
                    #[trigger] more.contains(id) ==> list.contains(id) || start <= id <= end
            },
            Err(said) => exists|i: int|
                {
                    &&& start <= i <= end
                    &&& !#[trigger] valid.contains(i as usize)
                    &&& said == "Basis "@ + crate::text::decimal_text(i as nat)
                        + " is out of range"@
                    &&& forall|j: int| start <= j < i ==> #[trigger] valid.contains(j as usize)
                },
        },
    decreases end - start + 1,
{
    if start <= end {
        if valid.contains(start as usize) {
            let next = crate::batch_selection::with_new(list, start as usize);
            ranges_add_their_bases(valid, next, start + 1, end);
            assert(next.contains(start as usize)) by {
                if !list.contains(start as usize) {
                    assert(next[list.len() as int] == start as usize);
                }
            }
            assert(list.is_prefix_of(next)) by {
                assert(next.subrange(0, list.len() as int) =~= list);
            }
            match crate::batch_selection::add_range(valid, list, start, end) {
                Ok(more) => {
                    assert(list =~= more.subrange(0, list.len() as int)) by {
                        assert(next =~= more.subrange(0, next.len() as int));
                        assert forall|k: int| 0 <= k < list.len() implies list[k]
                            == more.subrange(0, list.len() as int)[k] by {
                            assert(next[k] == list[k]);
                            assert(more.subrange(0, next.len() as int)[k] == more[k]);
                        }
                    }
                    assert forall|i: int| start <= i <= end implies #[trigger] more.contains(
                        i as usize,
                    ) by {
                        if i > start {
                            assert(start + 1 <= i <= end);
                            assert(more.contains(i as usize));
                        } else {
                            assert(i == start);
                            let k = choose|k: int| 0 <= k < next.len() && next[k] == start as usize;
                            assert(more.subrange(0, next.len() as int)[k] == next[k]);
                            assert(more[k] == start as usize);
                        }
                    }
                    assert forall|id: usize| #[trigger] more.contains(id) implies list.contains(id)
                        || start <= id <= end by {
                        if next.contains(id) && !list.contains(id) {
                            let k = choose|k: int| 0 <= k < next.len() && next[k] == id;
                            assert(k == list.len());
                        }
                    }
                },
                Err(said) => {
                    let i = choose|i: int|
                        {
                            &&& start + 1 <= i <= end
                            &&& !#[trigger] valid.contains(i as usize)
                            &&& said == "Basis "@ + crate::text::decimal_text(i as nat)
                                + " is out of range"@
                            &&& forall|j: int|
                                start + 1 <= j < i ==> #[trigger] valid.contains(j as usize)
                        };
                    assert(!valid.contains(i as usize));
                },
            }
        } else {
            assert(!valid.contains(start as usize));
        }
    } else {
        assert(list.subrange(0, list.len() as int) =~= list);
    }
}

/// An entry that is a number adds that basis; two numbers with a hyphen between them add all from the
/// first to the second, and are refused where the second is less.
pub proof fn entries_add_what_they_name(valid: Seq<usize>, list: Seq<usize>, first: usize, last: usize)
    ensures
        crate::batch_selection::add_entry(
            valid,
            list,
            crate::text::decimal_text(first as nat),
        ) == crate::batch_selection::add_range(valid, list, first as int, first as int),
        ({
            let entry = crate::text::decimal_text(first as nat) + seq!['-']
                + crate::text::decimal_text(last as nat);
            let r = crate::batch_selection::add_entry(valid, list, entry);
            &&& first <= last ==> r == crate::batch_selection::add_range(
                valid,
                list,
                first as int,
                last as int,
            )
            &&& first > last ==> r is Err
        }),
{
    let a = crate::text::decimal_text(first as nat);
    let b = crate::text::decimal_text(last as nat);
    let entry = a + seq!['-'] + b;
    numbers_are_read_back(first as nat);
    numbers_are_read_back(last as nat);
    digits_have_no_hyphen(a);
    digits_have_no_hyphen(b);
    digits_are_not_trimmed(a);
    digits_are_not_trimmed(b);
    characters_are_found_where_they_first_stand(entry, '-', 0);
    let at = crate::text::char_place(entry, '-', 0);
    assert(entry[a.len() as int] == '-');
    assert(at == a.len()) by {
        if at < a.len() {
            assert(entry[at] == a[at]);
            assert(crate::name_match::is_digit(a[at]));
        }
    }
    assert(entry.take(at) =~= a);
    assert(entry.skip(at + 1) =~= b);
}

proof fn digits_have_no_hyphen(s: Seq<char>)
    requires
        crate::name_match::all_digits(s),
    ensures
        crate::text::char_place(s, '-', 0) == s.len(),
{
    characters_are_found_where_they_first_stand(s, '-', 0);
    let at = crate::text::char_place(s, '-', 0);
    if at < s.len() {
        assert(crate::name_match::is_digit(s[at]));
    }
}

proof fn digits_are_not_trimmed(s: Seq<char>)
    requires
        crate::name_match::all_digits(s),
        s.len() > 0,
    ensures
        crate::text::trimmed(s) == s,
{
    let r = trimmed_texts_have_bare_ends(s);
    assert(crate::name_match::is_digit(s[0]));
    assert(crate::name_match::is_digit(s[s.len() - 1]));
    if r.0 > 0 {
        assert(crate::text::white_space(s[0]));
    }
    if r.1 < s.len() {
        assert(crate::text::white_space(s[s.len() - 1]));
    }
    assert(s.subrange(0, s.len() as int) =~= s);
}

/// The word `all`, in any letters and with white space around it, selects every basis there is.
pub proof fn all_selects_every_basis(text: Seq<char>, valid: Seq<usize>)
    requires
        crate::text::lowered(crate::text::trimmed(text)) == seq!['a', 'l', 'l'],
    ensures
        valid.len() > 0 ==> crate::batch_selection::selected(text, valid) == Selection::Ok(valid),
        valid.len() == 0 ==> crate::batch_selection::selected(text, valid) is Err,
{
    reveal_strlit("all");
    assert("all"@ =~= seq!['a', 'l', 'l']);
}

/// The label of a refused branch is the first limit that it breaks, and a good branch is called so.
pub proof fn refused_branches_are_labelled(rejection: BasisBranchRejection)
    ensures
        rejection.score ==> crate::gui_labels::quality_text(rejection)[0] == 'S',
        !rejection.score && rejection.position ==> crate::gui_labels::quality_text(rejection)[0]
            == 'P',
        !rejection.score && !rejection.position && rejection.velocity
            ==> crate::gui_labels::quality_text(rejection)[0] == 'V',
        !rejection.score && !rejection.position && !rejection.velocity && rejection.acceleration
            ==> crate::gui_labels::quality_text(rejection)[0] == 'A',
        !rejection.any() ==> crate::gui_labels::quality_text(rejection)[0] == 'G',
{
    reveal_strlit("Score");
    reveal_strlit("Position");
    reveal_strlit("Velocity");
    reveal_strlit("Acceleration");
    reveal_strlit("Good");
}

/// The reasons for refusing a branch are listed one by one: score, position, velocity, acceleration.
pub proof fn every_reason_is_listed(rejection: BasisBranchRejection)
    ensures
        ({
            let r = crate::gui_labels::reasons(rejection);
            let n = |b: bool|
                if b {
                    1int
                } else {
                    0int
                };
            &&& r.len() == n(rejection.score) + n(rejection.position) + n(rejection.velocity) + n(
                rejection.acceleration,
            )
            &&& rejection.score ==> r[0] == "score"@
            &&& rejection.position ==> r[n(rejection.score)] == "position"@
            &&& rejection.velocity ==> r[n(rejection.score) + n(rejection.position)] == "velocity"@
            &&& rejection.acceleration ==> r[r.len() - 1] == "acceleration"@
        }),
{
}

/// Policies are called after what they do.
pub proof fn policies_have_their_labels(policy: BasisGraphPlaybackPolicy)
    ensures
        policy is Continue ==> policy.label()[0] == 'C' && crate::gui_labels::policy_text(policy)
            == policy.label(),
        policy is Rank0 ==> policy.label()[0] == 'R' && crate::gui_labels::policy_text(policy)[0]
            == 'B',
        policy is Stochastic ==> policy.label()[0] == 'S' && crate::gui_labels::policy_text(
            policy,
        )[0] == 'R',
{
    reveal_strlit("Continue");
    reveal_strlit("Rank 0");
    reveal_strlit("Stochastic");
    reveal_strlit("Best");
    reveal_strlit("Random");
}

/// An entry that is empty, or holds two hyphens, selects nothing.
pub proof fn entries_with_two_hyphens_are_refused(
    valid: Seq<usize>,
    list: Seq<usize>,
    entry: Seq<char>,
    i: int,
    j: int,
)
    requires
        0 <= i < j < entry.len(),
        entry[i] == '-',
        entry[j] == '-',
    ensures
        crate::batch_selection::add_entry(valid, list, entry) is Err,
        crate::batch_selection::add_entry(valid, list, Seq::empty()) is Err,
{
    characters_are_found_where_they_first_stand(entry, '-', 0);
    let hyphen = crate::text::char_place(entry, '-', 0);
    if hyphen > i {
        assert(entry[i] != '-');
    }
    let last = entry.skip(hyphen + 1);
    characters_are_found_where_they_first_stand(last, '-', 0);
    assert(last[j - hyphen - 1] == '-');
    if crate::text::char_place(last, '-', 0) >= last.len() {
        assert(last[j - hyphen - 1] != '-');
    }
}

proof fn digits_end_with_the_text(s: Seq<char>, from: nat)
    requires
        from <= s.len(),
        crate::name_match::all_digits(s),
    ensures
        crate::name_match::digits_end(s, from) == s.len(),
    decreases s.len() - from,
{
    if from < s.len() {
        digits_end_with_the_text(s, from + 1);
    }
}

/// A text of digits that is no number is too large; one that starts with no digit is none.
pub proof fn refused_numbers_tell_why(groups: Seq<Option<Seq<char>>>, index: int, text: Seq<char>)
    requires
        0 <= index < groups.len(),
        groups[index] == Some(text),
    ensures
        crate::name_match::all_digits(text) && crate::name_match::digits_value(text) > usize::MAX
            ==> crate::name_match::group_fault(Some(groups), index) is TooLarge,
        text.len() == 0 || !crate::name_match::is_digit(text[0])
            ==> crate::name_match::group_fault(Some(groups), index) is NotDigits,
        crate::name_match::all_digits(text) && crate::name_match::digits_value(text) <= usize::MAX
            ==> crate::name_match::group_fault(Some(groups), index) is NotDigits,
{
    if crate::name_match::all_digits(text) {
        digits_end_with_the_text(text, 0);
        assert(text.take(text.len() as int) =~= text);
    }
    if text.len() == 0 || !crate::name_match::is_digit(text[0]) {
        assert(text.take(0) =~= Seq::empty());
    }
}

/// Two words with something before, between and behind them.
pub open spec fn framed(
    before: Seq<char>,
    first: Seq<char>,
    between: Seq<char>,
    second: Seq<char>,
    behind: Seq<char>,
) -> Seq<char> {
    before + first + between + second + behind
}

/// A text tells two numbers, one after the other.
pub open spec fn tells(text: Seq<char>, first: int, second: int) -> bool {
    exists|before: Seq<char>, between: Seq<char>, behind: Seq<char>|
        text == #[trigger] framed(
            before,
            crate::text::decimal_text(first as nat),
            between,
            crate::text::decimal_text(second as nat),
            behind,
        )
}

proof fn tells_what_it_frames(
    text: Seq<char>,
    before: Seq<char>,
    first: int,
    between: Seq<char>,
    second: int,
    behind: Seq<char>,
)
    requires
        text == before + crate::text::decimal_text(first as nat) + between
            + crate::text::decimal_text(second as nat) + behind,
    ensures
        tells(text, first, second),
{
    assert(text == framed(
        before,
        crate::text::decimal_text(first as nat),
        between,
        crate::text::decimal_text(second as nat),
        behind,
    ));
}

/// The label of a branch tells where it leads: its rank before the basis, and the basis before the
/// segment.
pub proof fn edge_labels_tell_the_target(rank: usize, basis: usize, segment: usize)
    ensures
        ({
            let text = crate::gui_labels::edge_text(
                BasisGraphLastEdge::Branch {
                    rank,
                    to_basis_id: basis,
                    to_segment: segment,
                },
            );
            &&& tells(text, rank as int, basis as int)
            &&& tells(text, basis as int, segment as int)
        }),
{
    let text = crate::gui_labels::edge_text(
        BasisGraphLastEdge::Branch { rank, to_basis_id: basis, to_segment: segment },
    );
    let r = crate::text::decimal_text(rank as nat);
    let b = crate::text::decimal_text(basis as nat);
    let s = crate::text::decimal_text(segment as nat);
    assert(text =~= "branch rank "@ + r + " -> global "@ + b + (" / segment "@ + s));
    tells_what_it_frames(
        text,
        "branch rank "@,
        rank as int,
        " -> global "@,
        basis as int,
        " / segment "@ + s,
    );
    assert(text =~= "branch rank "@ + r + " -> global "@ + b + " / segment "@ + s
        + Seq::<char>::empty());
    tells_what_it_frames(
        text,
        "branch rank "@ + r + " -> global "@,
        basis as int,
        " / segment "@,
        segment as int,
        Seq::empty(),
    );
}

/// The label of a knot tells its number and the last of its kind, where knots of the source count
/// from 0 and those of the closure from 1.
pub proof fn knot_labels_count_from_their_start(knot: usize, source: usize, exported: usize)
    requires
        knot < exported,
    ensures
        ({
            let text = crate::gui_labels::knot_text(knot, source, exported);
            &&& knot < source ==> tells(text, knot as int, source - 1)
            &&& knot >= source ==> tells(text, knot - source + 1, exported - source)
        }),
{
    let text = crate::gui_labels::knot_text(knot, source, exported);
    if knot < source {
        assert(text =~= text + Seq::<char>::empty());
        tells_what_it_frames(
            text,
            "source knot "@,
            knot as int,
            " / "@,
            source - 1,
            Seq::empty(),
        );
    } else {
        assert(text =~= text + Seq::<char>::empty());
        tells_what_it_frames(
            text,
            "closure knot C"@,
            knot - source + 1,
            " / C"@,
            exported - source,
            Seq::empty(),
        );
    }
}

/// The label of playback tells the basis of a splat before the one that is played.
pub proof fn playback_labels_tell_both_bases(
    domain: BasisGraphBranchDomain,
    region: usize,
    original: usize,
    active: usize,
)
    ensures
        ({
            let text = crate::gui_labels::playback_text(domain, region, original, active);
            &&& tells(text, original as int, active as int)
            &&& domain is FbmRegions ==> tells(text, region as int, original as int)
        }),
{
    let text = crate::gui_labels::playback_text(domain, region, original, active);
    let name = "Shared LoD0 basis "@;
    let o = crate::text::decimal_text(original as nat);
    let a = crate::text::decimal_text(active as nat);
    let r = crate::text::decimal_text(region as nat);
    let front = if domain is FbmRegions {
        "Region "@ + r + " / "@ + name
    } else {
        name
    };
    assert(text =~= front + o + (" -> "@ + name) + a + Seq::<char>::empty());
    tells_what_it_frames(
        text,
        front,
        original as int,
        " -> "@ + name,
        active as int,
        Seq::empty(),
    );
    if domain is FbmRegions {
        assert(text =~= "Region "@ + r + (" / "@ + name) + o + (" -> "@ + name + a));
        tells_what_it_frames(
            text,
            "Region "@,
            region as int,
            " / "@ + name,
            original as int,
            " -> "@ + name + a,
        );
    }
}

/// Messages about an archive tell what was found before what was expected, and a tile before its LoD.
pub proof fn archive_messages_tell_their_numbers(archive: Seq<u8>, a: usize, b: usize)
    ensures
        tells(
            (SceneArchiveError::CoefficientFiles { found: a, expected: b }).text(archive),
            a as int,
            b as int,
        ),
        tells(
            (SceneArchiveError::DuplicateCoefficients { tile: a, lod: b }).text(archive),
            a as int,
            b as int,
        ),
{
    let files = (SceneArchiveError::CoefficientFiles { found: a, expected: b }).text(archive);
    assert(files =~= files + Seq::<char>::empty());
    tells_what_it_frames(
        files,
        "shared-LoD0 motion has "@,
        a as int,
        " coefficient files, expected "@,
        b as int,
        Seq::empty(),
    );
    let twice = (SceneArchiveError::DuplicateCoefficients { tile: a, lod: b }).text(archive);
    assert(twice =~= twice + Seq::<char>::empty());
    tells_what_it_frames(
        twice,
        "duplicate basis coefficients for tile"@,
        a as int,
        "_lod"@,
        b as int,
        Seq::empty(),
    );
}

/// The message about a file of motion that has the wrong length tells the length that it has before
/// the one that it should have.
pub proof fn length_messages_tell_both_lengths(
    payload: BasisPayload,
    found: usize,
    expected: usize,
)
    ensures
        tells(
            (BasisPayloadError::Length { found, expected }).text(payload),
            found as int,
            expected as int,
        ),
{
    let text = (BasisPayloadError::Length { found, expected }).text(payload);
    assert(text =~= text + Seq::<char>::empty());
    tells_what_it_frames(
        text,
        payload.text() + " byte length mismatch: got "@,
        found as int,
        ", expected "@,
        expected as int,
        Seq::empty(),
    );
}

} // verus!
