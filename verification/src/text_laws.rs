//! What the text operations are for, said of the characters themselves.

use crate::text::{
    contains_text, decimal_spec, is_white_space, join_spec, message_view, occurs_at, reply_view,
    same_ignoring_ascii_case, split_once_spec, str_view, strictly_sorted, string_view, text_less,
    texts, trim_end_matches_spec, trim_end_spec, trim_spec, trim_start_spec,
};
use vstd::prelude::*;

verus! {

/// A text that is there is taken by its characters, and one that is not there is not.
pub proof fn views_hold_the_characters(text: String, list: Seq<String>, at: int)
    requires
        0 <= at < list.len(),
    ensures
        string_view(Some(text)) == Some(text@),
        string_view(None) is None,
        reply_view(Ok(text)) == Ok::<Seq<char>, Seq<char>>(text@),
        reply_view(Err(text)) == Err::<Seq<char>, Seq<char>>(text@),
        message_view::<String>(Ok(text)) == Ok::<String, Seq<char>>(text),
        message_view::<String>(Err(text)) == Err::<String, Seq<char>>(text@),
        texts(list).len() == list.len(),
        texts(list)[at] == list[at]@,
{
}

/// A slice that is there is taken by its characters, and one that is not there is not.
pub proof fn slices_hold_the_characters(text: &str)
    ensures
        str_view(Some(text)) == Some(text@),
        str_view(None) is None,
{
}

/// A text is found in another exactly where the other is that text with something before and behind
/// it.
pub proof fn found_text_stands_between(haystack: Seq<char>, needle: Seq<char>)
    ensures
        contains_text(haystack, needle) <==> exists|before: Seq<char>, behind: Seq<char>|
            haystack == #[trigger] (before + needle + behind),
{
    if contains_text(haystack, needle) {
        let at = choose|at: int| #[trigger] occurs_at(haystack, needle, at);
        let before = haystack.take(at);
        let behind = haystack.skip(at + needle.len());
        assert(haystack =~= before + haystack.subrange(at, at + needle.len()) + behind);
        assert(haystack == before + needle + behind);
    }
    if exists|before: Seq<char>, behind: Seq<char>| haystack == #[trigger] (before + needle + behind) {
        let (before, behind) = choose|before: Seq<char>, behind: Seq<char>|
            haystack == #[trigger] (before + needle + behind);
        let at = before.len() as int;
        assert(haystack.subrange(at, at + needle.len()) =~= needle);
        assert(occurs_at(haystack, needle, at));
    }
}

/// Splitting takes a text apart at the first mark, and nowhere else: what stands before holds no mark,
/// and with the mark between them the parts make the text again.
pub proof fn splitting_takes_apart(text: Seq<char>, mark: char)
    ensures
        match split_once_spec(text, mark) {
            Some((before, behind)) => text == before + seq![mark] + behind && !before.contains(mark),
            None => !text.contains(mark),
        },
        split_once_spec(text, mark) is Some <==> text.contains(mark),
{
    text.index_of_first_ensures(mark);
    if let Some(at) = text.index_of_first(mark) {
        assert(text =~= text.take(at) + seq![mark] + text.skip(at + 1));
        assert forall|i: int| 0 <= i < at implies text.take(at)[i] != mark by {}
    }
}

/// Two parts with a mark between them are split into these parts again, where the first holds no
/// mark.
pub proof fn splitting_undoes_joining(before: Seq<char>, behind: Seq<char>, mark: char)
    requires
        !before.contains(mark),
    ensures
        split_once_spec(before + seq![mark] + behind, mark) == Some((before, behind)),
{
    let text = before + seq![mark] + behind;
    text.index_of_first_ensures(mark);
    assert(text[before.len() as int] == mark);
    assert(text.contains(mark));
    let at = text.index_of_first(mark)->0;
    if at < before.len() {
        assert(before[at] == text[at]);
        assert(before.contains(mark));
    }
    assert(at == before.len());
    assert(text.take(at) =~= before);
    assert(text.skip(at + 1) =~= behind);
}

/// Line breaks, tabs and blanks are white space, in ASCII and beyond it; what ASCII prints is not.
pub proof fn white_space_is_blank(c: char)
    ensures
        9 <= c as u32 <= 13 || c as u32 == 32 ==> is_white_space(c),
        c as u32 <= 8 || 14 <= c as u32 <= 31 || 33 <= c as u32 <= 132 ==> !is_white_space(c),
        c as u32 == 0x85 || c as u32 == 0xa0 || c as u32 == 0x1680 ==> is_white_space(c),
        0x2000 <= c as u32 <= 0x200a ==> is_white_space(c),
        c as u32 == 0x2028 || c as u32 == 0x2029 || c as u32 == 0x202f ==> is_white_space(c),
        c as u32 == 0x205f || c as u32 == 0x3000 ==> is_white_space(c),
        0xa1 <= c as u32 <= 0x167f || 0x3001 <= c as u32 ==> !is_white_space(c),
{
}

/// Trimming takes white space off both ends, all of it and nothing else.
pub proof fn trimming_takes_white_space_off(text: Seq<char>)
    ensures
        ({
            let trimmed = trim_spec(text);
            &&& exists|before: Seq<char>, behind: Seq<char>|
                {
                    &&& text == #[trigger] (before + trimmed + behind)
                    &&& forall|i: int| 0 <= i < before.len() ==> is_white_space(#[trigger] before[i])
                    &&& forall|i: int| 0 <= i < behind.len() ==> is_white_space(#[trigger] behind[i])
                }
            &&& trimmed.len() > 0 ==> !is_white_space(trimmed[0]) && !is_white_space(trimmed.last())
        }),
{
    let middle = trim_start_spec(text);
    let before = lemma_trim_start(text);
    let behind = lemma_trim_end(middle);
    let trimmed = trim_spec(text);
    assert(text =~= before + trimmed + behind);
    if trimmed.len() > 0 {
        assert(middle[0] == trimmed[0]);
    }
}

proof fn lemma_trim_start(text: Seq<char>) -> (before: Seq<char>)
    ensures
        text == before + trim_start_spec(text),
        forall|i: int| 0 <= i < before.len() ==> is_white_space(#[trigger] before[i]),
        trim_start_spec(text).len() > 0 ==> !is_white_space(trim_start_spec(text)[0]),
    decreases text.len(),
{
    if text.len() > 0 && is_white_space(text[0]) {
        let rest = lemma_trim_start(text.skip(1));
        let before = seq![text[0]] + rest;
        let left = trim_start_spec(text);
        assert(text.skip(1) == rest + left);
        assert(text =~= seq![text[0]] + text.skip(1));
        assert(before + left =~= seq![text[0]] + (rest + left));
        assert forall|i: int| 0 <= i < before.len() implies is_white_space(#[trigger] before[i]) by {
            if i > 0 {
                assert(before[i] == rest[i - 1]);
            }
        }
        before
    } else {
        let before = Seq::<char>::empty();
        assert(text =~= before + trim_start_spec(text));
        before
    }
}

proof fn lemma_trim_end(text: Seq<char>) -> (behind: Seq<char>)
    ensures
        text == trim_end_spec(text) + behind,
        forall|i: int| 0 <= i < behind.len() ==> is_white_space(#[trigger] behind[i]),
        trim_end_spec(text).len() > 0 ==> !is_white_space(trim_end_spec(text).last()),
    decreases text.len(),
{
    if text.len() > 0 && is_white_space(text.last()) {
        let rest = lemma_trim_end(text.drop_last());
        let behind = rest.push(text.last());
        let left = trim_end_spec(text);
        assert(text.drop_last() == left + rest);
        assert(text =~= text.drop_last().push(text.last()));
        assert(left + behind =~= (left + rest).push(text.last()));
        behind
    } else {
        let behind = Seq::<char>::empty();
        assert(text =~= trim_end_spec(text) + behind);
        behind
    }
}

/// A text without white space at its ends is trimmed already.
pub proof fn trimmed_texts_stay(text: Seq<char>)
    requires
        text.len() > 0 ==> !is_white_space(text[0]) && !is_white_space(text.last()),
    ensures
        trim_spec(text) == text,
{
}

/// Two texts are the same but for the case of ASCII letters exactly where they are equally long and
/// each character is the same, or the one is an ASCII letter and the other its counterpart.
pub proof fn case_is_all_that_differs(a: Seq<char>, b: Seq<char>)
    ensures
        same_ignoring_ascii_case(a, b) <==> a.len() == b.len() && forall|i: int|
            0 <= i < a.len() ==> {
                ||| #[trigger] a[i] == b[i]
                ||| 65 <= a[i] as u32 <= 90 && b[i] as u32 == a[i] as u32 + 32
                ||| 65 <= b[i] as u32 <= 90 && a[i] as u32 == b[i] as u32 + 32
            },
{
    let x = a.map_values(|c: char| crate::text::ascii_lower(c));
    let y = b.map_values(|c: char| crate::text::ascii_lower(c));
    if same_ignoring_ascii_case(a, b) {
        assert(x.len() == a.len() && y.len() == b.len());
        assert forall|i: int| 0 <= i < a.len() implies {
            ||| #[trigger] a[i] == b[i]
            ||| 65 <= a[i] as u32 <= 90 && b[i] as u32 == a[i] as u32 + 32
            ||| 65 <= b[i] as u32 <= 90 && a[i] as u32 == b[i] as u32 + 32
        } by {
            assert(x[i] == y[i]);
        }
    }
    if a.len() == b.len() && forall|i: int|
        0 <= i < a.len() ==> {
            ||| #[trigger] a[i] == b[i]
            ||| 65 <= a[i] as u32 <= 90 && b[i] as u32 == a[i] as u32 + 32
            ||| 65 <= b[i] as u32 <= 90 && a[i] as u32 == b[i] as u32 + 32
        } {
        assert forall|i: int| 0 <= i < a.len() implies x[i] == y[i] by {
            assert(a[i] == b[i] || a[i] != b[i]);
        }
        assert(x =~= y);
    }
}

/// A text so many times over.
pub open spec fn times(text: Seq<char>, count: nat) -> Seq<char>
    decreases count,
{
    if count == 0 {
        Seq::empty()
    } else {
        times(text, (count - 1) as nat) + text
    }
}

/// Taking an ending off takes it off as often as it is there, and nothing else.
pub proof fn endings_are_taken_off(text: Seq<char>, suffix: Seq<char>)
    requires
        suffix.len() > 0,
    ensures
        ({
            let left = trim_end_matches_spec(text, suffix);
            &&& exists|count: nat| text == left + #[trigger] times(suffix, count)
            &&& forall|before: Seq<char>| left != #[trigger] (before + suffix)
        }),
    decreases text.len(),
{
    let left = trim_end_matches_spec(text, suffix);
    let start = text.len() - suffix.len();
    if start >= 0 && text.subrange(start, text.len() as int) == suffix {
        let shorter = text.take(start);
        endings_are_taken_off(shorter, suffix);
        assert(trim_end_matches_spec(shorter, suffix) == left);
        let count = choose|count: nat| shorter == left + #[trigger] times(suffix, count);
        assert(text =~= shorter + suffix);
        assert(text =~= left + times(suffix, count + 1));
    } else {
        assert(left == text);
        assert(text =~= left + times(suffix, 0));
        assert forall|before: Seq<char>| left != #[trigger] (before + suffix) by {
            if left == before + suffix {
                assert(text.subrange(start, text.len() as int) =~= suffix);
            }
        }
    }
}

/// The number that digits stand for.
pub open spec fn digits_value(digits: Seq<char>) -> nat
    decreases digits.len(),
{
    if digits.len() == 0 {
        0
    } else {
        digits_value(digits.drop_last()) * 10 + (digits.last() as u32 - 48) as nat
    }
}

/// A number in decimal is made of digits that stand for it, without a zero in front.
pub proof fn decimals_stand_for_their_number(n: nat)
    ensures
        digits_value(decimal_spec(n)) == n,
        decimal_spec(n).len() > 0,
        forall|i: int| 0 <= i < decimal_spec(n).len() ==> 48 <= (#[trigger] decimal_spec(n)[i]) as u32 <= 57,
        n > 0 ==> decimal_spec(n)[0] as u32 != 48,
    decreases n,
{
    let digits = decimal_spec(n);
    if n < 10 {
        assert(digits.drop_last() =~= Seq::<char>::empty());
        assert(digits_value(digits.drop_last()) == 0);
    } else {
        decimals_stand_for_their_number(n / 10);
        assert(digits.drop_last() =~= decimal_spec(n / 10));
        assert(digits[0] == decimal_spec(n / 10)[0]);
        assert forall|i: int| 0 <= i < digits.len() implies 48 <= (#[trigger] digits[i]) as u32 <= 57 by {
            if i < digits.len() - 1 {
                assert(digits[i] == decimal_spec(n / 10)[i]);
            }
        }
    }
}

/// Joining puts the separator between neighbours, and nowhere else.
pub proof fn joining_separates_neighbours(list: Seq<Seq<char>>, text: Seq<char>, separator: Seq<char>)
    ensures
        join_spec(Seq::empty(), separator) == Seq::<char>::empty(),
        join_spec(seq![text], separator) == text,
        list.len() > 0 ==> join_spec(list.push(text), separator) == join_spec(list, separator) + separator
            + text,
{
    assert(seq![text].drop_last() =~= Seq::<Seq<char>>::empty());
    assert(list.push(text).drop_last() =~= list);
    assert(Seq::<char>::empty() + text =~= text);
}

/// The first difference decides the order of two texts; without one, the shorter comes first.
pub proof fn the_first_difference_decides(a: Seq<char>, b: Seq<char>)
    ensures
        text_less(a, b) <==> exists|at: int|
            {
                &&& 0 <= at <= a.len()
                &&& at < b.len()
                &&& #[trigger] a.take(at) == b.take(at)
                &&& at == a.len() || a[at] < b[at]
            },
    decreases a.len(),
{
    if b.len() > 0 && a.len() > 0 && a[0] == b[0] {
        let x = a.skip(1);
        let y = b.skip(1);
        the_first_difference_decides(x, y);
        if text_less(x, y) {
            let k = choose|at: int|
                {
                    &&& 0 <= at <= x.len()
                    &&& at < y.len()
                    &&& #[trigger] x.take(at) == y.take(at)
                    &&& at == x.len() || x[at] < y[at]
                };
            let p = a.take(k + 1);
            let q = b.take(k + 1);
            assert forall|i: int| 0 <= i < k + 1 implies #[trigger] p[i] == q[i] by {
                if i > 0 {
                    assert(x.take(k)[i - 1] == a[i]);
                    assert(y.take(k)[i - 1] == b[i]);
                }
            }
            assert(p =~= q);
        }
        if exists|at: int|
            {
                &&& 0 <= at <= a.len()
                &&& at < b.len()
                &&& #[trigger] a.take(at) == b.take(at)
                &&& at == a.len() || a[at] < b[at]
            } {
            let k = choose|at: int|
                {
                    &&& 0 <= at <= a.len()
                    &&& at < b.len()
                    &&& #[trigger] a.take(at) == b.take(at)
                    &&& at == a.len() || a[at] < b[at]
                };
            assert(k > 0);
            let p = x.take(k - 1);
            let q = y.take(k - 1);
            assert forall|i: int| 0 <= i < k - 1 implies #[trigger] p[i] == q[i] by {
                assert(a.take(k)[i + 1] == b.take(k)[i + 1]);
            }
            assert(p =~= q);
        }
    } else if b.len() > 0 {
        assert(a.take(0) =~= b.take(0));
        if exists|at: int|
            {
                &&& 0 <= at <= a.len()
                &&& at < b.len()
                &&& #[trigger] a.take(at) == b.take(at)
                &&& at == a.len() || a[at] < b[at]
            } {
            let k = choose|at: int|
                {
                    &&& 0 <= at <= a.len()
                    &&& at < b.len()
                    &&& #[trigger] a.take(at) == b.take(at)
                    &&& at == a.len() || a[at] < b[at]
                };
            if k > 0 {
                assert(a.take(k)[0] == b.take(k)[0]);
            }
        }
    }
}

/// In a sorted list each text comes before the next, so none is there twice.
pub proof fn sorted_lists_hold_nothing_twice(list: Seq<Seq<char>>, i: int, j: int)
    requires
        strictly_sorted(list),
        0 <= i < j < list.len(),
    ensures
        text_less(list[i], list[j]),
        list[i] != list[j],
{
    crate::text::text_order_is_total(list[i], list[j]);
}

} // verus!
