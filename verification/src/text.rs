//! Text operations that the router's rules are stated in: every one works on the sequence of
//! characters of a string.

use vstd::prelude::*;

verus! {

/// The characters of an optional string slice.
pub open spec fn str_view(text: Option<&str>) -> Option<Seq<char>> {
    match text {
        Some(text) => Some(text@),
        None => None,
    }
}

/// The characters of an optional string.
pub open spec fn string_view(text: Option<String>) -> Option<Seq<char>> {
    match text {
        Some(text) => Some(text@),
        None => None,
    }
}

/// A result whose error is a message, taken by the characters of the message.
pub open spec fn message_view<T>(result: Result<T, String>) -> Result<T, Seq<char>> {
    match result {
        Ok(value) => Ok(value),
        Err(message) => Err(message@),
    }
}

/// A result that is text either way, taken by its characters.
pub open spec fn reply_view(result: Result<String, String>) -> Result<Seq<char>, Seq<char>> {
    match result {
        Ok(text) => Ok(text@),
        Err(message) => Err(message@),
    }
}

/// The characters of each string of a list.
pub open spec fn texts(list: Seq<String>) -> Seq<Seq<char>> {
    list.map_values(|text: String| text@)
}

/// Borrows an optional string.
pub fn as_deref(text: &Option<String>) -> (borrowed: Option<&str>)
    ensures
        str_view(borrowed) == string_view(*text),
{
    match text {
        Some(text) => Some(text.as_str()),
        None => None,
    }
}

/// Copies an optional string.
pub fn copy_text(text: &Option<String>) -> (copy: Option<String>)
    ensures
        copy == *text,
{
    match text {
        Some(text) => Some(text.clone()),
        None => None,
    }
}

/// Whether two strings hold the same characters.
pub fn same_text(a: &str, b: &str) -> (same: bool)
    ensures
        same == (a@ == b@),
{
    a.to_owned() == b.to_owned()
}

/// The characters of a string, in order.
pub fn chars_of(text: &str) -> (chars: Vec<char>)
    ensures
        chars@ == text@,
{
    let mut chars: Vec<char> = Vec::new();
    for c in it: text.chars()
        invariant
            it.seq() == text@,
            chars@ == text@.take(it.index() as int),
    {
        chars.push(c);
    }
    proof {
        assert(text@.take(text@.len() as int) == text@);
    }
    chars
}


/// Where `needle` starts in `haystack`, if it occurs there.
pub open spec fn occurs_at(haystack: Seq<char>, needle: Seq<char>, at: int) -> bool {
    &&& 0 <= at
    &&& at + needle.len() <= haystack.len()
    &&& haystack.subrange(at, at + needle.len()) == needle
}

/// Whether `needle` is a contiguous part of `haystack`.
pub open spec fn contains_text(haystack: Seq<char>, needle: Seq<char>) -> bool {
    exists|at: int| #[trigger] occurs_at(haystack, needle, at)
}

/// Whether `needle` is a contiguous part of `haystack`.
pub fn contains(haystack: &str, needle: &str) -> (found: bool)
    ensures
        found == contains_text(haystack@, needle@),
{
    let hay = chars_of(haystack);
    let pin = chars_of(needle);
    if pin.len() == 0 {
        proof {
            assert(haystack@.subrange(0, 0) == needle@);
            assert(occurs_at(haystack@, needle@, 0));
        }
        return true;
    }
    if pin.len() > hay.len() {
        return false;
    }
    let last: usize = hay.len() - pin.len();
    let mut at: usize = 0;
    while at <= last
        invariant
            hay@ == haystack@,
            pin@ == needle@,
            last == hay.len() - pin.len(),
            at <= last + 1,
            pin.len() > 0,
            forall|before: int| 0 <= before < at ==> !#[trigger] occurs_at(haystack@, needle@, before),
        decreases last + 1 - at,
    {
        let mut same: usize = 0;
        while same < pin.len() && hay[at + same] == pin[same]
            invariant
                hay@ == haystack@,
                pin@ == needle@,
                at <= last,
                last == hay.len() - pin.len(),
                same <= pin.len(),
                forall|i: int| 0 <= i < same ==> haystack@[at + i] == needle@[i],
            decreases pin.len() - same,
        {
            same = same + 1;
        }
        if same == pin.len() {
            proof {
                assert(haystack@.subrange(at as int, at + needle@.len()) == needle@);
                assert(occurs_at(haystack@, needle@, at as int));
            }
            return true;
        }
        proof {
            assert(!occurs_at(haystack@, needle@, at as int)) by {
                if occurs_at(haystack@, needle@, at as int) {
                    let part = haystack@.subrange(at as int, at + needle@.len());
                    assert(part[same as int] == haystack@[at + same]);
                }
            }
        }
        at = at + 1;
    }
    false
}

/// What stands before and after the first occurrence of `mark`.
pub open spec fn split_once_spec(text: Seq<char>, mark: char) -> Option<(Seq<char>, Seq<char>)> {
    match text.index_of_first(mark) {
        Some(at) => Some((text.take(at), text.skip(at + 1))),
        None => None,
    }
}

/// Splits at the first occurrence of `mark`, which goes to neither side.
pub fn split_once(text: &str, mark: char) -> (parts: Option<(&str, &str)>)
    ensures
        match parts {
            Some((before, after)) => split_once_spec(text@, mark) == Some((before@, after@)),
            None => split_once_spec(text@, mark) is None,
        },
{
    let chars = chars_of(text);
    let len: usize = chars.len();
    let mut at: usize = 0;
    while at < len
        invariant
            chars@ == text@,
            len == text@.len(),
            at <= len,
            forall|i: int| 0 <= i < at ==> text@[i] != mark,
        decreases len - at,
    {
        if chars[at] == mark {
            proof {
                text@.index_of_first_ensures(mark);
                assert(text@.contains(mark));
                assert(text@.index_of_first(mark) == Some(at as int));
                assert(text@.take(at as int) == text@.subrange(0, at as int));
                assert(text@.skip(at + 1) == text@.subrange(at + 1, len as int));
            }
            return Some((text.substring_char(0, at), text.substring_char(at + 1, len)));
        }
        at = at + 1;
    }
    proof {
        text@.index_of_first_ensures(mark);
    }
    None
}

/// The characters with the Unicode property White_Space.
pub open spec fn is_white_space(c: char) -> bool {
    ||| '\u{9}' <= c <= '\u{D}'
    ||| c == ' '
    ||| c == '\u{85}'
    ||| c == '\u{A0}'
    ||| c == '\u{1680}'
    ||| '\u{2000}' <= c <= '\u{200A}'
    ||| c == '\u{2028}'
    ||| c == '\u{2029}'
    ||| c == '\u{202F}'
    ||| c == '\u{205F}'
    ||| c == '\u{3000}'
}

/// Whether a character has the Unicode property White_Space.
pub fn white_space(c: char) -> (yes: bool)
    ensures
        yes == is_white_space(c),
{
    ('\u{9}' <= c && c <= '\u{D}') || c == ' ' || c == '\u{85}' || c == '\u{A0}' || c == '\u{1680}'
        || ('\u{2000}' <= c && c <= '\u{200A}') || c == '\u{2028}' || c == '\u{2029}' || c == '\u{202F}'
        || c == '\u{205F}' || c == '\u{3000}'
}

/// The text without its leading white space.
pub open spec fn trim_start_spec(text: Seq<char>) -> Seq<char>
    decreases text.len(),
{
    if text.len() > 0 && is_white_space(text[0]) {
        trim_start_spec(text.skip(1))
    } else {
        text
    }
}

/// The text without its trailing white space.
pub open spec fn trim_end_spec(text: Seq<char>) -> Seq<char>
    decreases text.len(),
{
    if text.len() > 0 && is_white_space(text.last()) {
        trim_end_spec(text.drop_last())
    } else {
        text
    }
}

/// The text without white space at either end.
pub open spec fn trim_spec(text: Seq<char>) -> Seq<char> {
    trim_end_spec(trim_start_spec(text))
}

/// Cuts white space off both ends.
pub fn trim(text: &str) -> (trimmed: &str)
    ensures
        trimmed@ == trim_spec(text@),
{
    let chars = chars_of(text);
    let len: usize = chars.len();
    let mut from: usize = 0;
    proof {
        assert(text@.subrange(0, len as int) == text@);
    }
    while from < len && white_space(chars[from])
        invariant
            chars@ == text@,
            len == text@.len(),
            from <= len,
            trim_start_spec(text@) == trim_start_spec(text@.subrange(from as int, len as int)),
        decreases len - from,
    {
        proof {
            let rest = text@.subrange(from as int, len as int);
            assert(rest.skip(1) == text@.subrange(from + 1, len as int));
        }
        from = from + 1;
    }
    let mut to: usize = len;
    while to > from && white_space(chars[to - 1])
        invariant
            chars@ == text@,
            len == text@.len(),
            from <= to <= len,
            trim_end_spec(text@.subrange(from as int, len as int)) == trim_end_spec(
                text@.subrange(from as int, to as int),
            ),
        decreases to,
    {
        proof {
            let rest = text@.subrange(from as int, to as int);
            assert(rest.drop_last() == text@.subrange(from as int, to - 1));
        }
        to = to - 1;
    }
    text.substring_char(from, to)
}

/// The lower-case counterpart of an ASCII letter; any other character is kept.
pub open spec fn ascii_lower(c: char) -> char {
    if 'A' <= c <= 'Z' {
        (c as u8 + 32) as char
    } else {
        c
    }
}

/// Whether two texts are the same but for the case of ASCII letters.
pub open spec fn same_ignoring_ascii_case(a: Seq<char>, b: Seq<char>) -> bool {
    a.map_values(|c: char| ascii_lower(c)) == b.map_values(|c: char| ascii_lower(c))
}

fn lower(c: char) -> (l: char)
    ensures
        l == ascii_lower(c),
{
    if 'A' <= c && c <= 'Z' {
        ((c as u8) + 32) as char
    } else {
        c
    }
}

/// Compares two strings without regard to the case of ASCII letters.
pub fn eq_ignore_ascii_case(a: &str, b: &str) -> (same: bool)
    ensures
        same == same_ignoring_ascii_case(a@, b@),
{
    let x = chars_of(a);
    let y = chars_of(b);
    let ghost left = a@.map_values(|c: char| ascii_lower(c));
    let ghost right = b@.map_values(|c: char| ascii_lower(c));
    if x.len() != y.len() {
        proof {
            assert(left.len() != right.len());
        }
        return false;
    }
    let mut i: usize = 0;
    while i < x.len()
        invariant
            x@ == a@,
            y@ == b@,
            x.len() == y.len(),
            i <= x.len(),
            left == a@.map_values(|c: char| ascii_lower(c)),
            right == b@.map_values(|c: char| ascii_lower(c)),
            forall|k: int| 0 <= k < i ==> left[k] == right[k],
        decreases x.len() - i,
    {
        if lower(x[i]) != lower(y[i]) {
            proof {
                assert(left[i as int] != right[i as int]);
            }
            return false;
        }
        i = i + 1;
    }
    proof {
        assert(left =~= right);
    }
    true
}

/// The text without the copies of `suffix` that it ends with.
pub open spec fn trim_end_matches_spec(text: Seq<char>, suffix: Seq<char>) -> Seq<char>
    decreases text.len(),
{
    if 0 < suffix.len() && occurs_at(text, suffix, text.len() - suffix.len()) {
        trim_end_matches_spec(text.take(text.len() - suffix.len()), suffix)
    } else {
        text
    }
}

/// Cuts every copy of `suffix` off the end.
pub fn trim_end_matches<'a>(text: &'a str, suffix: &str) -> (trimmed: &'a str)
    requires
        suffix@.len() > 0,
    ensures
        trimmed@ == trim_end_matches_spec(text@, suffix@),
{
    let chars = chars_of(text);
    let tail = chars_of(suffix);
    let step: usize = tail.len();
    let mut to: usize = chars.len();
    proof {
        assert(text@.take(to as int) == text@);
    }
    while to >= step
        invariant
            chars@ == text@,
            tail@ == suffix@,
            step == suffix@.len(),
            step > 0,
            to <= text@.len(),
            trim_end_matches_spec(text@, suffix@) == trim_end_matches_spec(
                text@.take(to as int),
                suffix@,
            ),
        ensures
            to <= text@.len(),
            trim_end_matches_spec(text@, suffix@) == text@.take(to as int),
        decreases to,
    {
        let from: usize = to - step;
        let mut same: usize = 0;
        while same < step && chars[from + same] == tail[same]
            invariant
                chars@ == text@,
                tail@ == suffix@,
                step == suffix@.len(),
                from == to - step,
                to <= text@.len(),
                to >= step,
                same <= step,
                forall|i: int| 0 <= i < same ==> text@[from + i] == suffix@[i],
            decreases step - same,
        {
            same = same + 1;
        }
        let ghost kept = text@.take(to as int);
        if same < step {
            proof {
                if occurs_at(kept, suffix@, kept.len() - suffix@.len()) {
                    let part = kept.subrange(from as int, to as int);
                    assert(part[same as int] == text@[from + same]);
                }
            }
            break;
        }
        proof {
            assert(kept.subrange(from as int, to as int) == suffix@);
            assert(kept.take(from as int) == text@.take(from as int));
        }
        to = from;
    }
    proof {
        assert(text@.take(to as int) == text@.subrange(0, to as int));
    }
    text.substring_char(0, to)
}

/// The decimal digit of a number below ten.
pub open spec fn digit_spec(n: nat) -> char {
    ('0' as u32 + n) as char
}

/// A number written in decimal, without leading zeros.
pub open spec fn decimal_spec(n: nat) -> Seq<char>
    decreases n,
{
    if n < 10 {
        seq![digit_spec(n)]
    } else {
        decimal_spec(n / 10).push(digit_spec(n % 10))
    }
}

fn digit(n: u128) -> (text: &'static str)
    requires
        n < 10,
    ensures
        text@ == seq![digit_spec(n as nat)],
{
    proof {
        reveal_strlit("0");
        reveal_strlit("1");
        reveal_strlit("2");
        reveal_strlit("3");
        reveal_strlit("4");
        reveal_strlit("5");
        reveal_strlit("6");
        reveal_strlit("7");
        reveal_strlit("8");
        reveal_strlit("9");
    }
    if n == 0 {
        "0"
    } else if n == 1 {
        "1"
    } else if n == 2 {
        "2"
    } else if n == 3 {
        "3"
    } else if n == 4 {
        "4"
    } else if n == 5 {
        "5"
    } else if n == 6 {
        "6"
    } else if n == 7 {
        "7"
    } else if n == 8 {
        "8"
    } else {
        "9"
    }
}

/// Writes a number in decimal.
pub fn decimal(n: u128) -> (text: String)
    ensures
        text@ == decimal_spec(n as nat),
    decreases n,
{
    if n < 10 {
        digit(n).to_owned()
    } else {
        let mut text = decimal(n / 10);
        text.append(digit(n % 10));
        proof {
            assert(text@ =~= decimal_spec(n as nat));
        }
        text
    }
}

/// The texts of a list one after the other, with `separator` between neighbours.
pub open spec fn join_spec(list: Seq<Seq<char>>, separator: Seq<char>) -> Seq<char>
    decreases list.len(),
{
    if list.len() == 0 {
        Seq::empty()
    } else if list.len() == 1 {
        list[0]
    } else {
        join_spec(list.drop_last(), separator) + separator + list.last()
    }
}

/// Joins a list of strings.
pub fn join(list: &Vec<String>, separator: &str) -> (text: String)
    ensures
        text@ == join_spec(texts(list@), separator@),
{
    let mut text = String::new();
    let mut i: usize = 0;
    proof {
        assert(texts(list@).take(0) =~= Seq::empty());
    }
    while i < list.len()
        invariant
            i <= list.len(),
            text@ == join_spec(texts(list@).take(i as int), separator@),
        decreases list.len() - i,
    {
        let ghost before = texts(list@).take(i as int);
        let ghost after = texts(list@).take(i + 1);
        proof {
            assert(after.drop_last() == before);
            assert(after.last() == list@[i as int]@);
        }
        if i > 0 {
            text.append(separator);
        } else {
            proof {
                assert(Seq::<char>::empty() + list@[0]@ == list@[0]@);
            }
        }
        text.append(list[i].as_str());
        i = i + 1;
    }
    proof {
        assert(texts(list@).take(list.len() as int) == texts(list@));
    }
    text
}

/// Lexicographic order by code point.
pub open spec fn text_less(a: Seq<char>, b: Seq<char>) -> bool
    decreases a.len(),
{
    if b.len() == 0 {
        false
    } else if a.len() == 0 {
        true
    } else if a[0] == b[0] {
        text_less(a.skip(1), b.skip(1))
    } else {
        a[0] < b[0]
    }
}

/// Whether each text of a list comes before all that follow it.
pub open spec fn strictly_sorted(list: Seq<Seq<char>>) -> bool {
    forall|i: int, j: int| 0 <= i < j < list.len() ==> text_less(#[trigger] list[i], #[trigger] list[j])
}

/// Of two different texts exactly one comes first.
pub proof fn text_order_is_total(a: Seq<char>, b: Seq<char>)
    ensures
        !(text_less(a, b) && text_less(b, a)),
        a == b || text_less(a, b) || text_less(b, a),
        text_less(a, b) ==> a != b,
    decreases a.len(),
{
    if a.len() > 0 && b.len() > 0 && a[0] == b[0] {
        text_order_is_total(a.skip(1), b.skip(1));
        if a.skip(1) == b.skip(1) {
            assert(a =~= seq![a[0]] + a.skip(1));
            assert(b =~= seq![b[0]] + b.skip(1));
        }
    } else if a.len() == 0 && b.len() == 0 {
        assert(a =~= b);
    }
}

/// What comes before a text comes before everything that follows that text.
pub proof fn text_order_is_transitive(a: Seq<char>, b: Seq<char>, c: Seq<char>)
    requires
        text_less(a, b),
        text_less(b, c),
    ensures
        text_less(a, c),
    decreases a.len(),
{
    if a.len() > 0 && a[0] == b[0] && b[0] == c[0] {
        text_order_is_transitive(a.skip(1), b.skip(1), c.skip(1));
    }
}

/// Whether `a` comes before `b`.
pub fn less(a: &str, b: &str) -> (yes: bool)
    ensures
        yes == text_less(a@, b@),
{
    let x = chars_of(a);
    let y = chars_of(b);
    let mut i: usize = 0;
    proof {
        assert(a@.skip(0) == a@);
        assert(b@.skip(0) == b@);
    }
    while i < x.len() && i < y.len() && x[i] == y[i]
        invariant
            x@ == a@,
            y@ == b@,
            i <= x.len(),
            i <= y.len(),
            text_less(a@, b@) == text_less(a@.skip(i as int), b@.skip(i as int)),
        decreases x.len() - i,
    {
        proof {
            assert(a@.skip(i as int).skip(1) == a@.skip(i + 1));
            assert(b@.skip(i as int).skip(1) == b@.skip(i + 1));
        }
        i = i + 1;
    }
    if i >= y.len() {
        false
    } else if i >= x.len() {
        true
    } else {
        x[i] < y[i]
    }
}

/// Puts a new text into a sorted list, where the order asks for it.
pub fn insert_sorted(list: &mut Vec<String>, text: String)
    requires
        strictly_sorted(texts(old(list)@)),
        !texts(old(list)@).contains(text@),
    ensures
        strictly_sorted(texts(final(list)@)),
        forall|t: Seq<char>| #[trigger]
            texts(final(list)@).contains(t) <==> (texts(old(list)@).contains(t) || t == text@),
        final(list)@.len() == old(list)@.len() + 1,
{
    let ghost before = texts(list@);
    let mut at: usize = 0;
    while at < list.len() && less(list[at].as_str(), text.as_str())
        invariant
            before == texts(list@),
            at <= list.len(),
            forall|i: int| 0 <= i < at ==> text_less(#[trigger] before[i], text@),
        decreases list.len() - at,
    {
        at = at + 1;
    }
    let ghost new = text@;
    list.insert(at, text);
    proof {
        let after = texts(list@);
        assert(after =~= before.insert(at as int, new));
        assert forall|k: int| at <= k < before.len() implies text_less(new, #[trigger] before[k]) by {
            text_order_is_total(before[at as int], new);
            assert(before.contains(before[at as int]));
            if k > at {
                text_order_is_transitive(new, before[at as int], before[k]);
            }
        }
        assert forall|i: int, j: int| 0 <= i < j < after.len() implies text_less(
            #[trigger] after[i],
            #[trigger] after[j],
        ) by {
            let bi = if i < at { i } else { i - 1 };
            let bj = if j < at { j } else { j - 1 };
            if i != at && j != at {
                assert(after[i] == before[bi]);
                assert(after[j] == before[bj]);
            } else if i == at {
                assert(after[j] == before[j - 1]);
            } else {
                assert(after[i] == before[i]);
            }
        }
        assert forall|t: Seq<char>| #[trigger] after.contains(t) <==> (before.contains(t) || t == new) by {
            if after.contains(t) {
                let i = choose|i: int| 0 <= i < after.len() && after[i] == t;
                if i < at {
                    assert(before[i] == t);
                } else if i > at {
                    assert(before[i - 1] == t);
                }
            }
            if before.contains(t) {
                let i = choose|i: int| 0 <= i < before.len() && before[i] == t;
                if i < at {
                    assert(after[i] == t);
                } else {
                    assert(after[i + 1] == t);
                }
            }
            assert(after[at as int] == new);
        }
    }
}

/// The lower-case form of a text, as the standard library converts it.
pub uninterp spec fn lowercase(text: Seq<char>) -> Seq<char>;

/// `str::to_lowercase` of the standard library: the result depends on the text alone.
#[verifier::external_body]
pub(crate) fn to_lowercase(text: &str) -> (lowered: String)
    ensures
        lowered@ == lowercase(text@),
{
    text.to_lowercase()
}

/// A text in double quotes with its special characters escaped, as the standard library's
/// `Debug` format writes it.
pub uninterp spec fn debug_text(text: Seq<char>) -> Seq<char>;

/// The `Debug` format of a string (`{:?}`): the result depends on the text alone.
#[verifier::external_body]
pub(crate) fn quoted(text: &str) -> (quoted: String)
    ensures
        quoted@ == debug_text(text@),
{
    format!("{text:?}")
}

} // verus!
