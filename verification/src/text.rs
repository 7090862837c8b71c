//! Text helpers, stated over the sequence of characters of a string.

use vstd::prelude::*;
use vstd::string::{StrSliceExecFns, StringExecFns};

verus! {

/// `part` occurs in `text` at character position `at`.
pub open spec fn occurs_at(text: Seq<char>, part: Seq<char>, at: int) -> bool {
    0 <= at && at + part.len() <= text.len() && text.subrange(at, at + part.len()) == part
}

/// `part` occurs somewhere in `text`.
pub open spec fn occurs_in(text: Seq<char>, part: Seq<char>) -> bool {
    exists|at: int| #[trigger] occurs_at(text, part, at)
}

/// The pieces of `text` between separators: one more than there are separators.
pub open spec fn pieces(text: Seq<char>, separator: char) -> Seq<Seq<char>>
    decreases text.len(),
{
    if text.len() == 0 {
        seq![Seq::empty()]
    } else {
        let before = pieces(text.drop_last(), separator);
        if text.last() == separator {
            before.push(Seq::empty())
        } else {
            before.drop_last().push(before.last().push(text.last()))
        }
    }
}

/// The parts, one after the other, with a separator between each two.
pub open spec fn joined(parts: Seq<Seq<char>>, separator: Seq<char>) -> Seq<char>
    decreases parts.len(),
{
    if parts.len() == 0 {
        Seq::empty()
    } else if parts.len() == 1 {
        parts[0]
    } else {
        joined(parts.drop_last(), separator) + separator + parts.last()
    }
}

/// The character of a decimal digit.
pub open spec fn digit(value: nat) -> char {
    if value == 0 {
        '0'
    } else if value == 1 {
        '1'
    } else if value == 2 {
        '2'
    } else if value == 3 {
        '3'
    } else if value == 4 {
        '4'
    } else if value == 5 {
        '5'
    } else if value == 6 {
        '6'
    } else if value == 7 {
        '7'
    } else if value == 8 {
        '8'
    } else {
        '9'
    }
}

/// The decimal digits of a natural number, without leading zeros.
pub open spec fn digits(value: nat) -> Seq<char>
    decreases value,
{
    if value < 10 {
        seq![digit(value)]
    } else {
        digits(value / 10).push(digit(value % 10))
    }
}

/// The decimal form of an integer: its digits, behind a minus sign when it is negative.
pub open spec fn decimal(value: int) -> Seq<char> {
    if value < 0 {
        seq!['-'] + digits((-value) as nat)
    } else {
        digits(value as nat)
    }
}

/// `left` comes before `right` in a dictionary of characters by code point.
pub open spec fn precedes(left: Seq<char>, right: Seq<char>) -> bool
    decreases left.len(),
{
    right.len() > 0 && (left.len() == 0 || left[0] < right[0] || (left[0] == right[0] && precedes(
        left.drop_first(),
        right.drop_first(),
    )))
}

/// Of two texts, at most one comes before the other.
pub proof fn precedes_one_way(left: Seq<char>, right: Seq<char>)
    requires
        precedes(left, right),
    ensures
        !precedes(right, left),
    decreases left.len(),
{
    if left.len() > 0 && left[0] == right[0] {
        precedes_one_way(left.drop_first(), right.drop_first());
    }
}

/// The lowercase form of a text, as Unicode defines it and `std` computes it.
pub uninterp spec fn lowercase(text: Seq<char>) -> Seq<char>;

/// `str::to_lowercase`. Trusted: the result depends on the characters alone.
pub assume_specification[ str::to_lowercase ](text: &str) -> (lower: String)
    ensures
        lower@ == lowercase(text@),
;

/// Whether two strings hold the same characters.
pub fn same_text(left: &str, right: &str) -> (same: bool)
    ensures
        same == (left@ == right@),
{
    left.to_owned() == right.to_owned()
}

/// Whether `text` begins with `prefix`.
pub fn begins_with(text: &str, prefix: &str) -> (found: bool)
    ensures
        found == prefix@.is_prefix_of(text@),
{
    let prefix_len: usize = prefix.unicode_len();
    let text_len: usize = text.unicode_len();
    if text_len < prefix_len {
        return false;
    }
    let found = same_text(text.substring_char(0, prefix_len), prefix);
    assert(found == prefix@.is_prefix_of(text@));
    found
}

/// Whether `part` occurs in `text`.
pub fn contains_text(text: &str, part: &str) -> (found: bool)
    ensures
        found == occurs_in(text@, part@),
{
    let part_len: usize = part.unicode_len();
    let text_len: usize = text.unicode_len();
    if text_len < part_len {
        return false;
    }
    let last: usize = text_len - part_len;
    let mut at: usize = 0;
    while at <= last
        invariant
            part_len == part@.len(),
            text_len == text@.len(),
            part_len <= text_len,
            last == text_len - part_len,
            at <= last + 1,
            forall|k: int| 0 <= k < at ==> !#[trigger] occurs_at(text@, part@, k),
        decreases last + 1 - at,
    {
        if same_text(text.substring_char(at, at + part_len), part) {
            assert(occurs_at(text@, part@, at as int));
            return true;
        }
        assert(!occurs_at(text@, part@, at as int));
        if at == last {
            return false;
        }
        at += 1;
    }
    false
}

/// The pieces of `text` between commas, in order.
pub fn split_at_commas(text: &str) -> (parts: Vec<String>)
    ensures
        parts.deep_view() == pieces(text@, ','),
{
    let len: usize = text.unicode_len();
    let mut parts: Vec<String> = Vec::new();
    let mut start: usize = 0;
    let mut at: usize = 0;
    assert(text@.subrange(0, 0) =~= Seq::<char>::empty());
    assert(parts.deep_view().push(text@.subrange(0, 0)) =~= pieces(text@.take(0), ','));
    while at < len
        invariant
            len == text@.len(),
            start <= at <= len,
            parts.deep_view().push(text@.subrange(start as int, at as int)) == pieces(
                text@.take(at as int),
                ',',
            ),
        decreases len - at,
    {
        let ghost before = parts.deep_view();
        let ghost piece = text@.subrange(start as int, at as int);
        assert(text@.take(at + 1).drop_last() =~= text@.take(at as int));
        assert(before.push(piece).drop_last() =~= before);
        if text.get_char(at) == ',' {
            parts.push(text.substring_char(start, at).to_owned());
            assert(parts.deep_view() =~= before.push(piece));
            start = at + 1;
            assert(text@.subrange(start as int, at + 1) =~= Seq::<char>::empty());
        } else {
            assert(text@.subrange(start as int, at + 1) =~= piece.push(text@[at as int]));
        }
        at += 1;
    }
    let ghost before = parts.deep_view();
    parts.push(text.substring_char(start, len).to_owned());
    assert(parts.deep_view() =~= before.push(text@.subrange(start as int, len as int)));
    assert(text@.take(len as int) =~= text@);
    parts
}

/// The text of one decimal digit.
fn digit_text(value: u64) -> (text: &'static str)
    requires
        value < 10,
    ensures
        text@ == seq![digit(value as nat)],
{
    proof {
        reveal_strlit("0");
        reveal_strlit("1");
        reveal_strlit("2");
        reveal_strlit("3");
        reveal_strlit("4");
        reveal_strlit("5");
        reveal_strlit("6");
        reveal_strlit("7");
        reveal_strlit("8");
        reveal_strlit("9");
    }
    if value == 0 {
        "0"
    } else if value == 1 {
        "1"
    } else if value == 2 {
        "2"
    } else if value == 3 {
        "3"
    } else if value == 4 {
        "4"
    } else if value == 5 {
        "5"
    } else if value == 6 {
        "6"
    } else if value == 7 {
        "7"
    } else if value == 8 {
        "8"
    } else {
        "9"
    }
}

/// The decimal digits of an unsigned number.
fn digits_text(value: u64) -> (text: String)
    ensures
        text@ == digits(value as nat),
    decreases value,
{
    if value < 10 {
        digit_text(value).to_owned()
    } else {
        let text = digits_text(value / 10).concat(digit_text(value % 10));
        assert(text@ =~= digits(value as nat));
        text
    }
}

/// The decimal form of a signed number.
pub fn decimal_text(value: i64) -> (text: String)
    ensures
        text@ == decimal(value as int),
{
    if value < 0 {
        let magnitude: u64 = (-(value + 1)) as u64 + 1;
        let text = "-".to_owned().concat(digits_text(magnitude).as_str());
        proof {
            reveal_strlit("-");
        }
        assert(text@ =~= decimal(value as int));
        text
    } else {
        digits_text(value as u64)
    }
}

/// There is always at least one piece.
pub proof fn pieces_not_empty(text: Seq<char>, separator: char)
    ensures
        pieces(text, separator).len() > 0,
    decreases text.len(),
{
    if text.len() > 0 {
        pieces_not_empty(text.drop_last(), separator);
    }
}

/// Adding a part to a joined list appends the separator and the part.
proof fn joined_push(parts: Seq<Seq<char>>, separator: Seq<char>, part: Seq<char>)
    requires
        parts.len() > 0,
    ensures
        joined(parts.push(part), separator) == joined(parts, separator) + separator + part,
{
    assert(parts.push(part).drop_last() =~= parts);
}

/// Growing the last part of a joined list grows the whole at its end.
proof fn joined_grow(parts: Seq<Seq<char>>, separator: Seq<char>, extra: char)
    requires
        parts.len() > 0,
    ensures
        joined(parts.drop_last().push(parts.last().push(extra)), separator) == joined(
            parts,
            separator,
        ).push(extra),
{
    let grown = parts.drop_last().push(parts.last().push(extra));
    assert(grown.drop_last() =~= parts.drop_last());
    assert(joined(grown, separator) =~= joined(parts, separator).push(extra));
}

/// Splitting loses nothing: the pieces, joined by the separator, give the text back, and no piece
/// holds the separator.
pub proof fn split_then_join(text: Seq<char>, separator: char)
    ensures
        joined(pieces(text, separator), seq![separator]) == text,
        forall|k: int|
            0 <= k < pieces(text, separator).len() ==> !(#[trigger] pieces(
                text,
                separator,
            )[k]).contains(separator),
    decreases text.len(),
{
    if text.len() == 0 {
        assert(pieces(text, separator)[0] =~= Seq::empty());
        assert(text =~= Seq::empty());
    } else {
        let before = pieces(text.drop_last(), separator);
        split_then_join(text.drop_last(), separator);
        pieces_not_empty(text.drop_last(), separator);
        if text.last() == separator {
            joined_push(before, seq![separator], Seq::empty());
            assert(text =~= text.drop_last() + seq![separator] + Seq::<char>::empty());
        } else {
            joined_grow(before, seq![separator], text.last());
            assert(text =~= text.drop_last().push(text.last()));
            assert forall|k: int| 0 <= k < pieces(text, separator).len() implies !(
            #[trigger] pieces(text, separator)[k]).contains(separator) by {
                if k == before.len() - 1 {
                    let grown = before.last().push(text.last());
                    assert(!before[before.len() - 1].contains(separator));
                    if grown.contains(separator) {
                        let j = choose|j: int| 0 <= j < grown.len() && grown[j] == separator;
                        assert(before.last()[j] == separator);
                    }
                } else {
                    assert(!before[k].contains(separator));
                }
            }
        }
    }
}

/// The number that decimal digits stand for.
pub open spec fn number_read(text: Seq<char>) -> int
    decreases text.len(),
{
    if text.len() == 0 {
        0
    } else {
        number_read(text.drop_last()) * 10 + (text.last() as int - '0' as int)
    }
}

/// The integer that a decimal text stands for, with a minus sign in front of a negative one.
pub open spec fn integer_read(text: Seq<char>) -> int {
    if text.len() > 0 && text[0] == '-' {
        -number_read(text.drop_first())
    } else {
        number_read(text)
    }
}

/// The text is made of digits alone, at least one, and does not begin with a zero that could be
/// left out.
pub open spec fn is_plain_number(text: Seq<char>) -> bool {
    &&& text.len() > 0
    &&& forall|k: int| 0 <= k < text.len() ==> '0' <= #[trigger] text[k] <= '9'
    &&& text.len() > 1 ==> text[0] != '0'
}

/// The digits of a natural number read back as that number.
proof fn digits_read_back(value: nat)
    ensures
        number_read(digits(value)) == value,
        is_plain_number(digits(value)),
        value > 0 ==> digits(value)[0] != '0',
    decreases value,
{
    if value < 10 {
        assert(digits(value).drop_last() =~= Seq::empty());
        assert(number_read(Seq::<char>::empty()) == 0);
        assert(digits(value).last() == digit(value));
    } else {
        let before = digits(value / 10);
        let last = digit(value % 10);
        digits_read_back(value / 10);
        assert(digits(value) == before.push(last));
        assert(before.push(last).drop_last() =~= before);
        assert(before.push(last)[0] == before[0]);
        assert forall|k: int| 0 <= k < digits(value).len() implies '0' <= #[trigger] digits(
            value,
        )[k] <= '9' by {
            if k < before.len() {
                assert(digits(value)[k] == before[k]);
            }
        }
    }
}

/// The decimal form of an integer reads back as that integer. It is a plain number, with a minus
/// sign in front of it exactly when the integer is negative.
pub proof fn decimals_read_back(value: int)
    ensures
        integer_read(decimal(value)) == value,
        value < 0 ==> decimal(value).len() > 0 && decimal(value)[0] == '-' && is_plain_number(
            decimal(value).drop_first(),
        ),
        value >= 0 ==> is_plain_number(decimal(value)),
{
    if value < 0 {
        digits_read_back((-value) as nat);
        assert(decimal(value).drop_first() =~= digits((-value) as nat));
    } else {
        digits_read_back(value as nat);
        assert('0' <= decimal(value)[0] <= '9');
    }
}

/// A text occurs in another exactly when the other is made of something, that text, and something.
pub proof fn occurrences_are_parts(text: Seq<char>, part: Seq<char>)
    ensures
        occurs_in(text, part) <==> exists|front: Seq<char>, back: Seq<char>|
            text == #[trigger] (front + part + back),
{
    if occurs_in(text, part) {
        let at = choose|at: int| #[trigger] occurs_at(text, part, at);
        let front = text.take(at);
        let back = text.skip(at + part.len());
        assert(text =~= front + part + back);
    }
    if exists|front: Seq<char>, back: Seq<char>| text == #[trigger] (front + part + back) {
        let (front, back) = choose|front: Seq<char>, back: Seq<char>|
            text == #[trigger] (front + part + back);
        let at: int = front.len() as int;
        assert(text.subrange(at, at + part.len()) =~= part);
        assert(occurs_at(text, part, at));
    }
}

} // verus!
