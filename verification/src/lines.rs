//! Text taken apart: lines, fields between separators, blanks at the
//! ends, and integers written in decimal.

use vstd::prelude::*;

verus! {

/// The first position at or after `from` where `s` holds `sep`, or the
/// length of `s` where there is none.
pub open spec fn next_break(s: Seq<char>, from: int, sep: char) -> int
    decreases s.len() - from,
{
    if from < 0 || from >= s.len() {
        s.len() as int
    } else if s[from] == sep {
        from
    } else {
        next_break(s, from + 1, sep)
    }
}

/// The first position at or after `from` where `s` holds `sep`, or the
/// length of `s`.
pub fn find_break(s: &Vec<char>, from: usize, sep: char) -> (at: usize)
    requires
        from <= s.len(),
    ensures
        at == next_break(s@, from as int, sep),
        from <= at <= s.len(),
{
    let mut i: usize = from;
    while i < s.len() && s[i] != sep
        invariant
            from <= i <= s.len(),
            next_break(s@, from as int, sep) == next_break(s@, i as int, sep),
        decreases s.len() - i,
    {
        i += 1;
    }
    i
}

/// The characters `s[from..to]`.
pub fn copy_range(s: &Vec<char>, from: usize, to: usize) -> (out: Vec<char>)
    requires
        from <= to <= s.len(),
    ensures
        out@ == s@.subrange(from as int, to as int),
{
    let mut out: Vec<char> = Vec::new();
    let mut i: usize = from;
    while i < to
        invariant
            from <= i <= to <= s.len(),
            out@ == s@.subrange(from as int, i as int),
        decreases to - i,
    {
        out.push(s[i]);
        assert(s@.subrange(from as int, i + 1) =~= s@.subrange(from as int, i as int).push(
            s@[i as int],
        ));
        i += 1;
    }
    out
}

/// The texts of a list of character vectors.
pub open spec fn rows_of(rows: Seq<Vec<char>>) -> Seq<Seq<char>> {
    Seq::new(rows.len(), |i: int| rows[i]@)
}

/// The fields of `s` from `from` on: the stretches between one `sep` and
/// the next. A text without `sep` is one field; a `sep` at the end is
/// followed by one empty field.
pub open spec fn fields_from(s: Seq<char>, from: int, sep: char) -> Seq<Seq<char>>
    decreases s.len() - from,
{
    let end = next_break(s, from, sep);
    if 0 <= from <= end < s.len() {
        seq![s.subrange(from, end)] + fields_from(s, end + 1, sep)
    } else {
        seq![s.subrange(from, s.len() as int)]
    }
}

/// The fields of `s` between the separators `sep`.
pub open spec fn fields(s: Seq<char>, sep: char) -> Seq<Seq<char>> {
    fields_from(s, 0, sep)
}

/// The fields of `s` between the separators `sep`.
pub fn split_fields(s: &Vec<char>, sep: char) -> (out: Vec<Vec<char>>)
    ensures
        rows_of(out@) == fields(s@, sep),
{
    let mut out: Vec<Vec<char>> = Vec::new();
    let mut from: usize = 0;
    loop
        invariant_except_break
            from <= s.len(),
            fields(s@, sep) == rows_of(out@) + fields_from(s@, from as int, sep),
        ensures
            rows_of(out@) == fields(s@, sep),
        decreases s.len() - from,
    {
        let ghost before = rows_of(out@);
        let end: usize = find_break(s, from, sep);
        out.push(copy_range(s, from, end));
        assert(rows_of(out@) =~= before.push(s@.subrange(from as int, end as int)));
        if end < s.len() {
            assert(before + fields_from(s@, from as int, sep) =~= rows_of(out@) + fields_from(
                s@,
                end + 1,
                sep,
            ));
            from = end + 1;
        } else {
            assert(before + fields_from(s@, from as int, sep) =~= rows_of(out@));
            break;
        }
    }
    out
}

/// The line without the carriage return at its end, if it has one.
pub open spec fn without_return(line: Seq<char>) -> Seq<char> {
    if line.len() > 0 && line.last() == '\r' {
        line.drop_last()
    } else {
        line
    }
}

/// The lines of `s` from `from` on. A line ends at a line feed, or at a
/// carriage return that a line feed follows; neither belongs to the line.
/// What follows the last line feed is a line of its own if it is not
/// empty.
pub open spec fn lines_from(s: Seq<char>, from: int) -> Seq<Seq<char>>
    decreases s.len() - from,
{
    let end = next_break(s, from, '\n');
    if from < 0 || from >= s.len() {
        Seq::empty()
    } else if from <= end < s.len() {
        seq![without_return(s.subrange(from, end))] + lines_from(s, end + 1)
    } else {
        seq![s.subrange(from, s.len() as int)]
    }
}

/// The lines of `s`.
pub open spec fn lines(s: Seq<char>) -> Seq<Seq<char>> {
    lines_from(s, 0)
}

/// The lines of `s`.
pub fn split_lines(s: &Vec<char>) -> (out: Vec<Vec<char>>)
    ensures
        rows_of(out@) == lines(s@),
{
    let mut out: Vec<Vec<char>> = Vec::new();
    let mut from: usize = 0;
    assert(rows_of(out@) + lines_from(s@, 0) =~= lines(s@));
    while from < s.len()
        invariant
            from <= s.len(),
            lines(s@) == rows_of(out@) + lines_from(s@, from as int),
        decreases s.len() - from,
    {
        let ghost before = rows_of(out@);
        let end: usize = find_break(s, from, '\n');
        if end < s.len() {
            let stop: usize = if end > from && s[end - 1] == '\r' {
                end - 1
            } else {
                end
            };
            out.push(copy_range(s, from, stop));
            assert(s@.subrange(from as int, stop as int) =~= without_return(
                s@.subrange(from as int, end as int),
            ));
            assert(rows_of(out@) =~= before.push(s@.subrange(from as int, stop as int)));
            assert(before + lines_from(s@, from as int) =~= rows_of(out@) + lines_from(
                s@,
                end + 1,
            ));
            from = end + 1;
        } else {
            out.push(copy_range(s, from, end));
            assert(rows_of(out@) =~= before.push(s@.subrange(from as int, end as int)));
            assert(lines_from(s@, end as int) =~= Seq::<Seq<char>>::empty());
            assert(before + lines_from(s@, from as int) =~= rows_of(out@) + lines_from(
                s@,
                end as int,
            ));
            from = end;
        }
    }
    assert(lines_from(s@, from as int) =~= Seq::<Seq<char>>::empty());
    assert(rows_of(out@) + lines_from(s@, from as int) =~= rows_of(out@));
    out
}

/// Whether `c` is a blank: a character with the Unicode property
/// `White_Space`.
pub open spec fn is_blank(c: char) -> bool {
    ||| '\u{9}' <= c <= '\u{d}'
    ||| c == ' '
    ||| c == '\u{85}'
    ||| c == '\u{a0}'
    ||| c == '\u{1680}'
    ||| '\u{2000}' <= c <= '\u{200a}'
    ||| c == '\u{2028}'
    ||| c == '\u{2029}'
    ||| c == '\u{202f}'
    ||| c == '\u{205f}'
    ||| c == '\u{3000}'
}

/// Whether `c` is a blank.
pub fn blank(c: char) -> (yes: bool)
    ensures
        yes == is_blank(c),
{
    ('\u{9}' <= c && c <= '\u{d}') || c == ' ' || c == '\u{85}' || c == '\u{a0}' || c == '\u{1680}'
        || ('\u{2000}' <= c && c <= '\u{200a}') || c == '\u{2028}' || c == '\u{2029}' || c
        == '\u{202f}' || c == '\u{205f}' || c == '\u{3000}'
}

/// The first position at or after `from` where `s` holds no blank, or the
/// length of `s`.
pub open spec fn text_start(s: Seq<char>, from: int) -> int
    decreases s.len() - from,
{
    if from < 0 || from >= s.len() {
        s.len() as int
    } else if !is_blank(s[from]) {
        from
    } else {
        text_start(s, from + 1)
    }
}

/// The position behind the last character before `to` that is no blank,
/// or zero.
pub open spec fn text_end(s: Seq<char>, to: int) -> int
    decreases to,
{
    if to <= 0 || to > s.len() {
        0
    } else if !is_blank(s[to - 1]) {
        to
    } else {
        text_end(s, to - 1)
    }
}

/// The text without the blanks at its end.
pub open spec fn trimmed_end(s: Seq<char>) -> Seq<char> {
    s.subrange(0, text_end(s, s.len() as int))
}

/// The text without the blanks at its ends.
pub open spec fn trimmed(s: Seq<char>) -> Seq<char> {
    let from = text_start(s, 0);
    let to = text_end(s, s.len() as int);
    if from < to {
        s.subrange(from, to)
    } else {
        Seq::empty()
    }
}

/// The first position at or after `from` where `s` holds no blank.
pub fn find_text_start(s: &Vec<char>, from: usize) -> (at: usize)
    requires
        from <= s.len(),
    ensures
        at == text_start(s@, from as int),
        from <= at <= s.len(),
{
    let mut i: usize = from;
    while i < s.len() && blank(s[i])
        invariant
            from <= i <= s.len(),
            text_start(s@, from as int) == text_start(s@, i as int),
        decreases s.len() - i,
    {
        i += 1;
    }
    i
}

/// The position behind the last character before `to` that is no blank.
pub fn find_text_end(s: &Vec<char>, to: usize) -> (at: usize)
    requires
        to <= s.len(),
    ensures
        at == text_end(s@, to as int),
        at <= to,
{
    let mut i: usize = to;
    while i > 0 && blank(s[i - 1])
        invariant
            i <= to <= s.len(),
            text_end(s@, to as int) == text_end(s@, i as int),
        decreases i,
    {
        i -= 1;
    }
    i
}

/// The text without the blanks at its ends.
pub fn trim(s: &Vec<char>) -> (out: Vec<char>)
    ensures
        out@ == trimmed(s@),
{
    let from: usize = find_text_start(s, 0);
    let to: usize = find_text_end(s, s.len());
    if from < to {
        copy_range(s, from, to)
    } else {
        Vec::new()
    }
}

/// The text without the blanks at its end.
pub fn trim_end(s: &Vec<char>) -> (out: Vec<char>)
    ensures
        out@ == trimmed_end(s@),
{
    let to: usize = find_text_end(s, s.len());
    copy_range(s, 0, to)
}

/// The value of a decimal digit.
pub open spec fn digit_value(c: char) -> int {
    c as int - '0' as int
}

/// Whether `c` is one of the digits `0` to `9`.
pub open spec fn is_digit(c: char) -> bool {
    '0' <= c <= '9'
}

/// Whether `s[from..to]` holds digits alone.
pub open spec fn all_digits(s: Seq<char>, from: int, to: int) -> bool {
    forall|i: int| from <= i < to ==> is_digit(#[trigger] s[i])
}

/// The number that the digits `s[from..to]` write in decimal.
pub open spec fn number_in(s: Seq<char>, from: int, to: int) -> int
    decreases to - from,
{
    if to <= from {
        0
    } else {
        number_in(s, from, to - 1) * 10 + digit_value(s[to - 1])
    }
}

/// Where the digits of `s` begin: behind a sign, if it has one.
pub open spec fn digits_start(s: Seq<char>) -> int {
    if s.len() > 0 && (s[0] == '-' || s[0] == '+') {
        1
    } else {
        0
    }
}

/// The integer that `s` writes: an optional sign, `+` or `-`, and one or
/// more digits, nothing else.
pub open spec fn integer_of(s: Seq<char>) -> Option<int> {
    let start = digits_start(s);
    if start >= s.len() || !all_digits(s, start, s.len() as int) {
        None
    } else if s[0] == '-' {
        Some(-number_in(s, start, s.len() as int))
    } else {
        Some(number_in(s, start, s.len() as int))
    }
}

/// The integer that `s` writes, if it writes one that fits 64 bits with a
/// sign.
pub open spec fn parsed_i64(s: Seq<char>) -> Option<i64> {
    match integer_of(s) {
        Some(n) => if i64::MIN <= n <= i64::MAX {
            Some(n as i64)
        } else {
            None
        },
        None => None,
    }
}

/// More digits do not write a smaller number.
pub proof fn lemma_number_grows(s: Seq<char>, from: int, mid: int, to: int)
    requires
        0 <= from <= mid <= to <= s.len(),
        all_digits(s, from, to),
    ensures
        0 <= number_in(s, from, mid) <= number_in(s, from, to),
    decreases to - mid,
{
    lemma_number_not_negative(s, from, mid);
    if mid < to {
        lemma_number_grows(s, from, mid, to - 1);
        assert(is_digit(s[to - 1]));
    }
}

/// Digits write no negative number.
pub proof fn lemma_number_not_negative(s: Seq<char>, from: int, to: int)
    requires
        0 <= from <= to <= s.len(),
        all_digits(s, from, to),
    ensures
        0 <= number_in(s, from, to),
    decreases to - from,
{
    if from < to {
        lemma_number_not_negative(s, from, to - 1);
        assert(is_digit(s[to - 1]));
    }
}

/// The integer that `s` writes, if it writes one that fits 64 bits with a
/// sign.
pub fn parse_i64(s: &Vec<char>) -> (value: Option<i64>)
    ensures
        value == parsed_i64(s@),
{
    let negative = s.len() > 0 && s[0] == '-';
    let start: usize = if s.len() > 0 && (s[0] == '-' || s[0] == '+') {
        1
    } else {
        0
    };
    if start >= s.len() {
        return None;
    }
    let limit: i128 = 0x8000_0000_0000_0000;
    let mut total: i128 = 0;
    let mut i: usize = start;
    while i < s.len()
        invariant
            start <= i <= s.len(),
            start == digits_start(s@),
            limit == 0x8000_0000_0000_0000,
            all_digits(s@, start as int, i as int),
            total == number_in(s@, start as int, i as int),
            0 <= total <= limit,
        decreases s.len() - i,
    {
        let c = s[i];
        if !('0' <= c && c <= '9') {
            assert(!is_digit(s@[i as int]));
            return None;
        }
        let digit: i128 = (c as u32 - '0' as u32) as i128;
        total = total * 10 + digit;
        i += 1;
        if total > limit {
            proof {
                if all_digits(s@, start as int, s.len() as int) {
                    lemma_number_grows(s@, start as int, i as int, s.len() as int);
                }
            }
            return None;
        }
    }
    if negative {
        Some((-total) as i64)
    } else if total < limit {
        Some(total as i64)
    } else {
        None
    }
}

} // verus!
