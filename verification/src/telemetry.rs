//! The telemetry line of a device: comma-separated `key:value` pairs, with
//! any white space around keys and values.

use vstd::prelude::*;
use crate::text::{
    chars_of, run_len, scan_run, skip_sign, trim_range, trimmed, unsigned_part, CharClass,
};
use crate::esp_comm::views_of;

verus! {

/// The key under which a device reports its smoothed skin temperature.
pub open spec fn skin_key() -> Seq<char> {
    "Skin_Temp_Smoothed"@
}

/// The parts of `s` between its commas, in order. A text without a comma is
/// one part; two commas in a row have an empty part between them.
pub open spec fn split_at_commas(s: Seq<char>) -> Seq<Seq<char>>
    decreases s.len(),
{
    if s.len() == 0 {
        Seq::empty().push(Seq::empty())
    } else {
        let before = split_at_commas(s.drop_last());
        if s.last() == ',' {
            before.push(Seq::empty())
        } else {
            before.drop_last().push(before.last().push(s.last()))
        }
    }
}

/// A part always exists, if only an empty one.
pub proof fn lemma_split_nonempty(s: Seq<char>)
    ensures
        split_at_commas(s).len() >= 1,
    decreases s.len(),
{
    if s.len() > 0 {
        lemma_split_nonempty(s.drop_last());
    }
}

/// The key and the value of one part, trimmed: what stands before its first
/// colon and what stands after it. A part without a colon is no pair.
pub open spec fn field_pair(part: Seq<char>) -> Option<(Seq<char>, Seq<char>)> {
    let colon = run_len(part, CharClass::Except(':')) as int;
    if colon < part.len() {
        Some((trimmed(part.take(colon)), trimmed(part.skip(colon + 1))))
    } else {
        None
    }
}

/// The value of the part where its key is the skin temperature's.
pub open spec fn skin_value(part: Seq<char>) -> Option<Seq<char>> {
    match field_pair(part) {
        Some((key, value)) => if key == skin_key() {
            Some(value)
        } else {
            None
        },
        None => None,
    }
}

/// The skin temperature values among `parts`, in order.
pub open spec fn skin_values_of(parts: Seq<Seq<char>>) -> Seq<Seq<char>>
    decreases parts.len(),
{
    if parts.len() == 0 {
        Seq::empty()
    } else {
        match skin_value(parts.last()) {
            Some(value) => skin_values_of(parts.drop_last()).push(value),
            None => skin_values_of(parts.drop_last()),
        }
    }
}

/// The skin temperature values that the line `s` carries, in order, as the
/// device wrote them.
pub open spec fn skin_values(s: Seq<char>) -> Seq<Seq<char>> {
    skin_values_of(split_at_commas(s))
}

/// The code of `c`, with the ASCII capital letters mapped to their small ones.
pub open spec fn lower_code(c: char) -> u32 {
    if 0x41 <= c as u32 <= 0x5A {
        (c as u32 + 0x20) as u32
    } else {
        c as u32
    }
}

/// `s` is `word` but for the case of ASCII letters; `word` is in small letters.
pub open spec fn same_ignoring_case(s: Seq<char>, word: Seq<char>) -> bool {
    &&& s.len() == word.len()
    &&& forall|i: int| 0 <= i < s.len() ==> lower_code(#[trigger] s[i]) == word[i] as u32
}

/// An exponent: `e` or `E`, an optional sign, and one digit or more.
pub open spec fn is_exponent(s: Seq<char>) -> bool {
    &&& s.len() > 0
    &&& (s[0] == 'e' || s[0] == 'E')
    &&& unsigned_part(s.skip(1)).len() > 0
    &&& run_len(unsigned_part(s.skip(1)), CharClass::Digit) == unsigned_part(s.skip(1)).len()
}

/// Digits with at most one point among them, at least one digit in all,
/// and an optional exponent behind.
pub open spec fn is_decimal_number(s: Seq<char>) -> bool {
    let whole = run_len(s, CharClass::Digit) as int;
    let after = s.skip(whole);
    if after.len() > 0 && after[0] == '.' {
        let fraction = run_len(after.skip(1), CharClass::Digit) as int;
        let tail = after.skip(1 + fraction);
        whole + fraction > 0 && (tail.len() == 0 || is_exponent(tail))
    } else {
        whole > 0 && (after.len() == 0 || is_exponent(after))
    }
}

/// The texts that count as a number: an optional sign, then `inf`,
/// `infinity` or `nan` in any case, or a decimal number. This is the grammar
/// by which the standard library reads a floating-point number from text.
pub open spec fn is_number_text(s: Seq<char>) -> bool {
    let body = unsigned_part(s);
    ||| same_ignoring_case(body, "inf"@)
    ||| same_ignoring_case(body, "infinity"@)
    ||| same_ignoring_case(body, "nan"@)
    ||| is_decimal_number(body)
}

fn code_in_small(c: char) -> (n: u32)
    ensures
        n == lower_code(c),
{
    let n: u32 = c as u32;
    if 0x41 <= n && n <= 0x5A {
        n + 0x20
    } else {
        n
    }
}

fn matches_word(chars: &Vec<char>, from: usize, to: usize, word: &str) -> (b: bool)
    requires
        from <= to <= chars.len(),
    ensures
        b == same_ignoring_case(chars@.subrange(from as int, to as int), word@),
{
    let n = word.unicode_len();
    if to - from != n {
        return false;
    }
    let ghost sub = chars@.subrange(from as int, to as int);
    let mut j: usize = 0;
    while j < n
        invariant
            from <= to <= chars.len(),
            n == word@.len(),
            to - from == n,
            j <= n,
            sub == chars@.subrange(from as int, to as int),
            forall|i: int| 0 <= i < j ==> lower_code(#[trigger] sub[i]) == word@[i] as u32,
        decreases n - j,
    {
        let w: u32 = word.get_char(j) as u32;
        if code_in_small(chars[from + j]) != w {
            assert(lower_code(sub[j as int]) != word@[j as int] as u32);
            return false;
        }
        j += 1;
    }
    true
}

fn holds_exponent(chars: &Vec<char>, from: usize, to: usize) -> (b: bool)
    requires
        from <= to <= chars.len(),
    ensures
        b == is_exponent(chars@.subrange(from as int, to as int)),
{
    if from < to && (chars[from] == 'e' || chars[from] == 'E') {
        assert(chars@.subrange(from as int, to as int).skip(1) =~= chars@.subrange(
            from + 1,
            to as int,
        ));
        let digits = skip_sign(chars, from + 1, to);
        let end = scan_run(chars, digits, to, CharClass::Digit);
        digits < to && end == to
    } else {
        false
    }
}

fn holds_decimal_number(chars: &Vec<char>, from: usize, to: usize) -> (b: bool)
    requires
        from <= to <= chars.len(),
    ensures
        b == is_decimal_number(chars@.subrange(from as int, to as int)),
{
    let ghost s = chars@.subrange(from as int, to as int);
    let point = scan_run(chars, from, to, CharClass::Digit);
    assert(s.skip(point - from) =~= chars@.subrange(point as int, to as int));
    if point < to && chars[point] == '.' {
        let tail = scan_run(chars, point + 1, to, CharClass::Digit);
        proof {
            let after = s.skip(point - from);
            assert(after.skip(1) =~= chars@.subrange(point + 1, to as int));
            assert(after.skip(1 + (tail - (point + 1))) =~= chars@.subrange(
                tail as int,
                to as int,
            ));
        }
        (point - from) + (tail - (point + 1)) > 0 && (tail == to || holds_exponent(
            chars,
            tail,
            to,
        ))
    } else {
        point > from && (point == to || holds_exponent(chars, point, to))
    }
}

/// Decides whether `chars[from..to]` is the text of a number.
pub(crate) fn holds_number(chars: &Vec<char>, from: usize, to: usize) -> (b: bool)
    requires
        from <= to <= chars.len(),
    ensures
        b == is_number_text(chars@.subrange(from as int, to as int)),
{
    let body = skip_sign(chars, from, to);
    matches_word(chars, body, to, "inf") || matches_word(chars, body, to, "infinity")
        || matches_word(chars, body, to, "nan") || holds_decimal_number(chars, body, to)
}

/// Decides whether `text` is the text of a number.
pub fn is_number(text: &str) -> (b: bool)
    ensures
        b == is_number_text(text@),
{
    let chars = chars_of(text);
    assert(chars@.subrange(0, chars.len() as int) =~= text@);
    holds_number(&chars, 0, chars.len())
}

fn range_is(chars: &Vec<char>, from: usize, to: usize, word: &str) -> (b: bool)
    requires
        from <= to <= chars.len(),
    ensures
        b == (chars@.subrange(from as int, to as int) == word@),
{
    let n = word.unicode_len();
    if to - from != n {
        return false;
    }
    let ghost sub = chars@.subrange(from as int, to as int);
    let mut j: usize = 0;
    while j < n
        invariant
            from <= to <= chars.len(),
            n == word@.len(),
            to - from == n,
            j <= n,
            sub == chars@.subrange(from as int, to as int),
            forall|i: int| 0 <= i < j ==> #[trigger] sub[i] == word@[i],
        decreases n - j,
    {
        if chars[from + j] != word.get_char(j) {
            assert(sub[j as int] != word@[j as int]);
            return false;
        }
        j += 1;
    }
    assert(sub =~= word@);
    true
}

/// Bounds of the trimmed value of the part `chars[from..to]`, where the
/// part is a pair under the skin temperature's key.
fn skin_value_range(chars: &Vec<char>, from: usize, to: usize) -> (r: Option<(usize, usize)>)
    requires
        from <= to <= chars.len(),
    ensures
        match r {
            Some((a, b)) => from <= a <= b <= to && skin_value(
                chars@.subrange(from as int, to as int),
            ) == Some(chars@.subrange(a as int, b as int)),
            None => skin_value(chars@.subrange(from as int, to as int)) is None,
        },
{
    let ghost part = chars@.subrange(from as int, to as int);
    let colon = scan_run(chars, from, to, CharClass::Except(':'));
    if colon == to {
        return None;
    }
    assert(part.take(colon - from) =~= chars@.subrange(from as int, colon as int));
    assert(part.skip(colon - from + 1) =~= chars@.subrange(colon + 1, to as int));
    let (key_from, key_to) = trim_range(chars, from, colon);
    if !range_is(chars, key_from, key_to, "Skin_Temp_Smoothed") {
        return None;
    }
    let (a, b) = trim_range(chars, colon + 1, to);
    Some((a, b))
}

/// The skin temperature values that the line carries, in order, each as the
/// device wrote it, trimmed.
pub fn skin_temp_values(line: &str) -> (values: Vec<String>)
    ensures
        views_of(values@) == skin_values(line@),
{
    let chars = chars_of(line);
    let n = chars.len();
    let mut values: Vec<String> = Vec::new();
    let mut start: usize = 0;
    let mut i: usize = 0;
    assert(views_of(values@) =~= skin_values_of(split_at_commas(chars@.take(0)).drop_last()));
    assert(chars@.subrange(0, 0) =~= split_at_commas(chars@.take(0)).last());
    while i < n
        invariant
            n == chars.len(),
            chars@ == line@,
            start <= i <= n,
            split_at_commas(chars@.take(i as int)).len() >= 1,
            views_of(values@) == skin_values_of(split_at_commas(chars@.take(i as int)).drop_last()),
            split_at_commas(chars@.take(i as int)).last() == chars@.subrange(
                start as int,
                i as int,
            ),
        decreases n - i,
    {
        let ghost before = split_at_commas(chars@.take(i as int));
        proof {
            assert(chars@.take(i + 1).drop_last() =~= chars@.take(i as int));
            assert(chars@.take(i + 1).last() == chars@[i as int]);
            lemma_split_nonempty(chars@.take(i + 1));
        }
        if chars[i] == ',' {
            let ghost shown = views_of(values@);
            match skin_value_range(&chars, start, i) {
                Some((a, b)) => {
                    values.push(String::from_str(line.substring_char(a, b)));
                    assert(views_of(values@) =~= shown.push(chars@.subrange(a as int, b as int)));
                },
                None => {},
            }
            start = i + 1;
            proof {
                let now = split_at_commas(chars@.take(i + 1));
                assert(now == before.push(Seq::empty()));
                assert(now.drop_last() =~= before);
                assert(now.last() =~= chars@.subrange(start as int, i + 1));
            }
        } else {
            proof {
                let now = split_at_commas(chars@.take(i + 1));
                assert(now == before.drop_last().push(before.last().push(chars@[i as int])));
                assert(now.drop_last() =~= before.drop_last());
                assert(now.last() =~= chars@.subrange(start as int, i + 1));
            }
        }
        i += 1;
    }
    assert(chars@.take(n as int) =~= chars@);
    let ghost shown = views_of(values@);
    match skin_value_range(&chars, start, n) {
        Some((a, b)) => {
            values.push(String::from_str(line.substring_char(a, b)));
            assert(views_of(values@) =~= shown.push(chars@.subrange(a as int, b as int)));
        },
        None => {},
    }
    values
}

} // verus!
