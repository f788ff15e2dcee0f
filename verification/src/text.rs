//! Text at the level of characters: classes and runs, trimming and joining,
//! and decimal numbers written and read.

use vstd::prelude::*;

verus! {

/// Whether `c` has the Unicode `White_Space` property.
pub open spec fn is_space(c: char) -> bool {
    ||| 0x09 <= c as u32 <= 0x0D
    ||| c as u32 == 0x20
    ||| c as u32 == 0x85
    ||| c as u32 == 0xA0
    ||| c as u32 == 0x1680
    ||| 0x2000 <= c as u32 <= 0x200A
    ||| c as u32 == 0x2028
    ||| c as u32 == 0x2029
    ||| c as u32 == 0x202F
    ||| c as u32 == 0x205F
    ||| c as u32 == 0x3000
}

/// Whether `c` is one of the ten ASCII digits.
pub open spec fn is_digit(c: char) -> bool {
    0x30 <= c as u32 <= 0x39
}

/// Decides [`is_space`].
pub fn is_whitespace(c: char) -> (b: bool)
    ensures
        b == is_space(c),
{
    let n: u32 = c as u32;
    (0x09 <= n && n <= 0x0D) || n == 0x20 || n == 0x85 || n == 0xA0 || n == 0x1680 || (0x2000 <= n
        && n <= 0x200A) || n == 0x2028 || n == 0x2029 || n == 0x202F || n == 0x205F || n == 0x3000
}

/// A set of characters that a scan can run over.
#[derive(Clone, Copy, Debug)]
pub enum CharClass {
    /// Unicode white space.
    Space,
    /// The ASCII digits.
    Digit,
    /// Every character but the given one.
    Except(char),
}

impl CharClass {
    /// Membership of `c` in the class.
    pub open spec fn has(self, c: char) -> bool {
        match self {
            CharClass::Space => is_space(c),
            CharClass::Digit => is_digit(c),
            CharClass::Except(x) => c != x,
        }
    }

    /// Decides [`CharClass::has`].
    pub fn contains(&self, c: char) -> (b: bool)
        ensures
            b == self.has(c),
    {
        match self {
            CharClass::Space => is_whitespace(c),
            CharClass::Digit => {
                let n: u32 = c as u32;
                0x30 <= n && n <= 0x39
            },
            CharClass::Except(x) => c != *x,
        }
    }
}

/// Length of the longest prefix of `s` whose characters all lie in `k`.
pub open spec fn run_len(s: Seq<char>, k: CharClass) -> nat
    decreases s.len(),
{
    if s.len() > 0 && k.has(s[0]) {
        1 + run_len(s.skip(1), k)
    } else {
        0
    }
}

/// Length of the longest suffix of `s` whose characters all lie in `k`.
pub open spec fn back_run_len(s: Seq<char>, k: CharClass) -> nat
    decreases s.len(),
{
    if s.len() > 0 && k.has(s.last()) {
        1 + back_run_len(s.drop_last(), k)
    } else {
        0
    }
}

/// A prefix of `n` characters in `k` that cannot be extended is the run.
pub proof fn lemma_run_len(s: Seq<char>, k: CharClass, n: nat)
    requires
        n <= s.len(),
        forall|i: int| 0 <= i < n ==> k.has(#[trigger] s[i]),
        n == s.len() || !k.has(s[n as int]),
    ensures
        run_len(s, k) == n,
    decreases n,
{
    if n > 0 {
        let t = s.skip(1);
        assert forall|i: int| 0 <= i < n - 1 implies k.has(#[trigger] t[i]) by {
            assert(t[i] == s[i + 1]);
        }
        lemma_run_len(t, k, (n - 1) as nat);
    }
}

/// A suffix of `n` characters in `k` that cannot be extended is the back run.
pub proof fn lemma_back_run_len(s: Seq<char>, k: CharClass, n: nat)
    requires
        n <= s.len(),
        forall|i: int| s.len() - n <= i < s.len() ==> k.has(#[trigger] s[i]),
        n == s.len() || !k.has(s[s.len() - n - 1]),
    ensures
        back_run_len(s, k) == n,
    decreases n,
{
    if n > 0 {
        let t = s.drop_last();
        assert forall|i: int| t.len() - (n - 1) <= i < t.len() implies k.has(#[trigger] t[i]) by {
            assert(t[i] == s[i]);
        }
        lemma_back_run_len(t, k, (n - 1) as nat);
    }
}

/// The run never leaves the sequence, and it stops at a character outside `k`.
pub proof fn lemma_run_len_bounds(s: Seq<char>, k: CharClass)
    ensures
        run_len(s, k) <= s.len(),
        forall|i: int| 0 <= i < run_len(s, k) ==> k.has(#[trigger] s[i]),
        run_len(s, k) < s.len() ==> !k.has(s[run_len(s, k) as int]),
    decreases s.len(),
{
    if s.len() > 0 && k.has(s[0]) {
        let t = s.skip(1);
        lemma_run_len_bounds(t, k);
        assert forall|i: int| 0 <= i < run_len(s, k) implies k.has(#[trigger] s[i]) by {
            if i > 0 {
                assert(s[i] == t[i - 1]);
            }
        }
        if run_len(s, k) < s.len() {
            assert(s[run_len(s, k) as int] == t[run_len(t, k) as int]);
        }
    }
}

/// The back run never leaves the sequence, and it stops at a character outside `k`.
pub proof fn lemma_back_run_len_bounds(s: Seq<char>, k: CharClass)
    ensures
        back_run_len(s, k) <= s.len(),
        forall|i: int| s.len() - back_run_len(s, k) <= i < s.len() ==> k.has(#[trigger] s[i]),
        back_run_len(s, k) < s.len() ==> !k.has(s[s.len() - back_run_len(s, k) - 1]),
    decreases s.len(),
{
    if s.len() > 0 && k.has(s.last()) {
        let t = s.drop_last();
        lemma_back_run_len_bounds(t, k);
        assert forall|i: int| s.len() - back_run_len(s, k) <= i < s.len() implies k.has(
            #[trigger] s[i],
        ) by {
            if i < s.len() - 1 {
                assert(s[i] == t[i]);
            }
        }
        if back_run_len(s, k) < s.len() {
            assert(s[s.len() - back_run_len(s, k) - 1] == t[t.len() - back_run_len(t, k) - 1]);
        }
    }
}

/// Scans forward from `from` while the characters lie in `k`, not past `to`.
pub(crate) fn scan_run(chars: &Vec<char>, from: usize, to: usize, k: CharClass) -> (j: usize)
    requires
        from <= to <= chars.len(),
    ensures
        from <= j <= to,
        j - from == run_len(chars@.subrange(from as int, to as int), k),
{
    let ghost sub = chars@.subrange(from as int, to as int);
    let mut j: usize = from;
    while j < to && k.contains(chars[j])
        invariant
            from <= j <= to <= chars.len(),
            sub == chars@.subrange(from as int, to as int),
            forall|i: int| 0 <= i < j - from ==> k.has(#[trigger] sub[i]),
        decreases to - j,
    {
        j += 1;
    }
    proof {
        lemma_run_len(sub, k, (j - from) as nat);
    }
    j
}

/// Scans backward from `to` while the characters lie in `k`, not before `from`.
pub(crate) fn scan_back_run(chars: &Vec<char>, from: usize, to: usize, k: CharClass) -> (j: usize)
    requires
        from <= to <= chars.len(),
    ensures
        from <= j <= to,
        to - j == back_run_len(chars@.subrange(from as int, to as int), k),
{
    let ghost sub = chars@.subrange(from as int, to as int);
    let mut j: usize = to;
    while j > from && k.contains(chars[j - 1])
        invariant
            from <= j <= to <= chars.len(),
            sub == chars@.subrange(from as int, to as int),
            forall|i: int| j - from <= i < to - from ==> k.has(#[trigger] sub[i]),
        decreases j - from,
    {
        j -= 1;
    }
    proof {
        lemma_back_run_len(sub, k, (to - j) as nat);
    }
    j
}

/// `s` without its leading and trailing white space.
pub open spec fn trimmed(s: Seq<char>) -> Seq<char> {
    let rest = s.skip(run_len(s, CharClass::Space) as int);
    rest.take(rest.len() - back_run_len(rest, CharClass::Space))
}

/// Bounds of the trimmed part of `chars[from..to]`.
pub(crate) fn trim_range(chars: &Vec<char>, from: usize, to: usize) -> (r: (usize, usize))
    requires
        from <= to <= chars.len(),
    ensures
        from <= r.0 <= r.1 <= to,
        chars@.subrange(r.0 as int, r.1 as int) == trimmed(chars@.subrange(from as int, to as int)),
{
    let a = scan_run(chars, from, to, CharClass::Space);
    let b = scan_back_run(chars, a, to, CharClass::Space);
    proof {
        let sub = chars@.subrange(from as int, to as int);
        let rest = sub.skip(run_len(sub, CharClass::Space) as int);
        assert(rest =~= chars@.subrange(a as int, to as int));
        assert(rest.take(rest.len() - back_run_len(rest, CharClass::Space)) =~= chars@.subrange(
            a as int,
            b as int,
        ));
    }
    (a, b)
}

/// What trimming leaves: it starts and ends with a character that is no
/// white space, and everything cut off on either side is white space.
pub proof fn law_trimmed_is_tight(s: Seq<char>)
    ensures
        ({
            let a = run_len(s, CharClass::Space) as int;
            let t = trimmed(s);
            &&& a + t.len() <= s.len()
            &&& t == s.subrange(a, a + t.len())
            &&& forall|i: int| 0 <= i < a ==> is_space(#[trigger] s[i])
            &&& forall|i: int| a + t.len() <= i < s.len() ==> is_space(#[trigger] s[i])
            &&& t.len() > 0 ==> !is_space(t[0]) && !is_space(t.last())
        }),
{
    let a = run_len(s, CharClass::Space) as int;
    lemma_run_len_bounds(s, CharClass::Space);
    let rest = s.skip(a);
    lemma_back_run_len_bounds(rest, CharClass::Space);
    let t = trimmed(s);
    assert(t =~= s.subrange(a, a + t.len()));
    assert forall|i: int| a + t.len() <= i < s.len() implies is_space(#[trigger] s[i]) by {
        assert(s[i] == rest[i - a]);
    }
    if t.len() > 0 {
        assert(t[0] == s[a]);
        assert(t.last() == rest[rest.len() - back_run_len(rest, CharClass::Space) - 1]);
    }
}

/// Copies the characters of `s` into a vector.
pub fn chars_of(s: &str) -> (v: Vec<char>)
    ensures
        v@ == s@,
{
    let n = s.unicode_len();
    let mut v: Vec<char> = Vec::new();
    let mut i: usize = 0;
    while i < n
        invariant
            n == s@.len(),
            i <= n,
            v@ == s@.take(i as int),
        decreases n - i,
    {
        v.push(s.get_char(i));
        assert(s@.take(i + 1) =~= s@.take(i as int).push(s@[i as int]));
        i += 1;
    }
    assert(s@.take(n as int) =~= s@);
    v
}

/// A copy of `s` without its leading and trailing white space.
pub fn trim_text(s: &str) -> (t: String)
    ensures
        t@ == trimmed(s@),
{
    let chars = chars_of(s);
    let (a, b) = trim_range(&chars, 0, chars.len());
    assert(chars@.subrange(0, chars.len() as int) =~= s@);
    String::from_str(s.substring_char(a, b))
}

/// `a` followed by `b`.
pub fn join2(a: &str, b: &str) -> (s: String)
    ensures
        s@ == a@ + b@,
{
    let mut s = String::from_str(a);
    s.append(b);
    s
}

/// `a` followed by `b` and `c`.
pub fn join3(a: &str, b: &str, c: &str) -> (s: String)
    ensures
        s@ == a@ + b@ + c@,
{
    let mut s = String::from_str(a);
    s.append(b);
    s.append(c);
    s
}

/// The ASCII digit that stands for `d`.
pub open spec fn digit_char(d: nat) -> char
    recommends
        d < 10,
{
    ((0x30 + d) as u8) as char
}

/// The decimal digits of `n`, most significant first, without leading zeros.
pub open spec fn decimal(n: nat) -> Seq<char>
    decreases n,
{
    if n < 10 {
        seq![digit_char(n)]
    } else {
        decimal(n / 10).push(digit_char(n % 10))
    }
}

/// The decimal text of `i`, with a minus sign before a negative number.
pub open spec fn signed_decimal(i: int) -> Seq<char> {
    if i < 0 {
        seq!['-'] + decimal((-i) as nat)
    } else {
        decimal(i as nat)
    }
}

fn digit_str(d: u32) -> (s: &'static str)
    requires
        d < 10,
    ensures
        s@ == seq![digit_char(d as nat)],
{
    proof {
        reveal_strlit("0");
        reveal_strlit("1");
        reveal_strlit("2");
        reveal_strlit("3");
        reveal_strlit("4");
        reveal_strlit("5");
        reveal_strlit("6");
        reveal_strlit("7");
        reveal_strlit("8");
        reveal_strlit("9");
    }
    let s = match d {
        0 => "0",
        1 => "1",
        2 => "2",
        3 => "3",
        4 => "4",
        5 => "5",
        6 => "6",
        7 => "7",
        8 => "8",
        _ => "9",
    };
    assert(s@ =~= seq![digit_char(d as nat)]);
    s
}

/// Appends the decimal digits of `n` to `out`.
pub fn push_decimal(out: &mut String, n: u32)
    ensures
        final(out)@ == old(out)@ + decimal(n as nat),
    decreases n,
{
    if n >= 10 {
        push_decimal(out, n / 10);
    }
    out.append(digit_str(n % 10));
    assert(final(out)@ =~= old(out)@ + decimal(n as nat));
}

/// Appends the decimal text of `i` to `out`.
pub fn push_signed_decimal(out: &mut String, i: i8)
    ensures
        final(out)@ == old(out)@ + signed_decimal(i as int),
{
    if i < 0 {
        proof {
            reveal_strlit("-");
        }
        out.append("-");
        let m: u32 = (-(i as i32)) as u32;
        push_decimal(out, m);
        assert(final(out)@ =~= old(out)@ + signed_decimal(i as int));
    } else {
        push_decimal(out, i as u32);
    }
}

/// `s` without a sign in front.
pub open spec fn unsigned_part(s: Seq<char>) -> Seq<char> {
    if s.len() > 0 && (s[0] == '+' || s[0] == '-') {
        s.skip(1)
    } else {
        s
    }
}

fn is_sign(c: char) -> (b: bool)
    ensures
        b == (c == '+' || c == '-'),
{
    c == '+' || c == '-'
}

/// Steps over a sign at `from`, where one stands there.
pub(crate) fn skip_sign(chars: &Vec<char>, from: usize, to: usize) -> (start: usize)
    requires
        from <= to <= chars.len(),
    ensures
        from <= start <= to,
        chars@.subrange(start as int, to as int) == unsigned_part(
            chars@.subrange(from as int, to as int),
        ),
{
    if from < to && is_sign(chars[from]) {
        assert(chars@.subrange(from as int, to as int).skip(1) =~= chars@.subrange(
            from + 1,
            to as int,
        ));
        from + 1
    } else {
        from
    }
}

/// The number that a run of ASCII digits stands for.
pub open spec fn digits_value(s: Seq<char>) -> nat
    decreases s.len(),
{
    if s.len() == 0 {
        0
    } else {
        digits_value(s.drop_last()) * 10 + (s.last() as u32 - 0x30) as nat
    }
}

/// The number that `s` stands for as a signed 8-bit integer: an optional
/// sign, then one ASCII digit or more and nothing else, with a value from
/// -128 to 127. Leading zeros do not count against it.
pub open spec fn small_int_of(s: Seq<char>) -> Option<int> {
    let body = unsigned_part(s);
    let value = if s.len() > 0 && s[0] == '-' {
        -(digits_value(body) as int)
    } else {
        digits_value(body) as int
    };
    if body.len() > 0 && run_len(body, CharClass::Digit) == body.len() && -128 <= value <= 127 {
        Some(value)
    } else {
        None
    }
}

/// Reads a signed 8-bit integer from `text`.
pub fn parse_small_int(text: &str) -> (value: Option<i8>)
    ensures
        match value {
            Some(v) => small_int_of(text@) == Some(v as int),
            None => small_int_of(text@) is None,
        },
{
    let chars = chars_of(text);
    let n = chars.len();
    assert(chars@.subrange(0, n as int) =~= text@);
    let negative = n > 0 && chars[0] == '-';
    let from = skip_sign(&chars, 0, n);
    let ghost body = chars@.subrange(from as int, n as int);
    let end = scan_run(&chars, from, n, CharClass::Digit);
    if from == n || end < n {
        return None;
    }
    proof {
        lemma_run_len_bounds(body, CharClass::Digit);
    }
    let mut total: u32 = 0;
    let mut i: usize = from;
    assert(body.take(0) =~= Seq::<char>::empty());
    while i < n
        invariant
            from <= i <= n,
            n == chars.len(),
            body == chars@.subrange(from as int, n as int),
            forall|k: int| 0 <= k < body.len() ==> is_digit(#[trigger] body[k]),
            total <= 1000,
            total < 1000 ==> total == digits_value(body.take(i - from)),
            total == 1000 ==> digits_value(body.take(i - from)) >= 1000,
        decreases n - i,
    {
        proof {
            assert(body.take(i - from + 1).drop_last() =~= body.take(i - from));
            assert(body.take(i - from + 1).last() == body[i - from]);
            assert(is_digit(body[i - from]));
        }
        let digit: u32 = chars[i] as u32 - 0x30;
        total = if total >= 100 {
            1000
        } else {
            total * 10 + digit
        };
        i += 1;
    }
    assert(body.take(n - from) =~= body);
    if negative {
        if total <= 128 {
            Some((-(total as i32)) as i8)
        } else {
            None
        }
    } else if total <= 127 {
        Some(total as i8)
    } else {
        None
    }
}

/// Decides whether two texts are the same.
pub fn same_text(a: &str, b: &str) -> (same: bool)
    ensures
        same == (a@ == b@),
{
    let n = a.unicode_len();
    if n != b.unicode_len() {
        return false;
    }
    let mut i: usize = 0;
    while i < n
        invariant
            n == a@.len(),
            n == b@.len(),
            i <= n,
            forall|k: int| 0 <= k < i ==> a@[k] == b@[k],
        decreases n - i,
    {
        if a.get_char(i) != b.get_char(i) {
            return false;
        }
        i += 1;
    }
    assert(a@ =~= b@);
    true
}

/// The number that `s` stands for as an unsigned 32-bit integer: an
/// optional plus sign, then one ASCII digit or more and nothing else, with a
/// value that fits.
pub open spec fn unsigned_of(s: Seq<char>) -> Option<int> {
    let body = if s.len() > 0 && s[0] == '+' {
        s.skip(1)
    } else {
        s
    };
    if body.len() > 0 && run_len(body, CharClass::Digit) == body.len() && digits_value(body)
        <= u32::MAX {
        Some(digits_value(body) as int)
    } else {
        None
    }
}

/// Reads an unsigned 32-bit integer from `text`.
pub fn parse_unsigned(text: &str) -> (value: Option<u32>)
    ensures
        match value {
            Some(v) => unsigned_of(text@) == Some(v as int),
            None => unsigned_of(text@) is None,
        },
{
    let chars = chars_of(text);
    let n = chars.len();
    assert(chars@.subrange(0, n as int) =~= text@);
    let from: usize = if n > 0 && chars[0] == '+' {
        1
    } else {
        0
    };
    let ghost body = chars@.subrange(from as int, n as int);
    assert(from == 1 ==> body =~= text@.skip(1));
    let end = scan_run(&chars, from, n, CharClass::Digit);
    if from == n || end < n {
        return None;
    }
    proof {
        lemma_run_len_bounds(body, CharClass::Digit);
    }
    let limit: u64 = 10_000_000_000;
    let mut total: u64 = 0;
    let mut i: usize = from;
    assert(body.take(0) =~= Seq::<char>::empty());
    while i < n
        invariant
            from <= i <= n,
            n == chars.len(),
            limit == 10_000_000_000,
            body == chars@.subrange(from as int, n as int),
            forall|k: int| 0 <= k < body.len() ==> is_digit(#[trigger] body[k]),
            total <= limit,
            total < limit ==> total == digits_value(body.take(i - from)),
            total == limit ==> digits_value(body.take(i - from)) >= limit,
        decreases n - i,
    {
        proof {
            assert(body.take(i - from + 1).drop_last() =~= body.take(i - from));
            assert(body.take(i - from + 1).last() == body[i - from]);
            assert(is_digit(body[i - from]));
        }
        let digit: u32 = chars[i] as u32 - 0x30;
        total = if total >= 1_000_000_000 {
            limit
        } else {
            total * 10 + digit as u64
        };
        i += 1;
    }
    assert(body.take(n - from) =~= body);
    if total <= 0xffff_ffff {
        Some(total as u32)
    } else {
        None
    }
}

} // verus!
