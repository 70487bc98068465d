//! Decimal digits: reading unsigned integers and writing them out.
use vstd::prelude::*;
use crate::chars::{push_char, push_range};

verus! {

/// Whether `c` is an ASCII decimal digit.
pub open spec fn is_digit(c: char) -> bool {
    '0' <= c && c <= '9'
}

/// The value of the digit `c`.
pub open spec fn digit_value(c: char) -> nat {
    (c as int - '0' as int) as nat
}

/// The digit character for `d < 10`.
pub open spec fn digit_char(d: nat) -> char {
    (d + '0' as nat) as char
}

/// Whether every character of `s` is an ASCII digit.
pub open spec fn all_digits(s: Seq<char>) -> bool {
    forall|i: int| 0 <= i < s.len() ==> #[trigger] is_digit(s[i])
}

/// The number that the digit string `s` denotes (most significant first).
pub open spec fn digits_value(s: Seq<char>) -> nat
    decreases s.len(),
{
    if s.len() == 0 {
        0
    } else {
        10 * digits_value(s.drop_last()) + digit_value(s.last())
    }
}

/// `10^e`.
pub open spec fn pow10(e: nat) -> nat
    decreases e,
{
    if e == 0 {
        1
    } else {
        10 * pow10((e - 1) as nat)
    }
}

/// The index of the first character of `s` that is not a digit, or `s.len()`.
pub open spec fn first_non_digit(s: Seq<char>) -> int
    decreases s.len(),
{
    if s.len() == 0 {
        0
    } else if !is_digit(s[0]) {
        0
    } else {
        1 + first_non_digit(s.drop_first())
    }
}

/// Why std's `u64::from_str` / `usize::from_str` refuses a string.
#[derive(Clone, Copy, Debug, PartialEq, Eq, Structural)]
pub enum IntErrorKind {
    /// The string is empty.
    Empty,
    /// The string holds a character that is not a digit (or is a lone sign).
    InvalidDigit,
    /// The number does not fit the target type.
    PosOverflow,
}

/// std's reading of an unsigned integer no larger than `max` from `s`:
/// an optional `+`, then one or more ASCII digits. Digits are read left to
/// right; the first bad digit or the first step past `max` decides the error.
pub open spec fn parse_unsigned(s: Seq<char>, max: nat) -> Result<nat, IntErrorKind> {
    if s.len() == 0 {
        Err(IntErrorKind::Empty)
    } else if s.len() == 1 && (s[0] == '+' || s[0] == '-') {
        Err(IntErrorKind::InvalidDigit)
    } else {
        let body = if s[0] == '+' { s.drop_first() } else { s };
        let p = first_non_digit(body);
        if digits_value(body.take(p)) > max {
            Err(IntErrorKind::PosOverflow)
        } else if p < body.len() {
            Err(IntErrorKind::InvalidDigit)
        } else {
            Ok(digits_value(body))
        }
    }
}

/// What `parse_unsigned` reads is at most `max`.
pub proof fn lemma_parse_unsigned_bound(s: Seq<char>, max: nat)
    ensures
        parse_unsigned(s, max) matches Ok(n) ==> n <= max,
{
    if s.len() > 0 && !(s.len() == 1 && (s[0] == '+' || s[0] == '-')) {
        let body = if s[0] == '+' { s.drop_first() } else { s };
        lemma_first_non_digit(body);
        if first_non_digit(body) == body.len() {
            assert(body.take(body.len() as int) =~= body);
        }
    }
}

/// The decimal text of `n`, as `u64::to_string` writes it.
pub open spec fn decimal(n: nat) -> Seq<char>
    decreases n,
{
    if n < 10 {
        seq![digit_char(n)]
    } else {
        decimal(n / 10).push(digit_char(n % 10))
    }
}

/// `s` padded on the left with `'0'` to at least `width` characters
/// (the `{:0width$}` format).
pub open spec fn zero_pad(s: Seq<char>, width: nat) -> Seq<char> {
    if s.len() >= width {
        s
    } else {
        Seq::new((width - s.len()) as nat, |i: int| '0') + s
    }
}

/// `s` with a `','` before every group of three digits counted from the right.
pub open spec fn group_thousands(s: Seq<char>) -> Seq<char>
    decreases s.len(),
{
    if s.len() <= 3 {
        s
    } else {
        group_thousands(s.take(s.len() - 3)) + seq![','] + s.skip(s.len() - 3)
    }
}

/// The number of bytes of the UTF-8 encoding of `c`.
pub open spec fn utf8_width(c: char) -> nat {
    if (c as u32) < 0x80 {
        1
    } else if (c as u32) < 0x800 {
        2
    } else if (c as u32) < 0x10000 {
        3
    } else {
        4
    }
}

/// The number of bytes of the UTF-8 encoding of `s` (std's `str::len`).
pub open spec fn utf8_len(s: Seq<char>) -> nat
    decreases s.len(),
{
    if s.len() == 0 {
        0
    } else {
        utf8_len(s.drop_last()) + utf8_width(s.last())
    }
}

pub proof fn lemma_digits_value_monotone(s: Seq<char>, i: int, j: int)
    requires
        0 <= i <= j <= s.len(),
        all_digits(s.take(j)),
    ensures
        digits_value(s.take(i)) <= digits_value(s.take(j)),
    decreases j - i,
{
    if i < j {
        lemma_digits_value_monotone(s, i, j - 1);
        assert(s.take(j).drop_last() =~= s.take(j - 1));
        assert(digits_value(s.take(j)) == 10 * digits_value(s.take(j - 1)) + digit_value(
            s.take(j).last(),
        ));
    }
}

pub proof fn lemma_first_non_digit(s: Seq<char>)
    ensures
        0 <= first_non_digit(s) <= s.len(),
        all_digits(s.take(first_non_digit(s))),
        first_non_digit(s) < s.len() ==> !is_digit(s[first_non_digit(s)]),
        all_digits(s) <==> first_non_digit(s) == s.len(),
    decreases s.len(),
{
    if s.len() > 0 && is_digit(s[0]) {
        lemma_first_non_digit(s.drop_first());
        let p = first_non_digit(s.drop_first());
        assert forall|i: int| 0 <= i < p + 1 implies #[trigger] is_digit(s.take(p + 1)[i]) by {
            if i > 0 {
                assert(s.take(p + 1)[i] == s.drop_first().take(p)[i - 1]);
            }
        }
        if all_digits(s) {
            assert forall|i: int| 0 <= i < s.drop_first().len() implies #[trigger] is_digit(
                s.drop_first()[i],
            ) by {
                assert(s.drop_first()[i] == s[i + 1]);
            }
        }
        if p == s.drop_first().len() {
            assert forall|i: int| 0 <= i < s.len() implies #[trigger] is_digit(s[i]) by {
                if i > 0 {
                    assert(s[i] == s.drop_first()[i - 1]);
                    assert(s.drop_first().take(p)[i - 1] == s.drop_first()[i - 1]);
                }
            }
        }
    } else if s.len() > 0 {
        assert(!is_digit(s[0]));
    }
}

/// Reads an unsigned integer no larger than `max` from `v[from..to]`,
/// as std's `from_str` for an unsigned type does.
pub fn parse_unsigned_range(v: &[char], from: usize, to: usize, max: u64) -> (r: Result<
    u64,
    IntErrorKind,
>)
    requires
        from <= to <= v@.len(),
    ensures
        match parse_unsigned(v@.subrange(from as int, to as int), max as nat) {
            Ok(n) => r == Ok::<u64, IntErrorKind>(n as u64),
            Err(e) => r == Err::<u64, IntErrorKind>(e),
        },
        r is Ok ==> parse_unsigned(v@.subrange(from as int, to as int), max as nat) == Ok::<
            nat,
            IntErrorKind,
        >(r->Ok_0 as nat),
        r is Err ==> parse_unsigned(v@.subrange(from as int, to as int), max as nat) == Err::<
            nat,
            IntErrorKind,
        >(r->Err_0),
{
    let ghost s = v@.subrange(from as int, to as int);
    if from == to {
        return Err(IntErrorKind::Empty);
    }
    if to - from == 1 && (v[from] == '+' || v[from] == '-') {
        return Err(IntErrorKind::InvalidDigit);
    }
    let start = if v[from] == '+' { from + 1 } else { from };
    let ghost body = v@.subrange(start as int, to as int);
    assert(body =~= (if s[0] == '+' { s.drop_first() } else { s }));
    proof {
        lemma_first_non_digit(body);
    }
    let ghost p = first_non_digit(body);
    let mut acc: u64 = 0;
    let mut i = start;
    while i < to
        invariant
            from <= start <= i <= to <= v@.len(),
            s == v@.subrange(from as int, to as int),
            s.len() >= 1,
            !(s.len() == 1 && (s[0] == '+' || s[0] == '-')),
            body == (if s[0] == '+' { s.drop_first() } else { s }),
            body == v@.subrange(start as int, to as int),
            p == first_non_digit(body),
            0 <= p <= body.len(),
            all_digits(body.take(p)),
            p < body.len() ==> !is_digit(body[p]),
            i - start <= p,
            acc as nat == digits_value(body.take(i - start)),
            acc <= max,
        decreases to - i,
    {
        let c = v[i];
        let ghost k = i - start;
        assert(body[k] == c);
        if !('0' <= c && c <= '9') {
            assert(k == p) by {
                if k < p {
                    assert(body.take(p)[k] == body[k]);
                    assert(is_digit(body.take(p)[k]));
                }
            }
            assert(body.take(p) =~= body.take(k));
            return Err(IntErrorKind::InvalidDigit);
        }
        assert(k < p) by {
            if k == p {
                assert(body[k] == c);
            }
        }
        let d = (c as u32 - '0' as u32) as u64;
        assert(body.take(k + 1).drop_last() =~= body.take(k));
        assert(body.take(k + 1).last() == c);
        proof {
            lemma_digits_value_monotone(body, k + 1, p);
        }
        if acc > max / 10 {
            assert(digits_value(body.take(k + 1)) > max) by (nonlinear_arith)
                requires
                    digits_value(body.take(k + 1)) == 10 * acc + d,
                    acc > max / 10,
            ;
            return Err(IntErrorKind::PosOverflow);
        }
        assert(10 * acc <= max) by (nonlinear_arith)
            requires
                acc <= max / 10,
        ;
        let t = acc * 10;
        if d > max - t {
            assert(digits_value(body.take(k + 1)) > max);
            return Err(IntErrorKind::PosOverflow);
        }
        acc = t + d;
        i = i + 1;
    }
    assert(i - start == body.len());
    assert(body.take(body.len() as int) =~= body);
    Ok(acc)
}

/// The digit character for `d < 10`.
pub fn digit_to_char(d: u64) -> (c: char)
    requires
        d < 10,
    ensures
        c == digit_char(d as nat),
        is_digit(c),
        digit_value(c) == d,
{
    let c = ((d as u8) + 48u8) as char;
    c
}

/// Appends the decimal text of `n` to `out`.
pub fn push_decimal_digits(out: &mut Vec<char>, n: u64)
    ensures
        final(out)@ == old(out)@ + decimal(n as nat),
    decreases n,
{
    if n >= 10 {
        push_decimal_digits(out, n / 10);
    }
    let ghost before = out@;
    out.push(digit_to_char(n % 10));
    proof {
        if n >= 10 {
            assert(out@ =~= old(out)@ + decimal((n / 10) as nat).push(digit_char((n % 10) as nat)));
        } else {
            assert(out@ =~= old(out)@ + seq![digit_char(n as nat)]);
        }
    }
}

/// The decimal text of `n`.
pub fn decimal_chars(n: u64) -> (v: Vec<char>)
    ensures
        v@ == decimal(n as nat),
{
    let mut v: Vec<char> = Vec::new();
    push_decimal_digits(&mut v, n);
    assert(v@ =~= decimal(n as nat));
    v
}

/// Appends the decimal text of `n` to `s`.
pub fn push_decimal(s: &mut String, n: u64)
    ensures
        final(s)@ == old(s)@ + decimal(n as nat),
{
    let d = decimal_chars(n);
    push_range(s, &d, 0, d.len());
    assert(d@.subrange(0, d@.len() as int) =~= d@);
}

/// The decimal text of `n` as a `String`.
pub fn decimal_string(n: u64) -> (s: String)
    ensures
        s@ == decimal(n as nat),
{
    let mut s = String::new();
    push_decimal(&mut s, n);
    assert(s@ =~= decimal(n as nat));
    s
}

/// Appends the decimal text of `n`, zero-padded to `width`, to `s`.
pub fn push_zero_padded(s: &mut String, n: u64, width: usize)
    ensures
        final(s)@ == old(s)@ + zero_pad(decimal(n as nat), width as nat),
{
    let d = decimal_chars(n);
    let ghost start = s@;
    if d.len() < width {
        let mut k = d.len();
        while k < width
            invariant
                d@.len() <= k <= width,
                s@ == start + Seq::new((k - d@.len()) as nat, |i: int| '0'),
            decreases width - k,
        {
            push_char(s, '0');
            k = k + 1;
            assert(s@ =~= start + Seq::new((k - d@.len()) as nat, |i: int| '0'));
        }
    }
    push_range(s, &d, 0, d.len());
    assert(d@.subrange(0, d@.len() as int) =~= d@);
    assert(s@ =~= start + zero_pad(decimal(n as nat), width as nat));
}

/// Appends `group_thousands(d[0..end])` to `s`.
pub fn push_grouped(s: &mut String, d: &[char], end: usize)
    requires
        end <= d@.len(),
    ensures
        final(s)@ == old(s)@ + group_thousands(d@.take(end as int)),
    decreases end,
{
    let ghost t = d@.take(end as int);
    if end <= 3 {
        push_range(s, d, 0, end);
        assert(d@.subrange(0, end as int) =~= t);
    } else {
        push_grouped(s, d, end - 3);
        push_char(s, ',');
        push_range(s, d, end - 3, end);
        assert(t.take(t.len() - 3) =~= d@.take(end - 3));
        assert(t.skip(t.len() - 3) =~= d@.subrange(end - 3, end as int));
        assert(s@ =~= old(s)@ + group_thousands(t));
    }
}

/// Whether the UTF-8 encoding of `v[from..to]` is longer than `limit` bytes.
pub fn utf8_len_exceeds(v: &[char], from: usize, to: usize, limit: usize) -> (r: bool)
    requires
        from <= to <= v@.len(),
        limit <= usize::MAX - 4,
    ensures
        r == (utf8_len(v@.subrange(from as int, to as int)) > limit),
{
    let mut n: usize = 0;
    let mut i = from;
    while i < to
        invariant
            from <= i <= to <= v@.len(),
            limit <= usize::MAX - 4,
            n == utf8_len(v@.subrange(from as int, i as int)),
            n <= limit,
        decreases to - i,
    {
        let c = v[i] as u32;
        let w: usize = if c < 0x80 {
            1
        } else if c < 0x800 {
            2
        } else if c < 0x10000 {
            3
        } else {
            4
        };
        assert(v@.subrange(from as int, i + 1).drop_last() =~= v@.subrange(from as int, i as int));
        n = n + w;
        i = i + 1;
        if n > limit {
            proof {
                lemma_utf8_len_prefix_monotone(v@.subrange(from as int, to as int), i - from);
                assert(v@.subrange(from as int, to as int).take(i - from) =~= v@.subrange(
                    from as int,
                    i as int,
                ));
            }
            return true;
        }
    }
    false
}

/// The UTF-8 length of a prefix is at most that of the whole.
pub proof fn lemma_utf8_len_prefix_monotone(s: Seq<char>, k: int)
    requires
        0 <= k <= s.len(),
    ensures
        utf8_len(s.take(k)) <= utf8_len(s),
    decreases s.len() - k,
{
    if k < s.len() {
        lemma_utf8_len_prefix_monotone(s.drop_last(), k);
        assert(s.drop_last().take(k) =~= s.take(k));
    } else {
        assert(s.take(k) =~= s);
    }
}

/// Every digit string denotes a number below `10^len`.
pub proof fn lemma_digits_value_bound(s: Seq<char>)
    requires
        all_digits(s),
    ensures
        digits_value(s) < pow10(s.len()),
    decreases s.len(),
{
    if s.len() > 0 {
        assert(all_digits(s.drop_last())) by {
            assert forall|i: int| 0 <= i < s.drop_last().len() implies #[trigger] is_digit(
                s.drop_last()[i],
            ) by {
                assert(s.drop_last()[i] == s[i]);
            }
        }
        lemma_digits_value_bound(s.drop_last());
        assert(is_digit(s[s.len() - 1]));
        assert(digits_value(s) < pow10(s.len())) by (nonlinear_arith)
            requires
                digits_value(s) == 10 * digits_value(s.drop_last()) + digit_value(s.last()),
                digits_value(s.drop_last()) < pow10(s.drop_last().len()),
                digit_value(s.last()) < 10,
                pow10(s.len()) == 10 * pow10(s.drop_last().len()),
        ;
    }
}

/// For a non-empty digit string, `parse_unsigned` gives its value, or says it overflows.
pub proof fn lemma_parse_unsigned_digits(s: Seq<char>, max: nat)
    requires
        s.len() > 0,
        all_digits(s),
    ensures
        parse_unsigned(s, max) == (if digits_value(s) > max {
            Err::<nat, IntErrorKind>(IntErrorKind::PosOverflow)
        } else {
            Ok::<nat, IntErrorKind>(digits_value(s))
        }),
{
    assert(is_digit(s[0]));
    lemma_first_non_digit(s);
    assert(s.take(s.len() as int) =~= s);
}

} // verus!
