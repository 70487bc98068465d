//! XPQ amounts: reading them from user text and writing them for display.
//!
//! One XPQ is 1,000,000 base units ("paqus"), shown with six decimal places.
use vstd::prelude::*;
use crate::chars::{chars_of, push_char, string_from_chars, trim, trim_bounds};
use crate::decimal::{
    IntErrorKind, all_digits, decimal, digits_value, group_thousands, lemma_digits_value_bound,
    lemma_first_non_digit, lemma_parse_unsigned_digits, parse_unsigned, parse_unsigned_range,
    pow10, push_decimal, push_grouped, push_zero_padded, utf8_len, utf8_len_exceeds,
    zero_pad, decimal_chars, digit_value, is_digit, digit_char,
};

verus! {

/// Base units in one XPQ.
pub const XPQ: u64 = 1_000_000;

/// Decimal places of an XPQ amount.
pub const DECIMALS: usize = 6;

/// The fee that stands for "choose the fee from the virtual size" (one base unit).
pub const DEFAULT_TRANSACTION_FEE: u64 = 1;

/// Why a text is not an XPQ amount.
#[derive(Clone, Copy, Debug, PartialEq, Eq, Structural)]
pub enum AmountError {
    /// Nothing but white space, or only a decimal point.
    Empty,
    /// A leading minus sign.
    Negative,
    /// More than one decimal point.
    ManyDecimalPoints,
    /// The part before the point holds a non-digit.
    WholeNotDigits,
    /// The part before the point does not fit a `u64`.
    WholeTooLarge,
    /// The part after the point is longer than the XPQ decimals.
    TooManyDecimals,
    /// The part after the point holds a non-digit.
    FractionNotDigits,
    /// The amount in base units does not fit a `u64`.
    TooLarge,
}

/// The index of the first `c` in `s`, or `s.len()` when there is none.
pub open spec fn find_char(s: Seq<char>, c: char) -> int
    decreases s.len(),
{
    if s.len() == 0 {
        0
    } else if s[0] == c {
        0
    } else {
        1 + find_char(s.drop_first(), c)
    }
}

/// The value of the fraction digits `f`, right-padded with zeros to `DECIMALS` places.
pub open spec fn fraction_units(f: Seq<char>) -> nat {
    digits_value(f + Seq::new((DECIMALS - f.len()) as nat, |i: int| '0'))
}

/// The reading of an XPQ amount from `text`: surrounding white space is
/// dropped; then `whole[.fraction]` with ASCII digits, where either part may be
/// empty but not both, and the fraction has at most `DECIMALS` places (counted
/// in UTF-8 bytes, as std's `str::len` counts them).
pub open spec fn xpq_amount(text: Seq<char>) -> Result<u64, AmountError> {
    let t = trim(text);
    if t.len() == 0 {
        Err(AmountError::Empty)
    } else if t[0] == '-' {
        Err(AmountError::Negative)
    } else {
        let i = find_char(t, '.');
        let whole = t.take(i);
        let has_point = i < t.len();
        let frac = if has_point { t.skip(i + 1) } else { Seq::<char>::empty() };
        if has_point && find_char(frac, '.') < frac.len() {
            Err(AmountError::ManyDecimalPoints)
        } else if whole.len() == 0 && frac.len() == 0 {
            Err(AmountError::Empty)
        } else if !all_digits(whole) {
            Err(AmountError::WholeNotDigits)
        } else if digits_value(whole) > u64::MAX {
            Err(AmountError::WholeTooLarge)
        } else if utf8_len(frac) > DECIMALS {
            Err(AmountError::TooManyDecimals)
        } else if !all_digits(frac) {
            Err(AmountError::FractionNotDigits)
        } else if digits_value(whole) * XPQ + fraction_units(frac) > u64::MAX {
            Err(AmountError::TooLarge)
        } else {
            Ok((digits_value(whole) * XPQ + fraction_units(frac)) as u64)
        }
    }
}

/// The display text of an amount: grouped whole XPQ, six decimals, the unit.
pub open spec fn xpq_text(units: nat) -> Seq<char> {
    group_thousands(decimal(units / (XPQ as nat))) + seq!['.'] + zero_pad(
        decimal(units % (XPQ as nat)),
        DECIMALS as nat,
    ) + " XPQ"@
}

/// The plain text `whole.ffffff` of an amount, without grouping or unit.
pub open spec fn xpq_plain_text(units: nat) -> Seq<char> {
    decimal(units / (XPQ as nat)) + seq!['.'] + zero_pad(
        decimal(units % (XPQ as nat)),
        DECIMALS as nat,
    )
}

pub proof fn lemma_find_char(s: Seq<char>, c: char)
    ensures
        0 <= find_char(s, c) <= s.len(),
        find_char(s, c) < s.len() ==> s[find_char(s, c)] == c,
        forall|k: int| 0 <= k < find_char(s, c) ==> s[k] != c,
    decreases s.len(),
{
    if s.len() > 0 && s[0] != c {
        lemma_find_char(s.drop_first(), c);
        assert forall|k: int| 0 <= k < find_char(s, c) implies s[k] != c by {
            if k > 0 {
                assert(s[k] == s.drop_first()[k - 1]);
            }
        }
    }
}

/// The index of the first `c` in `v[from..to]` (as an index of `v`), or `to`.
pub fn find_char_range(v: &[char], from: usize, to: usize, c: char) -> (r: usize)
    requires
        from <= to <= v@.len(),
    ensures
        from <= r <= to,
        r - from == find_char(v@.subrange(from as int, to as int), c),
{
    let ghost s = v@.subrange(from as int, to as int);
    proof {
        lemma_find_char(s, c);
    }
    let mut i = from;
    while i < to
        invariant
            from <= i <= to <= v@.len(),
            s == v@.subrange(from as int, to as int),
            0 <= find_char(s, c) <= s.len(),
            find_char(s, c) < s.len() ==> s[find_char(s, c)] == c,
            forall|k: int| 0 <= k < find_char(s, c) ==> s[k] != c,
            i - from <= find_char(s, c),
        decreases to - i,
    {
        if v[i] == c {
            assert(s[i - from] == c);
            return i;
        }
        assert(s[i - from] != c);
        i = i + 1;
    }
    i
}

/// Whether `v[from..to]` is all ASCII digits.
pub fn all_digits_range(v: &[char], from: usize, to: usize) -> (r: bool)
    requires
        from <= to <= v@.len(),
    ensures
        r == all_digits(v@.subrange(from as int, to as int)),
{
    let ghost s = v@.subrange(from as int, to as int);
    let mut i = from;
    while i < to
        invariant
            from <= i <= to <= v@.len(),
            s == v@.subrange(from as int, to as int),
            forall|k: int| 0 <= k < i - from ==> #[trigger] is_digit(s[k]),
        decreases to - i,
    {
        if !('0' <= v[i] && v[i] <= '9') {
            assert(!is_digit(s[i - from]));
            return false;
        }
        assert(is_digit(s[i - from]));
        i = i + 1;
    }
    true
}

/// The value of the fraction digits `v[from..to]` right-padded with zeros to six places.
fn fraction_units_range(v: &[char], from: usize, to: usize) -> (r: u64)
    requires
        from <= to <= v@.len(),
        to - from <= DECIMALS,
        all_digits(v@.subrange(from as int, to as int)),
    ensures
        r == fraction_units(v@.subrange(from as int, to as int)),
        r < XPQ,
{
    let ghost f = v@.subrange(from as int, to as int);
    let ghost padded = f + Seq::new((DECIMALS - f.len()) as nat, |i: int| '0');
    let mut acc: u64 = 0;
    let mut j: usize = 0;
    while j < DECIMALS
        invariant
            from <= to <= v@.len(),
            to - from <= DECIMALS,
            f == v@.subrange(from as int, to as int),
            all_digits(f),
            padded == f + Seq::new((DECIMALS - f.len()) as nat, |i: int| '0'),
            padded.len() == DECIMALS,
            j <= DECIMALS,
            acc as nat == digits_value(padded.take(j as int)),
            acc < pow10(j as nat),
            pow10(j as nat) <= 1_000_000,
        decreases DECIMALS - j,
    {
        let c = if j < to - from { v[from + j] } else { '0' };
        assert(padded[j as int] == c) by {
            if j < to - from {
                assert(f[j as int] == c);
            }
        }
        assert(is_digit(c)) by {
            if j < to - from {
                assert(is_digit(f[j as int]));
            }
        }
        let d = (c as u32 - '0' as u32) as u64;
        assert(padded.take(j + 1).drop_last() =~= padded.take(j as int));
        assert(10 * acc + d < 10 * pow10(j as nat)) by (nonlinear_arith)
            requires
                acc < pow10(j as nat),
                d < 10,
        ;
        assert(pow10((j + 1) as nat) == 10 * pow10(j as nat));
        assert(pow10(j as nat) <= 100_000) by {
            reveal_with_fuel(pow10, 7);
            if j == 0 {} else if j == 1 {} else if j == 2 {} else if j == 3 {} else if j == 4 {} else {}
        }
        acc = acc * 10 + d;
        j = j + 1;
    }
    assert(padded.take(DECIMALS as int) =~= padded);
    acc
}

/// Reads an XPQ amount in base units from `value`; see `xpq_amount`.
pub fn parse_xpq_amount(value: &str) -> (r: Result<u64, AmountError>)
    ensures
        r == xpq_amount(value@),
{
    let v = chars_of(value);
    let (start, end) = trim_bounds(&v, 0, v.len());
    assert(v@.subrange(0, v@.len() as int) =~= value@);
    let ghost t = v@.subrange(start as int, end as int);
    if start == end {
        return Err(AmountError::Empty);
    }
    if v[start] == '-' {
        return Err(AmountError::Negative);
    }
    let point = find_char_range(&v, start, end, '.');
    let ghost i = point - start;
    assert(t.take(i) =~= v@.subrange(start as int, point as int));
    let has_point = point < end;
    let frac_start = if has_point { point + 1 } else { end };
    let ghost frac = if has_point { t.skip(i + 1) } else { Seq::<char>::empty() };
    assert(frac =~= v@.subrange(frac_start as int, end as int));
    if has_point {
        let second = find_char_range(&v, frac_start, end, '.');
        if second < end {
            return Err(AmountError::ManyDecimalPoints);
        }
    }
    if point == start && frac_start == end {
        return Err(AmountError::Empty);
    }
    if !all_digits_range(&v, start, point) {
        return Err(AmountError::WholeNotDigits);
    }
    let whole_units: u64 = if point == start {
        0
    } else {
        proof {
            lemma_parse_unsigned_digits(t.take(i), u64::MAX as nat);
        }
        match parse_unsigned_range(&v, start, point, u64::MAX) {
            Ok(n) => n,
            Err(_) => {
                return Err(AmountError::WholeTooLarge);
            },
        }
    };
    if utf8_len_exceeds(&v, frac_start, end, DECIMALS) {
        return Err(AmountError::TooManyDecimals);
    }
    if !all_digits_range(&v, frac_start, end) {
        return Err(AmountError::FractionNotDigits);
    }
    assert(end - frac_start <= DECIMALS) by {
        lemma_utf8_len_at_least_len(frac);
    }
    let frac_units = fraction_units_range(&v, frac_start, end);
    match whole_units.checked_mul(XPQ) {
        Some(w) => match w.checked_add(frac_units) {
            Some(units) => Ok(units),
            None => Err(AmountError::TooLarge),
        },
        None => {
            assert(digits_value(t.take(i)) * XPQ + fraction_units(frac) > u64::MAX);
            Err(AmountError::TooLarge)
        },
    }
}

/// Each character takes at least one UTF-8 byte.
proof fn lemma_utf8_len_at_least_len(s: Seq<char>)
    ensures
        utf8_len(s) >= s.len(),
    decreases s.len(),
{
    if s.len() > 0 {
        lemma_utf8_len_at_least_len(s.drop_last());
    }
}

/// The display text of `units`, e.g. `1,234.500000 XPQ`.
pub fn format_xpq(units: u64) -> (s: String)
    ensures
        s@ == xpq_text(units as nat),
{
    let whole = units / XPQ;
    let fractional = units % XPQ;
    let digits = decimal_chars(whole);
    let mut s = String::new();
    push_grouped(&mut s, &digits, digits.len());
    assert(digits@.take(digits@.len() as int) =~= digits@);
    push_char(&mut s, '.');
    push_zero_padded(&mut s, fractional, DECIMALS);
    s.append(" XPQ");
    assert(s@ =~= xpq_text(units as nat));
    s
}

/// `value` with a `,` between groups of three digits, e.g. `1,234,567`.
pub fn format_grouped_u64(value: u64) -> (s: String)
    ensures
        s@ == group_thousands(decimal(value as nat)),
{
    let digits = decimal_chars(value);
    let mut s = String::new();
    push_grouped(&mut s, &digits, digits.len());
    assert(digits@.take(digits@.len() as int) =~= digits@);
    assert(s@ =~= group_thousands(decimal(value as nat)));
    s
}

/// A base-unit count given as text, shown as an XPQ amount; a text that is
/// not a `u64` is shown as it is.
pub fn amount_units_text(value: &str) -> (s: String)
    ensures
        s@ == (match parse_unsigned(value@, u64::MAX as nat) {
            Ok(units) => xpq_text(units),
            Err(_) => value@,
        }),
{
    let v = chars_of(value);
    assert(v@.subrange(0, v@.len() as int) =~= value@);
    match parse_unsigned_range(&v, 0, v.len(), u64::MAX) {
        Ok(units) => {
            assert(parse_unsigned(value@, u64::MAX as nat) == Ok::<nat, IntErrorKind>(units as nat));
            format_xpq(units)
        },
        Err(e) => {
            assert(parse_unsigned(value@, u64::MAX as nat) == Err::<nat, IntErrorKind>(e));
            string_from_chars(&v)
        },
    }
}

/// The fee that a transaction of `virtual_size` virtual bytes pays at the
/// default rate of one base unit per virtual byte.
pub fn policy_fee_for_virtual_size(virtual_size: usize) -> (fee: u64)
    requires
        virtual_size <= u64::MAX,
    ensures
        fee == virtual_size,
{
    virtual_size as u64
}

/// The fee to sign a transaction with, once it has been signed with `fee` and
/// measured at `virtual_size` virtual bytes: the default fee stands for the
/// policy fee of that size (`Some`); any other fee is kept as given (`None`).
pub fn submit_fee(fee: u64, virtual_size: usize) -> (r: Option<u64>)
    requires
        virtual_size <= u64::MAX,
    ensures
        r == (if fee == DEFAULT_TRANSACTION_FEE {
            Some(virtual_size as u64)
        } else {
            None::<u64>
        }),
{
    if fee == DEFAULT_TRANSACTION_FEE {
        Some(policy_fee_for_virtual_size(virtual_size))
    } else {
        None
    }
}

/// `xpq_amount` reads back the plain text of every amount.
pub proof fn lemma_xpq_plain_text_roundtrip(units: u64)
    ensures
        xpq_amount(xpq_plain_text(units as nat)) == Ok::<u64, AmountError>(units),
{
    let w = (units / XPQ) as nat;
    let f = (units % XPQ) as nat;
    let dw = decimal(w);
    let df = zero_pad(decimal(f), DECIMALS as nat);
    let t = xpq_plain_text(units as nat);
    assert(t == dw + seq!['.'] + df);
    lemma_decimal_facts(w);
    lemma_decimal_facts(f);
    assert(pow10(DECIMALS as nat) == XPQ) by {
        reveal_with_fuel(pow10, 7);
    }
    lemma_decimal_len_bound(f, DECIMALS as nat);
    lemma_zero_pad_facts(decimal(f), DECIMALS as nat);
    assert(df.len() == DECIMALS);
    // the text has no white space at either end
    assert(!crate::chars::is_white(t[0])) by {
        assert(t[0] == dw[0]);
        assert(is_digit(dw[0]));
    }
    assert(t.last() == df.last());
    assert(!crate::chars::is_white(t.last())) by {
        assert(is_digit(df[df.len() - 1]));
    }
    lemma_trim_unchanged(t);
    // the split at the point
    assert forall|k: int| 0 <= k < dw.len() implies t[k] != '.' by {
        assert(t[k] == dw[k]);
        assert(is_digit(dw[k]));
    }
    lemma_find_char_at(t, '.', dw.len() as int);
    assert(t.take(dw.len() as int) =~= dw);
    assert(t.skip(dw.len() as int + 1) =~= df);
    assert forall|k: int| 0 <= k < df.len() implies df[k] != '.' by {
        assert(is_digit(df[k]));
    }
    lemma_find_char_at(df, '.', df.len() as int);
    lemma_utf8_len_digits(df);
    assert(digits_value(df) == f) by {
        lemma_zero_pad_value(decimal(f), DECIMALS as nat);
    }
    assert(df + Seq::new((DECIMALS - df.len()) as nat, |i: int| '0') =~= df);
    assert(w * XPQ + f == units) by (nonlinear_arith)
        requires
            w == units / XPQ,
            f == units % XPQ,
    ;
    assert(t[0] == dw[0] && is_digit(dw[0]));
}

/// The decimal text of a number is a non-empty digit string denoting it.
pub proof fn lemma_decimal_facts(n: nat)
    ensures
        decimal(n).len() > 0,
        all_digits(decimal(n)),
        digits_value(decimal(n)) == n,
    decreases n,
{
    lemma_digit_char((n % 10) as nat);
    if n >= 10 {
        lemma_decimal_facts(n / 10);
        let d = decimal(n);
        assert(d.drop_last() =~= decimal(n / 10));
        assert(d.last() == digit_char((n % 10) as nat));
        assert(digits_value(d) == 10 * (n / 10) + n % 10);
        assert forall|i: int| 0 <= i < d.len() implies #[trigger] is_digit(d[i]) by {
            if i < d.len() - 1 {
                assert(d[i] == decimal(n / 10)[i]);
            }
        }
    } else {
        let d = decimal(n);
        assert(d.drop_last() =~= Seq::<char>::empty());
        assert(digits_value(d.drop_last()) == 0);
        assert(digits_value(d) == digit_value(d.last()));
    }
}

/// The digit character of `d < 10` is a digit of value `d`.
pub proof fn lemma_digit_char(d: nat)
    requires
        d < 10,
    ensures
        is_digit(digit_char(d)),
        digit_value(digit_char(d)) == d,
{
}

/// A number below `10^w` has a decimal text of at most `w` digits.
pub proof fn lemma_decimal_len_bound(n: nat, w: nat)
    requires
        w > 0,
        n < pow10(w),
    ensures
        decimal(n).len() <= w,
    decreases n,
{
    if n >= 10 {
        assert(w - 1 > 0) by {
            if w == 1 {
                assert(pow10(0) == 1);
                assert(pow10(1) == 10);
            }
        }
        assert(n / 10 < pow10((w - 1) as nat)) by (nonlinear_arith)
            requires
                n < pow10(w),
                pow10(w) == 10 * pow10((w - 1) as nat),
        ;
        lemma_decimal_len_bound(n / 10, (w - 1) as nat);
    }
}

proof fn lemma_zero_pad_facts(s: Seq<char>, w: nat)
    requires
        all_digits(s),
        s.len() > 0,
    ensures
        zero_pad(s, w).len() == if s.len() >= w { s.len() } else { w },
        all_digits(zero_pad(s, w)),
        zero_pad(s, w).last() == s.last(),
{
    let z = zero_pad(s, w);
    assert forall|i: int| 0 <= i < z.len() implies #[trigger] is_digit(z[i]) by {
        if s.len() < w && i >= (w - s.len()) {
            assert(z[i] == s[i - (w - s.len())]);
        }
    }
}

proof fn lemma_zero_pad_value(s: Seq<char>, w: nat)
    ensures
        digits_value(zero_pad(s, w)) == digits_value(s),
{
    if s.len() < w {
        lemma_leading_zeros_value(Seq::new((w - s.len()) as nat, |i: int| '0'), s);
    }
}

/// Leading zeros do not change the value of a digit string.
proof fn lemma_leading_zeros_value(z: Seq<char>, s: Seq<char>)
    requires
        forall|i: int| 0 <= i < z.len() ==> z[i] == '0',
    ensures
        digits_value(z + s) == digits_value(s),
    decreases s.len(), z.len(),
{
    if s.len() > 0 {
        assert((z + s).drop_last() =~= z + s.drop_last());
        lemma_leading_zeros_value(z, s.drop_last());
    } else if z.len() > 0 {
        assert((z + s).drop_last() =~= z.drop_last() + s);
        lemma_leading_zeros_value(z.drop_last(), s);
        assert(z + s =~= z);
        assert(digits_value(z) == 10 * digits_value(z.drop_last()) + digit_value(z.last()));
    } else {
        assert(z + s =~= s);
    }
}

/// A digit string takes one UTF-8 byte per digit.
proof fn lemma_utf8_len_digits(s: Seq<char>)
    requires
        all_digits(s),
    ensures
        utf8_len(s) == s.len(),
    decreases s.len(),
{
    if s.len() > 0 {
        assert(all_digits(s.drop_last())) by {
            assert forall|i: int| 0 <= i < s.drop_last().len() implies #[trigger] is_digit(
                s.drop_last()[i],
            ) by {
                assert(s.drop_last()[i] == s[i]);
            }
        }
        lemma_utf8_len_digits(s.drop_last());
        assert(is_digit(s[s.len() - 1]));
    }
}

pub proof fn lemma_find_char_at(s: Seq<char>, c: char, k: int)
    requires
        0 <= k <= s.len(),
        forall|j: int| 0 <= j < k ==> s[j] != c,
        k < s.len() ==> s[k] == c,
    ensures
        find_char(s, c) == k,
    decreases s.len(),
{
    if s.len() > 0 && k > 0 {
        assert forall|j: int| 0 <= j < k - 1 implies s.drop_first()[j] != c by {
            assert(s.drop_first()[j] == s[j + 1]);
        }
        lemma_find_char_at(s.drop_first(), c, k - 1);
    }
}

proof fn lemma_trim_unchanged(t: Seq<char>)
    requires
        t.len() > 0,
        !crate::chars::is_white(t[0]),
        !crate::chars::is_white(t.last()),
    ensures
        trim(t) == t,
{
    assert(crate::chars::trim_start(t) == t);
}

} // verus!
