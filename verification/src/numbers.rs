use vstd::prelude::*;
use vstd::string::{StrSliceExecFns, StringExecFns};

use crate::text::push_char;

verus! {

/// The character of a decimal digit.
pub open spec fn digit_char(d: nat) -> char {
    ((d + 48) as u8) as char
}

/// Decimal digits of a natural number, most significant first.
pub open spec fn digits(n: nat) -> Seq<char>
    decreases n,
{
    if n < 10 {
        seq![digit_char(n)]
    } else {
        digits(n / 10).push(digit_char(n % 10))
    }
}

/// Decimal text of an integer, with a leading `-` when negative.
pub open spec fn decimal(n: int) -> Seq<char> {
    if n < 0 {
        seq!['-'] + digits((-n) as nat)
    } else {
        digits(n as nat)
    }
}

/// `s` padded on the left with `0` up to `width` characters.
pub open spec fn zero_pad(s: Seq<char>, width: nat) -> Seq<char> {
    if s.len() < width {
        Seq::new((width - s.len()) as nat, |i: int| '0') + s
    } else {
        s
    }
}

fn push_digits(s: &mut String, n: u32)
    ensures
        final(s)@ == old(s)@ + digits(n as nat),
    decreases n,
{
    if n >= 10 {
        push_digits(s, n / 10);
    }
    let d: u32 = n % 10;
    let c = ((d + 48) as u8) as char;
    push_char(s, c);
    proof {
        if n >= 10 {
            assert(old(s)@ + digits(n as nat) =~= old(s)@ + digits((n / 10) as nat) + seq![c]);
        } else {
            assert(digits(n as nat) =~= seq![c]);
        }
    }
}

/// Decimal text of `n`.
pub fn decimal_string(n: i32) -> (r: String)
    ensures
        r@ == decimal(n as int),
{
    let mut r = String::new();
    if n < 0 {
        push_char(&mut r, '-');
        let m: u32 = if n == i32::MIN {
            2147483648u32
        } else {
            (-n) as u32
        };
        push_digits(&mut r, m);
    } else {
        push_digits(&mut r, n as u32);
    }
    r
}

/// Decimal text of `n`, padded on the left with `0` to at least six
/// characters.
pub fn pad6(n: i32) -> (r: String)
    ensures
        r@ == zero_pad(decimal(n as int), 6),
{
    let text = decimal_string(n);
    let len = text.as_str().unicode_len();
    let mut r = String::new();
    let mut k: usize = len;
    while k < 6
        invariant
            len == text@.len(),
            len <= k <= 6 || (len > 6 && k == len),
            r@ == Seq::new((k - len) as nat, |i: int| '0'),
        decreases 6 - k,
    {
        push_char(&mut r, '0');
        k = k + 1;
        assert(r@ =~= Seq::new((k - len) as nat, |i: int| '0'));
    }
    let mut out = r;
    out.append(text.as_str());
    assert(out@ =~= zero_pad(decimal(n as int), 6));
    out
}

/// Ten to the power `w`.
pub open spec fn pow10(w: nat) -> nat
    decreases w,
{
    if w == 0 {
        1
    } else {
        10 * pow10((w - 1) as nat)
    }
}

/// The last `w` decimal digits of `n`, most significant first.
pub open spec fn fixed_digits(n: nat, w: nat) -> Seq<char>
    decreases w,
{
    if w == 0 {
        Seq::empty()
    } else {
        fixed_digits(n / 10, (w - 1) as nat).push(digit_char(n % 10))
    }
}

/// Whether `x` comes strictly before `y` in dictionary order at a position
/// both have: they agree up to some index, where `x` has the smaller
/// character.
pub open spec fn lex_less(x: Seq<char>, y: Seq<char>) -> bool {
    exists|i: int|
        #![trigger x[i], y[i]]
        0 <= i < x.len() && i < y.len() && x.take(i) == y.take(i) && (x[i] as int) < (y[i] as int)
}

proof fn lemma_fixed_len(n: nat, w: nat)
    ensures
        fixed_digits(n, w).len() == w,
    decreases w,
{
    if w > 0 {
        lemma_fixed_len(n / 10, (w - 1) as nat);
    }
}

proof fn lemma_fixed_zero(w: nat)
    ensures
        fixed_digits(0, w) == Seq::new(w, |i: int| '0'),
    decreases w,
{
    if w > 0 {
        lemma_fixed_zero((w - 1) as nat);
        assert(digit_char(0) == '0');
        assert(fixed_digits(0, w) =~= Seq::new(w, |i: int| '0'));
    }
}

proof fn lemma_pad_push(s: Seq<char>, c: char, w: nat)
    requires
        w >= 1,
    ensures
        zero_pad(s.push(c), w) == zero_pad(s, (w - 1) as nat).push(c),
{
    assert(zero_pad(s.push(c), w) =~= zero_pad(s, (w - 1) as nat).push(c));
}

/// Below `10^w`, padding the decimal digits to `w` characters gives the
/// last `w` digits.
proof fn lemma_pad_is_fixed(n: nat, w: nat)
    requires
        w >= 1,
        n < pow10(w),
    ensures
        zero_pad(digits(n), w) == fixed_digits(n, w),
    decreases w,
{
    if n < 10 {
        lemma_fixed_zero((w - 1) as nat);
        assert(n / 10 == 0);
        assert(n % 10 == n);
        assert(zero_pad(digits(n), w) =~= fixed_digits(n, w));
    } else {
        assert(w >= 2) by {
            if w == 1 {
                assert(pow10(1) == 10 * pow10(0));
            }
        }
        let p = pow10((w - 1) as nat);
        assert(n / 10 < p) by (nonlinear_arith)
            requires
                n < 10 * p,
        ;
        lemma_pad_is_fixed(n / 10, (w - 1) as nat);
        lemma_pad_push(digits(n / 10), digit_char(n % 10), w);
    }
}

proof fn lemma_lex_push(x1: Seq<char>, x2: Seq<char>, c1: char, c2: char)
    requires
        x1.len() == x2.len(),
        lex_less(x1, x2) || (x1 == x2 && (c1 as int) < (c2 as int)),
    ensures
        lex_less(x1.push(c1), x2.push(c2)),
{
    let y1 = x1.push(c1);
    let y2 = x2.push(c2);
    if lex_less(x1, x2) {
        let i = choose|i: int|
            #![trigger x1[i], x2[i]]
            0 <= i < x1.len() && i < x2.len() && x1.take(i) == x2.take(i) && (x1[i] as int) < (
            x2[i] as int);
        assert(y1.take(i) =~= x1.take(i));
        assert(y2.take(i) =~= x2.take(i));
        assert(y1[i] == x1[i] && y2[i] == x2[i]);
    } else {
        let i = x1.len() as int;
        assert(y1.take(i) =~= x1);
        assert(y2.take(i) =~= x2);
        assert(y1[i] == c1 && y2[i] == c2);
    }
}

proof fn lemma_digit_char_order(d1: nat, d2: nat)
    requires
        d1 < d2 < 10,
    ensures
        (digit_char(d1) as int) < (digit_char(d2) as int),
{
}

proof fn lemma_fixed_order(a: nat, b: nat, w: nat)
    requires
        a < b < pow10(w),
    ensures
        lex_less(fixed_digits(a, w), fixed_digits(b, w)),
    decreases w,
{
    if w == 0 {
        assert(false);
    } else {
        let p = pow10((w - 1) as nat);
        lemma_fixed_len(a / 10, (w - 1) as nat);
        lemma_fixed_len(b / 10, (w - 1) as nat);
        assert(a / 10 <= b / 10 && b / 10 < p) by (nonlinear_arith)
            requires
                a < b < 10 * p,
        ;
        if a / 10 < b / 10 {
            lemma_fixed_order(a / 10, b / 10, (w - 1) as nat);
        } else {
            assert(a % 10 < b % 10) by (nonlinear_arith)
                requires
                    a < b,
                    a / 10 == b / 10,
            ;
            lemma_digit_char_order(a % 10, b % 10);
        }
        lemma_lex_push(
            fixed_digits(a / 10, (w - 1) as nat),
            fixed_digits(b / 10, (w - 1) as nat),
            digit_char(a % 10),
            digit_char(b % 10),
        );
    }
}

/// Numbers below a million, padded to six digits, have six characters and
/// sort in dictionary order as they do by value: the wav pieces of an
/// episode shorter than about eleven and a half days list in time order.
pub proof fn padded_numbers_sort_in_order(a: int, b: int)
    requires
        0 <= a < b < 1000000,
    ensures
        zero_pad(decimal(a), 6).len() == 6,
        zero_pad(decimal(b), 6).len() == 6,
        lex_less(zero_pad(decimal(a), 6), zero_pad(decimal(b), 6)),
{
    assert(pow10(6) == 1000000) by {
        reveal_with_fuel(pow10, 7);
    }
    lemma_pad_is_fixed(a as nat, 6);
    lemma_pad_is_fixed(b as nat, 6);
    lemma_fixed_len(a as nat, 6);
    lemma_fixed_len(b as nat, 6);
    lemma_fixed_order(a as nat, b as nat, 6);
}

/// Decimal text: a single digit below ten, the text of the quotient followed
/// by the last digit above, and a `-` before the text of the magnitude for a
/// negative number. Digits are the characters `'0'` to `'9'`.
pub proof fn decimal_text_laws(q: int, r: int)
    requires
        0 <= r < 10,
    ensures
        decimal(r) == seq![digit_char(r as nat)],
        digit_char(r as nat) as int == '0' as int + r,
        q > 0 ==> decimal(10 * q + r) == decimal(q).push(digit_char(r as nat)),
        q > 0 ==> decimal(-q) == seq!['-'] + decimal(q),
{
    if q > 0 {
        let n = 10 * q + r;
        assert(n / 10 == q && n % 10 == r) by (nonlinear_arith)
            requires
                n == 10 * q + r,
                0 <= r < 10,
        ;
    }
}

/// Padding keeps the text at its end, fills the front with `0`, and gives
/// the larger of the width and the text's length.
pub proof fn zero_pad_laws(s: Seq<char>, width: nat)
    ensures
        zero_pad(s, width).len() == if s.len() < width { width } else { s.len() },
        zero_pad(s, width).subrange(zero_pad(s, width).len() - s.len(), zero_pad(s, width).len() as int)
            == s,
        forall|i: int| 0 <= i < zero_pad(s, width).len() - s.len() ==> zero_pad(s, width)[i] == '0',
{
    let t = zero_pad(s, width);
    assert(t.subrange(t.len() - s.len(), t.len() as int) =~= s);
}

} // verus!
