//! Which numbers of a message are too large: told by their value, not by how they are written.
use crate::protocol::numbers::{digit10, exponent_at, exponent_of, leading, mantissa, real_is_large};
use vstd::arithmetic::power::*;
use vstd::prelude::*;

verus! {

/// A number as it is written: the integer that its digits make, and how many of them stand behind the
/// point.
pub struct Written {
    pub whole: nat,
    pub behind: nat,
    pub pointed: bool,
}

/// Reads the digits of a number from the left, without its exponent.
pub open spec fn written(s: Seq<char>) -> Written
    decreases s.len(),
{
    if s.len() == 0 {
        Written { whole: 0, behind: 0, pointed: false }
    } else {
        let w = written(s.drop_last());
        let c = s.last();
        if '0' <= c && c <= '9' {
            Written {
                whole: (w.whole * 10 + (c as int - '0' as int)) as nat,
                behind: if w.pointed {
                    w.behind + 1
                } else {
                    w.behind
                },
                pointed: w.pointed,
            }
        } else if c == '.' {
            Written { pointed: true, ..w }
        } else {
            w
        }
    }
}

/// Whether a text is made of digits, points and signs.
pub open spec fn is_mantissa(s: Seq<char>) -> bool {
    forall|i: int|
        0 <= i < s.len() ==> '0' <= (#[trigger] s[i]) <= '9' || s[i] == '.' || s[i] == '-'
}

/// Whether a whole number shifted by so many decimal places is greater than the greatest integer that
/// every reader holds.
pub open spec fn is_beyond(whole: nat, places: int) -> bool {
    if places >= 0 {
        whole * pow(10, places as nat) > 9_007_199_254_740_991
    } else {
        whole > 9_007_199_254_740_991 * pow(10, (-places) as nat)
    }
}

proof fn leading_grows(s: Seq<char>, c: char, n: nat)
    requires
        n <= s.len(),
    ensures
        leading(s.push(c), n) == leading(s, n),
    decreases n,
{
    if n > 0 {
        leading_grows(s, c, (n - 1) as nat);
        assert(s.push(c)[n - 1] == s[n - 1]);
    }
}

proof fn mantissas_read_the_digits(s: Seq<char>)
    requires
        is_mantissa(s),
    ensures
        ({
            let m = mantissa(s);
            let w = written(s);
            &&& leading(m.digits, m.digits.len()) == w.whole
            &&& m.scale == m.digits.len() - w.behind
            &&& m.pointed == w.pointed
            &&& m.digits.len() == 0 ==> w.whole == 0
            &&& m.digits.len() > 0 ==> '1' <= m.digits[0] <= '9'
        }),
    decreases s.len(),
{
    if s.len() > 0 {
        let front = s.drop_last();
        let c = s.last();
        assert(c == s[s.len() - 1]);
        assert forall|i: int| 0 <= i < front.len() implies '0' <= (#[trigger] front[i]) <= '9'
            || front[i] == '.' || front[i] == '-' by {
            assert(front[i] == s[i]);
        }
        mantissas_read_the_digits(front);
        let m = mantissa(front);
        if '0' <= c <= '9' && !(m.digits.len() == 0 && c == '0') {
            let d = m.digits.push(c);
            leading_grows(m.digits, c, m.digits.len());
            assert(d[d.len() - 1] == c);
            assert(leading(d, d.len()) == leading(d, m.digits.len()) * 10 + digit10(c));
            if m.digits.len() > 0 {
                assert(d[0] == m.digits[0]);
            }
        }
    }
}

proof fn leading_is_bounded(s: Seq<char>, n: nat)
    requires
        n <= s.len(),
    ensures
        leading(s, n) < pow(10, n),
        n > 0 && '1' <= s[0] <= '9' ==> leading(s, n) >= pow(10, (n - 1) as nat),
    decreases n,
{
    if n > 0 {
        leading_is_bounded(s, (n - 1) as nat);
        lemma_pow_adds(10, (n - 1) as nat, 1);
        lemma_pow1(10);
        if n == 1 {
            lemma_pow0(10);
        } else {
            lemma_pow_adds(10, (n - 2) as nat, 1);
        }
    } else {
        lemma_pow0(10);
    }
}

proof fn leading_pads(s: Seq<char>, n: nat)
    requires
        s.len() <= n,
    ensures
        leading(s, n) == leading(s, s.len()) * pow(10, (n - s.len()) as nat),
    decreases n,
{
    if n == s.len() {
        lemma_pow0(10);
    } else {
        leading_pads(s, (n - 1) as nat);
        let k = (n - 1 - s.len()) as nat;
        lemma_pow_adds(10, k, 1);
        lemma_pow1(10);
        let d = leading(s, s.len());
        assert(d * pow(10, k) * 10 == d * (pow(10, k) * 10)) by (nonlinear_arith);
    }
}

proof fn powers_of_ten()
    ensures
        pow(10, 15) == 1_000_000_000_000_000,
        pow(10, 16) == 10_000_000_000_000_000,
{
    reveal(pow);
    reveal_with_fuel(pow, 17);
}

proof fn sizes_show(digits: Seq<char>, places: int)
    requires
        0 < digits.len() <= 16,
        '1' <= digits[0] <= '9',
    ensures
        ({
            let k = digits.len() as int;
            let whole = leading(digits, digits.len());
            let scale = k + places;
            is_beyond(whole, places) <==> scale > 16 || scale == 16 && leading(digits, 16)
                > 9_007_199_254_740_991
        }),
{
    let k = digits.len();
    let whole = leading(digits, k);
    let scale = k + places;
    leading_is_bounded(digits, k);
    powers_of_ten();
    if scale > 16 {
        let p = places as nat;
        lemma_pow_adds(10, (k - 1) as nat, p);
        lemma_pow_increases(10, 16, (k - 1 + p) as nat);
        lemma_pow_positive(10, p);
        assert(whole * pow(10, p) >= pow(10, (k - 1) as nat) * pow(10, p)) by (nonlinear_arith)
            requires
                whole >= pow(10, (k - 1) as nat),
                pow(10, p) > 0,
        ;
    } else if scale == 16 {
        leading_pads(digits, 16);
    } else if places >= 0 {
        let p = places as nat;
        lemma_pow_adds(10, k, p);
        lemma_pow_increases(10, (k + p) as nat, 15);
        lemma_pow_positive(10, p);
        assert(whole * pow(10, p) <= pow(10, k) * pow(10, p)) by (nonlinear_arith)
            requires
                whole <= pow(10, k),
                pow(10, p) > 0,
        ;
    } else {
        let p = (-places) as nat;
        lemma_pow_adds(10, 15, p);
        lemma_pow_increases(10, k, (15 + p) as nat);
        lemma_pow_positive(10, p);
        assert(9_007_199_254_740_991 * pow(10, p) >= pow(10, 15) * pow(10, p)) by (nonlinear_arith)
            requires
                pow(10, 15) <= 9_007_199_254_740_991,
                pow(10, p) > 0,
        ;
    }
}

/// A number that is written with a point or an exponent, with at most 16 digits that count, is too large
/// exactly where its value is greater than the greatest integer that every reader holds, whatever its
/// sign and however it is written.
pub proof fn large_reals_are_large(s: Seq<char>)
    requires
        is_mantissa(s.take(exponent_at(s, 0))),
        0 <= exponent_at(s, 0) <= s.len(),
        mantissa(s.take(exponent_at(s, 0))).digits.len() <= 16,
    ensures
        ({
            let e = exponent_at(s, 0);
            let w = written(s.take(e));
            let shift = if e < s.len() {
                exponent_of(s.skip(e + 1))
            } else {
                0
            };
            real_is_large(s) <==> is_beyond(w.whole, shift - w.behind)
        }),
{
    let e = exponent_at(s, 0);
    let m = mantissa(s.take(e));
    let w = written(s.take(e));
    mantissas_read_the_digits(s.take(e));
    let shift = if e < s.len() {
        exponent_of(s.skip(e + 1))
    } else {
        0
    };
    if m.digits.len() > 0 {
        sizes_show(m.digits, shift - w.behind);
    } else {
        let p = shift - w.behind;
        if p < 0 {
            lemma_pow_positive(10, (-p) as nat);
        } else {
            assert(0 * pow(10, p as nat) == 0);
        }
    }
}

/// The exponent begins after the first letter for it; without one there is none.
pub proof fn exponents_follow_their_letter(s: Seq<char>, i: int)
    requires
        0 <= i <= s.len(),
    ensures
        i <= exponent_at(s, i) <= s.len(),
        exponent_at(s, i) < s.len() ==> s[exponent_at(s, i)] == 'e' || s[exponent_at(s, i)] == 'E',
        forall|k: int|
            i <= k < exponent_at(s, i) ==> (#[trigger] s[k]) != 'e' && s[k] != 'E',
    decreases s.len() - i,
{
    if i < s.len() && s[i] != 'e' && s[i] != 'E' {
        exponents_follow_their_letter(s, i + 1);
    }
}

proof fn leading_is_written(s: Seq<char>)
    requires
        forall|i: int| 0 <= i < s.len() ==> '0' <= (#[trigger] s[i]) <= '9',
    ensures
        leading(s, s.len()) == written(s).whole,
    decreases s.len(),
{
    if s.len() > 0 {
        let front = s.drop_last();
        assert(front.push(s.last()) =~= s);
        assert(s.last() == s[s.len() - 1]);
        assert forall|i: int| 0 <= i < front.len() implies '0' <= (#[trigger] front[i]) <= '9' by {
            assert(front[i] == s[i]);
        }
        leading_is_written(front);
        leading_grows(front, s.last(), front.len());
    }
}

/// An exponent of at most nine digits is the number that they make, less than zero behind a minus.
pub proof fn exponents_are_read(sign: Seq<char>, digits: Seq<char>)
    requires
        sign.len() == 0 || sign == seq!['+'] || sign == seq!['-'],
        0 < digits.len() <= 9,
        forall|i: int| 0 <= i < digits.len() ==> '0' <= (#[trigger] digits[i]) <= '9',
    ensures
        sign == seq!['-'] ==> exponent_of(sign + digits) == -(written(digits).whole as int),
        sign != seq!['-'] ==> exponent_of(sign + digits) == written(digits).whole,
{
    leading_is_written(digits);
    let s = sign + digits;
    if sign.len() == 0 {
        assert(s =~= digits);
        assert('0' <= digits[0] <= '9');
    } else {
        assert(s.skip(1) =~= digits);
        assert(s[0] == sign[0]);
        assert(seq!['+'][0] == '+' && seq!['-'][0] == '-');
    }
}

} // verus!
