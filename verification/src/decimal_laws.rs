//! What holds of every numeral: writing and reading undo each other, and the
//! shortest spelling stands for the same number.

use vstd::prelude::*;
use crate::decimal::{
    all_digits, digits_end, digits_value, is_numeral, lemma_digits_end, lemma_digits_end_is,
    numeral_of, pow10, strip_leading_zeros, strip_trailing_zeros, DecimalView,
};

verus! {

/// Reading what was written gives the numeral back.
pub proof fn lemma_read_spelling(d: DecimalView)
    requires
        d.wf(),
    ensures
        is_numeral(d.spelling()),
        numeral_of(d.spelling()) == d,
{
    let text = d.spelling();
    let dot = d.whole.len() as int;
    lemma_digits_end_is(text, 0, dot);
    assert(text.subrange(0, dot) == d.whole);
    if d.fraction.len() > 0 {
        lemma_digits_end_is(text, dot + 1, text.len() as int);
        assert(text.subrange(dot + 1, text.len() as int) == d.fraction);
    } else {
        assert(d.fraction == Seq::<char>::empty());
    }
}

/// Writing what was read gives the text back.
pub proof fn lemma_spell_numeral(text: Seq<char>)
    requires
        is_numeral(text),
    ensures
        numeral_of(text).wf(),
        numeral_of(text).spelling() == text,
{
    let dot = digits_end(text, 0);
    lemma_digits_end(text, 0);
    if dot < text.len() {
        lemma_digits_end(text, dot + 1);
        assert(text.subrange(0, dot) + seq!['.'] + text.subrange(dot + 1, text.len() as int)
            == text);
    }
}

/// Powers of ten multiply as their exponents add.
pub proof fn lemma_pow10_add(m: nat, n: nat)
    ensures
        pow10(m + n) == pow10(m) * pow10(n),
    decreases n,
{
    if n > 0 {
        lemma_pow10_add(m, (n - 1) as nat);
        assert(10 * (pow10(m) * pow10((n - 1) as nat)) == pow10(m) * (10 * pow10((n - 1) as nat)))
            by (nonlinear_arith);
    } else {
        assert(pow10(m) * 1 == pow10(m));
    }
}

/// Digits written one after another: the first run counts for as many
/// powers of ten as the second run is long.
pub proof fn lemma_digits_value_concat(a: Seq<char>, b: Seq<char>)
    ensures
        digits_value(a + b) == digits_value(a) * pow10(b.len()) + digits_value(b),
    decreases b.len(),
{
    if b.len() == 0 {
        assert(digits_value(a) * 1 == digits_value(a));
    } else {
        let front = b.drop_last();
        lemma_digits_value_concat(a, front);
        assert((a + b).drop_last() == a + front);
        let x = digits_value(a);
        let p = pow10(front.len());
        let y = digits_value(front);
        assert(10 * (x * p + y) == x * (10 * p) + 10 * y) by (nonlinear_arith);
    }
}

/// Leading zeros change nothing: the digits that are left are digits, there
/// is at least one, they spell the same number, and nothing more can be
/// stripped from them.
pub proof fn lemma_strip_leading_zeros_value(digits: Seq<char>)
    requires
        digits.len() > 0,
        all_digits(digits),
    ensures
        strip_leading_zeros(digits).len() > 0,
        all_digits(strip_leading_zeros(digits)),
        digits_value(strip_leading_zeros(digits)) == digits_value(digits),
        strip_leading_zeros(strip_leading_zeros(digits)) == strip_leading_zeros(digits),
    decreases digits.len(),
{
    if digits.len() > 1 && digits[0] == '0' {
        let rest = digits.drop_first();
        assert(all_digits(rest));
        lemma_strip_leading_zeros_value(rest);
        assert(seq!['0'] + rest == digits);
        lemma_digits_value_concat(seq!['0'], rest);
        assert(digits_value(seq!['0']) == 0) by {
            assert(seq!['0'].drop_last() == Seq::<char>::empty());
            assert(digits_value(Seq::<char>::empty()) == 0);
        }
    }
}

/// Trailing zeros after the point only scale: the digits that are left are
/// digits, each zero that was stripped stood for one power of ten, and
/// nothing more can be stripped.
pub proof fn lemma_strip_trailing_zeros_value(digits: Seq<char>)
    requires
        all_digits(digits),
    ensures
        strip_trailing_zeros(digits).len() <= digits.len(),
        all_digits(strip_trailing_zeros(digits)),
        digits_value(digits) == digits_value(strip_trailing_zeros(digits)) * pow10(
            (digits.len() - strip_trailing_zeros(digits).len()) as nat,
        ),
        strip_trailing_zeros(strip_trailing_zeros(digits)) == strip_trailing_zeros(digits),
    decreases digits.len(),
{
    let stripped = strip_trailing_zeros(digits);
    if digits.len() > 0 && digits.last() == '0' {
        let rest = digits.drop_last();
        lemma_strip_trailing_zeros_value(rest);
        let k = (rest.len() - stripped.len()) as nat;
        let v = digits_value(stripped);
        assert(10 * (v * pow10(k)) == v * (10 * pow10(k))) by (nonlinear_arith);
    } else {
        assert(digits_value(digits) * 1 == digits_value(digits));
    }
}

/// The shortest numeral stands for the same number. It is well formed, has
/// no more digits after the point than the numeral it was made from, and
/// its mantissa is that numeral's without the powers of ten that the
/// stripped zeros stood for. Making it shorter again changes nothing.
pub proof fn lemma_canonical_same_number(d: DecimalView)
    requires
        d.wf(),
    ensures
        d.canonical().wf(),
        d.canonical().scale() <= d.scale(),
        d.mantissa() == d.canonical().mantissa() * pow10(
            (d.scale() - d.canonical().scale()) as nat,
        ),
        d.canonical().canonical() == d.canonical(),
{
    let c = d.canonical();
    lemma_strip_leading_zeros_value(d.whole);
    lemma_strip_trailing_zeros_value(d.fraction);
    lemma_digits_value_concat(d.whole, d.fraction);
    lemma_digits_value_concat(c.whole, c.fraction);
    let k = (d.scale() - c.scale()) as nat;
    lemma_pow10_add(c.scale(), k);
    let w = digits_value(d.whole);
    let f = digits_value(c.fraction);
    let p = pow10(c.scale());
    let q = pow10(k);
    assert((w * p + f) * q == w * (p * q) + f * q) by (nonlinear_arith);
}

/// The text of a numeral is itself a numeral, and reading it gives the
/// shortest numeral for the same number.
pub proof fn lemma_read_text(d: DecimalView)
    requires
        d.wf(),
    ensures
        is_numeral(d.text()),
        numeral_of(d.text()) == d.canonical(),
        numeral_of(d.text()).text() == d.text(),
{
    lemma_canonical_same_number(d);
    lemma_read_spelling(d.canonical());
}

} // verus!
