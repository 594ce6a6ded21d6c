//! Number literals, kept as the exact decimal numeral that was written.
//!
//! A numeral is a run of digits, optionally followed by a point and a second
//! run of digits. Nothing is rounded: turning a numeral into a machine number
//! is left to whoever consumes it.

use vstd::prelude::*;
use crate::text::{collect_chars, push_range};

verus! {

/// Whether `c` is one of the ten decimal digits.
pub open spec fn is_digit(c: char) -> bool {
    '0' <= c && c <= '9'
}

/// Where the run of digits that starts at `from` ends: the first position at
/// or after `from` that holds no digit, or the length of `s` if there is none.
pub open spec fn digits_end(s: Seq<char>, from: int) -> int
    decreases s.len() - from,
{
    if 0 <= from < s.len() && is_digit(s[from]) {
        digits_end(s, from + 1)
    } else {
        from
    }
}

/// `digits_end` delimits a maximal run: it stays inside `s`, everything
/// before it is a digit, and what it stops at is not.
pub proof fn lemma_digits_end(s: Seq<char>, from: int)
    requires
        0 <= from <= s.len(),
    ensures
        from <= digits_end(s, from) <= s.len(),
        forall|i: int| from <= i < digits_end(s, from) ==> is_digit(#[trigger] s[i]),
        digits_end(s, from) < s.len() ==> !is_digit(s[digits_end(s, from)]),
    decreases s.len() - from,
{
    if from < s.len() && is_digit(s[from]) {
        lemma_digits_end(s, from + 1);
    }
}

/// A position that ends a run of digits from `from` is the one `digits_end` names.
pub proof fn lemma_digits_end_is(s: Seq<char>, from: int, end: int)
    requires
        0 <= from <= end <= s.len(),
        forall|i: int| from <= i < end ==> is_digit(#[trigger] s[i]),
        end < s.len() ==> !is_digit(s[end]),
    ensures
        digits_end(s, from) == end,
    decreases end - from,
{
    if from < end {
        lemma_digits_end_is(s, from + 1, end);
    }
}

/// Whether every element of `s` is a decimal digit.
pub open spec fn all_digits(s: Seq<char>) -> bool {
    forall|i: int| 0 <= i < s.len() ==> is_digit(#[trigger] s[i])
}

/// The mathematical content of a [`Decimal`]: the digits before the point and
/// the digits after it, most significant first.
pub struct DecimalView {
    pub whole: Seq<char>,
    pub fraction: Seq<char>,
}

/// Whether `text` is a numeral: one or more digits, then either nothing or a
/// point followed by one or more digits.
pub open spec fn is_numeral(text: Seq<char>) -> bool {
    let dot = digits_end(text, 0);
    &&& dot > 0
    &&& dot < text.len() ==> {
        &&& text[dot] == '.'
        &&& dot + 1 < text.len()
        &&& digits_end(text, dot + 1) == text.len()
    }
}

/// The numeral that `text` spells: what stands before the point and what
/// stands after it.
pub open spec fn numeral_of(text: Seq<char>) -> DecimalView {
    let dot = digits_end(text, 0);
    DecimalView {
        whole: text.subrange(0, dot),
        fraction: if dot < text.len() {
            text.subrange(dot + 1, text.len() as int)
        } else {
            Seq::empty()
        },
    }
}

/// What a numeral spells is well formed: digits only, and at least one
/// before the point.
pub proof fn lemma_numeral_wf(text: Seq<char>)
    requires
        is_numeral(text),
    ensures
        numeral_of(text).wf(),
        numeral_of(text).fraction.len() > 0 <==> digits_end(text, 0) < text.len(),
{
    let dot = digits_end(text, 0);
    lemma_digits_end(text, 0);
    if dot < text.len() {
        lemma_digits_end(text, dot + 1);
    }
}

/// `digits` without its leading zeros, but never without its last digit.
pub open spec fn strip_leading_zeros(digits: Seq<char>) -> Seq<char>
    decreases digits.len(),
{
    if digits.len() > 1 && digits[0] == '0' {
        strip_leading_zeros(digits.drop_first())
    } else {
        digits
    }
}

/// `digits` without its trailing zeros.
pub open spec fn strip_trailing_zeros(digits: Seq<char>) -> Seq<char>
    decreases digits.len(),
{
    if digits.len() > 0 && digits.last() == '0' {
        strip_trailing_zeros(digits.drop_last())
    } else {
        digits
    }
}

/// The value of the digit `c`.
pub open spec fn digit_value(c: char) -> nat {
    (c as int - '0' as int) as nat
}

/// The whole number that `digits` spell, most significant digit first.
pub open spec fn digits_value(digits: Seq<char>) -> nat
    decreases digits.len(),
{
    if digits.len() == 0 {
        0
    } else {
        10 * digits_value(digits.drop_last()) + digit_value(digits.last())
    }
}

/// Ten to the power of `n`.
pub open spec fn pow10(n: nat) -> nat
    decreases n,
{
    if n == 0 {
        1
    } else {
        10 * pow10((n - 1) as nat)
    }
}

impl DecimalView {
    /// Whether this is a numeral as it can be written: digits only, and at
    /// least one before the point.
    pub open spec fn wf(self) -> bool {
        &&& self.whole.len() > 0
        &&& all_digits(self.whole)
        &&& all_digits(self.fraction)
    }

    /// All digits read as one whole number. The number that the numeral
    /// stands for is `mantissa() / 10^scale()`.
    pub open spec fn mantissa(self) -> nat {
        digits_value(self.whole + self.fraction)
    }

    /// How many digits stand after the point.
    pub open spec fn scale(self) -> nat {
        self.fraction.len()
    }

    /// The numeral as it is written: the digits before the point, and where
    /// digits follow it, the point and those digits.
    pub open spec fn spelling(self) -> Seq<char> {
        if self.fraction.len() == 0 {
            self.whole
        } else {
            self.whole + seq!['.'] + self.fraction
        }
    }

    /// The shortest numeral for the same number: no leading zeros before the
    /// point but for a lone `0`, and no trailing zeros after it.
    pub open spec fn canonical(self) -> DecimalView {
        DecimalView {
            whole: strip_leading_zeros(self.whole),
            fraction: strip_trailing_zeros(self.fraction),
        }
    }

    /// The shortest way to write the same number.
    pub open spec fn text(self) -> Seq<char> {
        self.canonical().spelling()
    }
}

/// Stripping leading zeros drops a prefix of zeros and keeps the rest.
pub proof fn lemma_strip_leading_zeros(digits: Seq<char>, k: int)
    requires
        0 <= k < digits.len(),
        forall|i: int| 0 <= i < k ==> #[trigger] digits[i] == '0',
        k == digits.len() - 1 || digits[k] != '0',
    ensures
        strip_leading_zeros(digits) == digits.subrange(k, digits.len() as int),
    decreases k,
{
    if k > 0 {
        let rest = digits.drop_first();
        lemma_strip_leading_zeros(rest, k - 1);
        assert(rest.subrange(k - 1, rest.len() as int) == digits.subrange(
            k,
            digits.len() as int,
        ));
    }
}

/// Stripping trailing zeros drops a suffix of zeros and keeps the rest.
pub proof fn lemma_strip_trailing_zeros(digits: Seq<char>, k: int)
    requires
        0 <= k <= digits.len(),
        forall|i: int| k <= i < digits.len() ==> #[trigger] digits[i] == '0',
        k == 0 || digits[k - 1] != '0',
    ensures
        strip_trailing_zeros(digits) == digits.subrange(0, k),
    decreases digits.len() - k,
{
    if k < digits.len() {
        lemma_strip_trailing_zeros(digits.drop_last(), k);
    }
}

/// An exact decimal numeral: the value that a number literal carries.
#[derive(Debug, PartialEq, Eq)]
pub struct Decimal {
    whole: Vec<char>,
    fraction: Vec<char>,
}

impl View for Decimal {
    type V = DecimalView;

    closed spec fn view(&self) -> DecimalView {
        DecimalView { whole: self.whole@, fraction: self.fraction@ }
    }
}

impl Decimal {
    #[verifier::type_invariant]
    spec fn inv(&self) -> bool {
        self@.wf()
    }

    /// The digits before the point, most significant first.
    pub fn whole_digits(&self) -> (out: &Vec<char>)
        ensures
            out@ == self@.whole,
            self@.wf(),
    {
        proof {
            use_type_invariant(self);
        }
        &self.whole
    }

    /// The digits after the point, most significant first.
    pub fn fraction_digits(&self) -> (out: &Vec<char>)
        ensures
            out@ == self@.fraction,
            self@.wf(),
    {
        proof {
            use_type_invariant(self);
        }
        &self.fraction
    }

    /// Reads `chars[from..to]` as a numeral, or returns `None` where that
    /// text is not one.
    pub fn from_chars(chars: &Vec<char>, from: usize, to: usize) -> (out: Option<Decimal>)
        requires
            from <= to <= chars.len(),
        ensures
            out is Some <==> is_numeral(chars@.subrange(from as int, to as int)),
            out matches Some(d) ==> d@ == numeral_of(chars@.subrange(from as int, to as int)),
    {
        let ghost text = chars@.subrange(from as int, to as int);
        let mut dot: usize = from;
        while dot < to && chars[dot] >= '0' && chars[dot] <= '9'
            invariant
                from <= dot <= to <= chars.len(),
                text == chars@.subrange(from as int, to as int),
                forall|i: int| 0 <= i < dot - from ==> is_digit(#[trigger] text[i]),
            decreases to - dot,
        {
            dot += 1;
        }
        proof {
            lemma_digits_end_is(text, 0, dot - from);
        }
        if dot == from {
            return None;
        }
        let mut end: usize = dot;
        if dot < to {
            if chars[dot] != '.' || dot + 1 >= to {
                return None;
            }
            end = dot + 1;
            while end < to && chars[end] >= '0' && chars[end] <= '9'
                invariant
                    from < dot < end <= to <= chars.len(),
                    text == chars@.subrange(from as int, to as int),
                    forall|i: int| dot + 1 - from <= i < end - from ==> is_digit(#[trigger] text[i]),
                decreases to - end,
            {
                end += 1;
            }
            proof {
                lemma_digits_end_is(text, dot + 1 - from, end - from);
            }
            if end < to {
                return None;
            }
        }
        let mut whole: Vec<char> = Vec::new();
        let mut i: usize = from;
        while i < dot
            invariant
                from <= i <= dot <= to <= chars.len(),
                whole@ == chars@.subrange(from as int, i as int),
            decreases dot - i,
        {
            whole.push(chars[i]);
            i += 1;
        }
        let mut fraction: Vec<char> = Vec::new();
        if dot < to {
            let mut j: usize = dot + 1;
            while j < to
                invariant
                    dot < j <= to <= chars.len(),
                    fraction@ == chars@.subrange(dot + 1, j as int),
                decreases to - j,
            {
                fraction.push(chars[j]);
                j += 1;
            }
        }
        proof {
            assert(whole@ == text.subrange(0, dot - from));
            if dot < to {
                assert(fraction@ == text.subrange(dot + 1 - from, text.len() as int));
            }
        }
        Some(Decimal { whole, fraction })
    }

    /// Reads `text` as a numeral, or returns `None` where it is not one.
    pub fn parse(text: &str) -> (out: Option<Decimal>)
        ensures
            out is Some <==> is_numeral(text@),
            out matches Some(d) ==> d@ == numeral_of(text@),
    {
        let chars = collect_chars(text);
        assert(chars@.subrange(0, chars@.len() as int) == chars@);
        Decimal::from_chars(&chars, 0, chars.len())
    }

    /// Appends the shortest spelling of this number to `out`.
    pub fn write_to(&self, out: &mut String)
        ensures
            final(out)@ == old(out)@ + self@.text(),
    {
        proof {
            use_type_invariant(self);
        }
        let mut first: usize = 0;
        while first + 1 < self.whole.len() && self.whole[first] == '0'
            invariant
                first < self.whole.len(),
                forall|i: int| 0 <= i < first ==> #[trigger] self.whole@[i] == '0',
            decreases self.whole.len() - first,
        {
            first += 1;
        }
        let mut last: usize = self.fraction.len();
        while last > 0 && self.fraction[last - 1] == '0'
            invariant
                last <= self.fraction.len(),
                forall|i: int| last <= i < self.fraction.len() ==> #[trigger] self.fraction@[i] == '0',
            decreases last,
        {
            last -= 1;
        }
        proof {
            lemma_strip_leading_zeros(self.whole@, first as int);
            lemma_strip_trailing_zeros(self.fraction@, last as int);
        }
        push_range(out, &self.whole, first, self.whole.len());
        if last > 0 {
            out.push('.');
            push_range(out, &self.fraction, 0, last);
        }
    }

    /// The shortest spelling of this number.
    pub fn to_string(&self) -> (out: String)
        ensures
            out@ == self@.text(),
    {
        let mut out = String::new();
        self.write_to(&mut out);
        out
    }
}

impl Clone for Decimal {
    fn clone(&self) -> (out: Self)
        ensures
            out@ == self@,
    {
        proof {
            use_type_invariant(self);
        }
        let whole = self.whole.clone();
        let fraction = self.fraction.clone();
        Decimal { whole, fraction }
    }
}

} // verus!
