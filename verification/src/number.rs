//! Numbers as exact decimals.
use vstd::prelude::*;
use crate::text::{chars_of, string_of};

verus! {

/// Whether a character is one of the ten decimal digits.
pub open spec fn is_digit(c: char) -> bool {
    '0' <= c && c <= '9'
}

/// How many digits stand in `s` from index `i` on, up to the first other character.
pub open spec fn digit_run(s: Seq<char>, i: int) -> nat
    decreases s.len() - i,
{
    if 0 <= i < s.len() && is_digit(s[i]) {
        1 + digit_run(s, i + 1)
    } else {
        0
    }
}

/// `s` without its leading zeros; the last character always stays.
pub open spec fn trim_leading_zeros(s: Seq<char>) -> Seq<char>
    decreases s.len(),
{
    if s.len() > 1 && s[0] == '0' {
        trim_leading_zeros(s.drop_first())
    } else {
        s
    }
}

/// `s` without its trailing zeros.
pub open spec fn trim_trailing_zeros(s: Seq<char>) -> Seq<char>
    decreases s.len(),
{
    if s.len() > 0 && s.last() == '0' {
        trim_trailing_zeros(s.drop_last())
    } else {
        s
    }
}

/// The canonical text of the decimal with the digits `whole` before the point and
/// `fraction` after it: no leading zeros, no trailing zeros, and no point where
/// nothing follows it.
pub open spec fn canonical(whole: Seq<char>, fraction: Seq<char>) -> Seq<char> {
    let w = trim_leading_zeros(whole);
    let f = trim_trailing_zeros(fraction);
    if f.len() == 0 {
        w
    } else {
        w + seq!['.'] + f
    }
}

/// Whether `s` is a numeral: one or more digits, then optionally a point and any
/// number of digits.
pub open spec fn is_numeral(s: Seq<char>) -> bool {
    let w = digit_run(s, 0) as int;
    &&& w > 0
    &&& w == s.len() || (s[w] == '.' && w + 1 + digit_run(s, w + 1) == s.len())
}

/// The canonical text of the numeral `s`.
pub open spec fn numeral_value(s: Seq<char>) -> Seq<char> {
    let w = digit_run(s, 0) as int;
    if w == s.len() {
        canonical(s, Seq::empty())
    } else {
        canonical(s.subrange(0, w), s.subrange(w + 1, s.len() as int))
    }
}

/// A non-negative decimal number, held exactly as its canonical text.
#[derive(Debug, PartialEq)]
pub struct Number {
    text: String,
}

impl View for Number {
    type V = Seq<char>;

    closed spec fn view(&self) -> Seq<char> {
        self.text@
    }
}

impl Clone for Number {
    fn clone(&self) -> (n: Number)
        ensures
            n@ == self@,
    {
        Number { text: self.text.clone() }
    }
}

proof fn lemma_trim_leading(s: Seq<char>, k: int)
    requires
        0 <= k < s.len(),
        forall|j: int| 0 <= j < k ==> s[j] == '0',
    ensures
        trim_leading_zeros(s) == trim_leading_zeros(s.skip(k)),
    decreases k,
{
    if k == 0 {
        assert(s.skip(0) =~= s);
    } else {
        lemma_trim_leading(s.drop_first(), k - 1);
        assert(s.drop_first().skip(k - 1) =~= s.skip(k));
    }
}

proof fn lemma_trim_trailing(s: Seq<char>, k: int)
    requires
        0 <= k <= s.len(),
        forall|j: int| k <= j < s.len() ==> s[j] == '0',
    ensures
        trim_trailing_zeros(s) == trim_trailing_zeros(s.take(k)),
    decreases s.len() - k,
{
    if k == s.len() {
        assert(s.take(k) =~= s);
    } else {
        lemma_trim_trailing(s.drop_last(), k);
        assert(s.drop_last().take(k) =~= s.take(k));
    }
}

/// The number of digits in `chars` from `from` on.
pub(crate) fn count_digits(chars: &Vec<char>, from: usize) -> (n: usize)
    requires
        from <= chars@.len(),
    ensures
        n == digit_run(chars@, from as int),
        from + n <= chars@.len(),
{
    let mut i: usize = from;
    while i < chars.len() && '0' <= chars[i] && chars[i] <= '9'
        invariant
            from <= i <= chars@.len(),
            digit_run(chars@, from as int) == (i - from) + digit_run(chars@, i as int),
        decreases chars@.len() - i,
    {
        i += 1;
    }
    i - from
}

impl Number {
    /// The number with `chars[whole_from..whole_to]` before the point and
    /// `chars[fraction_from..fraction_to]` after it.
    pub(crate) fn from_parts(
        chars: &Vec<char>,
        whole_from: usize,
        whole_to: usize,
        fraction_from: usize,
        fraction_to: usize,
    ) -> (n: Number)
        requires
            whole_from < whole_to <= chars@.len(),
            fraction_from <= fraction_to <= chars@.len(),
        ensures
            n@ == canonical(
                chars@.subrange(whole_from as int, whole_to as int),
                chars@.subrange(fraction_from as int, fraction_to as int),
            ),
    {
        let ghost whole = chars@.subrange(whole_from as int, whole_to as int);
        let ghost fraction = chars@.subrange(fraction_from as int, fraction_to as int);
        let mut start: usize = whole_from;
        while start + 1 < whole_to && chars[start] == '0'
            invariant
                whole_from <= start < whole_to <= chars@.len(),
                whole == chars@.subrange(whole_from as int, whole_to as int),
                forall|j: int| 0 <= j < start - whole_from ==> whole[j] == '0',
            decreases whole_to - start,
        {
            start += 1;
        }
        let mut end: usize = fraction_to;
        while end > fraction_from && chars[end - 1] == '0'
            invariant
                fraction_from <= end <= fraction_to <= chars@.len(),
                fraction == chars@.subrange(fraction_from as int, fraction_to as int),
                forall|j: int| end - fraction_from <= j < fraction.len() ==> fraction[j] == '0',
            decreases end,
        {
            end -= 1;
        }
        proof {
            lemma_trim_leading(whole, start - whole_from);
            lemma_trim_trailing(fraction, end - fraction_from);
            assert(whole.skip(start - whole_from) =~= chars@.subrange(
                start as int,
                whole_to as int,
            ));
            assert(fraction.take(end - fraction_from) =~= chars@.subrange(
                fraction_from as int,
                end as int,
            ));
            let w = whole.skip(start - whole_from);
            assert(trim_leading_zeros(w) == w);
            let f = fraction.take(end - fraction_from);
            assert(trim_trailing_zeros(f) == f);
        }
        let mut text = string_of(chars, start, whole_to);
        if end > fraction_from {
            text.push('.');
            let tail = string_of(chars, fraction_from, end);
            text.append(tail.as_str());
        }
        Number { text }
    }

    /// Reads a numeral: `Some` exactly for one or more digits with at most one
    /// point after them, and then the number it denotes.
    pub fn parse(text: &str) -> (r: Option<Number>)
        ensures
            r is Some <==> is_numeral(text@),
            r is Some ==> r->0@ == numeral_value(text@),
    {
        let chars = chars_of(text);
        let whole = count_digits(&chars, 0);
        if whole == 0 {
            return None;
        }
        if whole == chars.len() {
            proof {
                assert(chars@.subrange(0, whole as int) =~= chars@);
                assert(chars@.subrange(whole as int, whole as int) =~= Seq::<char>::empty());
            }
            return Some(Number::from_parts(&chars, 0, whole, whole, whole));
        }
        if chars[whole] != '.' {
            return None;
        }
        let fraction = count_digits(&chars, whole + 1);
        if whole + 1 + fraction != chars.len() {
            return None;
        }
        Some(Number::from_parts(&chars, 0, whole, whole + 1, chars.len()))
    }

    /// The canonical text of the number.
    pub fn text(&self) -> (s: String)
        ensures
            s@ == self@,
    {
        self.text.clone()
    }
}

} // verus!
