//! Decimal numbers as they are written on a page.

use vstd::prelude::*;
use crate::text::chars_of;

verus! {

/// Whether `c` is one of the ten decimal digits.
pub open spec fn is_digit(c: char) -> bool {
    '0' <= c <= '9'
}

/// The predicate that picks the decimal points of a text.
pub open spec fn is_point() -> spec_fn(char) -> bool {
    |c: char| c == '.'
}

/// The predicate that picks the digits of a text.
pub open spec fn digit() -> spec_fn(char) -> bool {
    |c: char| is_digit(c)
}

/// Whether `b` is a decimal number without a sign: digits with at most one
/// decimal point among them, before them or after them, and at least one
/// digit.
pub open spec fn is_unsigned_decimal(b: Seq<char>) -> bool {
    &&& forall|i: int| 0 <= i < b.len() ==> is_digit(#[trigger] b[i]) || b[i] == '.'
    &&& b.filter(is_point()).len() <= 1
    &&& b.filter(digit()).len() >= 1
}

/// Whether `s` is a decimal number, with or without a leading minus sign.
/// Among the texts made of digits, points and minus signs these are the ones
/// that `f32::from_str` accepts.
pub open spec fn is_decimal_literal(s: Seq<char>) -> bool {
    if s.len() > 0 && s[0] == '-' {
        is_unsigned_decimal(s.skip(1))
    } else {
        is_unsigned_decimal(s)
    }
}

/// A decimal number, kept in the digits in which it was written.
#[derive(Debug)]
pub struct Amount {
    literal: String,
}

impl View for Amount {
    type V = Seq<char>;

    closed spec fn view(&self) -> Seq<char> {
        self.literal@
    }
}

impl DeepView for Amount {
    type V = Seq<char>;

    open spec fn deep_view(&self) -> Seq<char> {
        self@
    }
}

/// Whether `v` is a decimal number.
pub fn is_decimal(v: &[char]) -> (b: bool)
    ensures
        b == is_decimal_literal(v@),
{
    let n: usize = v.len();
    let start: usize = if n > 0 && v[0] == '-' {
        1
    } else {
        0
    };
    let ghost body = v@.skip(start as int);
    proof {
        if start == 0 {
            assert(body =~= v@);
        }
    }
    let mut points: usize = 0;
    let mut digits: usize = 0;
    let mut i: usize = start;
    while i < n
        invariant
            start <= i <= n,
            n == v@.len(),
            body == v@.skip(start as int),
            is_decimal_literal(v@) == is_unsigned_decimal(body),
            forall|j: int| 0 <= j < i - start ==> is_digit(#[trigger] body[j]) || body[j] == '.',
            points == body.take(i - start).filter(is_point()).len(),
            digits == body.take(i - start).filter(digit()).len(),
            points <= i - start,
            digits <= i - start,
        decreases n - i,
    {
        let c: char = v[i];
        proof {
            assert(body.take(i - start + 1) =~= body.take(i - start).push(c));
            body.take(i - start).lemma_filter_push(c, is_point());
            body.take(i - start).lemma_filter_push(c, digit());
        }
        if c == '.' {
            points += 1;
        } else if '0' <= c && c <= '9' {
            digits += 1;
        } else {
            assert(!(is_digit(body[i - start]) || body[i - start] == '.'));
            return false;
        }
        i += 1;
    }
    assert(body.take(n - start) =~= body);
    points <= 1 && digits >= 1
}

impl Amount {
    #[verifier::type_invariant]
    spec fn well_formed(self) -> bool {
        is_decimal_literal(self.literal@)
    }

    /// The amount that stands for "no data": zero.
    pub fn zero() -> (a: Amount)
        ensures
            a@ == "0"@,
    {
        let literal = "0".to_owned();
        proof {
            reveal_strlit("0");
            lemma_zero_is_decimal();
            assert("0"@ =~= seq!['0']);
        }
        Amount { literal }
    }

    /// The amount written as `text`, where `text` is a decimal number.
    pub fn from_literal(text: &str) -> (r: Option<Amount>)
        ensures
            r is Some <==> is_decimal_literal(text@),
            r matches Some(a) ==> a@ == text@,
    {
        let v = chars_of(text);
        if is_decimal(v.as_slice()) {
            Some(Amount { literal: text.to_owned() })
        } else {
            None
        }
    }

    /// The digits of the amount: a decimal number.
    pub fn literal(&self) -> (s: &str)
        ensures
            s@ == self@,
            is_decimal_literal(self@),
    {
        proof {
            use_type_invariant(self);
        }
        self.literal.as_str()
    }

    /// A copy of the amount.
    pub fn duplicate(&self) -> (a: Amount)
        ensures
            a@ == self@,
    {
        proof {
            use_type_invariant(self);
        }
        Amount { literal: self.literal.clone() }
    }
}

/// The one digit `0` is a decimal number.
pub proof fn lemma_zero_is_decimal()
    ensures
        is_decimal_literal(seq!['0']),
{
    Seq::<char>::empty().lemma_filter_push('0', is_point());
    Seq::<char>::empty().lemma_filter_push('0', digit());
    Seq::<char>::empty().lemma_filter_len(is_point());
    Seq::<char>::empty().lemma_filter_len(digit());
}

} // verus!
