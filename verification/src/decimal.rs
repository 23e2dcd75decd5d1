//! Decimal text for scores: the form in which the best score is written to
//! and read back from its record, and shown on screen.
use vstd::prelude::*;

verus! {

/// ASCII code of `'0'`.
pub const DIGIT_ZERO: u8 = 48;

/// ASCII code of `'+'`.
pub const PLUS_SIGN: u8 = 43;

/// `c` is one of the ASCII digits `'0'..='9'`.
pub open spec fn is_digit(c: u8) -> bool {
    48 <= c <= 57
}

/// The value of one digit (zero for anything below `'0'`).
pub open spec fn digit_value(c: u8) -> nat {
    if c >= 48 {
        (c - 48) as nat
    } else {
        0
    }
}

/// Every byte of `s` is a digit.
pub open spec fn all_digits(s: Seq<u8>) -> bool {
    forall|i: int| 0 <= i < s.len() ==> is_digit(#[trigger] s[i])
}

/// The number that the digits of `s` spell, most significant first.
pub open spec fn digits_value(s: Seq<u8>) -> nat
    decreases s.len(),
{
    if s.len() == 0 {
        0
    } else {
        digits_value(s.drop_last()) * 10 + digit_value(s.last())
    }
}

/// The shortest decimal spelling of `n`, without sign or leading zeros.
pub open spec fn decimal(n: nat) -> Seq<u8>
    decreases n,
{
    if n < 10 {
        seq![(48 + n) as u8]
    } else {
        decimal(n / 10).push((48 + n % 10) as u8)
    }
}

/// The text after an optional leading `'+'`.
pub open spec fn unsigned_body(s: Seq<u8>) -> Seq<u8> {
    if s.len() > 0 && s[0] == 43 {
        s.drop_first()
    } else {
        s
    }
}

/// How an unsigned machine integer is read from text: an optional `'+'`,
/// then one or more digits and nothing else, whose value fits in `usize`.
/// Any other text (empty, a lone sign, a `'-'`, spaces, other characters,
/// a value too large) reads as nothing.
pub open spec fn parse_unsigned(s: Seq<u8>) -> Option<usize> {
    let body = unsigned_body(s);
    if body.len() > 0 && all_digits(body) && digits_value(body) <= usize::MAX {
        Some(digits_value(body) as usize)
    } else {
        None
    }
}

/// The decimal spelling of `n` is made of digits only, is not empty, and
/// spells `n`.
pub proof fn lemma_decimal_digits(n: nat)
    ensures
        decimal(n).len() > 0,
        all_digits(decimal(n)),
        digits_value(decimal(n)) == n,
    decreases n,
{
    let d = decimal(n);
    if n < 10 {
        assert(d.drop_last() =~= Seq::<u8>::empty());
        assert(digits_value(d.drop_last()) == 0);
        assert(d.last() == (48 + n) as u8);
        assert(digit_value(d.last()) == n);
    } else {
        lemma_decimal_digits(n / 10);
        assert(d.drop_last() =~= decimal(n / 10));
        assert(d.last() == (48 + n % 10) as u8);
        assert(n == (n / 10) * 10 + n % 10);
        assert(digit_value(d.last()) == n % 10);
        assert(digits_value(d) == digits_value(decimal(n / 10)) * 10 + n % 10);
        assert forall|i: int| 0 <= i < d.len() implies is_digit(#[trigger] d[i]) by {
            if i < d.len() - 1 {
                assert(d[i] == decimal(n / 10)[i]);
            }
        }
    }
}

/// Reading back the decimal spelling of a score gives the score: what the
/// best-score record holds after a write is what the next start reads.
pub proof fn lemma_read_back_decimal(n: usize)
    ensures
        parse_unsigned(decimal(n as nat)) == Some(n),
{
    lemma_decimal_digits(n as nat);
    let d = decimal(n as nat);
    assert(is_digit(d[0]));
    assert(unsigned_body(d) == d);
}

/// The decimal spelling is the shortest one: zero is the single digit
/// `'0'`, and a positive number never starts with `'0'`; with
/// `lemma_decimal_digits` this fixes it as the usual spelling.
pub proof fn lemma_decimal_no_leading_zero(n: nat)
    ensures
        decimal(n).len() > 0,
        n == 0 ==> decimal(n) == seq![48u8],
        n > 0 ==> decimal(n)[0] != 48,
    decreases n,
{
    if n >= 10 {
        lemma_decimal_no_leading_zero(n / 10);
        assert(decimal(n)[0] == decimal(n / 10)[0]);
    }
}

/// A longer prefix of a run of digits never spells a smaller number.
pub proof fn lemma_digits_value_grows(s: Seq<u8>, i: int, j: int)
    requires
        0 <= i <= j <= s.len(),
    ensures
        digits_value(s.subrange(0, i)) <= digits_value(s.subrange(0, j)),
    decreases j - i,
{
    if i < j {
        lemma_digits_value_grows(s, i, j - 1);
        assert(s.subrange(0, j).drop_last() =~= s.subrange(0, j - 1));
    }
}

/// The decimal spelling of `n`, as bytes.
pub fn encode_decimal(n: usize) -> (text: Vec<u8>)
    ensures
        text@ == decimal(n as nat),
    decreases n,
{
    if n < 10 {
        let d: u8 = n as u8;
        let mut v: Vec<u8> = Vec::new();
        v.push(DIGIT_ZERO + d);
        assert(v@ =~= seq![(48 + n) as u8]);
        v
    } else {
        let mut v = encode_decimal(n / 10);
        let d: u8 = (n % 10) as u8;
        v.push(DIGIT_ZERO + d);
        v
    }
}

/// Reads an unsigned integer from text as `str::parse::<usize>` does:
/// `None` exactly where `parse_unsigned` reads nothing.
pub fn parse_decimal(s: &[u8]) -> (value: Option<usize>)
    ensures
        value == parse_unsigned(s@),
{
    let len = s.len();
    let mut start: usize = 0;
    if len > 0 && s[0] == PLUS_SIGN {
        start = 1;
    }
    let ghost body = unsigned_body(s@);
    assert(body =~= s@.subrange(start as int, len as int));
    if start == len {
        return None;
    }
    let mut acc: usize = 0;
    let mut i: usize = start;
    while i < len
        invariant
            start <= i <= len,
            len == s@.len(),
            start < len,
            body == s@.subrange(start as int, len as int),
            body == unsigned_body(s@),
            acc as nat == digits_value(body.subrange(0, i - start)),
            all_digits(body.subrange(0, i - start)),
        decreases len - i,
    {
        let c = s[i];
        let ghost k: int = i - start;
        assert(body[k] == c);
        if c < DIGIT_ZERO || c > 57 {
            assert(!is_digit(body[k]));
            return None;
        }
        assert(body.subrange(0, k + 1).drop_last() =~= body.subrange(0, k));
        assert(body.subrange(0, k + 1).last() == c);
        assert(digits_value(body.subrange(0, k + 1)) == acc * 10 + digit_value(c));
        let d: usize = (c - DIGIT_ZERO) as usize;
        match acc.checked_mul(10) {
            None => {
                proof {
                    lemma_digits_value_grows(body, k + 1, body.len() as int);
                    assert(body.subrange(0, body.len() as int) =~= body);
                }
                return None;
            },
            Some(m) => match m.checked_add(d) {
                None => {
                    proof {
                        lemma_digits_value_grows(body, k + 1, body.len() as int);
                        assert(body.subrange(0, body.len() as int) =~= body);
                    }
                    return None;
                },
                Some(next) => {
                    acc = next;
                },
            },
        }
        assert forall|j: int| 0 <= j < k + 1 implies is_digit(
            #[trigger] body.subrange(0, k + 1)[j],
        ) by {
            if j < k {
                assert(body.subrange(0, k + 1)[j] == body.subrange(0, k)[j]);
            }
        }
        i = i + 1;
    }
    assert(body.subrange(0, body.len() as int) =~= body);
    Some(acc)
}

} // verus!
