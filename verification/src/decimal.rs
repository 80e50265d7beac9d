//! Decimal numerals: writing integers and reading them back.

use vstd::prelude::*;

use crate::text;

verus! {

/// The decimal digit that stands for `d`.
pub open spec fn digit_char(d: nat) -> char {
    ((48 + d) as u32) as char
}

/// Whether `c` is a decimal digit.
pub open spec fn is_digit(c: char) -> bool {
    '0' <= c <= '9'
}

/// The number that a digit stands for.
pub open spec fn digit_value(c: char) -> nat {
    (c as u32 - 48) as nat
}

/// The decimal numeral of `n`, without leading zeros.
pub open spec fn numeral(n: nat) -> Seq<char>
    decreases n,
{
    if n < 10 {
        seq![digit_char(n)]
    } else {
        numeral(n / 10).push(digit_char(n % 10))
    }
}

/// The decimal numeral of an integer.
pub open spec fn signed_numeral(n: int) -> Seq<char> {
    if n < 0 {
        "-"@ + numeral((-n) as nat)
    } else {
        numeral(n as nat)
    }
}

/// Every character is a decimal digit.
pub open spec fn all_digits(s: Seq<char>) -> bool {
    forall|i: int| 0 <= i < s.len() ==> is_digit(#[trigger] s[i])
}

/// The number that a sequence of digits denotes.
pub open spec fn digits_value(s: Seq<char>) -> nat
    decreases s.len(),
{
    if s.len() == 0 {
        0
    } else {
        10 * digits_value(s.drop_last()) + digit_value(s.last())
    }
}

/// The integer that `s` denotes: digits behind an optional sign.
pub open spec fn integer_value(s: Seq<char>) -> Option<int> {
    if s.len() == 0 {
        None
    } else {
        let signed = s[0] == '+' || s[0] == '-';
        let digits = if signed {
            s.drop_first()
        } else {
            s
        };
        if digits.len() == 0 || !all_digits(digits) {
            None
        } else if s[0] == '-' {
            Some(-(digits_value(digits) as int))
        } else {
            Some(digits_value(digits) as int)
        }
    }
}

/// What reading `s` as an unsigned 64-bit number gives.
pub open spec fn unsigned_value(s: Seq<char>) -> Option<u64> {
    match integer_value(s) {
        Some(n) => if s[0] != '-' && n <= u64::MAX {
            Some(n as u64)
        } else {
            None
        },
        None => None,
    }
}

/// What reading `s` as a signed 64-bit number gives.
pub open spec fn signed_value(s: Seq<char>) -> Option<i64> {
    match integer_value(s) {
        Some(n) => if i64::MIN <= n <= i64::MAX {
            Some(n as i64)
        } else {
            None
        },
        None => None,
    }
}

/// The digits of a numeral denote the number it was made from.
pub proof fn lemma_numeral(n: nat)
    ensures
        all_digits(numeral(n)),
        numeral(n).len() > 0,
        digits_value(numeral(n)) == n,
    decreases n,
{
    if n < 10 {
        let s = numeral(n);
        assert(s.drop_last() =~= Seq::<char>::empty());
        assert(digits_value(s.drop_last()) == 0);
        assert(digit_value(s.last()) == n);
    } else {
        lemma_numeral(n / 10);
        let s = numeral(n);
        assert(s.drop_last() =~= numeral(n / 10));
        assert(digit_value(s.last()) == n % 10);
        assert forall|i: int| 0 <= i < s.len() implies is_digit(#[trigger] s[i]) by {
            if i < s.len() - 1 {
                assert(s[i] == numeral(n / 10)[i]);
            }
        }
    }
}

/// Reading the numeral of a signed number gives that number back.
pub proof fn law_signed_round_trip(n: i64)
    ensures
        signed_value(signed_numeral(n as int)) == Some(n),
{
    reveal_strlit("-");
    if n < 0 {
        let m = (-n) as nat;
        lemma_numeral(m);
        let s = signed_numeral(n as int);
        assert(s[0] == '-');
        assert(s.drop_first() =~= numeral(m));
    } else {
        lemma_numeral(n as nat);
        let s = numeral(n as nat);
        assert(is_digit(s[0]));
    }
}

/// Reading the numeral of an unsigned number gives that number back.
pub proof fn law_unsigned_round_trip(n: u64)
    ensures
        unsigned_value(numeral(n as nat)) == Some(n),
{
    lemma_numeral(n as nat);
    assert(is_digit(numeral(n as nat)[0]));
}

fn digit(d: u8) -> (r: char)
    requires
        d < 10,
    ensures
        r == digit_char(d as nat),
{
    (48u8 + d) as char
}

/// The decimal numeral of `n`.
pub fn unsigned(n: u64) -> (r: String)
    ensures
        r@ == numeral(n as nat),
    decreases n,
{
    if n < 10 {
        let mut out = String::new();
        out.push(digit(n as u8));
        proof {
            assert(out@ =~= seq![digit_char(n as nat)]);
        }
        out
    } else {
        let mut out = unsigned(n / 10);
        out.push(digit((n % 10) as u8));
        out
    }
}

/// The decimal numeral of `n`, with a minus sign where it is negative.
pub fn signed(n: i64) -> (r: String)
    ensures
        r@ == signed_numeral(n as int),
{
    if n >= 0 {
        unsigned(n as u64)
    } else if n == i64::MIN {
        text::join2("-", unsigned(9223372036854775808u64).as_str())
    } else {
        text::join2("-", unsigned((-n) as u64).as_str())
    }
}

proof fn lemma_value_grows(s: Seq<char>, i: int)
    requires
        0 <= i <= s.len(),
    ensures
        digits_value(s.take(i)) <= digits_value(s),
    decreases s.len() - i,
{
    if i < s.len() {
        lemma_value_grows(s, i + 1);
        assert(s.take(i + 1).drop_last() =~= s.take(i));
    } else {
        assert(s.take(i) =~= s);
    }
}

/// The value of the digits from `from` on, where it fits.
fn digits_at(a: &[char], from: usize) -> (r: Option<u64>)
    requires
        from <= a@.len(),
    ensures
        match r {
            Some(n) => from < a@.len() && all_digits(a@.skip(from as int)) && digits_value(
                a@.skip(from as int),
            ) == n,
            None => from == a@.len() || !all_digits(a@.skip(from as int)) || digits_value(
                a@.skip(from as int),
            ) > u64::MAX,
        },
{
    if from == a.len() {
        return None;
    }
    let ghost s = a@.skip(from as int);
    let mut i: usize = from;
    let mut n: u64 = 0;
    while i < a.len()
        invariant
            from <= i <= a@.len(),
            s == a@.skip(from as int),
            all_digits(s.take(i - from)),
            n == digits_value(s.take(i - from)),
        decreases a@.len() - i,
    {
        let c = a[i];
        proof {
            assert(s[i - from] == c);
            assert(s.take(i - from + 1).drop_last() =~= s.take(i - from));
            assert(s.take(i - from + 1).last() == c);
        }
        if c < '0' || c > '9' {
            return None;
        }
        let d: u64 = (c as u32 - 48) as u64;
        proof {
            lemma_value_grows(s, i - from + 1);
        }
        if n > (u64::MAX - d) / 10 {
            proof {
                assert(10 * n + d > u64::MAX);
            }
            return None;
        }
        n = 10 * n + d;
        i += 1;
        proof {
            assert forall|j: int| 0 <= j < i - from implies is_digit(
                #[trigger] s.take(i - from)[j],
            ) by {
                if j < i - from - 1 {
                    assert(s.take(i - from - 1)[j] == s[j]);
                }
            }
        }
    }
    proof {
        assert(s.take(s.len() as int) =~= s);
    }
    Some(n)
}

/// Reads an unsigned number: digits behind an optional plus sign.
pub fn parse_unsigned(s: &str) -> (r: Option<u64>)
    ensures
        r == unsigned_value(s@),
{
    let a = text::to_chars(s);
    if a.len() == 0 {
        return None;
    }
    proof {
        assert(a@.skip(0) =~= a@);
        assert(a@.skip(1) =~= a@.drop_first());
    }
    if a[0] == '-' {
        None
    } else if a[0] == '+' {
        digits_at(&a, 1)
    } else {
        digits_at(&a, 0)
    }
}

/// What `str::parse` says of a text that is no `i64`.
pub uninterp spec fn integer_error(s: Seq<char>) -> Seq<char>;

/// `str::parse` into an `i64`: the text of its error.
#[verifier::external_body]
pub(crate) fn outside_integer_error(s: &str) -> (r: String)
    requires
        signed_value(s@) is None,
    ensures
        r@ == integer_error(s@),
{
    s.parse::<i64>().map_or_else(|e| e.to_string(), |n| n.to_string())
}

/// Reads a signed number: digits behind an optional sign.
pub fn parse_signed(s: &str) -> (r: Option<i64>)
    ensures
        r == signed_value(s@),
{
    let a = text::to_chars(s);
    if a.len() == 0 {
        return None;
    }
    proof {
        assert(a@.skip(0) =~= a@);
        assert(a@.skip(1) =~= a@.drop_first());
    }
    let negative = a[0] == '-';
    let n = if negative || a[0] == '+' {
        digits_at(&a, 1)
    } else {
        digits_at(&a, 0)
    };
    match n {
        None => None,
        Some(n) => if negative {
            if n < 9223372036854775808u64 {
                Some(-(n as i64))
            } else if n == 9223372036854775808u64 {
                Some(i64::MIN)
            } else {
                None
            }
        } else if n <= 9223372036854775807u64 {
            Some(n as i64)
        } else {
            None
        },
    }
}

/// A numeral is written digit by digit, the ones last; a digit stands for its
/// place from zero.
pub proof fn law_numeral_digits(n: nat, d: nat)
    requires
        d < 10,
    ensures
        n > 0 ==> numeral(10 * n + d) == numeral(n) + numeral(d),
        numeral(d).len() == 1,
        numeral(d)[0] as u32 == '0' as u32 + d,
{
    if n > 0 {
        assert((10 * n + d) / 10 == n);
        assert((10 * n + d) % 10 == d);
        assert(numeral(n).push(digit_char(d)) =~= numeral(n) + numeral(d));
    }
}

/// Digits denote the number that their places say.
pub proof fn law_digits_value(s: Seq<char>, c: char)
    ensures
        digits_value(Seq::empty()) == 0,
        '0' <= c <= '9' ==> digits_value(s.push(c)) == 10 * digits_value(s) + (c as u32 - '0' as u32),
        all_digits(s.push(c)) == (all_digits(s) && '0' <= c <= '9'),
{
    assert(s.push(c).drop_last() =~= s);
    let t = s.push(c);
    if all_digits(t) {
        assert forall|i: int| 0 <= i < s.len() implies is_digit(#[trigger] s[i]) by {
            assert(t[i] == s[i]);
        }
        assert(is_digit(t[s.len() as int]));
    }
    if all_digits(s) && '0' <= c <= '9' {
        assert forall|i: int| 0 <= i < t.len() implies is_digit(#[trigger] t[i]) by {
            if i < s.len() {
                assert(is_digit(s[i]));
            }
        }
    }
}

/// Digits read as their number, behind a plus sign too; behind a minus sign as
/// its negative, and only as a signed number. Anything else reads as none.
pub proof fn law_reading_numbers(s: Seq<char>)
    ensures
        s.len() > 0 && all_digits(s) ==> integer_value(s) == Some(digits_value(s) as int)
            && integer_value(seq!['+'] + s) == Some(digits_value(s) as int) && integer_value(
            seq!['-'] + s,
        ) == Some(-(digits_value(s) as int)),
        s.len() > 0 && all_digits(s) ==> unsigned_value(seq!['-'] + s) is None,
        s.len() > 0 && all_digits(s) && digits_value(s) <= u64::MAX ==> unsigned_value(s) == Some(
            digits_value(s) as u64,
        ),
        s.len() > 0 && all_digits(s) && digits_value(s) > u64::MAX ==> unsigned_value(s) is None,
        s.len() > 0 && all_digits(s) && digits_value(s) > i64::MAX ==> signed_value(s) is None,
        integer_value(Seq::empty()) is None,
        s.len() > 0 && s[0] != '+' && s[0] != '-' && !all_digits(s) ==> integer_value(s) is None,
{
    assert((seq!['+'] + s).drop_first() =~= s);
    assert((seq!['-'] + s).drop_first() =~= s);
    if s.len() > 0 && all_digits(s) {
        assert(is_digit(s[0]));
    }
}

/// A negative number is written with a minus sign.
pub proof fn law_signed_numeral(n: int)
    ensures
        n >= 0 ==> signed_numeral(n) == numeral(n as nat),
        n < 0 ==> signed_numeral(n) == "-"@ + numeral((-n) as nat),
{
}

} // verus!
