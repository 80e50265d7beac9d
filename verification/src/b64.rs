//! Base64: the unpadded URL-safe form that tokens use, and the padded
//! standard form of certificates. Reading is strict: one text per byte string.

use vstd::prelude::*;

use crate::text;

verus! {

/// The alphabet: standard (`+`, `/`) or URL-safe (`-`, `_`).
#[verifier::opaque]
pub open spec fn symbol(v: nat, standard: bool) -> char {
    if v < 26 {
        ((65 + v) as u32) as char
    } else if v < 52 {
        ((97 + v - 26) as u32) as char
    } else if v < 62 {
        ((48 + v - 52) as u32) as char
    } else if v == 62 {
        if standard {
            '+'
        } else {
            '-'
        }
    } else {
        if standard {
            '/'
        } else {
            '_'
        }
    }
}

/// The number below 64 that a character of the alphabet stands for.
#[verifier::opaque]
pub open spec fn sextet(c: char, standard: bool) -> Option<nat> {
    if 'A' <= c <= 'Z' {
        Some((c as u32 - 65) as nat)
    } else if 'a' <= c <= 'z' {
        Some((c as u32 - 97 + 26) as nat)
    } else if '0' <= c <= '9' {
        Some((c as u32 - 48 + 52) as nat)
    } else if c == symbol(62, standard) {
        Some(62)
    } else if c == symbol(63, standard) {
        Some(63)
    } else {
        None
    }
}

/// The base64 text of a byte string, without padding.
pub open spec fn unpadded(b: Seq<u8>, standard: bool) -> Seq<char>
    decreases b.len(),
{
    if b.len() == 0 {
        Seq::empty()
    } else if b.len() == 1 {
        seq![
            symbol(b[0] as nat / 4, standard),
            symbol((b[0] as nat % 4) * 16, standard),
        ]
    } else if b.len() == 2 {
        seq![
            symbol(b[0] as nat / 4, standard),
            symbol((b[0] as nat % 4) * 16 + b[1] as nat / 16, standard),
            symbol((b[1] as nat % 16) * 4, standard),
        ]
    } else {
        seq![
            symbol(b[0] as nat / 4, standard),
            symbol((b[0] as nat % 4) * 16 + b[1] as nat / 16, standard),
            symbol((b[1] as nat % 16) * 4 + b[2] as nat / 64, standard),
            symbol(b[2] as nat % 64, standard),
        ] + unpadded(b.skip(3), standard)
    }
}

/// The byte string that an unpadded base64 text stands for.
pub open spec fn from_unpadded(s: Seq<char>, standard: bool) -> Option<Seq<u8>>
    decreases s.len(),
{
    if s.len() == 0 {
        Some(Seq::empty())
    } else if s.len() == 1 {
        None
    } else if s.len() == 2 {
        match (sextet(s[0], standard), sextet(s[1], standard)) {
            (Some(a), Some(b)) => if b % 16 == 0 {
                Some(seq![(a * 4 + b / 16) as u8])
            } else {
                None
            },
            _ => None,
        }
    } else if s.len() == 3 {
        match (sextet(s[0], standard), sextet(s[1], standard), sextet(s[2], standard)) {
            (Some(a), Some(b), Some(c)) => if c % 4 == 0 {
                Some(seq![(a * 4 + b / 16) as u8, ((b % 16) * 16 + c / 4) as u8])
            } else {
                None
            },
            _ => None,
        }
    } else {
        match (
            sextet(s[0], standard),
            sextet(s[1], standard),
            sextet(s[2], standard),
            sextet(s[3], standard),
        ) {
            (Some(a), Some(b), Some(c), Some(d)) => match from_unpadded(s.skip(4), standard) {
                Some(rest) => Some(
                    seq![
                        (a * 4 + b / 16) as u8,
                        ((b % 16) * 16 + c / 4) as u8,
                        ((c % 4) * 64 + d) as u8,
                    ] + rest,
                ),
                None => None,
            },
            _ => None,
        }
    }
}

/// The base64url text of a byte string.
pub open spec fn encoded(b: Seq<u8>) -> Seq<char> {
    unpadded(b, false)
}

/// The byte string that a base64url text stands for.
pub open spec fn decoded(s: Seq<char>) -> Option<Seq<u8>> {
    from_unpadded(s, false)
}

/// The padding behind the standard base64 text of `n` bytes.
pub open spec fn padding(n: nat) -> Seq<char> {
    if n % 3 == 1 {
        seq!['=', '=']
    } else if n % 3 == 2 {
        seq!['=']
    } else {
        Seq::empty()
    }
}

/// The standard base64 text of a byte string, padded.
pub open spec fn encoded_std(b: Seq<u8>) -> Seq<char> {
    unpadded(b, true) + padding(b.len())
}

/// The byte string that a padded standard base64 text stands for.
pub open spec fn decoded_std(s: Seq<char>) -> Option<Seq<u8>> {
    let n = s.len() as int;
    if n % 4 != 0 {
        None
    } else if n > 0 && s[n - 1] == '=' && s[n - 2] == '=' {
        from_unpadded(s.take(n - 2), true)
    } else if n > 0 && s[n - 1] == '=' {
        from_unpadded(s.take(n - 1), true)
    } else {
        from_unpadded(s, true)
    }
}

proof fn lemma_symbol(v: nat, standard: bool)
    requires
        v < 64,
    ensures
        sextet(symbol(v, standard), standard) == Some(v),
        symbol(v, standard) != '=',
        symbol(v, standard) != '.',
        symbol(v, standard) != ':',
{
    reveal(symbol);
    reveal(sextet);
}

proof fn lemma_sextet(c: char, standard: bool)
    ensures
        match sextet(c, standard) {
            Some(v) => v < 64 && symbol(v, standard) == c,
            None => true,
        },
{
    reveal(symbol);
    reveal(sextet);
}

/// The length of an unpadded text, and that neither a full stop nor an equals
/// sign stands in it.
pub proof fn lemma_unpadded_shape(b: Seq<u8>, standard: bool)
    ensures
        unpadded(b, standard).len() == (b.len() / 3) * 4 + (if b.len() % 3 == 0 {
            0nat
        } else {
            b.len() % 3 + 1
        }),
        forall|i: int|
            0 <= i < unpadded(b, standard).len() ==> #[trigger] unpadded(b, standard)[i] != '.'
                && unpadded(b, standard)[i] != '=',
    decreases b.len(),
{
    let u = unpadded(b, standard);
    if b.len() == 0 {
    } else if b.len() == 1 {
        lemma_symbol(b[0] as nat / 4, standard);
        lemma_symbol((b[0] as nat % 4) * 16, standard);
    } else if b.len() == 2 {
        lemma_symbol(b[0] as nat / 4, standard);
        lemma_symbol((b[0] as nat % 4) * 16 + b[1] as nat / 16, standard);
        lemma_symbol((b[1] as nat % 16) * 4, standard);
    } else {
        lemma_symbol(b[0] as nat / 4, standard);
        lemma_symbol((b[0] as nat % 4) * 16 + b[1] as nat / 16, standard);
        lemma_symbol((b[1] as nat % 16) * 4 + b[2] as nat / 64, standard);
        lemma_symbol(b[2] as nat % 64, standard);
        lemma_unpadded_shape(b.skip(3), standard);
        let rest = unpadded(b.skip(3), standard);
        assert forall|i: int| 0 <= i < u.len() implies #[trigger] u[i] != '.' && u[i] != '=' by {
            if i >= 4 {
                assert(u[i] == rest[i - 4]);
            }
        }
    }
}

/// No colon stands in the standard base64 text of a byte string.
pub proof fn lemma_no_colon(b: Seq<u8>)
    ensures
        forall|i: int| 0 <= i < encoded_std(b).len() ==> #[trigger] encoded_std(b)[i] != ':',
{
    lemma_unpadded_no_colon(b);
    let u = unpadded(b, true);
    assert forall|i: int| 0 <= i < encoded_std(b).len() implies #[trigger] encoded_std(b)[i]
        != ':' by {
        if i < u.len() {
            assert(encoded_std(b)[i] == u[i]);
        }
    }
}

proof fn lemma_unpadded_no_colon(b: Seq<u8>)
    ensures
        forall|i: int| 0 <= i < unpadded(b, true).len() ==> #[trigger] unpadded(b, true)[i] != ':',
    decreases b.len(),
{
    if b.len() == 0 {
    } else if b.len() == 1 {
        lemma_symbol(b[0] as nat / 4, true);
        lemma_symbol((b[0] as nat % 4) * 16, true);
    } else if b.len() == 2 {
        lemma_symbol(b[0] as nat / 4, true);
        lemma_symbol((b[0] as nat % 4) * 16 + b[1] as nat / 16, true);
        lemma_symbol((b[1] as nat % 16) * 4, true);
    } else {
        lemma_symbol(b[0] as nat / 4, true);
        lemma_symbol((b[0] as nat % 4) * 16 + b[1] as nat / 16, true);
        lemma_symbol((b[1] as nat % 16) * 4 + b[2] as nat / 64, true);
        lemma_symbol(b[2] as nat % 64, true);
        lemma_unpadded_no_colon(b.skip(3));
        let u = unpadded(b, true);
        let rest = unpadded(b.skip(3), true);
        assert forall|i: int| 0 <= i < u.len() implies #[trigger] u[i] != ':' by {
            if i >= 4 {
                assert(u[i] == rest[i - 4]);
            }
        }
    }
}

#[verifier::spinoff_prover]
#[verifier::rlimit(60)]
proof fn lemma_decode_encode(b: Seq<u8>, standard: bool)
    ensures
        from_unpadded(unpadded(b, standard), standard) == Some(b),
    decreases b.len(),
{
    let s = unpadded(b, standard);
    if b.len() == 0 {
        assert(b =~= Seq::<u8>::empty());
    } else if b.len() == 1 {
        lemma_symbol(b[0] as nat / 4, standard);
        lemma_symbol((b[0] as nat % 4) * 16, standard);
        assert(from_unpadded(s, standard) == Some(
            seq![((b[0] as nat / 4) * 4 + ((b[0] as nat % 4) * 16) / 16) as u8],
        ));
        assert(seq![((b[0] as nat / 4) * 4 + ((b[0] as nat % 4) * 16) / 16) as u8] =~= b);
    } else if b.len() == 2 {
        lemma_symbol(b[0] as nat / 4, standard);
        lemma_symbol((b[0] as nat % 4) * 16 + b[1] as nat / 16, standard);
        lemma_symbol((b[1] as nat % 16) * 4, standard);
        assert(from_unpadded(s, standard).unwrap() =~= b);
    } else {
        lemma_symbol(b[0] as nat / 4, standard);
        lemma_symbol((b[0] as nat % 4) * 16 + b[1] as nat / 16, standard);
        lemma_symbol((b[1] as nat % 16) * 4 + b[2] as nat / 64, standard);
        lemma_symbol(b[2] as nat % 64, standard);
        lemma_decode_encode(b.skip(3), standard);
        assert(s.skip(4) =~= unpadded(b.skip(3), standard));
        assert(from_unpadded(s, standard).unwrap() =~= b);
    }
}

/// Four sextets are found again in the three bytes that they make.
proof fn lemma_regroup(a: nat, b: nat, c: nat, d: nat)
    requires
        a < 64,
        b < 64,
        c < 64,
        d < 64,
    ensures
        a * 4 + b / 16 < 256,
        (b % 16) * 16 + c / 4 < 256,
        (c % 4) * 64 + d < 256,
        (a * 4 + b / 16) / 4 == a,
        ((a * 4 + b / 16) % 4) * 16 + ((b % 16) * 16 + c / 4) / 16 == b,
        (((b % 16) * 16 + c / 4) % 16) * 4 + ((c % 4) * 64 + d) / 64 == c,
        ((c % 4) * 64 + d) % 64 == d,
{
}

#[verifier::spinoff_prover]
#[verifier::rlimit(60)]
proof fn lemma_encode_decode(s: Seq<char>, standard: bool)
    ensures
        match from_unpadded(s, standard) {
            Some(b) => unpadded(b, standard) == s,
            None => true,
        },
    decreases s.len(),
{
    if let Some(b) = from_unpadded(s, standard) {
        if s.len() == 0 {
            assert(s =~= Seq::<char>::empty());
        } else if s.len() == 2 {
            lemma_sextet(s[0], standard);
            lemma_sextet(s[1], standard);
            assert(unpadded(b, standard) =~= s);
        } else if s.len() == 3 {
            lemma_sextet(s[0], standard);
            lemma_sextet(s[1], standard);
            lemma_sextet(s[2], standard);
            assert(unpadded(b, standard) =~= s);
        } else {
            lemma_sextet(s[0], standard);
            lemma_sextet(s[1], standard);
            lemma_sextet(s[2], standard);
            lemma_sextet(s[3], standard);
            lemma_encode_decode(s.skip(4), standard);
            lemma_regroup(
                sextet(s[0], standard)->0,
                sextet(s[1], standard)->0,
                sextet(s[2], standard)->0,
                sextet(s[3], standard)->0,
            );
            let rest = from_unpadded(s.skip(4), standard).unwrap();
            assert(b.skip(3) =~= rest);
            assert(unpadded(b, standard) =~= s);
        }
    }
}

/// Reading the base64url text of a byte string gives the byte string back.
pub proof fn law_decode_of_encode(b: Seq<u8>)
    ensures
        decoded(encoded(b)) == Some(b),
{
    lemma_decode_encode(b, false);
}

/// Only the text that a byte string is written as reads as that byte string.
pub proof fn law_encode_of_decode(s: Seq<char>, b: Seq<u8>)
    requires
        decoded(s) == Some(b),
    ensures
        encoded(b) == s,
{
    lemma_encode_decode(s, false);
}

/// Reading the standard base64 text of a byte string gives it back.
#[verifier::spinoff_prover]
#[verifier::rlimit(40)]
pub proof fn law_decode_std_of_encode_std(b: Seq<u8>)
    ensures
        decoded_std(encoded_std(b)) == Some(b),
{
    lemma_decode_encode(b, true);
    lemma_unpadded_shape(b, true);
    let u = unpadded(b, true);
    let s = encoded_std(b);
    assert(s.take(u.len() as int) =~= u);
    if b.len() % 3 == 0 {
        assert(s =~= u);
        if s.len() > 0 {
            assert(s[s.len() - 1] == u[u.len() - 1]);
        }
    } else if b.len() % 3 == 2 {
        assert(s[s.len() - 2] == u[u.len() - 1]);
    }
}

fn symbol_of(v: u8, standard: bool) -> (r: char)
    requires
        v < 64,
    ensures
        r == symbol(v as nat, standard),
{
    reveal(symbol);
    if v < 26 {
        (65u8 + v) as char
    } else if v < 52 {
        (71u8 + v) as char
    } else if v < 62 {
        (v - 4u8) as char
    } else if v == 62 {
        if standard {
            '+'
        } else {
            '-'
        }
    } else {
        if standard {
            '/'
        } else {
            '_'
        }
    }
}

fn sextet_of(c: char, standard: bool) -> (r: Option<u8>)
    ensures
        match r {
            Some(v) => sextet(c, standard) == Some(v as nat) && v < 64,
            None => sextet(c, standard) is None,
        },
{
    reveal(sextet);
    if 'A' <= c && c <= 'Z' {
        Some((c as u32 - 65) as u8)
    } else if 'a' <= c && c <= 'z' {
        Some((c as u32 - 71) as u8)
    } else if '0' <= c && c <= '9' {
        Some((c as u32 + 4) as u8)
    } else if c == symbol_of(62, standard) {
        Some(62)
    } else if c == symbol_of(63, standard) {
        Some(63)
    } else {
        None
    }
}

fn write(b: &[u8], standard: bool) -> (r: String)
    ensures
        r@ == unpadded(b@, standard),
{
    let mut out = String::new();
    let mut i: usize = 0;
    proof {
        assert(b@.skip(0) =~= b@);
        assert(out@ + unpadded(b@.skip(0), standard) =~= unpadded(b@, standard));
    }
    while b.len() - i >= 3
        invariant
            i <= b@.len(),
            out@ + unpadded(b@.skip(i as int), standard) == unpadded(b@, standard),
        decreases b@.len() - i,
    {
        let ghost before = out@;
        let ghost rest = b@.skip(i as int);
        out.push(symbol_of(b[i] / 4, standard));
        out.push(symbol_of((b[i] % 4) * 16 + b[i + 1] / 16, standard));
        out.push(symbol_of((b[i + 1] % 16) * 4 + b[i + 2] / 64, standard));
        out.push(symbol_of(b[i + 2] % 64, standard));
        proof {
            assert(rest.skip(3) =~= b@.skip(i + 3));
            assert(out@ + unpadded(b@.skip(i + 3), standard) =~= before + unpadded(
                rest,
                standard,
            ));
        }
        i += 3;
    }
    let ghost rest = b@.skip(i as int);
    let ghost before = out@;
    if b.len() - i == 1 {
        out.push(symbol_of(b[i] / 4, standard));
        out.push(symbol_of((b[i] % 4) * 16, standard));
    } else if b.len() - i == 2 {
        out.push(symbol_of(b[i] / 4, standard));
        out.push(symbol_of((b[i] % 4) * 16 + b[i + 1] / 16, standard));
        out.push(symbol_of((b[i + 1] % 16) * 4, standard));
    }
    proof {
        assert(out@ =~= before + unpadded(rest, standard));
    }
    out
}

fn read(s: &[char], standard: bool) -> (r: Option<Vec<u8>>)
    ensures
        match r {
            Some(b) => from_unpadded(s@, standard) == Some(b@),
            None => from_unpadded(s@, standard) is None,
        },
{
    let mut out: Vec<u8> = Vec::new();
    let mut i: usize = 0;
    proof {
        assert(s@.skip(0) =~= s@);
        if let Some(t) = from_unpadded(s@, standard) {
            assert(out@ + t =~= t);
        }
    }
    while s.len() - i >= 4
        invariant
            i <= s@.len(),
            match from_unpadded(s@.skip(i as int), standard) {
                Some(t) => from_unpadded(s@, standard) == Some(out@ + t),
                None => from_unpadded(s@, standard) is None,
            },
        decreases s@.len() - i,
    {
        let ghost rest = s@.skip(i as int);
        let ghost before = out@;
        match (
            sextet_of(s[i], standard),
            sextet_of(s[i + 1], standard),
            sextet_of(s[i + 2], standard),
            sextet_of(s[i + 3], standard),
        ) {
            (Some(a), Some(b), Some(c), Some(d)) => {
                out.push(a * 4 + b / 16);
                out.push((b % 16) * 16 + c / 4);
                out.push((c % 4) * 64 + d);
                proof {
                    assert(rest.skip(4) =~= s@.skip(i + 4));
                    if let Some(t) = from_unpadded(rest.skip(4), standard) {
                        assert(out@ + t =~= before + from_unpadded(rest, standard).unwrap());
                    }
                }
            },
            _ => {
                return None;
            },
        }
        i += 4;
    }
    let ghost rest = s@.skip(i as int);
    let ghost before = out@;
    if s.len() - i == 1 {
        return None;
    } else if s.len() - i == 2 {
        match (sextet_of(s[i], standard), sextet_of(s[i + 1], standard)) {
            (Some(a), Some(b)) => {
                if b % 16 != 0 {
                    return None;
                }
                out.push(a * 4 + b / 16);
            },
            _ => {
                return None;
            },
        }
    } else if s.len() - i == 3 {
        match (
            sextet_of(s[i], standard),
            sextet_of(s[i + 1], standard),
            sextet_of(s[i + 2], standard),
        ) {
            (Some(a), Some(b), Some(c)) => {
                if c % 4 != 0 {
                    return None;
                }
                out.push(a * 4 + b / 16);
                out.push((b % 16) * 16 + c / 4);
            },
            _ => {
                return None;
            },
        }
    }
    proof {
        assert(out@ =~= before + from_unpadded(rest, standard).unwrap());
    }
    Some(out)
}

/// The base64url text of `b`, unpadded.
pub fn encode(b: &[u8]) -> (r: String)
    ensures
        r@ == encoded(b@),
{
    write(b, false)
}

/// Reads a base64url text. Padding, other characters, a stray last character
/// and stray bits are all refused.
pub fn decode(s: &str) -> (r: Option<Vec<u8>>)
    ensures
        match r {
            Some(b) => decoded(s@) == Some(b@),
            None => decoded(s@) is None,
        },
{
    let a = text::to_chars(s);
    read(&a, false)
}

/// Reads a base64url text of exactly 32 bytes.
pub fn decode_fixed(s: &str) -> (r: Option<[u8; 32]>)
    ensures
        match r {
            Some(b) => decoded(s@) == Some(b@),
            None => match decoded(s@) {
                Some(b) => b.len() != 32,
                None => true,
            },
        },
{
    let v = match decode(s) {
        Some(v) => v,
        None => {
            return None;
        },
    };
    if v.len() != 32 {
        return None;
    }
    let mut out: [u8; 32] = [0u8; 32];
    let mut i: usize = 0;
    while i < 32
        invariant
            i <= 32,
            v@.len() == 32,
            out@.len() == 32,
            forall|j: int| 0 <= j < i ==> out@[j] == v@[j],
        decreases 32 - i,
    {
        out[i] = v[i];
        i += 1;
    }
    proof {
        assert(out@ =~= v@);
    }
    Some(out)
}

/// The standard base64 text of `b`, padded.
pub fn encode_std(b: &[u8]) -> (r: String)
    ensures
        r@ == encoded_std(b@),
{
    let mut out = write(b, true);
    let ghost u = out@;
    if b.len() % 3 == 1 {
        out.push('=');
        out.push('=');
    } else if b.len() % 3 == 2 {
        out.push('=');
    }
    proof {
        assert(out@ =~= u + padding(b@.len()));
    }
    out
}

/// Reads a padded standard base64 text.
pub fn decode_std(s: &str) -> (r: Option<Vec<u8>>)
    ensures
        match r {
            Some(b) => decoded_std(s@) == Some(b@),
            None => decoded_std(s@) is None,
        },
{
    let a = text::to_chars(s);
    let n: usize = a.len();
    if n % 4 != 0 {
        return None;
    }
    let keep: usize = if n > 0 && a[n - 1] == '=' && a[n - 2] == '=' {
        n - 2
    } else if n > 0 && a[n - 1] == '=' {
        n - 1
    } else {
        n
    };
    let body = vstd::slice::slice_subrange(a.as_slice(), 0, keep);
    proof {
        assert(body@ =~= s@.take(keep as int));
        assert(s@.take(n as int) =~= s@);
    }
    read(body, true)
}

/// The alphabet: capital letters, small letters, digits, and the two that tell
/// the variants apart.
pub proof fn law_alphabet(v: nat, standard: bool)
    requires
        v < 64,
    ensures
        v < 26 ==> symbol(v, standard) as u32 == 'A' as u32 + v,
        26 <= v < 52 ==> symbol(v, standard) as u32 == 'a' as u32 + (v - 26),
        52 <= v < 62 ==> symbol(v, standard) as u32 == '0' as u32 + (v - 52),
        symbol(62, false) == '-' && symbol(63, false) == '_',
        symbol(62, true) == '+' && symbol(63, true) == '/',
{
    reveal(symbol);
}

/// Three bytes become four characters of six bits each, in order; what is left
/// becomes as many characters as it needs.
pub proof fn law_encoding(a: u8, b: u8, c: u8, rest: Seq<u8>, standard: bool)
    ensures
        unpadded(seq![a, b, c] + rest, standard) == seq![
            symbol(a as nat / 4, standard),
            symbol((a as nat % 4) * 16 + b as nat / 16, standard),
            symbol((b as nat % 16) * 4 + c as nat / 64, standard),
            symbol(c as nat % 64, standard),
        ] + unpadded(rest, standard),
        unpadded(seq![a, b], standard) == seq![
            symbol(a as nat / 4, standard),
            symbol((a as nat % 4) * 16 + b as nat / 16, standard),
            symbol((b as nat % 16) * 4, standard),
        ],
        unpadded(seq![a], standard) == seq![
            symbol(a as nat / 4, standard),
            symbol((a as nat % 4) * 16, standard),
        ],
        unpadded(Seq::empty(), standard).len() == 0,
{
    assert((seq![a, b, c] + rest).skip(3) =~= rest);
}

/// The text of tokens is of the second variant without padding; the standard one
/// is padded to a multiple of four.
pub proof fn law_variants(b: Seq<u8>)
    ensures
        encoded(b) == unpadded(b, false),
        b.len() % 3 == 0 ==> encoded_std(b) == unpadded(b, true),
        b.len() % 3 == 1 ==> encoded_std(b) == unpadded(b, true) + seq!['=', '='],
        b.len() % 3 == 2 ==> encoded_std(b) == unpadded(b, true) + seq!['='],
        decoded(encoded(b)) == Some(b),
        decoded_std(encoded_std(b)) == Some(b),
{
    law_decode_of_encode(b);
    law_decode_std_of_encode_std(b);
    assert(unpadded(b, true) + Seq::<char>::empty() =~= unpadded(b, true));
}

} // verus!
