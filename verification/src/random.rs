//! Identifiers and secrets from drawn randomness. The random bytes come from
//! outside; here they are only given a form.

use vstd::prelude::*;

use crate::b64;
use crate::ident;
use crate::text;

verus! {

/// The characters of identifiers: no letters that are easily confused.
pub const ID_ALPHABET: [char; 32] = [
    '0', '1', '2', '3', '4', '5', '6', '7', '8', '9', 'a', 'b', 'c', 'd', 'e', 'f', 'g', 'h', 'j',
    'k', 'm', 'n', 'p', 'q', 'r', 's', 't', 'v', 'w', 'x', 'y', 'z',
];

/// The identifier that some bytes make: one character for each.
pub open spec fn id_of(random: Seq<u8>) -> Seq<char> {
    random.map_values(|b: u8| ID_ALPHABET@[b as int % 32])
}

/// The identifier that some random bytes make.
pub fn random_id(random: &[u8]) -> (r: String)
    ensures
        r@ == id_of(random@),
{
    let mut out: Vec<char> = Vec::new();
    let mut i: usize = 0;
    while i < random.len()
        invariant
            i <= random@.len(),
            out@.len() == i,
            forall|j: int| 0 <= j < i ==> #[trigger] out@[j] == ID_ALPHABET@[random@[j] as int % 32],
        decreases random@.len() - i,
    {
        let place: usize = (random[i] % 32) as usize;
        out.push(ID_ALPHABET[place]);
        i += 1;
    }
    proof {
        assert(out@ =~= id_of(random@));
    }
    text::from_chars(out.as_slice())
}

/// The secret that some random bytes make.
pub fn random_token(random: &[u8]) -> (r: String)
    ensures
        r@ == b64::encoded(random@),
{
    b64::encode(random)
}

/// Every identifier of up to 255 characters can be the local part of an agent,
/// and is not that of a sub-agent.
pub proof fn law_id_is_local_part(random: Seq<u8>)
    requires
        0 < random.len() <= 255,
    ensures
        ident::is_local(id_of(random)),
        !id_of(random).contains('+'),
{
    let s = id_of(random);
    assert forall|i: int| 0 <= i < s.len() implies ident::is_local_char(#[trigger] s[i]) && s[i]
        != '+' by {
        let k = random[i] as int % 32;
        assert(0 <= k < 32);
        assert(s[i] == ID_ALPHABET@[k]);
        lemma_alphabet(k);
    }
}

proof fn lemma_alphabet(k: int)
    requires
        0 <= k < 32,
    ensures
        ident::is_local_char(ID_ALPHABET@[k]),
        ID_ALPHABET@[k] != '+',
{
}

/// An identifier has a character for each random byte, the one that the byte's
/// lower five bits pick; bytes that pick the same character are eight to each.
pub proof fn law_id_characters(random: Seq<u8>, i: int)
    requires
        0 <= i < random.len(),
    ensures
        id_of(random).len() == random.len(),
        id_of(random)[i] == ID_ALPHABET@[random[i] as int % 32],
{
}

/// No two of the characters are the same, so that an identifier tells every bit
/// it was made from.
pub proof fn law_alphabet_distinct(i: int, j: int)
    requires
        0 <= i < j < 32,
    ensures
        ID_ALPHABET@[i] != ID_ALPHABET@[j],
        ID_ALPHABET@[i] != 'i' && ID_ALPHABET@[i] != 'l' && ID_ALPHABET@[i] != 'o' && ID_ALPHABET@[i]
            != 'u',
{
    lemma_alphabet_order(i);
    lemma_alphabet_rises(i, j);
}

proof fn lemma_alphabet_order(k: int)
    requires
        0 <= k < 32,
    ensures
        k < 31 ==> ID_ALPHABET@[k] < ID_ALPHABET@[k + 1],
        ID_ALPHABET@[k] != 'i' && ID_ALPHABET@[k] != 'l' && ID_ALPHABET@[k] != 'o' && ID_ALPHABET@[k]
            != 'u',
{
}

proof fn lemma_alphabet_rises(i: int, j: int)
    requires
        0 <= i < j < 32,
    ensures
        ID_ALPHABET@[i] < ID_ALPHABET@[j],
    decreases j - i,
{
    lemma_alphabet_order(i);
    if i + 1 < j {
        lemma_alphabet_rises(i + 1, j);
    }
}

} // verus!
