//! X.509 for enrollment assertions that carry a certificate chain: PEM bundles,
//! validation of the chain to configured roots, the signature by the leaf, and
//! the leaf's DNS and URI names.

use rustls_pki_types::{CertificateDer, TrustAnchor};
use vstd::prelude::*;
use webpki::CertRevocationList;

use crate::b64;
use crate::pki;
use crate::pki::{ChainAlg, PkiAlg};
use crate::text;

verus! {

// ------------------------------------------------------------------- PEM

/// The line that opens a PEM block.
pub open spec fn pem_begin(kind: Seq<char>) -> Seq<char> {
    "-----BEGIN "@ + kind + "-----"@
}

/// The line that closes a PEM block.
pub open spec fn pem_end(kind: Seq<char>) -> Seq<char> {
    "-----END "@ + kind + "-----"@
}

/// The blocks of one kind that stand in a text, decoded; what does not decode
/// is passed over, and so is a block that is not closed.
pub open spec fn pem_in(s: Seq<char>, kind: Seq<char>) -> Seq<Seq<u8>>
    decreases s.len(),
    via pem_in_decreases
{
    match text::text_position(s, pem_begin(kind)) {
        None => Seq::empty(),
        Some(i) => {
            let after = s.skip((i + pem_begin(kind).len()) as int);
            match text::text_position(after, pem_end(kind)) {
                None => Seq::empty(),
                Some(j) => {
                    let rest = after.skip((j + pem_end(kind).len()) as int);
                    match b64::decoded_std(text::without_white(after.take(j as int))) {
                        Some(der) => seq![der] + pem_in(rest, kind),
                        None => pem_in(rest, kind),
                    }
                },
            }
        },
    }
}

#[via_fn]
proof fn pem_in_decreases(s: Seq<char>, kind: Seq<char>) {
    reveal_strlit("-----BEGIN ");
    text::lemma_text_position(s, pem_begin(kind));
    if let Some(i) = text::text_position(s, pem_begin(kind)) {
        let after = s.skip((i + pem_begin(kind).len()) as int);
        text::lemma_text_position(after, pem_end(kind));
    }
}

/// What a PEM bundle holds of one kind. Bytes without any PEM block are one
/// block themselves.
pub open spec fn pem_of(data: Seq<u8>, kind: Seq<char>) -> Seq<Seq<u8>> {
    let s = text::lossy_text(data);
    let blocks = pem_in(s, kind);
    if blocks.len() == 0 && text::text_position(s, "-----BEGIN"@) is None && data.len() > 0 {
        seq![data]
    } else {
        blocks
    }
}

/// The blocks of one kind that stand in a text.
pub fn pem_text_blocks(s: &str, kind: &str) -> (r: Vec<Vec<u8>>)
    ensures
        text::bytes_view(r@) == pem_in(s@, kind@),
{
    let a = text::to_chars(s);
    let begin_text = text::join3("-----BEGIN ", kind, "-----");
    let end_text = text::join3("-----END ", kind, "-----");
    let begin = text::to_chars(begin_text.as_str());
    let end = text::to_chars(end_text.as_str());
    let mut out: Vec<Vec<u8>> = Vec::new();
    let mut from: usize = 0;
    proof {
        reveal_strlit("-----BEGIN ");
        assert(s@.skip(0) =~= s@);
        assert(text::bytes_view(out@) + pem_in(s@, kind@) =~= pem_in(s@, kind@));
    }
    loop
        invariant
            from <= a@.len(),
            a@ == s@,
            begin@ == pem_begin(kind@),
            end@ == pem_end(kind@),
            begin@.len() > 0,
            text::bytes_view(out@) + pem_in(s@.skip(from as int), kind@) == pem_in(s@, kind@),
        decreases a@.len() - from,
    {
        let rest = vstd::slice::slice_subrange(a.as_slice(), from, a.len());
        proof {
            assert(rest@ =~= s@.skip(from as int));
        }
        match text::find_text(rest, begin.as_slice()) {
            None => {
                proof {
                    assert(text::bytes_view(out@) + Seq::<Seq<u8>>::empty()
                        =~= text::bytes_view(out@));
                }
                return out;
            },
            Some(i) => {
                let start: usize = i + begin.len();
                let after = vstd::slice::slice_subrange(rest, start, rest.len());
                proof {
                    assert(after@ =~= rest@.skip(start as int));
                }
                match text::find_text(after, end.as_slice()) {
                    None => {
                        proof {
                            assert(text::bytes_view(out@) + Seq::<Seq<u8>>::empty()
                                =~= text::bytes_view(out@));
                        }
                        return out;
                    },
                    Some(j) => {
                        let body = vstd::slice::slice_subrange(after, 0, j);
                        let packed = text::drop_white(body);
                        let ghost before = text::bytes_view(out@);
                        let ghost tail = after@.skip(j + end@.len());
                        proof {
                            assert(body@ =~= after@.take(j as int));
                            assert(tail =~= s@.skip(from + start + j + end@.len()));
                        }
                        match b64::decode_std(packed.as_str()) {
                            Some(der) => {
                                let ghost block = der@;
                                out.push(der);
                                proof {
                                    assert(text::bytes_view(out@) =~= before.push(block));
                                    assert(text::bytes_view(out@) + pem_in(tail, kind@) =~= before
                                        + (seq![block] + pem_in(tail, kind@)));
                                }
                            },
                            None => {},
                        }
                        from = from + start + j + end.len();
                    },
                }
            },
        }
    }
}

/// The blocks of one PEM kind (`CERTIFICATE`, `X509 CRL`) in a bundle. DER
/// without PEM markers is one block.
pub fn pem_blocks(data: &[u8], kind: &str) -> (r: Vec<Vec<u8>>)
    ensures
        text::bytes_view(r@) == pem_of(data@, kind@),
{
    let s = text::from_utf8_lossy(data);
    let mut out = pem_text_blocks(s.as_str(), kind);
    proof {
        assert(text::bytes_view(out@).len() == out@.len());
    }
    if out.len() == 0 && data.len() > 0 {
        let a = text::to_chars(s.as_str());
        let marker = text::to_chars("-----BEGIN");
        if text::find_text(&a, &marker).is_none() {
            let whole = vstd::slice::slice_to_vec(data);
            proof {
                assert(whole@ =~= data@);
            }
            out.push(whole);
            proof {
                assert(text::bytes_view(out@) =~= seq![data@]);
            }
        }
    }
    out
}

// ------------------------------------------------------- ECDSA signatures

/// A big-endian number without its leading zeros, one digit at least.
pub open spec fn without_zeros(v: Seq<u8>) -> Seq<u8>
    decreases v.len(),
{
    if v.len() > 1 && v[0] == 0 {
        without_zeros(v.drop_first())
    } else {
        v
    }
}

/// The DER INTEGER of a big-endian number; its length is written in one byte.
pub open spec fn der_integer(v: Seq<u8>) -> Seq<u8> {
    let t = without_zeros(v);
    if t[0] >= 128 {
        seq![0x02u8, ((t.len() + 1) % 256) as u8, 0x00u8] + t
    } else {
        seq![0x02u8, (t.len() % 256) as u8] + t
    }
}

/// The DER form of a signature that is two numbers of equal width, one after
/// the other.
pub open spec fn der_signature(sig: Seq<u8>) -> Option<Seq<u8>> {
    if sig.len() % 2 != 0 || sig.len() == 0 {
        None
    } else {
        let half = sig.len() as int / 2;
        let body = der_integer(sig.take(half)) + der_integer(sig.skip(half));
        if body.len() < 128 {
            Some(seq![0x30u8, body.len() as u8] + body)
        } else {
            Some(seq![0x30u8, 0x81u8, (body.len() % 256) as u8] + body)
        }
    }
}

fn low_byte(n: usize) -> (r: u8)
    ensures
        r == (n as nat % 256) as u8,
{
    (n % 256) as u8
}

#[verifier::spinoff_prover]
#[verifier::rlimit(40)]
fn append_der_integer(out: &mut Vec<u8>, v: &[u8])
    requires
        v@.len() > 0,
    ensures
        final(out)@ == old(out)@ + der_integer(v@),
{
    let ghost before = out@;
    let mut from: usize = 0;
    proof {
        assert(v@.skip(0) =~= v@);
    }
    while v.len() - from > 1 && v[from] == 0
        invariant
            from < v@.len(),
            without_zeros(v@.skip(from as int)) == without_zeros(v@),
        decreases v@.len() - from,
    {
        proof {
            assert(v@.skip(from as int).drop_first() =~= v@.skip(from + 1));
        }
        from += 1;
    }
    let ghost t = v@.skip(from as int);
    let n: usize = v.len() - from;
    out.push(0x02);
    if v[from] >= 128 {
        out.push(low_byte(n % 256 + 1));
        out.push(0x00);
    } else {
        out.push(low_byte(n));
    }
    let ghost head = out@;
    let mut i: usize = from;
    while i < v.len()
        invariant
            from <= i <= v@.len(),
            out@ == head + v@.subrange(from as int, i as int),
        decreases v@.len() - i,
    {
        out.push(v[i]);
        i += 1;
        proof {
            assert(v@.subrange(from as int, i as int) =~= v@.subrange(
                from as int,
                i - 1,
            ).push(v@[i - 1]));
        }
    }
    proof {
        assert(v@.subrange(from as int, v@.len() as int) =~= t);
        assert(out@ =~= before + der_integer(v@));
    }
}

/// Turns an ECDSA signature of fixed width into the DER form that certificates
/// verify.
pub fn ecdsa_fixed_to_der(sig: &[u8]) -> (r: Option<Vec<u8>>)
    ensures
        match r {
            Some(d) => der_signature(sig@) == Some(d@),
            None => der_signature(sig@) is None,
        },
{
    if sig.len() % 2 != 0 || sig.len() == 0 {
        return None;
    }
    let half: usize = sig.len() / 2;
    let first = vstd::slice::slice_subrange(sig, 0, half);
    let second = vstd::slice::slice_subrange(sig, half, sig.len());
    let mut body: Vec<u8> = Vec::new();
    append_der_integer(&mut body, first);
    append_der_integer(&mut body, second);
    proof {
        assert(first@ =~= sig@.take(half as int));
        assert(second@ =~= sig@.skip(half as int));
        assert(body@ =~= der_integer(first@) + der_integer(second@));
    }
    let mut out: Vec<u8> = Vec::new();
    out.push(0x30);
    if body.len() < 128 {
        out.push(low_byte(body.len()));
    } else {
        out.push(0x81);
        out.push(low_byte(body.len()));
    }
    let ghost head = out@;
    let ghost rest = body@;
    out.append(&mut body);
    proof {
        assert(out@ =~= head + rest);
    }
    Some(out)
}

// ------------------------------------------------------------------- DER

/// One element of DER: its tag and its contents.
pub struct TlvView {
    pub tag: u8,
    pub value: Seq<u8>,
}

/// The number that big-endian bytes denote.
pub open spec fn big_endian(b: Seq<u8>) -> nat
    decreases b.len(),
{
    if b.len() == 0 {
        0
    } else {
        256 * big_endian(b.drop_last()) + b.last() as nat
    }
}

/// How many bytes the length of an element takes, and what it is.
pub open spec fn der_length(b: Seq<u8>) -> Result<(nat, nat), Seq<char>> {
    if b.len() < 2 {
        Err("truncated DER"@)
    } else if b[1] < 128 {
        Ok((2, b[1] as nat))
    } else {
        let n = (b[1] - 128) as nat;
        if n == 0 || n > 4 {
            Err("unsupported DER length"@)
        } else if b.len() < 2 + n {
            Err("truncated DER"@)
        } else {
            Ok((2 + n, big_endian(b.subrange(2, 2 + n as int))))
        }
    }
}

/// The first element of a byte string, and what follows it.
pub open spec fn tlv(b: Seq<u8>) -> Result<(TlvView, Seq<u8>), Seq<char>> {
    match der_length(b) {
        Err(e) => Err(e),
        Ok((head, len)) => if head + len > b.len() {
            Err("truncated DER"@)
        } else {
            Ok(
                (
                    TlvView {
                        tag: b[0],
                        value: b.subrange(head as int, (head + len) as int),
                    },
                    b.skip((head + len) as int),
                ),
            )
        },
    }
}

/// What follows the first `n` elements.
pub open spec fn skip_elements(b: Seq<u8>, n: nat) -> Result<Seq<u8>, Seq<char>>
    decreases n,
{
    if n == 0 {
        Ok(b)
    } else {
        match tlv(b) {
            Err(e) => Err(e),
            Ok((_, rest)) => skip_elements(rest, (n - 1) as nat),
        }
    }
}

/// An element takes two bytes at least.
pub proof fn lemma_tlv_advances(b: Seq<u8>)
    ensures
        tlv(b) matches Ok(p) ==> p.1.len() + 2 <= b.len() && p.0.value.len() + 2 <= b.len(),
{
}

/// The DNS and URI names among general names.
pub open spec fn names_in(b: Seq<u8>) -> Result<Seq<Seq<char>>, Seq<char>>
    decreases b.len(),
    via names_in_decreases
{
    if b.len() == 0 {
        Ok(Seq::empty())
    } else {
        match tlv(b) {
            Err(e) => Err(e),
            Ok((name, rest)) => match names_in(rest) {
                Err(e) => Err(e),
                Ok(more) => if name.tag == 0x82 || name.tag == 0x86 {
                    match text::utf8_text(name.value) {
                        Some(s) => Ok(seq![s] + more),
                        None => Ok(more),
                    }
                } else {
                    Ok(more)
                },
            },
        }
    }
}

#[via_fn]
proof fn names_in_decreases(b: Seq<u8>) {
    lemma_tlv_advances(b);
}

/// The names that an extension holds: none, unless it is the subject's
/// alternative names.
pub open spec fn names_of_extension(b: Seq<u8>) -> Result<Seq<Seq<char>>, Seq<char>> {
    match tlv(b) {
        Err(e) => Err(e),
        Ok((oid, rest)) => if oid.tag != 0x06 {
            Ok(Seq::empty())
        } else {
            match tlv(rest) {
                Err(e) => Err(e),
                Ok((first, after)) => {
                    let held = if first.tag == 0x01 {
                        match tlv(after) {
                            Err(e) => Err(e),
                            Ok((second, _)) => Ok(second),
                        }
                    } else {
                        Ok(first)
                    };
                    match held {
                        Err(e) => Err(e),
                        Ok(inner) => if oid.value != seq![0x55u8, 0x1du8, 0x11u8] || inner.tag
                            != 0x04 {
                            Ok(Seq::empty())
                        } else {
                            match tlv(inner.value) {
                                Err(e) => Err(e),
                                Ok((names, _)) => names_in(names.value),
                            }
                        },
                    }
                },
            }
        },
    }
}

/// The names that a list of extensions holds.
pub open spec fn names_of_extensions(b: Seq<u8>) -> Result<Seq<Seq<char>>, Seq<char>>
    decreases b.len(),
    via names_of_extensions_decreases
{
    if b.len() == 0 {
        Ok(Seq::empty())
    } else {
        match tlv(b) {
            Err(e) => Err(e),
            Ok((ext, rest)) => match names_of_extension(ext.value) {
                Err(e) => Err(e),
                Ok(here) => match names_of_extensions(rest) {
                    Err(e) => Err(e),
                    Ok(more) => Ok(here + more),
                },
            },
        }
    }
}

#[via_fn]
proof fn names_of_extensions_decreases(b: Seq<u8>) {
    lemma_tlv_advances(b);
}

/// The names that the optional fields behind the public key hold.
pub open spec fn names_of_fields(b: Seq<u8>) -> Result<Seq<Seq<char>>, Seq<char>>
    decreases b.len(),
    via names_of_fields_decreases
{
    if b.len() == 0 {
        Ok(Seq::empty())
    } else {
        match tlv(b) {
            Err(e) => Err(e),
            Ok((field, rest)) => {
                let held = if field.tag != 0xa3 {
                    Ok(Seq::empty())
                } else {
                    match tlv(field.value) {
                        Err(e) => Err(e),
                        Ok((exts, _)) => names_of_extensions(exts.value),
                    }
                };
                match held {
                    Err(e) => Err(e),
                    Ok(here) => match names_of_fields(rest) {
                        Err(e) => Err(e),
                        Ok(more) => Ok(here + more),
                    },
                }
            },
        }
    }
}

#[via_fn]
proof fn names_of_fields_decreases(b: Seq<u8>) {
    lemma_tlv_advances(b);
}

/// The DNS and URI alternative names of a DER certificate.
pub open spec fn sans_of(cert: Seq<u8>) -> Result<Seq<Seq<char>>, Seq<char>> {
    match tlv(cert) {
        Err(e) => Err(e),
        Ok((whole, _)) => match tlv(whole.value) {
            Err(e) => Err(e),
            Ok((tbs, _)) => match tlv(tbs.value) {
                Err(e) => Err(e),
                Ok((first, rest)) => {
                    // Behind an optional version: serial number, algorithm,
                    // issuer, validity, subject and public key.
                    let more: nat = if first.tag == 0xa0 {
                        6
                    } else {
                        5
                    };
                    match skip_elements(rest, more) {
                        Err(e) => Err(e),
                        Ok(fields) => names_of_fields(fields),
                    }
                },
            },
        },
    }
}

/// One element of DER.
pub struct Tlv<'a> {
    pub tag: u8,
    pub value: &'a [u8],
}

/// A reader of DER elements.
pub struct Der<'a> {
    data: &'a [u8],
    pos: usize,
}

impl<'a> Der<'a> {
    #[verifier::type_invariant]
    spec fn well_formed(self) -> bool {
        self.pos <= self.data@.len()
    }

    /// What is still to be read.
    pub closed spec fn view(&self) -> Seq<u8> {
        self.data@.skip(self.pos as int)
    }

    /// A reader at the start of `data`.
    pub fn new(data: &'a [u8]) -> (r: Der<'a>)
        ensures
            r@ == data@,
    {
        let r = Der { data, pos: 0 };
        proof {
            assert(data@.skip(0) =~= data@);
        }
        r
    }

    /// Whether everything has been read.
    pub fn done(&self) -> (r: bool)
        ensures
            r == (self@.len() == 0),
    {
        proof {
            use_type_invariant(self);
        }
        self.pos >= self.data.len()
    }

    /// What is still to be read.
    pub fn rest(&self) -> (r: &'a [u8])
        ensures
            r@ == self@,
    {
        proof {
            use_type_invariant(self);
        }
        let out = vstd::slice::slice_subrange(self.data, self.pos, self.data.len());
        proof {
            assert(out@ =~= self@);
        }
        out
    }

    /// Reads one element. Where that fails, the reader stays where it was.
    pub fn read(&mut self) -> (r: Result<Tlv<'a>, String>)
        ensures
            match r {
                Ok(t) => tlv(old(self)@) == Ok::<(TlvView, Seq<u8>), Seq<char>>(
                    (TlvView { tag: t.tag, value: t.value@ }, final(self)@),
                ),
                Err(e) => tlv(old(self)@) == Err::<(TlvView, Seq<u8>), Seq<char>>(e@)
                    && final(self)@ == old(self)@,
            },
    {
        proof {
            use_type_invariant(&*self);
        }
        let data = self.data;
        let start: usize = self.pos;
        let end: usize = data.len();
        let left: usize = end - start;
        let ghost b = self@;
        if left < 2 {
            return Err("truncated DER".to_owned());
        }
        let tag: u8 = data[start];
        let first: u8 = data[start + 1];
        let head: usize;
        let len: usize;
        if first < 128 {
            head = 2;
            len = first as usize;
        } else {
            let n: usize = (first - 128) as usize;
            if n == 0 || n > 4 {
                return Err("unsupported DER length".to_owned());
            }
            if left < 2 + n {
                return Err("truncated DER".to_owned());
            }
            let mut sum: u64 = 0;
            let mut i: usize = 0;
            while i < n
                invariant
                    i <= n <= 4,
                    2 + n <= left,
                    start + left == end,
                    end == data@.len(),
                    b == data@.skip(start as int),
                    sum == big_endian(b.subrange(2, 2 + i as int)),
                    i == 0 ==> sum == 0,
                    i == 1 ==> sum < 0x100,
                    i == 2 ==> sum < 0x1_0000,
                    i == 3 ==> sum < 0x100_0000,
                    i == 4 ==> sum < 0x1_0000_0000,
                decreases n - i,
            {
                proof {
                    assert(b.subrange(2, 3 + i as int).drop_last() =~= b.subrange(
                        2,
                        2 + i as int,
                    ));
                    assert(b.subrange(2, 3 + i as int).last() == data@[start + 2 + i]);
                }
                sum = sum * 256 + data[start + 2 + i] as u64;
                i += 1;
            }
            head = 2 + n;
            if sum > (left - head) as u64 {
                return Err("truncated DER".to_owned());
            }
            len = sum as usize;
        }
        if len > left - head {
            return Err("truncated DER".to_owned());
        }
        let from: usize = start + head;
        let to: usize = from + len;
        let value = vstd::slice::slice_subrange(data, from, to);
        self.pos = to;
        proof {
            assert(value@ =~= b.subrange(head as int, (head + len) as int));
            assert(self@ =~= b.skip((head + len) as int));
        }
        Ok(Tlv { tag, value })
    }
}

/// The DNS and URI names among general names, behind those found already.
fn read_names(b: &[u8], out: &mut Vec<String>) -> (r: Result<(), String>)
    ensures
        match r {
            Ok(_) => names_in(b@) matches Ok(names) && text::list_view(final(out)@)
                == text::list_view(old(out)@) + names,
            Err(e) => names_in(b@) == Err::<Seq<Seq<char>>, Seq<char>>(e@),
        },
{
    let mut der = Der::new(b);
    let ghost start = text::list_view(out@);
    let ghost mut found: Seq<Seq<char>> = Seq::empty();
    proof {
        assert(start + found =~= start);
        if let Ok(n) = names_in(b@) {
            assert(found + n =~= n);
        }
    }
    while !der.done()
        invariant
            text::list_view(out@) == start + found,
            match names_in(der@) {
                Ok(n) => names_in(b@) == Ok::<Seq<Seq<char>>, Seq<char>>(found + n),
                Err(e) => names_in(b@) == Err::<Seq<Seq<char>>, Seq<char>>(e),
            },
        decreases der@.len(),
    {
        let ghost here = der@;
        let ghost before = found;
        proof {
            lemma_tlv_advances(here);
        }
        let name = match der.read() {
            Ok(t) => t,
            Err(e) => {
                return Err(e);
            },
        };
        if name.tag == 0x82 || name.tag == 0x86 {
            match text::from_utf8(name.value) {
                Some(s) => {
                    let ghost now = text::list_view(out@);
                    let ghost added = s@;
                    out.push(s);
                    proof {
                        found = before.push(added);
                        assert(text::list_view(out@) =~= now.push(added));
                        assert(text::list_view(out@) =~= start + found);
                        if let Ok(n) = names_in(der@) {
                            assert(before + (seq![added] + n) =~= found + n);
                        }
                    }
                },
                None => {},
            }
        }
    }
    proof {
        assert(found + Seq::<Seq<char>>::empty() =~= found);
    }
    Ok(())
}

/// The names that an extension holds, behind those found already.
fn read_extension(b: &[u8], out: &mut Vec<String>) -> (r: Result<(), String>)
    ensures
        match r {
            Ok(_) => names_of_extension(b@) matches Ok(names) && text::list_view(final(out)@)
                == text::list_view(old(out)@) + names,
            Err(e) => names_of_extension(b@) == Err::<Seq<Seq<char>>, Seq<char>>(e@),
        },
{
    proof {
        assert(text::list_view(out@) + Seq::<Seq<char>>::empty() =~= text::list_view(out@));
    }
    let mut ext = Der::new(b);
    let oid = match ext.read() {
        Ok(t) => t,
        Err(e) => {
            return Err(e);
        },
    };
    if oid.tag != 0x06 {
        return Ok(());
    }
    let mut inner = match ext.read() {
        Ok(t) => t,
        Err(e) => {
            return Err(e);
        },
    };
    if inner.tag == 0x01 {
        inner = match ext.read() {
            Ok(t) => t,
            Err(e) => {
                return Err(e);
            },
        };
    }
    let subject_alt_name = oid.value.len() == 3 && oid.value[0] == 0x55 && oid.value[1] == 0x1d
        && oid.value[2] == 0x11;
    proof {
        if subject_alt_name {
            assert(oid.value@ =~= seq![0x55u8, 0x1du8, 0x11u8]);
        }
    }
    if !subject_alt_name || inner.tag != 0x04 {
        return Ok(());
    }
    let mut wrapper = Der::new(inner.value);
    match wrapper.read() {
        Ok(names) => read_names(names.value, out),
        Err(e) => Err(e),
    }
}

/// The names that a list of extensions holds, behind those found already.
fn read_extensions(b: &[u8], out: &mut Vec<String>) -> (r: Result<(), String>)
    ensures
        match r {
            Ok(_) => names_of_extensions(b@) matches Ok(names) && text::list_view(final(out)@)
                == text::list_view(old(out)@) + names,
            Err(e) => names_of_extensions(b@) == Err::<Seq<Seq<char>>, Seq<char>>(e@),
        },
{
    let mut der = Der::new(b);
    let ghost start = text::list_view(out@);
    let ghost mut found: Seq<Seq<char>> = Seq::empty();
    proof {
        assert(start + found =~= start);
        if let Ok(n) = names_of_extensions(b@) {
            assert(found + n =~= n);
        }
    }
    while !der.done()
        invariant
            text::list_view(out@) == start + found,
            match names_of_extensions(der@) {
                Ok(n) => names_of_extensions(b@) == Ok::<Seq<Seq<char>>, Seq<char>>(found + n),
                Err(e) => names_of_extensions(b@) == Err::<Seq<Seq<char>>, Seq<char>>(e),
            },
        decreases der@.len(),
    {
        let ghost here = der@;
        let ghost before = found;
        proof {
            lemma_tlv_advances(here);
        }
        let ext = match der.read() {
            Ok(t) => t,
            Err(e) => {
                return Err(e);
            },
        };
        match read_extension(ext.value, out) {
            Ok(_) => {},
            Err(e) => {
                return Err(e);
            },
        }
        proof {
            let names = names_of_extension(ext.value@)->Ok_0;
            found = before + names;
            assert(text::list_view(out@) =~= start + found);
            if let Ok(n) = names_of_extensions(der@) {
                assert(before + (names + n) =~= found + n);
            }
        }
    }
    proof {
        assert(found + Seq::<Seq<char>>::empty() =~= found);
    }
    Ok(())
}

/// The names that the fields behind the public key hold.
fn read_fields(b: &[u8], out: &mut Vec<String>) -> (r: Result<(), String>)
    ensures
        match r {
            Ok(_) => names_of_fields(b@) matches Ok(names) && text::list_view(final(out)@)
                == text::list_view(old(out)@) + names,
            Err(e) => names_of_fields(b@) == Err::<Seq<Seq<char>>, Seq<char>>(e@),
        },
{
    let mut der = Der::new(b);
    let ghost start = text::list_view(out@);
    let ghost mut found: Seq<Seq<char>> = Seq::empty();
    proof {
        assert(start + found =~= start);
        if let Ok(n) = names_of_fields(b@) {
            assert(found + n =~= n);
        }
    }
    while !der.done()
        invariant
            text::list_view(out@) == start + found,
            match names_of_fields(der@) {
                Ok(n) => names_of_fields(b@) == Ok::<Seq<Seq<char>>, Seq<char>>(found + n),
                Err(e) => names_of_fields(b@) == Err::<Seq<Seq<char>>, Seq<char>>(e),
            },
        decreases der@.len(),
    {
        let ghost here = der@;
        let ghost before = found;
        proof {
            lemma_tlv_advances(here);
        }
        let field = match der.read() {
            Ok(t) => t,
            Err(e) => {
                return Err(e);
            },
        };
        if field.tag == 0xa3 {
            let mut wrapper = Der::new(field.value);
            let exts = match wrapper.read() {
                Ok(t) => t,
                Err(e) => {
                    return Err(e);
                },
            };
            match read_extensions(exts.value, out) {
                Ok(_) => {},
                Err(e) => {
                    return Err(e);
                },
            }
            proof {
                let names = names_of_extensions(exts.value@)->Ok_0;
                found = before + names;
                assert(text::list_view(out@) =~= start + found);
                if let Ok(n) = names_of_fields(der@) {
                    assert(before + (names + n) =~= found + n);
                }
            }
        } else {
            proof {
                if let Ok(n) = names_of_fields(der@) {
                    assert(before + (Seq::<Seq<char>>::empty() + n) =~= found + n);
                }
            }
        }
    }
    proof {
        assert(found + Seq::<Seq<char>>::empty() =~= found);
    }
    Ok(())
}

/// The DNS and URI names of a DER certificate, as they stand in it.
pub fn extract_sans(cert_der: &[u8]) -> (r: Result<Vec<String>, String>)
    ensures
        match r {
            Ok(v) => sans_of(cert_der@) == Ok::<Seq<Seq<char>>, Seq<char>>(text::list_view(v@)),
            Err(e) => sans_of(cert_der@) == Err::<Seq<Seq<char>>, Seq<char>>(e@),
        },
{
    let mut top = Der::new(cert_der);
    let cert = match top.read() {
        Ok(t) => t,
        Err(e) => {
            return Err(e);
        },
    };
    let mut cert_seq = Der::new(cert.value);
    let tbs = match cert_seq.read() {
        Ok(t) => t,
        Err(e) => {
            return Err(e);
        },
    };
    let mut tbs_seq = Der::new(tbs.value);
    let first = match tbs_seq.read() {
        Ok(t) => t,
        Err(e) => {
            return Err(e);
        },
    };
    // Behind an optional version: serial number, algorithm, issuer, validity,
    // subject and public key.
    let more: usize = if first.tag == 0xa0 {
        6
    } else {
        5
    };
    let ghost behind = tbs_seq@;
    let mut i: usize = 0;
    while i < more
        invariant
            i <= more,
            skip_elements(tbs_seq@, (more - i) as nat) == skip_elements(behind, more as nat),
            sans_of(cert_der@) == (match skip_elements(behind, more as nat) {
                Err(e) => Err(e),
                Ok(fields) => names_of_fields(fields),
            }),
        decreases more - i,
    {
        match tbs_seq.read() {
            Ok(_) => {},
            Err(e) => {
                return Err(e);
            },
        }
        i += 1;
    }
    let mut out: Vec<String> = Vec::new();
    let fields = tbs_seq.rest();
    match read_fields(fields, &mut out) {
        Ok(_) => {
            proof {
                let names = names_of_fields(fields@)->Ok_0;
                assert(text::list_view(out@) =~= names);
            }
            Ok(out)
        },
        Err(e) => Err(e),
    }
}

/// Whether a value meets a pattern: equal to it, or, where the pattern ends
/// with an asterisk, beginning with what stands before.
pub open spec fn pattern_matches(pattern: Seq<char>, value: Seq<char>) -> bool {
    match text::without_suffix(pattern, "*"@) {
        Some(prefix) => prefix.is_prefix_of(value),
        None => pattern == value,
    }
}

/// Whether a name meets a pattern: equal to it, or beginning with what stands
/// before a trailing asterisk.
pub fn san_matches(pattern: &str, san: &str) -> (r: bool)
    ensures
        r == pattern_matches(pattern@, san@),
{
    match text::strip_suffix(pattern, "*") {
        Some(prefix) => text::starts_with(san, prefix.as_str()),
        None => text::same(pattern, san),
    }
}

// ---------------------------------------------------------------- chains

/// The algorithm that a JWS header names.
pub open spec fn jws_alg(alg: Seq<char>) -> Option<PkiAlg> {
    if alg == "EdDSA"@ {
        Some(PkiAlg::Ed25519)
    } else if alg == "RS256"@ {
        Some(PkiAlg::Rs256)
    } else if alg == "RS384"@ {
        Some(PkiAlg::Rs384)
    } else if alg == "RS512"@ {
        Some(PkiAlg::Rs512)
    } else if alg == "ES256"@ {
        Some(PkiAlg::Es256)
    } else if alg == "ES384"@ {
        Some(PkiAlg::Es384)
    } else {
        None
    }
}

/// The algorithm that a JWS header names.
pub fn jws_alg_to_webpki(alg: &str) -> (r: Option<PkiAlg>)
    ensures
        r == jws_alg(alg@),
{
    if text::same(alg, "EdDSA") {
        Some(PkiAlg::Ed25519)
    } else if text::same(alg, "RS256") {
        Some(PkiAlg::Rs256)
    } else if text::same(alg, "RS384") {
        Some(PkiAlg::Rs384)
    } else if text::same(alg, "RS512") {
        Some(PkiAlg::Rs512)
    } else if text::same(alg, "ES256") {
        Some(PkiAlg::Es256)
    } else if text::same(alg, "ES384") {
        Some(PkiAlg::Es384)
    } else {
        None
    }
}

/// The signature in the form that verification takes: DER for ECDSA.
pub open spec fn wire_signature(alg: PkiAlg, signature: Seq<u8>) -> Option<Seq<u8>> {
    if alg == PkiAlg::Es256 || alg == PkiAlg::Es384 {
        der_signature(signature)
    } else {
        Some(signature)
    }
}

/// The signature in the form that verification takes: DER for ECDSA.
pub fn to_wire_signature(alg: PkiAlg, signature: &[u8]) -> (r: Option<Vec<u8>>)
    ensures
        match r {
            Some(s) => wire_signature(alg, signature@) == Some(s@),
            None => wire_signature(alg, signature@) is None,
        },
{
    match alg {
        PkiAlg::Es256 | PkiAlg::Es384 => ecdsa_fixed_to_der(signature),
        _ => {
            let out = vstd::slice::slice_to_vec(signature);
            proof {
                assert(out@ =~= signature@);
            }
            Some(out)
        },
    }
}

/// The first fault that a root certificate has.
pub open spec fn first_anchor_fault(roots: Seq<Seq<u8>>) -> Option<Seq<char>>
    decreases roots.len(),
{
    if roots.len() == 0 {
        None
    } else {
        match first_anchor_fault(roots.drop_last()) {
            Some(e) => Some(e),
            None => match pki::anchor_of(roots.last()) {
                Ok(_) => None,
                Err(e) => Some(e),
            },
        }
    }
}

/// The first fault that a revocation list has.
pub open spec fn first_crl_fault(crls: Seq<Seq<u8>>) -> Option<Seq<char>>
    decreases crls.len(),
{
    if crls.len() == 0 {
        None
    } else {
        match first_crl_fault(crls.drop_last()) {
            Some(e) => Some(e),
            None => match pki::crl_of(crls.last()) {
                Ok(_) => None,
                Err(e) => Some(e),
            },
        }
    }
}

/// The algorithms that certificates of a chain may be signed with.
pub const CHAIN_ALGS: [ChainAlg; 9] = [
    ChainAlg::Ed25519,
    ChainAlg::P256Sha256,
    ChainAlg::P256Sha384,
    ChainAlg::P384Sha256,
    ChainAlg::P384Sha384,
    ChainAlg::RsaSha256,
    ChainAlg::RsaSha384,
    ChainAlg::RsaSha512,
    ChainAlg::RsaPssSha256,
];

/// The key usage of clients, `1.3.6.1.5.5.7.3.2`, as it is encoded.
pub const CLIENT_AUTH: [u8; 8] = [0x2b, 6, 1, 5, 5, 7, 3, 2];

/// What verifying a signature by a certificate chain finds: the names of the
/// leaf, or what is wrong.
pub open spec fn x5c_verdict(
    chain: Seq<Seq<u8>>,
    roots: Seq<Seq<u8>>,
    crls: Seq<Seq<u8>>,
    now: u64,
    alg: Seq<char>,
    message: Seq<u8>,
    signature: Seq<u8>,
) -> Result<Seq<Seq<char>>, Seq<char>> {
    if chain.len() == 0 {
        Err("empty x5c chain"@)
    } else if roots.len() == 0 {
        Err("no trusted roots configured"@)
    } else if first_anchor_fault(roots) is Some {
        Err("bad CA root: "@ + first_anchor_fault(roots).unwrap())
    } else if pki::leaf_fault(chain[0]) is Some {
        Err("unparseable leaf certificate: "@ + pki::leaf_fault(chain[0]).unwrap())
    } else if first_crl_fault(crls) is Some {
        Err("bad CRL: "@ + first_crl_fault(crls).unwrap())
    } else {
        match pki::chain_fault(
            chain[0],
            chain.skip(1),
            roots,
            crls,
            CHAIN_ALGS@,
            CLIENT_AUTH@,
            now,
        ) {
            Some(e) => Err("certificate chain validation failed: "@ + e),
            None => match jws_alg(alg) {
                None => Err("unsupported x5c JWS alg "@ + alg),
                Some(known) => match wire_signature(known, signature) {
                    None => Err("malformed ECDSA signature"@),
                    Some(wire) => if pki::leaf_verifies(chain[0], known, message, wire) {
                        sans_of(chain[0])
                    } else {
                        Err("assertion signature does not verify with the leaf certificate"@)
                    },
                },
            },
        }
    }
}

fn read_anchors(roots: &[Vec<u8>]) -> (r: Result<Vec<TrustAnchor<'static>>, String>)
    ensures
        match r {
            Ok(v) => first_anchor_fault(text::bytes_view(roots@)) is None && pki::anchors_of(
                text::bytes_view(roots@),
                v@,
            ),
            Err(e) => first_anchor_fault(text::bytes_view(roots@)) == Some(e@),
        },
{
    let ghost all = text::bytes_view(roots@);
    let mut out: Vec<TrustAnchor<'static>> = Vec::new();
    let mut i: usize = 0;
    while i < roots.len()
        invariant
            i <= roots@.len(),
            all == text::bytes_view(roots@),
            first_anchor_fault(all.take(i as int)) is None,
            out@.len() == i,
            forall|j: int|
                0 <= j < i ==> pki::anchor_of(#[trigger] all[j]) == Ok::<
                    TrustAnchor<'static>,
                    Seq<char>,
                >(out@[j]),
        decreases roots@.len() - i,
    {
        proof {
            assert(all.take(i + 1).drop_last() =~= all.take(i as int));
            assert(all.take(i + 1).last() == roots@[i as int]@);
            assert(all[i as int] == roots@[i as int]@);
        }
        match pki::trust_anchor(&roots[i]) {
            Ok(a) => {
                out.push(a);
            },
            Err(e) => {
                proof {
                    lemma_first_anchor(all, i + 1);
                }
                return Err(e);
            },
        }
        i += 1;
    }
    proof {
        assert(all.take(all.len() as int) =~= all);
    }
    Ok(out)
}

proof fn lemma_first_anchor(all: Seq<Seq<u8>>, n: int)
    requires
        0 <= n <= all.len(),
        first_anchor_fault(all.take(n)) is Some,
    ensures
        first_anchor_fault(all) == first_anchor_fault(all.take(n)),
    decreases all.len() - n,
{
    if n < all.len() {
        assert(all.take(n + 1).drop_last() =~= all.take(n));
        lemma_first_anchor(all, n + 1);
    } else {
        assert(all.take(n) =~= all);
    }
}

/// The revocation lists that encodings give, where each of them gives one.
pub open spec fn lists_read<'a>(ders: Seq<Seq<u8>>, lists: Seq<CertRevocationList<'a>>) -> bool {
    ders.len() == lists.len() && forall|i: int|
        0 <= i < ders.len() ==> pki::crl_of(#[trigger] ders[i]) == Ok::<
            CertRevocationList<'a>,
            Seq<char>,
        >(lists[i])
}

fn refer_to<'b, 'a>(lists: &'b Vec<CertRevocationList<'a>>) -> (r: Vec<&'b CertRevocationList<'a>>)
    ensures
        forall|ders: Seq<Seq<u8>>| #[trigger]
            lists_read(ders, lists@) ==> pki::crls_of(ders, r@),
{
    let mut out: Vec<&'b CertRevocationList<'a>> = Vec::new();
    let mut i: usize = 0;
    while i < lists.len()
        invariant
            i <= lists@.len(),
            out@.len() == i,
            forall|j: int| 0 <= j < i ==> *(#[trigger] out@[j]) == lists@[j],
        decreases lists@.len() - i,
    {
        out.push(&lists[i]);
        i += 1;
    }
    out
}

fn certificates<'a>(ders: &'a [Vec<u8>]) -> (r: Vec<CertificateDer<'a>>)
    ensures
        pki::certificates_of(text::bytes_view(ders@), r@),
{
    let mut out: Vec<CertificateDer<'a>> = Vec::new();
    let mut i: usize = 0;
    while i < ders.len()
        invariant
            i <= ders@.len(),
            out@.len() == i,
            forall|j: int|
                0 <= j < i ==> pki::certificate_of(ders@[j]@) == #[trigger] out@[j],
        decreases ders@.len() - i,
    {
        out.push(pki::certificate(ders[i].as_slice()));
        i += 1;
    }
    proof {
        let all = text::bytes_view(ders@);
        assert forall|j: int| 0 <= j < all.len() implies pki::certificate_of(#[trigger] all[j])
            == out@[j] by {
            assert(all[j] == ders@[j]@);
        }
    }
    out
}

fn read_crls<'a>(crls: &'a [Vec<u8>]) -> (r: Result<Vec<CertRevocationList<'a>>, String>)
    ensures
        match r {
            Ok(v) => first_crl_fault(text::bytes_view(crls@)) is None && lists_read(
                text::bytes_view(crls@),
                v@,
            ),
            Err(e) => first_crl_fault(text::bytes_view(crls@)) == Some(e@),
        },
{
    let ghost all = text::bytes_view(crls@);
    let mut out: Vec<CertRevocationList<'a>> = Vec::new();
    let mut i: usize = 0;
    while i < crls.len()
        invariant
            i <= crls@.len(),
            all == text::bytes_view(crls@),
            first_crl_fault(all.take(i as int)) is None,
            out@.len() == i,
            forall|j: int|
                0 <= j < i ==> pki::crl_of(#[trigger] all[j]) == Ok::<
                    CertRevocationList<'a>,
                    Seq<char>,
                >(out@[j]),
        decreases crls@.len() - i,
    {
        proof {
            assert(all.take(i + 1).drop_last() =~= all.take(i as int));
            assert(all.take(i + 1).last() == crls@[i as int]@);
            assert(all[i as int] == crls@[i as int]@);
        }
        match pki::revocation_list(crls[i].as_slice()) {
            Ok(l) => {
                out.push(l);
            },
            Err(e) => {
                proof {
                    lemma_first_crl(all, i + 1);
                }
                return Err(e);
            },
        }
        i += 1;
    }
    proof {
        assert(all.take(all.len() as int) =~= all);
    }
    Ok(out)
}

proof fn lemma_first_crl(all: Seq<Seq<u8>>, n: int)
    requires
        0 <= n <= all.len(),
        first_crl_fault(all.take(n)) is Some,
    ensures
        first_crl_fault(all) == first_crl_fault(all.take(n)),
    decreases all.len() - n,
{
    if n < all.len() {
        assert(all.take(n + 1).drop_last() =~= all.take(n));
        lemma_first_crl(all, n + 1);
    } else {
        assert(all.take(n) =~= all);
    }
}

/// Validates a certificate chain (leaf first) to trusted roots at a time, with
/// optional revocation lists, and verifies a signature with the key of the
/// leaf. The result is the leaf's DNS and URI names.
pub fn verify_x5c_jws(
    chain_der: &[Vec<u8>],
    roots_der: &[Vec<u8>],
    crls_der: &[Vec<u8>],
    now: u64,
    alg: &str,
    message: &[u8],
    signature: &[u8],
) -> (r: Result<Vec<String>, String>)
    ensures
        ({
            let verdict = x5c_verdict(
                text::bytes_view(chain_der@),
                text::bytes_view(roots_der@),
                text::bytes_view(crls_der@),
                now,
                alg@,
                message@,
                signature@,
            );
            match r {
                Ok(v) => verdict == Ok::<Seq<Seq<char>>, Seq<char>>(text::list_view(v@)),
                Err(e) => verdict == Err::<Seq<Seq<char>>, Seq<char>>(e@),
            }
        }),
{
    let ghost chain = text::bytes_view(chain_der@);
    proof {
        assert(chain.len() == chain_der@.len());
        assert(text::bytes_view(roots_der@).len() == roots_der@.len());
    }
    if chain_der.len() == 0 {
        return Err("empty x5c chain".to_owned());
    }
    if roots_der.len() == 0 {
        return Err("no trusted roots configured".to_owned());
    }
    let anchors = match read_anchors(roots_der) {
        Ok(v) => v,
        Err(e) => {
            return Err(text::join2("bad CA root: ", e.as_str()));
        },
    };
    let leaf = chain_der[0].as_slice();
    proof {
        assert(chain[0] == leaf@);
    }
    if let Err(e) = pki::check_leaf(leaf) {
        return Err(text::join2("unparseable leaf certificate: ", e.as_str()));
    }
    let crls = match read_crls(crls_der) {
        Ok(v) => v,
        Err(e) => {
            return Err(text::join2("bad CRL: ", e.as_str()));
        },
    };
    let mids = vstd::slice::slice_subrange(chain_der, 1, chain_der.len());
    proof {
        assert(text::bytes_view(mids@) =~= chain.skip(1));
    }
    let first = pki::certificate(leaf);
    let rest = certificates(mids);
    let lists = refer_to(&crls);
    proof {
        assert(pki::leaf_fault(chain[0]) is None);
        assert(pki::certificates_of(chain.skip(1), rest@));
        assert(pki::crls_of(text::bytes_view(crls_der@), lists@));
    }
    let chained = pki::check_chain(&first, &rest, &anchors, &lists, CHAIN_ALGS, &CLIENT_AUTH, now);
    if let Err(e) = chained {
        return Err(text::join2("certificate chain validation failed: ", e.as_str()));
    }
    let known = match jws_alg_to_webpki(alg) {
        Some(known) => known,
        None => {
            return Err(text::join2("unsupported x5c JWS alg ", alg));
        },
    };
    let wire = match to_wire_signature(known, signature) {
        Some(wire) => wire,
        None => {
            return Err("malformed ECDSA signature".to_owned());
        },
    };
    if !pki::verify_with_leaf(leaf, known, message, &wire) {
        return Err("assertion signature does not verify with the leaf certificate".to_owned());
    }
    extract_sans(leaf)
}

// ------------------------------------------------------------------ laws

/// A pattern without an asterisk is met by itself alone; one with an asterisk at its
/// end by what begins with the rest.
pub proof fn law_pattern(pattern: Seq<char>, value: Seq<char>)
    ensures
        !pattern.contains('*') ==> pattern_matches(pattern, value) == (pattern == value),
        pattern_matches(pattern.push('*'), value) == pattern.is_prefix_of(value),
{
    reveal_strlit("*");
    assert("*"@ =~= seq!['*']);
    let longer = pattern.push('*');
    assert(longer.skip(longer.len() - 1) =~= "*"@);
    assert(longer.take(longer.len() - 1) =~= pattern);
    if !pattern.contains('*') && "*"@.is_suffix_of(pattern) {
        assert("*"@ =~= pattern.skip(pattern.len() - 1));
        assert(pattern[pattern.len() - 1] == pattern.skip(pattern.len() - 1)[0]);
        assert(pattern.contains(pattern[pattern.len() - 1]));
    }
}

/// A signature of two numbers of equal width becomes a sequence of two integers;
/// one of odd length is none.
pub proof fn law_signature_in_der(r: Seq<u8>, s: Seq<u8>)
    requires
        0 < r.len() == s.len() <= 60,
        0 < r[0] < 128,
        0 < s[0] < 128,
    ensures
        der_signature(r + s) == Some(
            seq![0x30u8, (r.len() + s.len() + 4) as u8] + (seq![0x02u8, r.len() as u8] + r + (
            seq![0x02u8, s.len() as u8] + s)),
        ),
        der_signature((r + s).push(0)) is None,
        der_signature(Seq::empty()) is None,
{
    let both = r + s;
    assert(both.take(r.len() as int) =~= r);
    assert(both.skip(r.len() as int) =~= s);
    assert(both.len() / 2 == r.len());
}

/// An integer loses its leading zeros, and gets one where its top bit is set.
pub proof fn law_der_integer(v: Seq<u8>)
    requires
        0 < v.len() < 127,
    ensures
        v[0] >= 128 ==> der_integer(v) == seq![0x02u8, (v.len() + 1) as u8, 0x00u8] + v,
        0 < v[0] < 128 ==> der_integer(v) == seq![0x02u8, v.len() as u8] + v,
        der_integer(seq![0x00u8] + v) == der_integer(v),
{
    assert((seq![0x00u8] + v).drop_first() =~= v);
}

/// An element is its tag, its length and its contents: a length below 128 in one
/// byte, else in as many as the first one says, four at most.
pub proof fn law_der_element(tag: u8, value: Seq<u8>, rest: Seq<u8>)
    ensures
        value.len() < 128 ==> tlv(seq![tag, value.len() as u8] + value + rest) == Ok::<
            (TlvView, Seq<u8>),
            Seq<char>,
        >((TlvView { tag, value }, rest)),
        value.len() < 256 ==> tlv(seq![tag, 0x81u8, value.len() as u8] + value + rest) == Ok::<
            (TlvView, Seq<u8>),
            Seq<char>,
        >((TlvView { tag, value }, rest)),
        tlv(seq![tag, 0x80u8] + rest) is Err,
        tlv(seq![tag, 0x85u8] + rest) is Err,
        tlv(Seq::empty()) is Err,
{
    if value.len() < 128 {
        let b = seq![tag, value.len() as u8] + value + rest;
        assert(b.subrange(2, 2 + value.len() as int) =~= value);
        assert(b.skip(2 + value.len() as int) =~= rest);
    }
    if value.len() < 256 {
        let b = seq![tag, 0x81u8, value.len() as u8] + value + rest;
        let n = b.subrange(2, 3);
        assert(n =~= seq![value.len() as u8]);
        assert(n.drop_last() =~= Seq::<u8>::empty());
        assert(big_endian(n) == value.len()) by {
            reveal_with_fuel(big_endian, 2);
        }
        assert(b.subrange(3, 3 + value.len() as int) =~= value);
        assert(b.skip(3 + value.len() as int) =~= rest);
    }
}

/// Big-endian bytes denote the number that their places say.
pub proof fn law_big_endian(b: Seq<u8>, c: u8)
    ensures
        big_endian(Seq::empty()) == 0,
        big_endian(b.push(c)) == 256 * big_endian(b) + c,
{
    assert(b.push(c).drop_last() =~= b);
}

/// Of general names the DNS names and the URIs count, and only these.
pub proof fn law_general_names(b: Seq<u8>, name: TlvView, rest: Seq<u8>, more: Seq<Seq<char>>)
    requires
        b.len() > 0,
        tlv(b) == Ok::<(TlvView, Seq<u8>), Seq<char>>((name, rest)),
        names_in(rest) == Ok::<Seq<Seq<char>>, Seq<char>>(more),
    ensures
        name.tag == 0x82 || name.tag == 0x86 ==> (text::utf8_text(name.value) matches Some(s)
            ==> names_in(b) == Ok::<Seq<Seq<char>>, Seq<char>>(seq![s] + more)),
        name.tag != 0x82 && name.tag != 0x86 ==> names_in(b) == Ok::<Seq<Seq<char>>, Seq<char>>(more),
        names_in(Seq::empty()) == Ok::<Seq<Seq<char>>, Seq<char>>(Seq::empty()),
{
}

/// A signature by a chain is accepted only where there are a chain and roots, the
/// chain leads to a root at the time, for clients and by the accepted algorithms,
/// nothing of it is revoked, and the leaf's key verifies; what is found are the
/// leaf's names.
pub proof fn law_chain_verdict(
    chain: Seq<Seq<u8>>,
    roots: Seq<Seq<u8>>,
    crls: Seq<Seq<u8>>,
    now: u64,
    alg: Seq<char>,
    message: Seq<u8>,
    signature: Seq<u8>,
)
    ensures
        x5c_verdict(chain, roots, crls, now, alg, message, signature) matches Ok(names) ==> {
            &&& chain.len() > 0
            &&& roots.len() > 0
            &&& first_anchor_fault(roots) is None
            &&& first_crl_fault(crls) is None
            &&& pki::leaf_fault(chain[0]) is None
            &&& pki::chain_fault(
                chain[0],
                chain.skip(1),
                roots,
                crls,
                CHAIN_ALGS@,
                CLIENT_AUTH@,
                now,
            ) is None
            &&& sans_of(chain[0]) == Ok::<Seq<Seq<char>>, Seq<char>>(names)
            &&& (jws_alg(alg) matches Some(known) && (wire_signature(known, signature) matches Some(
                wire,
            ) && pki::leaf_verifies(chain[0], known, message, wire)))
        },
        chain.len() == 0 || roots.len() == 0 ==> x5c_verdict(
            chain,
            roots,
            crls,
            now,
            alg,
            message,
            signature,
        ) is Err,
{
}

/// Roots and revocation lists are in order exactly where each of them is.
pub proof fn law_roots_and_lists(roots: Seq<Seq<u8>>, r: Seq<u8>)
    ensures
        first_anchor_fault(roots.push(r)) is None == (first_anchor_fault(roots) is None
            && pki::anchor_of(r) is Ok),
        first_crl_fault(roots.push(r)) is None == (first_crl_fault(roots) is None && pki::crl_of(
            r,
        ) is Ok),
        first_anchor_fault(Seq::empty()) is None,
        first_crl_fault(Seq::empty()) is None,
{
    assert(roots.push(r).drop_last() =~= roots);
}

/// The key usage that is asked of a leaf is that of clients.
pub proof fn law_client_usage(i: int)
    ensures
        CLIENT_AUTH@ == seq![0x2bu8, 6, 1, 5, 5, 7, 3, 2],
{
    assert(CLIENT_AUTH@ =~= seq![0x2bu8, 6, 1, 5, 5, 7, 3, 2]);
}

/// How PEM blocks of a kind begin and end.
pub proof fn law_pem_lines(kind: Seq<char>)
    ensures
        pem_begin(kind) == "-----BEGIN "@ + kind + "-----"@,
        pem_end(kind) == "-----END "@ + kind + "-----"@,
{
}

/// A text is read block by block: what stands between the two lines is base64
/// with white space in it.
pub proof fn law_pem_block(s: Seq<char>, kind: Seq<char>)
    ensures
        text::text_position(s, pem_begin(kind)) is None ==> pem_in(s, kind).len() == 0,
        text::text_position(s, pem_begin(kind)) matches Some(i) ==> ({
            let after = s.skip((i + pem_begin(kind).len()) as int);
            &&& text::text_position(after, pem_end(kind)) is None ==> pem_in(s, kind).len() == 0
            &&& text::text_position(after, pem_end(kind)) matches Some(j) ==> (b64::decoded_std(
                text::without_white(after.take(j as int)),
            ) matches Some(der) ==> pem_in(s, kind) == seq![der] + pem_in(
                after.skip((j + pem_end(kind).len()) as int),
                kind,
            ))
        }),
{
}

} // verus!
