//! Requests that are signed and sent: to a Person Server, and by an agent.

use vstd::prelude::*;

use crate::b64;
use crate::crypto;
use crate::crypto::SigningKey;
use crate::problem;
use crate::sig;
use crate::sig::{PartsView, RequestParts, SignedView};
use crate::text;

verus! {

/// The digest of a body, as its header has it.
pub open spec fn digest_text(body: Seq<u8>) -> Seq<char> {
    "sha-256=:"@ + b64::encoded_std(crypto::sha256_of(body)) + ":"@
}

/// The digest of a body, as its header has it.
pub fn content_digest(body: &[u8]) -> (r: String)
    ensures
        r@ == digest_text(body@),
{
    let sum = crypto::sha256(body);
    text::join3("sha-256=:", b64::encode_std(&sum).as_str(), ":")
}

/// The headers that describe a body.
pub open spec fn body_headers(body: Option<Seq<u8>>) -> Seq<(Seq<char>, Seq<char>)> {
    match body {
        Some(b) => seq![
            ("content-type"@, "application/json"@),
            ("content-digest"@, digest_text(b)),
        ],
        None => Seq::empty(),
    }
}

/// The components that the signature on a request with a body covers besides
/// the usual ones.
pub open spec fn body_components(body: Option<Seq<u8>>) -> Seq<Seq<char>> {
    if body is Some {
        seq!["content-type"@, "content-digest"@]
    } else {
        Seq::empty()
    }
}

/// The parts of a request without a query.
pub open spec fn call_parts(
    method: Seq<char>,
    authority: Seq<char>,
    path: Seq<char>,
    body: Option<Seq<u8>>,
) -> PartsView {
    PartsView { method, authority, path, query: Seq::empty(), headers: body_headers(body) }
}

/// All headers of a signed request.
pub open spec fn all_headers(body: Option<Seq<u8>>, s: SignedView) -> Seq<(Seq<char>, Seq<char>)> {
    body_headers(body) + seq![
        ("signature-input"@, s.signature_input),
        ("signature"@, s.signature),
        ("signature-key"@, s.signature_key),
    ]
}

/// The headers of a signed request. `scheme` names the key that it is signed
/// with. A body is covered by the signature.
pub fn signed_call(
    method: &str,
    authority: &str,
    path: &str,
    body: Option<&Vec<u8>>,
    scheme: &str,
    key: &SigningKey,
    now: u64,
) -> (r: Vec<(String, String)>)
    ensures
        ({
            let b = match body {
                Some(x) => Some(x@),
                None => None,
            };
            let signed = sig::signed_headers(
                call_parts(method@, authority@, path@, b),
                body_components(b),
                scheme@,
                key@,
                now,
            );
            signed matches Some(s) && problem::headers_view(r@) == all_headers(b, s)
        }),
{
    let mut headers: Vec<(String, String)> = Vec::new();
    let mut extra: Vec<String> = Vec::new();
    let ghost b: Option<Seq<u8>> = match body {
        Some(x) => Some(x@),
        None => None,
    };
    if let Some(bytes) = body {
        headers.push(("content-type".to_owned(), "application/json".to_owned()));
        headers.push(("content-digest".to_owned(), content_digest(bytes.as_slice())));
        extra.push("content-type".to_owned());
        extra.push("content-digest".to_owned());
    }
    proof {
        reveal_strlit("");
        assert(""@ =~= Seq::<char>::empty());
        assert(problem::headers_view(headers@) =~= body_headers(b));
        assert(text::list_view(extra@) =~= body_components(b));
    }
    let parts = RequestParts { method, authority, path, query: "", headers: &headers };
    let signed = match sig::sign_request(&parts, &extra, scheme, key, now) {
        Ok(s) => s,
        Err(_) => {
            proof {
                law_call_is_signed(method@, authority@, path@, b, scheme@, key@, now);
            }
            return headers;
        },
    };
    let ghost shown = signed@;
    let ghost before = headers@;
    headers.push(("signature-input".to_owned(), signed.signature_input));
    headers.push(("signature".to_owned(), signed.signature));
    headers.push(("signature-key".to_owned(), signed.signature_key));
    proof {
        assert(problem::headers_view(headers@) =~= all_headers(b, shown));
    }
    headers
}

/// A request that is sent is always signed: nothing that its signature covers
/// is missing from it.
pub proof fn law_call_is_signed(
    method: Seq<char>,
    authority: Seq<char>,
    path: Seq<char>,
    body: Option<Seq<u8>>,
    scheme: Seq<char>,
    seed: Seq<u8>,
    now: u64,
)
    ensures
        sig::signed_headers(
            call_parts(method, authority, path, body),
            body_components(body),
            scheme,
            seed,
            now,
        ) is Some,
{
    let p = sig::with_key_header(call_parts(method, authority, path, body), scheme);
    let covered = sig::usual_components() + body_components(body);
    let n = p.headers.len();
    assert(p.headers[n - 1].0 == "signature-key"@);
    reveal_strlit("@");
    reveal_strlit("signature-key");
    reveal_strlit("content-type");
    reveal_strlit("content-digest");
    assert forall|i: int| 0 <= i < covered.len() implies sig::component(
        p,
        #[trigger] covered[i],
    ) is Some by {
        if i == 3 {
            assert(covered[i] == "signature-key"@);
            assert("signature-key"@.subrange(0, 1)[0] == 's');
            lemma_header_present(p.headers, n - 1);
        } else if i >= 4 {
            assert(covered[i] == body_components(body)[i - 4]);
            assert(covered[i][0] == 'c');
            assert(covered[i].subrange(0, 1)[0] == 'c');
            assert(p.headers[i - 4].0 == covered[i]);
            lemma_header_present(p.headers, i - 4);
        }
    }
    lemma_all_lines(p, covered);
}

proof fn lemma_header_present(headers: Seq<(Seq<char>, Seq<char>)>, i: int)
    requires
        0 <= i < headers.len(),
    ensures
        sig::header_values(headers, headers[i].0).len() > 0,
    decreases headers.len(),
{
    if i < headers.len() - 1 {
        assert(headers.drop_last()[i] == headers[i]);
        lemma_header_present(headers.drop_last(), i);
    }
}

proof fn lemma_all_lines(p: PartsView, covered: Seq<Seq<char>>)
    requires
        forall|i: int| 0 <= i < covered.len() ==> sig::component(p, #[trigger] covered[i]) is Some,
    ensures
        sig::base_lines(p, covered) is Some,
    decreases covered.len(),
{
    if covered.len() > 0 {
        let less = covered.drop_last();
        assert forall|i: int| 0 <= i < less.len() implies sig::component(
            p,
            #[trigger] less[i],
        ) is Some by {
            assert(less[i] == covered[i]);
        }
        lemma_all_lines(p, less);
        assert(covered.last() == covered[covered.len() - 1]);
    }
}

/// The digest of a body is its SHA-256 in padded base64, between colons.
pub proof fn law_digest(body: Seq<u8>)
    ensures
        digest_text(body) == "sha-256=:"@ + b64::encoded_std(crypto::sha256_of(body)) + ":"@,
{
}

/// A body is sent with its type and its digest, and the signature covers both; a
/// request without a body has neither.
pub proof fn law_body_is_covered(body: Seq<u8>)
    ensures
        body_headers(Some(body)) == seq![
            ("content-type"@, "application/json"@),
            ("content-digest"@, digest_text(body)),
        ],
        body_components(Some(body)) == seq!["content-type"@, "content-digest"@],
        body_headers(None).len() == 0,
        body_components(None).len() == 0,
{
}

/// What is signed of a call are its own method, authority and path and the
/// headers of its body; the three headers of the signature are sent besides.
pub proof fn law_call(
    method: Seq<char>,
    authority: Seq<char>,
    path: Seq<char>,
    body: Option<Seq<u8>>,
    s: SignedView,
)
    ensures
        call_parts(method, authority, path, body).method == method,
        call_parts(method, authority, path, body).authority == authority,
        call_parts(method, authority, path, body).path == path,
        call_parts(method, authority, path, body).query.len() == 0,
        call_parts(method, authority, path, body).headers == body_headers(body),
        all_headers(body, s) == body_headers(body) + seq![
            ("signature-input"@, s.signature_input),
            ("signature"@, s.signature),
            ("signature-key"@, s.signature_key),
        ],
{
}

} // verus!
