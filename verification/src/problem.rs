//! What the server answers: JSON replies, and errors as RFC 9457 problem
//! documents with the AAuth member `error` and, for a refused signature, the
//! `Signature-Error` header.

use vstd::prelude::*;

use crate::decimal;
use crate::json;
use crate::json::{Json, JsonValue};
use crate::jwk::ALG_ED25519;
use crate::sig;
use crate::sig::{SigError, SigErrorCode, SigErrorView};
use crate::storage::StorageError;
use crate::text;

verus! {

pub const OK: u16 = 200;

pub const CREATED: u16 = 201;

pub const ACCEPTED: u16 = 202;

pub const NO_CONTENT: u16 = 204;

pub const BAD_REQUEST: u16 = 400;

pub const UNAUTHORIZED: u16 = 401;

pub const FORBIDDEN: u16 = 403;

pub const NOT_FOUND: u16 = 404;

pub const PAYLOAD_TOO_LARGE: u16 = 413;

pub const TOO_MANY_REQUESTS: u16 = 429;

pub const INTERNAL_SERVER_ERROR: u16 = 500;

/// What a list of headers holds.
pub open spec fn headers_view(s: Seq<(String, String)>) -> Seq<(Seq<char>, Seq<char>)> {
    s.map_values(|h: (String, String)| (h.0@, h.1@))
}

/// An answer.
pub struct Resp {
    pub status: u16,
    pub headers: Vec<(String, String)>,
    pub body: String,
}

/// What an answer holds.
pub struct RespView {
    pub status: u16,
    pub headers: Seq<(Seq<char>, Seq<char>)>,
    pub body: Seq<char>,
}

impl Resp {
    /// What the answer holds.
    pub open spec fn view(&self) -> RespView {
        RespView { status: self.status, headers: headers_view(self.headers@), body: self.body@ }
    }
}

/// An error that is answered as a problem document.
#[derive(Debug)]
pub struct ApiError {
    pub status: u16,
    pub error: String,
    pub detail: String,
    pub headers: Vec<(String, String)>,
}

/// What an error holds.
pub struct ApiErrorView {
    pub status: u16,
    pub error: Seq<char>,
    pub detail: Seq<char>,
    pub headers: Seq<(Seq<char>, Seq<char>)>,
}

/// An error without headers of its own.
pub open spec fn api_error(status: u16, error: Seq<char>, detail: Seq<char>) -> ApiErrorView {
    ApiErrorView { status, error, detail, headers: Seq::empty() }
}

/// A bad request.
pub open spec fn bad_request(error: Seq<char>, detail: Seq<char>) -> ApiErrorView {
    api_error(BAD_REQUEST, error, detail)
}

/// A denial.
pub open spec fn forbidden(error: Seq<char>, detail: Seq<char>) -> ApiErrorView {
    api_error(FORBIDDEN, error, detail)
}

/// Something that is not there.
pub open spec fn not_found(error: Seq<char>, detail: Seq<char>) -> ApiErrorView {
    api_error(NOT_FOUND, error, detail)
}

/// A failure of the server.
pub open spec fn server_error(detail: Seq<char>) -> ApiErrorView {
    api_error(INTERNAL_SERVER_ERROR, "server_error"@, detail)
}

/// `s` with a backslash before each quotation mark and backslash.
pub open spec fn escaped(s: Seq<char>) -> Seq<char>
    decreases s.len(),
{
    if s.len() == 0 {
        Seq::empty()
    } else if s.last() == '"' || s.last() == '\\' {
        escaped(s.drop_last()).push('\\').push(s.last())
    } else {
        escaped(s.drop_last()).push(s.last())
    }
}

/// A structured-field string.
pub open spec fn quoted(s: Seq<char>) -> Seq<char> {
    "\""@ + escaped(s) + "\""@
}

/// Structured-field strings.
pub open spec fn quoted_all(s: Seq<Seq<char>>) -> Seq<Seq<char>> {
    s.map_values(|t: Seq<char>| quoted(t))
}

/// The `Signature-Error` header.
pub open spec fn signature_error(e: SigErrorView) -> Seq<char> {
    let head = "error="@ + sig::code_name(e.code);
    match (e.code, e.required_input) {
        (SigErrorCode::InvalidInput, Some(required)) => head + ", required_input=("@
            + text::joined(quoted_all(required), " "@) + ")"@,
        _ => head,
    }
}

/// The error that a refused signature is answered with: 401 and the
/// `Signature-Error` header, and the algorithm that is accepted where another
/// one was used. A request that could not be judged is a bad request, and
/// carries no such header.
pub open spec fn refused(e: SigErrorView) -> ApiErrorView {
    let first = ("signature-error"@, signature_error(e));
    ApiErrorView {
        status: if e.code == SigErrorCode::InvalidRequest {
            BAD_REQUEST
        } else {
            UNAUTHORIZED
        },
        error: sig::code_name(e.code),
        detail: e.detail,
        headers: if e.code == SigErrorCode::InvalidRequest {
            Seq::empty()
        } else if e.code == SigErrorCode::UnsupportedAlgorithm {
            seq![first, ("accept-signature-alg"@, "Ed25519"@)]
        } else {
            seq![first]
        },
    }
}

/// The problem document of an error.
pub open spec fn problem_json(e: ApiErrorView) -> Json {
    Json::Obj(
        Map::<Seq<char>, Json>::empty().insert(
            "type"@,
            Json::Str("urn:ietf:params:sig-error:"@ + e.error),
        ).insert("error"@, Json::Str(e.error)).insert("detail"@, Json::Str(e.detail)).insert(
            "status"@,
            Json::Int(e.status as int),
        ),
    )
}

/// The answer that an error is given.
pub open spec fn problem_response(e: ApiErrorView) -> RespView {
    RespView {
        status: e.status,
        headers: seq![
            ("content-type"@, "application/problem+json"@),
            ("cache-control"@, "no-store"@),
        ] + e.headers,
        body: json::json_text(problem_json(e)),
    }
}

/// A JSON answer that is not kept.
pub open spec fn json_answer(status: u16, v: Json) -> RespView {
    RespView {
        status,
        headers: seq![("content-type"@, "application/json"@), ("cache-control"@, "no-store"@)],
        body: json::json_text(v),
    }
}

/// The structured-field string that stands for `s`.
pub fn serialize_string(s: &str) -> (r: String)
    ensures
        r@ == quoted(s@),
{
    let chars = text::to_chars(s);
    let mut out: Vec<char> = Vec::new();
    let mut i: usize = 0;
    proof {
        assert(chars@.take(0) =~= Seq::empty());
    }
    while i < chars.len()
        invariant
            i <= chars@.len(),
            out@ == escaped(chars@.take(i as int)),
        decreases chars@.len() - i,
    {
        proof {
            assert(chars@.take(i + 1).drop_last() =~= chars@.take(i as int));
            assert(chars@.take(i + 1).last() == chars@[i as int]);
        }
        if chars[i] == '"' || chars[i] == '\\' {
            out.push('\\');
        }
        out.push(chars[i]);
        i += 1;
    }
    proof {
        assert(chars@.take(chars@.len() as int) =~= chars@);
    }
    text::join3("\"", text::from_chars(out.as_slice()).as_str(), "\"")
}

/// The structured-field strings that stand for some texts.
pub fn serialize_all(v: &Vec<String>) -> (r: Vec<String>)
    ensures
        text::list_view(r@) == quoted_all(text::list_view(v@)),
{
    let mut out: Vec<String> = Vec::new();
    let mut i: usize = 0;
    while i < v.len()
        invariant
            i <= v@.len(),
            out@.len() == i,
            forall|j: int| 0 <= j < i ==> (#[trigger] out@[j])@ == quoted(v@[j]@),
        decreases v@.len() - i,
    {
        out.push(serialize_string(v[i].as_str()));
        i += 1;
    }
    proof {
        assert(text::list_view(out@) =~= quoted_all(text::list_view(v@)));
    }
    out
}

fn one_header(name: &str, value: String) -> (r: Vec<(String, String)>)
    ensures
        headers_view(r@) == seq![(name@, value@)],
{
    let r: Vec<(String, String)> = vec![(name.to_owned(), value)];
    proof {
        assert(headers_view(r@) =~= seq![(name@, value@)]);
    }
    r
}

impl ApiError {
    /// What the error holds.
    pub open spec fn view(&self) -> ApiErrorView {
        ApiErrorView {
            status: self.status,
            error: self.error@,
            detail: self.detail@,
            headers: headers_view(self.headers@),
        }
    }

    /// An error.
    pub fn new(status: u16, error: &str, detail: &str) -> (r: ApiError)
        ensures
            r@ == api_error(status, error@, detail@),
    {
        let r = ApiError {
            status,
            error: error.to_owned(),
            detail: detail.to_owned(),
            headers: Vec::new(),
        };
        proof {
            assert(headers_view(r.headers@) =~= Seq::empty());
        }
        r
    }

    /// A bad request.
    pub fn bad_request(error: &str, detail: &str) -> (r: ApiError)
        ensures
            r@ == bad_request(error@, detail@),
    {
        ApiError::new(BAD_REQUEST, error, detail)
    }

    /// A denial.
    pub fn forbidden(error: &str, detail: &str) -> (r: ApiError)
        ensures
            r@ == forbidden(error@, detail@),
    {
        ApiError::new(FORBIDDEN, error, detail)
    }

    /// Something that is not there.
    pub fn not_found(error: &str, detail: &str) -> (r: ApiError)
        ensures
            r@ == not_found(error@, detail@),
    {
        ApiError::new(NOT_FOUND, error, detail)
    }

    /// A failure of the server.
    pub fn server_error(detail: &str) -> (r: ApiError)
        ensures
            r@ == server_error(detail@),
    {
        ApiError::new(INTERNAL_SERVER_ERROR, "server_error", detail)
    }

    /// The error that a refused signature is answered with.
    pub fn from_sig_error(err: SigError) -> (r: ApiError)
        ensures
            r@ == refused(err@),
    {
        if err.code == SigErrorCode::InvalidRequest {
            return ApiError::new(BAD_REQUEST, err.code.as_str(), err.detail.as_str());
        }
        let mut header = text::join2("error=", err.code.as_str());
        if err.code == SigErrorCode::InvalidInput {
            if let Some(required) = &err.required_input {
                let inner = serialize_all(required);
                header.append(", required_input=(");
                header.append(text::join(inner.as_slice(), " ").as_str());
                header.append(")");
            }
        }
        let mut headers = one_header("signature-error", header);
        if err.code == SigErrorCode::UnsupportedAlgorithm {
            let ghost first = headers@;
            headers.push(("accept-signature-alg".to_owned(), ALG_ED25519.to_owned()));
            proof {
                assert(headers_view(headers@) =~= headers_view(first).push(
                    ("accept-signature-alg"@, "Ed25519"@),
                ));
            }
        }
        let r = ApiError {
            status: UNAUTHORIZED,
            error: err.code.as_str().to_owned(),
            detail: err.detail,
            headers,
        };
        proof {
            assert(r@.headers =~= refused(err@).headers);
        }
        r
    }

    /// The error that a failure of the storage is answered with.
    pub fn from_storage(e: &StorageError) -> (r: ApiError)
        ensures
            r@ == server_error("storage error: "@ + e.0@),
    {
        ApiError::server_error(e.message().as_str())
    }

    /// The answer that the error is given.
    pub fn into_response(self) -> (r: Resp)
        ensures
            r@ == problem_response(self@),
    {
        let body = JsonValue::object().with(
            "type",
            JsonValue::Text(text::join2("urn:ietf:params:sig-error:", self.error.as_str())),
        ).with("error", JsonValue::string(self.error.as_str())).with(
            "detail",
            JsonValue::string(self.detail.as_str()),
        ).with("status", JsonValue::number(self.status as u64));
        let mut headers: Vec<(String, String)> = vec![
            ("content-type".to_owned(), "application/problem+json".to_owned()),
            ("cache-control".to_owned(), "no-store".to_owned()),
        ];
        let ghost first = headers@;
        let mut own = self.headers;
        let ghost more = own@;
        headers.append(&mut own);
        proof {
            assert(headers_view(headers@) =~= headers_view(first) + headers_view(more));
            assert(headers_view(first) =~= seq![
                ("content-type"@, "application/problem+json"@),
                ("cache-control"@, "no-store"@),
            ]);
        }
        Resp { status: self.status, headers, body: body.render() }
    }
}

/// A JSON answer that is not kept.
pub fn json_response(status: u16, value: &JsonValue) -> (r: Resp)
    ensures
        r@ == json_answer(status, value@),
{
    let headers: Vec<(String, String)> = vec![
        ("content-type".to_owned(), "application/json".to_owned()),
        ("cache-control".to_owned(), "no-store".to_owned()),
    ];
    proof {
        assert(headers_view(headers@) =~= seq![
            ("content-type"@, "application/json"@),
            ("cache-control"@, "no-store"@),
        ]);
    }
    Resp { status, headers, body: value.render() }
}

/// A JSON answer of success.
pub fn json_ok(value: &JsonValue) -> (r: Resp)
    ensures
        r@ == json_answer(OK, value@),
{
    json_response(OK, value)
}

/// A JSON document that may be kept for a time.
pub fn json_cacheable(body: &str, max_age_secs: u32) -> (r: Resp)
    ensures
        r@ == (RespView {
            status: OK,
            headers: seq![
                ("content-type"@, "application/json"@),
                ("cache-control"@, "public, max-age="@ + decimal::numeral(max_age_secs as nat)),
            ],
            body: body@,
        }),
{
    let age = decimal::unsigned(max_age_secs as u64);
    let headers: Vec<(String, String)> = vec![
        ("content-type".to_owned(), "application/json".to_owned()),
        ("cache-control".to_owned(), text::join2("public, max-age=", age.as_str())),
    ];
    proof {
        assert(headers_view(headers@) =~= seq![
            ("content-type"@, "application/json"@),
            ("cache-control"@, "public, max-age="@ + decimal::numeral(max_age_secs as nat)),
        ]);
    }
    Resp { status: OK, headers, body: body.to_owned() }
}

/// An answer without a body.
pub fn empty_status(status: u16) -> (r: Resp)
    ensures
        r@ == (RespView { status, headers: Seq::empty(), body: Seq::empty() }),
{
    let headers: Vec<(String, String)> = Vec::new();
    let body = "".to_owned();
    proof {
        reveal_strlit("");
        assert(headers_view(headers@) =~= Seq::empty());
        assert(body@ =~= Seq::empty());
    }
    Resp { status, headers, body }
}

/// A denial never carries a `Signature-Error` header: only a refused signature
/// does, and it is answered with 401. A request that could not be judged carries
/// none either.
pub proof fn law_denial_is_no_signature_error(error: Seq<char>, detail: Seq<char>, e: SigErrorView)
    ensures
        forbidden(error, detail).headers.len() == 0,
        e.code != SigErrorCode::InvalidRequest ==> refused(e).status == UNAUTHORIZED
            && refused(e).headers[0].0 == "signature-error"@,
        e.code == SigErrorCode::InvalidRequest ==> refused(e).status == BAD_REQUEST
            && refused(e).headers.len() == 0,
{
}

/// Each kind of error has its status, says what it was told to say, and has no
/// headers of its own.
pub proof fn law_statuses(error: Seq<char>, detail: Seq<char>)
    ensures
        bad_request(error, detail).status == 400,
        forbidden(error, detail).status == 403,
        not_found(error, detail).status == 404,
        server_error(detail).status == 500,
        server_error(detail).error == "server_error"@,
        bad_request(error, detail).error == error && bad_request(error, detail).detail == detail,
        forbidden(error, detail).error == error && forbidden(error, detail).detail == detail,
        not_found(error, detail).error == error && not_found(error, detail).detail == detail,
        server_error(detail).detail == detail,
        bad_request(error, detail).headers.len() == 0,
        not_found(error, detail).headers.len() == 0,
        server_error(detail).headers.len() == 0,
        OK == 200 && CREATED == 201 && ACCEPTED == 202 && NO_CONTENT == 204,
        UNAUTHORIZED == 401 && PAYLOAD_TOO_LARGE == 413 && TOO_MANY_REQUESTS == 429,
{
}

/// An error is answered with its status as a problem document that is not kept:
/// its type, its name, its detail and its status. Its own headers follow.
pub proof fn law_problem_document(e: ApiErrorView)
    ensures
        problem_response(e).status == e.status,
        problem_response(e).headers.len() == 2 + e.headers.len(),
        problem_response(e).headers[0] == ("content-type"@, "application/problem+json"@),
        problem_response(e).headers[1] == ("cache-control"@, "no-store"@),
        problem_response(e).headers.skip(2) == e.headers,
        problem_response(e).body == json::json_text(
            Json::Obj(
                map![
                    "type"@ => Json::Str("urn:ietf:params:sig-error:"@ + e.error),
                    "error"@ => Json::Str(e.error),
                    "detail"@ => Json::Str(e.detail),
                    "status"@ => Json::Int(e.status as int),
                ],
            ),
        ),
{
    assert(problem_json(e)->Obj_0 =~= map![
        "type"@ => Json::Str("urn:ietf:params:sig-error:"@ + e.error),
        "error"@ => Json::Str(e.error),
        "detail"@ => Json::Str(e.detail),
        "status"@ => Json::Int(e.status as int),
    ]);
    assert(problem_response(e).headers.skip(2) =~= e.headers);
}

/// A JSON answer has the status and the value that it was given, and is not
/// kept.
pub proof fn law_json_answer(status: u16, v: Json)
    ensures
        json_answer(status, v).status == status,
        json_answer(status, v).body == json::json_text(v),
        json_answer(status, v).headers == seq![
            ("content-type"@, "application/json"@),
            ("cache-control"@, "no-store"@),
        ],
{
}

/// A refused signature is told by the name of its code, in the answer and in the
/// `Signature-Error` header, and with its detail. The accepted algorithm is named
/// only to who used another.
pub proof fn law_refusal_is_told(e: SigErrorView)
    ensures
        refused(e).detail == e.detail,
        refused(e).error == sig::code_name(e.code),
        refused(e).status == (if e.code is InvalidRequest {
            400u16
        } else {
            401u16
        }),
        e.code is InvalidRequest ==> refused(e).headers.len() == 0,
        e.code is UnsupportedAlgorithm ==> refused(e).headers == seq![
            ("signature-error"@, "error="@ + "unsupported_algorithm"@),
            ("accept-signature-alg"@, "Ed25519"@),
        ],
        !(e.code is InvalidRequest) && !(e.code is UnsupportedAlgorithm) ==> refused(
            e,
        ).headers.len() == 1,
        !(e.code is InvalidInput) || e.required_input is None ==> signature_error(e) == "error="@
            + sig::code_name(e.code),
        !(e.code is InvalidRequest) ==> refused(e).headers[0] == (
            "signature-error"@,
            signature_error(e),
        ),
        e.code is InvalidInput ==> (e.required_input matches Some(names) ==> signature_error(e)
            == "error="@ + "invalid_input"@ + ", required_input=("@ + text::joined(
            quoted_all(names),
            " "@,
        ) + ")"@),
{
}

/// The names of the codes.
pub proof fn law_code_names(c: SigErrorCode)
    ensures
        c is UnsupportedAlgorithm ==> sig::code_name(c) == "unsupported_algorithm"@,
        c is UnsupportedScheme ==> sig::code_name(c) == "unsupported_scheme"@,
        c is InvalidSignature ==> sig::code_name(c) == "invalid_signature"@,
        c is InvalidInput ==> sig::code_name(c) == "invalid_input"@,
        c is InvalidRequest ==> sig::code_name(c) == "invalid_request"@,
        c is InvalidKey ==> sig::code_name(c) == "invalid_key"@,
        c is UnknownKey ==> sig::code_name(c) == "unknown_key"@,
        c is IssuerMissing ==> sig::code_name(c) == "issuer_missing"@,
        c is IssuerMismatch ==> sig::code_name(c) == "issuer_mismatch"@,
        c is CacheMiss ==> sig::code_name(c) == "cache_miss"@,
        c is InvalidJwt ==> sig::code_name(c) == "invalid_jwt"@,
        c is ExpiredJwt ==> sig::code_name(c) == "expired_jwt"@,
{
}

/// Quoting a text puts it between quotation marks; only quotation marks and
/// backslashes are escaped, each by one backslash.
pub proof fn law_quoting(s: Seq<char>, c: char)
    ensures
        c != '"' && c != '\\' ==> escaped(s.push(c)) == escaped(s).push(c),
        c == '"' || c == '\\' ==> escaped(s.push(c)) == escaped(s) + seq!['\\', c],
        escaped(Seq::empty()) == Seq::<char>::empty(),
        quoted(s).len() == escaped(s).len() + 2,
        quoted(s)[0] == '"' && quoted(s).last() == '"',
        quoted(s).subrange(1, quoted(s).len() - 1) == escaped(s),
        (forall|i: int| 0 <= i < s.len() ==> s[i] != '"' && s[i] != '\\') ==> escaped(s) == s,
    decreases s.len(),
{
    reveal_strlit("\"");
    assert(s.push(c).drop_last() =~= s);
    assert(escaped(s).push('\\').push(c) =~= escaped(s) + seq!['\\', c]);
    assert(quoted(s).subrange(1, quoted(s).len() - 1) =~= escaped(s));
    if (forall|i: int| 0 <= i < s.len() ==> s[i] != '"' && s[i] != '\\') && s.len() > 0 {
        law_quoting(s.drop_last(), c);
        assert(s.drop_last().push(s.last()) =~= s);
    }
}

/// The required components are quoted one by one.
pub proof fn law_quoted_all(names: Seq<Seq<char>>, i: int)
    requires
        0 <= i < names.len(),
    ensures
        quoted_all(names).len() == names.len(),
        quoted_all(names)[i] == "\""@ + escaped(names[i]) + "\""@,
{
}

} // verus!
