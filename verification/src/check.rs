//! Grading a live provider and a live Person Server, as an agent meets them: the
//! checks, and what they say.

use vstd::prelude::*;

use crate::decimal;
use crate::issuer_keys;
use crate::json;
use crate::json::{Json, JsonValue};
use crate::jwt;
use crate::jwt::{DecodedJwt, JwtView};
use crate::problem;
use crate::text;

verus! {

/// What a check found.
pub struct Check {
    pub ok: bool,
    pub label: String,
    pub detail: String,
}

/// What a [`Check`] holds.
pub struct CheckView {
    pub ok: bool,
    pub label: Seq<char>,
    pub detail: Seq<char>,
}

impl Check {
    /// What was found.
    pub open spec fn view(&self) -> CheckView {
        CheckView { ok: self.ok, label: self.label@, detail: self.detail@ }
    }

    /// A check that found something.
    pub fn new(ok: bool, label: &str, detail: &str) -> (r: Check)
        ensures
            r@ == (CheckView { ok, label: label@, detail: detail@ }),
    {
        Check { ok, label: label.to_owned(), detail: detail.to_owned() }
    }

    /// The line that tells what was found.
    pub fn line(&self) -> (r: String)
        ensures
            r@ == check_line(self@),
    {
        let word = if self.ok {
            "PASS"
        } else {
            "FAIL"
        };
        let mut out = text::join3("  [", word, "] ");
        out.append(self.label.as_str());
        if self.detail.as_str().unicode_len() > 0 {
            out.append(" — ");
            out.append(self.detail.as_str());
        } else {
            proof {
                assert(self.detail@ =~= Seq::<char>::empty());
            }
        }
        out
    }
}

/// The line that tells what a check found.
pub open spec fn check_line(c: CheckView) -> Seq<char> {
    let head = "  ["@ + if c.ok {
        "PASS"@
    } else {
        "FAIL"@
    } + "] "@ + c.label;
    if c.detail.len() > 0 {
        head + " — "@ + c.detail
    } else {
        head
    }
}

/// The views of checks.
pub open spec fn checks_view(s: Seq<Check>) -> Seq<CheckView> {
    s.map_values(|c: Check| c@)
}

/// What a check with nothing more to say found.
pub open spec fn plain_check(ok: bool, label: Seq<char>) -> CheckView {
    CheckView { ok, label, detail: Seq::empty() }
}

/// How many checks passed.
pub open spec fn passed(s: Seq<CheckView>) -> nat
    decreases s.len(),
{
    if s.len() == 0 {
        0
    } else {
        passed(s.drop_last()) + if s.last().ok {
            1nat
        } else {
            0
        }
    }
}

/// Counts the checks that passed, and those that did not.
pub fn tally(checks: &Vec<Check>) -> (r: (usize, usize))
    ensures
        r.0 == passed(checks_view(checks@)),
        r.0 + r.1 == checks@.len(),
{
    let ghost all = checks_view(checks@);
    let mut pass: usize = 0;
    let mut i: usize = 0;
    proof {
        assert(all.take(0) =~= Seq::empty());
    }
    while i < checks.len()
        invariant
            i <= checks@.len(),
            all == checks_view(checks@),
            pass <= i,
            pass == passed(all.take(i as int)),
        decreases checks@.len() - i,
    {
        proof {
            assert(all.take(i + 1).drop_last() =~= all.take(i as int));
            assert(all.take(i + 1).last() == checks@[i as int]@);
        }
        if checks[i].ok {
            pass += 1;
        }
        i += 1;
    }
    proof {
        assert(all.take(all.len() as int) =~= all);
    }
    (pass, checks.len() - pass)
}

/// What follows the scheme of a URL, if it has one.
pub open spec fn without_scheme(url: Seq<char>) -> Seq<char> {
    match text::without_prefix(url, "https://"@) {
        Some(rest) => rest,
        None => match text::without_prefix(url, "http://"@) {
            Some(rest) => rest,
            None => url,
        },
    }
}

/// The authority and the path of a URL.
pub open spec fn split_url(url: Seq<char>) -> (Seq<char>, Seq<char>) {
    let rest = without_scheme(url);
    match text::position(rest, '/') {
        Some(i) => (rest.take(i as int), rest.skip(i as int)),
        None => (rest, "/"@),
    }
}

/// Takes a URL apart into its authority and its path.
pub fn url_parts(url: &str) -> (r: (String, String))
    ensures
        (r.0@, r.1@) == split_url(url@),
{
    let rest = match text::strip_prefix(url, "https://") {
        Some(rest) => rest,
        None => match text::strip_prefix(url, "http://") {
            Some(rest) => rest,
            None => url.to_owned(),
        },
    };
    let a = text::to_chars(rest.as_str());
    match text::find(&a, '/') {
        Some(i) => {
            proof {
                text::lemma_position(a@, '/');
            }
            let authority = text::slice_text(&a, 0, i);
            let path = text::slice_text(&a, i, a.len());
            proof {
                assert(authority@ =~= rest@.take(i as int));
                assert(path@ =~= rest@.skip(i as int));
            }
            (authority, path)
        },
        None => (rest, "/".to_owned()),
    }
}

/// The first value of a header.
pub open spec fn first_header(headers: Seq<(Seq<char>, Seq<char>)>, name: Seq<char>) -> Option<
    Seq<char>,
>
    decreases headers.len(),
{
    if headers.len() == 0 {
        None
    } else if headers[0].0 == name {
        Some(headers[0].1)
    } else {
        first_header(headers.drop_first(), name)
    }
}

/// The first value of a header.
pub fn find_header(headers: &Vec<(String, String)>, name: &str) -> (r: Option<String>)
    ensures
        text::opt_view(r) == first_header(problem::headers_view(headers@), name@),
{
    let ghost all = problem::headers_view(headers@);
    let mut i: usize = 0;
    proof {
        assert(all.skip(0) =~= all);
    }
    while i < headers.len()
        invariant
            i <= headers@.len(),
            all == problem::headers_view(headers@),
            first_header(all, name@) == first_header(all.skip(i as int), name@),
        decreases headers@.len() - i,
    {
        proof {
            assert(all.skip(i as int)[0] == (headers@[i as int].0@, headers@[i as int].1@));
            assert(all.skip(i as int).drop_first() =~= all.skip(i + 1));
        }
        if text::same(headers[i].0.as_str(), name) {
            return Some(headers[i].1.clone());
        }
        i += 1;
    }
    None
}

/// Why a request was refused, as the answer tells it.
pub open spec fn refusal_reason(code: u16, headers: Seq<(Seq<char>, Seq<char>)>) -> Seq<char> {
    if code != 401 {
        Seq::empty()
    } else {
        match first_header(headers, "signature-error"@) {
            Some(v) => "  ["@ + v + "]"@,
            None => Seq::empty(),
        }
    }
}

/// Says why a request was refused.
pub fn explain(code: u16, headers: &Vec<(String, String)>) -> (r: String)
    ensures
        r@ == refusal_reason(code, problem::headers_view(headers@)),
{
    if code == 401 {
        if let Some(v) = find_header(headers, "signature-error") {
            return text::join3("  [", v.as_str(), "]");
        }
    }
    let none = "".to_owned();
    proof {
        reveal_strlit("");
        assert(none@ =~= Seq::<char>::empty());
    }
    none
}

/// Whether a member is a given text.
pub open spec fn member_is(j: Json, name: Seq<char>, s: Seq<char>) -> bool {
    json::str_member(j, name) == Some(s)
}

fn is_member(v: &JsonValue, name: &str, s: &str) -> (r: bool)
    ensures
        r == member_is(v@, name@, s@),
{
    match v.str_of(name) {
        Some(x) => text::same(x.as_str(), s),
        None => false,
    }
}

/// The checks of an agent token: its algorithm says everything, and its document
/// is an agent provider's.
pub open spec fn agent_token_checks(t: JwtView) -> Seq<CheckView> {
    seq![
        (CheckView {
            ok: t.header.alg == "Ed25519"@,
            label: "agent token alg is fully-specified"@,
            detail: t.header.alg,
        }),
        plain_check(member_is(t.payload, "dwk"@, "aauth-agent.json"@), "dwk"@),
    ]
}

/// Checks an agent token.
pub fn grade_agent_token(t: &DecodedJwt) -> (r: Vec<Check>)
    ensures
        checks_view(r@) == agent_token_checks(t@),
{
    proof {
        reveal_strlit("");
        assert(""@ =~= Seq::<char>::empty());
    }
    let alg = t.header.alg.as_str();
    let mut out: Vec<Check> = Vec::new();
    out.push(
        Check::new(text::same(alg, "Ed25519"), "agent token alg is fully-specified", alg),
    );
    out.push(Check::new(is_member(&t.payload, "dwk", "aauth-agent.json"), "dwk", ""));
    proof {
        assert(checks_view(out@) =~= agent_token_checks(t@));
    }
    out
}

/// The checks of a Person Server's document.
pub open spec fn metadata_checks(target: Seq<char>, md: Json) -> Seq<CheckView> {
    seq![
        (CheckView {
            ok: member_is(md, "issuer"@, target),
            label: "metadata issuer matches the fetch URL"@,
            detail: match json::str_member(md, "issuer"@) {
                Some(s) => s,
                None => "<missing>"@,
            },
        }),
        plain_check(json::str_member(md, "jwks_uri"@) is Some, "jwks_uri present"@),
        plain_check(
            json::str_member(md, "person_token_endpoint"@) is Some,
            "person_token_endpoint present (REQUIRED)"@,
        ),
        plain_check(
            json::str_member(md, "auth_token_endpoint"@) is Some,
            "auth_token_endpoint present (REQUIRED, renamed in -11)"@,
        ),
    ]
}

/// Checks a Person Server's document.
pub fn grade_metadata(target: &str, md: &JsonValue) -> (r: Vec<Check>)
    ensures
        checks_view(r@) == metadata_checks(target@, md@),
{
    proof {
        reveal_strlit("");
        assert(""@ =~= Seq::<char>::empty());
    }
    let issuer = match md.str_of("issuer") {
        Some(s) => s.clone(),
        None => "<missing>".to_owned(),
    };
    let mut out: Vec<Check> = Vec::new();
    out.push(
        Check::new(
            is_member(md, "issuer", target),
            "metadata issuer matches the fetch URL",
            issuer.as_str(),
        ),
    );
    out.push(Check::new(md.str_of("jwks_uri").is_some(), "jwks_uri present", ""));
    out.push(
        Check::new(
            md.str_of("person_token_endpoint").is_some(),
            "person_token_endpoint present (REQUIRED)",
            "",
        ),
    );
    out.push(
        Check::new(
            md.str_of("auth_token_endpoint").is_some(),
            "auth_token_endpoint present (REQUIRED, renamed in -11)",
            "",
        ),
    );
    proof {
        assert(checks_view(out@) =~= metadata_checks(target@, md@));
    }
    out
}

/// The keys of a document.
pub open spec fn listed_keys(ks: Json) -> Seq<Json> {
    match json::json_get(ks, "keys"@) {
        Some(Json::Arr(keys)) => keys,
        _ => Seq::empty(),
    }
}

/// The checks of a key set: every key says its algorithm, and says all of it.
pub open spec fn key_set_checks(ks: Json) -> Seq<CheckView> {
    let keys = listed_keys(ks);
    seq![
        (CheckView {
            ok: keys.len() > 0 && forall|i: int|
                0 <= i < keys.len() ==> json::str_member(#[trigger] keys[i], "alg"@) is Some,
            label: "every JWKS key carries alg"@,
            detail: decimal::numeral(keys.len()) + " keys"@,
        }),
        plain_check(
            forall|i: int|
                0 <= i < keys.len() ==> !member_is(#[trigger] keys[i], "alg"@, "EdDSA"@),
            "no polymorphic EdDSA in JWKS"@,
        ),
    ]
}

/// Checks a key set.
pub fn grade_key_set(ks: &JsonValue) -> (r: Vec<Check>)
    ensures
        checks_view(r@) == key_set_checks(ks@),
{
    proof {
        reveal_strlit("");
        assert(""@ =~= Seq::<char>::empty());
    }
    let none: Vec<JsonValue> = Vec::new();
    let keys = match ks.get("keys") {
        Some(JsonValue::Array(a)) => a,
        _ => &none,
    };
    let ghost all = listed_keys(ks@);
    let mut all_alg = true;
    let mut no_poly = true;
    let mut i: usize = 0;
    proof {
        json::lemma_elements(keys@);
        assert(all =~= json::elements(keys@));
    }
    while i < keys.len()
        invariant
            i <= keys@.len(),
            all.len() == keys@.len(),
            forall|j: int| 0 <= j < all.len() ==> #[trigger] all[j] == keys@[j]@,
            all_alg == (forall|j: int|
                0 <= j < i ==> json::str_member(#[trigger] all[j], "alg"@) is Some),
            no_poly == (forall|j: int|
                0 <= j < i ==> !member_is(#[trigger] all[j], "alg"@, "EdDSA"@)),
        decreases keys@.len() - i,
    {
        proof {
            assert(all[i as int] == keys@[i as int]@);
        }
        if keys[i].str_of("alg").is_none() {
            all_alg = false;
        }
        if is_member(&keys[i], "alg", "EdDSA") {
            no_poly = false;
        }
        i += 1;
    }
    let count = decimal::unsigned(keys.len() as u64);
    let mut out: Vec<Check> = Vec::new();
    out.push(
        Check::new(
            keys.len() > 0 && all_alg,
            "every JWKS key carries alg",
            text::join2(count.as_str(), " keys").as_str(),
        ),
    );
    out.push(Check::new(no_poly, "no polymorphic EdDSA in JWKS", ""));
    proof {
        assert(checks_view(out@) =~= key_set_checks(ks@));
    }
    out
}

/// Whether a member stands there and is not null.
pub open spec fn is_given(j: Json, name: Seq<char>) -> bool {
    match json::json_get(j, name) {
        Some(v) => !(v is Null),
        None => false,
    }
}

fn given(v: &JsonValue, name: &str) -> (r: bool)
    ensures
        r == is_given(v@, name@),
{
    match v.get(name) {
        Some(JsonValue::Null) => false,
        Some(_) => true,
        None => false,
    }
}

/// For how many seconds a token is good, by its own claims.
pub open spec fn lifetime_of(p: Json) -> int {
    let exp = match json::i64_member(p, "exp"@) {
        Some(n) => n as int,
        None => 0,
    };
    let iat = match json::i64_member(p, "iat"@) {
        Some(n) => n as int,
        None => 0,
    };
    exp - iat
}

/// Whether a token is bound to a key.
pub open spec fn is_bound(p: Json) -> bool {
    match json::json_get(p, "cnf"@) {
        Some(cnf) => match json::json_get(cnf, "jwk"@) {
            Some(k) => k is Obj,
            None => false,
        },
        None => false,
    }
}

/// The checks of a person token for a resource.
pub open spec fn person_token_checks(t: JwtView, resource: Seq<char>) -> Seq<CheckView> {
    let p = t.payload;
    seq![
        (CheckView {
            ok: t.header.typ == Some("aa-person+jwt"@),
            label: "person token typ"@,
            detail: issuer_keys::shown(t.header.typ),
        }),
        (CheckView {
            ok: t.header.alg == "Ed25519"@,
            label: "person token alg"@,
            detail: t.header.alg,
        }),
        plain_check(member_is(p, "dwk"@, "aauth-person.json"@), "dwk"@),
        plain_check(member_is(p, "aud"@, resource), "aud echoes resource"@),
        plain_check(is_given(p, "iss"@), "claim iss"@),
        plain_check(is_given(p, "sub"@), "claim sub"@),
        plain_check(is_given(p, "jti"@), "claim jti"@),
        plain_check(is_given(p, "iat"@), "claim iat"@),
        plain_check(is_given(p, "exp"@), "claim exp"@),
        plain_check(is_bound(p), "cnf.jwk present"@),
        (CheckView {
            ok: 0 < lifetime_of(p) <= 3600,
            label: "lifetime <= 1 hour"@,
            detail: lifetime_text(lifetime_of(p)),
        }),
    ]
}

/// How a lifetime is shown: one that is no 64-bit number is not counted out.
pub open spec fn lifetime_text(secs: int) -> Seq<char> {
    if i64::MIN <= secs <= i64::MAX {
        decimal::signed_numeral(secs) + "s"@
    } else {
        "out of range"@
    }
}

fn bound(p: &JsonValue) -> (r: bool)
    ensures
        r == is_bound(p@),
{
    match p.get("cnf") {
        Some(cnf) => match cnf.get("jwk") {
            Some(k) => k.is_object(),
            None => false,
        },
        None => false,
    }
}

fn lifetime(p: &JsonValue) -> (r: i128)
    ensures
        r == lifetime_of(p@),
{
    let exp: i64 = match p.i64_of("exp") {
        Some(n) => n,
        None => 0,
    };
    let iat: i64 = match p.i64_of("iat") {
        Some(n) => n,
        None => 0,
    };
    exp as i128 - iat as i128
}

fn show_lifetime(secs: i128) -> (r: String)
    ensures
        r@ == lifetime_text(secs as int),
{
    if i64::MIN as i128 <= secs && secs <= i64::MAX as i128 {
        text::join2(decimal::signed(secs as i64).as_str(), "s")
    } else {
        "out of range".to_owned()
    }
}

/// Checks a person token for a resource.
pub fn grade_person_token(t: &DecodedJwt, resource: &str) -> (r: Vec<Check>)
    ensures
        checks_view(r@) == person_token_checks(t@, resource@),
{
    proof {
        reveal_strlit("");
        assert(""@ =~= Seq::<char>::empty());
    }
    let p = &t.payload;
    let alg = t.header.alg.as_str();
    let (typ_ok, typ) = match &t.header.typ {
        Some(x) => (text::same(x.as_str(), "aa-person+jwt"), text::join3("Some(", text::show(x.as_str()).as_str(), ")")),
        None => (false, "None".to_owned()),
    };
    let life: i128 = lifetime(p);
    let mut out: Vec<Check> = Vec::new();
    out.push(Check::new(typ_ok, "person token typ", typ.as_str()));
    out.push(Check::new(text::same(alg, "Ed25519"), "person token alg", alg));
    out.push(Check::new(is_member(p, "dwk", "aauth-person.json"), "dwk", ""));
    out.push(Check::new(is_member(p, "aud", resource), "aud echoes resource", ""));
    out.push(Check::new(given(p, "iss"), "claim iss", ""));
    out.push(Check::new(given(p, "sub"), "claim sub", ""));
    out.push(Check::new(given(p, "jti"), "claim jti", ""));
    out.push(Check::new(given(p, "iat"), "claim iat", ""));
    out.push(Check::new(given(p, "exp"), "claim exp", ""));
    out.push(Check::new(bound(p), "cnf.jwk present", ""));
    out.push(
        Check::new(
            0 < life && life <= 3600,
            "lifetime <= 1 hour",
            show_lifetime(life).as_str(),
        ),
    );
    proof {
        assert(checks_view(out@) =~= person_token_checks(t@, resource@));
    }
    out
}

/// Where a deferred request is asked after.
pub open spec fn pending_location(target: Seq<char>, location: Seq<char>) -> Seq<char> {
    if text::without_prefix(location, "http"@) is Some {
        location
    } else {
        text::trimmed_end_of(target, '/') + location
    }
}

/// Where a deferred request is asked after: the location that was given may be a
/// path.
pub fn pending_url(target: &str, location: &str) -> (r: String)
    ensures
        r@ == pending_location(target@, location@),
{
    if text::starts_with(location, "http") {
        location.to_owned()
    } else {
        text::join2(text::trim_end_of(target, '/').as_str(), location)
    }
}

// --------------------------------------------- asking for a person token

/// How often a deferred request is asked after.
pub const POLLS: u32 = 3;

/// How long the server may hold an answer back, in seconds.
pub const POLL_SECS: u64 = 20;

/// An answer; a code of 0 says that there was none.
pub struct Answer {
    pub code: u16,
    pub body: String,
    pub headers: Vec<(String, String)>,
}

/// What an [`Answer`] holds.
pub struct AnswerView {
    pub code: u16,
    pub body: Seq<char>,
    pub headers: Seq<(Seq<char>, Seq<char>)>,
}

impl Answer {
    /// What the answer holds.
    pub open spec fn view(&self) -> AnswerView {
        AnswerView {
            code: self.code,
            body: self.body@,
            headers: problem::headers_view(self.headers@),
        }
    }
}

/// A text that the body of an answer gives under a name.
pub open spec fn body_text(body: Seq<char>, name: Seq<char>) -> Option<Seq<char>> {
    match json::json_parsed(vstd::utf8::encode_utf8(body)) {
        Some(v) => json::str_member(v, name),
        None => None,
    }
}

fn text_in_body(body: &str, name: &str) -> (r: Option<String>)
    ensures
        text::opt_view(r) == body_text(body@, name@),
{
    match json::parse(body.as_bytes()) {
        Ok(v) => match v.str_of(name) {
            Some(t) => Some(t.clone()),
            None => None,
        },
        Err(_) => None,
    }
}

/// The status of an answer.
pub open spec fn status_text(code: u16) -> Seq<char> {
    "HTTP "@ + decimal::numeral(code as nat)
}

fn show_status(code: u16) -> (r: String)
    ensures
        r@ == status_text(code),
{
    text::join2("HTTP ", decimal::unsigned(code as u64).as_str())
}

/// The check of an enrollment.
pub open spec fn enroll_check(a: AnswerView) -> CheckView {
    CheckView {
        ok: a.code == 201 || a.code == 200,
        label: "enroll"@,
        detail: status_text(a.code) + " "@ + match body_text(a.body, "agent"@) {
            Some(agent) => agent,
            None => Seq::empty(),
        },
    }
}

/// Grades the answer to an enrollment.
pub fn grade_enroll(a: &Answer) -> (r: Check)
    ensures
        r@ == enroll_check(a@),
{
    let mut detail = text::join2(show_status(a.code).as_str(), " ");
    if let Some(agent) = text_in_body(a.body.as_str(), "agent") {
        detail.append(agent.as_str());
    } else {
        proof {
            assert(detail@ + Seq::<char>::empty() =~= detail@);
        }
    }
    Check::new(a.code == 201 || a.code == 200, "enroll", detail.as_str())
}

/// The agent token that an answer gives.
pub open spec fn given_token(a: AnswerView) -> Option<Seq<char>> {
    match body_text(a.body, "agent_token"@) {
        Some(t) => if t.len() > 0 {
            Some(t)
        } else {
            None
        },
        None => None,
    }
}

/// Grades the answer to a request for an agent token, and gives the token.
pub fn grade_token_answer(a: &Answer) -> (r: (Check, Option<String>))
    ensures
        r.0@ == (CheckView {
            ok: a@.code == 200 && given_token(a@) is Some,
            label: "agent-token"@,
            detail: status_text(a@.code),
        }),
        text::opt_view(r.1) == given_token(a@),
{
    let token = match text_in_body(a.body.as_str(), "agent_token") {
        Some(t) => if t.as_str().unicode_len() > 0 {
            Some(t)
        } else {
            None
        },
        None => None,
    };
    let ok = a.code == 200 && token.is_some();
    (Check::new(ok, "agent-token", show_status(a.code).as_str()), token)
}

/// How much of an answer is told.
pub const ECHO_LENGTH: usize = 110;

/// The beginning of a text.
pub open spec fn beginning(s: Seq<char>) -> Seq<char> {
    if s.len() > ECHO_LENGTH {
        s.take(ECHO_LENGTH as int)
    } else {
        s
    }
}

fn begin_of(s: &str) -> (r: String)
    ensures
        r@ == beginning(s@),
{
    let a = text::to_chars(s);
    let n: usize = if a.len() > ECHO_LENGTH {
        ECHO_LENGTH
    } else {
        a.len()
    };
    proof {
        assert(a@.subrange(0, n as int) =~= beginning(s@));
    }
    text::slice_text(a.as_slice(), 0, n)
}

/// The checks of a resource's answer to a request with an agent token: it accepts
/// the token, and tells the agent back.
pub open spec fn interop_checks(a: AnswerView) -> Seq<CheckView> {
    let accepted = CheckView {
        ok: a.code == 200,
        label: "third-party resource accepts our agent token"@,
        detail: status_text(a.code) + match first_header(a.headers, "signature-error"@) {
            Some(e) => "  ["@ + e + "]"@,
            None => Seq::empty(),
        },
    };
    if a.code == 200 {
        let echoed = json::json_text(
            match json::json_parsed(vstd::utf8::encode_utf8(a.body)) {
                Some(v) => v,
                None => Json::Null,
            },
        );
        seq![
            accepted,
            (CheckView {
                ok: text::text_position(echoed, "aauth:"@) is Some,
                label: "it echoed our agent identity"@,
                detail: beginning(echoed),
            }),
        ]
    } else {
        seq![accepted]
    }
}

/// Grades a resource's answer to a request with an agent token.
pub fn grade_interop(a: &Answer) -> (r: Vec<Check>)
    ensures
        checks_view(r@) == interop_checks(a@),
{
    let mut detail = show_status(a.code);
    if let Some(e) = find_header(&a.headers, "signature-error") {
        detail.append(text::join3("  [", e.as_str(), "]").as_str());
    } else {
        proof {
            assert(detail@ + Seq::<char>::empty() =~= detail@);
        }
    }
    let mut out: Vec<Check> = Vec::new();
    out.push(
        Check::new(
            a.code == 200,
            "third-party resource accepts our agent token",
            detail.as_str(),
        ),
    );
    if a.code == 200 {
        let echoed = match json::parse(a.body.as_str().as_bytes()) {
            Ok(v) => v.render(),
            Err(_) => JsonValue::Null.render(),
        };
        let told = text::find_text(
            text::to_chars(echoed.as_str()).as_slice(),
            text::to_chars("aauth:").as_slice(),
        );
        out.push(
            Check::new(
                told.is_some(),
                "it echoed our agent identity",
                begin_of(echoed.as_str()).as_str(),
            ),
        );
    }
    proof {
        assert(checks_view(out@) =~= interop_checks(a@));
    }
    out
}

/// Grades the answer to a request for a person token that was not signed.
pub fn grade_unsigned(code: u16) -> (r: Check)
    ensures
        r@ == (CheckView {
            ok: code == 401,
            label: "unsigned person-token request refused"@,
            detail: status_text(code),
        }),
{
    Check::new(
        code == 401,
        "unsigned person-token request refused",
        show_status(code).as_str(),
    )
}

/// How far a request for a person token has come.
pub enum PersonState {
    /// The token was asked for.
    Asked,
    /// The request was deferred, and asked after so many times before.
    Waiting { url: String, polls: u32 },
}

/// What a [`PersonState`] holds.
pub enum PersonStateView {
    Asked,
    Waiting { url: Seq<char>, polls: u32 },
}

impl PersonState {
    /// What the state holds.
    pub open spec fn view(&self) -> PersonStateView {
        match self {
            PersonState::Asked => PersonStateView::Asked,
            PersonState::Waiting { url, polls } => PersonStateView::Waiting {
                url: url@,
                polls: *polls,
            },
        }
    }
}

/// What a state to go on from holds.
pub open spec fn next_view(o: Option<PersonState>) -> Option<PersonStateView> {
    match o {
        Some(s) => Some(s@),
        None => None,
    }
}

/// The checks of the last answer: a token is graded, and a deferral must say
/// what is asked for.
pub open spec fn final_checks(a: AnswerView, resource: Seq<char>) -> Seq<CheckView> {
    if a.code == 200 {
        match body_text(a.body, "person_token"@) {
            Some(token) => match jwt::decoded_jwt(token) {
                Some(t) => person_token_checks(t, resource),
                None => seq![
                    (CheckView {
                        ok: false,
                        label: "person token decodes"@,
                        detail: "malformed JWT"@,
                    }),
                ],
            },
            None => seq![
                (CheckView {
                    ok: false,
                    label: "response carries person_token"@,
                    detail: a.body,
                }),
            ],
        }
    } else if a.code == 202 {
        seq![
            plain_check(
                first_header(a.headers, "aauth-requirement"@) is Some,
                "202 carries AAuth-Requirement"@,
            ),
        ]
    } else {
        Seq::empty()
    }
}

/// What an answer is graded with, and how the request goes on: a deferral is
/// followed where that is asked for, until it is resolved or was asked after
/// often enough.
pub open spec fn person_step(
    state: PersonStateView,
    a: AnswerView,
    target: Seq<char>,
    resource: Seq<char>,
    poll: bool,
) -> (Seq<CheckView>, Option<PersonStateView>) {
    match state {
        PersonStateView::Asked => {
            let accepted = CheckView {
                ok: a.code == 200 || a.code == 202,
                label: "signed person-token request accepted"@,
                detail: status_text(a.code) + refusal_reason(a.code, a.headers),
            };
            if a.code == 202 && poll {
                let location = first_header(a.headers, "location"@);
                let located = plain_check(location is Some, "202 carries Location"@);
                match location {
                    Some(l) => (
                        seq![accepted, located],
                        Some(
                            PersonStateView::Waiting {
                                url: pending_location(target, l),
                                polls: 0,
                            },
                        ),
                    ),
                    None => (seq![accepted, located] + final_checks(a, resource), None),
                }
            } else {
                (seq![accepted] + final_checks(a, resource), None)
            }
        },
        PersonStateView::Waiting { url, polls } => if a.code == 202 && polls + 1 < POLLS {
            (
                Seq::empty(),
                Some(PersonStateView::Waiting { url, polls: (polls + 1) as u32 }),
            )
        } else {
            let resolved = CheckView {
                ok: a.code == 200 || a.code == 403,
                label: "pending resolved to a terminal state"@,
                detail: status_text(a.code),
            };
            (seq![resolved] + final_checks(a, resource), None)
        },
    }
}

fn grade_final(a: &Answer, resource: &str) -> (r: Vec<Check>)
    ensures
        checks_view(r@) == final_checks(a@, resource@),
{
    proof {
        reveal_strlit("");
        assert(""@ =~= Seq::<char>::empty());
    }
    let mut out: Vec<Check> = Vec::new();
    if a.code == 200 {
        match text_in_body(a.body.as_str(), "person_token") {
            Some(token) => match jwt::decode(token.as_str()) {
                Ok(t) => {
                    return grade_person_token(&t, resource);
                },
                Err(e) => {
                    out.push(Check::new(false, "person token decodes", e.message()));
                },
            },
            None => {
                out.push(Check::new(false, "response carries person_token", a.body.as_str()));
            },
        }
    } else if a.code == 202 {
        let named = find_header(&a.headers, "aauth-requirement").is_some();
        out.push(Check::new(named, "202 carries AAuth-Requirement", ""));
    }
    proof {
        assert(checks_view(out@) =~= final_checks(a@, resource@));
    }
    out
}

/// Grades an answer to a request for a person token, and says how the request
/// goes on: where a state is given, its URL is asked next.
pub fn next_person_step(
    state: &PersonState,
    a: &Answer,
    target: &str,
    resource: &str,
    poll: bool,
) -> (r: (Vec<Check>, Option<PersonState>))
    ensures
        (checks_view(r.0@), next_view(r.1)) == person_step(state@, a@, target@, resource@, poll),
{
    proof {
        reveal_strlit("");
        assert(""@ =~= Seq::<char>::empty());
    }
    let mut out: Vec<Check> = Vec::new();
    match state {
        PersonState::Asked => {
            let mut detail = show_status(a.code);
            detail.append(explain(a.code, &a.headers).as_str());
            out.push(
                Check::new(
                    a.code == 200 || a.code == 202,
                    "signed person-token request accepted",
                    detail.as_str(),
                ),
            );
            if a.code == 202 && poll {
                let location = find_header(&a.headers, "location");
                out.push(Check::new(location.is_some(), "202 carries Location", ""));
                if let Some(l) = location {
                    let url = pending_url(target, l.as_str());
                    proof {
                        assert(checks_view(out@) =~= person_step(
                            state@,
                            a@,
                            target@,
                            resource@,
                            poll,
                        ).0);
                    }
                    return (out, Some(PersonState::Waiting { url, polls: 0 }));
                }
            }
        },
        PersonState::Waiting { url, polls } => {
            if a.code == 202 && *polls < POLLS - 1 {
                proof {
                    assert(checks_view(out@) =~= Seq::<CheckView>::empty());
                }
                return (out, Some(PersonState::Waiting { url: url.clone(), polls: *polls + 1 }));
            }
            out.push(
                Check::new(
                    a.code == 200 || a.code == 403,
                    "pending resolved to a terminal state",
                    show_status(a.code).as_str(),
                ),
            );
        },
    }
    let ghost before = checks_view(out@);
    let mut rest = grade_final(a, resource);
    let ghost last = checks_view(rest@);
    out.append(&mut rest);
    proof {
        assert(checks_view(out@) =~= before + last);
        assert(checks_view(out@) =~= person_step(state@, a@, target@, resource@, poll).0);
    }
    (out, None)
}

/// A deferred request is asked after a bounded number of times, always at the
/// place that was given first.
pub proof fn law_polling_ends(
    state: PersonStateView,
    a: AnswerView,
    target: Seq<char>,
    resource: Seq<char>,
    poll: bool,
)
    ensures
        person_step(state, a, target, resource, poll).1 matches Some(
            PersonStateView::Waiting { url, polls },
        ) ==> a.code == 202 && polls < POLLS && match state {
            PersonStateView::Asked => poll && polls == 0,
            PersonStateView::Waiting { url: before, polls: count } => url == before && polls == count
                + 1,
        },
        !(person_step(state, a, target, resource, poll).1 matches Some(PersonStateView::Asked)),
{
}

/// A line tells whether the check passed, its label, and its detail where it has
/// one.
pub proof fn law_check_line(c: CheckView)
    ensures
        c.ok && c.detail.len() == 0 ==> check_line(c) == "  ["@ + "PASS"@ + "] "@ + c.label,
        !c.ok && c.detail.len() == 0 ==> check_line(c) == "  ["@ + "FAIL"@ + "] "@ + c.label,
        c.detail.len() > 0 ==> check_line(c) == check_line(
            (CheckView { ok: c.ok, label: c.label, detail: Seq::empty() }),
        ) + " — "@ + c.detail,
{
}

/// A check counts as passed exactly where it is in order.
pub proof fn law_passed(s: Seq<CheckView>, c: CheckView)
    ensures
        passed(Seq::empty()) == 0,
        c.ok ==> passed(s.push(c)) == passed(s) + 1,
        !c.ok ==> passed(s.push(c)) == passed(s),
{
    assert(s.push(c).drop_last() =~= s);
}

/// A URL is an authority and a path from its first slash on; without one the path
/// is a slash.
pub proof fn law_url_split(authority: Seq<char>, tail: Seq<char>)
    requires
        !authority.contains('/'),
    ensures
        split_url("https://"@ + authority) == (authority, "/"@),
        split_url("http://"@ + authority) == (authority, "/"@),
        split_url("https://"@ + (authority + ("/"@ + tail))) == (authority, "/"@ + tail),
        split_url("http://"@ + (authority + ("/"@ + tail))) == (authority, "/"@ + tail),
{
    reveal_strlit("/");
    let rest = authority + ("/"@ + tail);
    crate::ident::lemma_behind_scheme(authority);
    crate::ident::lemma_behind_scheme(rest);
    text::lemma_position(authority, '/');
    if let Some(i) = text::position(authority, '/') {
        assert(authority.contains(authority[i as int]));
    }
    assert(rest[authority.len() as int] == '/');
    assert forall|j: int| 0 <= j < authority.len() implies rest[j] != '/' by {
        assert(authority.contains(authority[j]));
        assert(rest[j] == authority[j]);
    }
    text::lemma_position_is(rest, '/', authority.len() as int);
    assert(rest.take(authority.len() as int) =~= authority);
    assert(rest.skip(authority.len() as int) =~= "/"@ + tail);
}

/// Of several headers of a name the first counts.
pub proof fn law_first_header(
    headers: Seq<(Seq<char>, Seq<char>)>,
    name: Seq<char>,
    h: (Seq<char>, Seq<char>),
)
    ensures
        first_header(Seq::empty(), name) is None,
        h.0 == name ==> first_header(seq![h] + headers, name) == Some(h.1),
        h.0 != name ==> first_header(seq![h] + headers, name) == first_header(headers, name),
{
    assert((seq![h] + headers).drop_first() =~= headers);
}

/// A refusal is told by the `Signature-Error` header of a 401, and by nothing
/// else.
pub proof fn law_refusal_reason(code: u16, headers: Seq<(Seq<char>, Seq<char>)>)
    ensures
        code != 401 ==> refusal_reason(code, headers).len() == 0,
        code == 401 ==> (first_header(headers, "signature-error"@) matches Some(v)
            ==> refusal_reason(code, headers) == "  ["@ + v + "]"@),
        first_header(headers, "signature-error"@) is None ==> refusal_reason(code, headers).len() == 0,
{
}

/// An agent token passes where it is signed with the fully specified algorithm and
/// names an agent provider's document.
pub proof fn law_agent_token_graded(t: JwtView)
    ensures
        agent_token_checks(t).len() == 2,
        agent_token_checks(t)[0].ok == (t.header.alg == "Ed25519"@),
        agent_token_checks(t)[0].detail == t.header.alg,
        agent_token_checks(t)[1].ok == (json::str_member(t.payload, "dwk"@) == Some(
            "aauth-agent.json"@,
        )),
{
}

/// A Person Server's document passes where it claims the server that it was
/// fetched from and names its key set and its two endpoints.
pub proof fn law_metadata_graded(target: Seq<char>, md: Json)
    ensures
        metadata_checks(target, md).len() == 4,
        metadata_checks(target, md)[0].ok == (json::str_member(md, "issuer"@) == Some(target)),
        metadata_checks(target, md)[1].ok == (json::str_member(md, "jwks_uri"@) is Some),
        metadata_checks(target, md)[2].ok == (json::str_member(
            md,
            "person_token_endpoint"@,
        ) is Some),
        metadata_checks(target, md)[3].ok == (json::str_member(md, "auth_token_endpoint"@) is Some),
{
}

/// A key set passes where it has keys, each says its algorithm, and none says
/// `EdDSA`.
pub proof fn law_key_set_graded(ks: Json, keys: Seq<Json>)
    requires
        json::json_get(ks, "keys"@) == Some(Json::Arr(keys)),
    ensures
        key_set_checks(ks).len() == 2,
        key_set_checks(ks)[0].ok == (keys.len() > 0 && forall|i: int|
            0 <= i < keys.len() ==> json::str_member(#[trigger] keys[i], "alg"@) is Some),
        key_set_checks(ks)[1].ok == (forall|i: int|
            0 <= i < keys.len() ==> json::str_member(#[trigger] keys[i], "alg"@) != Some("EdDSA"@)),
        key_set_checks(ks)[0].detail == decimal::numeral(keys.len()) + " keys"@,
{
    if forall|i: int|
        0 <= i < keys.len() ==> json::str_member(#[trigger] keys[i], "alg"@) != Some("EdDSA"@) {
        assert forall|i: int| 0 <= i < keys.len() implies !member_is(
            #[trigger] keys[i],
            "alg"@,
            "EdDSA"@,
        ) by {
            assert(json::str_member(keys[i], "alg"@) != Some("EdDSA"@));
        }
    }
    if forall|i: int| 0 <= i < keys.len() ==> !member_is(#[trigger] keys[i], "alg"@, "EdDSA"@) {
        assert forall|i: int| 0 <= i < keys.len() implies json::str_member(
            #[trigger] keys[i],
            "alg"@,
        ) != Some("EdDSA"@) by {
            assert(!member_is(keys[i], "alg"@, "EdDSA"@));
        }
    }
}

/// A person token passes where it is of its type and algorithm, names a Person
/// Server's document, is for the resource, has all its claims and a key, and lasts
/// an hour at most.
pub proof fn law_person_token_graded(t: JwtView, resource: Seq<char>)
    ensures
        ({
            let c = person_token_checks(t, resource);
            let p = t.payload;
            &&& c.len() == 11
            &&& c[0].ok == (t.header.typ == Some("aa-person+jwt"@))
            &&& c[1].ok == (t.header.alg == "Ed25519"@)
            &&& c[2].ok == (json::str_member(p, "dwk"@) == Some("aauth-person.json"@))
            &&& c[3].ok == (json::str_member(p, "aud"@) == Some(resource))
            &&& c[4].ok == is_given(p, "iss"@)
            &&& c[5].ok == is_given(p, "sub"@)
            &&& c[6].ok == is_given(p, "jti"@)
            &&& c[7].ok == is_given(p, "iat"@)
            &&& c[8].ok == is_given(p, "exp"@)
            &&& c[9].ok == is_bound(p)
            &&& json::i64_member(p, "iat"@) matches Some(iat) ==> (json::i64_member(
                p,
                "exp"@,
            ) matches Some(exp) ==> c[10].ok == (iat < exp && exp - iat <= 3600))
        }),
{
}

/// A claim is given where it stands and is not null; a token is bound where `jwk`
/// in its `cnf` is an object.
pub proof fn law_given_and_bound(p: Json, name: Seq<char>)
    ensures
        is_given(p, name) == (json::json_get(p, name) is Some && json::json_get(p, name) != Some(
            Json::Null,
        )),
        is_bound(p) == (json::json_get(p, "cnf"@) matches Some(cnf) && (json::json_get(
            cnf,
            "jwk"@,
        ) matches Some(k) && k is Obj)),
{
}

/// A deferred request is asked after at the location that was given: as it is
/// where it is a URL, else under the server.
pub proof fn law_pending_location(target: Seq<char>, location: Seq<char>)
    ensures
        "http"@.is_prefix_of(location) ==> pending_location(target, location) == location,
        !"http"@.is_prefix_of(location) ==> pending_location(target, location)
            == text::trimmed_end_of(target, '/') + location,
{
}

/// An enrollment passes with 200 or 201; an agent token is given by an answer that
/// holds one.
pub proof fn law_answers_graded(a: AnswerView)
    ensures
        enroll_check(a).ok == (a.code == 200 || a.code == 201),
        json::json_parsed(vstd::utf8::encode_utf8(a.body)) matches Some(v) ==> (json::str_member(
            v,
            "agent_token"@,
        ) matches Some(t) ==> (t.len() > 0 ==> given_token(a) == Some(t))),
        given_token(a) matches Some(t) ==> t.len() > 0,
        json::json_parsed(vstd::utf8::encode_utf8(a.body)) is None ==> given_token(a) is None,
        status_text(a.code) == "HTTP "@ + decimal::numeral(a.code as nat),
{
}

/// A resource passes where it accepts the token with 200 and tells the agent back.
pub proof fn law_interop_graded(a: AnswerView)
    ensures
        interop_checks(a)[0].ok == (a.code == 200),
        interop_checks(a).len() == (if a.code == 200 {
            2nat
        } else {
            1nat
        }),
        a.code == 200 ==> (json::json_parsed(vstd::utf8::encode_utf8(a.body)) matches Some(v)
            ==> interop_checks(a)[1].ok == (text::text_position(json::json_text(v), "aauth:"@) is Some)),
{
}

/// A request for a person token passes with 200 or 202. A deferral is followed
/// where that is asked for, to where it says; what comes in the end is graded.
pub proof fn law_person_request_graded(
    a: AnswerView,
    target: Seq<char>,
    resource: Seq<char>,
    poll: bool,
    l: Seq<char>,
)
    ensures
        ({
            let r = person_step(PersonStateView::Asked, a, target, resource, poll);
            &&& r.0[0].ok == (a.code == 200 || a.code == 202)
            &&& a.code != 202 || !poll ==> r.1 is None && r.0 == seq![r.0[0]] + final_checks(
                a,
                resource,
            )
            &&& a.code == 202 && poll && first_header(a.headers, "location"@) == Some(l) ==> r.1
                == Some(
                PersonStateView::Waiting { url: pending_location(target, l), polls: 0 },
            ) && r.0.len() == 2 && r.0[1].ok
            &&& a.code == 202 && poll && first_header(a.headers, "location"@) is None ==> r.1 is None
                && !r.0[1].ok
        }),
{
    let r = person_step(PersonStateView::Asked, a, target, resource, poll);
    if a.code != 202 || !poll {
        assert(r.0 =~= seq![r.0[0]] + final_checks(a, resource));
    }
}

/// A deferral that is asked after goes on while it is deferred, three times at
/// most, and passes where it ends with 200 or 403.
pub proof fn law_waiting_graded(
    a: AnswerView,
    target: Seq<char>,
    resource: Seq<char>,
    poll: bool,
    url: Seq<char>,
    polls: u32,
)
    ensures
        ({
            let r = person_step(PersonStateView::Waiting { url, polls }, a, target, resource, poll);
            &&& a.code == 202 && polls < 2 ==> r.0.len() == 0 && r.1 == Some(
                PersonStateView::Waiting { url, polls: (polls + 1) as u32 },
            )
            &&& a.code != 202 || polls >= 2 ==> r.1 is None && r.0[0].ok == (a.code == 200 || a.code
                == 403) && r.0.skip(1) == final_checks(a, resource)
        }),
{
    let r = person_step(PersonStateView::Waiting { url, polls }, a, target, resource, poll);
    if a.code != 202 || polls >= 2 {
        assert(r.0.skip(1) =~= final_checks(a, resource));
    }
}

/// The last answer is graded by what it is: a token, a deferral that says what is
/// asked for, or neither.
pub proof fn law_last_answer_graded(a: AnswerView, resource: Seq<char>, v: Json, t: JwtView)
    requires
        json::json_parsed(vstd::utf8::encode_utf8(a.body)) == Some(v),
    ensures
        a.code == 200 ==> (json::str_member(v, "person_token"@) matches Some(token) ==> (
        jwt::decoded_jwt(token) == Some(t) ==> final_checks(a, resource) == person_token_checks(
            t,
            resource,
        ))),
        a.code == 200 ==> (json::str_member(v, "person_token"@) matches Some(token) ==> (
        jwt::decoded_jwt(token) is None ==> final_checks(a, resource).len() == 1 && !final_checks(
            a,
            resource,
        )[0].ok)),
        a.code == 200 && json::str_member(v, "person_token"@) is None ==> final_checks(
            a,
            resource,
        ).len() == 1 && !final_checks(a, resource)[0].ok,
        a.code == 202 ==> final_checks(a, resource).len() == 1 && final_checks(a, resource)[0].ok == (
        first_header(a.headers, "aauth-requirement"@) is Some),
        a.code != 200 && a.code != 202 ==> final_checks(a, resource).len() == 0,
{
}

} // verus!
