//! Telling a Person Server that an agent's tokens are revoked. The identifier
//! of every issued token is remembered for as long as the token lives. Telling is
//! best effort: each way it can go gives an outcome, and no error.

use vstd::prelude::*;

use crate::client;
use crate::config::Config;
use crate::json;
use crate::json::{Json, JsonValue};
use crate::keys::KeySet;
use crate::problem;
use crate::sig;
use crate::sigkey;
use crate::storage;
use crate::storage::{Write, WriteView};
use crate::text;

verus! {

/// What the keys of an agent's outstanding tokens begin with.
pub open spec fn issued_prefix(local: Seq<char>) -> Seq<char> {
    "agent_jti:"@ + local + ":"@
}

/// The key of one outstanding token.
pub fn jti_key(local: &str, jti: &str) -> (r: String)
    ensures
        r@ == issued_prefix(local@) + jti@,
{
    text::join2(jti_prefix(local).as_str(), jti)
}

/// What the keys of an agent's outstanding tokens begin with.
pub fn jti_prefix(local: &str) -> (r: String)
    ensures
        r@ == issued_prefix(local@),
{
    text::join3("agent_jti:", local, ":")
}

/// What is stored of an issued token, so that a revocation can name it: nothing
/// where no Person Server is told, where the token is over, or where as many
/// as are remembered at once are remembered already.
pub open spec fn tracked_jti(
    cfg: Config,
    local: Seq<char>,
    jti: Seq<char>,
    exp: u64,
    known: usize,
    now: u64,
) -> Option<WriteView> {
    if !cfg.revocation.notify_ps || exp <= now || known >= cfg.revocation.max_tracked_tokens {
        None
    } else {
        Some(
            WriteView {
                key: issued_prefix(local) + jti,
                value: vstd::utf8::encode_utf8("1"@),
                ttl: Some(storage::millis_of((exp - now) as u64)),
            },
        )
    }
}

/// What is stored of an issued token. `known` of the agent's tokens are stored
/// already.
pub fn record_issued_jti(
    cfg: &Config,
    local: &str,
    jti: &str,
    exp: u64,
    known: usize,
    now: u64,
) -> (r: Option<Write>)
    ensures
        match r {
            Some(w) => tracked_jti(*cfg, local@, jti@, exp, known, now) == Some(w@),
            None => tracked_jti(*cfg, local@, jti@, exp, known, now) is None,
        },
{
    if !cfg.revocation.notify_ps || exp <= now || known >= cfg.revocation.max_tracked_tokens {
        return None;
    }
    Some(
        Write {
            key: jti_key(local, jti),
            value: storage::bytes_of("1"),
            ttl: Some(storage::millis(exp - now)),
        },
    )
}

/// How telling a Person Server went.
pub struct NotifyOutcome {
    /// `sent`, `disabled`, `no_ps`, `no_endpoint` or `failed`.
    pub status: &'static str,
    /// How many outstanding tokens were named.
    pub tokens: usize,
    pub ps: Option<String>,
    pub detail: Option<String>,
}

/// What a [`NotifyOutcome`] holds.
pub struct OutcomeView {
    pub status: Seq<char>,
    pub tokens: nat,
    pub ps: Option<Seq<char>>,
    pub detail: Option<Seq<char>>,
}

/// An outcome as JSON: what it does not have is left out.
pub open spec fn outcome_json(o: OutcomeView) -> Json {
    let m = Map::<Seq<char>, Json>::empty().insert("status"@, Json::Str(o.status)).insert(
        "tokens"@,
        Json::Int(o.tokens as int),
    );
    let m = crate::jwk::with_text(m, "ps"@, o.ps);
    Json::Obj(crate::jwk::with_text(m, "detail"@, o.detail))
}

impl NotifyOutcome {
    /// What the outcome holds.
    pub open spec fn view(&self) -> OutcomeView {
        OutcomeView {
            status: self.status@,
            tokens: self.tokens as nat,
            ps: text::opt_view(self.ps),
            detail: text::opt_view(self.detail),
        }
    }

    fn plain(status: &'static str) -> (r: NotifyOutcome)
        ensures
            r@ == (OutcomeView { status: status@, tokens: 0, ps: None, detail: None }),
    {
        NotifyOutcome { status, tokens: 0, ps: None, detail: None }
    }

    /// The outcome as JSON.
    pub fn to_json(&self) -> (r: JsonValue)
        ensures
            r@ == outcome_json(self@),
    {
        let j = JsonValue::object().with("status", JsonValue::string(self.status)).with(
            "tokens",
            JsonValue::number(self.tokens as u64),
        );
        let j = crate::records::with_optional(j, "ps", &self.ps);
        crate::records::with_optional(j, "detail", &self.detail)
    }
}

/// Why nobody is told; nothing where somebody is.
pub open spec fn untold(cfg: Config, ps: Option<Seq<char>>) -> Option<OutcomeView> {
    if !cfg.revocation.notify_ps {
        Some(OutcomeView { status: "disabled"@, tokens: 0, ps: None, detail: None })
    } else if ps is None {
        Some(OutcomeView { status: "no_ps"@, tokens: 0, ps: None, detail: None })
    } else {
        None
    }
}

/// Whether a Person Server is told of a revocation: the outcome where it is not.
/// Where it is, the keys of the agent's outstanding tokens are looked up next.
pub fn notify_ps(cfg: &Config, ps: &Option<String>) -> (r: Option<NotifyOutcome>)
    ensures
        match r {
            Some(o) => untold(*cfg, text::opt_view(*ps)) == Some(o@),
            None => untold(*cfg, text::opt_view(*ps)) is None,
        },
{
    if !cfg.revocation.notify_ps {
        return Some(NotifyOutcome::plain("disabled"));
    }
    if ps.is_none() {
        return Some(NotifyOutcome::plain("no_ps"));
    }
    None
}

/// The token identifiers that keys end with; a key of another kind gives none.
pub open spec fn named_tokens(prefix: Seq<char>, keys: Seq<Seq<char>>) -> Seq<Seq<char>>
    decreases keys.len(),
{
    if keys.len() == 0 {
        Seq::empty()
    } else {
        let less = named_tokens(prefix, keys.drop_last());
        match text::without_prefix(keys.last(), prefix) {
            Some(jti) => less.push(jti),
            None => less,
        }
    }
}

/// The identifiers of an agent's outstanding tokens, out of the keys that were
/// found. Every one of the keys is deleted: the tokens are being revoked.
pub fn outstanding(local: &str, keys: &Vec<String>) -> (r: Vec<String>)
    ensures
        text::list_view(r@) == named_tokens(issued_prefix(local@), text::list_view(keys@)),
{
    let prefix = jti_prefix(local);
    let ghost all = text::list_view(keys@);
    let mut out: Vec<String> = Vec::new();
    let mut i: usize = 0;
    proof {
        assert(all.take(0) =~= Seq::empty());
        assert(text::list_view(out@) =~= Seq::empty());
    }
    while i < keys.len()
        invariant
            i <= keys@.len(),
            all == text::list_view(keys@),
            prefix@ == issued_prefix(local@),
            text::list_view(out@) == named_tokens(prefix@, all.take(i as int)),
        decreases keys@.len() - i,
    {
        proof {
            assert(all.take(i + 1).drop_last() =~= all.take(i as int));
            assert(all.take(i + 1).last() == keys@[i as int]@);
        }
        if let Some(jti) = text::strip_prefix(keys[i].as_str(), prefix.as_str()) {
            let ghost before = out@;
            out.push(jti);
            proof {
                assert(text::list_view(out@) =~= text::list_view(before).push(jti@));
            }
        }
        i += 1;
    }
    proof {
        assert(all.take(all.len() as int) =~= all);
    }
    out
}

/// The outcome where there is nothing to tell.
pub fn nothing_outstanding(ps: &str) -> (r: NotifyOutcome)
    ensures
        r@ == (OutcomeView {
            status: "sent"@,
            tokens: 0,
            ps: Some(ps@),
            detail: Some("no outstanding tokens"@),
        }),
{
    NotifyOutcome {
        status: "sent",
        tokens: 0,
        ps: Some(ps.to_owned()),
        detail: Some("no outstanding tokens".to_owned()),
    }
}

/// Where a Person Server describes itself.
pub fn metadata_url(ps: &str) -> (r: String)
    ensures
        r@ == ps@ + "/.well-known/aauth-person.json"@,
{
    text::join2(ps, "/.well-known/aauth-person.json")
}

/// The issuer that a document claims; an empty text where it claims none.
pub open spec fn claimed_issuer(doc: Json) -> Seq<char> {
    match json::str_member(doc, "issuer"@) {
        Some(s) => s,
        None => Seq::empty(),
    }
}

/// The revocation endpoint that a Person Server publishes, if it does. The
/// document must claim the server that it was fetched from.
pub open spec fn published_endpoint(ps: Seq<char>, doc: Json) -> Result<
    Option<Seq<char>>,
    Seq<char>,
> {
    if claimed_issuer(doc) != ps {
        Err("PS metadata issuer '"@ + claimed_issuer(doc) + "' does not match "@ + ps)
    } else {
        Ok(json::str_member(doc, "revocation_endpoint"@))
    }
}

/// Reads the revocation endpoint out of a Person Server's document.
pub fn read_endpoint(ps: &str, doc: &JsonValue) -> (r: Result<Option<String>, String>)
    ensures
        match r {
            Ok(e) => published_endpoint(ps@, doc@) == Ok::<Option<Seq<char>>, Seq<char>>(
                text::opt_view(e),
            ),
            Err(e) => published_endpoint(ps@, doc@) == Err::<Option<Seq<char>>, Seq<char>>(e@),
        },
{
    proof {
        reveal_strlit("");
        assert(""@ =~= Seq::<char>::empty());
    }
    let issuer = match doc.str_of("issuer") {
        Some(s) => s.clone(),
        None => "".to_owned(),
    };
    if !text::same(issuer.as_str(), ps) {
        let mut out = text::join3("PS metadata issuer '", issuer.as_str(), "' does not match ");
        out.append(ps);
        return Err(out);
    }
    match doc.str_of("revocation_endpoint") {
        Some(s) => Ok(Some(s.clone())),
        None => Ok(None),
    }
}

/// The endpoint that is called, or the outcome where there is none. `found` is
/// what reading the Person Server's document gave.
pub fn endpoint_or_outcome(ps: &str, tokens: usize, found: Result<Option<String>, String>) -> (r:
    Result<String, NotifyOutcome>)
    ensures
        match found {
            Ok(Some(url)) => r matches Ok(u) && u@ == url@,
            Ok(None) => r matches Err(o) && o@ == (OutcomeView {
                status: "no_endpoint"@,
                tokens: tokens as nat,
                ps: Some(ps@),
                detail: Some("PS metadata publishes no revocation_endpoint"@),
            }),
            Err(e) => r matches Err(o) && o@ == (OutcomeView {
                status: "failed"@,
                tokens: tokens as nat,
                ps: Some(ps@),
                detail: Some(e@),
            }),
        },
{
    match found {
        Ok(Some(url)) => Ok(url),
        Ok(None) => Err(
            NotifyOutcome {
                status: "no_endpoint",
                tokens,
                ps: Some(ps.to_owned()),
                detail: Some("PS metadata publishes no revocation_endpoint".to_owned()),
            },
        ),
        Err(e) => Err(
            NotifyOutcome { status: "failed", tokens, ps: Some(ps.to_owned()), detail: Some(e) },
        ),
    }
}

/// What names a token to a Person Server.
pub open spec fn revocation_json(issuer: Seq<char>, jti: Seq<char>) -> Json {
    Json::Obj(
        Map::<Seq<char>, Json>::empty().insert("iss"@, Json::Str(issuer)).insert(
            "jti"@,
            Json::Str(jti),
        ),
    )
}

/// The request that revokes one token: its body and its headers. The provider
/// signs as itself: the Person Server finds the key through the issuer.
pub fn revocation_request(
    cfg: &Config,
    keys: &KeySet,
    authority: &str,
    path: &str,
    jti: &str,
    now: u64,
) -> (r: (Vec<u8>, Vec<(String, String)>))
    ensures
        r.0@ == crate::records::stored(revocation_json(cfg.issuer@, jti@)),
        sig::signed_headers(
            client::call_parts("POST"@, authority@, path@, Some(r.0@)),
            client::body_components(Some(r.0@)),
            sigkey::jwks_uri_text(cfg.issuer@, "aauth-agent.json"@, keys.active_kid@),
            keys.active_key@,
            now,
        ) matches Some(s) && problem::headers_view(r.1@) == client::all_headers(Some(r.0@), s),
{
    let doc = JsonValue::object().with("iss", JsonValue::string(cfg.issuer.as_str())).with(
        "jti",
        JsonValue::string(jti),
    );
    let body = crate::records::store_json(&doc);
    let scheme = sigkey::serialize_jwks_uri(
        cfg.issuer.as_str(),
        "aauth-agent.json",
        keys.active_kid.as_str(),
    );
    let headers = client::signed_call(
        "POST",
        authority,
        path,
        Some(&body),
        scheme.as_str(),
        &keys.active_key,
        now,
    );
    (body, headers)
}

/// What came back of telling of one token.
pub enum Reply {
    Status(u16),
    Failed(String),
}

/// What a [`Reply`] holds.
pub enum ReplyView {
    Status(u16),
    Failed(Seq<char>),
}

impl Reply {
    /// What came back.
    pub open spec fn view(&self) -> ReplyView {
        match self {
            Reply::Status(c) => ReplyView::Status(*c),
            Reply::Failed(e) => ReplyView::Failed(e@),
        }
    }
}

/// Whether a token is revoked at the Person Server: it said so, or knows no
/// such token.
pub open spec fn settled(r: ReplyView) -> bool {
    match r {
        ReplyView::Status(c) => 200 <= c <= 299 || c == 404,
        ReplyView::Failed(_) => false,
    }
}

/// What is said of a reply that settles nothing.
pub open spec fn complaint(r: ReplyView) -> Seq<char> {
    match r {
        ReplyView::Status(c) => "HTTP "@ + crate::decimal::numeral(c as nat) + " from the PS"@,
        ReplyView::Failed(e) => e,
    }
}

/// What is said of the last reply that settled nothing.
pub open spec fn last_complaint(replies: Seq<ReplyView>) -> Option<Seq<char>>
    decreases replies.len(),
{
    if replies.len() == 0 {
        None
    } else if settled(replies.last()) {
        last_complaint(replies.drop_last())
    } else {
        Some(complaint(replies.last()))
    }
}

/// The views of replies.
pub open spec fn replies_view(s: Seq<Reply>) -> Seq<ReplyView> {
    s.map_values(|r: Reply| r@)
}

/// How telling a Person Server of every token went.
pub open spec fn concluded(ps: Seq<char>, replies: Seq<ReplyView>) -> OutcomeView {
    let detail = last_complaint(replies);
    OutcomeView {
        status: if detail is None {
            "sent"@
        } else {
            "failed"@
        },
        tokens: replies.len(),
        ps: Some(ps),
        detail,
    }
}

/// How telling a Person Server of every token went: one reply for each.
pub fn conclude(ps: &str, replies: &Vec<Reply>) -> (r: NotifyOutcome)
    ensures
        r@ == concluded(ps@, replies_view(replies@)),
{
    let ghost all = replies_view(replies@);
    let mut detail: Option<String> = None;
    let mut i: usize = 0;
    proof {
        assert(all.take(0) =~= Seq::empty());
    }
    while i < replies.len()
        invariant
            i <= replies@.len(),
            all == replies_view(replies@),
            text::opt_view(detail) == last_complaint(all.take(i as int)),
        decreases replies@.len() - i,
    {
        proof {
            assert(all.take(i + 1).drop_last() =~= all.take(i as int));
            assert(all.take(i + 1).last() == replies@[i as int]@);
        }
        match &replies[i] {
            Reply::Status(c) => if !((200 <= *c && *c <= 299) || *c == 404) {
                detail =
                Some(
                    text::join3(
                        "HTTP ",
                        crate::decimal::unsigned(*c as u64).as_str(),
                        " from the PS",
                    ),
                );
            },
            Reply::Failed(e) => {
                detail = Some(e.clone());
            },
        }
        i += 1;
    }
    proof {
        assert(all.take(all.len() as int) =~= all);
    }
    let status = if detail.is_none() {
        "sent"
    } else {
        "failed"
    };
    NotifyOutcome { status, tokens: replies.len(), ps: Some(ps.to_owned()), detail }
}

// ------------------------------------------------------------------ laws

/// Everything that is remembered of an agent's tokens is found again by the
/// agent's prefix, under its own identifier.
pub proof fn law_tracked_token_is_named(
    cfg: Config,
    local: Seq<char>,
    jti: Seq<char>,
    exp: u64,
    known: usize,
    now: u64,
)
    ensures
        tracked_jti(cfg, local, jti, exp, known, now) matches Some(w) ==> named_tokens(
            issued_prefix(local),
            seq![w.key],
        ) == seq![jti],
{
    let p = issued_prefix(local);
    let key = p + jti;
    assert(key.subrange(0, p.len() as int) =~= p);
    assert(key.skip(p.len() as int) =~= jti);
    assert(seq![key].drop_last() =~= Seq::empty());
    assert(named_tokens(p, Seq::empty()) =~= Seq::empty());
    assert(named_tokens(p, seq![key]) =~= seq![jti]);
}

/// Another agent's tokens are not named: a local part holds no colon.
pub proof fn law_only_own_tokens_named(local: Seq<char>, other: Seq<char>, jti: Seq<char>)
    requires
        crate::ident::is_local(local),
        crate::ident::is_local(other),
        issued_prefix(local).is_prefix_of(issued_prefix(other) + jti),
    ensures
        local == other,
{
    reveal_strlit("agent_jti:");
    reveal_strlit(":");
    let p = issued_prefix(local);
    let t = issued_prefix(other) + jti;
    assert(t.subrange(0, p.len() as int) == p);
    assert forall|i: int| 0 <= i < p.len() implies #[trigger] p[i] == t[i] by {
        assert(t.subrange(0, p.len() as int)[i] == t[i]);
    }
    let n = "agent_jti:"@.len() as int;
    assert(p[n + local.len()] == ':');
    assert(t[n + other.len()] == ':');
    if local.len() < other.len() {
        assert(t[n + local.len()] == other[local.len() as int]);
        assert(crate::ident::is_local_char(other[local.len() as int]));
    } else if other.len() < local.len() {
        assert(p[n + other.len()] == local[other.len() as int]);
        assert(crate::ident::is_local_char(local[other.len() as int]));
    }
    assert forall|i: int| 0 <= i < local.len() implies local[i] == other[i] by {
        assert(p[n + i] == local[i]);
        assert(t[n + i] == other[i]);
    }
    assert(local =~= other);
}

/// A Person Server that was told of everything, or knew nothing of it, is told;
/// one reply that settles nothing makes the outcome a failure.
pub proof fn law_sent_means_settled(ps: Seq<char>, replies: Seq<ReplyView>)
    ensures
        (concluded(ps, replies).detail is None) == (forall|i: int|
            0 <= i < replies.len() ==> settled(#[trigger] replies[i])),
    decreases replies.len(),
{
    if replies.len() > 0 {
        let less = replies.drop_last();
        law_sent_means_settled(ps, less);
        if settled(replies.last()) {
            assert forall|i: int| 0 <= i < replies.len() implies (settled(#[trigger] replies[i])
                || i < less.len()) by {
                if i == replies.len() - 1 {
                    assert(replies[i] == replies.last());
                }
            }
            if forall|i: int| 0 <= i < less.len() ==> settled(#[trigger] less[i]) {
                assert forall|i: int| 0 <= i < replies.len() implies settled(
                    #[trigger] replies[i],
                ) by {
                    if i < less.len() {
                        assert(less[i] == replies[i]);
                    }
                }
            } else {
                let k = choose|i: int| 0 <= i < less.len() && !settled(#[trigger] less[i]);
                assert(replies[k] == less[k]);
            }
        } else {
            assert(!settled(replies[replies.len() - 1]));
        }
    }
}

/// A token that is remembered is remembered for as long as it is good: the store has
/// it at every time before the token expires, and no longer. Nothing but the limit, a
/// token that is over, or a provider that tells nobody keeps it from being remembered.
pub proof fn law_remembered_until_expiry(
    cfg: Config,
    local: Seq<char>,
    jti: Seq<char>,
    exp: u64,
    known: usize,
    now: u64,
    store: storage::StoreView,
    at: u64,
    later: u64,
)
    requires
        exp > now,
        at + 1000 * (exp - now) <= u64::MAX,
    ensures
        (tracked_jti(cfg, local, jti, exp, known, now) is Some) == (cfg.revocation.notify_ps
            && known < cfg.revocation.max_tracked_tokens),
        tracked_jti(cfg, local, jti, exp, known, now) matches Some(w) ==> ({
            let slot = storage::SlotView {
                value: w.value,
                deadline: storage::deadline_of(at, w.ttl),
            };
            &&& w.ttl == Some((1000 * (exp - now)) as u64)
            &&& w.key == "agent_jti:"@ + local + ":"@ + jti
            &&& store.written(w.key, slot).alive(w.key, later) == (later < at + 1000 * (exp - now))
        }),
        tracked_jti(cfg, local, jti, exp, known, exp) is None,
{
}

/// The tokens that are told of are those that were remembered: each of an agent's
/// keys gives its identifier, in order, and a key of another kind gives none.
pub proof fn law_every_remembered_token_is_named(
    local: Seq<char>,
    keys: Seq<Seq<char>>,
    jti: Seq<char>,
    other: Seq<char>,
)
    ensures
        named_tokens(issued_prefix(local), Seq::empty()).len() == 0,
        named_tokens(issued_prefix(local), keys.push("agent_jti:"@ + local + ":"@ + jti))
            == named_tokens(issued_prefix(local), keys).push(jti),
        !issued_prefix(local).is_prefix_of(other) ==> named_tokens(
            issued_prefix(local),
            keys.push(other),
        ) == named_tokens(issued_prefix(local), keys),
{
    let prefix = issued_prefix(local);
    let key = "agent_jti:"@ + local + ":"@ + jti;
    assert(keys.push(key).drop_last() =~= keys);
    assert(keys.push(other).drop_last() =~= keys);
    assert(key =~= prefix + jti);
    assert(key.take(prefix.len() as int) =~= prefix);
    assert(key.skip(prefix.len() as int) =~= jti);
}

/// A Person Server is told wherever an agent has one and the provider tells at all.
pub proof fn law_who_is_told(cfg: Config, ps: Option<Seq<char>>)
    ensures
        (untold(cfg, ps) is None) == (cfg.revocation.notify_ps && ps is Some),
        !cfg.revocation.notify_ps ==> (untold(cfg, ps) matches Some(o) && o.status == "disabled"@
            && o.tokens == 0),
        cfg.revocation.notify_ps && ps is None ==> (untold(cfg, ps) matches Some(o) && o.status
            == "no_ps"@ && o.tokens == 0),
{
}

/// A Person Server's document counts only where it is that of the server, and then
/// says where revocations go.
pub proof fn law_endpoint_of_the_server(ps: Seq<char>, doc: Json, url: Seq<char>)
    requires
        ps.len() > 0,
    ensures
        json::json_get(doc, "issuer"@) == Some(Json::Str(ps)) && json::json_get(
            doc,
            "revocation_endpoint"@,
        ) == Some(Json::Str(url)) ==> published_endpoint(ps, doc) == Ok::<
            Option<Seq<char>>,
            Seq<char>,
        >(Some(url)),
        json::json_get(doc, "issuer"@) == Some(Json::Str(ps)) && json::json_get(
            doc,
            "revocation_endpoint"@,
        ) is None ==> published_endpoint(ps, doc) == Ok::<Option<Seq<char>>, Seq<char>>(None),
        json::json_get(doc, "issuer"@) != Some(Json::Str(ps)) ==> published_endpoint(ps, doc) is Err,
{
}

/// A revocation names the provider and the token, and nothing else.
pub proof fn law_revocation_names_token(issuer: Seq<char>, jti: Seq<char>, name: Seq<char>)
    ensures
        json::json_get(revocation_json(issuer, jti), "iss"@) == Some(Json::Str(issuer)),
        json::json_get(revocation_json(issuer, jti), "jti"@) == Some(Json::Str(jti)),
        name != "iss"@ && name != "jti"@ ==> json::json_get(revocation_json(issuer, jti), name)
            is None,
{
    reveal_strlit("iss");
    reveal_strlit("jti");
    assert("iss"@.len() == 3 && "jti"@.len() == 3);
    assert("iss"@[0] == 'i');
    assert("jti"@[0] == 'j');
}

/// How a revocation went, in numbers and words: every token that was told of is
/// counted; it was sent where each reply was a success or told that the token is not
/// known, and failed with the last complaint otherwise.
pub proof fn law_outcome_of_telling(ps: Seq<char>, replies: Seq<ReplyView>, code: u16, e: Seq<char>)
    ensures
        concluded(ps, replies).tokens == replies.len(),
        concluded(ps, replies).ps == Some(ps),
        (concluded(ps, replies).status == "sent"@) == (concluded(ps, replies).detail is None),
        (concluded(ps, replies).status == "failed"@) == (concluded(ps, replies).detail is Some),
        settled(ReplyView::Status(code)) == (code == 404 || 200 <= code < 300),
        !settled(ReplyView::Failed(e)),
        concluded(ps, replies.push(ReplyView::Failed(e))).detail == Some(e),
        code != 404 && !(200 <= code < 300) ==> concluded(
            ps,
            replies.push(ReplyView::Status(code)),
        ).detail == Some("HTTP "@ + crate::decimal::numeral(code as nat) + " from the PS"@),
{
    reveal_strlit("sent");
    reveal_strlit("failed");
    assert("sent"@.len() == 4 && "failed"@.len() == 6);
    assert(replies.push(ReplyView::Failed(e)).drop_last() =~= replies);
    assert(replies.push(ReplyView::Status(code)).drop_last() =~= replies);
}

/// An outcome is told under these names.
pub proof fn law_outcome_members(o: OutcomeView)
    ensures
        json::json_get(outcome_json(o), "status"@) == Some(Json::Str(o.status)),
        json::json_get(outcome_json(o), "tokens"@) == Some(Json::Int(o.tokens as int)),
        json::str_member(outcome_json(o), "ps"@) == o.ps,
        json::str_member(outcome_json(o), "detail"@) == o.detail,
{
    reveal_strlit("status");
    reveal_strlit("tokens");
    reveal_strlit("ps");
    reveal_strlit("detail");
    assert("status"@.len() == 6 && "tokens"@.len() == 6 && "ps"@.len() == 2 && "detail"@.len() == 6);
    assert("status"@[0] == 's');
    assert("tokens"@[0] == 't');
    assert("detail"@[0] == 'd');
}

} // verus!
