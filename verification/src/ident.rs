//! Identifiers: servers (`https://host`) and agents (`aauth:local@domain`).

use vstd::prelude::*;

use crate::decimal;
use crate::text;

verus! {

/// An identifier that is not well formed.
#[derive(Debug, Clone, Copy, PartialEq, Eq)]
pub struct IdentError;

/// A character of a host name: a lower-case letter, a digit, a hyphen or a dot.
pub open spec fn is_host_char(c: char) -> bool {
    'a' <= c <= 'z' || '0' <= c <= '9' || c == '-' || c == '.'
}

/// A host name, in lower case.
pub open spec fn is_host(s: Seq<char>) -> bool {
    s.len() > 0 && forall|i: int| 0 <= i < s.len() ==> is_host_char(#[trigger] s[i])
}

/// A port number.
pub open spec fn is_port(s: Seq<char>) -> bool {
    s.len() > 0 && decimal::all_digits(s) && decimal::digits_value(s) <= 65535
}

/// A host name, with a port behind a colon or without one.
pub open spec fn is_host_port(s: Seq<char>) -> bool {
    match text::position(s, ':') {
        None => is_host(s),
        Some(i) => is_host(s.take(i as int)) && is_port(s.skip(i as int + 1)),
    }
}

/// Whether `s` identifies a server: `https://` and a host name. In development
/// `http://` and a port are accepted too.
pub open spec fn is_server_identifier(s: Seq<char>, insecure: bool) -> bool {
    match text::without_prefix(s, "https://"@) {
        Some(rest) => is_host(rest) || insecure && is_host_port(rest),
        None => insecure && match text::without_prefix(s, "http://"@) {
            Some(rest) => is_host_port(rest),
            None => false,
        },
    }
}

fn host_char(c: char) -> (r: bool)
    ensures
        r == is_host_char(c),
{
    ('a' <= c && c <= 'z') || ('0' <= c && c <= '9') || c == '-' || c == '.'
}

/// Whether `chars` is a host name.
pub fn host_name(chars: &[char]) -> (r: bool)
    ensures
        r == is_host(chars@),
{
    let mut i: usize = 0;
    while i < chars.len()
        invariant
            i <= chars@.len(),
            forall|j: int| 0 <= j < i ==> is_host_char(#[trigger] chars@[j]),
        decreases chars@.len() - i,
    {
        if !host_char(chars[i]) {
            return false;
        }
        i += 1;
    }
    chars.len() > 0
}

fn port(s: &str) -> (r: bool)
    ensures
        r == is_port(s@),
{
    let a = text::to_chars(s);
    let mut i: usize = 0;
    while i < a.len()
        invariant
            i <= a@.len(),
            a@ == s@,
            forall|j: int| 0 <= j < i ==> decimal::is_digit(#[trigger] s@[j]),
        decreases a@.len() - i,
    {
        if a[i] < '0' || a[i] > '9' {
            return false;
        }
        i += 1;
    }
    proof {
        if s@.len() > 0 {
            assert(decimal::is_digit(s@[0]));
        }
    }
    match decimal::parse_unsigned(s) {
        Some(n) => n <= 65535,
        None => false,
    }
}

fn host_port(s: &str) -> (r: bool)
    ensures
        r == is_host_port(s@),
{
    let a = text::to_chars(s);
    match text::find(&a, ':') {
        None => host_name(&a),
        Some(i) => {
            let head = vstd::slice::slice_subrange(a.as_slice(), 0, i);
            let tail = text::slice_text(&a, i + 1, a.len());
            proof {
                assert(head@ =~= s@.take(i as int));
                assert(tail@ =~= s@.skip(i + 1));
            }
            host_name(head) && port(tail.as_str())
        },
    }
}

/// Checks a server identifier.
pub fn validate_server_identifier(s: &str, insecure: bool) -> (r: Result<(), IdentError>)
    ensures
        r is Ok == is_server_identifier(s@, insecure),
{
    let ok = match text::strip_prefix(s, "https://") {
        Some(rest) => {
            let a = text::to_chars(rest.as_str());
            host_name(&a) || (insecure && host_port(rest.as_str()))
        },
        None => insecure && match text::strip_prefix(s, "http://") {
            Some(rest) => host_port(rest.as_str()),
            None => false,
        },
    };
    if ok {
        Ok(())
    } else {
        Err(IdentError)
    }
}

/// A character that ends the authority of a URL.
pub open spec fn ends_authority(c: char) -> bool {
    c == '/' || c == '?' || c == '#'
}

/// `s` up to the path, the query or the fragment.
pub open spec fn authority_of(s: Seq<char>) -> Seq<char>
    decreases s.len(),
{
    if s.len() == 0 || ends_authority(s[0]) {
        Seq::empty()
    } else {
        seq![s[0]] + authority_of(s.drop_first())
    }
}

/// `s` without the port behind its last colon.
pub open spec fn without_port(s: Seq<char>) -> Seq<char> {
    match text::last_position(s, ':') {
        Some(i) => if decimal::all_digits(s.skip(i as int + 1)) {
            s.take(i as int)
        } else {
            s
        },
        None => s,
    }
}

/// What follows the scheme of an `https` or `http` URL.
pub open spec fn after_scheme(url: Seq<char>) -> Option<Seq<char>> {
    match text::without_prefix(url, "https://"@) {
        Some(rest) => Some(rest),
        None => text::without_prefix(url, "http://"@),
    }
}

/// The host of an `https` or `http` URL.
pub open spec fn url_host(url: Seq<char>) -> Option<Seq<char>> {
    match after_scheme(url) {
        Some(rest) => {
            let host = without_port(authority_of(rest));
            if host.len() == 0 {
                None
            } else {
                Some(host)
            }
        },
        None => None,
    }
}

/// `s` up to the path, the query or the fragment.
pub fn authority(s: &str) -> (r: String)
    ensures
        r@ == authority_of(s@),
{
    let a = text::to_chars(s);
    let mut i: usize = 0;
    proof {
        assert(s@.skip(0) =~= s@);
        assert(s@.take(0) + authority_of(s@) =~= authority_of(s@));
    }
    while i < a.len() && !(a[i] == '/' || a[i] == '?' || a[i] == '#')
        invariant
            i <= a@.len(),
            a@ == s@,
            s@.take(i as int) + authority_of(s@.skip(i as int)) == authority_of(s@),
        decreases a@.len() - i,
    {
        proof {
            let rest = s@.skip(i as int);
            assert(rest.drop_first() =~= s@.skip(i + 1));
            assert(s@.take(i + 1) + authority_of(s@.skip(i + 1)) =~= s@.take(i as int) + (
            seq![rest[0]] + authority_of(rest.drop_first())));
        }
        i += 1;
    }
    let out = text::slice_text(&a, 0, i);
    proof {
        assert(out@ =~= s@.take(i as int) + Seq::<char>::empty());
    }
    out
}

/// `s` without the port behind its last colon.
pub fn strip_port(s: &str) -> (r: String)
    ensures
        r@ == without_port(s@),
{
    let a = text::to_chars(s);
    match text::rfind(&a, ':') {
        Some(i) => {
            let mut k: usize = i + 1;
            while k < a.len()
                invariant
                    i < k <= a@.len(),
                    a@ == s@,
                    forall|j: int| i < j < k ==> decimal::is_digit(#[trigger] s@[j]),
                    text::last_position(s@, ':') == Some(i as nat),
                decreases a@.len() - k,
            {
                if a[k] < '0' || a[k] > '9' {
                    proof {
                        assert(s@.skip(i + 1)[k - i - 1] == s@[k as int]);
                    }
                    return s.to_owned();
                }
                k += 1;
            }
            let out = text::slice_text(&a, 0, i);
            proof {
                assert forall|j: int| 0 <= j < s@.skip(i + 1).len() implies decimal::is_digit(
                    #[trigger] s@.skip(i + 1)[j],
                ) by {
                    assert(s@.skip(i + 1)[j] == s@[i + 1 + j]);
                }
                assert(out@ =~= s@.take(i as int));
            }
            out
        },
        None => s.to_owned(),
    }
}

/// The host of an `https` or `http` URL.
pub fn host_of(url: &str) -> (r: Option<String>)
    ensures
        text::opt_view(r) == url_host(url@),
{
    let rest = match text::strip_prefix(url, "https://") {
        Some(rest) => rest,
        None => match text::strip_prefix(url, "http://") {
            Some(rest) => rest,
            None => {
                return None;
            },
        },
    };
    let whole = authority(rest.as_str());
    let host = strip_port(whole.as_str());
    if host.as_str().is_empty() {
        None
    } else {
        Some(host)
    }
}

/// A server identifier that is accepted outside development has a host.
pub proof fn law_server_identifier_has_host(s: Seq<char>)
    requires
        is_server_identifier(s, false),
    ensures
        url_host(s) == text::without_prefix(s, "https://"@),
{
    let rest = text::without_prefix(s, "https://"@).unwrap();
    lemma_host_is_authority(rest);
    text::lemma_last_position(rest, ':');
    if let Some(i) = text::last_position(rest, ':') {
        assert(is_host_char(rest[i as int]));
    }
}

/// A server identifier has a host, in development too.
pub proof fn lemma_identifier_has_host(s: Seq<char>, insecure: bool)
    requires
        is_server_identifier(s, insecure),
    ensures
        url_host(s) is Some,
        is_host(url_host(s).unwrap()),
{
    let rest = after_scheme(s).unwrap();
    text::lemma_last_position(rest, ':');
    text::lemma_position(rest, ':');
    if is_host(rest) {
        lemma_host_is_authority(rest);
        if let Some(i) = text::last_position(rest, ':') {
            assert(is_host_char(rest[i as int]));
        }
    } else {
        let i = text::position(rest, ':').unwrap() as int;
        let head = rest.take(i);
        let tail = rest.skip(i + 1);
        assert forall|j: int| 0 <= j < rest.len() implies !ends_authority(#[trigger] rest[j]) by {
            if j < i {
                assert(is_host_char(head[j]));
            } else if j > i {
                assert(decimal::is_digit(tail[j - i - 1]));
            }
        }
        lemma_authority_whole(rest);
        let k = text::last_position(rest, ':').unwrap() as int;
        if k > i {
            assert(decimal::is_digit(tail[k - i - 1]));
        }
        assert(k == i);
    }
}

proof fn lemma_authority_whole(s: Seq<char>)
    requires
        forall|j: int| 0 <= j < s.len() ==> !ends_authority(#[trigger] s[j]),
    ensures
        authority_of(s) == s,
    decreases s.len(),
{
    if s.len() > 0 {
        let t = s.drop_first();
        assert forall|j: int| 0 <= j < t.len() implies !ends_authority(#[trigger] t[j]) by {
            assert(t[j] == s[j + 1]);
        }
        lemma_authority_whole(t);
        assert(seq![s[0]] + t =~= s);
    } else {
        assert(s =~= Seq::<char>::empty());
    }
}

pub proof fn lemma_host_is_authority(s: Seq<char>)
    requires
        is_host(s),
    ensures
        authority_of(s) == s,
{
    assert forall|j: int| 0 <= j < s.len() implies !ends_authority(#[trigger] s[j]) by {
        assert(is_host_char(s[j]));
    }
    lemma_authority_whole(s);
}

/// A character of a local part.
pub open spec fn is_local_char(c: char) -> bool {
    'a' <= c <= 'z' || '0' <= c <= '9' || c == '.' || c == '_' || c == '-' || c == '+'
}

/// A local part: 1 to 255 characters.
pub open spec fn is_local(s: Seq<char>) -> bool {
    0 < s.len() <= 255 && forall|i: int| 0 <= i < s.len() ==> is_local_char(#[trigger] s[i])
}

/// A discriminator: a local part without a plus sign, of any length.
pub open spec fn is_discriminator(s: Seq<char>) -> bool {
    s.len() > 0 && forall|i: int|
        0 <= i < s.len() ==> is_local_char(#[trigger] s[i]) && s[i] != '+'
}

/// The text of an agent identifier.
pub open spec fn agent_text(local: Seq<char>, domain: Seq<char>) -> Seq<char> {
    "aauth:"@ + local + "@"@ + domain
}

/// The local part that a text names: what stands between `aauth:` and its last
/// `@`, nothing where it has not that form.
pub open spec fn local_of(id: Seq<char>) -> Seq<char> {
    match text::without_prefix(id, "aauth:"@) {
        Some(rest) => match text::last_position(rest, '@') {
            Some(i) => rest.take(i as int),
            None => Seq::empty(),
        },
        None => Seq::empty(),
    }
}

/// The parts of a well-formed agent identifier.
pub open spec fn agent_parts(id: Seq<char>) -> Option<(Seq<char>, Seq<char>)> {
    match text::without_prefix(id, "aauth:"@) {
        Some(rest) => match text::last_position(rest, '@') {
            Some(i) => {
                let local = rest.take(i as int);
                let domain = rest.skip(i as int + 1);
                if is_local(local) && is_host(domain) {
                    Some((local, domain))
                } else {
                    None
                }
            },
            None => None,
        },
        None => None,
    }
}

fn local_char(c: char) -> (r: bool)
    ensures
        r == is_local_char(c),
{
    ('a' <= c && c <= 'z') || ('0' <= c && c <= '9') || c == '.' || c == '_' || c == '-' || c
        == '+'
}

fn all_local(a: &[char], plus: bool) -> (r: bool)
    ensures
        r == forall|i: int|
            0 <= i < a@.len() ==> is_local_char(#[trigger] a@[i]) && (plus || a@[i] != '+'),
{
    let mut i: usize = 0;
    while i < a.len()
        invariant
            i <= a@.len(),
            forall|j: int| 0 <= j < i ==> is_local_char(#[trigger] a@[j]) && (plus || a@[j] != '+'),
        decreases a@.len() - i,
    {
        if !local_char(a[i]) || (!plus && a[i] == '+') {
            return false;
        }
        i += 1;
    }
    true
}

/// Whether `s` may tell a sub-agent from its siblings.
pub fn valid_discriminator(s: &str) -> (r: bool)
    ensures
        r == is_discriminator(s@),
{
    let a = text::to_chars(s);
    a.len() > 0 && all_local(&a, false)
}

/// The local part of an agent identifier.
pub fn local_part(id: &str) -> (r: String)
    ensures
        r@ == local_of(id@),
{
    match text::strip_prefix(id, "aauth:") {
        Some(rest) => {
            let a = text::to_chars(rest.as_str());
            match text::rfind(&a, '@') {
                Some(i) => {
                    let out = text::slice_text(&a, 0, i);
                    proof {
                        assert(out@ =~= rest@.take(i as int));
                    }
                    out
                },
                None => String::new(),
            }
        },
        None => String::new(),
    }
}

/// An agent identifier.
pub struct AgentId {
    local: String,
    domain: String,
}

impl AgentId {
    #[verifier::type_invariant]
    spec fn well_formed(self) -> bool {
        is_local(self.local@) && is_host(self.domain@)
    }

    /// The local part.
    pub closed spec fn local(&self) -> Seq<char> {
        self.local@
    }

    /// The domain.
    pub closed spec fn domain(&self) -> Seq<char> {
        self.domain@
    }

    /// The text of the identifier.
    pub open spec fn view(&self) -> Seq<char> {
        agent_text(self.local(), self.domain())
    }

    /// The identifier of an agent of a domain.
    pub fn new(local: &str, domain: &str) -> (r: Result<AgentId, IdentError>)
        ensures
            match r {
                Ok(id) => is_local(local@) && is_host(domain@) && id.local() == local@
                    && id.domain() == domain@,
                Err(_) => !is_local(local@) || !is_host(domain@),
            },
    {
        let a = text::to_chars(local);
        let d = text::to_chars(domain);
        if a.len() > 0 && a.len() <= 255 && all_local(&a, true) && host_name(&d) {
            Ok(AgentId { local: local.to_owned(), domain: domain.to_owned() })
        } else {
            Err(IdentError)
        }
    }

    /// Reads an agent identifier.
    pub fn parse(id: &str) -> (r: Result<AgentId, IdentError>)
        ensures
            match r {
                Ok(a) => agent_parts(id@) == Some((a.local(), a.domain())),
                Err(_) => agent_parts(id@) is None,
            },
    {
        match text::strip_prefix(id, "aauth:") {
            Some(rest) => {
                let a = text::to_chars(rest.as_str());
                match text::rfind(&a, '@') {
                    Some(i) => {
                        let local = text::slice_text(&a, 0, i);
                        let domain = text::slice_text(&a, i + 1, a.len());
                        proof {
                            assert(local@ =~= rest@.take(i as int));
                            assert(domain@ =~= rest@.skip(i + 1));
                        }
                        AgentId::new(local.as_str(), domain.as_str())
                    },
                    None => Err(IdentError),
                }
            },
            None => Err(IdentError),
        }
    }

    /// The text of the identifier.
    pub fn to_text(&self) -> (r: String)
        ensures
            r@ == self@,
            is_local(self.local()),
            is_host(self.domain()),
    {
        proof {
            use_type_invariant(self);
        }
        let mut out = "aauth:".to_owned();
        out.append(self.local.as_str());
        out.append("@");
        out.append(self.domain.as_str());
        out
    }

    /// Whether the local part is that of a sub-agent.
    pub fn is_subagent_named(&self) -> (r: bool)
        ensures
            r == self.local().contains('+'),
    {
        text::contains_char(self.local.as_str(), '+')
    }

    /// The identifier of a sub-agent: the parent's local part, a plus sign and
    /// the discriminator.
    pub fn subagent(&self, discriminator: &str) -> (r: Result<AgentId, IdentError>)
        ensures
            match r {
                Ok(id) => is_discriminator(discriminator@) && id.local() == self.local() + "+"@
                    + discriminator@ && id.domain() == self.domain() && is_local(id.local()),
                Err(_) => !is_discriminator(discriminator@) || self.local().len() + 1
                    + discriminator@.len() > 255,
            },
    {
        proof {
            use_type_invariant(self);
            reveal_strlit("+");
        }
        if !valid_discriminator(discriminator) {
            return Err(IdentError);
        }
        let local = text::join3(self.local.as_str(), "+", discriminator);
        proof {
            assert forall|i: int| 0 <= i < local@.len() implies is_local_char(
                #[trigger] local@[i],
            ) by {
                if i < self.local@.len() {
                    assert(local@[i] == self.local@[i]);
                } else if i > self.local@.len() {
                    assert(local@[i] == discriminator@[i - self.local@.len() - 1]);
                }
            }
        }
        AgentId::new(local.as_str(), self.domain.as_str())
    }
}

/// Reading the text of an agent identifier gives its parts back.
pub proof fn law_agent_round_trip(local: Seq<char>, domain: Seq<char>)
    requires
        is_local(local),
        is_host(domain),
    ensures
        agent_parts(agent_text(local, domain)) == Some((local, domain)),
        local_of(agent_text(local, domain)) == local,
{
    reveal_strlit("aauth:");
    reveal_strlit("@");
    let id = agent_text(local, domain);
    let rest = local + "@"@ + domain;
    assert("aauth:"@.is_prefix_of(id)) by {
        assert(id.subrange(0, 6) =~= "aauth:"@);
    }
    assert(id.skip(6) =~= rest);
    text::lemma_last_position(rest, '@');
    let i = local.len() as int;
    assert(rest[i] == '@');
    assert forall|j: int| i < j < rest.len() implies rest[j] != '@' by {
        assert(rest[j] == domain[j - i - 1]);
        assert(is_host_char(domain[j - i - 1]));
    }
    assert(rest.take(i) =~= local);
    assert(rest.skip(i + 1) =~= domain);
}

/// Two agents, each top level, that name their sub-agents alike are one agent,
/// and the sub-agent is one: its local part tells both apart.
pub proof fn law_subagent_tells_parent(
    parent_a: Seq<char>,
    disc_a: Seq<char>,
    parent_b: Seq<char>,
    disc_b: Seq<char>,
)
    requires
        !parent_a.contains('+'),
        !parent_b.contains('+'),
        parent_a + "+"@ + disc_a == parent_b + "+"@ + disc_b,
    ensures
        parent_a == parent_b,
        disc_a == disc_b,
{
    reveal_strlit("+");
    let s = parent_a + "+"@ + disc_a;
    let t = parent_b + "+"@ + disc_b;
    let a = parent_a.len() as int;
    let b = parent_b.len() as int;
    assert(s[a] == '+');
    assert(t[b] == '+');
    if a < b {
        assert(t[a] == parent_b[a]);
    } else if b < a {
        assert(s[b] == parent_a[b]);
    }
    assert(parent_a =~= s.take(a));
    assert(parent_b =~= t.take(b));
    assert(disc_a =~= s.skip(a + 1));
    assert(disc_b =~= t.skip(b + 1));
}

/// Outside development a server is `https://` and a host name, and nothing else.
pub proof fn law_server_is_https(s: Seq<char>, host: Seq<char>)
    ensures
        is_server_identifier("https://"@ + host, false) == is_host(host),
        is_server_identifier(s, false) ==> exists|h: Seq<char>|
            is_host(h) && s == #[trigger] ("https://"@ + h),
        !is_server_identifier("http://"@ + host, false),
{
    reveal_strlit("https://");
    reveal_strlit("http://");
    assert(("https://"@ + host).skip(8) =~= host);
    assert("https://"@.is_prefix_of("https://"@ + host));
    if is_server_identifier(s, false) {
        let h = s.skip(8);
        assert(s =~= "https://"@ + h);
    }
    if "https://"@.is_prefix_of("http://"@ + host) {
        assert(("http://"@ + host)[4] == "http://"@[4]);
        assert(("http://"@ + host)[4] == "https://"@[4]);
        assert("http://"@[4] == ':' && "https://"@[4] == 's');
    }
}

/// In development a server may be reached by plain `http`, and by a port.
pub proof fn law_development_server(host: Seq<char>, port: Seq<char>)
    requires
        is_host(host),
        port.len() > 0,
        decimal::all_digits(port),
        decimal::digits_value(port) <= 65535,
    ensures
        is_server_identifier("http://"@ + host, true),
        is_server_identifier("https://"@ + host, true),
        is_server_identifier("http://"@ + (host + ":"@ + port), true),
        is_server_identifier("https://"@ + (host + ":"@ + port), true),
        !is_server_identifier("https://"@ + (host + ":"@ + port), false),
{
    lemma_host_and_port(host, port);
    lemma_behind_scheme(host);
    lemma_behind_scheme(host + ":"@ + port);
}

pub proof fn lemma_behind_scheme(rest: Seq<char>)
    ensures
        text::without_prefix("https://"@ + rest, "https://"@) == Some(rest),
        text::without_prefix("http://"@ + rest, "https://"@) is None,
        text::without_prefix("http://"@ + rest, "http://"@) == Some(rest),
{
    reveal_strlit("https://");
    reveal_strlit("http://");
    assert(("https://"@ + rest).skip(8) =~= rest);
    assert(("http://"@ + rest).skip(7) =~= rest);
    assert("https://"@.is_prefix_of("https://"@ + rest));
    assert("http://"@.is_prefix_of("http://"@ + rest));
    assert(("http://"@ + rest)[4] == ':' && "https://"@[4] == 's');
    if "https://"@.is_prefix_of("http://"@ + rest) {
        assert(("http://"@ + rest).subrange(0, 8)[4] == "https://"@[4]);
    }
}

proof fn lemma_host_and_port(host: Seq<char>, port: Seq<char>)
    requires
        is_host(host),
        is_port(port),
    ensures
        is_host_port(host),
        is_host_port(host + ":"@ + port),
        !is_host(host + ":"@ + port),
{
    reveal_strlit(":");
    let hp = host + ":"@ + port;
    text::lemma_position(host, ':');
    if let Some(i) = text::position(host, ':') {
        assert(is_host_char(host[i as int]));
    }
    assert(hp[host.len() as int] == ':');
    assert forall|j: int| 0 <= j < host.len() implies hp[j] != ':' by {
        assert(is_host_char(host[j]));
        assert(hp[j] == host[j]);
    }
    text::lemma_position_is(hp, ':', host.len() as int);
    assert(hp.take(host.len() as int) =~= host);
    assert(hp.skip(host.len() as int + 1) =~= port);
    assert(!is_host_char(hp[host.len() as int]));
}

/// The host of a URL is what stands between the scheme and the port, the path,
/// the query or the fragment.
pub proof fn law_host_of_url(host: Seq<char>, port: Seq<char>, tail: Seq<char>)
    requires
        is_host(host),
        decimal::all_digits(port),
        tail.len() == 0 || tail[0] == '/' || tail[0] == '?' || tail[0] == '#',
    ensures
        url_host("https://"@ + (host + ":"@ + port + tail)) == Some(host),
        url_host("http://"@ + (host + ":"@ + port + tail)) == Some(host),
        url_host("https://"@ + (host + tail)) == Some(host),
        url_host("http://"@ + (host + tail)) == Some(host),
{
    reveal_strlit("https://");
    reveal_strlit("http://");
    reveal_strlit(":");
    let hp = host + ":"@ + port;
    assert forall|j: int| 0 <= j < hp.len() implies !ends_authority(#[trigger] hp[j]) by {
        if j < host.len() {
            assert(is_host_char(host[j]));
            assert(hp[j] == host[j]);
        } else if j > host.len() {
            assert(hp[j] == port[j - host.len() - 1]);
            assert(decimal::is_digit(port[j - host.len() - 1]));
        }
    }
    assert forall|j: int| 0 <= j < host.len() implies !ends_authority(#[trigger] host[j]) by {
        assert(is_host_char(host[j]));
    }
    lemma_authority_stops(hp, tail);
    lemma_authority_stops(host, tail);
    lemma_after_either_scheme(hp + tail);
    lemma_after_either_scheme(host + tail);
    assert(host + ":"@ + port + tail =~= hp + tail);
    text::lemma_last_position(hp, ':');
    let i = text::last_position(hp, ':');
    assert(i is Some) by {
        assert(hp[host.len() as int] == ':');
    }
    assert(i == Some(host.len())) by {
        assert(hp[host.len() as int] == ':');
        let n = i->0 as int;
        if n > host.len() {
            assert(decimal::is_digit(port[n - host.len() - 1]));
        }
    }
    assert(hp.skip(host.len() as int + 1) =~= port);
    assert(hp.take(host.len() as int) =~= host);
    text::lemma_last_position(host, ':');
    assert(text::last_position(host, ':') is None) by {
        if let Some(j) = text::last_position(host, ':') {
            assert(is_host_char(host[j as int]));
        }
    }
}

pub proof fn lemma_after_either_scheme(rest: Seq<char>)
    ensures
        after_scheme("https://"@ + rest) == Some(rest),
        after_scheme("http://"@ + rest) == Some(rest),
{
    lemma_behind_scheme(rest);
}

proof fn lemma_authority_stops(s: Seq<char>, tail: Seq<char>)
    requires
        forall|j: int| 0 <= j < s.len() ==> !ends_authority(#[trigger] s[j]),
        tail.len() == 0 || tail[0] == '/' || tail[0] == '?' || tail[0] == '#',
    ensures
        authority_of(s + tail) == s,
    decreases s.len(),
{
    if s.len() == 0 {
        assert(s + tail =~= tail);
        assert(s =~= Seq::empty());
    } else {
        assert((s + tail)[0] == s[0]);
        assert((s + tail).drop_first() =~= s.drop_first() + tail);
        lemma_authority_stops(s.drop_first(), tail);
        assert(seq![s[0]] + s.drop_first() =~= s);
    }
}

/// What reads as an agent identifier is `aauth:`, a local part, an at sign and a
/// domain, and is read as these.
pub proof fn law_agent_identifier(id: Seq<char>)
    ensures
        agent_parts(id) matches Some((local, domain)) ==> id == "aauth:"@ + local + "@"@ + domain
            && is_local(local) && is_host(domain) && local_of(id) == local,
{
    reveal_strlit("aauth:");
    reveal_strlit("@");
    if let Some((local, domain)) = agent_parts(id) {
        let rest = id.skip(6);
        text::lemma_last_position(rest, '@');
        assert(id =~= "aauth:"@ + local + "@"@ + domain);
    }
}

/// Which characters the parts of identifiers are made of.
pub proof fn law_identifier_characters(s: Seq<char>, i: int)
    requires
        0 <= i < s.len(),
    ensures
        is_host(s) ==> 'a' <= s[i] <= 'z' || '0' <= s[i] <= '9' || s[i] == '-' || s[i] == '.',
        is_local(s) ==> s.len() <= 255 && ('a' <= s[i] <= 'z' || '0' <= s[i] <= '9' || s[i] == '.'
            || s[i] == '_' || s[i] == '-' || s[i] == '+'),
        is_discriminator(s) ==> s[i] != '+' && ('a' <= s[i] <= 'z' || '0' <= s[i] <= '9' || s[i]
            == '.' || s[i] == '_' || s[i] == '-'),
{
    if is_host(s) {
        assert(is_host_char(s[i]));
    }
    if is_local(s) || is_discriminator(s) {
        assert(is_local_char(s[i]));
    }
}

/// Every text of such characters is one of these parts, where it is not empty
/// and, for a local part, not too long.
pub proof fn law_identifier_parts(s: Seq<char>)
    requires
        s.len() > 0,
        forall|i: int| 0 <= i < s.len() ==> 'a' <= s[i] <= 'z' || '0' <= s[i] <= '9' || s[i] == '.'
            || s[i] == '_' || s[i] == '-' || s[i] == '+',
    ensures
        is_local(s) == (s.len() <= 255),
        is_discriminator(s) == !s.contains('+'),
        is_host(s) == (!s.contains('_') && !s.contains('+')),
        !is_host(Seq::empty()) && !is_local(Seq::empty()) && !is_discriminator(Seq::empty()),
{
    if s.contains('+') {
        let i = choose|i: int| 0 <= i < s.len() && s[i] == '+';
        assert(s[i] == '+');
        assert(!is_host_char(s[i]));
    }
    if s.contains('_') {
        let i = choose|i: int| 0 <= i < s.len() && s[i] == '_';
        assert(!is_host_char(s[i]));
    }
}

} // verus!
