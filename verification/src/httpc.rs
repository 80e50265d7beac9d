//! Outgoing requests: what may be fetched, and from where. HTTPS only, no
//! redirects, no private addresses, no reserved domains; development mode
//! lifts these rules but the one on redirects.

use vstd::prelude::*;

use crate::decimal;
use crate::text;

verus! {

/// What outgoing requests may do.
#[derive(Debug, Clone, Copy, PartialEq, Eq)]
pub struct EgressPolicy {
    pub allow_private: bool,
    pub allow_http: bool,
    pub max_response_bytes: usize,
    pub timeout_secs: u64,
}

impl EgressPolicy {
    /// The policy of a configuration.
    pub fn from_config(insecure_dev: bool) -> (r: EgressPolicy)
        ensures
            r.allow_private == insecure_dev,
            r.allow_http == insecure_dev,
            r.max_response_bytes == 65536,
            r.timeout_secs == 10,
    {
        EgressPolicy {
            allow_private: insecure_dev,
            allow_http: insecure_dev,
            max_response_bytes: 65536,
            timeout_secs: 10,
        }
    }
}

// ------------------------------------------------------------- addresses

/// An address on the network.
#[derive(Debug, Clone, Copy)]
pub enum Address {
    V4([u8; 4]),
    V6([u16; 8]),
}

/// Whether an address of four octets is on the public network: none of those
/// set aside for a host itself, for private networks, for links, for carriers,
/// for documentation, for measurements, for groups, or for later.
pub open spec fn public_v4(o: Seq<u8>) -> bool {
    &&& o[0] != 0
    &&& o[0] != 10
    &&& o[0] != 127
    &&& !(o[0] == 100 && 64 <= o[1] <= 127)
    &&& !(o[0] == 169 && o[1] == 254)
    &&& !(o[0] == 172 && 16 <= o[1] <= 31)
    &&& !(o[0] == 192 && o[1] == 168)
    &&& !(o[0] == 192 && o[1] == 0 && (o[2] == 0 || o[2] == 2))
    &&& !(o[0] == 198 && 18 <= o[1] <= 19)
    &&& !(o[0] == 198 && o[1] == 51 && o[2] == 100)
    &&& !(o[0] == 203 && o[1] == 0 && o[2] == 113)
    &&& o[0] < 224
}

/// Whether an address of eight segments is on the public network: not that of
/// the host itself or none at all, nor one for groups, for private networks,
/// for links or for documentation.
pub open spec fn public_v6(s: Seq<u16>) -> bool {
    &&& !(s[0] == 0 && s[1] == 0 && s[2] == 0 && s[3] == 0 && s[4] == 0 && s[5] == 0 && s[6] == 0
        && s[7] <= 1)
    &&& s[0] < 0xff00
    &&& !(0xfc00 <= s[0] <= 0xfdff)
    &&& !(0xfe80 <= s[0] <= 0xfebf)
    &&& !(s[0] == 0x2001 && s[1] == 0x0db8)
}

/// Whether an address is on the public network.
pub open spec fn is_public(a: Address) -> bool {
    match a {
        Address::V4(o) => public_v4(o@),
        Address::V6(s) => public_v6(s@),
    }
}

/// Whether an address is on the public network.
pub fn ip_is_public(a: &Address) -> (r: bool)
    ensures
        r == is_public(*a),
{
    match a {
        Address::V4(o) => {
            let (a, b, c): (u8, u8, u8) = (o[0], o[1], o[2]);
            !(a == 0 || a == 10 || a == 127 || (a == 100 && 64 <= b && b <= 127) || (a == 169 && b
                == 254) || (a == 172 && 16 <= b && b <= 31) || (a == 192 && b == 168) || (a == 192
                && b == 0 && (c == 0 || c == 2)) || (a == 198 && 18 <= b && b <= 19) || (a == 198
                && b == 51 && c == 100) || (a == 203 && b == 0 && c == 113) || a >= 224)
        },
        Address::V6(s) => {
            let own = s[0] == 0 && s[1] == 0 && s[2] == 0 && s[3] == 0 && s[4] == 0 && s[5] == 0
                && s[6] == 0 && s[7] <= 1;
            let a: u16 = s[0];
            !(own || a >= 0xff00 || (0xfc00 <= a && a <= 0xfdff) || (0xfe80 <= a && a <= 0xfebf)
                || (a == 0x2001 && s[1] == 0x0db8))
        },
    }
}

// ------------------------------------------------------------------ URLs

/// A URL in its parts.
pub struct ParsedUrl {
    pub https: bool,
    pub host: String,
    pub port: u16,
    pub path_and_query: String,
}

/// What a [`ParsedUrl`] holds.
pub struct UrlView {
    pub https: bool,
    pub host: Seq<char>,
    pub port: u16,
    pub path_and_query: Seq<char>,
}

impl ParsedUrl {
    /// What the parts hold.
    pub open spec fn view(&self) -> UrlView {
        UrlView {
            https: self.https,
            host: self.host@,
            port: self.port,
            path_and_query: self.path_and_query@,
        }
    }
}

/// A host and a port, or why there are none. What stands behind the last colon
/// is the port where it is made of digits.
pub open spec fn host_and_port(s: Seq<char>, default: u16) -> Result<(Seq<char>, u16), Seq<char>> {
    match text::last_position(s, ':') {
        Some(i) => {
            let p = s.skip(i as int + 1);
            if p.len() > 0 && decimal::all_digits(p) {
                if decimal::digits_value(p) <= 65535 {
                    Ok((s.take(i as int), decimal::digits_value(p) as u16))
                } else {
                    Err("number too large to fit in target type"@)
                }
            } else {
                Ok((s, default))
            }
        },
        None => Ok((s, default)),
    }
}

/// The parts of what follows the scheme of a URL.
pub open spec fn url_rest(https: bool, rest: Seq<char>) -> Result<UrlView, Seq<char>> {
    let hostport = match text::position(rest, '/') {
        Some(i) => rest.take(i as int),
        None => rest,
    };
    let path = match text::position(rest, '/') {
        Some(i) => rest.skip(i as int),
        None => "/"@,
    };
    if hostport.contains('@') {
        Err("userinfo in URL rejected"@)
    } else {
        match host_and_port(
            hostport,
            if https {
                443
            } else {
                80
            },
        ) {
            Err(e) => Err(e),
            Ok((host, port)) => if host.len() == 0 {
                Err("empty host"@)
            } else {
                Ok(UrlView { https, host, port, path_and_query: path })
            },
        }
    }
}

/// The parts of a URL, or what is wrong with it.
pub open spec fn parsed_url(url: Seq<char>) -> Result<UrlView, Seq<char>> {
    match text::without_prefix(url, "https://"@) {
        Some(rest) => url_rest(true, rest),
        None => match text::without_prefix(url, "http://"@) {
            Some(rest) => url_rest(false, rest),
            None => Err("unsupported URL scheme"@),
        },
    }
}

/// The outcome of reading a URL.
pub open spec fn url_outcome(r: Result<ParsedUrl, String>) -> Result<UrlView, Seq<char>> {
    match r {
        Ok(u) => Ok(u@),
        Err(e) => Err(e@),
    }
}

fn digits_only(a: &[char]) -> (r: bool)
    ensures
        r == (a@.len() > 0 && decimal::all_digits(a@)),
{
    let mut i: usize = 0;
    while i < a.len()
        invariant
            i <= a@.len(),
            forall|j: int| 0 <= j < i ==> decimal::is_digit(#[trigger] a@[j]),
        decreases a@.len() - i,
    {
        if a[i] < '0' || a[i] > '9' {
            return false;
        }
        i += 1;
    }
    a.len() > 0
}

fn split_port(a: &[char], default: u16) -> (r: Result<(String, u16), String>)
    ensures
        match r {
            Ok(x) => host_and_port(a@, default) == Ok::<(Seq<char>, u16), Seq<char>>(
                (x.0@, x.1),
            ),
            Err(e) => host_and_port(a@, default) == Err::<(Seq<char>, u16), Seq<char>>(e@),
        },
{
    if let Some(i) = text::rfind(a, ':') {
        proof {
            text::lemma_last_position(a@, ':');
        }
        let tail = vstd::slice::slice_subrange(a, i + 1, a.len());
        proof {
            assert(tail@ =~= a@.skip(i + 1));
        }
        if digits_only(tail) {
            let p = text::from_chars(tail);
            let host = text::slice_text(a, 0, i);
            proof {
                assert(host@ =~= a@.take(i as int));
                assert(decimal::is_digit(p@[0]));
            }
            return match decimal::parse_unsigned(p.as_str()) {
                Some(n) => if n <= 65535 {
                    Ok((host, n as u16))
                } else {
                    Err("number too large to fit in target type".to_owned())
                },
                None => Err("number too large to fit in target type".to_owned()),
            };
        }
    }
    Ok((text::from_chars(a), default))
}

/// Reads a URL.
pub fn parse_url(url: &str) -> (r: Result<ParsedUrl, String>)
    ensures
        url_outcome(r) == parsed_url(url@),
{
    let (https, rest) = match text::strip_prefix(url, "https://") {
        Some(rest) => (true, rest),
        None => match text::strip_prefix(url, "http://") {
            Some(rest) => (false, rest),
            None => {
                return Err("unsupported URL scheme".to_owned());
            },
        },
    };
    let a = text::to_chars(rest.as_str());
    let (hostport, path) = match text::find(&a, '/') {
        Some(i) => {
            proof {
                text::lemma_position(a@, '/');
            }
            let hostport = vstd::slice::slice_subrange(a.as_slice(), 0, i);
            let path = text::slice_text(&a, i, a.len());
            proof {
                assert(hostport@ =~= a@.take(i as int));
                assert(path@ =~= a@.skip(i as int));
            }
            (hostport, path)
        },
        None => (a.as_slice(), "/".to_owned()),
    };
    proof {
        text::lemma_position(hostport@, '@');
    }
    if text::find(hostport, '@').is_some() {
        return Err("userinfo in URL rejected".to_owned());
    }
    let default: u16 = if https {
        443
    } else {
        80
    };
    let (host, port) = match split_port(hostport, default) {
        Ok(x) => x,
        Err(e) => {
            return Err(e);
        },
    };
    if text::to_chars(host.as_str()).len() == 0 {
        return Err("empty host".to_owned());
    }
    Ok(ParsedUrl { https, host, port, path_and_query: path })
}

/// The authority of a URL: its host, with the port where it is not the usual
/// one of the scheme.
pub open spec fn url_authority(u: UrlView) -> Seq<char> {
    if (u.https && u.port != 443) || (!u.https && u.port != 80) {
        u.host + ":"@ + decimal::numeral(u.port as nat)
    } else {
        u.host
    }
}

/// The authority of a URL.
pub fn authority(u: &ParsedUrl) -> (r: String)
    ensures
        r@ == url_authority(u@),
{
    if (u.https && u.port != 443) || (!u.https && u.port != 80) {
        text::join3(u.host.as_str(), ":", decimal::unsigned(u.port as u64).as_str())
    } else {
        u.host.clone()
    }
}

/// The path without its query.
pub open spec fn path_alone(p: Seq<char>) -> Seq<char> {
    match text::position(p, '?') {
        Some(i) => p.take(i as int),
        None => p,
    }
}

/// What a signature on a request to a URL covers of it: its authority and its
/// path.
pub fn signing_parts(url: &str) -> (r: Result<(String, String), String>)
    ensures
        match r {
            Ok(x) => parsed_url(url@) matches Ok(u) && x.0@ == url_authority(u) && x.1@
                == path_alone(u.path_and_query),
            Err(e) => parsed_url(url@) == Err::<UrlView, Seq<char>>(e@),
        },
{
    match parse_url(url) {
        Err(e) => Err(e),
        Ok(u) => {
            let a = text::to_chars(u.path_and_query.as_str());
            let path = match text::find(&a, '?') {
                Some(i) => {
                    proof {
                        text::lemma_position(a@, '?');
                    }
                    let p = text::slice_text(&a, 0, i);
                    proof {
                        assert(p@ =~= a@.take(i as int));
                    }
                    p
                },
                None => u.path_and_query.clone(),
            };
            Ok((authority(&u), path))
        },
    }
}

// ------------------------------------------------------------- admission

/// The top-level domains that mean something else on every network.
pub open spec fn is_reserved_label(s: Seq<char>) -> bool {
    s == "test"@ || s == "example"@ || s == "invalid"@ || s == "localhost"@ || s == "local"@ || s
        == "internal"@ || s == "onion"@
}

/// The last label of a host name, in lower case.
pub open spec fn top_label(host: Seq<char>) -> Seq<char> {
    let s = text::lowered(text::trimmed_end_of(host, '.'));
    match text::last_position(s, '.') {
        Some(i) => s.skip(i as int + 1),
        None => s,
    }
}

/// Whether a host is in a reserved domain.
pub fn reserved_domain(host: &str) -> (r: bool)
    ensures
        r == is_reserved_label(top_label(host@)),
{
    let s = text::to_ascii_lowercase(text::trim_end_of(host, '.').as_str());
    let a = text::to_chars(s.as_str());
    let label = match text::rfind(&a, '.') {
        Some(i) => {
            proof {
                text::lemma_last_position(a@, '.');
            }
            let l = text::slice_text(&a, i + 1, a.len());
            proof {
                assert(l@ =~= a@.skip(i + 1));
            }
            l
        },
        None => s,
    };
    let l = label.as_str();
    text::same(l, "test") || text::same(l, "example") || text::same(l, "invalid") || text::same(
        l,
        "localhost",
    ) || text::same(l, "local") || text::same(l, "internal") || text::same(l, "onion")
}

/// What is asked of the network for a URL, or why nothing is. A reserved domain
/// is refused before its name is looked up.
pub open spec fn requested(policy: EgressPolicy, url: Seq<char>) -> Result<UrlView, Seq<char>> {
    match parsed_url(url) {
        Err(e) => Err(e),
        Ok(u) => if !u.https && !policy.allow_http {
            Err("plain http egress not allowed"@)
        } else if !policy.allow_private && is_reserved_label(top_label(u.host)) {
            Err("host "@ + u.host + " is in a reserved domain"@)
        } else {
            Ok(u)
        },
    }
}

/// Reads and admits the URL of an outgoing request.
pub fn request_for(policy: &EgressPolicy, url: &str) -> (r: Result<ParsedUrl, String>)
    ensures
        url_outcome(r) == requested(*policy, url@),
{
    match parse_url(url) {
        Err(e) => Err(e),
        Ok(u) => {
            if !u.https && !policy.allow_http {
                return Err("plain http egress not allowed".to_owned());
            }
            if !policy.allow_private && reserved_domain(u.host.as_str()) {
                return Err(text::join3("host ", u.host.as_str(), " is in a reserved domain"));
            }
            Ok(u)
        },
    }
}

/// Why none of a host's addresses is connected to. A host with public and
/// private addresses together is refused.
pub open spec fn address_fault(
    policy: EgressPolicy,
    host: Seq<char>,
    addrs: Seq<Address>,
) -> Option<Seq<char>> {
    if policy.allow_private && addrs.len() > 0 {
        None
    } else if !exists|i: int| 0 <= i < addrs.len() && is_public(#[trigger] addrs[i]) {
        Some("no admissible address for "@ + host)
    } else if exists|i: int| 0 <= i < addrs.len() && !is_public(#[trigger] addrs[i]) {
        Some("host "@ + host + " resolves to private addresses"@)
    } else {
        None
    }
}

/// Whether the addresses of a host may be connected to. Where they may, each is
/// tried until one answers.
pub fn check_addresses(policy: &EgressPolicy, host: &str, addrs: &Vec<Address>) -> (r: Result<
    (),
    String,
>)
    ensures
        text::fault_view(r) == address_fault(*policy, host@, addrs@),
{
    if policy.allow_private && addrs.len() > 0 {
        return Ok(());
    }
    let mut public = false;
    let mut private = false;
    let mut i: usize = 0;
    while i < addrs.len()
        invariant
            i <= addrs@.len(),
            public == (exists|j: int| 0 <= j < i && is_public(#[trigger] addrs@[j])),
            private == (exists|j: int| 0 <= j < i && !is_public(#[trigger] addrs@[j])),
        decreases addrs@.len() - i,
    {
        proof {
            assert(is_public(addrs@[i as int]) || !is_public(addrs@[i as int]));
        }
        if ip_is_public(&addrs[i]) {
            public = true;
        } else {
            private = true;
        }
        i += 1;
    }
    if !public {
        return Err(text::join2("no admissible address for ", host));
    }
    if private {
        return Err(text::join3("host ", host, " resolves to private addresses"));
    }
    Ok(())
}

/// Why an answer is not read: it redirects, or tells no success.
pub open spec fn status_fault(
    status: u16,
    status_text: Seq<char>,
    url: Seq<char>,
) -> Option<Seq<char>> {
    if 300 <= status <= 399 {
        Some("redirect from "@ + url + " refused"@)
    } else if !(200 <= status <= 299) {
        Some("HTTP "@ + status_text + " from "@ + url)
    } else {
        None
    }
}

/// Whether an answer is read. `status_text` is the status as it is shown.
pub fn check_status(status: u16, status_text: &str, url: &str) -> (r: Result<(), String>)
    ensures
        text::fault_view(r) == status_fault(status, status_text@, url@),
{
    if 300 <= status && status <= 399 {
        Err(text::join3("redirect from ", url, " refused"))
    } else if !(200 <= status && status <= 299) {
        let mut out = text::join3("HTTP ", status_text, " from ");
        out.append(url);
        Err(out)
    } else {
        Ok(())
    }
}

// ------------------------------------------------------------------ laws

/// Outside development, nothing is asked of a private address, of a reserved
/// domain or over plain HTTP.
pub proof fn law_only_public_destinations(url: Seq<char>, policy: EgressPolicy, host:
    Seq<char>, addrs: Seq<Address>)
    requires
        !policy.allow_private,
        !policy.allow_http,
    ensures
        requested(policy, url) matches Ok(u) ==> u.https && !is_reserved_label(top_label(u.host)),
        address_fault(policy, host, addrs) is None ==> addrs.len() > 0 && forall|i: int|
            0 <= i < addrs.len() ==> is_public(#[trigger] addrs[i]),
{
}

/// A redirect is never followed, whatever else it brings.
pub proof fn law_no_redirects(status: u16, status_text: Seq<char>, url: Seq<char>)
    requires
        300 <= status <= 399,
    ensures
        status_fault(status, status_text, url) is Some,
{
}

/// Which addresses of four octets are not public: those of the host itself, of
/// private networks, links and carriers, of documentation and measurement, of
/// groups and of later use.
pub proof fn law_public_v4(o: Seq<u8>)
    ensures
        !public_v4(o) == {
            ||| o[0] == 0 || o[0] == 10 || o[0] == 127
            ||| o[0] == 100 && 64 <= o[1] <= 127
            ||| o[0] == 169 && o[1] == 254
            ||| o[0] == 172 && 16 <= o[1] <= 31
            ||| o[0] == 192 && o[1] == 168
            ||| o[0] == 192 && o[1] == 0 && o[2] == 0
            ||| o[0] == 192 && o[1] == 0 && o[2] == 2
            ||| o[0] == 198 && (o[1] == 18 || o[1] == 19)
            ||| o[0] == 198 && o[1] == 51 && o[2] == 100
            ||| o[0] == 203 && o[1] == 0 && o[2] == 113
            ||| 224 <= o[0]
        },
{
}

/// Which addresses of eight segments are not public: none at all and that of the
/// host itself, those of groups, private networks and links, and of
/// documentation.
pub proof fn law_public_v6(s: Seq<u16>)
    ensures
        !public_v6(s) == {
            ||| s[0] == 0 && s[1] == 0 && s[2] == 0 && s[3] == 0 && s[4] == 0 && s[5] == 0 && s[6]
                == 0 && (s[7] == 0 || s[7] == 1)
            ||| 0xff00 <= s[0]
            ||| 0xfc00 <= s[0] < 0xfe00
            ||| 0xfe80 <= s[0] < 0xfec0
            ||| s[0] == 0x2001 && s[1] == 0x0db8
        },
{
}

proof fn lemma_no_colon(host: Seq<char>)
    requires
        crate::ident::is_host(host),
    ensures
        text::last_position(host, ':') is None,
        text::position(host, '/') is None,
        !host.contains('@'),
{
    text::lemma_last_position(host, ':');
    text::lemma_position(host, '/');
    if let Some(i) = text::last_position(host, ':') {
        assert(crate::ident::is_host_char(host[i as int]));
    }
    if let Some(i) = text::position(host, '/') {
        assert(crate::ident::is_host_char(host[i as int]));
    }
    if host.contains('@') {
        let i = choose|i: int| 0 <= i < host.len() && host[i] == '@';
        assert(crate::ident::is_host_char(host[i]));
    }
}

/// A host alone has the usual port; a number behind a colon is its port.
pub proof fn law_host_and_port(host: Seq<char>, port: Seq<char>, default: u16)
    requires
        crate::ident::is_host(host),
        port.len() > 0,
        decimal::all_digits(port),
    ensures
        host_and_port(host, default) == Ok::<(Seq<char>, u16), Seq<char>>((host, default)),
        decimal::digits_value(port) <= 65535 ==> host_and_port(host + ":"@ + port, default) == Ok::<
            (Seq<char>, u16),
            Seq<char>,
        >((host, decimal::digits_value(port) as u16)),
        decimal::digits_value(port) > 65535 ==> host_and_port(host + ":"@ + port, default) is Err,
{
    reveal_strlit(":");
    lemma_no_colon(host);
    let hp = host + ":"@ + port;
    text::lemma_last_position(hp, ':');
    assert(hp[host.len() as int] == ':');
    let i = text::last_position(hp, ':');
    assert(i == Some(host.len())) by {
        let n = i->0 as int;
        if n > host.len() {
            assert(decimal::is_digit(port[n - host.len() - 1]));
        }
    }
    assert(hp.skip(host.len() as int + 1) =~= port);
    assert(hp.take(host.len() as int) =~= host);
}

/// A URL of a host is read as that host, with the scheme's port, and its path
/// from the first slash on; without one the path is a slash.
pub proof fn law_url_of_host(https: bool, host: Seq<char>, tail: Seq<char>)
    requires
        crate::ident::is_host(host),
    ensures
        url_rest(https, host) == Ok::<UrlView, Seq<char>>(
            UrlView {
                https,
                host,
                port: if https {
                    443
                } else {
                    80
                },
                path_and_query: "/"@,
            },
        ),
        url_rest(https, host + ("/"@ + tail)) == Ok::<UrlView, Seq<char>>(
            UrlView {
                https,
                host,
                port: if https {
                    443
                } else {
                    80
                },
                path_and_query: "/"@ + tail,
            },
        ),
{
    reveal_strlit("/");
    lemma_no_colon(host);
    let s = host + ("/"@ + tail);
    assert(s[host.len() as int] == '/');
    assert forall|j: int| 0 <= j < host.len() implies s[j] != '/' by {
        assert(crate::ident::is_host_char(host[j]));
        assert(s[j] == host[j]);
    }
    text::lemma_position_is(s, '/', host.len() as int);
    assert(s.take(host.len() as int) =~= host);
    assert(s.skip(host.len() as int) =~= "/"@ + tail);
}

/// The scheme of a URL says whether it is secured; there are no others, and
/// nobody's name stands before the host.
pub proof fn law_url_schemes(url: Seq<char>, rest: Seq<char>)
    ensures
        parsed_url("https://"@ + rest) == url_rest(true, rest),
        parsed_url("http://"@ + rest) == url_rest(false, rest),
        !"https://"@.is_prefix_of(url) && !"http://"@.is_prefix_of(url) ==> parsed_url(url) is Err,
        parsed_url(url) matches Ok(u) ==> u.host.len() > 0 && u.https == "https://"@.is_prefix_of(
            url,
        ),
        text::position(rest, '/') is None && rest.contains('@') ==> url_rest(true, rest) is Err,
{
    crate::ident::lemma_behind_scheme(rest);
}

/// The authority of a URL names its port exactly where it is not the usual one.
pub proof fn law_url_authority(u: UrlView)
    ensures
        u.https && u.port == 443 ==> url_authority(u) == u.host,
        !u.https && u.port == 80 ==> url_authority(u) == u.host,
        u.https && u.port != 443 ==> url_authority(u) == u.host + ":"@ + decimal::numeral(
            u.port as nat,
        ),
        !u.https && u.port != 80 ==> url_authority(u) == u.host + ":"@ + decimal::numeral(
            u.port as nat,
        ),
{
}

/// The path ends before the first question mark.
pub proof fn law_path_alone(path: Seq<char>, query: Seq<char>)
    requires
        !path.contains('?'),
    ensures
        path_alone(path) == path,
        path_alone(path + "?"@ + query) == path,
{
    reveal_strlit("?");
    text::lemma_position(path, '?');
    if let Some(i) = text::position(path, '?') {
        assert(path.contains(path[i as int]));
    }
    let s = path + "?"@ + query;
    assert(s[path.len() as int] == '?');
    assert forall|j: int| 0 <= j < path.len() implies s[j] != '?' by {
        assert(path.contains(path[j]));
        assert(s[j] == path[j]);
    }
    text::lemma_position_is(s, '?', path.len() as int);
    assert(s.take(path.len() as int) =~= path);
}

/// The reserved domains.
pub proof fn law_reserved_labels(s: Seq<char>)
    ensures
        is_reserved_label(s) == (s == "test"@ || s == "example"@ || s == "invalid"@ || s
            == "localhost"@ || s == "local"@ || s == "internal"@ || s == "onion"@),
{
}

/// The top label of a host is what follows its last dot; a host without one is
/// its own.
pub proof fn law_top_label(a: Seq<char>, label: Seq<char>)
    requires
        text::lowered(label) == label,
        label.len() > 0,
        !label.contains('.'),
    ensures
        top_label(label) == label,
        top_label(a + "."@ + label) == label,
{
    reveal_strlit(".");
    let s = a + "."@ + label;
    assert(label.last() != '.') by {
        assert(label.contains(label[label.len() - 1]));
    }
    assert(text::trimmed_end_of(label, '.') == label);
    assert(s.last() == label.last());
    assert(text::trimmed_end_of(s, '.') == s);
    let t = text::lowered(s);
    assert(t[a.len() as int] == '.');
    text::lemma_last_position(t, '.');
    assert forall|j: int| a.len() < j < t.len() implies t[j] != '.' by {
        assert(t[j] == text::lower_char(s[j]));
        assert(s[j] == label[j - a.len() - 1]);
        assert(text::lowered(label)[j - a.len() - 1] == label[j - a.len() - 1]);
        assert(label.contains(label[j - a.len() - 1]));
    }
    assert(text::last_position(t, '.') == Some(a.len())) by {
        let n = text::last_position(t, '.')->0 as int;
        if n < a.len() {
            assert(t[a.len() as int] != '.');
        }
    }
    assert(t.skip(a.len() as int + 1) =~= label) by {
        assert forall|j: int| 0 <= j < label.len() implies t.skip(a.len() as int + 1)[j] == label[j] by {
            assert(text::lowered(label)[j] == label[j]);
        }
    }
    text::lemma_last_position(label, '.');
    if let Some(i) = text::last_position(label, '.') {
        assert(label.contains(label[i as int]));
    }
}

/// A URL is asked for exactly where it reads, is secured or need not be, and is
/// not of a reserved domain or may be; and it is asked for as it reads.
pub proof fn law_asked_for(policy: EgressPolicy, url: Seq<char>, u: UrlView)
    ensures
        (requested(policy, url) == Ok::<UrlView, Seq<char>>(u)) == (parsed_url(url) == Ok::<
            UrlView,
            Seq<char>,
        >(u) && (u.https || policy.allow_http) && (policy.allow_private || !is_reserved_label(
            top_label(u.host),
        ))),
{
}

/// Addresses are connected to exactly where there are some and, unless private
/// ones are allowed, all are public.
pub proof fn law_connected_to(policy: EgressPolicy, host: Seq<char>, addrs: Seq<Address>)
    ensures
        address_fault(policy, host, addrs) is None == (addrs.len() > 0 && (policy.allow_private
            || forall|i: int| 0 <= i < addrs.len() ==> is_public(#[trigger] addrs[i]))),
{
    if addrs.len() > 0 && forall|i: int| 0 <= i < addrs.len() ==> is_public(#[trigger] addrs[i]) {
        assert(is_public(addrs[0]));
    }
}

/// An answer is read exactly where it tells success.
pub proof fn law_answer_read(status: u16, status_text: Seq<char>, url: Seq<char>)
    ensures
        status_fault(status, status_text, url) is None == (200 <= status <= 299),
{
}

} // verus!
