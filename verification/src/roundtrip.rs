//! What is signed here is accepted here: the signature headers that a request is
//! given read as what they were made from.

use vstd::prelude::*;

use crate::b64;
use crate::crypto;
use crate::decimal;
use crate::jwk;
use crate::problem;
use crate::sfv;
use crate::sfv::{BareView, ContentView, ItemView, MemberView, ParamsView, Run};
use crate::sig;
use crate::sig::{ParsedView, PartsView, PolicyView, SchemeView, SignedView};
use crate::sigkey;
use crate::text;

verus! {

/// A text stands at a place of another.
pub open spec fn stands(s: Seq<char>, i: nat, piece: Seq<char>) -> bool {
    i + piece.len() <= s.len() && forall|k: int|
        0 <= k < piece.len() ==> s[i + k] == #[trigger] piece[k]
}

/// Every character can stand in a structured-field string.
pub open spec fn printable(t: Seq<char>) -> bool {
    forall|i: int| 0 <= i < t.len() ==> ' ' <= #[trigger] t[i] <= '~'
}

/// Every text can stand in a structured-field string.
pub open spec fn all_printable(s: Seq<Seq<char>>) -> bool {
    forall|i: int| 0 <= i < s.len() ==> printable(#[trigger] s[i])
}

/// A key of parameters.
pub open spec fn is_key(name: Seq<char>) -> bool {
    name.len() > 0 && sfv::is_lower(name[0]) && forall|i: int|
        0 <= i < name.len() ==> sfv::is_key_char(#[trigger] name[i])
}

proof fn lemma_stands_parts(s: Seq<char>, i: nat, a: Seq<char>, b: Seq<char>)
    requires
        stands(s, i, a + b),
    ensures
        stands(s, i, a),
        stands(s, i + a.len(), b),
{
    let w = a + b;
    assert forall|k: int| 0 <= k < a.len() implies s[i + k] == #[trigger] a[k] by {
        assert(w[k] == a[k]);
    }
    assert forall|k: int| 0 <= k < b.len() implies s[i + a.len() + k] == #[trigger] b[k] by {
        assert(w[a.len() + k] == b[k]);
    }
}

proof fn lemma_run(s: Seq<char>, i: nat, j: nat, kind: Run)
    requires
        i <= j <= s.len(),
        forall|k: int| i <= k < j ==> sfv::in_run(kind, #[trigger] s[k]),
        j < s.len() ==> !sfv::in_run(kind, s[j as int]),
    ensures
        sfv::run_end(s, i, kind) == j,
    decreases j - i,
{
    if i < j {
        lemma_run(s, i + 1, j, kind);
    }
}

proof fn lemma_string_run(s: Seq<char>, i: nat, t: Seq<char>, acc: Seq<char>)
    requires
        printable(t),
        stands(s, i, problem::escaped(t)),
    ensures
        sfv::string_from(s, i, acc) == sfv::string_from(
            s,
            i + problem::escaped(t).len(),
            acc + t,
        ),
    decreases t.len(),
{
    if t.len() == 0 {
        assert(acc + t =~= acc);
    } else {
        let u = t.drop_last();
        let c = t.last();
        let e = problem::escaped(u);
        let tail = if c == '"' || c == '\\' {
            seq!['\\', c]
        } else {
            seq![c]
        };
        assert(problem::escaped(t) =~= e + tail);
        lemma_stands_parts(s, i, e, tail);
        assert forall|k: int| 0 <= k < u.len() implies ' ' <= #[trigger] u[k] <= '~' by {
            assert(u[k] == t[k]);
        }
        lemma_string_run(s, i, u, acc);
        let j = i + e.len();
        assert(s[j + 0int] == tail[0]);
        assert((acc + u).push(c) =~= acc + t);
        assert(' ' <= t[t.len() - 1] <= '~');
        if c == '"' || c == '\\' {
            assert(s[j + 1int] == tail[1]);
        }
    }
}

proof fn lemma_quoted(s: Seq<char>, i: nat, t: Seq<char>)
    requires
        printable(t),
        stands(s, i, problem::quoted(t)),
    ensures
        sfv::bare_at(s, i) == Some((BareView::Text(t), i + problem::quoted(t).len())),
        s[i as int] == '"',
{
    reveal_strlit("\"");
    let e = problem::escaped(t);
    let q = "\""@;
    assert(problem::quoted(t) =~= q + (e + q));
    lemma_stands_parts(s, i, q, e + q);
    lemma_stands_parts(s, i + 1, e, q);
    assert(s[i + 0int] == q[0]);
    lemma_string_run(s, i + 1, t, Seq::empty());
    let j = i + 1 + e.len();
    assert(s[j + 0int] == q[0]);
    assert(Seq::<char>::empty() + t =~= t);
}

proof fn lemma_parameter(s: Seq<char>, i: nat, name: Seq<char>, v: Seq<char>, acc: ParamsView)
    requires
        is_key(name),
        printable(v),
        stands(s, i, sigkey::parameter(name, v)),
    ensures
        sfv::params_from(s, i, acc) == sfv::params_from(
            s,
            i + sigkey::parameter(name, v).len(),
            acc.push((name, BareView::Text(v))),
        ),
        s[i as int] == ';',
{
    reveal_strlit(";");
    reveal_strlit("=");
    let q = problem::quoted(v);
    assert(sigkey::parameter(name, v) =~= ";"@ + (name + ("="@ + q)));
    lemma_stands_parts(s, i, ";"@, name + ("="@ + q));
    lemma_stands_parts(s, i + 1, name, "="@ + q);
    let end = i + 1 + name.len();
    lemma_stands_parts(s, end, "="@, q);
    assert(s[i + 0int] == ";"@[0]);
    assert(s[end + 0int] == "="@[0]);
    assert(s[i + 1int] == name[0]);
    lemma_run(s, i + 1, i + 1, Run::Spaces);
    assert forall|k: int| i + 1 <= k < end implies sfv::in_run(Run::Key, #[trigger] s[k]) by {
        assert(s[i + 1 + (k - (i + 1))] == name[k - (i + 1)]);
    }
    lemma_run(s, i + 1, end, Run::Key);
    assert(s.subrange((i + 1) as int, end as int) =~= name) by {
        assert forall|k: int| 0 <= k < name.len() implies s.subrange((i + 1) as int, end as int)[k]
            == #[trigger] name[k] by {
            assert(s[i + 1 + k] == name[k]);
        }
    }
    lemma_quoted(s, end + 1, v);
}

proof fn lemma_one_member(s: Seq<char>, m: MemberView)
    requires
        s.len() > 0,
        s[0] != ' ',
        sfv::member_at(s, 0) == Some((m, s.len())),
    ensures
        sfv::dictionary(s) == Some(seq![m]),
{
    lemma_run(s, 0, 0, Run::Spaces);
    lemma_run(s, s.len(), s.len(), Run::Blank);
    assert(Seq::<MemberView>::empty().push(m) =~= seq![m]);
}

// -------------------------------------------------------------- the input

/// Components as the items of an inner list.
pub open spec fn items_of(c: Seq<Seq<char>>) -> Seq<ItemView> {
    c.map_values(|t: Seq<char>| ItemView { bare: BareView::Text(t), params: Seq::empty() })
}

proof fn lemma_covered(c: Seq<Seq<char>>)
    ensures
        sig::covered_by(items_of(c)) == Some(c),
    decreases c.len(),
{
    if c.len() == 0 {
        assert(c =~= Seq::empty());
    } else {
        lemma_covered(c.drop_last());
        assert(items_of(c).drop_last() =~= items_of(c.drop_last()));
        assert(c.drop_last().push(c.last()) =~= c);
    }
}

proof fn lemma_inner(s: Seq<char>, i: nat, c: Seq<Seq<char>>, acc: Seq<ItemView>)
    requires
        c.len() > 0,
        all_printable(c),
        stands(s, i, text::joined(problem::quoted_all(c), " "@)),
        ({
            let j = i + text::joined(problem::quoted_all(c), " "@).len();
            j < s.len() && (s[j as int] == ' ' || s[j as int] == ')')
        }),
    ensures
        sfv::inner_from(s, i, acc) == sfv::inner_from(
            s,
            i + text::joined(problem::quoted_all(c), " "@).len(),
            acc + items_of(c),
        ),
    decreases c.len(),
{
    reveal_strlit(" ");
    reveal_strlit("\"");
    let qs = problem::quoted_all(c);
    let w = text::joined(qs, " "@);
    let j = i + w.len();
    let t = c.last();
    let item = ItemView { bare: BareView::Text(t), params: Seq::empty() };
    assert(printable(c[c.len() - 1]));
    lemma_run(s, j, j, Run::Token);
    if c.len() == 1 {
        assert(qs[0] == problem::quoted(c[0]));
        lemma_quoted(s, i, t);
        lemma_run(s, i, i, Run::Spaces);
        assert(acc.push(item) =~= acc + items_of(c));
    } else {
        let u = c.drop_last();
        assert(qs.drop_last() =~= problem::quoted_all(u));
        assert(qs.last() == problem::quoted(t));
        let v = text::joined(problem::quoted_all(u), " "@);
        assert(w =~= v + (" "@ + problem::quoted(t)));
        lemma_stands_parts(s, i, v, " "@ + problem::quoted(t));
        let k = i + v.len();
        lemma_stands_parts(s, k, " "@, problem::quoted(t));
        assert(s[k + 0int] == " "@[0]);
        assert forall|n: int| 0 <= n < u.len() implies printable(#[trigger] u[n]) by {
            assert(u[n] == c[n]);
        }
        lemma_inner(s, i, u, acc);
        lemma_quoted(s, k + 1, t);
        lemma_run(s, k, k + 1, Run::Spaces);
        assert((acc + items_of(u)).push(item) =~= acc + items_of(c));
    }
}

/// Ten to the power of `k`.
pub open spec fn power_of_ten(k: nat) -> nat
    decreases k,
{
    if k == 0 {
        1
    } else {
        10 * power_of_ten((k - 1) as nat)
    }
}

proof fn lemma_numeral_length(n: nat, k: nat)
    requires
        k > 0,
        n < power_of_ten(k),
    ensures
        decimal::numeral(n).len() <= k,
    decreases k,
{
    if n >= 10 {
        if k == 1 {
            assert(power_of_ten(1) == 10 * power_of_ten(0));
        } else {
            lemma_numeral_length(n / 10, (k - 1) as nat);
        }
    }
}

/// The largest time that a structured field can hold.
pub const MAX_TIME: u64 = 999_999_999_999_999;

proof fn lemma_time(created: u64)
    requires
        created <= MAX_TIME,
    ensures
        decimal::numeral(created as nat).len() <= 15,
        decimal::all_digits(decimal::numeral(created as nat)),
        decimal::numeral(created as nat).len() > 0,
        decimal::signed_value(decimal::numeral(created as nat)) == Some(created as i64),
{
    assert(power_of_ten(15) == 1_000_000_000_000_000) by {
        reveal_with_fuel(power_of_ten, 16);
    }
    lemma_numeral_length(created as nat, 15);
    decimal::lemma_numeral(created as nat);
    decimal::law_signed_round_trip(created as i64);
}

/// The input of a signature as it reads.
pub open spec fn input_member(covered: Seq<Seq<char>>, created: u64) -> MemberView {
    MemberView {
        key: "sig"@,
        value: ContentView::Many(items_of(covered)),
        params: seq![("created"@, BareView::Int(created as i64))],
        raw: sig::own_params(covered, created),
    }
}

proof fn lemma_label(s: Seq<char>)
    requires
        stands(s, 0, "sig="@),
    ensures
        sfv::key_at(s, 0) == Some(3nat),
        s.subrange(0, 3) == "sig"@,
        s.len() >= 4,
        s[3] == '=',
        s[0] == 's',
{
    reveal_strlit("sig=");
    reveal_strlit("sig");
    let w = "sig="@;
    assert(s[0] == w[0]);
    assert(s[1] == w[1]);
    assert(s[2] == w[2]);
    assert(s[3] == w[3]);
    lemma_run(s, 0, 3, Run::Key);
    assert(s.subrange(0, 3) =~= "sig"@);
}

proof fn lemma_digits(s: Seq<char>, i: nat, created: u64)
    requires
        created <= MAX_TIME,
        stands(s, i, decimal::numeral(created as nat)),
        i + decimal::numeral(created as nat).len() == s.len(),
    ensures
        sfv::bare_at(s, i) == Some((BareView::Int(created as i64), s.len())),
{
    let n = decimal::numeral(created as nat);
    lemma_time(created);
    assert forall|k: int| i <= k < s.len() implies sfv::in_run(Run::Digits, #[trigger] s[k]) by {
        assert(s[i + (k - i)] == n[k - i]);
        assert(decimal::is_digit(n[k - i]));
    }
    lemma_run(s, i, s.len(), Run::Digits);
    assert(s.subrange(i as int, s.len() as int) =~= n) by {
        assert forall|k: int| 0 <= k < n.len() implies s.subrange(i as int, s.len() as int)[k]
            == #[trigger] n[k] by {
            assert(s[i + k] == n[k]);
        }
    }
    assert(s[i + 0int] == n[0]);
    assert(decimal::is_digit(n[0]));
}

proof fn lemma_created(s: Seq<char>, i: nat, created: u64)
    requires
        created <= MAX_TIME,
        stands(s, i, ";created="@ + decimal::numeral(created as nat)),
        i + 9 + decimal::numeral(created as nat).len() == s.len(),
    ensures
        sfv::params_from(s, i, Seq::empty()) == Some(
            (seq![("created"@, BareView::Int(created as i64))], s.len()),
        ),
{
    reveal_strlit(";created=");
    reveal_strlit("created");
    let lit = ";created="@;
    lemma_stands_parts(s, i, lit, decimal::numeral(created as nat));
    let from = i + 1;
    assert(s[i + 0int] == lit[0]);
    assert(s[i + 1int] == lit[1]);
    assert(s[i + 2int] == lit[2]);
    assert(s[i + 3int] == lit[3]);
    assert(s[i + 4int] == lit[4]);
    assert(s[i + 5int] == lit[5]);
    assert(s[i + 6int] == lit[6]);
    assert(s[i + 7int] == lit[7]);
    assert(s[i + 8int] == lit[8]);
    lemma_run(s, from, from, Run::Spaces);
    lemma_run(s, from, from + 7, Run::Key);
    assert(s.subrange(from as int, (from + 7) as int) =~= "created"@);
    lemma_digits(s, i + 9, created);
    let one: ParamsView = Seq::empty().push(("created"@, BareView::Int(created as i64)));
    assert(sfv::params_from(s, s.len(), one) == Some((one, s.len())));
    assert(one =~= seq![("created"@, BareView::Int(created as i64))]);
}

proof fn lemma_list(s: Seq<char>, i: nat, covered: Seq<Seq<char>>)
    requires
        covered.len() > 0,
        all_printable(covered),
        stands(s, i, "("@ + text::joined(problem::quoted_all(covered), " "@) + ")"@),
    ensures
        sfv::value_at(s, i) == Some(
            (
                ContentView::Many(items_of(covered)),
                i + text::joined(problem::quoted_all(covered), " "@).len() + 2,
            ),
        ),
{
    reveal_strlit("(");
    reveal_strlit(")");
    let w = text::joined(problem::quoted_all(covered), " "@);
    assert("("@ + w + ")"@ =~= "("@ + (w + ")"@));
    lemma_stands_parts(s, i, "("@, w + ")"@);
    lemma_stands_parts(s, i + 1, w, ")"@);
    let j = i + 1 + w.len();
    assert(s[i + 0int] == "("@[0]);
    assert(s[j + 0int] == ")"@[0]);
    lemma_inner(s, i + 1, covered, Seq::empty());
    assert(Seq::<ItemView>::empty() + items_of(covered) =~= items_of(covered));
    lemma_run(s, j, j, Run::Spaces);
}

/// What a field of one member reads as.
proof fn lemma_member(s: Seq<char>, value: ContentView, mid: nat, params: ParamsView)
    requires
        stands(s, 0, "sig="@),
        sfv::value_at(s, 4) == Some((value, mid)),
        sfv::params_from(s, mid, Seq::empty()) == Some((params, s.len())),
    ensures
        sfv::dictionary(s) == Some(
            seq![MemberView { key: "sig"@, value, params, raw: s.subrange(4, s.len() as int) }],
        ),
{
    lemma_label(s);
    lemma_one_member(
        s,
        MemberView { key: "sig"@, value, params, raw: s.subrange(4, s.len() as int) },
    );
}

proof fn lemma_params_text(w: Seq<char>, n: Seq<char>)
    ensures
        "("@ + w + ");created="@ + n == ("("@ + w + ")"@) + (";created="@ + n),
        ("("@ + w + ")"@).len() == w.len() + 2,
        (";created="@ + n).len() == 9 + n.len(),
{
    assert(");created="@ =~= ")"@ + ";created="@) by {
        reveal_strlit(")");
        reveal_strlit(";created=");
        reveal_strlit(");created=");
    }
    reveal_strlit("(");
    reveal_strlit(")");
    reveal_strlit(";created=");
    let (a, b, c) = ("("@, ")"@, ";created="@);
    assert(a + w + (b + c) + n =~= (a + w + b) + (c + n));
}

proof fn lemma_input_at(s: Seq<char>, covered: Seq<Seq<char>>, created: u64)
    requires
        covered.len() > 0,
        all_printable(covered),
        created <= MAX_TIME,
        stands(s, 4, sig::own_params(covered, created)),
        s.len() == 4 + sig::own_params(covered, created).len(),
    ensures
        ({
            let mid = 6 + text::joined(problem::quoted_all(covered), " "@).len();
            &&& sfv::value_at(s, 4) == Some((ContentView::Many(items_of(covered)), mid))
            &&& sfv::params_from(s, mid, Seq::empty()) == Some(
                (seq![("created"@, BareView::Int(created as i64))], s.len()),
            )
        }),
{
    let w = text::joined(problem::quoted_all(covered), " "@);
    let n = decimal::numeral(created as nat);
    lemma_params_text(w, n);
    lemma_stands_parts(s, 4, "("@ + w + ")"@, ";created="@ + n);
    lemma_list(s, 4, covered);
    lemma_created(s, 6 + w.len(), created);
}

proof fn lemma_input(covered: Seq<Seq<char>>, created: u64)
    requires
        covered.len() > 0,
        all_printable(covered),
        created <= MAX_TIME,
    ensures
        sfv::dictionary("sig="@ + sig::own_params(covered, created)) == Some(
            seq![input_member(covered, created)],
        ),
{
    let params = sig::own_params(covered, created);
    let s = "sig="@ + params;
    reveal_strlit("sig=");
    assert(stands(s, 0, s));
    lemma_stands_parts(s, 0, "sig="@, params);
    lemma_input_at(s, covered, created);
    assert(s.subrange(4, s.len() as int) =~= params);
    lemma_member(
        s,
        ContentView::Many(items_of(covered)),
        6 + text::joined(problem::quoted_all(covered), " "@).len(),
        seq![("created"@, BareView::Int(created as i64))],
    );
}

// ---------------------------------------------------------- the signature

/// A signature as it reads.
pub open spec fn bytes_member(b: Seq<u8>) -> MemberView {
    MemberView {
        key: "sig"@,
        value: ContentView::One(BareView::Bytes(b)),
        params: Seq::empty(),
        raw: ":"@ + b64::encoded_std(b) + ":"@,
    }
}

proof fn lemma_char_from(s: Seq<char>, i: nat, j: nat, c: char)
    requires
        i <= j < s.len(),
        s[j as int] == c,
        forall|k: int| i <= k < j ==> #[trigger] s[k] != c,
    ensures
        sfv::char_from(s, i, c) == Some(j),
    decreases j - i,
{
    if i < j {
        lemma_char_from(s, i + 1, j, c);
    }
}

proof fn lemma_bytes(s: Seq<char>, i: nat, b: Seq<u8>)
    requires
        stands(s, i, ":"@ + b64::encoded_std(b) + ":"@),
    ensures
        sfv::bare_at(s, i) == Some((BareView::Bytes(b), i + b64::encoded_std(b).len() + 2)),
        s[i as int] == ':',
{
    reveal_strlit(":");
    let e = b64::encoded_std(b);
    assert(":"@ + e + ":"@ =~= ":"@ + (e + ":"@));
    lemma_stands_parts(s, i, ":"@, e + ":"@);
    lemma_stands_parts(s, i + 1, e, ":"@);
    let j = i + 1 + e.len();
    assert(s[i + 0int] == ":"@[0]);
    assert(s[j + 0int] == ":"@[0]);
    b64::lemma_no_colon(b);
    assert forall|k: int| i + 1 <= k < j implies #[trigger] s[k] != ':' by {
        let n = k - (i + 1);
        assert(s[i + 1 + n] == e[n]);
    }
    lemma_char_from(s, i + 1, j, ':');
    assert(s.subrange((i + 1) as int, j as int) =~= e) by {
        assert forall|k: int| 0 <= k < e.len() implies s.subrange((i + 1) as int, j as int)[k]
            == #[trigger] e[k] by {
            assert(s[i + 1 + k] == e[k]);
        }
    }
    b64::law_decode_std_of_encode_std(b);
}

proof fn lemma_signature_text(e: Seq<char>)
    ensures
        "sig=:"@ + e + ":"@ == "sig="@ + (":"@ + e + ":"@),
        (":"@ + e + ":"@).len() == e.len() + 2,
        "sig="@.len() == 4,
{
    reveal_strlit("sig=:");
    reveal_strlit("sig=");
    reveal_strlit(":");
    assert("sig=:"@ =~= "sig="@ + ":"@);
    let (a, b) = ("sig="@, ":"@);
    assert((a + b) + e + b =~= a + (b + e + b));
}

proof fn lemma_signature(b: Seq<u8>)
    ensures
        sfv::dictionary("sig=:"@ + b64::encoded_std(b) + ":"@) == Some(seq![bytes_member(b)]),
{
    let e = b64::encoded_std(b);
    lemma_signature_text(e);
    let body = ":"@ + e + ":"@;
    let s = "sig="@ + body;
    assert(stands(s, 0, s));
    lemma_stands_parts(s, 0, "sig="@, body);
    lemma_bytes(s, 4, b);
    let none: ParamsView = Seq::empty();
    assert(sfv::params_from(s, s.len(), none) == Some((none, s.len())));
    assert(s.subrange(4, s.len() as int) =~= body);
    lemma_member(s, ContentView::One(BareView::Bytes(b)), s.len(), none);
}

// ---------------------------------------------------------------- the key

/// The text of a scheme.
pub open spec fn scheme_text(s: SchemeView) -> Seq<char> {
    match s {
        SchemeView::Hwk(k) => sigkey::hwk_text(k),
        SchemeView::Jwt(t) => sigkey::jwt_text(t),
        SchemeView::JktJwt(t) => sigkey::jkt_jwt_text(t),
        SchemeView::JwksUri { id, dwk, kid } => sigkey::jwks_uri_text(id, dwk, kid),
    }
}

/// A scheme that a header can hold: of printable texts, and a key that is sent
/// along is so without its identifier and its use.
pub open spec fn sendable(s: SchemeView) -> bool {
    match s {
        SchemeView::Hwk(k) => k == jwk::bare(k) && printable(k.kty) && printable(k.crv)
            && printable(k.x),
        SchemeView::Jwt(t) => printable(t),
        SchemeView::JktJwt(t) => printable(t),
        SchemeView::JwksUri { id, dwk, kid } => printable(id) && printable(dwk) && printable(kid),
    }
}

/// A token of a structured field.
pub open spec fn is_token(t: Seq<char>) -> bool {
    t.len() > 0 && sfv::is_alpha(t[0]) && forall|i: int|
        0 <= i < t.len() ==> sfv::is_token_char(#[trigger] t[i])
}

proof fn lemma_token(s: Seq<char>, i: nat, t: Seq<char>)
    requires
        is_token(t),
        stands(s, i, t),
        i + t.len() < s.len(),
        s[(i + t.len()) as int] == ';',
    ensures
        sfv::value_at(s, i) == Some((ContentView::One(BareView::Token(t)), i + t.len())),
{
    let end = i + t.len();
    assert(s[i + 0int] == t[0]);
    assert forall|k: int| i <= k < end implies sfv::in_run(Run::Token, #[trigger] s[k]) by {
        assert(s[i + (k - i)] == t[k - i]);
    }
    lemma_run(s, i, end, Run::Token);
    assert(s.subrange(i as int, end as int) =~= t) by {
        assert forall|k: int| 0 <= k < t.len() implies s.subrange(i as int, end as int)[k]
            == #[trigger] t[k] by {
            assert(s[i + k] == t[k]);
        }
    }
}

/// The texts of parameters, one after the other.
pub open spec fn params_text(ps: Seq<(Seq<char>, Seq<char>)>) -> Seq<char>
    decreases ps.len(),
{
    if ps.len() == 0 {
        Seq::empty()
    } else {
        params_text(ps.drop_last()) + sigkey::parameter(ps.last().0, ps.last().1)
    }
}

/// Parameters with text values.
pub open spec fn text_params(ps: Seq<(Seq<char>, Seq<char>)>) -> ParamsView {
    ps.map_values(|p: (Seq<char>, Seq<char>)| (p.0, BareView::Text(p.1)))
}

proof fn lemma_parameters(s: Seq<char>, i: nat, ps: Seq<(Seq<char>, Seq<char>)>)
    requires
        forall|n: int| 0 <= n < ps.len() ==> is_key((#[trigger] ps[n]).0) && printable(ps[n].1),
        stands(s, i, params_text(ps)),
    ensures
        sfv::params_from(s, i, Seq::empty()) == sfv::params_from(
            s,
            i + params_text(ps).len(),
            text_params(ps),
        ),
        ps.len() > 0 ==> i < s.len() && s[i as int] == ';',
    decreases ps.len(),
{
    if ps.len() == 0 {
        assert(text_params(ps) =~= Seq::empty());
    } else {
        let less = ps.drop_last();
        let p = ps.last();
        lemma_stands_parts(s, i, params_text(less), sigkey::parameter(p.0, p.1));
        assert forall|n: int| 0 <= n < less.len() implies is_key((#[trigger] less[n]).0)
            && printable(less[n].1) by {
            assert(less[n] == ps[n]);
        }
        lemma_parameters(s, i, less);
        assert(is_key(ps[ps.len() - 1].0) && printable(ps[ps.len() - 1].1));
        lemma_parameter(s, i + params_text(less).len(), p.0, p.1, text_params(less));
        assert(text_params(less).push((p.0, BareView::Text(p.1))) =~= text_params(ps));
        if less.len() == 0 {
            assert(params_text(less).len() == 0);
        }
        reveal_strlit(";");
        assert(sigkey::parameter(p.0, p.1).len() > 0);
    }
}

/// The member that a scheme with parameters reads as.
pub open spec fn key_member(t: Seq<char>, ps: Seq<(Seq<char>, Seq<char>)>) -> MemberView {
    MemberView {
        key: "sig"@,
        value: ContentView::One(BareView::Token(t)),
        params: text_params(ps),
        raw: t + params_text(ps),
    }
}

proof fn lemma_key(t: Seq<char>, ps: Seq<(Seq<char>, Seq<char>)>)
    requires
        is_token(t),
        ps.len() > 0,
        forall|n: int| 0 <= n < ps.len() ==> is_key((#[trigger] ps[n]).0) && printable(ps[n].1),
    ensures
        sfv::dictionary("sig="@ + (t + params_text(ps))) == Some(seq![key_member(t, ps)]),
{
    let body = t + params_text(ps);
    let s = "sig="@ + body;
    reveal_strlit("sig=");
    assert(stands(s, 0, s));
    lemma_stands_parts(s, 0, "sig="@, body);
    lemma_stands_parts(s, 4, t, params_text(ps));
    let mid = 4 + t.len();
    lemma_parameters(s, mid, ps);
    lemma_token(s, 4, t);
    assert(s.len() == mid + params_text(ps).len());
    assert(sfv::params_from(s, s.len(), text_params(ps)) == Some((text_params(ps), s.len())));
    assert(s.subrange(4, s.len() as int) =~= body);
    lemma_member(s, ContentView::One(BareView::Token(t)), mid, text_params(ps));
}

/// The last character of a quoted text is a quotation mark.
proof fn lemma_scheme_end(t: Seq<char>, ps: Seq<(Seq<char>, Seq<char>)>)
    requires
        ps.len() > 0,
    ensures
        (t + params_text(ps)).len() > 0,
        (t + params_text(ps)).last() == '"',
{
    reveal_strlit("\"");
    let p = ps.last();
    assert(sigkey::parameter(p.0, p.1).last() == '"');
}

/// The token of a scheme and its parameters.
pub open spec fn scheme_parts(s: SchemeView) -> (Seq<char>, Seq<(Seq<char>, Seq<char>)>) {
    match s {
        SchemeView::Hwk(k) => (
            "hwk"@,
            seq![("kty"@, k.kty), ("crv"@, k.crv), ("x"@, k.x), ("alg"@, "Ed25519"@)],
        ),
        SchemeView::Jwt(t) => ("jwt"@, seq![("jwt"@, t)]),
        SchemeView::JktJwt(t) => ("jkt-jwt"@, seq![("jwt"@, t)]),
        SchemeView::JwksUri { id, dwk, kid } => (
            "jwks_uri"@,
            seq![("id"@, id), ("dwk"@, dwk), ("kid"@, kid)],
        ),
    }
}

proof fn lemma_names()
    ensures
        is_token("hwk"@),
        is_token("jwt"@),
        is_token("jkt-jwt"@),
        is_token("jwks_uri"@),
        is_key("kty"@),
        is_key("crv"@),
        is_key("x"@),
        is_key("alg"@),
        is_key("jwt"@),
        is_key("id"@),
        is_key("dwk"@),
        is_key("kid"@),
        printable("Ed25519"@),
        "hwk"@ != "jwt"@,
        "hwk"@ != "jkt-jwt"@,
        "hwk"@ != "jwks_uri"@,
        "jwt"@ != "jkt-jwt"@,
        "jwt"@ != "jwks_uri"@,
        "jkt-jwt"@ != "jwks_uri"@,
        "kty"@ != "crv"@,
        "kty"@ != "x"@,
        "kty"@ != "alg"@,
        "crv"@ != "x"@,
        "crv"@ != "alg"@,
        "x"@ != "alg"@,
        "id"@ != "dwk"@,
        "id"@ != "kid"@,
        "dwk"@ != "kid"@,
{
    reveal_strlit("hwk");
    reveal_strlit("jwt");
    reveal_strlit("jkt-jwt");
    reveal_strlit("jwks_uri");
    reveal_strlit("kty");
    reveal_strlit("crv");
    reveal_strlit("x");
    reveal_strlit("alg");
    reveal_strlit("id");
    reveal_strlit("dwk");
    reveal_strlit("kid");
    reveal_strlit("Ed25519");
    assert("hwk"@[0] == 'h' && "jwt"@[0] == 'j');
    assert("kty"@[0] == 'k' && "crv"@[0] == 'c' && "alg"@[0] == 'a');
    assert("dwk"@[0] == 'd' && "kid"@[0] == 'k');
}

proof fn lemma_text_of_parts(s: SchemeView)
    ensures
        scheme_text(s) == scheme_parts(s).0 + params_text(scheme_parts(s).1),
{
    let (t, ps) = scheme_parts(s);
    match s {
        SchemeView::Hwk(k) => {
            let a = ps.drop_last();
            let b = a.drop_last();
            let c = b.drop_last();
            assert(c.drop_last() =~= Seq::empty());
            assert(params_text(c.drop_last()) =~= Seq::<char>::empty());
            let (p, q, r, z) = (
                sigkey::parameter("kty"@, k.kty),
                sigkey::parameter("crv"@, k.crv),
                sigkey::parameter("x"@, k.x),
                sigkey::parameter("alg"@, "Ed25519"@),
            );
            assert(params_text(c) =~= p);
            assert(params_text(b) =~= p + q);
            assert(params_text(a) =~= p + q + r);
            assert(params_text(ps) =~= p + q + r + z);
            assert(t + (p + q + r + z) =~= t + p + q + r + z);
        },
        SchemeView::Jwt(x) => {
            assert(ps.drop_last() =~= Seq::empty());
            assert(params_text(ps.drop_last()) =~= Seq::<char>::empty());
            assert(params_text(ps) =~= sigkey::parameter("jwt"@, x));
        },
        SchemeView::JktJwt(x) => {
            assert(ps.drop_last() =~= Seq::empty());
            assert(params_text(ps.drop_last()) =~= Seq::<char>::empty());
            assert(params_text(ps) =~= sigkey::parameter("jwt"@, x));
        },
        SchemeView::JwksUri { id, dwk, kid } => {
            let a = ps.drop_last();
            let b = a.drop_last();
            assert(b.drop_last() =~= Seq::empty());
            assert(params_text(b.drop_last()) =~= Seq::<char>::empty());
            let (p, q, r) = (
                sigkey::parameter("id"@, id),
                sigkey::parameter("dwk"@, dwk),
                sigkey::parameter("kid"@, kid),
            );
            assert(params_text(b) =~= p);
            assert(params_text(a) =~= p + q);
            assert(params_text(ps) =~= p + q + r);
            assert(t + (p + q + r) =~= t + p + q + r);
        },
    }
}

/// The parameter that stands at a place is the one of its name, where no later
/// one has that name.
proof fn lemma_param_named(ps: Seq<(Seq<char>, Seq<char>)>, n: int)
    requires
        0 <= n < ps.len(),
        forall|k: int| n < k < ps.len() ==> (#[trigger] ps[k]).0 != ps[n].0,
    ensures
        sig::text_param(text_params(ps), ps[n].0) == Some(ps[n].1),
    decreases ps.len(),
{
    let all = text_params(ps);
    if n < ps.len() - 1 {
        let less = ps.drop_last();
        assert(text_params(less) =~= all.drop_last());
        assert forall|k: int| n < k < less.len() implies (#[trigger] less[k]).0 != less[n].0 by {
            assert(less[k] == ps[k]);
        }
        lemma_param_named(less, n);
        assert(ps[ps.len() - 1].0 != ps[n].0);
    }
}

proof fn lemma_scheme_of(s: SchemeView)
    requires
        sendable(s),
    ensures
        sig::scheme_of(key_member(scheme_parts(s).0, scheme_parts(s).1)) == Ok::<
            SchemeView,
            sig::SigErrorView,
        >(s),
{
    lemma_names();
    let ps = scheme_parts(s).1;
    match s {
        SchemeView::Hwk(k) => {
            lemma_param_named(ps, 0);
            lemma_param_named(ps, 1);
            lemma_param_named(ps, 2);
            lemma_param_named(ps, 3);
            assert(ps[0] == ("kty"@, k.kty) && ps[1] == ("crv"@, k.crv));
            assert(ps[2] == ("x"@, k.x) && ps[3] == ("alg"@, "Ed25519"@));
        },
        SchemeView::JwksUri { id, dwk, kid } => {
            lemma_param_named(ps, 0);
            lemma_param_named(ps, 1);
            lemma_param_named(ps, 2);
            assert(ps[0] == ("id"@, id) && ps[1] == ("dwk"@, dwk) && ps[2] == ("kid"@, kid));
        },
        SchemeView::Jwt(t) => {
            lemma_param_named(ps, 0);
            assert(ps[0] == ("jwt"@, t));
        },
        SchemeView::JktJwt(t) => {
            lemma_param_named(ps, 0);
            assert(ps[0] == ("jwt"@, t));
        },
    }
}

proof fn lemma_parts_readable(s: SchemeView)
    requires
        sendable(s),
    ensures
        is_token(scheme_parts(s).0),
        scheme_parts(s).1.len() > 0,
        forall|n: int|
            0 <= n < scheme_parts(s).1.len() ==> is_key((#[trigger] scheme_parts(s).1[n]).0)
                && printable(scheme_parts(s).1[n].1),
{
    lemma_names();
}

/// Reading the text of a scheme gives the scheme back.
pub proof fn law_scheme_round_trip(s: SchemeView)
    requires
        sendable(s),
    ensures
        ({
            let m = key_member(scheme_parts(s).0, scheme_parts(s).1);
            &&& sfv::dictionary("sig="@ + scheme_text(s)) == Some(seq![m])
            &&& sig::scheme_of(m) == Ok::<SchemeView, sig::SigErrorView>(s)
        }),
{
    lemma_text_of_parts(s);
    lemma_parts_readable(s);
    lemma_key(scheme_parts(s).0, scheme_parts(s).1);
    lemma_scheme_of(s);
}

// ------------------------------------------------------------ the request

/// A request with the headers that signing it gave.
pub open spec fn received(p: PartsView, s: SignedView) -> PartsView {
    PartsView {
        method: p.method,
        authority: p.authority,
        path: p.path,
        query: p.query,
        headers: p.headers + seq![
            ("signature-input"@, s.signature_input),
            ("signature"@, s.signature),
            ("signature-key"@, s.signature_key),
        ],
    }
}

/// A header that carries a signature.
pub open spec fn is_signature_header(name: Seq<char>) -> bool {
    name == "signature-input"@ || name == "signature"@ || name == "signature-key"@
}

/// No header carries a signature yet.
pub open spec fn is_unsigned(p: PartsView) -> bool {
    forall|i: int| 0 <= i < p.headers.len() ==> !is_signature_header((#[trigger] p.headers[i]).0)
}

proof fn lemma_header_names()
    ensures
        "signature-input"@ != "signature"@,
        "signature-input"@ != "signature-key"@,
        "signature"@ != "signature-key"@,
{
    reveal_strlit("signature-input");
    reveal_strlit("signature");
    reveal_strlit("signature-key");
    assert("signature-input"@.len() == 15);
    assert("signature"@.len() == 9);
    assert("signature-key"@.len() == 13);
}

proof fn lemma_absent(h: Seq<(Seq<char>, Seq<char>)>, name: Seq<char>)
    requires
        forall|i: int| 0 <= i < h.len() ==> (#[trigger] h[i]).0 != name,
    ensures
        sig::header_values(h, name).len() == 0,
    decreases h.len(),
{
    if h.len() > 0 {
        let less = h.drop_last();
        assert forall|i: int| 0 <= i < less.len() implies (#[trigger] less[i]).0 != name by {
            assert(less[i] == h[i]);
        }
        lemma_absent(less, name);
        assert(h[h.len() - 1].0 != name);
    }
}

proof fn lemma_values_push(h: Seq<(Seq<char>, Seq<char>)>, x: (Seq<char>, Seq<char>), name: Seq<char>)
    ensures
        sig::header_values(h.push(x), name) == (if x.0 == name {
            sig::header_values(h, name).push(text::trimmed(x.1))
        } else {
            sig::header_values(h, name)
        }),
{
    assert(h.push(x).drop_last() =~= h);
}

proof fn lemma_trimmed(s: Seq<char>)
    requires
        s.len() > 0,
        !text::is_white(s[0]),
        !text::is_white(s.last()),
    ensures
        text::trimmed(s) == s,
{
}

/// The values of a header of a signed request.
proof fn lemma_received_values(p: PartsView, s: SignedView, name: Seq<char>)
    ensures
        sig::header_values(received(p, s).headers, name) == (if name == "signature-input"@ {
            sig::header_values(p.headers, name).push(text::trimmed(s.signature_input))
        } else if name == "signature"@ {
            sig::header_values(p.headers, name).push(text::trimmed(s.signature))
        } else if name == "signature-key"@ {
            sig::header_values(p.headers, name).push(text::trimmed(s.signature_key))
        } else {
            sig::header_values(p.headers, name)
        }),
{
    lemma_header_names();
    let a = ("signature-input"@, s.signature_input);
    let b = ("signature"@, s.signature);
    let c = ("signature-key"@, s.signature_key);
    let h1 = p.headers.push(a);
    let h2 = h1.push(b);
    assert(received(p, s).headers =~= h2.push(c));
    lemma_values_push(p.headers, a, name);
    lemma_values_push(h1, b, name);
    lemma_values_push(h2, c, name);
}

/// A header that was added stands alone.
proof fn lemma_received_header(p: PartsView, s: SignedView, name: Seq<char>, v: Seq<char>)
    requires
        is_unsigned(p),
        v.len() > 0,
        !text::is_white(v[0]),
        !text::is_white(v.last()),
        (name == "signature-input"@ && v == s.signature_input) || (name == "signature"@ && v
            == s.signature) || (name == "signature-key"@ && v == s.signature_key),
    ensures
        sig::header_value(received(p, s).headers, name) == Some(v),
{
    lemma_header_names();
    lemma_received_values(p, s, name);
    assert forall|i: int| 0 <= i < p.headers.len() implies (#[trigger] p.headers[i]).0 != name by {
        assert(!is_signature_header(p.headers[i].0));
    }
    lemma_absent(p.headers, name);
    lemma_trimmed(v);
    let values = sig::header_values(received(p, s).headers, name);
    assert(values =~= seq![v]);
    assert(text::joined(values, ", "@) == values[0]);
}

/// What a signature covers reads the same on both sides.
proof fn lemma_same_component(p: PartsView, s: SignedView, scheme: Seq<char>, name: Seq<char>)
    requires
        s.signature_key == "sig="@ + scheme,
        name != "signature-input"@,
        name != "signature"@,
    ensures
        sig::component(received(p, s), name) == sig::component(
            sig::with_key_header(p, scheme),
            name,
        ),
{
    lemma_received_values(p, s, name);
    lemma_values_push(p.headers, ("signature-key"@, "sig="@ + scheme), name);
}

proof fn lemma_same_lines(p: PartsView, s: SignedView, scheme: Seq<char>, covered: Seq<Seq<char>>)
    requires
        s.signature_key == "sig="@ + scheme,
        forall|i: int|
            0 <= i < covered.len() ==> #[trigger] covered[i] != "signature-input"@ && covered[i]
                != "signature"@,
    ensures
        sig::base_lines(received(p, s), covered) == sig::base_lines(
            sig::with_key_header(p, scheme),
            covered,
        ),
    decreases covered.len(),
{
    if covered.len() > 0 {
        let less = covered.drop_last();
        assert forall|i: int| 0 <= i < less.len() implies #[trigger] less[i] != "signature-input"@
            && less[i] != "signature"@ by {
            assert(less[i] == covered[i]);
        }
        lemma_same_lines(p, s, scheme, less);
        assert(covered[covered.len() - 1] != "signature-input"@);
        lemma_same_component(p, s, scheme, covered.last());
    }
}

/// Components that a signature can cover besides the usual ones.
pub open spec fn coverable(extra: Seq<Seq<char>>) -> bool {
    all_printable(extra) && forall|i: int|
        0 <= i < extra.len() ==> #[trigger] extra[i] != "signature-input"@ && extra[i]
            != "signature"@
}

proof fn lemma_coverable(extra: Seq<Seq<char>>)
    requires
        coverable(extra),
    ensures
        coverable(sig::usual_components() + extra),
{
    reveal_strlit("@method");
    reveal_strlit("@authority");
    reveal_strlit("@path");
    reveal_strlit("signature-key");
    reveal_strlit("signature-input");
    reveal_strlit("signature");
    let usual = sig::usual_components();
    let all = usual + extra;
    assert(printable(usual[0]) && printable(usual[1]) && printable(usual[2]) && printable(usual[3]));
    assert("@method"@[0] == '@' && "@authority"@[0] == '@' && "@path"@[0] == '@');
    assert("signature-input"@[0] == 's' && "signature"@[0] == 's');
    assert forall|i: int| 0 <= i < all.len() implies printable(#[trigger] all[i]) && all[i]
        != "signature-input"@ && all[i] != "signature"@ by {
        if i < 4 {
            assert(all[i] == usual[i]);
        } else {
            assert(all[i] == extra[i - 4]);
            assert(printable(extra[i - 4]));
        }
    }
}

/// The ends of the headers that signing gives are no white space.
proof fn lemma_ends(covered: Seq<Seq<char>>, created: u64, b: Seq<u8>, s: SchemeView)
    ensures
        ({
            let input = "sig="@ + sig::own_params(covered, created);
            let bytes = "sig=:"@ + b64::encoded_std(b) + ":"@;
            let key = "sig="@ + scheme_text(s);
            &&& input.len() > 0 && !text::is_white(input[0]) && !text::is_white(input.last())
            &&& bytes.len() > 0 && !text::is_white(bytes[0]) && !text::is_white(bytes.last())
            &&& key.len() > 0 && !text::is_white(key[0]) && !text::is_white(key.last())
        }),
{
    reveal_strlit("sig=");
    reveal_strlit("sig=:");
    reveal_strlit(":");
    decimal::lemma_numeral(created as nat);
    let n = decimal::numeral(created as nat);
    let input = "sig="@ + sig::own_params(covered, created);
    assert(input.last() == n.last());
    assert(decimal::is_digit(n[n.len() - 1]));
    lemma_text_of_parts(s);
    lemma_scheme_end(scheme_parts(s).0, scheme_parts(s).1);
    let key = "sig="@ + scheme_text(s);
    assert(key.last() == scheme_text(s).last());
}

/// A time that is within the window of a policy.
pub open spec fn timely(created: u64, policy: PolicyView) -> bool {
    created <= policy.now + policy.window_secs && policy.now <= created + policy.window_secs
}

/// A request that was signed is accepted wherever what must be covered was
/// covered, as long as its time is within the window: what is taken from its
/// headers is the scheme, the text that was signed and the signature that they
/// were made from. Whether the signature holds is then a matter of the key.
pub proof fn law_signed_request_is_accepted(
    p: PartsView,
    extra: Seq<Seq<char>>,
    scheme: SchemeView,
    seed: Seq<u8>,
    created: u64,
    policy: PolicyView,
)
    requires
        is_unsigned(p),
        coverable(extra),
        sendable(scheme),
        created <= MAX_TIME,
        timely(created, policy),
        sig::signed_headers(p, extra, scheme_text(scheme), seed, created) is Some,
        ({
            let s = sig::signed_headers(p, extra, scheme_text(scheme), seed, created)->0;
            sig::all_covered(
                sig::required_components(received(p, s), policy),
                sig::usual_components() + extra,
            )
        }),
    ensures
        ({
            let s = sig::signed_headers(p, extra, scheme_text(scheme), seed, created)->0;
            let base = sig::signed_base(p, extra, scheme_text(scheme), created)->0;
            sig::request_signature(received(p, s), policy) == Ok::<ParsedView, sig::SigErrorView>(
                ParsedView {
                    scheme,
                    base,
                    signature: crypto::ed_signature(seed, vstd::utf8::encode_utf8(base)),
                },
            )
        }),
{
    let s = sig::signed_headers(p, extra, scheme_text(scheme), seed, created)->0;
    let q = received(p, s);
    let covered = sig::usual_components() + extra;
    let base = sig::signed_base(p, extra, scheme_text(scheme), created)->0;
    let bytes = crypto::ed_signature(seed, vstd::utf8::encode_utf8(base));
    lemma_coverable(extra);
    lemma_ends(covered, created, bytes, scheme);
    lemma_received_header(p, s, "signature-input"@, s.signature_input);
    lemma_received_header(p, s, "signature"@, s.signature);
    lemma_received_header(p, s, "signature-key"@, s.signature_key);
    lemma_input(covered, created);
    lemma_signature(bytes);
    law_scheme_round_trip(scheme);
    lemma_covered(covered);
    lemma_same_lines(p, s, scheme_text(scheme), covered);
    let input = input_member(covered, created);
    let key = key_member(scheme_parts(scheme).0, scheme_parts(scheme).1);
    lemma_found(bytes_member(bytes));
    lemma_found(key);
    lemma_in_time(created, policy);
    assert(sig::labelled_signature(q, policy, input, Some(bytes_member(bytes)), Some(key)) == Ok::<
        ParsedView,
        sig::SigErrorView,
    >(ParsedView { scheme, base, signature: bytes }));
}

proof fn lemma_found(m: MemberView)
    ensures
        sfv::member_named(seq![m], m.key) == Some(m),
{
}

proof fn lemma_in_time(created: u64, policy: PolicyView)
    requires
        created <= MAX_TIME,
        timely(created, policy),
    ensures
        sig::signed_time_fault(seq![("created"@, BareView::Int(created as i64))], policy) is None,
{
    reveal_strlit("created");
    reveal_strlit("expires");
    assert("created"@[0] == 'c' && "expires"@[0] == 'e');
    let ps: ParamsView = seq![("created"@, BareView::Int(created as i64))];
    assert(ps.drop_last() =~= Seq::empty());
    assert(sfv::param_named(ps.drop_last(), "expires"@) is None);
}

} // verus!
