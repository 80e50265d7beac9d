//! The wire format of Redis (RESP2), and what the store asks of a Redis server
//! and reads from its replies.
//!
//! Every operation that changes something is one atomic command: `SET NX` to
//! create, `GETDEL` to consume, `INCR` to count, and `MULTI`/`EXEC` around
//! reading and clearing a list.

use vstd::prelude::*;

use crate::decimal;
use crate::storage;
use crate::storage::{copy_bytes, serr, StorageError};
use crate::table;
use crate::text;

verus! {

/// A reply.
pub enum Resp {
    Simple(String),
    Error(String),
    Int(i64),
    Bulk(Option<Vec<u8>>),
    Array(Option<Vec<Resp>>),
}

/// What a reply holds.
pub enum RespView {
    Simple(Seq<char>),
    Error(Seq<char>),
    Int(i64),
    Bulk(Option<Seq<u8>>),
    Array(Option<Seq<RespView>>),
}

impl Resp {
    /// What the reply holds.
    pub open spec fn view(&self) -> RespView
        decreases self,
    {
        match self {
            Resp::Simple(s) => RespView::Simple(s@),
            Resp::Error(s) => RespView::Error(s@),
            Resp::Int(n) => RespView::Int(*n),
            Resp::Bulk(None) => RespView::Bulk(None),
            Resp::Bulk(Some(b)) => RespView::Bulk(Some(b@)),
            Resp::Array(None) => RespView::Array(None),
            Resp::Array(Some(a)) => RespView::Array(Some(replies(a@))),
        }
    }
}

/// What a list of replies holds.
pub open spec fn replies(s: Seq<Resp>) -> Seq<RespView>
    decreases s,
{
    if s.len() == 0 {
        Seq::empty()
    } else {
        replies(s.drop_last()).push(s.last().view())
    }
}

/// Each reply holds what it holds by itself.
pub proof fn lemma_replies(s: Seq<Resp>)
    ensures
        replies(s).len() == s.len(),
        forall|i: int| 0 <= i < s.len() ==> #[trigger] replies(s)[i] == s[i].view(),
    decreases s.len(),
{
    if s.len() > 0 {
        lemma_replies(s.drop_last());
        assert forall|i: int| 0 <= i < s.len() implies #[trigger] replies(s)[i]
            == s[i].view() by {
            if i < s.len() - 1 {
                assert(replies(s.drop_last())[i] == s.drop_last()[i].view());
            }
        }
    }
}

// -------------------------------------------------------------- commands

/// The length prefix of a part of a command.
pub open spec fn prefix_bytes(tag: Seq<char>, n: nat) -> Seq<u8> {
    vstd::utf8::encode_utf8(tag + decimal::numeral(n) + "\r\n"@)
}

/// The parts of a command, each with its length.
pub open spec fn argument_bytes(args: Seq<Seq<u8>>) -> Seq<u8>
    decreases args.len(),
{
    if args.len() == 0 {
        Seq::empty()
    } else {
        argument_bytes(args.drop_last()) + prefix_bytes("$"@, args.last().len()) + args.last()
            + vstd::utf8::encode_utf8("\r\n"@)
    }
}

/// A command as it is sent: an array of byte strings.
pub open spec fn command_bytes(args: Seq<Seq<u8>>) -> Seq<u8> {
    prefix_bytes("*"@, args.len()) + argument_bytes(args)
}

fn append_text(out: &mut Vec<u8>, s: &str)
    ensures
        final(out)@ == old(out)@ + vstd::utf8::encode_utf8(s@),
{
    let b = s.as_bytes();
    append_bytes(out, b);
}

fn append_bytes(out: &mut Vec<u8>, b: &[u8])
    ensures
        final(out)@ == old(out)@ + b@,
{
    let mut copy = copy_bytes(b);
    out.append(&mut copy);
}

fn append_length(out: &mut Vec<u8>, tag: &str, n: usize)
    ensures
        final(out)@ == old(out)@ + prefix_bytes(tag@, n as nat),
{
    let line = text::join3(tag, decimal::unsigned(n as u64).as_str(), "\r\n");
    append_text(out, line.as_str());
}

/// A command as it is sent.
pub fn command(args: &Vec<Vec<u8>>) -> (r: Vec<u8>)
    ensures
        r@ == command_bytes(text::bytes_view(args@)),
{
    let ghost all = text::bytes_view(args@);
    let mut out: Vec<u8> = Vec::new();
    append_length(&mut out, "*", args.len());
    let mut i: usize = 0;
    proof {
        assert(out@ =~= prefix_bytes("*"@, all.len()) + argument_bytes(all.take(0)));
    }
    while i < args.len()
        invariant
            i <= args@.len(),
            all == text::bytes_view(args@),
            out@ == prefix_bytes("*"@, all.len()) + argument_bytes(all.take(i as int)),
        decreases args@.len() - i,
    {
        append_length(&mut out, "$", args[i].len());
        append_bytes(&mut out, args[i].as_slice());
        append_text(&mut out, "\r\n");
        proof {
            assert(all.take(i + 1).drop_last() =~= all.take(i as int));
            assert(all.take(i + 1).last() == args@[i as int]@);
            assert(out@ =~= prefix_bytes("*"@, all.len()) + argument_bytes(all.take(i + 1)));
        }
        i += 1;
    }
    proof {
        assert(all.take(all.len() as int) =~= all);
    }
    out
}

// --------------------------------------------------------------- replies

/// What can be said of the bytes that have come so far.
pub enum Progress<T> {
    /// The reply is not complete.
    More,
    /// The bytes are no reply.
    Bad(String),
    /// The reply, and where it ends.
    Done(T, usize),
}

/// The same, over what a reply holds.
pub enum ProgressView<T> {
    More,
    Bad(Seq<char>),
    Done(T, nat),
}

/// The longest line that is read.
pub const MAX_LINE: usize = 65536;

/// The place of the first carriage return at or after `at`.
pub open spec fn return_at(b: Seq<u8>, at: nat) -> Option<nat>
    decreases b.len() - at,
{
    if at >= b.len() {
        None
    } else if b[at as int] == 13u8 {
        Some(at)
    } else {
        return_at(b, at + 1)
    }
}

/// The line that starts at `at`.
pub open spec fn line_at(b: Seq<u8>, at: nat) -> ProgressView<Seq<u8>> {
    match return_at(b, at) {
        None => if b.len() - at > MAX_LINE {
            ProgressView::Bad("redis line too long"@)
        } else {
            ProgressView::More
        },
        Some(p) => if p - at > MAX_LINE {
            ProgressView::Bad("redis line too long"@)
        } else if p + 1 >= b.len() {
            ProgressView::More
        } else if b[(p + 1) as int] != 10u8 {
            ProgressView::Bad("redis protocol error"@)
        } else {
            ProgressView::Done(b.subrange(at as int, p as int), p + 2)
        },
    }
}

/// The reply that starts at `at`.
pub open spec fn reply_at(b: Seq<u8>, at: nat) -> ProgressView<RespView>
    decreases b.len() - at, 0nat,
{
    match line_at(b, at) {
        ProgressView::More => ProgressView::More,
        ProgressView::Bad(e) => ProgressView::Bad(e),
        ProgressView::Done(line, end) => match text::utf8_text(line) {
            None => ProgressView::Bad(text::utf8_error(line)),
            Some(t) => if t.len() == 0 {
                ProgressView::Bad("redis protocol error"@)
            } else if t[0] == '+' {
                ProgressView::Done(RespView::Simple(t.skip(1)), end)
            } else if t[0] == '-' {
                ProgressView::Done(RespView::Error(t.skip(1)), end)
            } else if t[0] != ':' && t[0] != '$' && t[0] != '*' {
                ProgressView::Bad("redis protocol error"@)
            } else {
                match decimal::signed_value(t.skip(1)) {
                    None => ProgressView::Bad(decimal::integer_error(t.skip(1))),
                    Some(n) => if t[0] == ':' {
                        ProgressView::Done(RespView::Int(n), end)
                    } else if t[0] == '$' {
                        if n < 0 {
                            ProgressView::Done(RespView::Bulk(None), end)
                        } else if end + n + 2 > b.len() {
                            ProgressView::More
                        } else {
                            ProgressView::Done(
                                RespView::Bulk(Some(b.subrange(end as int, end + n))),
                                (end + n + 2) as nat,
                            )
                        }
                    } else if n < 0 {
                        ProgressView::Done(RespView::Array(None), end)
                    } else if end <= at || end > b.len() {
                        ProgressView::Bad("redis protocol error"@)
                    } else {
                        match items_at(b, end, n as nat) {
                            ProgressView::More => ProgressView::More,
                            ProgressView::Bad(e) => ProgressView::Bad(e),
                            ProgressView::Done(items, stop) => ProgressView::Done(
                                RespView::Array(Some(items)),
                                stop,
                            ),
                        }
                    },
                }
            },
        },
    }
}

/// The `n` replies that start at `at`. A reply takes at least one byte.
pub open spec fn items_at(b: Seq<u8>, at: nat, n: nat) -> ProgressView<Seq<RespView>>
    decreases b.len() - at, n + 1,
{
    if n == 0 {
        ProgressView::Done(Seq::empty(), at)
    } else {
        match reply_at(b, at) {
            ProgressView::More => ProgressView::More,
            ProgressView::Bad(e) => ProgressView::Bad(e),
            ProgressView::Done(first, end) => if at < end <= b.len() {
                prepended(seq![first], items_at(b, end, (n - 1) as nat))
            } else {
                ProgressView::Bad("redis protocol error"@)
            },
        }
    }
}

/// Items, and those that follow.
pub open spec fn prepended(
    items: Seq<RespView>,
    rest: ProgressView<Seq<RespView>>,
) -> ProgressView<Seq<RespView>> {
    match rest {
        ProgressView::More => ProgressView::More,
        ProgressView::Bad(e) => ProgressView::Bad(e),
        ProgressView::Done(more, end) => ProgressView::Done(items + more, end),
    }
}

/// What [`line_at`] says of a line.
pub open spec fn line_progress(r: Progress<Vec<u8>>) -> ProgressView<Seq<u8>> {
    match r {
        Progress::More => ProgressView::More,
        Progress::Bad(e) => ProgressView::Bad(e@),
        Progress::Done(l, end) => ProgressView::Done(l@, end as nat),
    }
}

/// What [`reply_at`] says of a reply.
pub open spec fn reply_progress(r: Progress<Resp>) -> ProgressView<RespView> {
    match r {
        Progress::More => ProgressView::More,
        Progress::Bad(e) => ProgressView::Bad(e@),
        Progress::Done(l, end) => ProgressView::Done(l@, end as nat),
    }
}

/// Reads the line that starts at `at`.
pub fn read_line(b: &[u8], at: usize) -> (r: Progress<Vec<u8>>)
    requires
        at <= b@.len(),
    ensures
        line_progress(r) == line_at(b@, at as nat),
        r matches Progress::Done(_, end) ==> at < end <= b@.len(),
{
    let mut p: usize = at;
    while p < b.len() && b[p] != 13u8
        invariant
            at <= p <= b@.len(),
            return_at(b@, at as nat) == return_at(b@, p as nat),
        decreases b@.len() - p,
    {
        p += 1;
    }
    if p - at > MAX_LINE {
        return Progress::Bad("redis line too long".to_owned());
    }
    if p >= b.len() || p + 1 >= b.len() {
        return Progress::More;
    }
    if b[p + 1] != 10u8 {
        return Progress::Bad("redis protocol error".to_owned());
    }
    let line = copy_bytes(vstd::slice::slice_subrange(b, at, p));
    Progress::Done(line, p + 2)
}

/// Reads the reply that starts at `at`.
pub fn read_reply(b: &[u8], at: usize) -> (r: Progress<Resp>)
    requires
        at <= b@.len(),
    ensures
        reply_progress(r) == reply_at(b@, at as nat),
        r matches Progress::Done(_, end) ==> at < end <= b@.len(),
    decreases b@.len() - at,
{
    let (line, end) = match read_line(b, at) {
        Progress::More => {
            return Progress::More;
        },
        Progress::Bad(e) => {
            return Progress::Bad(e);
        },
        Progress::Done(line, end) => (line, end),
    };
    let decoded = match text::utf8_or_why(line.as_slice()) {
        Ok(t) => t,
        Err(e) => {
            return Progress::Bad(e);
        },
    };
    let chars = text::to_chars(decoded.as_str());
    if chars.len() == 0 {
        return Progress::Bad("redis protocol error".to_owned());
    }
    let rest = text::slice_text(chars.as_slice(), 1, chars.len());
    proof {
        assert(rest@ =~= decoded@.skip(1));
    }
    if chars[0] == '+' {
        return Progress::Done(Resp::Simple(rest), end);
    }
    if chars[0] == '-' {
        return Progress::Done(Resp::Error(rest), end);
    }
    if chars[0] != ':' && chars[0] != '$' && chars[0] != '*' {
        return Progress::Bad("redis protocol error".to_owned());
    }
    let n: i64 = match decimal::parse_signed(rest.as_str()) {
        Some(n) => n,
        None => {
            return Progress::Bad(decimal::outside_integer_error(rest.as_str()));
        },
    };
    if chars[0] == ':' {
        return Progress::Done(Resp::Int(n), end);
    }
    if chars[0] == '$' {
        if n < 0 {
            return Progress::Done(Resp::Bulk(None), end);
        }
        if n as u64 > (b.len() - end) as u64 || (b.len() - end) as u64 - (n as u64) < 2 {
            return Progress::More;
        }
        let stop: usize = end + n as usize;
        let data = copy_bytes(vstd::slice::slice_subrange(b, end, stop));
        return Progress::Done(Resp::Bulk(Some(data)), stop + 2);
    }
    if n < 0 {
        return Progress::Done(Resp::Array(None), end);
    }
    let total: u64 = n as u64;
    let mut items: Vec<Resp> = Vec::new();
    let mut i: u64 = 0;
    let mut place: usize = end;
    proof {
        let whole = items_at(b@, end as nat, total as nat);
        assert(replies(items@) =~= Seq::<RespView>::empty());
        if let ProgressView::Done(more, stop) = whole {
            assert(Seq::<RespView>::empty() + more =~= more);
        }
    }
    while i < total
        invariant
            i <= total,
            at < end <= place <= b@.len(),
            prepended(replies(items@), items_at(b@, place as nat, (total - i) as nat)) == items_at(
                b@,
                end as nat,
                total as nat,
            ),
            n == total,
            reply_at(b@, at as nat) == (match items_at(b@, end as nat, total as nat) {
                ProgressView::More => ProgressView::More,
                ProgressView::Bad(e) => ProgressView::Bad(e),
                ProgressView::Done(all, stop) => ProgressView::Done(
                    RespView::Array(Some(all)),
                    stop,
                ),
            }),
        decreases total - i,
    {
        match read_reply(b, place) {
            Progress::More => {
                return Progress::More;
            },
            Progress::Bad(e) => {
                return Progress::Bad(e);
            },
            Progress::Done(item, stop) => {
                let ghost was = replies(items@);
                let ghost before = items@;
                let ghost one = item@;
                let ghost tail = items_at(b@, stop as nat, (total - i - 1) as nat);
                items.push(item);
                proof {
                    assert(items@.drop_last() =~= before);
                    assert(replies(items@) =~= was.push(one));
                    assert(items_at(b@, place as nat, (total - i) as nat) == prepended(
                        seq![one],
                        tail,
                    ));
                    if let ProgressView::Done(more, z) = tail {
                        assert(was + (seq![one] + more) =~= was.push(one) + more);
                    }
                }
                place = stop;
            },
        }
        i += 1;
    }
    proof {
        assert(replies(items@) + Seq::<RespView>::empty() =~= replies(items@));
    }
    Progress::Done(Resp::Array(Some(items)), place)
}

// ----------------------------------------------- what the replies mean

/// Whether a reply is an error; other replies are handed on.
pub fn checked(resp: Resp) -> (r: Result<Resp, StorageError>)
    ensures
        match r {
            Ok(x) => x@ == resp@ && !(resp@ is Error),
            Err(e) => resp@ matches RespView::Error(t) && e.0@ == "redis: "@ + t,
        },
{
    match resp {
        Resp::Error(e) => Err(serr(text::join2("redis: ", e.as_str()).as_str())),
        other => Ok(other),
    }
}

/// The value that `GET` or `GETDEL` replies.
pub fn value_reply(resp: Resp, name: &str) -> (r: Result<Option<Vec<u8>>, StorageError>)
    ensures
        match r {
            Ok(v) => resp@ == RespView::Bulk(crate::storage::opt_bytes(v)),
            Err(e) => !(resp@ is Bulk) && e.0@ == "unexpected "@ + name@ + " reply"@,
        },
{
    match resp {
        Resp::Bulk(v) => Ok(v),
        _ => Err(serr(text::join3("unexpected ", name, " reply").as_str())),
    }
}

/// Whether `SET NX` set the value.
pub fn created_reply(resp: Resp) -> (r: Result<bool, StorageError>)
    ensures
        match r {
            Ok(true) => resp@ is Simple,
            Ok(false) => resp@ == RespView::Bulk(None),
            Err(e) => !(resp@ is Simple) && resp@ != RespView::Bulk(None) && e.0@
                == "unexpected SET NX reply"@,
        },
{
    match resp {
        Resp::Simple(_) => Ok(true),
        Resp::Bulk(None) => Ok(false),
        _ => Err(serr("unexpected SET NX reply")),
    }
}

/// Whether `DEL` removed something.
pub fn deleted_reply(resp: Resp) -> (r: Result<bool, StorageError>)
    ensures
        match r {
            Ok(b) => resp@ matches RespView::Int(n) && b == (n > 0),
            Err(e) => !(resp@ is Int) && e.0@ == "unexpected DEL reply"@,
        },
{
    match resp {
        Resp::Int(n) => Ok(n > 0),
        _ => Err(serr("unexpected DEL reply")),
    }
}

/// The count that `INCR` replies.
pub fn counted_reply(resp: Resp) -> (r: Result<i64, StorageError>)
    ensures
        match r {
            Ok(n) => resp@ == RespView::Int(n),
            Err(e) => !(resp@ is Int) && e.0@ == "unexpected INCR reply"@,
        },
{
    match resp {
        Resp::Int(n) => Ok(n),
        _ => Err(serr("unexpected INCR reply")),
    }
}

/// The byte strings of a list of replies, where all are byte strings.
pub open spec fn all_bulk(s: Seq<RespView>) -> Option<Seq<Seq<u8>>>
    decreases s.len(),
{
    if s.len() == 0 {
        Some(Seq::empty())
    } else {
        match (all_bulk(s.drop_last()), s.last()) {
            (Some(items), RespView::Bulk(Some(b))) => Some(items.push(b)),
            _ => None,
        }
    }
}

/// What the transaction that reads and clears a list replies: the items of the
/// list, or what is wrong.
pub open spec fn drained(r: RespView) -> Result<Seq<Seq<u8>>, Seq<char>> {
    match r {
        RespView::Array(Some(parts)) => if parts.len() == 2 {
            match parts[0] {
                RespView::Array(Some(items)) => match all_bulk(items) {
                    Some(values) => Ok(values),
                    None => Err("unexpected LRANGE item"@),
                },
                RespView::Array(None) => Ok(Seq::empty()),
                _ => Err("unexpected EXEC reply"@),
            }
        } else {
            Err("unexpected EXEC reply"@)
        },
        _ => Err("unexpected EXEC reply"@),
    }
}

proof fn lemma_all_bulk_prefix(s: Seq<RespView>, n: int)
    requires
        0 <= n <= s.len(),
        all_bulk(s.take(n)) is None,
    ensures
        all_bulk(s) is None,
    decreases s.len() - n,
{
    if n < s.len() {
        assert(s.take(n + 1).drop_last() =~= s.take(n));
        lemma_all_bulk_prefix(s, n + 1);
    } else {
        assert(s.take(n) =~= s);
    }
}

fn bulk_values(items: &Vec<Resp>) -> (r: Option<Vec<Vec<u8>>>)
    ensures
        match r {
            Some(v) => all_bulk(replies(items@)) == Some(text::bytes_view(v@)),
            None => all_bulk(replies(items@)) is None,
        },
{
    let ghost all = replies(items@);
    let mut out: Vec<Vec<u8>> = Vec::new();
    let mut i: usize = 0;
    proof {
        lemma_replies(items@);
        assert(all.take(0) =~= Seq::empty());
        assert(text::bytes_view(out@) =~= Seq::empty());
    }
    while i < items.len()
        invariant
            i <= items@.len(),
            all.len() == items@.len(),
            forall|j: int| 0 <= j < items@.len() ==> #[trigger] all[j] == items@[j].view(),
            all_bulk(all.take(i as int)) == Some(text::bytes_view(out@)),
            all == replies(items@),
        decreases items@.len() - i,
    {
        proof {
            assert(all.take(i + 1).drop_last() =~= all.take(i as int));
            assert(all.take(i + 1).last() == items@[i as int].view());
        }
        match &items[i] {
            Resp::Bulk(Some(b)) => {
                let ghost was = out@;
                out.push(copy_bytes(b.as_slice()));
                proof {
                    assert(text::bytes_view(out@) =~= text::bytes_view(was).push(b@));
                }
            },
            _ => {
                proof {
                    lemma_all_bulk_prefix(all, i + 1);
                }
                return None;
            },
        }
        i += 1;
    }
    proof {
        assert(all.take(all.len() as int) =~= all);
    }
    Some(out)
}

/// Reads what the transaction that reads and clears a list replies.
pub fn drained_reply(resp: &Resp) -> (r: Result<Vec<Vec<u8>>, StorageError>)
    ensures
        match r {
            Ok(v) => drained(resp@) == Ok::<Seq<Seq<u8>>, Seq<char>>(text::bytes_view(v@)),
            Err(e) => drained(resp@) == Err::<Seq<Seq<u8>>, Seq<char>>(e.0@),
        },
{
    if let Resp::Array(Some(parts)) = resp {
        proof {
            lemma_replies(parts@);
        }
        if parts.len() == 2 {
            return match &parts[0] {
                Resp::Array(Some(items)) => match bulk_values(items) {
                    Some(v) => Ok(v),
                    None => Err(serr("unexpected LRANGE item")),
                },
                Resp::Array(None) => {
                    let none: Vec<Vec<u8>> = Vec::new();
                    proof {
                        assert(text::bytes_view(none@) =~= Seq::empty());
                    }
                    Ok(none)
                },
                _ => Err(serr("unexpected EXEC reply")),
            };
        }
    }
    Err(serr("unexpected EXEC reply"))
}

// --------------------------------------------------- what is asked for

/// The bytes of a text.
pub open spec fn ascii(s: Seq<char>) -> Seq<u8> {
    vstd::utf8::encode_utf8(s)
}

fn bytes_of(s: &str) -> (r: Vec<u8>)
    ensures
        r@ == ascii(s@),
{
    copy_bytes(s.as_bytes())
}

/// The key of the server under which a key of the store stands.
pub fn server_key(prefix: &str, key: &str) -> (r: Vec<u8>)
    ensures
        r@ == ascii(prefix@ + key@),
{
    bytes_of(text::join2(prefix, key).as_str())
}

/// A command on one key.
pub fn key_command(name: &str, prefix: &str, key: &str) -> (r: Vec<Vec<u8>>)
    ensures
        text::bytes_view(r@) == seq![ascii(name@), ascii(prefix@ + key@)],
{
    let r: Vec<Vec<u8>> = vec![bytes_of(name), server_key(prefix, key)];
    proof {
        assert(text::bytes_view(r@) =~= seq![ascii(name@), ascii(prefix@ + key@)]);
    }
    r
}

/// The parts of a `SET`: only where there is no value yet if `absent`, and for
/// at least one millisecond if for a time.
pub open spec fn set_parts(
    key: Seq<char>,
    value: Seq<u8>,
    ttl: Option<u64>,
    absent: bool,
) -> Seq<Seq<u8>> {
    let base = seq![ascii("SET"@), ascii(key), value];
    let exclusive = if absent {
        base.push(ascii("NX"@))
    } else {
        base
    };
    match ttl {
        Some(ms) => exclusive.push(ascii("PX"@)).push(
            ascii(
                decimal::numeral(
                    if ms == 0 {
                        1
                    } else {
                        ms as nat
                    },
                ),
            ),
        ),
        None => exclusive,
    }
}

/// The `SET` that stores a value.
pub fn set_command(prefix: &str, key: &str, value: &[u8], ttl: Option<u64>, absent: bool) -> (r:
    Vec<Vec<u8>>)
    ensures
        text::bytes_view(r@) == set_parts(prefix@ + key@, value@, ttl, absent),
{
    let mut r: Vec<Vec<u8>> = vec![bytes_of("SET"), server_key(prefix, key), copy_bytes(value)];
    if absent {
        r.push(bytes_of("NX"));
    }
    if let Some(ms) = ttl {
        r.push(bytes_of("PX"));
        let least: u64 = if ms == 0 {
            1
        } else {
            ms
        };
        r.push(bytes_of(decimal::unsigned(least).as_str()));
    }
    proof {
        assert(text::bytes_view(r@) =~= set_parts(prefix@ + key@, value@, ttl, absent));
    }
    r
}

/// A command on a list.
pub enum ListCommand {
    /// Appends an item.
    Push { key: Seq<char>, value: Seq<u8> },
    /// Keeps the items from one place to another, both included.
    Trim { key: Seq<char>, start: int, stop: int },
    /// Reads the items from one place to another, both included.
    Range { key: Seq<char>, start: int, stop: int },
    /// Removes the list.
    Drop { key: Seq<char> },
}

/// A place in a list, in a command.
pub open spec fn place_text(i: int) -> Seq<u8> {
    ascii(decimal::signed_numeral(i))
}

/// The parts of a command on a list.
pub open spec fn list_parts(c: ListCommand) -> Seq<Seq<u8>> {
    match c {
        ListCommand::Push { key, value } => seq![ascii("RPUSH"@), ascii(key), value],
        ListCommand::Trim { key, start, stop } => seq![
            ascii("LTRIM"@),
            ascii(key),
            place_text(start),
            place_text(stop),
        ],
        ListCommand::Range { key, start, stop } => seq![
            ascii("LRANGE"@),
            ascii(key),
            place_text(start),
            place_text(stop),
        ],
        ListCommand::Drop { key } => seq![ascii("DEL"@), ascii(key)],
    }
}

/// The items from one place to another, both included. A negative place counts
/// from the end, the last item being at -1, and places outside the list are
/// moved to its ends.
pub open spec fn between(s: Seq<Seq<u8>>, start: int, stop: int) -> Seq<Seq<u8>> {
    let first = if start < 0 {
        s.len() + start
    } else {
        start
    };
    let last = if stop < 0 {
        s.len() + stop
    } else {
        stop
    };
    let from = if first < 0 {
        0
    } else {
        first
    };
    let to = if last >= s.len() {
        s.len() - 1
    } else {
        last
    };
    if from > to {
        Seq::empty()
    } else {
        s.subrange(from, to + 1)
    }
}

/// The items of a list: none where there is no list.
pub open spec fn items_of(lists: Map<Seq<char>, Seq<Seq<u8>>>, key: Seq<char>) -> Seq<Seq<u8>> {
    if lists.dom().contains(key) {
        lists[key]
    } else {
        Seq::empty()
    }
}

/// Lists with one of them changed. A server has no empty lists.
pub open spec fn with_items(
    lists: Map<Seq<char>, Seq<Seq<u8>>>,
    key: Seq<char>,
    items: Seq<Seq<u8>>,
) -> Map<Seq<char>, Seq<Seq<u8>>> {
    if items.len() == 0 {
        lists.remove(key)
    } else {
        lists.insert(key, items)
    }
}

/// The lists of a server after a command, as the commands are documented.
pub open spec fn lists_after(
    lists: Map<Seq<char>, Seq<Seq<u8>>>,
    c: ListCommand,
) -> Map<Seq<char>, Seq<Seq<u8>>> {
    match c {
        ListCommand::Push { key, value } => with_items(
            lists,
            key,
            items_of(lists, key).push(value),
        ),
        ListCommand::Trim { key, start, stop } => with_items(
            lists,
            key,
            between(items_of(lists, key), start, stop),
        ),
        ListCommand::Range { .. } => lists,
        ListCommand::Drop { key } => lists.remove(key),
    }
}

/// The command that keeps the newest `max` items of a list. A place is a signed
/// number of 64 bits.
pub open spec fn keeping(key: Seq<char>, max: usize) -> ListCommand {
    if max == 0 {
        ListCommand::Drop { key }
    } else if max > i64::MAX {
        ListCommand::Trim { key, start: -i64::MAX, stop: -1 }
    } else {
        ListCommand::Trim { key, start: -(max as int), stop: -1 }
    }
}

/// The commands that append to a list and keep its newest `max` items.
pub fn push_commands(prefix: &str, key: &str, value: &[u8], max: usize) -> (r: (
    Vec<Vec<u8>>,
    Vec<Vec<u8>>,
))
    ensures
        text::bytes_view(r.0@) == list_parts(
            ListCommand::Push { key: prefix@ + key@, value: value@ },
        ),
        text::bytes_view(r.1@) == list_parts(keeping(prefix@ + key@, max)),
{
    let push: Vec<Vec<u8>> = vec![bytes_of("RPUSH"), server_key(prefix, key), copy_bytes(value)];
    proof {
        assert(text::bytes_view(push@) =~= list_parts(
            ListCommand::Push { key: prefix@ + key@, value: value@ },
        ));
    }
    if max == 0 {
        return (push, key_command("DEL", prefix, key));
    }
    let most: u64 = 0x7fff_ffff_ffff_ffff;
    let kept: u64 = if max as u64 > most {
        most
    } else {
        max as u64
    };
    let start: i64 = -(kept as i64);
    let trim: Vec<Vec<u8>> = vec![
        bytes_of("LTRIM"),
        server_key(prefix, key),
        bytes_of(decimal::signed(start).as_str()),
        bytes_of(decimal::signed(-1).as_str()),
    ];
    proof {
        assert(text::bytes_view(trim@) =~= list_parts(keeping(prefix@ + key@, max)));
    }
    (push, trim)
}

/// The command, within a transaction, that reads a whole list.
pub fn range_command(prefix: &str, key: &str) -> (r: Vec<Vec<u8>>)
    ensures
        text::bytes_view(r@) == list_parts(
            ListCommand::Range { key: prefix@ + key@, start: 0, stop: -1 },
        ),
{
    let r: Vec<Vec<u8>> = vec![
        bytes_of("LRANGE"),
        server_key(prefix, key),
        bytes_of(decimal::signed(0).as_str()),
        bytes_of(decimal::signed(-1).as_str()),
    ];
    proof {
        assert(text::bytes_view(r@) =~= list_parts(
            ListCommand::Range { key: prefix@ + key@, start: 0, stop: -1 },
        ));
    }
    r
}

/// A command of one word: `MULTI` and `EXEC`.
pub fn bare_command(name: &str) -> (r: Vec<Vec<u8>>)
    ensures
        text::bytes_view(r@) == seq![ascii(name@)],
{
    let r: Vec<Vec<u8>> = vec![bytes_of(name)];
    proof {
        assert(text::bytes_view(r@) =~= seq![ascii(name@)]);
    }
    r
}

/// The command that lists one page of the keys with a prefix.
pub fn scan_command(prefix: &str, wanted: &str, cursor: &str) -> (r: Vec<Vec<u8>>)
    ensures
        text::bytes_view(r@) == seq![
            ascii("SCAN"@),
            ascii(cursor@),
            ascii("MATCH"@),
            ascii(prefix@ + wanted@ + "*"@),
            ascii("COUNT"@),
            ascii("200"@),
        ],
{
    let r: Vec<Vec<u8>> = vec![
        bytes_of("SCAN"),
        bytes_of(cursor),
        bytes_of("MATCH"),
        bytes_of(text::join3(prefix, wanted, "*").as_str()),
        bytes_of("COUNT"),
        bytes_of("200"),
    ];
    proof {
        assert(text::bytes_view(r@) =~= seq![
            ascii("SCAN"@),
            ascii(cursor@),
            ascii("MATCH"@),
            ascii(prefix@ + wanted@ + "*"@),
            ascii("COUNT"@),
            ascii("200"@),
        ]);
    }
    r
}

/// The texts of the byte strings among some replies; nothing where one is no
/// text.
pub open spec fn key_texts(s: Seq<RespView>) -> Option<Seq<Seq<char>>>
    decreases s.len(),
{
    if s.len() == 0 {
        Some(Seq::empty())
    } else {
        match key_texts(s.drop_last()) {
            None => None,
            Some(keys) => match s.last() {
                RespView::Bulk(Some(b)) => match text::utf8_text(b) {
                    Some(t) => Some(keys.push(t)),
                    None => None,
                },
                _ => Some(keys),
            },
        }
    }
}

/// What `SCAN` replies: where to go on, and some keys.
pub open spec fn page_of(r: RespView) -> Result<(Seq<char>, Seq<Seq<char>>), Seq<char>> {
    match r {
        RespView::Array(Some(parts)) => if parts.len() == 2 {
            match parts[0] {
                RespView::Bulk(Some(c)) => match text::utf8_text(c) {
                    Some(next) => match parts[1] {
                        RespView::Array(Some(items)) => match key_texts(items) {
                            Some(keys) => Ok((next, keys)),
                            None => Err("redis protocol error"@),
                        },
                        _ => Ok((next, Seq::empty())),
                    },
                    None => Err("redis protocol error"@),
                },
                _ => Err("unexpected SCAN cursor"@),
            }
        } else {
            Err("unexpected SCAN reply"@)
        },
        _ => Err("unexpected SCAN reply"@),
    }
}

proof fn lemma_key_texts_prefix(s: Seq<RespView>, n: int)
    requires
        0 <= n <= s.len(),
        key_texts(s.take(n)) is None,
    ensures
        key_texts(s) is None,
    decreases s.len() - n,
{
    if n < s.len() {
        assert(s.take(n + 1).drop_last() =~= s.take(n));
        lemma_key_texts_prefix(s, n + 1);
    } else {
        assert(s.take(n) =~= s);
    }
}

fn read_keys(items: &Vec<Resp>) -> (r: Option<Vec<String>>)
    ensures
        match r {
            Some(v) => key_texts(replies(items@)) == Some(text::list_view(v@)),
            None => key_texts(replies(items@)) is None,
        },
{
    let ghost all = replies(items@);
    let mut out: Vec<String> = Vec::new();
    let mut i: usize = 0;
    proof {
        lemma_replies(items@);
        assert(all.take(0) =~= Seq::empty());
        assert(text::list_view(out@) =~= Seq::empty());
    }
    while i < items.len()
        invariant
            i <= items@.len(),
            all.len() == items@.len(),
            forall|j: int| 0 <= j < items@.len() ==> #[trigger] all[j] == items@[j].view(),
            key_texts(all.take(i as int)) == Some(text::list_view(out@)),
            all == replies(items@),
        decreases items@.len() - i,
    {
        proof {
            assert(all.take(i + 1).drop_last() =~= all.take(i as int));
            assert(all.take(i + 1).last() == items@[i as int].view());
        }
        if let Resp::Bulk(Some(b)) = &items[i] {
            match text::from_utf8(b.as_slice()) {
                Some(t) => {
                    let ghost was = out@;
                    out.push(t);
                    proof {
                        assert(text::list_view(out@) =~= text::list_view(was).push(t@));
                    }
                },
                None => {
                    proof {
                        lemma_key_texts_prefix(all, i + 1);
                    }
                    return None;
                },
            }
        }
        i += 1;
    }
    proof {
        assert(all.take(all.len() as int) =~= all);
    }
    Some(out)
}

/// Reads what `SCAN` replies. The listing is complete when the cursor is `0`.
pub fn page_reply(resp: &Resp) -> (r: Result<(String, Vec<String>), StorageError>)
    ensures
        match r {
            Ok(p) => page_of(resp@) == Ok::<(Seq<char>, Seq<Seq<char>>), Seq<char>>(
                (p.0@, text::list_view(p.1@)),
            ),
            Err(e) => page_of(resp@) == Err::<(Seq<char>, Seq<Seq<char>>), Seq<char>>(e.0@),
        },
{
    if let Resp::Array(Some(parts)) = resp {
        proof {
            lemma_replies(parts@);
        }
        if parts.len() == 2 {
            let next = match &parts[0] {
                Resp::Bulk(Some(c)) => match text::from_utf8(c.as_slice()) {
                    Some(t) => t,
                    None => {
                        return Err(serr("redis protocol error"));
                    },
                },
                _ => {
                    return Err(serr("unexpected SCAN cursor"));
                },
            };
            return match &parts[1] {
                Resp::Array(Some(items)) => match read_keys(items) {
                    Some(keys) => Ok((next, keys)),
                    None => Err(serr("redis protocol error")),
                },
                _ => {
                    let none: Vec<String> = Vec::new();
                    proof {
                        assert(text::list_view(none@) =~= Seq::empty());
                    }
                    Ok((next, none))
                },
            };
        }
    }
    Err(serr("unexpected SCAN reply"))
}

/// Texts in ascending order, equal ones side by side.
pub open spec fn in_order(s: Seq<Seq<char>>) -> bool {
    forall|i: int, j: int|
        0 <= i < j < s.len() ==> #[trigger] table::before(s[i], s[j]) || s[i] == s[j]
}

/// The keys in ascending order.
pub fn sort_keys(keys: Vec<String>) -> (r: Vec<String>)
    ensures
        in_order(text::list_view(r@)),
        r@.to_multiset() == keys@.to_multiset(),
{
    let mut out: Vec<String> = Vec::new();
    let mut i: usize = 0;
    proof {
        assert(keys@.take(0) =~= Seq::empty());
    }
    while i < keys.len()
        invariant
            i <= keys@.len(),
            in_order(text::list_view(out@)),
            out@.to_multiset() == keys@.take(i as int).to_multiset(),
        decreases keys@.len() - i,
    {
        let key = keys[i].clone();
        insert_key(&mut out, key);
        proof {
            assert(keys@.take(i + 1) =~= keys@.take(i as int).push(keys@[i as int]));
            vstd::seq_lib::to_multiset_build(keys@.take(i as int), keys@[i as int]);
        }
        i += 1;
    }
    proof {
        assert(keys@.take(keys@.len() as int) =~= keys@);
    }
    out
}

fn insert_key(out: &mut Vec<String>, key: String)
    requires
        in_order(text::list_view(old(out)@)),
    ensures
        in_order(text::list_view(final(out)@)),
        final(out)@.to_multiset() == old(out)@.to_multiset().insert(key),
{
    let ghost was = out@;
    let mut p: usize = 0;
    while p < out.len() && table::precedes(out[p].as_str(), key.as_str())
        invariant
            p <= out@.len(),
            out@ == was,
            forall|i: int| 0 <= i < p ==> table::before((#[trigger] was[i])@, key@),
        decreases out@.len() - p,
    {
        p += 1;
    }
    let ghost item = key;
    out.insert(p, key);
    proof {
        vstd::seq_lib::to_multiset_insert(was, p as int, item);
        let a = text::list_view(was);
        let b = text::list_view(out@);
        assert forall|i: int, j: int| 0 <= i < j < b.len() implies #[trigger] table::before(
            b[i],
            b[j],
        ) || b[i] == b[j] by {
            if p < was.len() {
                table::lemma_before_total(a[p as int], item@);
            }
            if j < p {
                assert(b[i] == a[i] && b[j] == a[j]);
                assert(table::before(a[i], a[j]) || a[i] == a[j]);
            } else if j == p {
                assert(b[i] == was[i]@);
            } else if i < p {
                assert(b[i] == a[i] && b[j] == a[j - 1]);
                assert(table::before(a[i], a[j - 1]) || a[i] == a[j - 1]);
            } else if i == p {
                assert(b[j] == a[j - 1]);
                if j - 1 > p {
                    assert(table::before(a[p as int], a[j - 1]) || a[p as int] == a[j - 1]);
                    if table::before(item@, a[p as int]) && table::before(
                        a[p as int],
                        a[j - 1],
                    ) {
                        table::lemma_before_transitive(item@, a[p as int], a[j - 1]);
                    }
                }
            } else {
                assert(b[i] == a[i - 1] && b[j] == a[j - 1]);
                assert(table::before(a[i - 1], a[j - 1]) || a[i - 1] == a[j - 1]);
            }
        }
    }
}

/// The key of the store that a key of the server stands for.
pub fn store_key(prefix: &str, key: &str) -> (r: String)
    ensures
        r@ == (match text::without_prefix(key@, prefix@) {
            Some(k) => k,
            None => key@,
        }),
{
    match text::strip_prefix(key, prefix) {
        Some(k) => k,
        None => key.to_owned(),
    }
}

/// A key of the store is found again from the key of the server.
pub proof fn law_store_key_round_trip(prefix: Seq<char>, key: Seq<char>)
    ensures
        text::without_prefix(prefix + key, prefix) == Some(key),
{
    assert((prefix + key).take(prefix.len() as int) =~= prefix);
    assert((prefix + key).skip(prefix.len() as int) =~= key);
}

/// Once the commands of a push are carried out, the list holds what the store in
/// memory holds: its newest `max` items, with the new one last. The other lists
/// are as they were.
pub proof fn law_push_keeps_newest(
    lists: Map<Seq<char>, Seq<Seq<u8>>>,
    key: Seq<char>,
    value: Seq<u8>,
    max: usize,
)
    requires
        items_of(lists, key).len() < i64::MAX,
    ensures
        ({
            let after = lists_after(
                lists_after(lists, ListCommand::Push { key, value }),
                keeping(key, max),
            );
            &&& items_of(after, key) == storage::newest(
                items_of(lists, key).push(value),
                max as nat,
            )
            &&& forall|other: Seq<char>|
                other != key ==> (#[trigger] after.dom().contains(other)
                    == lists.dom().contains(other)) && (lists.dom().contains(other)
                    ==> after[other] == lists[other])
        }),
{
    let full = items_of(lists, key).push(value);
    let pushed = lists_after(lists, ListCommand::Push { key, value });
    assert(items_of(pushed, key) == full);
    if max == 0 {
        assert(storage::newest(full, 0) =~= Seq::empty());
    } else {
        let start = keeping(key, max)->Trim_start;
        assert(between(full, start, -1) =~= storage::newest(full, max as nat));
    }
}

/// A drain reads the whole list, and leaves none; the other lists are as they
/// were.
pub proof fn law_drain_reads_and_clears(lists: Map<Seq<char>, Seq<Seq<u8>>>, key: Seq<char>)
    ensures
        between(items_of(lists, key), 0, -1) == items_of(lists, key),
        ({
            let read = lists_after(lists, ListCommand::Range { key, start: 0, stop: -1 });
            lists_after(read, ListCommand::Drop { key }) == lists.remove(key)
        }),
{
    assert(between(items_of(lists, key), 0, -1) =~= items_of(lists, key));
}

/// A command is an array of byte strings: how many there are, and each with its
/// length and a line end.
pub proof fn law_command_encoding(args: Seq<Seq<u8>>, a: Seq<u8>)
    ensures
        command_bytes(args) == vstd::utf8::encode_utf8(
            "*"@ + decimal::numeral(args.len()) + "\r\n"@,
        ) + argument_bytes(args),
        argument_bytes(Seq::empty()).len() == 0,
        argument_bytes(args.push(a)) == argument_bytes(args) + vstd::utf8::encode_utf8(
            "$"@ + decimal::numeral(a.len()) + "\r\n"@,
        ) + a + vstd::utf8::encode_utf8("\r\n"@),
{
    assert(args.push(a).drop_last() =~= args);
}

/// A line ends before a carriage return and a line feed.
pub proof fn law_reply_line(b: Seq<u8>, at: nat, p: nat)
    requires
        at <= p,
        p + 1 < b.len(),
        b[p as int] == 13,
        forall|j: int| at <= j < p ==> b[j] != 13,
    ensures
        p - at <= 65536 && b[p as int + 1] == 10 ==> line_at(b, at) == ProgressView::Done(
            b.subrange(at as int, p as int),
            p + 2,
        ),
        p - at > 65536 ==> line_at(b, at) is Bad,
        b[p as int + 1] != 10 ==> line_at(b, at) is Bad,
{
    lemma_return_at(b, at, p);
}

proof fn lemma_return_at(b: Seq<u8>, at: nat, p: nat)
    requires
        at <= p < b.len(),
        b[p as int] == 13,
        forall|j: int| at <= j < p ==> b[j] != 13,
    ensures
        return_at(b, at) == Some(p),
    decreases p - at,
{
    if at < p {
        lemma_return_at(b, at + 1, p);
    }
}

/// What a reply is, is told by the first character of its line: a status, an
/// error, a number, a byte string or an array; a negative length is none.
pub proof fn law_reply_kinds(b: Seq<u8>, at: nat, t: Seq<char>, line: Seq<u8>, end: nat)
    requires
        line_at(b, at) == ProgressView::Done(line, end),
        text::utf8_text(line) == Some(t),
        t.len() > 0,
    ensures
        t[0] == '+' ==> reply_at(b, at) == ProgressView::Done(RespView::Simple(t.skip(1)), end),
        t[0] == '-' ==> reply_at(b, at) == ProgressView::Done(RespView::Error(t.skip(1)), end),
        t[0] == ':' ==> (decimal::signed_value(t.skip(1)) matches Some(n) ==> reply_at(b, at)
            == ProgressView::Done(RespView::Int(n), end)),
        t[0] == '$' ==> (decimal::signed_value(t.skip(1)) matches Some(n) ==> (n < 0 ==> reply_at(
            b,
            at,
        ) == ProgressView::Done(RespView::Bulk(None), end))),
        t[0] == '$' ==> (decimal::signed_value(t.skip(1)) matches Some(n) ==> (n >= 0 && end + n + 2
            <= b.len() ==> reply_at(b, at) == ProgressView::Done(
            RespView::Bulk(Some(b.subrange(end as int, end + n))),
            (end + n + 2) as nat,
        ))),
        t[0] == '$' ==> (decimal::signed_value(t.skip(1)) matches Some(n) ==> (n >= 0 && end + n + 2
            > b.len() ==> reply_at(b, at) is More)),
        t[0] == '*' ==> (decimal::signed_value(t.skip(1)) matches Some(n) ==> (n < 0 ==> reply_at(
            b,
            at,
        ) == ProgressView::Done(RespView::Array(None), end))),
        t[0] != '+' && t[0] != '-' && t[0] != ':' && t[0] != '$' && t[0] != '*' ==> reply_at(
            b,
            at,
        ) is Bad,
{
}

/// An array is as many replies as it says, one after the other.
pub proof fn law_array_items(b: Seq<u8>, at: nat, n: nat)
    ensures
        items_at(b, at, 0) == ProgressView::Done(Seq::<RespView>::empty(), at),
        n > 0 ==> (reply_at(b, at) matches ProgressView::Done(first, end) ==> (at < end <= b.len()
            ==> (items_at(b, end, (n - 1) as nat) matches ProgressView::Done(more, stop)
            ==> items_at(b, at, n) == ProgressView::Done(seq![first] + more, stop)))),
        n > 0 && reply_at(b, at) is More ==> items_at(b, at, n) is More,
{
}

/// A list that was drained is the byte strings of the first reply of the
/// transaction.
pub proof fn law_drained(s: Seq<RespView>, b: Seq<u8>, other: RespView)
    ensures
        all_bulk(Seq::empty()) == Some(Seq::<Seq<u8>>::empty()),
        all_bulk(s) matches Some(v) ==> all_bulk(s.push(RespView::Bulk(Some(b)))) == Some(v.push(b)),
        !(other is Bulk) ==> all_bulk(s.push(other)) is None,
        all_bulk(s) matches Some(v) ==> drained(
            RespView::Array(Some(seq![RespView::Array(Some(s)), other])),
        ) == Ok::<Seq<Seq<u8>>, Seq<char>>(v),
        all_bulk(s) is None ==> drained(
            RespView::Array(Some(seq![RespView::Array(Some(s)), other])),
        ) is Err,
        drained(RespView::Array(Some(seq![RespView::Array(None), other]))) == Ok::<
            Seq<Seq<u8>>,
            Seq<char>,
        >(Seq::empty()),
        !(other is Array) ==> drained(other) is Err,
{
    assert(s.push(RespView::Bulk(Some(b))).drop_last() =~= s);
    assert(s.push(other).drop_last() =~= s);
}

/// A value is set under its key; only where there is none if that is asked for,
/// and for its milliseconds, one at least.
pub proof fn law_set_command(key: Seq<char>, value: Seq<u8>, ms: u64)
    ensures
        set_parts(key, value, None, false) == seq![ascii("SET"@), ascii(key), value],
        set_parts(key, value, None, true) == seq![ascii("SET"@), ascii(key), value, ascii("NX"@)],
        ms > 0 ==> set_parts(key, value, Some(ms), false) == seq![
            ascii("SET"@),
            ascii(key),
            value,
            ascii("PX"@),
            ascii(decimal::numeral(ms as nat)),
        ],
        ms > 0 ==> set_parts(key, value, Some(ms), true) == seq![
            ascii("SET"@),
            ascii(key),
            value,
            ascii("NX"@),
            ascii("PX"@),
            ascii(decimal::numeral(ms as nat)),
        ],
        set_parts(key, value, Some(0), true) == set_parts(key, value, Some(1), true),
{
    assert(set_parts(key, value, None, true) =~= seq![
        ascii("SET"@),
        ascii(key),
        value,
        ascii("NX"@),
    ]);
    if ms > 0 {
        assert(set_parts(key, value, Some(ms), false) =~= seq![
            ascii("SET"@),
            ascii(key),
            value,
            ascii("PX"@),
            ascii(decimal::numeral(ms as nat)),
        ]);
        assert(set_parts(key, value, Some(ms), true) =~= seq![
            ascii("SET"@),
            ascii(key),
            value,
            ascii("NX"@),
            ascii("PX"@),
            ascii(decimal::numeral(ms as nat)),
        ]);
    }
}

/// How the commands on lists are written.
pub proof fn law_list_commands(key: Seq<char>, value: Seq<u8>, start: int, stop: int)
    ensures
        list_parts(ListCommand::Push { key, value }) == seq![ascii("RPUSH"@), ascii(key), value],
        list_parts(ListCommand::Trim { key, start, stop }) == seq![
            ascii("LTRIM"@),
            ascii(key),
            ascii(decimal::signed_numeral(start)),
            ascii(decimal::signed_numeral(stop)),
        ],
        list_parts(ListCommand::Range { key, start, stop }) == seq![
            ascii("LRANGE"@),
            ascii(key),
            ascii(decimal::signed_numeral(start)),
            ascii(decimal::signed_numeral(stop)),
        ],
        list_parts(ListCommand::Drop { key }) == seq![ascii("DEL"@), ascii(key)],
        ascii(key) == vstd::utf8::encode_utf8(key),
{
}

/// A page of keys is where to go on and the texts among its items.
pub proof fn law_page_of_keys(s: Seq<RespView>, next: Seq<char>, key: Seq<char>, other: RespView)
    ensures
        key_texts(Seq::empty()) == Some(Seq::<Seq<char>>::empty()),
        key_texts(s) matches Some(keys) ==> key_texts(
            s.push(RespView::Bulk(Some(vstd::utf8::encode_utf8(key)))),
        ) == Some(keys.push(key)),
        !(other is Bulk) ==> key_texts(s.push(other)) == key_texts(s),
        key_texts(s) matches Some(keys) ==> page_of(
            RespView::Array(
                Some(
                    seq![
                        RespView::Bulk(Some(vstd::utf8::encode_utf8(next))),
                        RespView::Array(Some(s)),
                    ],
                ),
            ),
        ) == Ok::<(Seq<char>, Seq<Seq<char>>), Seq<char>>((next, keys)),
        !(other is Array) ==> page_of(other) is Err,
{
    text::law_utf8_text(next);
    text::law_utf8_text(key);
    assert(s.push(RespView::Bulk(Some(vstd::utf8::encode_utf8(key)))).drop_last() =~= s);
    assert(s.push(other).drop_last() =~= s);
}

} // verus!
