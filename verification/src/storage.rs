//! Storage: the in-memory store that the `memory` and `file` backends share,
//! and the wire format of Redis.
//!
//! The store keeps values with optional deadlines, and lists. Time is an
//! argument: milliseconds on a clock that only goes forward.

use vstd::prelude::*;

use crate::b64;
use crate::decimal;
use crate::table;
use crate::table::Table;
use crate::text;

verus! {

/// What the storage reports when it fails.
#[derive(Debug)]
pub struct StorageError(pub String);

impl StorageError {
    /// What the error says.
    pub fn message(&self) -> (r: String)
        ensures
            r@ == "storage error: "@ + self.0@,
    {
        text::join2("storage error: ", self.0.as_str())
    }
}

/// An error with the given text.
pub fn serr(e: &str) -> (r: StorageError)
    ensures
        r.0@ == e@,
{
    StorageError(e.to_owned())
}

/// A stored value, and when it expires.
pub struct Slot {
    pub value: Vec<u8>,
    pub deadline: Option<u64>,
}

/// What a slot holds.
pub struct SlotView {
    pub value: Seq<u8>,
    pub deadline: Option<u64>,
}

impl Slot {
    pub open spec fn view(&self) -> SlotView {
        SlotView { value: self.value@, deadline: self.deadline }
    }
}

/// What the store holds.
pub struct StoreView {
    pub kv: Map<Seq<char>, SlotView>,
    pub lists: Map<Seq<char>, Seq<Seq<u8>>>,
}

/// A slot that has not expired.
pub open spec fn fresh(s: SlotView, now: u64) -> bool {
    match s.deadline {
        Some(d) => d > now,
        None => true,
    }
}

impl StoreView {
    /// Whether a key has a value that has not expired.
    pub open spec fn alive(self, key: Seq<char>, now: u64) -> bool {
        self.kv.dom().contains(key) && fresh(self.kv[key], now)
    }

    /// The value of a key, where it has one that has not expired.
    pub open spec fn read(self, key: Seq<char>, now: u64) -> Option<Seq<u8>> {
        if self.alive(key, now) {
            Some(self.kv[key].value)
        } else {
            None
        }
    }

    /// The store with another value for a key.
    pub open spec fn written(self, key: Seq<char>, slot: SlotView) -> StoreView {
        StoreView { kv: self.kv.insert(key, slot), lists: self.lists }
    }

    /// The store without a key.
    pub open spec fn erased(self, key: Seq<char>) -> StoreView {
        StoreView { kv: self.kv.remove(key), lists: self.lists }
    }

    /// The store without a key that has expired.
    pub open spec fn swept(self, key: Seq<char>, now: u64) -> StoreView {
        if self.alive(key, now) {
            self
        } else {
            self.erased(key)
        }
    }

    /// The items of a list; a list that does not exist is empty.
    pub open spec fn list(self, key: Seq<char>) -> Seq<Seq<u8>> {
        if self.lists.dom().contains(key) {
            self.lists[key]
        } else {
            Seq::empty()
        }
    }
}

/// When something that is stored now for `ttl` expires.
pub open spec fn deadline_of(now: u64, ttl: Option<u64>) -> Option<u64> {
    match ttl {
        Some(t) => Some(
            if now + t <= u64::MAX {
                (now + t) as u64
            } else {
                u64::MAX
            },
        ),
        None => None,
    }
}

/// The newest `max` items.
pub open spec fn newest(s: Seq<Seq<u8>>, max: nat) -> Seq<Seq<u8>> {
    if s.len() > max {
        s.skip(s.len() - max)
    } else {
        s
    }
}

/// The count that a value holds: 0 unless it is a number.
pub open spec fn counted(v: Option<Seq<u8>>) -> i64 {
    match v {
        Some(b) => match text::utf8_text(b) {
            Some(s) => match decimal::signed_value(s) {
                Some(n) => n,
                None => 0,
            },
            None => 0,
        },
        None => 0,
    }
}

/// The in-memory store.
pub struct MemInner {
    kv: Table<Slot>,
    lists: Table<Vec<Vec<u8>>>,
}

/// A byte string of the same bytes.
pub fn copy_bytes(b: &[u8]) -> (r: Vec<u8>)
    ensures
        r@ == b@,
{
    let out = vstd::slice::slice_to_vec(b);
    proof {
        assert(out@ =~= b@);
    }
    out
}

impl MemInner {
    /// What the store holds.
    pub closed spec fn view(&self) -> StoreView {
        StoreView {
            kv: self.kv@.map_values(|s: Slot| s@),
            lists: self.lists@.map_values(|l: Vec<Vec<u8>>| text::bytes_view(l@)),
        }
    }

    /// An empty store.
    pub fn new() -> (r: MemInner)
        ensures
            r@.kv == Map::<Seq<char>, SlotView>::empty(),
            r@.lists == Map::<Seq<char>, Seq<Seq<u8>>>::empty(),
    {
        let r = MemInner { kv: Table::new(), lists: Table::new() };
        proof {
            assert(r@.kv =~= Map::<Seq<char>, SlotView>::empty());
            assert(r@.lists =~= Map::<Seq<char>, Seq<Seq<u8>>>::empty());
        }
        r
    }

    /// Whether a key has a value that has not expired.
    pub fn alive(&self, key: &str, now: u64) -> (r: bool)
        ensures
            r == self@.alive(key@, now),
    {
        match self.kv.get(key) {
            Some(s) => match s.deadline {
                Some(d) => d > now,
                None => true,
            },
            None => false,
        }
    }

    /// The value of a key. One that has expired is dropped.
    pub fn get(&mut self, key: &str, now: u64) -> (r: Option<Vec<u8>>)
        ensures
            opt_bytes(r) == old(self)@.read(key@, now),
            final(self)@ == old(self)@.swept(key@, now),
    {
        if !self.alive(key, now) {
            let _ = self.delete(key);
            return None;
        }
        match self.kv.get(key) {
            Some(s) => Some(copy_bytes(s.value.as_slice())),
            None => None,
        }
    }

    /// Sets the value of a key, for a time or for good.
    pub fn put(&mut self, key: &str, value: &[u8], ttl: Option<u64>, now: u64)
        ensures
            final(self)@ == old(self)@.written(
                key@,
                (SlotView { value: value@, deadline: deadline_of(now, ttl) }),
            ),
    {
        let deadline = match ttl {
            Some(t) => Some(now.saturating_add(t)),
            None => None,
        };
        let slot = Slot { value: copy_bytes(value), deadline };
        let ghost before = self@;
        self.kv.insert(key, slot);
        proof {
            assert(self@.kv =~= before.kv.insert(
                key@,
                SlotView { value: value@, deadline: deadline_of(now, ttl) },
            ));
        }
    }

    /// Sets the value of a key that has none. Says whether it did.
    pub fn put_if_absent(&mut self, key: &str, value: &[u8], ttl: Option<u64>, now: u64) -> (r:
        bool)
        ensures
            r == !old(self)@.alive(key@, now),
            final(self)@ == (if r {
                old(self)@.written(
                    key@,
                    SlotView { value: value@, deadline: deadline_of(now, ttl) },
                )
            } else {
                old(self)@
            }),
    {
        if self.alive(key, now) {
            return false;
        }
        self.put(key, value, ttl, now);
        true
    }

    /// Drops a key. Says whether it had a value, expired or not.
    pub fn delete(&mut self, key: &str) -> (r: bool)
        ensures
            r == old(self)@.kv.dom().contains(key@),
            final(self)@ == old(self)@.erased(key@),
    {
        let ghost before = self@;
        let out = self.kv.remove(key).is_some();
        proof {
            assert(self@.kv =~= before.kv.remove(key@));
        }
        out
    }

    /// Reads and drops the value of a key.
    pub fn take(&mut self, key: &str, now: u64) -> (r: Option<Vec<u8>>)
        ensures
            opt_bytes(r) == old(self)@.read(key@, now),
            final(self)@ == old(self)@.erased(key@),
    {
        let ghost before = self@;
        if !self.alive(key, now) {
            let _ = self.delete(key);
            return None;
        }
        match self.kv.remove(key) {
            Some(s) => {
                proof {
                    assert(self@.kv =~= before.kv.remove(key@));
                }
                Some(s.value)
            },
            None => None,
        }
    }

    /// Adds one to the count under a key; a key without a count starts at 0.
    pub fn incr(&mut self, key: &str, now: u64) -> (r: i64)
        requires
            counted(old(self)@.read(key@, now)) < i64::MAX,
        ensures
            r == counted(old(self)@.read(key@, now)) + 1,
            final(self)@ == old(self)@.written(
                key@,
                (SlotView {
                    value: vstd::utf8::encode_utf8(decimal::signed_numeral(r as int)),
                    deadline: None,
                }),
            ),
    {
        let ghost before = self@;
        let current: i64 = match self.get(key, now) {
            Some(v) => match text::from_utf8(v.as_slice()) {
                Some(s) => match decimal::parse_signed(s.as_str()) {
                    Some(n) => n,
                    None => 0,
                },
                None => 0,
            },
            None => 0,
        };
        let next: i64 = current + 1;
        let numeral = decimal::signed(next);
        self.put(key, numeral.as_str().as_bytes(), None, now);
        proof {
            assert(before.swept(key@, now).kv.insert(
                key@,
                SlotView {
                    value: vstd::utf8::encode_utf8(decimal::signed_numeral(next as int)),
                    deadline: None,
                },
            ) =~= before.kv.insert(
                key@,
                SlotView {
                    value: vstd::utf8::encode_utf8(decimal::signed_numeral(next as int)),
                    deadline: None,
                },
            ));
        }
        next
    }

    /// Appends to a list, and keeps its newest `max` items.
    pub fn list_push(&mut self, key: &str, value: &[u8], max: usize)
        ensures
            final(self)@.kv == old(self)@.kv,
            final(self)@.lists == old(self)@.lists.insert(
                key@,
                newest(old(self)@.list(key@).push(value@), max as nat),
            ),
            old(self)@.list(key@).len() < usize::MAX,
    {
        let ghost before = self@;
        let mut items: Vec<Vec<u8>> = match self.lists.remove(key) {
            Some(l) => l,
            None => Vec::new(),
        };
        proof {
            assert(text::bytes_view(items@) =~= before.list(key@));
        }
        items.push(copy_bytes(value));
        let ghost full = text::bytes_view(items@);
        proof {
            assert(full =~= before.list(key@).push(value@));
        }
        if items.len() > max {
            let excess: usize = items.len() - max;
            let kept = items.split_off(excess);
            items = kept;
            proof {
                assert(text::bytes_view(items@) =~= full.skip(excess as int));
            }
        }
        self.lists.insert(key, items);
        proof {
            assert(self@.lists =~= before.lists.insert(key@, newest(full, max as nat)));
            assert(self@.kv =~= before.kv);
        }
    }

    /// Reads and clears a list.
    pub fn list_drain(&mut self, key: &str) -> (r: Vec<Vec<u8>>)
        ensures
            text::bytes_view(r@) == old(self)@.list(key@),
            final(self)@.kv == old(self)@.kv,
            final(self)@.lists == old(self)@.lists.remove(key@),
    {
        let ghost before = self@;
        let out = match self.lists.remove(key) {
            Some(l) => l,
            None => Vec::new(),
        };
        proof {
            assert(text::bytes_view(out@) =~= before.list(key@));
            assert(self@.lists =~= before.lists.remove(key@));
            assert(self@.kv =~= before.kv);
        }
        out
    }
}

/// A record that was looked up: the bytes that are stored, and what the parser of
/// stored records says against them, which is told where they do not read.
pub struct Found {
    pub bytes: Vec<u8>,
    pub fault: String,
}

/// What a [`Found`] holds.
pub struct FoundView {
    pub bytes: Seq<u8>,
    pub fault: Seq<char>,
}

impl Found {
    /// What was found.
    pub open spec fn view(&self) -> FoundView {
        FoundView { bytes: self.bytes@, fault: self.fault@ }
    }
}

/// The view of a record that may be there.
pub open spec fn opt_found(o: Option<Found>) -> Option<FoundView> {
    match o {
        Some(f) => Some(f@),
        None => None,
    }
}

/// The view of optional bytes.
pub open spec fn opt_bytes(o: Option<Vec<u8>>) -> Option<Seq<u8>> {
    match o {
        Some(b) => Some(b@),
        None => None,
    }
}

/// A value to store under a key, for a time in milliseconds or for good.
pub struct Write {
    pub key: String,
    pub value: Vec<u8>,
    pub ttl: Option<u64>,
}

/// What a [`Write`] holds.
pub struct WriteView {
    pub key: Seq<char>,
    pub value: Seq<u8>,
    pub ttl: Option<u64>,
}

impl Write {
    /// What is written.
    pub open spec fn view(&self) -> WriteView {
        WriteView { key: self.key@, value: self.value@, ttl: self.ttl }
    }

    /// The same value under the same key.
    pub fn copy(&self) -> (r: Write)
        ensures
            r@ == self@,
    {
        Write { key: self.key.clone(), value: copy_bytes(self.value.as_slice()), ttl: self.ttl }
    }
}

/// Seconds as milliseconds, as far as they can be counted.
pub open spec fn millis_of(secs: u64) -> u64 {
    if secs * 1000 <= u64::MAX {
        (secs * 1000) as u64
    } else {
        u64::MAX
    }
}

/// Seconds as milliseconds, as far as they can be counted.
pub fn millis(secs: u64) -> (r: u64)
    ensures
        r == millis_of(secs),
{
    match secs.checked_mul(1000) {
        Some(n) => n,
        None => u64::MAX,
    }
}

/// The bytes of a text.
pub fn bytes_of(s: &str) -> (r: Vec<u8>)
    ensures
        r@ == vstd::utf8::encode_utf8(s@),
{
    copy_bytes(s.as_bytes())
}

// ------------------------------------------------------------- listings

/// Keys in strictly ascending order.
pub open spec fn ascending(s: Seq<(String, Vec<u8>)>) -> bool {
    forall|i: int, j: int| 0 <= i < j < s.len() ==> table::before(s[i].0@, s[j].0@)
}

fn insert_in_order(out: &mut Vec<(String, Vec<u8>)>, key: String, value: Vec<u8>)
    requires
        ascending(old(out)@),
        forall|i: int| 0 <= i < old(out)@.len() ==> (#[trigger] old(out)@[i]).0@ != key@,
    ensures
        ascending(final(out)@),
        exists|p: int|
            0 <= p <= old(out)@.len() && final(out)@ == #[trigger] old(out)@.insert(
                p,
                (key, value),
            ),
{
    let ghost was = out@;
    let mut p: usize = 0;
    while p < out.len() && table::precedes(out[p].0.as_str(), key.as_str())
        invariant
            p <= out@.len(),
            out@ == was,
            forall|i: int| 0 <= i < p ==> table::before((#[trigger] was[i]).0@, key@),
        decreases out@.len() - p,
    {
        p += 1;
    }
    let ghost item = (key, value);
    out.insert(p, (key, value));
    proof {
        assert(out@ == was.insert(p as int, item));
        assert forall|i: int, j: int| 0 <= i < j < out@.len() implies table::before(
            out@[i].0@,
            out@[j].0@,
        ) by {
            if p < was.len() {
                table::lemma_before_total(was[p as int].0@, item.0@);
            }
            if j < p {
                assert(out@[i] == was[i] && out@[j] == was[j]);
            } else if j == p {
                assert(out@[i] == was[i]);
                assert(table::before(was[i].0@, item.0@));
            } else if i < p {
                assert(out@[i] == was[i] && out@[j] == was[j - 1]);
            } else if i == p {
                assert(out@[j] == was[j - 1]);
                if j - 1 > p {
                    assert(table::before(was[p as int].0@, was[j - 1].0@));
                    table::lemma_before_transitive(
                        item.0@,
                        was[p as int].0@,
                        was[j - 1].0@,
                    );
                }
            } else {
                assert(out@[i] == was[i - 1] && out@[j] == was[j - 1]);
            }
        }
    }
}

impl MemInner {
    /// The keys that begin with `prefix` and have not expired, with their
    /// values, in order.
    pub fn scan_prefix(&self, prefix: &str, now: u64) -> (r: Vec<(String, Vec<u8>)>)
        ensures
            ascending(r@),
            forall|i: int|
                0 <= i < r@.len() ==> prefix@.is_prefix_of((#[trigger] r@[i]).0@) && self@.read(
                    r@[i].0@,
                    now,
                ) == Some(r@[i].1@),
            forall|k: Seq<char>|
                prefix@.is_prefix_of(k) && #[trigger] self@.alive(k, now) ==> exists|i: int|
                    0 <= i < r@.len() && (#[trigger] r@[i]).0@ == k,
    {
        self.kv.expose();
        let ghost pairs = self.kv.pairs();
        proof {
            table::lemma_pairs(pairs);
        }
        let mut out: Vec<(String, Vec<u8>)> = Vec::new();
        let mut n: usize = 0;
        while n < self.kv.len()
            invariant
                n <= pairs.len(),
                pairs == self.kv.pairs(),
                table::distinct_keys(pairs),
                self.kv@ == table::pairs_map(pairs),
                forall|i: int|
                    0 <= i < pairs.len() ==> self.kv@.dom().contains((#[trigger] pairs[i]).0@)
                        && self.kv@[pairs[i].0@] == pairs[i].1,
                ascending(out@),
                forall|i: int|
                    0 <= i < out@.len() ==> prefix@.is_prefix_of((#[trigger] out@[i]).0@)
                        && self@.read(out@[i].0@, now) == Some(out@[i].1@),
                forall|i: int|
                    0 <= i < out@.len() ==> exists|m: int|
                        0 <= m < n && (#[trigger] pairs[m]).0@ == (#[trigger] out@[i]).0@,
                forall|m: int|
                    0 <= m < n && prefix@.is_prefix_of((#[trigger] pairs[m]).0@) && fresh(
                        pairs[m].1@,
                        now,
                    ) ==> exists|i: int| 0 <= i < out@.len() && (#[trigger] out@[i]).0@
                        == pairs[m].0@,
            decreases pairs.len() - n,
        {
            let (key, slot) = self.kv.at(n);
            let live = match slot.deadline {
                Some(d) => d > now,
                None => true,
            };
            if live && text::starts_with(key.as_str(), prefix) {
                let ghost was = out@;
                proof {
                    assert forall|i: int| 0 <= i < was.len() implies (#[trigger] was[i]).0@
                        != key@ by {
                        let m = choose|m: int| 0 <= m < n && (#[trigger] pairs[m]).0@ == was[i].0@;
                        assert(pairs[m].0@ != pairs[n as int].0@);
                    }
                }
                let copy = key.clone();
                let value = copy_bytes(slot.value.as_slice());
                let ghost item = (copy, value);
                insert_in_order(&mut out, copy, value);
                proof {
                    let p = choose|p: int|
                        0 <= p <= was.len() && out@ == #[trigger] was.insert(p, item);
                    assert(self@.read(key@, now) == Some(item.1@));
                    assert forall|i: int| 0 <= i < out@.len() implies prefix@.is_prefix_of(
                        (#[trigger] out@[i]).0@,
                    ) && self@.read(out@[i].0@, now) == Some(out@[i].1@) && (exists|m: int|
                        0 <= m < n + 1 && (#[trigger] pairs[m]).0@ == out@[i].0@) by {
                        if i < p {
                            assert(out@[i] == was[i]);
                            let m = choose|m: int|
                                0 <= m < n && (#[trigger] pairs[m]).0@ == was[i].0@;
                            assert(pairs[m].0@ == out@[i].0@);
                        } else if i == p {
                            assert(out@[i] == item);
                            assert(pairs[n as int].0@ == out@[i].0@);
                        } else {
                            assert(out@[i] == was[i - 1]);
                            let m = choose|m: int|
                                0 <= m < n && (#[trigger] pairs[m]).0@ == was[i - 1].0@;
                            assert(pairs[m].0@ == out@[i].0@);
                        }
                    }
                    assert forall|m: int|
                        0 <= m < n + 1 && prefix@.is_prefix_of((#[trigger] pairs[m]).0@) && fresh(
                            pairs[m].1@,
                            now,
                        ) implies exists|i: int|
                        0 <= i < out@.len() && (#[trigger] out@[i]).0@ == pairs[m].0@ by {
                        if m == n {
                            assert(out@[p] == item);
                        } else {
                            let i = choose|i: int|
                                0 <= i < was.len() && (#[trigger] was[i]).0@ == pairs[m].0@;
                            if i < p {
                                assert(out@[i] == was[i]);
                            } else {
                                assert(out@[i + 1] == was[i]);
                            }
                        }
                    }
                }
            }
            n += 1;
        }
        proof {
            assert forall|k: Seq<char>|
                prefix@.is_prefix_of(k) && #[trigger] self@.alive(k, now) implies exists|i: int|
                0 <= i < out@.len() && (#[trigger] out@[i]).0@ == k by {
                assert(self.kv@.dom().contains(k));
                let m = choose|m: int| 0 <= m < pairs.len() && (#[trigger] pairs[m]).0@ == k;
                assert(fresh(pairs[m].1@, now));
            }
        }
        out
    }
}

// ------------------------------------------------------------ snapshots

/// The state of a store as it is written to a file: values in base64url,
/// deadlines in Unix seconds.
pub struct Snapshot {
    pub kv: Vec<(String, String, Option<u64>)>,
    pub lists: Vec<(String, Vec<String>)>,
}

/// What a snapshot says of one key.
pub struct SavedView {
    pub value: Seq<char>,
    pub deadline: Option<u64>,
}

/// The keys of a store that have not expired.
pub open spec fn fresh_part(m: Map<Seq<char>, SlotView>, now: u64) -> Map<Seq<char>, SlotView> {
    m.restrict(Set::new(|k: Seq<char>| m.dom().contains(k) && fresh(m[k], now)))
}

/// The Unix time, in whole seconds, at which a slot expires.
pub open spec fn unix_deadline(s: SlotView, now: u64, now_unix: u64) -> Option<u64> {
    match s.deadline {
        Some(d) => {
            let left = if d > now {
                (d - now) / 1000
            } else {
                0
            };
            Some(
                if now_unix + left <= u64::MAX {
                    (now_unix + left) as u64
                } else {
                    u64::MAX
                },
            )
        },
        None => None,
    }
}

/// What is saved of a slot.
pub open spec fn saved(s: SlotView, now: u64, now_unix: u64) -> SavedView {
    SavedView { value: b64::encoded(s.value), deadline: unix_deadline(s, now, now_unix) }
}

/// What the saved keys amount to; of two of one name the later stands.
pub open spec fn saved_map(s: Seq<(String, String, Option<u64>)>) -> Map<Seq<char>, SavedView>
    decreases s.len(),
{
    if s.len() == 0 {
        Map::empty()
    } else {
        saved_map(s.drop_last()).insert(
            s.last().0@,
            SavedView { value: s.last().1@, deadline: s.last().2 },
        )
    }
}

/// What the saved lists amount to; of two of one name the later stands.
pub open spec fn saved_lists(s: Seq<(String, Vec<String>)>) -> Map<Seq<char>, Seq<Seq<char>>>
    decreases s.len(),
{
    if s.len() == 0 {
        Map::empty()
    } else {
        saved_lists(s.drop_last()).insert(s.last().0@, text::list_view(s.last().1@))
    }
}

/// No key is saved twice.
pub open spec fn distinct_saved(s: Seq<(String, String, Option<u64>)>) -> bool {
    forall|i: int, j: int| 0 <= i < j < s.len() ==> s[i].0@ != s[j].0@
}

/// No list is saved twice.
pub open spec fn distinct_lists(s: Seq<(String, Vec<String>)>) -> bool {
    forall|i: int, j: int| 0 <= i < j < s.len() ==> s[i].0@ != s[j].0@
}

/// The base64url texts of byte strings.
pub open spec fn encoded_items(s: Seq<Seq<u8>>) -> Seq<Seq<char>> {
    s.map_values(|b: Seq<u8>| b64::encoded(b))
}

impl MemInner {
    /// Drops every key that has expired.
    pub fn sweep(&mut self, now: u64)
        ensures
            final(self)@.kv == fresh_part(old(self)@.kv, now),
            final(self)@.lists == old(self)@.lists,
    {
        let ghost was = self.kv@;
        let mut rest: Table<Slot> = Table::new();
        std::mem::swap(&mut rest, &mut self.kv);
        let ghost lists = self.lists;
        loop
            invariant
                self.lists == lists,
                forall|k: Seq<char>| #[trigger]
                    rest@.dom().contains(k) ==> was.dom().contains(k) && rest@[k] == was[k],
                forall|k: Seq<char>| #[trigger]
                    self.kv@.dom().contains(k) ==> was.dom().contains(k) && self.kv@[k] == was[k]
                        && fresh(was[k]@, now),
                forall|k: Seq<char>| #[trigger]
                    was.dom().contains(k) && fresh(was[k]@, now) ==> rest@.dom().contains(k)
                        || self.kv@.dom().contains(k),
            ensures
                self.lists == lists,
                forall|k: Seq<char>| #[trigger]
                    self.kv@.dom().contains(k) ==> was.dom().contains(k) && self.kv@[k] == was[k]
                        && fresh(was[k]@, now),
                forall|k: Seq<char>| #[trigger]
                    was.dom().contains(k) && fresh(was[k]@, now) ==> self.kv@.dom().contains(k),
            decreases rest.pairs().len(),
        {
            match rest.pop() {
                Some((k, slot)) => {
                    let live = match slot.deadline {
                        Some(d) => d > now,
                        None => true,
                    };
                    if live {
                        self.kv.insert(k.as_str(), slot);
                    }
                },
                None => {
                    break;
                },
            }
        }
        proof {
            assert(self@.kv =~= fresh_part(old(self)@.kv, now));
            assert(self@.lists =~= old(self)@.lists);
        }
    }

    /// The state of the store for a file; keys that have expired are dropped.
    pub fn snapshot(&mut self, now: u64, now_unix: u64) -> (r: Snapshot)
        ensures
            final(self)@.kv == fresh_part(old(self)@.kv, now),
            final(self)@.lists == old(self)@.lists,
            distinct_saved(r.kv@),
            saved_map(r.kv@) == final(self)@.kv.map_values(
                |s: SlotView| saved(s, now, now_unix),
            ),
            distinct_lists(r.lists@),
            saved_lists(r.lists@) == final(self)@.lists.map_values(
                |l: Seq<Seq<u8>>| encoded_items(l),
            ),
    {
        self.sweep(now);
        self.kv.expose();
        self.lists.expose();
        let mut kv: Vec<(String, String, Option<u64>)> = Vec::new();
        let ghost pairs = self.kv.pairs();
        let mut n: usize = 0;
        while n < self.kv.len()
            invariant
                n <= pairs.len(),
                pairs == self.kv.pairs(),
                table::distinct_keys(pairs),
                kv@.len() == n,
                forall|i: int| 0 <= i < n ==> (#[trigger] kv@[i]).0@ == pairs[i].0@,
                saved_map(kv@) == table::pairs_map(pairs.take(n as int)).map_values(
                    |s: Slot| saved(s@, now, now_unix),
                ),
            decreases pairs.len() - n,
        {
            let (key, slot) = self.kv.at(n);
            let deadline = match slot.deadline {
                Some(d) => {
                    let left: u64 = if d > now {
                        (d - now) / 1000
                    } else {
                        0
                    };
                    Some(now_unix.saturating_add(left))
                },
                None => None,
            };
            let ghost was = kv@;
            kv.push((key.clone(), b64::encode(slot.value.as_slice()), deadline));
            proof {
                assert(kv@.drop_last() =~= was);
                assert(pairs.take(n + 1).drop_last() =~= pairs.take(n as int));
                assert(pairs.take(n + 1).last() == pairs[n as int]);
                assert(saved_map(kv@) =~= table::pairs_map(pairs.take(n + 1)).map_values(
                    |s: Slot| saved(s@, now, now_unix),
                ));
            }
            n += 1;
        }
        proof {
            assert(pairs.take(pairs.len() as int) =~= pairs);
            assert(saved_map(kv@) =~= self@.kv.map_values(
                |s: SlotView| saved(s, now, now_unix),
            ));
            assert forall|i: int, j: int| 0 <= i < j < kv@.len() implies kv@[i].0@
                != kv@[j].0@ by {
                assert(pairs[i].0@ != pairs[j].0@);
            }
        }
        let mut lists: Vec<(String, Vec<String>)> = Vec::new();
        let ghost rows = self.lists.pairs();
        let mut m: usize = 0;
        while m < self.lists.len()
            invariant
                m <= rows.len(),
                rows == self.lists.pairs(),
                table::distinct_keys(rows),
                lists@.len() == m,
                forall|i: int| 0 <= i < m ==> (#[trigger] lists@[i]).0@ == rows[i].0@,
                saved_lists(lists@) == table::pairs_map(rows.take(m as int)).map_values(
                    |l: Vec<Vec<u8>>| encoded_items(text::bytes_view(l@)),
                ),
            decreases rows.len() - m,
        {
            let (key, items) = self.lists.at(m);
            let coded = encode_items(items);
            let ghost was = lists@;
            lists.push((key.clone(), coded));
            proof {
                assert(lists@.drop_last() =~= was);
                assert(rows.take(m + 1).drop_last() =~= rows.take(m as int));
                assert(rows.take(m + 1).last() == rows[m as int]);
                assert(saved_lists(lists@) =~= table::pairs_map(rows.take(m + 1)).map_values(
                    |l: Vec<Vec<u8>>| encoded_items(text::bytes_view(l@)),
                ));
            }
            m += 1;
        }
        proof {
            assert(rows.take(rows.len() as int) =~= rows);
            assert(saved_lists(lists@) =~= self@.lists.map_values(
                |l: Seq<Seq<u8>>| encoded_items(l),
            ));
            assert forall|i: int, j: int| 0 <= i < j < lists@.len() implies lists@[i].0@
                != lists@[j].0@ by {
                assert(rows[i].0@ != rows[j].0@);
            }
        }
        Snapshot { kv, lists }
    }
}

fn encode_items(items: &Vec<Vec<u8>>) -> (r: Vec<String>)
    ensures
        text::list_view(r@) == encoded_items(text::bytes_view(items@)),
{
    let mut out: Vec<String> = Vec::new();
    let mut i: usize = 0;
    while i < items.len()
        invariant
            i <= items@.len(),
            out@.len() == i,
            forall|j: int| 0 <= j < i ==> (#[trigger] out@[j])@ == b64::encoded(items@[j]@),
        decreases items@.len() - i,
    {
        out.push(b64::encode(items[i].as_slice()));
        i += 1;
    }
    proof {
        assert(text::list_view(out@) =~= encoded_items(text::bytes_view(items@)));
    }
    out
}

/// How long, in milliseconds, a saved key still lives; nothing where its time
/// is over.
pub open spec fn time_left(deadline: Option<u64>, now_unix: u64) -> Option<Option<u64>> {
    match deadline {
        Some(d) => if d <= now_unix {
            None
        } else if (d - now_unix) * 1000 <= u64::MAX {
            Some(Some(((d - now_unix) * 1000) as u64))
        } else {
            Some(Some(u64::MAX))
        },
        None => Some(None),
    }
}

/// The keys that a snapshot brings back; nothing where a value that is still
/// wanted does not decode.
pub open spec fn restored_kv(
    s: Seq<(String, String, Option<u64>)>,
    now: u64,
    now_unix: u64,
) -> Option<Map<Seq<char>, SlotView>>
    decreases s.len(),
{
    if s.len() == 0 {
        Some(Map::empty())
    } else {
        match (restored_kv(s.drop_last(), now, now_unix), time_left(s.last().2, now_unix)) {
            (None, _) => None,
            (Some(m), None) => Some(m),
            (Some(m), Some(ttl)) => match b64::decoded(s.last().1@) {
                Some(b) => Some(
                    m.insert(s.last().0@, SlotView { value: b, deadline: deadline_of(now, ttl) }),
                ),
                None => None,
            },
        }
    }
}

/// What a list of base64url texts decodes to; nothing where one does not decode.
pub open spec fn decoded_items(s: Seq<Seq<char>>) -> Option<Seq<Seq<u8>>>
    decreases s.len(),
{
    if s.len() == 0 {
        Some(Seq::empty())
    } else {
        match (decoded_items(s.drop_last()), b64::decoded(s.last())) {
            (Some(items), Some(b)) => Some(items.push(b)),
            _ => None,
        }
    }
}

/// `m` with items appended to one list; a list that stays empty does not exist.
pub open spec fn extended(
    m: Map<Seq<char>, Seq<Seq<u8>>>,
    key: Seq<char>,
    items: Seq<Seq<u8>>,
) -> Map<Seq<char>, Seq<Seq<u8>>> {
    if items.len() == 0 {
        m
    } else if m.dom().contains(key) {
        m.insert(key, m[key] + items)
    } else {
        m.insert(key, items)
    }
}

/// The lists that a snapshot brings back; nothing where an item does not decode.
pub open spec fn restored_lists(s: Seq<(String, Vec<String>)>) -> Option<
    Map<Seq<char>, Seq<Seq<u8>>>,
>
    decreases s.len(),
{
    if s.len() == 0 {
        Some(Map::empty())
    } else {
        match (restored_lists(s.drop_last()), decoded_items(text::list_view(s.last().1@))) {
            (Some(m), Some(items)) => Some(extended(m, s.last().0@, items)),
            _ => None,
        }
    }
}

proof fn lemma_restored_kv_prefix(
    s: Seq<(String, String, Option<u64>)>,
    n: int,
    now: u64,
    now_unix: u64,
)
    requires
        0 <= n <= s.len(),
        restored_kv(s.take(n), now, now_unix) is None,
    ensures
        restored_kv(s, now, now_unix) is None,
    decreases s.len() - n,
{
    if n < s.len() {
        assert(s.take(n + 1).drop_last() =~= s.take(n));
        lemma_restored_kv_prefix(s, n + 1, now, now_unix);
    } else {
        assert(s.take(n) =~= s);
    }
}

proof fn lemma_restored_lists_prefix(s: Seq<(String, Vec<String>)>, n: int)
    requires
        0 <= n <= s.len(),
        restored_lists(s.take(n)) is None,
    ensures
        restored_lists(s) is None,
    decreases s.len() - n,
{
    if n < s.len() {
        assert(s.take(n + 1).drop_last() =~= s.take(n));
        lemma_restored_lists_prefix(s, n + 1);
    } else {
        assert(s.take(n) =~= s);
    }
}

proof fn lemma_decoded_items_prefix(s: Seq<Seq<char>>, n: int)
    requires
        0 <= n <= s.len(),
        decoded_items(s.take(n)) is None,
    ensures
        decoded_items(s) is None,
    decreases s.len() - n,
{
    if n < s.len() {
        assert(s.take(n + 1).drop_last() =~= s.take(n));
        lemma_decoded_items_prefix(s, n + 1);
    } else {
        assert(s.take(n) =~= s);
    }
}

fn decode_items(items: &Vec<String>) -> (r: Option<Vec<Vec<u8>>>)
    ensures
        match r {
            Some(v) => decoded_items(text::list_view(items@)) == Some(text::bytes_view(v@)),
            None => decoded_items(text::list_view(items@)) is None,
        },
{
    let ghost all = text::list_view(items@);
    let mut out: Vec<Vec<u8>> = Vec::new();
    let mut i: usize = 0;
    proof {
        assert(all.take(0) =~= Seq::empty());
        assert(text::bytes_view(out@) =~= Seq::empty());
    }
    while i < items.len()
        invariant
            i <= items@.len(),
            all == text::list_view(items@),
            decoded_items(all.take(i as int)) == Some(text::bytes_view(out@)),
        decreases items@.len() - i,
    {
        proof {
            assert(all.take(i + 1).drop_last() =~= all.take(i as int));
            assert(all.take(i + 1).last() == items@[i as int]@);
        }
        match b64::decode(items[i].as_str()) {
            Some(b) => {
                let ghost was = out@;
                out.push(b);
                proof {
                    assert(text::bytes_view(out@) =~= text::bytes_view(was).push(b@));
                }
            },
            None => {
                proof {
                    lemma_decoded_items_prefix(all, i + 1);
                }
                return None;
            },
        }
        i += 1;
    }
    proof {
        assert(all.take(all.len() as int) =~= all);
    }
    Some(out)
}

impl MemInner {
    /// The store that a snapshot describes, without what has expired since.
    pub fn restore(snap: Snapshot, now: u64, now_unix: u64) -> (r: Result<MemInner, StorageError>)
        ensures
            match r {
                Ok(m) => restored_kv(snap.kv@, now, now_unix) == Some(m@.kv) && restored_lists(
                    snap.lists@,
                ) == Some(m@.lists),
                Err(e) => (restored_kv(snap.kv@, now, now_unix) is None || restored_lists(
                    snap.lists@,
                ) is None) && e.0@ == "invalid base64url"@,
            },
    {
        let mut store = MemInner::new();
        let ghost kv = snap.kv@;
        let mut n: usize = 0;
        proof {
            assert(kv.take(0) =~= Seq::empty());
        }
        while n < snap.kv.len()
            invariant
                n <= kv.len(),
                kv == snap.kv@,
                restored_kv(kv.take(n as int), now, now_unix) == Some(store@.kv),
                store@.lists == Map::<Seq<char>, Seq<Seq<u8>>>::empty(),
            decreases kv.len() - n,
        {
            proof {
                assert(kv.take(n + 1).drop_last() =~= kv.take(n as int));
                assert(kv.take(n + 1).last() == kv[n as int]);
            }
            let entry = &snap.kv[n];
            let left: Option<Option<u64>> = match entry.2 {
                Some(d) => if d <= now_unix {
                    None
                } else {
                    match (d - now_unix).checked_mul(1000) {
                        Some(ms) => Some(Some(ms)),
                        None => Some(Some(u64::MAX)),
                    }
                },
                None => Some(None),
            };
            if let Some(ttl) = left {
                match b64::decode(entry.1.as_str()) {
                    Some(value) => {
                        store.put(entry.0.as_str(), value.as_slice(), ttl, now);
                    },
                    None => {
                        proof {
                            lemma_restored_kv_prefix(kv, n + 1, now, now_unix);
                        }
                        return Err(serr("invalid base64url"));
                    },
                }
            }
            n += 1;
        }
        proof {
            assert(kv.take(kv.len() as int) =~= kv);
        }
        let ghost rows = snap.lists@;
        let mut m: usize = 0;
        proof {
            assert(rows.take(0) =~= Seq::empty());
        }
        while m < snap.lists.len()
            invariant
                m <= rows.len(),
                rows == snap.lists@,
                restored_kv(snap.kv@, now, now_unix) == Some(store@.kv),
                restored_lists(rows.take(m as int)) == Some(store@.lists),
            decreases rows.len() - m,
        {
            proof {
                assert(rows.take(m + 1).drop_last() =~= rows.take(m as int));
                assert(rows.take(m + 1).last() == rows[m as int]);
            }
            let row = &snap.lists[m];
            match decode_items(&row.1) {
                Some(items) => {
                    store.append_all(row.0.as_str(), &items);
                },
                None => {
                    proof {
                        lemma_restored_lists_prefix(rows, m + 1);
                    }
                    return Err(serr("invalid base64url"));
                },
            }
            m += 1;
        }
        proof {
            assert(rows.take(rows.len() as int) =~= rows);
        }
        Ok(store)
    }

    fn append_all(&mut self, key: &str, items: &Vec<Vec<u8>>)
        ensures
            final(self)@.kv == old(self)@.kv,
            final(self)@.lists == extended(old(self)@.lists, key@, text::bytes_view(items@)),
    {
        let ghost before = self@;
        let ghost all = text::bytes_view(items@);
        let mut i: usize = 0;
        proof {
            assert(all.take(0) =~= Seq::empty());
        }
        while i < items.len()
            invariant
                i <= items@.len(),
                all == text::bytes_view(items@),
                self@.kv == before.kv,
                self@.lists == extended(before.lists, key@, all.take(i as int)),
            decreases items@.len() - i,
        {
            let ghost step = self@;
            self.list_push(key, items[i].as_slice(), usize::MAX);
            proof {
                let now_list = step.list(key@).push(items@[i as int]@);
                assert(all.take(i + 1) =~= all.take(i as int).push(items@[i as int]@));
                assert(before.list(key@) + all.take(i + 1) =~= (before.list(key@) + all.take(
                    i as int,
                )).push(items@[i as int]@));
                assert(newest(now_list, usize::MAX as nat) == now_list);
                assert(self@.lists =~= extended(before.lists, key@, all.take(i + 1)));
            }
            i += 1;
        }
        proof {
            assert(all.take(all.len() as int) =~= all);
        }
    }
}

/// The deadline of a slot that a snapshot brings back.
pub open spec fn revived(s: SavedView, value: Seq<u8>, now: u64, now_unix: u64) -> SlotView {
    SlotView {
        value,
        deadline: match time_left(s.deadline, now_unix) {
            Some(ttl) => deadline_of(now, ttl),
            None => None,
        },
    }
}

/// What is saved and read back is the same: of the keys whose saved deadline
/// has not passed, and of no others, the value comes back, and one without a
/// deadline comes back without.
pub proof fn law_snapshot_keeps_values(
    kv: Map<Seq<char>, SlotView>,
    s: Seq<(String, String, Option<u64>)>,
    now: u64,
    now_unix: u64,
    later: u64,
    later_unix: u64,
)
    requires
        distinct_saved(s),
        saved_map(s) == kv.map_values(|x: SlotView| saved(x, now, now_unix)),
    ensures
        restored_kv(s, later, later_unix) is Some,
        forall|k: Seq<char>|
            #![trigger restored_kv(s, later, later_unix)->0.dom().contains(k)]
            restored_kv(s, later, later_unix)->0.dom().contains(k) <==> kv.dom().contains(k)
                && time_left(unix_deadline(kv[k], now, now_unix), later_unix) is Some,
        forall|k: Seq<char>|
            #![trigger restored_kv(s, later, later_unix)->0[k]]
            restored_kv(s, later, later_unix)->0.dom().contains(k)
                ==> restored_kv(s, later, later_unix)->0[k] == revived(
                saved(kv[k], now, now_unix),
                kv[k].value,
                later,
                later_unix,
            ),
    decreases s.len(),
{
    if s.len() > 0 {
        let t = s.drop_last();
        let k = s.last().0@;
        lemma_saved_map(t);
        lemma_saved_map(s);
        let rest = kv.remove(k);
        assert(!saved_map(t).dom().contains(k)) by {
            if saved_map(t).dom().contains(k) {
                let i = choose|i: int| 0 <= i < t.len() && (#[trigger] t[i]).0@ == k;
                assert(s[i].0@ == s[s.len() - 1].0@);
            }
        }
        assert(saved_map(t) =~= rest.map_values(|x: SlotView| saved(x, now, now_unix))) by {
            assert(saved_map(s).remove(k) =~= saved_map(t));
        }
        law_snapshot_keeps_values(rest, t, now, now_unix, later, later_unix);
        assert(saved_map(s)[k] == saved(kv[k], now, now_unix));
        b64::law_decode_of_encode(kv[k].value);
    } else {
        assert(kv.dom() =~= saved_map(s).dom());
    }
}

/// A saved key is one of the snapshot's rows.
proof fn lemma_saved_map(s: Seq<(String, String, Option<u64>)>)
    ensures
        forall|k: Seq<char>| #[trigger]
            saved_map(s).dom().contains(k) <==> exists|i: int|
                0 <= i < s.len() && (#[trigger] s[i]).0@ == k,
    decreases s.len(),
{
    if s.len() > 0 {
        let t = s.drop_last();
        lemma_saved_map(t);
        assert forall|k: Seq<char>| #[trigger]
            saved_map(s).dom().contains(k) <==> exists|i: int|
                0 <= i < s.len() && (#[trigger] s[i]).0@ == k by {
            if saved_map(t).dom().contains(k) {
                let i = choose|i: int| 0 <= i < t.len() && (#[trigger] t[i]).0@ == k;
                assert(s[i].0@ == k);
            }
            if k == s.last().0@ {
                assert(s[s.len() - 1].0@ == k);
            }
            if exists|i: int| 0 <= i < s.len() && (#[trigger] s[i]).0@ == k {
                let i = choose|i: int| 0 <= i < s.len() && (#[trigger] s[i]).0@ == k;
                if i < s.len() - 1 {
                    assert(t[i].0@ == k);
                }
            }
        }
    }
}

/// A list that is encoded and decoded again is the same.
proof fn lemma_decoded_encoded(items: Seq<Seq<u8>>)
    ensures
        decoded_items(encoded_items(items)) == Some(items),
    decreases items.len(),
{
    if items.len() > 0 {
        lemma_decoded_encoded(items.drop_last());
        assert(encoded_items(items).drop_last() =~= encoded_items(items.drop_last()));
        b64::law_decode_of_encode(items.last());
        assert(items.drop_last().push(items.last()) =~= items);
    } else {
        assert(items =~= Seq::empty());
    }
}

/// What is saved and read back is the same: every list that has items comes
/// back with these items in this order, and no other list.
pub proof fn law_snapshot_keeps_lists(
    lists: Map<Seq<char>, Seq<Seq<u8>>>,
    s: Seq<(String, Vec<String>)>,
)
    requires
        distinct_lists(s),
        saved_lists(s) == lists.map_values(|l: Seq<Seq<u8>>| encoded_items(l)),
    ensures
        restored_lists(s) is Some,
        forall|k: Seq<char>|
            #![trigger restored_lists(s)->0.dom().contains(k)]
            restored_lists(s)->0.dom().contains(k) <==> lists.dom().contains(k)
                && lists[k].len() > 0,
        forall|k: Seq<char>|
            #![trigger restored_lists(s)->0[k]]
            restored_lists(s)->0.dom().contains(k) ==> restored_lists(s)->0[k] == lists[k],
    decreases s.len(),
{
    if s.len() > 0 {
        let t = s.drop_last();
        let k = s.last().0@;
        lemma_saved_lists(t);
        let rest = lists.remove(k);
        assert(!saved_lists(t).dom().contains(k)) by {
            if saved_lists(t).dom().contains(k) {
                let i = choose|i: int| 0 <= i < t.len() && (#[trigger] t[i]).0@ == k;
                assert(s[i].0@ == s[s.len() - 1].0@);
            }
        }
        assert(saved_lists(t) =~= rest.map_values(|l: Seq<Seq<u8>>| encoded_items(l))) by {
            assert(saved_lists(s).remove(k) =~= saved_lists(t));
        }
        law_snapshot_keeps_lists(rest, t);
        assert(saved_lists(s).dom().contains(k));
        assert(lists.dom().contains(k));
        assert(saved_lists(s)[k] == encoded_items(lists[k]));
        lemma_decoded_encoded(lists[k]);
        let m = restored_lists(t)->0;
        assert(!m.dom().contains(k));
        assert(restored_lists(s) == Some(extended(m, k, lists[k])));
        assert forall|x: Seq<char>|
            #![trigger restored_lists(s)->0.dom().contains(x)]
            restored_lists(s)->0.dom().contains(x) <==> lists.dom().contains(x)
                && lists[x].len() > 0 by {
            if x != k {
                assert(m.dom().contains(x) <==> rest.dom().contains(x) && rest[x].len() > 0);
            }
        }
    } else {
        assert(lists.dom() =~= saved_lists(s).dom());
    }
}

proof fn lemma_saved_lists(s: Seq<(String, Vec<String>)>)
    ensures
        forall|k: Seq<char>| #[trigger]
            saved_lists(s).dom().contains(k) ==> exists|i: int|
                0 <= i < s.len() && (#[trigger] s[i]).0@ == k,
    decreases s.len(),
{
    if s.len() > 0 {
        let t = s.drop_last();
        lemma_saved_lists(t);
        assert forall|k: Seq<char>| #[trigger] saved_lists(s).dom().contains(k) implies exists|
            i: int,
        | 0 <= i < s.len() && (#[trigger] s[i]).0@ == k by {
            if saved_lists(t).dom().contains(k) {
                let i = choose|i: int| 0 <= i < t.len() && (#[trigger] t[i]).0@ == k;
                assert(s[i].0@ == k);
            } else {
                assert(s[s.len() - 1].0@ == k);
            }
        }
    }
}

// ------------------------------------------------------------------ laws

/// What is put is read until its time is over, and not after.
pub proof fn law_put_then_get(
    v: StoreView,
    key: Seq<char>,
    value: Seq<u8>,
    ttl: Option<u64>,
    now: u64,
    later: u64,
)
    ensures
        v.written(key, SlotView { value, deadline: deadline_of(now, ttl) }).read(key, later) == (
        match deadline_of(now, ttl) {
            Some(d) => if d > later {
                Some(value)
            } else {
                None
            },
            None => Some(value),
        }),
{
}

/// A write, or the removal of a key, leaves the other keys and the lists alone.
pub proof fn law_other_keys_untouched(
    v: StoreView,
    key: Seq<char>,
    slot: SlotView,
    other: Seq<char>,
    now: u64,
)
    requires
        other != key,
    ensures
        v.written(key, slot).read(other, now) == v.read(other, now),
        v.erased(key).read(other, now) == v.read(other, now),
        v.written(key, slot).lists == v.lists,
        v.erased(key).lists == v.lists,
{
}

/// A value is taken once: what was taken is not there any more.
pub proof fn law_taken_once(v: StoreView, key: Seq<char>, now: u64)
    ensures
        v.erased(key).read(key, now) is None,
{
}

/// A count goes up by one each time.
pub proof fn law_count_goes_up(v: StoreView, key: Seq<char>, n: i64, now: u64)
    ensures
        counted(
            v.written(
                key,
                SlotView {
                    value: vstd::utf8::encode_utf8(decimal::signed_numeral(n as int)),
                    deadline: None,
                },
            ).read(key, now),
        ) == n,
{
    text::lemma_utf8_round_trip(decimal::signed_numeral(n as int));
    decimal::law_signed_round_trip(n);
}

/// A list keeps its newest items, oldest first, and never more than `max`.
pub proof fn law_list_keeps_newest(items: Seq<Seq<u8>>, value: Seq<u8>, max: nat)
    ensures
        newest(items.push(value), max).len() <= max,
        max > 0 ==> newest(items.push(value), max).last() == value,
        items.len() < max ==> newest(items.push(value), max) == items.push(value),
        0 < max <= items.len() ==> newest(items.push(value), max).drop_last() == items.skip(
            items.len() - max + 1,
        ),
{
    if 0 < max <= items.len() {
        assert(newest(items.push(value), max).drop_last() =~= items.skip(items.len() - max + 1));
    }
}

/// What is stored for a time is there for exactly that time, and what is stored for
/// good is there for good.
pub proof fn law_stored_for_its_time(
    v: StoreView,
    key: Seq<char>,
    value: Seq<u8>,
    ttl: u64,
    now: u64,
    later: u64,
)
    requires
        now + ttl <= u64::MAX,
    ensures
        v.written(key, SlotView { value, deadline: deadline_of(now, Some(ttl)) }).read(key, later)
            == (if later < now + ttl {
            Some(value)
        } else {
            None
        }),
        v.written(key, SlotView { value, deadline: deadline_of(now, None) }).read(key, later)
            == Some(value),
        v.written(key, SlotView { value, deadline: deadline_of(now, Some(ttl)) }).alive(key, later)
            == (later < now + ttl),
{
}

/// A second has a thousand milliseconds.
pub proof fn law_seconds_in_millis(secs: u64)
    ensures
        secs <= u64::MAX / 1000 ==> millis_of(secs) == 1000 * secs,
        millis_of(secs) as int >= 1000 * secs || millis_of(secs) == u64::MAX,
{
}

/// What is kept of a list is its end, in order: all of it, or as much as may be.
pub proof fn law_newest_in_order(items: Seq<Seq<u8>>, max: nat, i: int)
    requires
        0 <= i < newest(items, max).len(),
    ensures
        newest(items, max).len() <= items.len(),
        newest(items, max)[i] == items[items.len() - newest(items, max).len() + i],
        items.len() <= max ==> newest(items, max).len() == items.len(),
        items.len() > max ==> newest(items, max).len() == max,
{
}

/// A key that is saved has, when it is read back, the time left that it had, up to
/// the whole second.
pub proof fn law_saved_deadline(s: SlotView, d: u64, now: u64, now_unix: u64)
    requires
        s.deadline == Some(d),
        now_unix + d <= u64::MAX,
    ensures
        unix_deadline(s, now, now_unix) matches Some(u) && (d > now ==> now_unix + (d - now) / 1000
            == u) && (d <= now ==> u == now_unix),
        saved(s, now, now_unix).deadline == unix_deadline(s, now, now_unix),
        b64::decoded(saved(s, now, now_unix).value) == Some(s.value),
{
    b64::law_decode_of_encode(s.value);
}

/// A saved key is dropped once its time is over, and lives on for the seconds it has
/// left before that.
pub proof fn law_time_left(d: u64, now_unix: u64)
    ensures
        d <= now_unix ==> time_left(Some(d), now_unix) is None,
        d > now_unix && d - now_unix <= u64::MAX / 1000 ==> time_left(Some(d), now_unix) == Some(
            Some((1000 * (d - now_unix)) as u64),
        ),
        time_left(None, now_unix) == Some(None::<u64>),
{
}

/// What is no number counts as nothing.
pub proof fn law_counts(v: Option<Seq<u8>>, s: Seq<char>)
    ensures
        v is None ==> counted(v) == 0,
        v == Some(vstd::utf8::encode_utf8(s)) && decimal::signed_value(s) is None ==> counted(v)
            == 0,
{
    text::lemma_utf8_round_trip(s);
}

} // verus!
