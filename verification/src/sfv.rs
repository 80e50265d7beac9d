//! Structured field values (RFC 8941), as far as signatures need them:
//! dictionaries of items and inner lists, whose items are tokens, strings,
//! integers, byte sequences and booleans. Anything else is a syntax error.

use vstd::prelude::*;

use crate::b64;
use crate::decimal;
use crate::text;

verus! {

/// An item without parameters.
pub enum Bare {
    Token(String),
    Text(String),
    Int(i64),
    Bytes(Vec<u8>),
    Bool(bool),
}

/// What a [`Bare`] holds.
pub enum BareView {
    Token(Seq<char>),
    Text(Seq<char>),
    Int(i64),
    Bytes(Seq<u8>),
    Bool(bool),
}

impl Bare {
    /// What the item holds.
    pub open spec fn view(&self) -> BareView {
        match self {
            Bare::Token(t) => BareView::Token(t@),
            Bare::Text(t) => BareView::Text(t@),
            Bare::Int(n) => BareView::Int(*n),
            Bare::Bytes(b) => BareView::Bytes(b@),
            Bare::Bool(b) => BareView::Bool(*b),
        }
    }
}

/// Parameters: names and values.
pub type ParamsView = Seq<(Seq<char>, BareView)>;

/// What parameters hold.
pub open spec fn params_view(s: Seq<(String, Bare)>) -> ParamsView {
    s.map_values(|p: (String, Bare)| (p.0@, p.1@))
}

/// An item with its parameters.
pub struct Item {
    pub bare: Bare,
    pub params: Vec<(String, Bare)>,
}

/// What an [`Item`] holds.
pub struct ItemView {
    pub bare: BareView,
    pub params: ParamsView,
}

impl Item {
    /// What the item holds.
    pub open spec fn view(&self) -> ItemView {
        ItemView { bare: self.bare@, params: params_view(self.params@) }
    }
}

/// What a list of items holds.
pub open spec fn items_view(s: Seq<Item>) -> Seq<ItemView> {
    s.map_values(|i: Item| i@)
}

/// The value of a member: one item, or an inner list.
pub enum Content {
    One(Bare),
    Many(Vec<Item>),
}

/// What a [`Content`] holds.
pub enum ContentView {
    One(BareView),
    Many(Seq<ItemView>),
}

impl Content {
    /// What the value holds.
    pub open spec fn view(&self) -> ContentView {
        match self {
            Content::One(b) => ContentView::One(b@),
            Content::Many(v) => ContentView::Many(items_view(v@)),
        }
    }
}

/// A member of a dictionary.
pub struct Member {
    pub key: String,
    pub value: Content,
    pub params: Vec<(String, Bare)>,
    /// The text of the value with its parameters, as it stands.
    pub raw: String,
}

/// What a [`Member`] holds.
pub struct MemberView {
    pub key: Seq<char>,
    pub value: ContentView,
    pub params: ParamsView,
    pub raw: Seq<char>,
}

impl Member {
    /// What the member holds.
    pub open spec fn view(&self) -> MemberView {
        MemberView {
            key: self.key@,
            value: self.value@,
            params: params_view(self.params@),
            raw: self.raw@,
        }
    }
}

/// What a dictionary holds.
pub open spec fn members_view(s: Seq<Member>) -> Seq<MemberView> {
    s.map_values(|m: Member| m@)
}

// --------------------------------------------------------------- grammar

/// A lower-case letter.
pub open spec fn is_lower(c: char) -> bool {
    'a' <= c <= 'z'
}

/// A letter.
pub open spec fn is_alpha(c: char) -> bool {
    'a' <= c <= 'z' || 'A' <= c <= 'Z'
}

/// A character that a key begins with.
pub open spec fn is_key_start(c: char) -> bool {
    is_lower(c) || c == '*'
}

/// A character of a key.
pub open spec fn is_key_char(c: char) -> bool {
    is_lower(c) || decimal::is_digit(c) || c == '_' || c == '-' || c == '.' || c == '*'
}

/// A character of a token.
pub open spec fn is_token_char(c: char) -> bool {
    is_alpha(c) || decimal::is_digit(c) || c == '!' || c == '#' || c == '$' || c == '%' || c == '&'
        || c == '\'' || c == '*' || c == '+' || c == '-' || c == '.' || c == '^' || c == '_' || c
        == '`' || c == '|' || c == '~' || c == ':' || c == '/'
}

/// The kinds of characters that runs are made of.
#[derive(Clone, Copy, PartialEq, Eq, Structural)]
pub enum Run {
    Key,
    Token,
    Digits,
    Spaces,
    Blank,
}

/// Whether a character belongs to a run.
pub open spec fn in_run(kind: Run, c: char) -> bool {
    match kind {
        Run::Key => is_key_char(c),
        Run::Token => is_token_char(c),
        Run::Digits => decimal::is_digit(c),
        Run::Spaces => c == ' ',
        Run::Blank => c == ' ' || c == '\t',
    }
}

/// Where the run of characters that starts at `i` ends.
pub open spec fn run_end(s: Seq<char>, i: nat, kind: Run) -> nat
    decreases s.len() - i,
{
    if i < s.len() && in_run(kind, s[i as int]) {
        run_end(s, i + 1, kind)
    } else {
        i
    }
}

/// The place of a character at or after `i`.
pub open spec fn char_from(s: Seq<char>, i: nat, c: char) -> Option<nat>
    decreases s.len() - i,
{
    if i >= s.len() {
        None
    } else if s[i as int] == c {
        Some(i)
    } else {
        char_from(s, i + 1, c)
    }
}

/// The end of the key that starts at `i`.
pub open spec fn key_at(s: Seq<char>, i: nat) -> Option<nat> {
    if i < s.len() && is_key_start(s[i as int]) {
        Some(run_end(s, i, Run::Key))
    } else {
        None
    }
}

/// The rest of a string whose characters so far are `acc`, and where it ends.
pub open spec fn string_from(s: Seq<char>, i: nat, acc: Seq<char>) -> Option<(Seq<char>, nat)>
    decreases s.len() - i,
{
    if i >= s.len() {
        None
    } else if s[i as int] == '"' {
        Some((acc, i + 1))
    } else if s[i as int] == '\\' {
        if i + 1 < s.len() && (s[(i + 1) as int] == '"' || s[(i + 1) as int] == '\\') {
            string_from(s, i + 2, acc.push(s[(i + 1) as int]))
        } else {
            None
        }
    } else if ' ' <= s[i as int] <= '~' {
        string_from(s, i + 1, acc.push(s[i as int]))
    } else {
        None
    }
}

/// The integer that starts at `i`: up to fifteen digits.
pub open spec fn int_at(s: Seq<char>, i: nat) -> Option<(i64, nat)> {
    let from = if i < s.len() && s[i as int] == '-' {
        i + 1
    } else {
        i
    };
    let end = run_end(s, from, Run::Digits);
    if end == from || end - from > 15 {
        None
    } else {
        match decimal::signed_value(s.subrange(i as int, end as int)) {
            Some(n) => Some((n, end)),
            None => None,
        }
    }
}

/// The item that starts at `i`.
pub open spec fn bare_at(s: Seq<char>, i: nat) -> Option<(BareView, nat)> {
    if i >= s.len() {
        None
    } else {
        let c = s[i as int];
        if c == '"' {
            match string_from(s, i + 1, Seq::empty()) {
                Some((t, end)) => Some((BareView::Text(t), end)),
                None => None,
            }
        } else if c == ':' {
            match char_from(s, i + 1, ':') {
                Some(end) => match b64::decoded_std(s.subrange((i + 1) as int, end as int)) {
                    Some(b) => Some((BareView::Bytes(b), end + 1)),
                    None => None,
                },
                None => None,
            }
        } else if c == '?' {
            if i + 1 < s.len() && s[(i + 1) as int] == '1' {
                Some((BareView::Bool(true), i + 2))
            } else if i + 1 < s.len() && s[(i + 1) as int] == '0' {
                Some((BareView::Bool(false), i + 2))
            } else {
                None
            }
        } else if c == '-' || decimal::is_digit(c) {
            match int_at(s, i) {
                Some((n, end)) => Some((BareView::Int(n), end)),
                None => None,
            }
        } else if is_alpha(c) || c == '*' {
            let end = run_end(s, i, Run::Token);
            Some((BareView::Token(s.subrange(i as int, end as int)), end))
        } else {
            None
        }
    }
}

/// The parameters that start at `i`, after those in `acc`.
pub open spec fn params_from(s: Seq<char>, i: nat, acc: ParamsView) -> Option<(ParamsView, nat)>
    decreases s.len() - i,
{
    if i < s.len() && s[i as int] == ';' {
        let from = run_end(s, i + 1, Run::Spaces);
        match key_at(s, from) {
            None => None,
            Some(end) => {
                let key = s.subrange(from as int, end as int);
                if end < s.len() && s[end as int] == '=' {
                    match bare_at(s, end + 1) {
                        Some((b, stop)) => if i < stop <= s.len() {
                            params_from(s, stop, acc.push((key, b)))
                        } else {
                            None
                        },
                        None => None,
                    }
                } else if i < end <= s.len() {
                    params_from(s, end, acc.push((key, BareView::Bool(true))))
                } else {
                    None
                }
            },
        }
    } else {
        Some((acc, i))
    }
}

/// The rest of an inner list whose items so far are `acc`.
pub open spec fn inner_from(s: Seq<char>, i: nat, acc: Seq<ItemView>) -> Option<
    (Seq<ItemView>, nat),
>
    decreases s.len() - i,
{
    let from = run_end(s, i, Run::Spaces);
    if from >= s.len() {
        None
    } else if s[from as int] == ')' {
        Some((acc, from + 1))
    } else {
        match bare_at(s, from) {
            None => None,
            Some((bare, mid)) => match params_from(s, mid, Seq::empty()) {
                None => None,
                Some((params, end)) => if i < end < s.len() && (s[end as int] == ' ' || s[end as int]
                    == ')') {
                    inner_from(s, end, acc.push(ItemView { bare, params }))
                } else {
                    None
                },
            },
        }
    }
}

/// The value that starts at `i`, without its parameters.
pub open spec fn value_at(s: Seq<char>, i: nat) -> Option<(ContentView, nat)> {
    if i < s.len() && s[i as int] == '(' {
        match inner_from(s, i + 1, Seq::empty()) {
            Some((items, end)) => Some((ContentView::Many(items), end)),
            None => None,
        }
    } else {
        match bare_at(s, i) {
            Some((b, end)) => Some((ContentView::One(b), end)),
            None => None,
        }
    }
}

/// The member that starts at `i`.
pub open spec fn member_at(s: Seq<char>, i: nat) -> Option<(MemberView, nat)> {
    match key_at(s, i) {
        None => None,
        Some(end) => {
            let named = end < s.len() && s[end as int] == '=';
            let from = if named {
                end + 1
            } else {
                end
            };
            let value = if named {
                value_at(s, from)
            } else {
                Some((ContentView::One(BareView::Bool(true)), end))
            };
            match value {
                None => None,
                Some((v, mid)) => match params_from(s, mid, Seq::empty()) {
                    None => None,
                    Some((params, stop)) => Some(
                        (
                            MemberView {
                                key: s.subrange(i as int, end as int),
                                value: v,
                                params,
                                raw: s.subrange(from as int, stop as int),
                            },
                            stop,
                        ),
                    ),
                },
            }
        },
    }
}

/// The members of a dictionary that start at `i`, after those in `acc`.
pub open spec fn members_from(s: Seq<char>, i: nat, acc: Seq<MemberView>) -> Option<
    Seq<MemberView>,
>
    decreases s.len() - i,
{
    match member_at(s, i) {
        None => None,
        Some((m, end)) => {
            let stop = run_end(s, end, Run::Blank);
            if stop >= s.len() {
                Some(acc.push(m))
            } else if s[stop as int] != ',' {
                None
            } else {
                let next = run_end(s, stop + 1, Run::Blank);
                if i < next < s.len() {
                    members_from(s, next, acc.push(m))
                } else {
                    None
                }
            }
        },
    }
}

/// The members of a dictionary.
pub open spec fn dictionary(s: Seq<char>) -> Option<Seq<MemberView>> {
    let from = run_end(s, 0, Run::Spaces);
    if from >= s.len() {
        Some(Seq::empty())
    } else {
        members_from(s, from, Seq::empty())
    }
}

/// The member with a key: of two the later.
pub open spec fn member_named(s: Seq<MemberView>, key: Seq<char>) -> Option<MemberView>
    decreases s.len(),
{
    if s.len() == 0 {
        None
    } else if s.last().key == key {
        Some(s.last())
    } else {
        member_named(s.drop_last(), key)
    }
}

/// The parameter with a name: of two the later.
pub open spec fn param_named(s: ParamsView, name: Seq<char>) -> Option<BareView>
    decreases s.len(),
{
    if s.len() == 0 {
        None
    } else if s.last().0 == name {
        Some(s.last().1)
    } else {
        param_named(s.drop_last(), name)
    }
}

// --------------------------------------------------------------- reading

fn lower(c: char) -> (r: bool)
    ensures
        r == is_lower(c),
{
    'a' <= c && c <= 'z'
}

fn alpha(c: char) -> (r: bool)
    ensures
        r == is_alpha(c),
{
    ('a' <= c && c <= 'z') || ('A' <= c && c <= 'Z')
}

fn digit(c: char) -> (r: bool)
    ensures
        r == decimal::is_digit(c),
{
    '0' <= c && c <= '9'
}

fn token_char(c: char) -> (r: bool)
    ensures
        r == is_token_char(c),
{
    alpha(c) || digit(c) || c == '!' || c == '#' || c == '$' || c == '%' || c == '&' || c == '\''
        || c == '*' || c == '+' || c == '-' || c == '.' || c == '^' || c == '_' || c == '`' || c
        == '|' || c == '~' || c == ':' || c == '/'
}

fn belongs(kind: Run, c: char) -> (r: bool)
    ensures
        r == in_run(kind, c),
{
    match kind {
        Run::Key => lower(c) || digit(c) || c == '_' || c == '-' || c == '.' || c == '*',
        Run::Token => token_char(c),
        Run::Digits => digit(c),
        Run::Spaces => c == ' ',
        Run::Blank => c == ' ' || c == '\t',
    }
}

fn end_of_run(s: &Vec<char>, i: usize, kind: Run) -> (r: usize)
    requires
        i <= s@.len(),
    ensures
        r == run_end(s@, i as nat, kind),
        i <= r <= s@.len(),
        r < s@.len() ==> !in_run(kind, s@[r as int]),
        i < s@.len() && in_run(kind, s@[i as int]) ==> i < r,
{
    let mut j: usize = i;
    while j < s.len() && belongs(kind, s[j])
        invariant
            i <= j <= s@.len(),
            run_end(s@, i as nat, kind) == run_end(s@, j as nat, kind),
            i < s@.len() && in_run(kind, s@[i as int]) && j == i ==> j < s@.len(),
        decreases s@.len() - j,
    {
        j += 1;
    }
    j
}

fn read_key(s: &Vec<char>, i: usize) -> (r: Option<usize>)
    requires
        i <= s@.len(),
    ensures
        match r {
            Some(end) => key_at(s@, i as nat) == Some(end as nat) && i < end <= s@.len(),
            None => key_at(s@, i as nat) is None,
        },
{
    if i < s.len() && (lower(s[i]) || s[i] == '*') {
        Some(end_of_run(s, i, Run::Key))
    } else {
        None
    }
}

fn read_string(s: &Vec<char>, i: usize) -> (r: Option<(String, usize)>)
    requires
        i <= s@.len(),
    ensures
        match r {
            Some(x) => string_from(s@, i as nat, Seq::empty()) == Some((x.0@, x.1 as nat)) && i
                < x.1 <= s@.len(),
            None => string_from(s@, i as nat, Seq::empty()) is None,
        },
{
    let mut acc: Vec<char> = Vec::new();
    let mut j: usize = i;
    while j < s.len()
        invariant
            i <= j <= s@.len(),
            string_from(s@, i as nat, Seq::empty()) == string_from(s@, j as nat, acc@),
        decreases s@.len() - j,
    {
        let c = s[j];
        if c == '"' {
            return Some((text::from_chars(acc.as_slice()), j + 1));
        }
        if c == '\\' {
            if s.len() - j > 1 && (s[j + 1] == '"' || s[j + 1] == '\\') {
                acc.push(s[j + 1]);
                j += 2;
            } else {
                return None;
            }
        } else if ' ' <= c && c <= '~' {
            acc.push(c);
            j += 1;
        } else {
            return None;
        }
    }
    None
}

fn find_from(s: &Vec<char>, i: usize, c: char) -> (r: Option<usize>)
    requires
        i <= s@.len(),
    ensures
        match r {
            Some(j) => char_from(s@, i as nat, c) == Some(j as nat) && i <= j < s@.len(),
            None => char_from(s@, i as nat, c) is None,
        },
{
    let mut j: usize = i;
    while j < s.len()
        invariant
            i <= j <= s@.len(),
            char_from(s@, i as nat, c) == char_from(s@, j as nat, c),
        decreases s@.len() - j,
    {
        if s[j] == c {
            return Some(j);
        }
        j += 1;
    }
    None
}

fn read_int(s: &Vec<char>, i: usize) -> (r: Option<(i64, usize)>)
    requires
        i < s@.len(),
    ensures
        match r {
            Some(x) => int_at(s@, i as nat) == Some((x.0, x.1 as nat)) && i < x.1 <= s@.len(),
            None => int_at(s@, i as nat) is None,
        },
{
    let from: usize = if i < s.len() && s[i] == '-' {
        i + 1
    } else {
        i
    };
    let end: usize = end_of_run(s, from, Run::Digits);
    if end == from || end - from > 15 {
        return None;
    }
    let t = text::slice_text(s.as_slice(), i, end);
    match decimal::parse_signed(t.as_str()) {
        Some(n) => Some((n, end)),
        None => None,
    }
}

fn read_bare(s: &Vec<char>, i: usize) -> (r: Option<(Bare, usize)>)
    requires
        i <= s@.len(),
    ensures
        match r {
            Some(x) => bare_at(s@, i as nat) == Some((x.0@, x.1 as nat)) && i < x.1 <= s@.len(),
            None => bare_at(s@, i as nat) is None,
        },
{
    if i >= s.len() {
        return None;
    }
    let c = s[i];
    if c == '"' {
        match read_string(s, i + 1) {
            Some((t, end)) => Some((Bare::Text(t), end)),
            None => None,
        }
    } else if c == ':' {
        match find_from(s, i + 1, ':') {
            Some(end) => {
                let t = text::slice_text(s.as_slice(), i + 1, end);
                match b64::decode_std(t.as_str()) {
                    Some(b) => Some((Bare::Bytes(b), end + 1)),
                    None => None,
                }
            },
            None => None,
        }
    } else if c == '?' {
        if s.len() - i > 1 && s[i + 1] == '1' {
            Some((Bare::Bool(true), i + 2))
        } else if s.len() - i > 1 && s[i + 1] == '0' {
            Some((Bare::Bool(false), i + 2))
        } else {
            None
        }
    } else if c == '-' || digit(c) {
        match read_int(s, i) {
            Some((n, end)) => Some((Bare::Int(n), end)),
            None => None,
        }
    } else if alpha(c) || c == '*' {
        let end: usize = end_of_run(s, i, Run::Token);
        Some((Bare::Token(text::slice_text(s.as_slice(), i, end)), end))
    } else {
        None
    }
}

fn read_params(s: &Vec<char>, i: usize) -> (r: Option<(Vec<(String, Bare)>, usize)>)
    requires
        i <= s@.len(),
    ensures
        match r {
            Some(x) => params_from(s@, i as nat, Seq::empty()) == Some(
                (params_view(x.0@), x.1 as nat),
            ) && i <= x.1 <= s@.len(),
            None => params_from(s@, i as nat, Seq::empty()) is None,
        },
{
    let mut acc: Vec<(String, Bare)> = Vec::new();
    let mut j: usize = i;
    proof {
        assert(params_view(acc@) =~= Seq::empty());
    }
    while j < s.len() && s[j] == ';'
        invariant
            i <= j <= s@.len(),
            params_from(s@, i as nat, Seq::empty()) == params_from(
                s@,
                j as nat,
                params_view(acc@),
            ),
        decreases s@.len() - j,
    {
        let from: usize = end_of_run(s, j + 1, Run::Spaces);
        let end: usize = match read_key(s, from) {
            None => {
                return None;
            },
            Some(end) => end,
        };
        let key = text::slice_text(s.as_slice(), from, end);
        let ghost was = acc@;
        if end < s.len() && s[end] == '=' {
            match read_bare(s, end + 1) {
                Some((b, stop)) => {
                    acc.push((key, b));
                    proof {
                        assert(params_view(acc@) =~= params_view(was).push((key@, b@)));
                    }
                    j = stop;
                },
                None => {
                    return None;
                },
            }
        } else {
            acc.push((key, Bare::Bool(true)));
            proof {
                assert(params_view(acc@) =~= params_view(was).push(
                    (key@, BareView::Bool(true)),
                ));
            }
            j = end;
        }
    }
    Some((acc, j))
}

fn read_inner(s: &Vec<char>, i: usize) -> (r: Option<(Vec<Item>, usize)>)
    requires
        i <= s@.len(),
    ensures
        match r {
            Some(x) => inner_from(s@, i as nat, Seq::empty()) == Some(
                (items_view(x.0@), x.1 as nat),
            ) && i < x.1 <= s@.len(),
            None => inner_from(s@, i as nat, Seq::empty()) is None,
        },
{
    let mut acc: Vec<Item> = Vec::new();
    let mut j: usize = i;
    proof {
        assert(items_view(acc@) =~= Seq::empty());
    }
    loop
        invariant
            i <= j <= s@.len(),
            inner_from(s@, i as nat, Seq::empty()) == inner_from(s@, j as nat, items_view(acc@)),
        decreases s@.len() - j,
    {
        let from: usize = end_of_run(s, j, Run::Spaces);
        if from >= s.len() {
            return None;
        }
        if s[from] == ')' {
            return Some((acc, from + 1));
        }
        let (bare, mid) = match read_bare(s, from) {
            None => {
                return None;
            },
            Some(x) => x,
        };
        let (params, end) = match read_params(s, mid) {
            None => {
                return None;
            },
            Some(x) => x,
        };
        if end >= s.len() || !(s[end] == ' ' || s[end] == ')') {
            return None;
        }
        let ghost was = acc@;
        let item = Item { bare, params };
        let ghost iv = item@;
        acc.push(item);
        proof {
            assert(items_view(acc@) =~= items_view(was).push(iv));
        }
        j = end;
    }
}

fn read_member(s: &Vec<char>, i: usize) -> (r: Option<(Member, usize)>)
    requires
        i <= s@.len(),
    ensures
        match r {
            Some(x) => member_at(s@, i as nat) == Some((x.0@, x.1 as nat)) && i < x.1 <= s@.len(),
            None => member_at(s@, i as nat) is None,
        },
{
    let end: usize = match read_key(s, i) {
        None => {
            return None;
        },
        Some(end) => end,
    };
    let key = text::slice_text(s.as_slice(), i, end);
    let named = end < s.len() && s[end] == '=';
    let from: usize = if named {
        end + 1
    } else {
        end
    };
    let (value, mid): (Content, usize) = if !named {
        (Content::One(Bare::Bool(true)), end)
    } else if from < s.len() && s[from] == '(' {
        match read_inner(s, from + 1) {
            Some((items, stop)) => (Content::Many(items), stop),
            None => {
                return None;
            },
        }
    } else {
        match read_bare(s, from) {
            Some((b, stop)) => (Content::One(b), stop),
            None => {
                return None;
            },
        }
    };
    match read_params(s, mid) {
        None => None,
        Some((params, stop)) => {
            let raw = text::slice_text(s.as_slice(), from, stop);
            Some((Member { key, value, params, raw }, stop))
        },
    }
}

/// Reads a dictionary.
pub fn parse_dictionary(field: &str) -> (r: Option<Vec<Member>>)
    ensures
        match r {
            Some(v) => dictionary(field@) == Some(members_view(v@)),
            None => dictionary(field@) is None,
        },
{
    let chars = text::to_chars(field);
    let s = &chars;
    let mut acc: Vec<Member> = Vec::new();
    proof {
        assert(members_view(acc@) =~= Seq::empty());
    }
    let mut j: usize = end_of_run(s, 0, Run::Spaces);
    if j >= s.len() {
        return Some(acc);
    }
    let ghost start = j as nat;
    loop
        invariant
            s@ == field@,
            j < s@.len(),
            members_from(s@, start, Seq::empty()) == members_from(
                s@,
                j as nat,
                members_view(acc@),
            ),
            dictionary(field@) == members_from(s@, start, Seq::empty()),
        decreases s@.len() - j,
    {
        let (m, end) = match read_member(s, j) {
            None => {
                return None;
            },
            Some(x) => x,
        };
        let stop: usize = end_of_run(s, end, Run::Blank);
        let ghost was = acc@;
        let ghost mv = m@;
        acc.push(m);
        proof {
            assert(members_view(acc@) =~= members_view(was).push(mv));
        }
        if stop >= s.len() {
            return Some(acc);
        }
        if s[stop] != ',' {
            return None;
        }
        let next: usize = end_of_run(s, stop + 1, Run::Blank);
        if next >= s.len() {
            return None;
        }
        j = next;
    }
}

/// The member with a key.
pub fn find_member<'a>(members: &'a Vec<Member>, key: &str) -> (r: Option<&'a Member>)
    ensures
        match r {
            Some(m) => member_named(members_view(members@), key@) == Some(m@),
            None => member_named(members_view(members@), key@) is None,
        },
{
    let ghost all = members_view(members@);
    let mut i: usize = members.len();
    proof {
        assert(all.take(all.len() as int) =~= all);
    }
    while i > 0
        invariant
            i <= members@.len(),
            all == members_view(members@),
            member_named(all, key@) == member_named(all.take(i as int), key@),
        decreases i,
    {
        proof {
            assert(all.take(i as int).drop_last() =~= all.take(i - 1));
            assert(all.take(i as int).last() == members@[i - 1]@);
        }
        if text::same(members[i - 1].key.as_str(), key) {
            return Some(&members[i - 1]);
        }
        i -= 1;
    }
    None
}

/// The parameter with a name.
pub fn find_param<'a>(params: &'a Vec<(String, Bare)>, name: &str) -> (r: Option<&'a Bare>)
    ensures
        match r {
            Some(b) => param_named(params_view(params@), name@) == Some(b@),
            None => param_named(params_view(params@), name@) is None,
        },
{
    let ghost all = params_view(params@);
    let mut i: usize = params.len();
    proof {
        assert(all.take(all.len() as int) =~= all);
    }
    while i > 0
        invariant
            i <= params@.len(),
            all == params_view(params@),
            param_named(all, name@) == param_named(all.take(i as int), name@),
        decreases i,
    {
        proof {
            assert(all.take(i as int).drop_last() =~= all.take(i - 1));
            assert(all.take(i as int).last() == (params@[i - 1].0@, params@[i - 1].1@));
        }
        if text::same(params[i - 1].0.as_str(), name) {
            return Some(&params[i - 1].1);
        }
        i -= 1;
    }
    None
}

/// Which characters keys and tokens are made of.
pub proof fn law_field_characters(c: char)
    ensures
        is_key_start(c) == ('a' <= c <= 'z' || c == '*'),
        is_key_char(c) == ('a' <= c <= 'z' || '0' <= c <= '9' || c == '_' || c == '-' || c == '.' || c
            == '*'),
        is_token_char(c) == ('a' <= c <= 'z' || 'A' <= c <= 'Z' || '0' <= c <= '9' || c == '!' || c
            == '#' || c == '$' || c == '%' || c == '&' || c == '\'' || c == '*' || c == '+' || c
            == '-' || c == '.' || c == '^' || c == '_' || c == '`' || c == '|' || c == '~' || c
            == ':' || c == '/'),
        in_run(Run::Spaces, c) == (c == ' '),
        in_run(Run::Blank, c) == (c == ' ' || c == '\t'),
        in_run(Run::Digits, c) == ('0' <= c <= '9'),
        in_run(Run::Key, c) == is_key_char(c),
        in_run(Run::Token, c) == is_token_char(c),
{
}

/// A run is as long as it can be.
pub proof fn law_run(s: Seq<char>, i: nat, kind: Run)
    requires
        i <= s.len(),
    ensures
        i <= run_end(s, i, kind) <= s.len(),
        forall|j: int| i <= j < run_end(s, i, kind) ==> in_run(kind, #[trigger] s[j]),
        run_end(s, i, kind) < s.len() ==> !in_run(kind, s[run_end(s, i, kind) as int]),
    decreases s.len() - i,
{
    if i < s.len() && in_run(kind, s[i as int]) {
        law_run(s, i + 1, kind);
    }
}

/// A string ends at its quotation mark; a backslash stands only before a
/// quotation mark or a backslash, which it stands for, and other characters are
/// printable ASCII.
pub proof fn law_string_characters(s: Seq<char>, i: nat, acc: Seq<char>)
    requires
        i < s.len(),
    ensures
        s[i as int] == '"' ==> string_from(s, i, acc) == Some((acc, i + 1)),
        s[i as int] == '\\' && i + 1 < s.len() && (s[i as int + 1] == '"' || s[i as int + 1] == '\\')
            ==> string_from(s, i, acc) == string_from(s, i + 2, acc.push(s[i as int + 1])),
        s[i as int] == '\\' && !(i + 1 < s.len() && (s[i as int + 1] == '"' || s[i as int + 1] == '\\'))
            ==> string_from(s, i, acc) is None,
        s[i as int] != '"' && s[i as int] != '\\' && ' ' <= s[i as int] <= '~' ==> string_from(s, i, acc) == string_from(s, i + 1, acc.push(s[i as int])),
        !(' ' <= s[i as int] <= '~') ==> string_from(s, i, acc) is None,
        string_from(s, s.len(), acc) is None,
{
}

/// An integer is up to fifteen digits behind an optional minus sign.
pub proof fn law_field_integer(s: Seq<char>, i: nat)
    requires
        i <= s.len(),
    ensures
        int_at(s, i) matches Some((n, end)) ==> i < end <= s.len() && end - i <= 16
            && decimal::signed_value(s.subrange(i as int, end as int)) == Some(n),
        i < s.len() && s[i as int] != '-' && !decimal::is_digit(s[i as int]) ==> int_at(s, i) is None,
        ({
            let end = run_end(s, i, Run::Digits);
            i < s.len() && s[i as int] != '-' && end - i > 15 ==> int_at(s, i) is None
        }),
{
    law_run(s, i, Run::Digits);
    if i < s.len() && s[i as int] == '-' {
        law_run(s, i + 1, Run::Digits);
    }
}

/// What an item is, is told by its first character.
pub proof fn law_item_kinds(s: Seq<char>, i: nat)
    requires
        i < s.len(),
    ensures
        bare_at(s, i) matches Some((b, _)) ==> {
            &&& b is Text == (s[i as int] == '"')
            &&& b is Bytes == (s[i as int] == ':')
            &&& b is Bool == (s[i as int] == '?')
            &&& b is Int == (s[i as int] == '-' || '0' <= s[i as int] <= '9')
            &&& b is Token == ('a' <= s[i as int] <= 'z' || 'A' <= s[i as int] <= 'Z' || s[i as int]
                == '*')
        },
        s[i as int] == '?' && i + 1 < s.len() && s[i as int + 1] == '1' ==> bare_at(s, i) == Some(
            (BareView::Bool(true), i + 2),
        ),
        s[i as int] == '?' && i + 1 < s.len() && s[i as int + 1] == '0' ==> bare_at(s, i) == Some(
            (BareView::Bool(false), i + 2),
        ),
        s[i as int] == '?' && !(i + 1 < s.len() && (s[i as int + 1] == '0' || s[i as int + 1] == '1'))
            ==> bare_at(s, i) is None,
        s[i as int] == '"' ==> (string_from(s, i + 1, Seq::empty()) matches Some((t, end))
            ==> bare_at(s, i) == Some((BareView::Text(t), end))),
        s[i as int] == ':' ==> (char_from(s, i + 1, ':') matches Some(end) ==> (
        b64::decoded_std(s.subrange(i as int + 1, end as int)) matches Some(b) ==> bare_at(s, i) == Some(
            (BareView::Bytes(b), end + 1),
        ))),
{
}

/// Parameters go on while semicolons do; one without a value is true.
pub proof fn law_parameters(s: Seq<char>, i: nat, acc: ParamsView)
    ensures
        i >= s.len() || s[i as int] != ';' ==> params_from(s, i, acc) == Some((acc, i)),
        i < s.len() && s[i as int] == ';' && key_at(s, run_end(s, i + 1, Run::Spaces)) is None
            ==> params_from(s, i, acc) is None,
        i < s.len() && s[i as int] == ';' ==> (key_at(
            s,
            run_end(s, i + 1, Run::Spaces),
        ) matches Some(end) ==> (i < end && end <= s.len() && (end == s.len() || s[end as int] != '=')
            ==> params_from(s, i, acc) == params_from(
            s,
            end,
            acc.push(
                (
                    s.subrange(run_end(s, i + 1, Run::Spaces) as int, end as int),
                    BareView::Bool(true),
                ),
            ),
        ))),
{
}

/// Of members or parameters of one name the last counts.
pub proof fn law_last_counts(
    s: Seq<MemberView>,
    m: MemberView,
    p: ParamsView,
    q: (Seq<char>, BareView),
    name: Seq<char>,
)
    ensures
        m.key == name ==> member_named(s.push(m), name) == Some(m),
        m.key != name ==> member_named(s.push(m), name) == member_named(s, name),
        q.0 == name ==> param_named(p.push(q), name) == Some(q.1),
        q.0 != name ==> param_named(p.push(q), name) == param_named(p, name),
        member_named(Seq::empty(), name) is None,
        param_named(Seq::empty(), name) is None,
{
    assert(s.push(m).drop_last() =~= s);
    assert(p.push(q).drop_last() =~= p);
}

/// A dictionary of nothing but spaces is empty; members are parted by commas, and
/// none stands at the end.
pub proof fn law_dictionary(s: Seq<char>, i: nat, acc: Seq<MemberView>)
    ensures
        run_end(s, 0, Run::Spaces) >= s.len() ==> dictionary(s) == Some(Seq::<MemberView>::empty()),
        member_at(s, i) is None ==> members_from(s, i, acc) is None,
        member_at(s, i) matches Some((m, end)) ==> (run_end(s, end, Run::Blank) >= s.len()
            ==> members_from(s, i, acc) == Some(acc.push(m))),
        member_at(s, i) matches Some((m, end)) ==> (run_end(s, end, Run::Blank) < s.len() && s[run_end(
            s,
            end,
            Run::Blank,
        ) as int] != ',' ==> members_from(s, i, acc) is None),
        member_at(s, i) matches Some((m, end)) ==> (run_end(s, end, Run::Blank) < s.len() && run_end(
            s,
            run_end(s, end, Run::Blank) + 1,
            Run::Blank,
        ) >= s.len() ==> members_from(s, i, acc) is None),
{
}

} // verus!
