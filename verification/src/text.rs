//! Text over `char` sequences: searching, splitting, joining and trimming.
//!
//! Every function states its result over the view of a string, the sequence of
//! its characters.

use vstd::prelude::*;

verus! {

/// `std::string::String::push`: appends one character.
pub assume_specification[ std::string::String::push ](s: &mut std::string::String, c: char)
    ensures
        final(s)@ == old(s)@.push(c),
;

/// The view of an optional string.
pub open spec fn opt_view(o: Option<String>) -> Option<Seq<char>> {
    match o {
        Some(s) => Some(s@),
        None => None,
    }
}

/// The views of a list of strings.
pub open spec fn list_view(v: Seq<String>) -> Seq<Seq<char>> {
    v.map_values(|s: String| s@)
}

/// The views of a list of byte strings.
pub open spec fn bytes_view(v: Seq<Vec<u8>>) -> Seq<Seq<u8>> {
    v.map_values(|b: Vec<u8>| b@)
}

/// What is wrong, where something is.
pub open spec fn fault_view(r: Result<(), String>) -> Option<Seq<char>> {
    match r {
        Ok(_) => None,
        Err(e) => Some(e@),
    }
}

/// The characters of a string.
pub fn to_chars(s: &str) -> (r: Vec<char>)
    ensures
        r@ == s@,
{
    let mut out: Vec<char> = Vec::new();
    for c in it: s.chars()
        invariant
            out@ == it.seq().take(it.index() as int),
            it.seq() == s@,
    {
        out.push(c);
        proof {
            assert(it.seq().take(it.index() + 1) =~= it.seq().take(it.index() as int).push(c));
        }
    }
    proof {
        assert(s@.take(s@.len() as int) =~= s@);
    }
    out
}

/// The string made of the given characters.
pub fn from_chars(chars: &[char]) -> (r: String)
    ensures
        r@ == chars@,
{
    let mut out = String::new();
    let mut i: usize = 0;
    while i < chars.len()
        invariant
            i <= chars.len(),
            out@ == chars@.take(i as int),
        decreases chars.len() - i,
    {
        out.push(chars[i]);
        i += 1;
        proof {
            assert(chars@.take(i as int) =~= chars@.take(i - 1).push(chars@[i - 1]));
        }
    }
    proof {
        assert(chars@.take(chars.len() as int) =~= chars@);
    }
    out
}

/// Two strings hold the same characters.
pub fn same(a: &str, b: &str) -> (r: bool)
    ensures
        r == (a@ == b@),
{
    let x = a.to_owned();
    let y = b.to_owned();
    x == y
}

/// `a` followed by `b`.
pub fn join2(a: &str, b: &str) -> (r: String)
    ensures
        r@ == a@ + b@,
{
    let mut out = a.to_owned();
    out.append(b);
    out
}

/// `a` followed by `b` and `c`.
pub fn join3(a: &str, b: &str, c: &str) -> (r: String)
    ensures
        r@ == a@ + b@ + c@,
{
    let mut out = a.to_owned();
    out.append(b);
    out.append(c);
    out
}

/// The characters of `chars` from `from` up to, not including, `to`.
pub fn slice_text(chars: &[char], from: usize, to: usize) -> (r: String)
    requires
        from <= to <= chars@.len(),
    ensures
        r@ == chars@.subrange(from as int, to as int),
{
    from_chars(vstd::slice::slice_subrange(chars, from, to))
}

/// What is left of `s` behind the prefix `p`, where it has that prefix.
pub open spec fn without_prefix(s: Seq<char>, p: Seq<char>) -> Option<Seq<char>> {
    if p.is_prefix_of(s) {
        Some(s.skip(p.len() as int))
    } else {
        None
    }
}

/// What is left of `s` before the suffix `p`, where it has that suffix.
pub open spec fn without_suffix(s: Seq<char>, p: Seq<char>) -> Option<Seq<char>> {
    if p.is_suffix_of(s) {
        Some(s.take(s.len() - p.len()))
    } else {
        None
    }
}

/// The first `n` characters agree.
fn same_at(a: &[char], off: usize, b: &[char]) -> (r: bool)
    requires
        off + b@.len() <= a@.len(),
    ensures
        r == (a@.subrange(off as int, off + b@.len()) == b@),
{
    let end: usize = a.len();
    let mut i: usize = 0;
    while i < b.len()
        invariant
            i <= b@.len(),
            end == a@.len(),
            off + b@.len() <= end,
            forall|j: int| 0 <= j < i ==> a@[off + j] == b@[j],
        decreases b@.len() - i,
    {
        if a[off + i] != b[i] {
            proof {
                assert(a@.subrange(off as int, off + b@.len())[i as int] != b@[i as int]);
            }
            return false;
        }
        i += 1;
    }
    proof {
        assert(a@.subrange(off as int, off + b@.len()) =~= b@);
    }
    true
}

/// Whether `s` begins with `p`.
pub fn starts_with(s: &str, p: &str) -> (r: bool)
    ensures
        r == p@.is_prefix_of(s@),
{
    let a = to_chars(s);
    let b = to_chars(p);
    if b.len() > a.len() {
        return false;
    }
    same_at(&a, 0, &b)
}

/// Whether `s` ends with `p`.
pub fn ends_with(s: &str, p: &str) -> (r: bool)
    ensures
        r == p@.is_suffix_of(s@),
{
    let a = to_chars(s);
    let b = to_chars(p);
    if b.len() > a.len() {
        return false;
    }
    same_at(&a, a.len() - b.len(), &b)
}

/// What is left of `s` behind the prefix `p`.
pub fn strip_prefix(s: &str, p: &str) -> (r: Option<String>)
    ensures
        opt_view(r) == without_prefix(s@, p@),
{
    if starts_with(s, p) {
        let a = to_chars(s);
        let b = to_chars(p);
        let out = slice_text(&a, b.len(), a.len());
        proof {
            assert(out@ =~= s@.skip(p@.len() as int));
        }
        Some(out)
    } else {
        None
    }
}

/// What is left of `s` before the suffix `p`.
pub fn strip_suffix(s: &str, p: &str) -> (r: Option<String>)
    ensures
        opt_view(r) == without_suffix(s@, p@),
{
    if ends_with(s, p) {
        let a = to_chars(s);
        let b = to_chars(p);
        let out = slice_text(&a, 0, a.len() - b.len());
        proof {
            assert(out@ =~= s@.take(s@.len() - p@.len()));
        }
        Some(out)
    } else {
        None
    }
}

/// The first place in `s` that holds `c`.
pub open spec fn position(s: Seq<char>, c: char) -> Option<nat>
    decreases s.len(),
{
    if s.len() == 0 {
        None
    } else if s[0] == c {
        Some(0)
    } else {
        match position(s.drop_first(), c) {
            Some(i) => Some(i + 1),
            None => None,
        }
    }
}

/// The last place in `s` that holds `c`.
pub open spec fn last_position(s: Seq<char>, c: char) -> Option<nat>
    decreases s.len(),
{
    if s.len() == 0 {
        None
    } else if s.last() == c {
        Some((s.len() - 1) as nat)
    } else {
        last_position(s.drop_last(), c)
    }
}

/// What `position` finds is the least place that holds `c`.
pub proof fn lemma_position(s: Seq<char>, c: char)
    ensures
        match position(s, c) {
            Some(i) => i < s.len() && s[i as int] == c && (forall|j: int|
                0 <= j < i ==> s[j] != c),
            None => forall|j: int| 0 <= j < s.len() ==> s[j] != c,
        },
    decreases s.len(),
{
    if s.len() > 0 && s[0] != c {
        lemma_position(s.drop_first(), c);
        assert forall|j: int| 0 < j < s.len() implies s[j] == s.drop_first()[j - 1] by {}
    }
}

/// What `last_position` finds is the greatest place that holds `c`.
pub proof fn lemma_last_position(s: Seq<char>, c: char)
    ensures
        match last_position(s, c) {
            Some(i) => i < s.len() && s[i as int] == c && (forall|j: int|
                i < j < s.len() ==> s[j] != c),
            None => forall|j: int| 0 <= j < s.len() ==> s[j] != c,
        },
    decreases s.len(),
{
    if s.len() > 0 && s.last() != c {
        lemma_last_position(s.drop_last(), c);
        assert forall|j: int| 0 <= j < s.len() - 1 implies s[j] == s.drop_last()[j] by {}
    }
}

/// A least place that holds `c` is what `position` finds.
pub proof fn lemma_position_is(s: Seq<char>, c: char, i: int)
    requires
        0 <= i < s.len(),
        s[i] == c,
        forall|j: int| 0 <= j < i ==> s[j] != c,
    ensures
        position(s, c) == Some(i as nat),
{
    lemma_position(s, c);
}

/// The first place in `chars` that holds `c`.
pub fn find(chars: &[char], c: char) -> (r: Option<usize>)
    ensures
        match r {
            Some(i) => position(chars@, c) == Some(i as nat) && i < chars@.len() && i < usize::MAX,
            None => position(chars@, c) is None,
        },
{
    let mut i: usize = 0;
    proof {
        lemma_position(chars@, c);
    }
    while i < chars.len()
        invariant
            i <= chars@.len(),
            forall|j: int| 0 <= j < i ==> chars@[j] != c,
            match position(chars@, c) {
                Some(k) => k < chars@.len() && chars@[k as int] == c && (forall|j: int|
                    0 <= j < k ==> chars@[j] != c),
                None => forall|j: int| 0 <= j < chars@.len() ==> chars@[j] != c,
            },
        decreases chars@.len() - i,
    {
        if chars[i] == c {
            return Some(i);
        }
        i += 1;
    }
    None
}

/// The last place in `chars` that holds `c`.
pub fn rfind(chars: &[char], c: char) -> (r: Option<usize>)
    ensures
        match r {
            Some(i) => last_position(chars@, c) == Some(i as nat) && i < chars@.len() && i
                < usize::MAX,
            None => last_position(chars@, c) is None,
        },
{
    let mut i: usize = chars.len();
    proof {
        lemma_last_position(chars@, c);
    }
    while i > 0
        invariant
            i <= chars@.len(),
            forall|j: int| i <= j < chars@.len() ==> chars@[j] != c,
            match last_position(chars@, c) {
                Some(k) => k < chars@.len() && chars@[k as int] == c && (forall|j: int|
                    k < j < chars@.len() ==> chars@[j] != c),
                None => forall|j: int| 0 <= j < chars@.len() ==> chars@[j] != c,
            },
        decreases i,
    {
        i -= 1;
        if chars[i] == c {
            return Some(i);
        }
    }
    None
}

/// Whether `s` holds the character `c`.
pub fn contains_char(s: &str, c: char) -> (r: bool)
    ensures
        r == s@.contains(c),
{
    let a = to_chars(s);
    proof {
        lemma_position(s@, c);
    }
    find(&a, c).is_some()
}

/// The pieces of `s` between the occurrences of `c`.
pub open spec fn split_on(s: Seq<char>, c: char) -> Seq<Seq<char>>
    decreases s.len(),
    via split_on_decreases
{
    match position(s, c) {
        None => seq![s],
        Some(i) => seq![s.take(i as int)] + split_on(s.skip(i as int + 1), c),
    }
}

#[via_fn]
proof fn split_on_decreases(s: Seq<char>, c: char) {
    lemma_position(s, c);
}

/// The pieces of `s` between the occurrences of `c`.
pub fn split(s: &str, c: char) -> (r: Vec<String>)
    ensures
        list_view(r@) == split_on(s@, c),
{
    let a = to_chars(s);
    let mut out: Vec<String> = Vec::new();
    let mut from: usize = 0;
    let mut more = true;
    proof {
        assert(s@.skip(0) =~= s@);
        assert(list_view(out@) + split_on(s@.skip(0), c) =~= split_on(s@, c));
    }
    while more
        invariant
            from <= a@.len(),
            a@ == s@,
            more ==> list_view(out@) + split_on(s@.skip(from as int), c) == split_on(s@, c),
            !more ==> list_view(out@) == split_on(s@, c),
        decreases a@.len() - from, (if more { 1int } else { 0int }),
    {
        let tail = vstd::slice::slice_subrange(a.as_slice(), from, a.len());
        let ghost rest = s@.skip(from as int);
        proof {
            assert(tail@ =~= rest);
            lemma_position(rest, c);
        }
        let ghost before = list_view(out@);
        match find(tail, c) {
            Some(i) => {
                let piece = slice_text(tail, 0, i);
                let ghost piece_view = piece@;
                out.push(piece);
                proof {
                    assert(piece_view =~= rest.take(i as int));
                    assert(rest.skip(i + 1) =~= s@.skip(from + i + 1));
                    assert(list_view(out@) =~= before.push(piece_view));
                    assert(list_view(out@) + split_on(s@.skip(from + i + 1), c) =~= before + (
                    seq![rest.take(i as int)] + split_on(rest.skip(i + 1), c)));
                }
                from = from + i + 1;
            },
            None => {
                let piece = slice_text(tail, 0, tail.len());
                let ghost piece_view = piece@;
                out.push(piece);
                proof {
                    assert(piece_view =~= rest);
                    assert(list_view(out@) =~= before.push(piece_view));
                    assert(list_view(out@) =~= before + seq![rest]);
                }
                more = false;
            },
        }
    }
    out
}

/// Whether `b` is a character that `trim` takes away: the Unicode property
/// White_Space.
pub open spec fn is_white(c: char) -> bool {
    let u = c as u32;
    ||| 9 <= u <= 13
    ||| u == 32
    ||| u == 0x85
    ||| u == 0xa0
    ||| u == 0x1680
    ||| 0x2000 <= u <= 0x200a
    ||| u == 0x2028
    ||| u == 0x2029
    ||| u == 0x202f
    ||| u == 0x205f
    ||| u == 0x3000
}

/// Whether `c` is white space.
pub fn white(c: char) -> (r: bool)
    ensures
        r == is_white(c),
{
    let u: u32 = c as u32;
    (9 <= u && u <= 13) || u == 32 || u == 0x85 || u == 0xa0 || u == 0x1680 || (0x2000 <= u && u
        <= 0x200a) || u == 0x2028 || u == 0x2029 || u == 0x202f || u == 0x205f || u == 0x3000
}

/// `s` without the white space it begins with.
pub open spec fn trimmed_start(s: Seq<char>) -> Seq<char>
    decreases s.len(),
{
    if s.len() > 0 && is_white(s[0]) {
        trimmed_start(s.drop_first())
    } else {
        s
    }
}

/// `s` without the white space it ends with.
pub open spec fn trimmed_end(s: Seq<char>) -> Seq<char>
    decreases s.len(),
{
    if s.len() > 0 && is_white(s.last()) {
        trimmed_end(s.drop_last())
    } else {
        s
    }
}

/// `s` without the white space at its two ends.
pub open spec fn trimmed(s: Seq<char>) -> Seq<char> {
    trimmed_end(trimmed_start(s))
}

/// `s` without the white space at its two ends.
pub fn trim(s: &str) -> (r: String)
    ensures
        r@ == trimmed(s@),
{
    let a = to_chars(s);
    let mut from: usize = 0;
    proof {
        assert(s@.skip(0) =~= s@);
    }
    while from < a.len() && white(a[from])
        invariant
            from <= a@.len(),
            a@ == s@,
            trimmed_start(s@.skip(from as int)) == trimmed_start(s@),
        decreases a@.len() - from,
    {
        proof {
            assert(s@.skip(from as int).drop_first() =~= s@.skip(from + 1));
        }
        from += 1;
    }
    let ghost head = s@.skip(from as int);
    assert(trimmed_start(s@) == head);
    let mut to: usize = a.len();
    proof {
        assert(s@.subrange(from as int, to as int) =~= head);
    }
    while to > from && white(a[to - 1])
        invariant
            from <= to <= a@.len(),
            a@ == s@,
            trimmed_end(s@.subrange(from as int, to as int)) == trimmed_end(head),
        decreases to,
    {
        proof {
            assert(s@.subrange(from as int, to as int).drop_last() =~= s@.subrange(
                from as int,
                to - 1,
            ));
        }
        to -= 1;
    }
    slice_text(&a, from, to)
}

/// `s` without every `c` it ends with.
pub open spec fn trimmed_end_of(s: Seq<char>, c: char) -> Seq<char>
    decreases s.len(),
{
    if s.len() > 0 && s.last() == c {
        trimmed_end_of(s.drop_last(), c)
    } else {
        s
    }
}

/// `s` without every `c` it ends with.
pub fn trim_end_of(s: &str, c: char) -> (r: String)
    ensures
        r@ == trimmed_end_of(s@, c),
{
    let a = to_chars(s);
    let mut to: usize = a.len();
    proof {
        assert(s@.take(to as int) =~= s@);
    }
    while to > 0 && a[to - 1] == c
        invariant
            to <= a@.len(),
            a@ == s@,
            trimmed_end_of(s@.take(to as int), c) == trimmed_end_of(s@, c),
        decreases to,
    {
        proof {
            assert(s@.take(to as int).drop_last() =~= s@.take(to - 1));
        }
        to -= 1;
    }
    let out = slice_text(&a, 0, to);
    proof {
        assert(out@ =~= s@.take(to as int));
    }
    out
}

/// The ASCII lower case of a character; other characters stay.
pub open spec fn lower_char(c: char) -> char {
    if 'A' <= c <= 'Z' {
        ((c as u32 + 32) as u32) as char
    } else {
        c
    }
}

/// The ASCII lower case of a text.
pub open spec fn lowered(s: Seq<char>) -> Seq<char> {
    s.map_values(|c: char| lower_char(c))
}

fn to_lower(c: char) -> (r: char)
    ensures
        r == lower_char(c),
{
    if 'A' <= c && c <= 'Z' {
        (c as u8 + 32) as char
    } else {
        c
    }
}

/// The ASCII lower case of a text.
pub fn to_ascii_lowercase(s: &str) -> (r: String)
    ensures
        r@ == lowered(s@),
{
    let a = to_chars(s);
    let mut out = String::new();
    let mut i: usize = 0;
    while i < a.len()
        invariant
            i <= a@.len(),
            a@ == s@,
            out@ == lowered(s@.take(i as int)),
        decreases a@.len() - i,
    {
        out.push(to_lower(a[i]));
        i += 1;
        proof {
            assert(lowered(s@.take(i as int)) =~= lowered(s@.take(i - 1)).push(
                lower_char(s@[i - 1]),
            ));
        }
    }
    proof {
        assert(s@.take(s@.len() as int) =~= s@);
    }
    out
}

/// The texts of `v` one after the other, with `sep` between them.
pub open spec fn joined(v: Seq<Seq<char>>, sep: Seq<char>) -> Seq<char>
    decreases v.len(),
{
    if v.len() == 0 {
        Seq::empty()
    } else if v.len() == 1 {
        v[0]
    } else {
        joined(v.drop_last(), sep) + sep + v.last()
    }
}

/// The texts of `v` one after the other, with `sep` between them.
pub fn join(v: &[String], sep: &str) -> (r: String)
    ensures
        r@ == joined(list_view(v@), sep@),
{
    let mut out = String::new();
    let mut i: usize = 0;
    while i < v.len()
        invariant
            i <= v@.len(),
            out@ == joined(list_view(v@.take(i as int)), sep@),
        decreases v@.len() - i,
    {
        if i > 0 {
            out.append(sep);
        }
        let ghost before = out@;
        out.append(v[i].as_str());
        i += 1;
        proof {
            let now = list_view(v@.take(i as int));
            assert(now.drop_last() =~= list_view(v@.take(i - 1)));
            assert(now.last() == v@[i - 1]@);
            if i == 1 {
                assert(out@ =~= v@[0]@);
            }
        }
    }
    proof {
        assert(v@.take(v@.len() as int) =~= v@);
    }
    out
}

/// The first place in `s` where `p` stands.
pub open spec fn text_position(s: Seq<char>, p: Seq<char>) -> Option<nat>
    decreases s.len(),
{
    if p.is_prefix_of(s) {
        Some(0)
    } else if s.len() == 0 {
        None
    } else {
        match text_position(s.drop_first(), p) {
            Some(i) => Some(i + 1),
            None => None,
        }
    }
}

/// What `text_position` finds fits into the text.
pub proof fn lemma_text_position(s: Seq<char>, p: Seq<char>)
    ensures
        text_position(s, p) matches Some(i) ==> i + p.len() <= s.len(),
    decreases s.len(),
{
    if !p.is_prefix_of(s) && s.len() > 0 {
        lemma_text_position(s.drop_first(), p);
    }
}

/// The first place in `s` where `p` stands.
pub fn find_text(s: &[char], p: &[char]) -> (r: Option<usize>)
    ensures
        match r {
            Some(i) => text_position(s@, p@) == Some(i as nat) && i + p@.len() <= s@.len(),
            None => text_position(s@, p@) is None,
        },
{
    let mut i: usize = 0;
    proof {
        assert(s@.skip(0) =~= s@);
        lemma_text_position(s@, p@);
    }
    loop
        invariant
            i <= s@.len(),
            match text_position(s@.skip(i as int), p@) {
                Some(k) => text_position(s@, p@) == Some((k + i) as nat),
                None => text_position(s@, p@) is None,
            },
        decreases s@.len() - i,
    {
        let ghost rest = s@.skip(i as int);
        if p.len() <= s.len() - i && same_at(s, i, p) {
            proof {
                assert(rest.subrange(0, p@.len() as int) =~= s@.subrange(
                    i as int,
                    i + p@.len(),
                ));
                assert(p@.is_prefix_of(rest));
            }
            return Some(i);
        }
        proof {
            if p@.is_prefix_of(rest) {
                assert(rest.subrange(0, p@.len() as int) =~= s@.subrange(
                    i as int,
                    i + p@.len(),
                ));
            }
        }
        if i == s.len() {
            return None;
        }
        proof {
            assert(rest.drop_first() =~= s@.skip(i + 1));
        }
        i += 1;
    }
}

/// `s` without its white space.
pub open spec fn without_white(s: Seq<char>) -> Seq<char>
    decreases s.len(),
{
    if s.len() == 0 {
        Seq::empty()
    } else if is_white(s.last()) {
        without_white(s.drop_last())
    } else {
        without_white(s.drop_last()).push(s.last())
    }
}

/// `s` without its white space.
pub fn drop_white(s: &[char]) -> (r: String)
    ensures
        r@ == without_white(s@),
{
    let mut out = String::new();
    let mut i: usize = 0;
    while i < s.len()
        invariant
            i <= s@.len(),
            out@ == without_white(s@.take(i as int)),
        decreases s@.len() - i,
    {
        proof {
            assert(s@.take(i + 1).drop_last() =~= s@.take(i as int));
            assert(s@.take(i + 1).last() == s@[i as int]);
        }
        if !white(s[i]) {
            out.push(s[i]);
        }
        i += 1;
    }
    proof {
        assert(s@.take(s@.len() as int) =~= s@);
    }
    out
}

/// The text that bytes encode in UTF-8.
pub open spec fn utf8_text(b: Seq<u8>) -> Option<Seq<char>> {
    if vstd::utf8::valid_utf8(b) {
        Some(vstd::utf8::decode_utf8(b))
    } else {
        None
    }
}

/// What `String::from_utf8_lossy` makes of bytes.
pub uninterp spec fn lossy_text(b: Seq<u8>) -> Seq<char>;

/// What `std::str::from_utf8` says of bytes that are not UTF-8.
pub uninterp spec fn utf8_error(b: Seq<u8>) -> Seq<char>;

/// `std::str::from_utf8`: the text that the bytes encode, where they are UTF-8, or
/// the text of its error.
#[verifier::external_body]
fn outside_utf8(b: &[u8]) -> (r: Result<String, String>)
    ensures
        match r {
            Ok(s) => utf8_text(b@) == Some(s@),
            Err(e) => utf8_text(b@) is None && e@ == utf8_error(b@),
        },
{
    std::str::from_utf8(b).map(|s| s.to_string()).map_err(|e| e.to_string())
}

/// `String::from_utf8_lossy`: the text that the bytes encode, with replacement
/// characters where they are not UTF-8.
#[verifier::external_body]
fn outside_lossy(b: &[u8]) -> (r: String)
    ensures
        r@ == lossy_text(b@),
        vstd::utf8::valid_utf8(b@) ==> r@ == vstd::utf8::decode_utf8(b@),
{
    String::from_utf8_lossy(b).into_owned()
}

/// The text that bytes encode in UTF-8.
pub fn from_utf8(b: &[u8]) -> (r: Option<String>)
    ensures
        opt_view(r) == utf8_text(b@),
{
    match outside_utf8(b) {
        Ok(s) => Some(s),
        Err(_) => None,
    }
}

/// The text that bytes encode in UTF-8, or what is wrong with them.
pub fn utf8_or_why(b: &[u8]) -> (r: Result<String, String>)
    ensures
        match r {
            Ok(s) => utf8_text(b@) == Some(s@),
            Err(e) => utf8_text(b@) is None && e@ == utf8_error(b@),
        },
{
    outside_utf8(b)
}

/// The text that bytes encode, with replacement characters where they are not
/// UTF-8.
pub fn from_utf8_lossy(b: &[u8]) -> (r: String)
    ensures
        r@ == lossy_text(b@),
        vstd::utf8::valid_utf8(b@) ==> r@ == vstd::utf8::decode_utf8(b@),
{
    outside_lossy(b)
}

// --------------------------------------------------------- in a message

/// A hexadecimal digit.
pub open spec fn hex_digit(n: int) -> char {
    if n < 10 {
        (n + 48) as char
    } else {
        (n + 87) as char
    }
}

/// A number below 256 in hexadecimal, without leading zeros.
pub open spec fn hex_text(n: int) -> Seq<char> {
    if n < 16 {
        seq![hex_digit(n)]
    } else {
        seq![hex_digit(n / 16), hex_digit(n % 16)]
    }
}

/// How `char::escape_debug` shows a character.
pub uninterp spec fn escaped_char(c: char) -> Seq<char>;

/// How a character is shown between quotation marks.
pub open spec fn shown_char(c: char) -> Seq<char> {
    if c == '"' || c == '\\' {
        seq!['\\', c]
    } else if c == '\n' {
        seq!['\\', 'n']
    } else if c == '\r' {
        seq!['\\', 'r']
    } else if c == '\t' {
        seq!['\\', 't']
    } else if c == '\0' {
        seq!['\\', '0']
    } else if c < ' ' || c == '\u{7f}' {
        seq!['\\', 'u', '{'] + hex_text(c as int) + seq!['}']
    } else if c <= '\u{7f}' {
        seq![c]
    } else {
        escaped_char(c)
    }
}

/// How characters are shown between quotation marks.
pub open spec fn shown_chars(s: Seq<char>) -> Seq<char>
    decreases s.len(),
{
    if s.len() == 0 {
        Seq::empty()
    } else {
        shown_chars(s.drop_last()) + shown_char(s.last())
    }
}

/// A text in a message, as Rust's debug form has it: between quotation marks, with
/// escapes for what would not be seen.
pub open spec fn shown(s: Seq<char>) -> Seq<char> {
    seq!['"'] + shown_chars(s) + seq!['"']
}

fn hex(n: u8) -> (r: char)
    requires
        n < 16,
    ensures
        r == hex_digit(n as int),
{
    if n < 10 {
        (n + 48) as char
    } else {
        (n + 87) as char
    }
}

/// `char::escape_debug`: the character, or its escape where it cannot be printed
/// or would join the one before it.
#[verifier::external_body]
fn outside_escape(c: char) -> (r: String)
    ensures
        r@ == escaped_char(c),
{
    c.escape_debug().to_string()
}

fn show_char(out: &mut String, c: char)
    ensures
        final(out)@ == old(out)@ + shown_char(c),
{
    let ghost before = out@;
    if c == '"' || c == '\\' {
        out.push('\\');
        out.push(c);
    } else if c == '\n' {
        out.push('\\');
        out.push('n');
    } else if c == '\r' {
        out.push('\\');
        out.push('r');
    } else if c == '\t' {
        out.push('\\');
        out.push('t');
    } else if c == '\0' {
        out.push('\\');
        out.push('0');
    } else if c < ' ' || c == '\u{7f}' {
        let n: u8 = (c as u32) as u8;
        out.push('\\');
        out.push('u');
        out.push('{');
        if n >= 16 {
            out.push(hex(n / 16));
        }
        out.push(hex(n % 16));
        out.push('}');
    } else if c <= '\u{7f}' {
        out.push(c);
    } else {
        out.append(outside_escape(c).as_str());
    }
    proof {
        assert(out@ =~= before + shown_char(c));
    }
}

/// Shows a text in a message.
pub fn show(s: &str) -> (r: String)
    ensures
        r@ == shown(s@),
{
    let a = to_chars(s);
    let mut out = String::new();
    out.push('"');
    let mut i: usize = 0;
    while i < a.len()
        invariant
            i <= a@.len(),
            out@ == seq!['"'] + shown_chars(a@.take(i as int)),
        decreases a@.len() - i,
    {
        show_char(&mut out, a[i]);
        i += 1;
        proof {
            assert(a@.take(i as int).drop_last() =~= a@.take(i - 1));
            assert(out@ =~= seq!['"'] + shown_chars(a@.take(i as int)));
        }
    }
    out.push('"');
    proof {
        assert(a@.take(a@.len() as int) =~= a@);
        assert(out@ =~= shown(s@));
    }
    out
}

/// Reading the UTF-8 bytes of a text gives the text back.
pub proof fn lemma_utf8_round_trip(s: Seq<char>)
    ensures
        utf8_text(vstd::utf8::encode_utf8(s)) == Some(s),
{
    vstd::utf8::encode_utf8_valid_utf8(s);
    vstd::utf8::encode_utf8_decode_utf8(s);
}

/// A prefix or a suffix is taken away exactly where it stands, and what is left is
/// the rest.
pub proof fn law_stripping(a: Seq<char>, b: Seq<char>, s: Seq<char>, p: Seq<char>)
    ensures
        without_prefix(a + b, a) == Some(b),
        without_suffix(a + b, b) == Some(a),
        without_prefix(s, p) matches Some(rest) ==> s == p + rest,
        without_suffix(s, p) matches Some(rest) ==> s == rest + p,
        without_prefix(s, p) is None ==> !p.is_prefix_of(s),
        without_suffix(s, p) is None ==> !p.is_suffix_of(s),
{
    assert(a.is_prefix_of(a + b));
    assert((a + b).skip(a.len() as int) =~= b);
    assert((a + b).subrange(a.len() as int, (a + b).len() as int) =~= b);
    assert((a + b).take((a + b).len() - b.len()) =~= a);
    if let Some(rest) = without_prefix(s, p) {
        assert(s =~= p + rest);
    }
    if let Some(rest) = without_suffix(s, p) {
        assert(s =~= rest + p);
    }
}

/// Splitting ends a piece at every separator, and nowhere else.
pub proof fn law_splitting(a: Seq<char>, b: Seq<char>, c: char)
    requires
        !a.contains(c),
    ensures
        split_on(a, c) == seq![a],
        split_on(a.push(c) + b, c) == seq![a] + split_on(b, c),
{
    lemma_position(a, c);
    if let Some(i) = position(a, c) {
        assert(a.contains(a[i as int]));
    }
    let s = a.push(c) + b;
    assert(s[a.len() as int] == c);
    assert forall|j: int| 0 <= j < a.len() implies s[j] != c by {
        assert(s[j] == a[j]);
        assert(a.contains(a[j]));
    }
    lemma_position_is(s, c, a.len() as int);
    assert(s.take(a.len() as int) =~= a);
    assert(s.skip(a.len() as int + 1) =~= b);
}

/// Joining puts the separator between two texts, and nowhere else.
pub proof fn law_joining(v: Seq<Seq<char>>, t: Seq<char>, sep: Seq<char>)
    ensures
        joined(Seq::empty(), sep).len() == 0,
        joined(seq![t], sep) == t,
        v.len() > 0 ==> joined(v.push(t), sep) == joined(v, sep) + sep + t,
{
    assert(v.push(t).drop_last() =~= v);
}

/// Trimming takes white space from both ends and leaves everything else.
pub proof fn law_trimming(s: Seq<char>, c: char)
    ensures
        s.len() == 0 || (!is_white(s[0]) && !is_white(s.last())) ==> trimmed(s) == s,
        is_white(c) ==> trimmed_start(seq![c] + s) == trimmed_start(s) && trimmed_end(s.push(c))
            == trimmed_end(s),
        !is_white(c) ==> trimmed_end(s.push(c)) == s.push(c),
        !is_white(c) ==> trimmed_start(seq![c] + s) == seq![c] + s,
        trimmed(s) == trimmed_end(trimmed_start(s)),
        is_white(' ') && is_white('\t') && is_white('\n') && is_white('\r'),
        '!' <= c <= '~' ==> !is_white(c),
{
    assert((seq![c] + s).drop_first() =~= s);
    assert(s.push(c).drop_last() =~= s);
}

/// What is trimmed of one character ends with another.
pub proof fn law_trimming_one(s: Seq<char>, c: char)
    ensures
        trimmed_end_of(s.push(c), c) == trimmed_end_of(s, c),
        s.len() == 0 || s.last() != c ==> trimmed_end_of(s, c) == s,
        trimmed_end_of(s, c).len() > 0 ==> trimmed_end_of(s, c).last() != c,
    decreases s.len(),
{
    assert(s.push(c).drop_last() =~= s);
    if s.len() > 0 && s.last() == c {
        law_trimming_one(s.drop_last(), c);
    }
}

/// Lower case changes the capital letters, each to its own, and nothing else.
pub proof fn law_lower_case(s: Seq<char>, i: int)
    requires
        0 <= i < s.len(),
    ensures
        lowered(s).len() == s.len(),
        'A' <= s[i] <= 'Z' ==> lowered(s)[i] as u32 == s[i] as u32 + 32,
        !('A' <= s[i] <= 'Z') ==> lowered(s)[i] == s[i],
{
}

/// A text is found at its first place.
pub proof fn law_text_found(s: Seq<char>, p: Seq<char>)
    ensures
        text_position(s, p) matches Some(i) ==> i + p.len() <= s.len() && s.subrange(
            i as int,
            (i + p.len()) as int,
        ) == p,
        p.is_prefix_of(s) ==> text_position(s, p) == Some(0nat),
        text_position(s, p) is None ==> forall|i: int|
            0 <= i <= s.len() - p.len() ==> #[trigger] s.subrange(i, i + p.len()) != p,
    decreases s.len(),
{
    if p.is_prefix_of(s) {
        assert(s.subrange(0, p.len() as int) =~= p);
    } else if s.len() > 0 {
        let rest = s.drop_first();
        law_text_found(rest, p);
        if let Some(i) = text_position(rest, p) {
            assert(s.subrange(i as int + 1, i as int + 1 + p.len()) =~= rest.subrange(
                i as int,
                i as int + p.len(),
            ));
        } else {
            assert forall|i: int| 0 <= i <= s.len() - p.len() implies #[trigger] s.subrange(
                i,
                i + p.len(),
            ) != p by {
                if i > 0 {
                    assert(s.subrange(i, i + p.len()) =~= rest.subrange(i - 1, i - 1 + p.len()));
                } else if s.subrange(0, p.len() as int) == p {
                    assert(p.is_prefix_of(s));
                }
            }
        }
    }
}

/// Dropping white space keeps every other character, in order.
pub proof fn law_without_white(s: Seq<char>, c: char)
    ensures
        without_white(Seq::empty()).len() == 0,
        is_white(c) ==> without_white(s.push(c)) == without_white(s),
        !is_white(c) ==> without_white(s.push(c)) == without_white(s).push(c),
{
    assert(s.push(c).drop_last() =~= s);
}

/// Bytes are a text exactly where they encode one.
pub proof fn law_utf8_text(s: Seq<char>)
    ensures
        utf8_text(vstd::utf8::encode_utf8(s)) == Some(s),
{
    vstd::utf8::encode_utf8_valid_utf8(s);
    vstd::utf8::encode_utf8_decode_utf8(s);
}

/// In a message a text stands between quotation marks, character by character;
/// printable ASCII as it is but for quotation marks and backslashes.
pub proof fn law_shown(s: Seq<char>, c: char)
    ensures
        shown(s) == seq!['"'] + shown_chars(s) + seq!['"'],
        shown_chars(Seq::empty()).len() == 0,
        ' ' <= c <= '~' && c != '"' && c != '\\' ==> shown_chars(s.push(c)) == shown_chars(s).push(c),
        c == '"' || c == '\\' ==> shown_chars(s.push(c)) == shown_chars(s) + seq!['\\', c],
        shown_chars(s.push('\n')) == shown_chars(s) + seq!['\\', 'n'],
        shown_chars(s.push('\r')) == shown_chars(s) + seq!['\\', 'r'],
        shown_chars(s.push('\t')) == shown_chars(s) + seq!['\\', 't'],
        shown_chars(s.push('\0')) == shown_chars(s) + seq!['\\', '0'],
{
    assert(s.push(c).drop_last() =~= s);
    assert(s.push('\n').drop_last() =~= s);
    assert(s.push('\r').drop_last() =~= s);
    assert(s.push('\t').drop_last() =~= s);
    assert(s.push('\0').drop_last() =~= s);
    assert(shown_chars(s) + seq![c] =~= shown_chars(s).push(c));
}

/// A character that cannot be seen is shown by its number in hexadecimal.
pub proof fn law_shown_number(n: int)
    requires
        0 <= n < 256,
    ensures
        n < 10 ==> hex_text(n) == seq![('0' as int + n) as char],
        10 <= n < 16 ==> hex_text(n) == seq![('a' as int + (n - 10)) as char],
        n >= 16 ==> hex_text(n) == hex_text(n / 16) + hex_text(n % 16),
        shown_char('\u{7f}') == seq!['\\', 'u', '{'] + hex_text(0x7f) + seq!['}'],
{
    if n >= 16 {
        assert(hex_text(n) =~= hex_text(n / 16) + hex_text(n % 16));
    }
}

} // verus!
