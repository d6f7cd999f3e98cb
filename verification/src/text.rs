//! Text operations on sequences of characters: trimming, splitting,
//! searching, replacing, and decimal numbers.

use vstd::prelude::*;

verus! {

/// `String::push` appends one character.
pub assume_specification[ String::push ](s: &mut String, c: char)
    ensures
        final(s)@ == old(s)@.push(c),
;

// ---------------------------------------------------------------------
// Models
// ---------------------------------------------------------------------

/// The characters with the Unicode property `White_Space`.
pub open spec fn is_white(c: char) -> bool {
    ||| '\u{9}' <= c <= '\u{d}'
    ||| c == ' '
    ||| c == '\u{85}'
    ||| c == '\u{a0}'
    ||| c == '\u{1680}'
    ||| '\u{2000}' <= c <= '\u{200a}'
    ||| c == '\u{2028}'
    ||| c == '\u{2029}'
    ||| c == '\u{202f}'
    ||| c == '\u{205f}'
    ||| c == '\u{3000}'
}

/// `s` without its leading white space.
pub open spec fn trimmed_start(s: Seq<char>) -> Seq<char>
    decreases s.len(),
{
    if s.len() > 0 && is_white(s[0]) {
        trimmed_start(s.skip(1))
    } else {
        s
    }
}

/// `s` without its trailing white space.
pub open spec fn trimmed_end(s: Seq<char>) -> Seq<char>
    decreases s.len(),
{
    if s.len() > 0 && is_white(s.last()) {
        trimmed_end(s.drop_last())
    } else {
        s
    }
}

/// `s` without white space at either end.
pub open spec fn trimmed(s: Seq<char>) -> Seq<char> {
    trimmed_end(trimmed_start(s))
}

/// `s` without the run of `c` at its end.
pub open spec fn without_trailing(s: Seq<char>, c: char) -> Seq<char>
    decreases s.len(),
{
    if s.len() > 0 && s.last() == c {
        without_trailing(s.drop_last(), c)
    } else {
        s
    }
}

/// Whether `s` begins with `prefix`.
pub open spec fn has_prefix(s: Seq<char>, prefix: Seq<char>) -> bool {
    prefix.len() <= s.len() && s.take(prefix.len() as int) == prefix
}

/// Whether `s` ends with `suffix`.
pub open spec fn has_suffix(s: Seq<char>, suffix: Seq<char>) -> bool {
    suffix.len() <= s.len() && s.skip(s.len() - suffix.len()) == suffix
}

/// Whether `part` occurs somewhere in `s`.
pub open spec fn has_part(s: Seq<char>, part: Seq<char>) -> bool {
    exists|i: int| 0 <= i <= s.len() && has_prefix(#[trigger] s.skip(i), part)
}

/// `s` with each occurrence of `from`, found left to right and without
/// overlap, replaced by `to`.
pub open spec fn replaced(s: Seq<char>, from: Seq<char>, to: Seq<char>) -> Seq<char>
    decreases s.len(),
{
    if from.len() == 0 || s.len() < from.len() {
        s
    } else if has_prefix(s, from) {
        to + replaced(s.skip(from.len() as int), from, to)
    } else {
        seq![s[0]] + replaced(s.skip(1), from, to)
    }
}

/// What a text is cut at.
#[derive(Clone, Copy)]
pub enum Delimiter {
    /// One character.
    Char(char),
    /// Either of two characters.
    OneOf(char, char),
    /// Any white space.
    White,
}

impl Delimiter {
    /// Whether the text is cut at `c`.
    pub open spec fn cuts(self, c: char) -> bool {
        match self {
            Delimiter::Char(x) => c == x,
            Delimiter::OneOf(x, y) => c == x || c == y,
            Delimiter::White => is_white(c),
        }
    }

    fn test(&self, c: char) -> (b: bool)
        ensures
            b == self.cuts(c),
    {
        match self {
            Delimiter::Char(x) => c == *x,
            Delimiter::OneOf(x, y) => c == *x || c == *y,
            Delimiter::White => is_whitespace(c),
        }
    }
}

/// The pieces of `s` between the characters that `d` cuts at; one piece
/// more than there are such characters.
pub open spec fn pieces(s: Seq<char>, d: Delimiter) -> Seq<Seq<char>>
    decreases s.len(),
{
    if s.len() == 0 {
        seq![Seq::<char>::empty()]
    } else {
        let before = pieces(s.drop_last(), d);
        if d.cuts(s.last()) {
            before.push(Seq::<char>::empty())
        } else {
            before.drop_last().push(before.last().push(s.last()))
        }
    }
}

/// The pieces that are not empty, in their order.
pub open spec fn non_empty_parts(parts: Seq<Seq<char>>) -> Seq<Seq<char>> {
    parts.filter(|p: Seq<char>| p.len() > 0)
}

/// Each piece without the white space around it.
pub open spec fn trimmed_parts(parts: Seq<Seq<char>>) -> Seq<Seq<char>> {
    parts.map_values(|p: Seq<char>| trimmed(p))
}

/// The entries of a comma separated list: trimmed, empty ones left out.
pub open spec fn list_entries(s: Seq<char>) -> Seq<Seq<char>> {
    non_empty_parts(trimmed_parts(pieces(s, Delimiter::Char(','))))
}

/// The words of `s`: its maximal runs without white space.
pub open spec fn words(s: Seq<char>) -> Seq<Seq<char>> {
    non_empty_parts(pieces(s, Delimiter::White))
}

/// `parts` one after the other with `sep` between neighbours.
pub open spec fn joined(parts: Seq<Seq<char>>, sep: Seq<char>) -> Seq<char>
    decreases parts.len(),
{
    if parts.len() == 0 {
        Seq::<char>::empty()
    } else if parts.len() == 1 {
        parts[0]
    } else {
        joined(parts.drop_last(), sep) + sep + parts.last()
    }
}

/// A line without the carriage return before its line feed.
pub open spec fn without_cr(line: Seq<char>) -> Seq<char> {
    if line.len() > 0 && line.last() == '\r' {
        line.drop_last()
    } else {
        line
    }
}

/// The lines of `s`. A line ends at `\n` or `\r\n`; what follows the last
/// line feed is a line only if it is not empty, and keeps a `\r` of its own.
pub open spec fn text_lines(s: Seq<char>) -> Seq<Seq<char>> {
    let parts = pieces(s, Delimiter::Char('\n'));
    let ended = parts.drop_last().map_values(|p: Seq<char>| without_cr(p));
    if parts.last().len() > 0 {
        ended.push(parts.last())
    } else {
        ended
    }
}

/// What the two parts of each pair say.
pub open spec fn pairs(v: Seq<(String, String)>) -> Seq<(Seq<char>, Seq<char>)> {
    v.map_values(|p: (String, String)| (p.0@, p.1@))
}

/// The texts of a vector of strings.
pub open spec fn texts(v: Seq<String>) -> Seq<Seq<char>> {
    v.map_values(|s: String| s@)
}

// ---------------------------------------------------------------------
// Characters and strings
// ---------------------------------------------------------------------

/// Whether `c` is Unicode white space.
pub fn is_whitespace(c: char) -> (b: bool)
    ensures
        b == is_white(c),
{
    ('\u{9}' <= c && c <= '\u{d}') || c == ' ' || c == '\u{85}' || c == '\u{a0}'
        || c == '\u{1680}' || ('\u{2000}' <= c && c <= '\u{200a}') || c == '\u{2028}'
        || c == '\u{2029}' || c == '\u{202f}' || c == '\u{205f}' || c == '\u{3000}'
}

/// The characters of a string.
pub fn chars_of(s: &str) -> (v: Vec<char>)
    ensures
        v@ == s@,
{
    let mut v: Vec<char> = Vec::new();
    for c in it: s.chars()
        invariant
            it.seq() == s@,
            v@ == s@.take(it.index()),
    {
        v.push(c);
    }
    proof {
        assert(s@.take(s@.len() as int) == s@);
    }
    v
}

/// The string of the characters `v[from..to]`.
pub fn string_of(v: &Vec<char>, from: usize, to: usize) -> (s: String)
    requires
        from <= to <= v@.len(),
    ensures
        s@ == v@.subrange(from as int, to as int),
{
    let mut s = String::new();
    let mut i: usize = from;
    while i < to
        invariant
            from <= i <= to <= v@.len(),
            s@ == v@.subrange(from as int, i as int),
        decreases to - i,
    {
        s.push(v[i]);
        i += 1;
    }
    s
}

/// Whether two strings hold the same characters.
pub fn same_text(a: &str, b: &str) -> (r: bool)
    ensures
        r == (a@ == b@),
{
    a.to_owned() == b.to_owned()
}

/// Whether nothing is left of a string once it is trimmed.
pub fn is_blank(s: &str) -> (b: bool)
    ensures
        b == (trimmed(s@).len() == 0),
{
    trim(s).as_str().is_empty()
}

// ---------------------------------------------------------------------
// Trimming
// ---------------------------------------------------------------------

/// The text without white space at either end.
pub fn trim(s: &str) -> (r: String)
    ensures
        r@ == trimmed(s@),
{
    let v = chars_of(s);
    let mut from: usize = 0;
    proof {
        assert(v@.skip(0) == v@);
    }
    while from < v.len() && is_whitespace(v[from])
        invariant
            from <= v@.len(),
            trimmed_start(v@) == trimmed_start(v@.skip(from as int)),
        decreases v@.len() - from,
    {
        proof {
            assert(v@.skip(from as int).skip(1) == v@.skip(from + 1));
        }
        from += 1;
    }
    let ghost rest = v@.skip(from as int);
    let mut to: usize = v.len();
    proof {
        assert(trimmed_start(v@) == rest);
        assert(v@.subrange(from as int, to as int) == rest);
    }
    while from < to && is_whitespace(v[to - 1])
        invariant
            from <= to <= v@.len(),
            trimmed_end(rest) == trimmed_end(v@.subrange(from as int, to as int)),
        decreases to,
    {
        proof {
            assert(v@.subrange(from as int, to as int).drop_last() == v@.subrange(
                from as int,
                to - 1,
            ));
        }
        to -= 1;
    }
    string_of(&v, from, to)
}

/// The text without the run of `c` at its end.
pub fn trim_trailing(s: &str, c: char) -> (r: String)
    ensures
        r@ == without_trailing(s@, c),
{
    let v = chars_of(s);
    let mut to: usize = v.len();
    proof {
        assert(v@.take(to as int) == v@);
    }
    while 0 < to && v[to - 1] == c
        invariant
            to <= v@.len(),
            without_trailing(v@, c) == without_trailing(v@.take(to as int), c),
        decreases to,
    {
        proof {
            assert(v@.take(to as int).drop_last() == v@.take(to - 1));
        }
        to -= 1;
    }
    proof {
        assert(v@.subrange(0, to as int) == v@.take(to as int));
    }
    string_of(&v, 0, to)
}


// ---------------------------------------------------------------------
// Searching and replacing
// ---------------------------------------------------------------------

/// Whether `v[at..]` begins with the characters of `part`.
fn matches_at(v: &Vec<char>, at: usize, part: &Vec<char>) -> (b: bool)
    requires
        at <= v@.len(),
    ensures
        b == has_prefix(v@.skip(at as int), part@),
{
    if part.len() > v.len() - at {
        return false;
    }
    let ghost head = v@.skip(at as int).take(part@.len() as int);
    let mut i: usize = 0;
    while i < part.len()
        invariant
            i <= part@.len(),
            at + part@.len() <= v.len(),
            head == v@.skip(at as int).take(part@.len() as int),
            forall|k: int| 0 <= k < i ==> head[k] == part@[k],
        decreases part@.len() - i,
    {
        if v[at + i] != part[i] {
            assert(head[i as int] != part@[i as int]);
            return false;
        }
        i += 1;
    }
    assert(head == part@);
    true
}

/// Whether `s` ends with `suffix`.
pub fn ends_with(s: &str, suffix: &str) -> (b: bool)
    ensures
        b == has_suffix(s@, suffix@),
{
    let v = chars_of(s);
    let p = chars_of(suffix);
    if p.len() > v.len() {
        return false;
    }
    let at: usize = v.len() - p.len();
    assert(v@.skip(at as int).take(p@.len() as int) == v@.skip(at as int));
    matches_at(&v, at, &p)
}

/// What follows `prefix` in `s`, if `s` begins with it.
pub fn strip_prefix(s: &str, prefix: &str) -> (r: Option<String>)
    ensures
        r is Some <==> has_prefix(s@, prefix@),
        r matches Some(rest) ==> rest@ == s@.skip(prefix@.len() as int),
{
    let v = chars_of(s);
    let p = chars_of(prefix);
    assert(v@.skip(0) == v@);
    if matches_at(&v, 0, &p) {
        let rest = string_of(&v, p.len(), v.len());
        assert(rest@ == s@.skip(prefix@.len() as int));
        Some(rest)
    } else {
        None
    }
}

/// Whether `part` occurs in `s`.
pub fn contains(s: &str, part: &str) -> (b: bool)
    ensures
        b == has_part(s@, part@),
{
    let v = chars_of(s);
    let p = chars_of(part);
    let mut i: usize = 0;
    loop
        invariant
            v@ == s@,
            p@ == part@,
            i <= v@.len(),
            forall|k: int| 0 <= k < i ==> !has_prefix(#[trigger] v@.skip(k), p@),
        decreases v@.len() - i,
    {
        if matches_at(&v, i, &p) {
            return true;
        }
        if i == v.len() {
            return false;
        }
        i += 1;
    }
}

/// The text with every occurrence of `from` replaced by `to`.
pub fn replace(s: &str, from: &str, to: &str) -> (r: String)
    ensures
        r@ == replaced(s@, from@, to@),
{
    let v = chars_of(s);
    let p = chars_of(from);
    let mut out = String::new();
    let mut at: usize = 0;
    assert(v@.skip(0) == v@);
    if p.len() == 0 {
        return s.to_owned();
    }
    while p.len() <= v.len() - at
        invariant
            p@.len() > 0,
            p@ == from@,
            v@ == s@,
            at <= v@.len(),
            replaced(s@, from@, to@) == out@ + replaced(v@.skip(at as int), p@, to@),
        decreases v@.len() - at,
    {
        let ghost rest = v@.skip(at as int);
        if matches_at(&v, at, &p) {
            proof {
                assert(rest.skip(p@.len() as int) == v@.skip(at + p@.len()));
                assert(out@ + (to@ + replaced(v@.skip(at + p@.len()), p@, to@)) == (out@ + to@)
                    + replaced(v@.skip(at + p@.len()), p@, to@));
            }
            out.append(to);
            at += p.len();
        } else {
            proof {
                assert(rest.skip(1) == v@.skip(at + 1));
                assert(out@ + (seq![rest[0]] + replaced(v@.skip(at + 1), p@, to@)) == out@.push(
                    rest[0],
                ) + replaced(v@.skip(at + 1), p@, to@));
            }
            out.push(v[at]);
            at += 1;
        }
    }
    let tail = string_of(&v, at, v.len());
    assert(tail@ == v@.skip(at as int));
    out.append(tail.as_str());
    out
}

// ---------------------------------------------------------------------
// Splitting and joining
// ---------------------------------------------------------------------

/// There is always at least one piece.
pub proof fn lemma_pieces_not_empty(s: Seq<char>, d: Delimiter)
    ensures
        pieces(s, d).len() > 0,
    decreases s.len(),
{
    if s.len() > 0 {
        lemma_pieces_not_empty(s.drop_last(), d);
    }
}

/// The pieces of `s` between the characters that `d` cuts at.
pub fn split(s: &str, d: Delimiter) -> (r: Vec<String>)
    ensures
        texts(r@) == pieces(s@, d),
{
    let v = chars_of(s);
    let mut done: Vec<String> = Vec::new();
    let mut open = String::new();
    let mut i: usize = 0;
    assert(v@.take(0) == Seq::<char>::empty());
    assert(texts(done@).push(open@) == seq![Seq::<char>::empty()]);
    while i < v.len()
        invariant
            i <= v@.len(),
            texts(done@).push(open@) == pieces(v@.take(i as int), d),
        decreases v@.len() - i,
    {
        let ghost before = texts(done@).push(open@);
        proof {
            assert(v@.take(i + 1).drop_last() == v@.take(i as int));
            assert(before.drop_last() == texts(done@));
            assert(before.last() == open@);
        }
        let c = v[i];
        if d.test(c) {
            let ghost earlier = done@;
            done.push(open);
            open = String::new();
            proof {
                assert(texts(done@) == texts(earlier).push(before.last()));
            }
        } else {
            open.push(c);
        }
        i += 1;
    }
    proof {
        assert(v@.take(v@.len() as int) == v@);
        assert(texts(done@.push(open)) == texts(done@).push(open@));
    }
    done.push(open);
    done
}

/// The strings that are not empty, in their order.
pub fn keep_non_empty(parts: &Vec<String>) -> (r: Vec<String>)
    ensures
        texts(r@) == non_empty_parts(texts(parts@)),
{
    let ghost keep = |p: Seq<char>| p.len() > 0;
    let mut r: Vec<String> = Vec::new();
    let mut i: usize = 0;
    assert(texts(parts@).take(0) == Seq::<Seq<char>>::empty());
    assert(texts(r@) == Seq::<Seq<char>>::empty().filter(keep)) by {
        reveal(Seq::filter);
    }
    while i < parts.len()
        invariant
            i <= parts@.len(),
            keep == (|p: Seq<char>| p.len() > 0),
            texts(r@) == texts(parts@).take(i as int).filter(keep),
        decreases parts@.len() - i,
    {
        proof {
            reveal(Seq::filter);
            assert(texts(parts@).take(i + 1).drop_last() == texts(parts@).take(i as int));
            assert(texts(parts@).take(i + 1).last() == parts@[i as int]@);
        }
        if !parts[i].as_str().is_empty() {
            let ghost earlier = r@;
            let part = parts[i].clone();
            r.push(part);
            assert(texts(r@) == texts(earlier).push(part@));
        }
        i += 1;
    }
    assert(texts(parts@).take(parts@.len() as int) == texts(parts@));
    r
}

/// Each string without the white space around it.
pub fn trim_all(parts: &Vec<String>) -> (r: Vec<String>)
    ensures
        texts(r@) == trimmed_parts(texts(parts@)),
{
    let mut r: Vec<String> = Vec::new();
    let mut i: usize = 0;
    while i < parts.len()
        invariant
            i <= parts@.len(),
            r@.len() == i,
            forall|k: int| 0 <= k < i ==> r@[k]@ == trimmed(#[trigger] parts@[k]@),
        decreases parts@.len() - i,
    {
        r.push(trim(parts[i].as_str()));
        i += 1;
    }
    assert(texts(r@) == trimmed_parts(texts(parts@)));
    r
}

/// The entries of a comma separated list.
pub fn split_list(s: &str) -> (r: Vec<String>)
    ensures
        texts(r@) == list_entries(s@),
{
    keep_non_empty(&trim_all(&split(s, Delimiter::Char(','))))
}

/// The words of a text.
pub fn split_words(s: &str) -> (r: Vec<String>)
    ensures
        texts(r@) == words(s@),
{
    keep_non_empty(&split(s, Delimiter::White))
}

/// The strings one after the other with `sep` between neighbours.
pub fn join(parts: &Vec<String>, sep: &str) -> (r: String)
    ensures
        r@ == joined(texts(parts@), sep@),
{
    let mut out = String::new();
    let mut i: usize = 0;
    while i < parts.len()
        invariant
            i <= parts@.len(),
            out@ == joined(texts(parts@).take(i as int), sep@),
        decreases parts@.len() - i,
    {
        let ghost next = texts(parts@).take(i + 1);
        proof {
            assert(next.drop_last() == texts(parts@).take(i as int));
            assert(next.last() == parts@[i as int]@);
        }
        if i > 0 {
            out.append(sep);
        }
        out.append(parts[i].as_str());
        i += 1;
    }
    assert(texts(parts@).take(parts@.len() as int) == texts(parts@));
    out
}

/// The text without a carriage return at its end.
fn strip_cr(s: String) -> (r: String)
    ensures
        r@ == without_cr(s@),
{
    let v = chars_of(s.as_str());
    if v.len() > 0 && v[v.len() - 1] == '\r' {
        let r = string_of(&v, 0, v.len() - 1);
        assert(r@ == s@.drop_last());
        r
    } else {
        s
    }
}

/// The lines of a text.
pub fn split_lines(s: &str) -> (r: Vec<String>)
    ensures
        texts(r@) == text_lines(s@),
{
    let parts = split(s, Delimiter::Char('\n'));
    proof {
        lemma_pieces_not_empty(s@, Delimiter::Char('\n'));
    }
    let ghost all = pieces(s@, Delimiter::Char('\n'));
    let last: usize = parts.len() - 1;
    let mut r: Vec<String> = Vec::new();
    let mut i: usize = 0;
    while i < last
        invariant
            i <= last,
            last == parts@.len() - 1,
            r@.len() == i,
            forall|k: int| 0 <= k < i ==> r@[k]@ == without_cr(#[trigger] parts@[k]@),
        decreases last - i,
    {
        r.push(strip_cr(parts[i].clone()));
        i += 1;
    }
    let ghost ended = all.drop_last().map_values(|p: Seq<char>| without_cr(p));
    proof {
        assert(texts(parts@)[last as int] == parts@[last as int]@);
        assert(texts(r@) == ended);
    }
    if !parts[last].as_str().is_empty() {
        let ghost earlier = r@;
        let tail = parts[last].clone();
        r.push(tail);
        assert(texts(r@) == texts(earlier).push(tail@));
    }
    r
}

// ---------------------------------------------------------------------
// Helpers on optional and repeated texts
// ---------------------------------------------------------------------

/// The text in an optional string.
pub open spec fn opt_text(o: Option<String>) -> Option<Seq<char>> {
    match o {
        Some(s) => Some(s@),
        None => None,
    }
}

/// A copy of an optional string.
pub fn clone_opt(o: &Option<String>) -> (r: Option<String>)
    ensures
        opt_text(r) == opt_text(*o),
{
    match o {
        Some(s) => Some(s.clone()),
        None => None,
    }
}

/// A copy of a list of strings.
pub fn clone_texts(v: &Vec<String>) -> (r: Vec<String>)
    ensures
        texts(r@) == texts(v@),
{
    let mut r: Vec<String> = Vec::new();
    let mut i: usize = 0;
    while i < v.len()
        invariant
            i <= v@.len(),
            r@.len() == i,
            forall|k: int| 0 <= k < i ==> #[trigger] r@[k]@ == v@[k]@,
        decreases v@.len() - i,
    {
        r.push(v[i].clone());
        i += 1;
    }
    assert(texts(r@) == texts(v@));
    r
}

} // verus!
