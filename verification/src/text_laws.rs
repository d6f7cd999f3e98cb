//! Laws of the text operations.

use crate::text;
use crate::text::Delimiter;
use vstd::prelude::*;

verus! {

/// Whether `d` cuts nowhere in `s`.
pub open spec fn uncut(s: Seq<char>, d: Delimiter) -> bool {
    forall|i: int| 0 <= i < s.len() ==> !d.cuts(#[trigger] s[i])
}

/// Text without a cut lengthens the last piece.
pub proof fn lemma_pieces_extend(s: Seq<char>, t: Seq<char>, d: Delimiter)
    requires
        uncut(t, d),
    ensures
        text::pieces(s + t, d) == text::pieces(s, d).drop_last().push(
            text::pieces(s, d).last() + t,
        ),
    decreases t.len(),
{
    text::lemma_pieces_not_empty(s, d);
    let p = text::pieces(s, d);
    if t.len() == 0 {
        assert(s + t == s);
        assert(p.last() + t == p.last());
        assert(p.drop_last().push(p.last()) == p);
    } else {
        let u = t.drop_last();
        assert forall|i: int| 0 <= i < u.len() implies !d.cuts(#[trigger] u[i]) by {
            assert(u[i] == t[i]);
        }
        lemma_pieces_extend(s, u, d);
        assert((s + t).drop_last() == s + u);
        assert((s + t).last() == t[t.len() - 1]);
        let q = p.drop_last().push(p.last() + u);
        assert(q.drop_last() == p.drop_last());
        assert(q.last().push(t.last()) == p.last() + t);
    }
}

/// No piece holds a character that the text is cut at.
pub proof fn law_pieces_are_uncut(s: Seq<char>, d: Delimiter)
    ensures
        forall|i: int| 0 <= i < text::pieces(s, d).len() ==> uncut(#[trigger] text::pieces(s, d)[i], d),
    decreases s.len(),
{
    if s.len() > 0 {
        law_pieces_are_uncut(s.drop_last(), d);
        text::lemma_pieces_not_empty(s.drop_last(), d);
        let before = text::pieces(s.drop_last(), d);
        let after = text::pieces(s, d);
        assert forall|i: int| 0 <= i < after.len() implies uncut(#[trigger] after[i], d) by {
            if i < before.len() - 1 {
                assert(after[i] == before[i]);
            } else if i == before.len() - 1 {
                assert(uncut(before[i], d));
            }
        }
    }
}

/// Joining the pieces with the character that they were cut at gives the
/// text back.
pub proof fn law_split_then_join(s: Seq<char>, c: char)
    ensures
        text::joined(text::pieces(s, Delimiter::Char(c)), seq![c]) == s,
    decreases s.len(),
{
    let d = Delimiter::Char(c);
    let after = text::pieces(s, d);
    if s.len() == 0 {
        assert(text::joined(after, seq![c]) == s);
    } else {
        let before = text::pieces(s.drop_last(), d);
        law_split_then_join(s.drop_last(), c);
        text::lemma_pieces_not_empty(s.drop_last(), d);
        if d.cuts(s.last()) {
            assert(after.drop_last() == before);
            assert(text::joined(after, seq![c]) == s.drop_last() + seq![c]
                + Seq::<char>::empty());
            assert(text::joined(after, seq![c]) == s);
        } else {
            assert(after.drop_last() == before.drop_last());
            if before.len() == 1 {
                assert(after.len() == 1);
                assert(text::joined(after, seq![c]) == s);
            } else {
                assert(text::joined(before, seq![c]) == text::joined(before.drop_last(), seq![c])
                    + seq![c] + before.last());
                assert(after.last() == before.last().push(s.last()));
                assert(text::joined(after, seq![c]) == text::joined(after.drop_last(), seq![c])
                    + seq![c] + after.last());
                assert(text::joined(after, seq![c]) == text::joined(before, seq![c]).push(
                    s.last(),
                ));
                assert(s.drop_last().push(s.last()) == s);
            }
        }
    }
}

proof fn lemma_trimmed_start_ends(s: Seq<char>)
    ensures
        text::trimmed_start(s).len() > 0 ==> !text::is_white(text::trimmed_start(s)[0]),
        text::trimmed_start(s).len() <= s.len(),
    decreases s.len(),
{
    if s.len() > 0 && text::is_white(s[0]) {
        lemma_trimmed_start_ends(s.skip(1));
    }
}

proof fn lemma_trimmed_end_ends(s: Seq<char>)
    ensures
        text::trimmed_end(s).len() > 0 ==> !text::is_white(text::trimmed_end(s).last())
            && text::trimmed_end(s)[0] == s[0],
        text::trimmed_end(s).len() <= s.len(),
    decreases s.len(),
{
    if s.len() > 0 && text::is_white(s.last()) {
        lemma_trimmed_end_ends(s.drop_last());
    }
}

/// A trimmed text neither begins nor ends with white space.
pub proof fn law_trimmed_ends(s: Seq<char>)
    ensures
        text::trimmed(s).len() > 0 ==> !text::is_white(text::trimmed(s)[0]) && !text::is_white(
            text::trimmed(s).last(),
        ),
{
    lemma_trimmed_start_ends(s);
    lemma_trimmed_end_ends(text::trimmed_start(s));
}

/// A text that neither begins nor ends with white space is left as it is.
pub proof fn law_trimmed_fixed(s: Seq<char>)
    requires
        s.len() > 0 ==> !text::is_white(s[0]) && !text::is_white(s.last()),
    ensures
        text::trimmed(s) == s,
{
}

/// Trimming twice is trimming once.
pub proof fn law_trim_idempotent(s: Seq<char>)
    ensures
        text::trimmed(text::trimmed(s)) == text::trimmed(s),
{
    law_trimmed_ends(s);
    law_trimmed_fixed(text::trimmed(s));
}

/// One leading space makes no difference to what trimming leaves.
pub proof fn lemma_trimmed_skips_space(s: Seq<char>)
    ensures
        text::trimmed(seq![' '] + s) == text::trimmed(s),
{
    assert((seq![' '] + s).skip(1) == s);
}

/// A filter that holds of every item keeps them all.
pub proof fn lemma_filter_all<A>(s: Seq<A>, keep: spec_fn(A) -> bool)
    requires
        forall|i: int| 0 <= i < s.len() ==> keep(#[trigger] s[i]),
    ensures
        s.filter(keep) == s,
    decreases s.len(),
{
    reveal(Seq::filter);
    if s.len() > 0 {
        let rest = s.drop_last();
        assert forall|i: int| 0 <= i < rest.len() implies keep(#[trigger] rest[i]) by {
            assert(rest[i] == s[i]);
        }
        lemma_filter_all(rest, keep);
        assert(keep(s[s.len() - 1]));
        assert(rest.push(s.last()) == s);
    } else {
        assert(s.filter(keep) == s);
    }
}

/// The pieces of entries joined with a comma and a space are the entries,
/// all but the first with that space before them.
proof fn lemma_pieces_of_list(parts: Seq<Seq<char>>)
    requires
        parts.len() > 0,
        forall|i: int| 0 <= i < parts.len() ==> uncut(#[trigger] parts[i], Delimiter::Char(',')),
    ensures
        text::pieces(text::joined(parts, ", "@), Delimiter::Char(',')) == Seq::new(
            parts.len(),
            |i: int| if i == 0 { parts[0] } else { seq![' '] + parts[i] },
        ),
    decreases parts.len(),
{
    reveal_strlit(", ");
    let d = Delimiter::Char(',');
    let want = Seq::new(
        parts.len(),
        |i: int| if i == 0 { parts[0] } else { seq![' '] + parts[i] },
    );
    assert(", "@ == seq![',', ' ']);
    if parts.len() == 1 {
        let e = Seq::<char>::empty();
        lemma_pieces_extend(e, parts[0], d);
        assert(e + parts[0] == parts[0]);
        assert(text::pieces(parts[0], d) == want);
    } else {
        let rest = parts.drop_last();
        assert forall|i: int| 0 <= i < rest.len() implies uncut(#[trigger] rest[i], d) by {
            assert(rest[i] == parts[i]);
        }
        lemma_pieces_of_list(rest);
        let head = text::joined(rest, ", "@);
        let tail = seq![' '] + parts.last();
        let cut = head.push(',');
        assert(cut.drop_last() == head);
        assert(text::pieces(cut, d) == text::pieces(head, d).push(Seq::<char>::empty()));
        assert forall|i: int| 0 <= i < tail.len() implies !d.cuts(#[trigger] tail[i]) by {
            if i > 0 {
                assert(uncut(parts[parts.len() - 1], d));
                assert(tail[i] == parts[parts.len() - 1][i - 1]);
            }
        }
        lemma_pieces_extend(cut, tail, d);
        assert(text::joined(parts, ", "@) == head + ", "@ + parts.last());
        assert(cut + tail == text::joined(parts, ", "@));
        assert(Seq::<char>::empty() + tail == tail);
        assert(text::pieces(text::joined(parts, ", "@), d) == want);
    }
}

/// Whether a text can stand in a comma separated list: it is not empty,
/// trimmed, and holds no comma.
pub open spec fn is_list_entry(s: Seq<char>) -> bool {
    s.len() > 0 && text::trimmed(s) == s && uncut(s, Delimiter::Char(','))
}

/// Reading a list that was joined with a comma and a space gives the
/// entries back.
pub proof fn law_list_roundtrip(parts: Seq<Seq<char>>)
    requires
        forall|i: int| 0 <= i < parts.len() ==> is_list_entry(#[trigger] parts[i]),
    ensures
        text::list_entries(text::joined(parts, ", "@)) == parts,
{
    let d = Delimiter::Char(',');
    let keep = |p: Seq<char>| p.len() > 0;
    if parts.len() == 0 {
        let e = Seq::<char>::empty();
        let once = text::trimmed_parts(text::pieces(e, d));
        assert(text::trimmed(e) == e);
        assert(once == seq![e]);
        reveal(Seq::filter);
        assert(once.drop_last() == Seq::<Seq<char>>::empty());
        assert(once.drop_last().filter(keep) == Seq::<Seq<char>>::empty());
        assert(once.filter(keep) == Seq::<Seq<char>>::empty());
        assert(text::list_entries(e) == parts);
    } else {
        assert forall|i: int| 0 <= i < parts.len() implies uncut(#[trigger] parts[i], d) by {
            assert(is_list_entry(parts[i]));
        }
        lemma_pieces_of_list(parts);
        let cut = text::pieces(text::joined(parts, ", "@), d);
        let once = text::trimmed_parts(cut);
        assert forall|i: int| 0 <= i < parts.len() implies #[trigger] once[i] == parts[i] by {
            assert(is_list_entry(parts[i]));
            lemma_trimmed_skips_space(parts[i]);
        }
        assert(once == parts);
        assert forall|i: int| 0 <= i < parts.len() implies keep(#[trigger] parts[i]) by {
            assert(is_list_entry(parts[i]));
        }
        lemma_filter_all(parts, keep);
    }
}

/// The entries of a list are trimmed, not empty, and hold no comma.
pub proof fn law_list_entries_are_clean(s: Seq<char>)
    ensures
        forall|i: int|
            0 <= i < text::list_entries(s).len() ==> is_list_entry(
                #[trigger] text::list_entries(s)[i],
            ),
{
    let d = Delimiter::Char(',');
    let keep = |p: Seq<char>| p.len() > 0;
    let cut = text::pieces(s, d);
    let once = text::trimmed_parts(cut);
    law_pieces_are_uncut(s, d);
    assert forall|i: int| 0 <= i < text::list_entries(s).len() implies is_list_entry(
        #[trigger] text::list_entries(s)[i],
    ) by {
        let e = text::list_entries(s)[i];
        broadcast use vstd::seq_lib::group_filter_ensures;

        once.lemma_filter_contains_rev(keep, e);
        assert(keep(once.filter(keep)[i]));
        let k = choose|k: int| 0 <= k < once.len() && once[k] == e;
        assert(once[k] == text::trimmed(cut[k]));
        law_trim_idempotent(cut[k]);
        assert(uncut(cut[k], d));
        lemma_trimmed_uncut(cut[k], d);
    }
}

proof fn lemma_trimmed_start_uncut(s: Seq<char>, d: Delimiter)
    requires
        uncut(s, d),
    ensures
        uncut(text::trimmed_start(s), d),
    decreases s.len(),
{
    if s.len() > 0 && text::is_white(s[0]) {
        assert forall|i: int| 0 <= i < s.skip(1).len() implies !d.cuts(#[trigger] s.skip(1)[i]) by {
            assert(s.skip(1)[i] == s[i + 1]);
        }
        lemma_trimmed_start_uncut(s.skip(1), d);
    }
}

proof fn lemma_trimmed_end_uncut(s: Seq<char>, d: Delimiter)
    requires
        uncut(s, d),
    ensures
        uncut(text::trimmed_end(s), d),
    decreases s.len(),
{
    if s.len() > 0 && text::is_white(s.last()) {
        assert forall|i: int| 0 <= i < s.drop_last().len() implies !d.cuts(
            #[trigger] s.drop_last()[i],
        ) by {
            assert(s.drop_last()[i] == s[i]);
        }
        lemma_trimmed_end_uncut(s.drop_last(), d);
    }
}

proof fn lemma_trimmed_uncut(s: Seq<char>, d: Delimiter)
    requires
        uncut(s, d),
    ensures
        uncut(text::trimmed(s), d),
{
    lemma_trimmed_start_uncut(s, d);
    lemma_trimmed_end_uncut(text::trimmed_start(s), d);
}

/// Replacing what does not occur changes nothing.
pub proof fn law_replace_absent(s: Seq<char>, from: Seq<char>, to: Seq<char>)
    requires
        !text::has_part(s, from),
    ensures
        text::replaced(s, from, to) == s,
    decreases s.len(),
{
    if from.len() == 0 || s.len() < from.len() {
    } else {
        assert(s.skip(0) == s);
        assert(!text::has_prefix(s.skip(0), from));
        let rest = s.skip(1);
        assert(!text::has_part(rest, from)) by {
            if text::has_part(rest, from) {
                let i = choose|i: int|
                    0 <= i <= rest.len() && text::has_prefix(#[trigger] rest.skip(i), from);
                assert(rest.skip(i) == s.skip(i + 1));
            }
        }
        law_replace_absent(rest, from, to);
        assert(seq![s[0]] + rest == s);
    }
}

// ---------------------------------------------------------------------
// What the operations do to a text
// ---------------------------------------------------------------------

/// Which characters are white space.
pub proof fn law_white_space(c: char, b: bool)
    requires
        call_ensures(text::is_whitespace, (c,), b),
    ensures
        b == (c == '\t' || c == '\n' || c == '\u{b}' || c == '\u{c}' || c == '\r' || c == ' ' || c
            == '\u{85}' || c == '\u{a0}' || c == '\u{1680}' || 0x2000 <= c as u32 <= 0x200a || c
            == '\u{2028}' || c == '\u{2029}' || c == '\u{202f}' || c == '\u{205f}' || c
            == '\u{3000}'),
        b == text::is_white(c),
{
}

proof fn lemma_trimmed_start_is_suffix(s: Seq<char>) -> (a: int)
    ensures
        0 <= a <= s.len(),
        text::trimmed_start(s) == s.skip(a),
        forall|i: int| 0 <= i < a ==> text::is_white(#[trigger] s[i]),
    decreases s.len(),
{
    if s.len() > 0 && text::is_white(s[0]) {
        let b = lemma_trimmed_start_is_suffix(s.skip(1));
        assert(s.skip(1).skip(b) == s.skip(b + 1));
        assert forall|i: int| 0 <= i < b + 1 implies text::is_white(#[trigger] s[i]) by {
            if i > 0 {
                assert(s.skip(1)[i - 1] == s[i]);
            }
        }
        b + 1
    } else {
        assert(s.skip(0) == s);
        0
    }
}

proof fn lemma_trimmed_end_is_prefix(s: Seq<char>) -> (b: int)
    ensures
        0 <= b <= s.len(),
        text::trimmed_end(s) == s.take(b),
        forall|i: int| b <= i < s.len() ==> text::is_white(#[trigger] s[i]),
    decreases s.len(),
{
    if s.len() > 0 && text::is_white(s.last()) {
        let b = lemma_trimmed_end_is_prefix(s.drop_last());
        assert(s.drop_last().take(b) == s.take(b));
        assert forall|i: int| b <= i < s.len() implies text::is_white(#[trigger] s[i]) by {
            if i < s.len() - 1 {
                assert(s.drop_last()[i] == s[i]);
            }
        }
        b
    } else {
        assert(s.take(s.len() as int) == s);
        s.len() as int
    }
}

/// Where a trimmed text stands in the text: all before and after it is white
/// space, and it neither begins nor ends with white space.
pub proof fn lemma_trimmed_place(s: Seq<char>) -> (place: (int, int))
    ensures
        0 <= place.0 <= place.1 <= s.len(),
        text::trimmed(s) == s.subrange(place.0, place.1),
        forall|i: int| 0 <= i < place.0 ==> text::is_white(#[trigger] s[i]),
        forall|i: int| place.1 <= i < s.len() ==> text::is_white(#[trigger] s[i]),
{
    let a = lemma_trimmed_start_is_suffix(s);
    let rest = s.skip(a);
    let b = lemma_trimmed_end_is_prefix(rest);
    assert(rest.take(b) == s.subrange(a, a + b));
    assert forall|i: int| a + b <= i < s.len() implies text::is_white(#[trigger] s[i]) by {
        assert(rest[i - a] == s[i]);
    }
    (a, a + b)
}

/// Trimming takes white space away at the two ends, all of it, and nothing
/// else.
pub proof fn law_trim(s: &str, r: String)
    requires
        call_ensures(text::trim, (s,), r),
    ensures
        exists|a: int, b: int|
            0 <= a <= b <= s@.len() && r@ == #[trigger] s@.subrange(a, b) && (forall|i: int|
                0 <= i < a || b <= i < s@.len() ==> text::is_white(#[trigger] s@[i])),
        r@.len() > 0 ==> !text::is_white(r@[0]) && !text::is_white(r@.last()),
{
    let (a, b) = lemma_trimmed_place(s@);
    law_trimmed_ends(s@);
    assert(r@ == s@.subrange(a, b));
}

/// Nothing is left of a text once it is trimmed if and only if all of it is
/// white space.
pub proof fn lemma_blank(s: Seq<char>)
    ensures
        text::trimmed(s).len() == 0 <==> (forall|i: int|
            0 <= i < s.len() ==> text::is_white(#[trigger] s[i])),
{
    let (a, b) = lemma_trimmed_place(s);
    law_trimmed_ends(s);
    if a < b {
        assert(s.subrange(a, b)[0] == s[a]);
    } else {
        assert forall|i: int| 0 <= i < s.len() implies text::is_white(#[trigger] s[i]) by {
            assert(i < a || b <= i);
        }
    }
}

/// A text is blank if and only if all of it is white space.
pub proof fn law_blank(s: &str, b: bool)
    requires
        call_ensures(text::is_blank, (s,), b),
    ensures
        b <==> (forall|i: int| 0 <= i < s@.len() ==> text::is_white(#[trigger] s@[i])),
{
    lemma_blank(s@);
}

proof fn lemma_without_trailing(s: Seq<char>, c: char)
    ensures
        ({
            let r = text::without_trailing(s, c);
            &&& r.len() <= s.len()
            &&& r == s.take(r.len() as int)
            &&& forall|i: int| r.len() <= i < s.len() ==> #[trigger] s[i] == c
            &&& r.len() > 0 ==> r.last() != c
        }),
    decreases s.len(),
{
    if s.len() > 0 && s.last() == c {
        lemma_without_trailing(s.drop_last(), c);
        let r = text::without_trailing(s, c);
        assert(s.drop_last().take(r.len() as int) == s.take(r.len() as int));
        assert forall|i: int| r.len() <= i < s.len() implies #[trigger] s[i] == c by {
            if i < s.len() - 1 {
                assert(s.drop_last()[i] == s[i]);
            }
        }
    } else {
        assert(s.take(s.len() as int) == s);
    }
}

/// Trimming one character off the end takes all of its run there away, and
/// nothing else.
pub proof fn law_trim_trailing(s: &str, c: char, r: String)
    requires
        call_ensures(text::trim_trailing, (s, c), r),
    ensures
        r@.len() <= s@.len(),
        r@ == s@.take(r@.len() as int),
        forall|i: int| r@.len() <= i < s@.len() ==> #[trigger] s@[i] == c,
        r@.len() > 0 ==> r@.last() != c,
{
    lemma_without_trailing(s@, c);
}

/// Two texts are the same if they have the same characters.
pub proof fn law_same_text(s: &str, t: &str, b: bool)
    requires
        call_ensures(text::same_text, (s, t), b),
    ensures
        b == (s@ == t@),
{
}

/// A text ends with another if it is something followed by it.
pub proof fn law_ends_with(s: &str, suffix: &str, b: bool, front: Seq<char>)
    requires
        call_ensures(text::ends_with, (s, suffix), b),
    ensures
        s@ == front + suffix@ ==> b,
        b ==> exists|f: Seq<char>| s@ == #[trigger] (f + suffix@),
{
    if s@ == front + suffix@ {
        assert(s@.skip(s@.len() - suffix@.len()) == suffix@);
    }
    if b {
        assert(s@ == s@.take(s@.len() - suffix@.len()) + suffix@);
    }
}

/// What follows a prefix is what has to be put behind the prefix to get the
/// text.
pub proof fn law_strip_prefix(s: &str, prefix: &str, r: Option<String>, rest: Seq<char>)
    requires
        call_ensures(text::strip_prefix, (s, prefix), r),
    ensures
        s@ == prefix@ + rest ==> (r matches Some(x) && x@ == rest),
        r matches Some(x) ==> s@ == prefix@ + x@,
{
    if s@ == prefix@ + rest {
        assert(s@.take(prefix@.len() as int) == prefix@);
        assert(s@.skip(prefix@.len() as int) == rest);
    }
    if r is Some {
        assert(s@ == s@.take(prefix@.len() as int) + s@.skip(prefix@.len() as int));
    }
}

/// A text contains another if it is something, the other, and something
/// more.
pub proof fn law_contains(s: &str, part: &str, b: bool, front: Seq<char>, back: Seq<char>)
    requires
        call_ensures(text::contains, (s, part), b),
    ensures
        s@ == front + part@ + back ==> b,
        b ==> exists|f: Seq<char>, k: Seq<char>| s@ == #[trigger] (f + part@ + k),
{
    if s@ == front + part@ + back {
        assert(s@.skip(front.len() as int).take(part@.len() as int) == part@);
        assert(text::has_prefix(s@.skip(front.len() as int), part@));
    }
    if b {
        let i = choose|i: int|
            0 <= i <= s@.len() && text::has_prefix(#[trigger] s@.skip(i), part@);
        let rest = s@.skip(i);
        assert(s@ == s@.take(i) + part@ + rest.skip(part@.len() as int)) by {
            assert(rest == rest.take(part@.len() as int) + rest.skip(part@.len() as int));
            assert(s@ == s@.take(i) + rest);
        }
    }
}

/// Whether `part` first occurs in `front + part` at its end.
pub open spec fn occurs_first_after(front: Seq<char>, part: Seq<char>) -> bool {
    forall|i: int| 0 <= i < front.len() ==> !text::has_prefix(#[trigger] (front + part).skip(i), part)
}

/// The first occurrence is replaced, then what follows it.
pub proof fn lemma_replace_first(front: Seq<char>, from: Seq<char>, back: Seq<char>, to: Seq<char>)
    requires
        from.len() > 0,
        occurs_first_after(front, from),
    ensures
        text::replaced(front + from + back, from, to) == front + to + text::replaced(
            back,
            from,
            to,
        ),
    decreases front.len(),
{
    let s = front + from + back;
    if front.len() == 0 {
        assert(s.take(from.len() as int) == from);
        assert(s.skip(from.len() as int) == back);
        assert(front + to + text::replaced(back, from, to) == to + text::replaced(back, from, to));
    } else {
        assert((front + from).skip(0) == front + from);
        assert(!text::has_prefix((front + from).skip(0), from));
        assert(!text::has_prefix(s, from)) by {
            if text::has_prefix(s, from) {
                assert((front + from).take(from.len() as int) == s.take(from.len() as int));
            }
        }
        let rest = front.skip(1);
        assert forall|i: int| 0 <= i < rest.len() implies !text::has_prefix(
            #[trigger] (rest + from).skip(i),
            from,
        ) by {
            assert((rest + from).skip(i) == (front + from).skip(i + 1));
        }
        lemma_replace_first(rest, from, back, to);
        assert(s.skip(1) == rest + from + back);
        assert(seq![s[0]] + (rest + to + text::replaced(back, from, to)) == front + to
            + text::replaced(back, from, to));
    }
}

/// Replacing puts the new text in the place of the first occurrence of the
/// old one and goes on behind it; where it does not occur, nothing changes.
pub proof fn law_replace(
    s: &str,
    from: &str,
    to: &str,
    r: String,
    front: Seq<char>,
    back: &str,
    back_replaced: String,
)
    requires
        from@.len() > 0,
        call_ensures(text::replace, (s, from, to), r),
        call_ensures(text::replace, (back, from, to), back_replaced),
    ensures
        s@ == front + from@ + back@ && occurs_first_after(front, from@) ==> r@ == front + to@
            + back_replaced@,
        !text::has_part(s@, from@) ==> r@ == s@,
{
    if s@ == front + from@ + back@ && occurs_first_after(front, from@) {
        lemma_replace_first(front, from@, back@, to@);
    }
    if !text::has_part(s@, from@) {
        law_replace_absent(s@, from@, to@);
    }
}

/// The pieces on both sides of a cut are the pieces of the whole.
pub proof fn lemma_pieces_at_cut(s: Seq<char>, c: char, t: Seq<char>, d: Delimiter)
    requires
        d.cuts(c),
    ensures
        text::pieces(s.push(c) + t, d) == text::pieces(s, d) + text::pieces(t, d),
    decreases t.len(),
{
    if t.len() == 0 {
        assert(s.push(c) + t == s.push(c));
        assert(s.push(c).drop_last() == s);
        assert(text::pieces(s, d) + text::pieces(t, d) == text::pieces(s, d).push(
            Seq::<char>::empty(),
        ));
    } else {
        lemma_pieces_at_cut(s, c, t.drop_last(), d);
        text::lemma_pieces_not_empty(t.drop_last(), d);
        assert((s.push(c) + t).drop_last() == s.push(c) + t.drop_last());
        let left = text::pieces(s, d);
        let right = text::pieces(t.drop_last(), d);
        assert((left + right).drop_last() == left + right.drop_last());
        assert((left + right).last() == right.last());
        assert(text::pieces(s.push(c) + t, d) == left + text::pieces(t, d));
    }
}

/// A text that is not cut is its only piece.
pub proof fn lemma_pieces_uncut(s: Seq<char>, d: Delimiter)
    requires
        uncut(s, d),
    ensures
        text::pieces(s, d) == seq![s],
{
    let e = Seq::<char>::empty();
    lemma_pieces_extend(e, s, d);
    assert(e + s == s);
    assert(text::pieces(e, d).drop_last().push(e + s) == seq![s]);
}

/// A text is cut at each character that it is to be cut at, and nowhere
/// else.
pub proof fn law_split(
    s: &str,
    front: &str,
    c: char,
    back: &str,
    d: Delimiter,
    r: Vec<String>,
    front_pieces: Vec<String>,
    back_pieces: Vec<String>,
)
    requires
        call_ensures(text::split, (s, d), r),
        call_ensures(text::split, (front, d), front_pieces),
        call_ensures(text::split, (back, d), back_pieces),
    ensures
        s@ == front@.push(c) + back@ && d.cuts(c) ==> text::texts(r@) == text::texts(
            front_pieces@,
        ) + text::texts(back_pieces@),
        uncut(s@, d) ==> text::texts(r@) == seq![s@],
        d matches Delimiter::Char(x) ==> d.cuts(c) == (c == x),
        d matches Delimiter::OneOf(x, y) ==> d.cuts(c) == (c == x || c == y),
        d is White ==> d.cuts(c) == text::is_white(c),
{
    if s@ == front@.push(c) + back@ && d.cuts(c) {
        lemma_pieces_at_cut(front@, c, back@, d);
    }
    if uncut(s@, d) {
        lemma_pieces_uncut(s@, d);
    }
}

/// What is not empty is kept, in its order.
pub proof fn law_keep_non_empty(v: &Vec<String>, r: Vec<String>)
    requires
        call_ensures(text::keep_non_empty, (v,), r),
    ensures
        text::texts(r@) == text::texts(v@).filter(|p: Seq<char>| p.len() > 0),
{
    assert(text::texts(v@).filter(|p: Seq<char>| p.len() > 0) == text::non_empty_parts(
        text::texts(v@),
    ));
}

proof fn lemma_filter_sum<A>(s: Seq<A>, t: Seq<A>, keep: spec_fn(A) -> bool)
    ensures
        (s + t).filter(keep) == s.filter(keep) + t.filter(keep),
    decreases t.len(),
{
    reveal(Seq::filter);
    if t.len() == 0 {
        assert(s + t == s);
        assert(t.filter(keep) == Seq::<A>::empty());
        assert(s.filter(keep) + t.filter(keep) == s.filter(keep));
    } else {
        lemma_filter_sum(s, t.drop_last(), keep);
        assert((s + t).drop_last() == s + t.drop_last());
        if keep(t.last()) {
            assert((s.filter(keep) + t.drop_last().filter(keep)).push(t.last()) == s.filter(keep)
                + t.drop_last().filter(keep).push(t.last()));
        }
    }
}

proof fn lemma_filter_one<A>(x: A, keep: spec_fn(A) -> bool)
    ensures
        seq![x].filter(keep) == (if keep(x) { seq![x] } else { Seq::<A>::empty() }),
{
    reveal(Seq::filter);
    assert(seq![x].drop_last() == Seq::<A>::empty());
    assert(seq![x].drop_last().filter(keep) == Seq::<A>::empty());
    assert(Seq::<A>::empty().push(x) == seq![x]);
}

/// A list is read entry by entry: what stands before a comma, then what
/// stands behind it. A text without a comma is one entry, without the white
/// space around it, or none if it is blank.
pub proof fn law_split_list(
    s: &str,
    front: &str,
    back: &str,
    r: Vec<String>,
    front_entries: Vec<String>,
    back_entries: Vec<String>,
)
    requires
        call_ensures(text::split_list, (s,), r),
        call_ensures(text::split_list, (front,), front_entries),
        call_ensures(text::split_list, (back,), back_entries),
    ensures
        s@ == front@.push(',') + back@ ==> text::texts(r@) == text::texts(front_entries@)
            + text::texts(back_entries@),
        uncut(s@, Delimiter::Char(',')) ==> text::texts(r@) == (if text::trimmed(s@).len() > 0 {
            seq![text::trimmed(s@)]
        } else {
            Seq::<Seq<char>>::empty()
        }),
{
    let d = Delimiter::Char(',');
    let keep = |p: Seq<char>| p.len() > 0;
    if s@ == front@.push(',') + back@ {
        lemma_pieces_at_cut(front@, ',', back@, d);
        let a = text::trimmed_parts(text::pieces(front@, d));
        let b = text::trimmed_parts(text::pieces(back@, d));
        assert(text::trimmed_parts(text::pieces(s@, d)) == a + b);
        lemma_filter_sum(a, b, keep);
    }
    if uncut(s@, d) {
        lemma_pieces_uncut(s@, d);
        assert(text::trimmed_parts(text::pieces(s@, d)) == seq![text::trimmed(s@)]);
        lemma_filter_one(text::trimmed(s@), keep);
    }
}

/// A text's words are those before a white space character, then those
/// behind it. A text without white space is one word, or none if it is
/// empty.
pub proof fn law_split_words(
    s: &str,
    front: &str,
    c: char,
    back: &str,
    r: Vec<String>,
    front_words: Vec<String>,
    back_words: Vec<String>,
)
    requires
        call_ensures(text::split_words, (s,), r),
        call_ensures(text::split_words, (front,), front_words),
        call_ensures(text::split_words, (back,), back_words),
    ensures
        s@ == front@.push(c) + back@ && text::is_white(c) ==> text::texts(r@) == text::texts(
            front_words@,
        ) + text::texts(back_words@),
        (forall|i: int| 0 <= i < s@.len() ==> !text::is_white(#[trigger] s@[i])) ==> text::texts(r@)
            == (if s@.len() > 0 {
            seq![s@]
        } else {
            Seq::<Seq<char>>::empty()
        }),
{
    let d = Delimiter::White;
    let keep = |p: Seq<char>| p.len() > 0;
    if s@ == front@.push(c) + back@ && text::is_white(c) {
        lemma_pieces_at_cut(front@, c, back@, d);
        lemma_filter_sum(text::pieces(front@, d), text::pieces(back@, d), keep);
    }
    if forall|i: int| 0 <= i < s@.len() ==> !text::is_white(#[trigger] s@[i]) {
        assert(uncut(s@, d));
        lemma_pieces_uncut(s@, d);
        lemma_filter_one(s@, keep);
    }
}

/// Joining puts the separator between neighbours: the first stands alone,
/// and each further one follows a separator.
pub proof fn law_join(v: &Vec<String>, w: &Vec<String>, sep: &str, r: String, q: String)
    requires
        call_ensures(text::join, (v, sep), r),
        call_ensures(text::join, (w, sep), q),
    ensures
        v@.len() == 0 ==> r@.len() == 0,
        v@.len() == 1 ==> r@ == v@[0]@,
        v@.len() > 1 && text::texts(w@) == text::texts(v@).drop_last() ==> r@ == q@ + sep@
            + v@.last()@,
{
    let a = text::texts(v@);
    if v@.len() > 1 {
        assert(a.last() == v@.last()@);
    }
}

/// Lines are read one by one: what stands before a line feed, without the
/// carriage return right before it, then the lines behind it. A text without
/// a line feed is one line, as it is, or none if it is empty.
pub proof fn law_split_lines(
    s: &str,
    line: Seq<char>,
    back: &str,
    r: Vec<String>,
    back_lines: Vec<String>,
)
    requires
        call_ensures(text::split_lines, (s,), r),
        call_ensures(text::split_lines, (back,), back_lines),
        uncut(line, Delimiter::Char('\n')),
    ensures
        s@ == line.push('\n') + back@ && (line.len() == 0 || line.last() != '\r') ==> text::texts(r@)
            == seq![line] + text::texts(back_lines@),
        s@ == line.push('\r').push('\n') + back@ ==> text::texts(r@) == seq![line] + text::texts(
            back_lines@,
        ),
        uncut(s@, Delimiter::Char('\n')) ==> text::texts(r@) == (if s@.len() > 0 {
            seq![s@]
        } else {
            Seq::<Seq<char>>::empty()
        }),
{
    let d = Delimiter::Char('\n');
    if s@ == line.push('\n') + back@ {
        lemma_first_line(line, back@);
        assert(line.len() == 0 || line.last() != '\r' ==> text::without_cr(line) == line);
    }
    if s@ == line.push('\r').push('\n') + back@ {
        let long = line.push('\r');
        assert forall|i: int| 0 <= i < long.len() implies !d.cuts(#[trigger] long[i]) by {
            if i < line.len() {
                assert(long[i] == line[i]);
            }
        }
        lemma_first_line(long, back@);
        assert(long.drop_last() == line);
    }
    if uncut(s@, d) {
        lemma_pieces_uncut(s@, d);
        let parts = text::pieces(s@, d);
        assert(parts.last() == s@);
        assert(parts.drop_last().map_values(|p: Seq<char>| text::without_cr(p)) == Seq::<
            Seq<char>,
        >::empty());
        assert(Seq::<Seq<char>>::empty().push(s@) == seq![s@]);
    }
}

proof fn lemma_first_line(line: Seq<char>, back: Seq<char>)
    requires
        uncut(line, Delimiter::Char('\n')),
    ensures
        text::text_lines(line.push('\n') + back) == seq![text::without_cr(line)]
            + text::text_lines(back),
{
    let d = Delimiter::Char('\n');
    let f = |p: Seq<char>| text::without_cr(p);
    lemma_pieces_at_cut(line, '\n', back, d);
    lemma_pieces_uncut(line, d);
    text::lemma_pieces_not_empty(back, d);
    let right = text::pieces(back, d);
    let all = seq![line] + right;
    assert(all.last() == right.last());
    assert(all.drop_last() == seq![line] + right.drop_last());
    assert(all.drop_last().map_values(f) == seq![text::without_cr(line)]
        + right.drop_last().map_values(f));
    if right.last().len() > 0 {
        assert(all.drop_last().map_values(f).push(all.last()) == seq![text::without_cr(line)]
            + right.drop_last().map_values(f).push(right.last()));
    }
}

/// A copy of a text that may be missing says the same.
pub proof fn law_copied_option(a: &Option<String>, b: Option<String>)
    requires
        call_ensures(text::clone_opt, (a,), b),
    ensures
        a is None <==> b is None,
        a matches Some(x) ==> (b matches Some(y) && y@ == x@),
{
}

/// A copy of a list of texts holds the same texts in the same order.
pub proof fn law_copied_texts(v: &Vec<String>, w: Vec<String>, i: int)
    requires
        call_ensures(text::clone_texts, (v,), w),
    ensures
        w@.len() == v@.len(),
        0 <= i < v@.len() ==> w@[i]@ == v@[i]@,
{
    assert(text::texts(w@).len() == w@.len());
    assert(text::texts(v@).len() == v@.len());
    if 0 <= i < v@.len() {
        assert(text::texts(w@)[i] == w@[i]@);
        assert(text::texts(v@)[i] == v@[i]@);
    }
}

/// The characters of a text are its characters.
pub proof fn law_characters(s: &str, v: Vec<char>)
    requires
        call_ensures(text::chars_of, (s,), v),
    ensures
        v@ == s@,
{
}

/// A string of some of the characters holds them in their order.
pub proof fn law_string_of(v: &Vec<char>, from: usize, to: usize, s: String, i: int)
    requires
        from <= to <= v@.len(),
        call_ensures(text::string_of, (v, from, to), s),
    ensures
        s@.len() == to - from,
        0 <= i < s@.len() ==> s@[i] == v@[from + i],
{
}

/// Trimming a list trims each of its texts.
pub proof fn law_trim_all(
    list: &Vec<String>,
    r: Vec<String>,
    i: int,
    one: &str,
    trimmed: String,
)
    requires
        call_ensures(text::trim_all, (list,), r),
        0 <= i < list@.len(),
        one@ == list@[i]@,
        call_ensures(text::trim, (one,), trimmed),
    ensures
        r@.len() == list@.len(),
        r@[i]@ == trimmed@,
{
    assert(text::texts(r@).len() == r@.len());
    assert(text::texts(list@).len() == list@.len());
    assert(text::texts(r@)[i] == r@[i]@);
    assert(text::texts(list@)[i] == list@[i]@);
}

} // verus!
