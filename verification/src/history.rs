//! The history of translations: one line per entry, oldest first on disk.

use crate::text;
use crate::text::Delimiter;
use crate::text_laws;
use crate::text::{is_blank, split_lines};
use vstd::prelude::*;

verus! {

/// One translation that was made.
#[derive(Debug)]
pub struct HistoryEntry {
    pub timestamp: String,
    pub provider: String,
    pub source_lang: String,
    pub target_lang: String,
    pub original: String,
    pub translated: String,
}

#[verifier::ext_equal]
pub struct HistoryView {
    pub timestamp: Seq<char>,
    pub provider: Seq<char>,
    pub source_lang: Seq<char>,
    pub target_lang: Seq<char>,
    pub original: Seq<char>,
    pub translated: Seq<char>,
}

impl View for HistoryEntry {
    type V = HistoryView;

    open spec fn view(&self) -> HistoryView {
        HistoryView {
            timestamp: self.timestamp@,
            provider: self.provider@,
            source_lang: self.source_lang@,
            target_lang: self.target_lang@,
            original: self.original@,
            translated: self.translated@,
        }
    }
}

impl Clone for HistoryEntry {
    fn clone(&self) -> (r: Self)
        ensures
            r@ == self@,
    {
        HistoryEntry {
            timestamp: self.timestamp.clone(),
            provider: self.provider.clone(),
            source_lang: self.source_lang.clone(),
            target_lang: self.target_lang.clone(),
            original: self.original.clone(),
            translated: self.translated.clone(),
        }
    }
}

/// A list of entries by their views.
pub open spec fn entries_of(v: Seq<HistoryEntry>) -> Seq<HistoryView> {
    v.map_values(|e: HistoryEntry| e@)
}

/// The last `max` items, or all if there are no more.
pub open spec fn newest(all: Seq<HistoryView>, max: nat) -> Seq<HistoryView> {
    if all.len() > max {
        all.skip(all.len() - max)
    } else {
        all
    }
}

/// The history after one more translation, cut to the newest `max` entries.
pub open spec fn appended(old: Seq<HistoryView>, entry: HistoryView, max: nat) -> Seq<
    HistoryView,
> {
    newest(old.push(entry), max)
}

/// Up to `limit` entries, newest first.
pub open spec fn recent(all: Seq<HistoryView>, limit: nat) -> Seq<HistoryView> {
    let backwards = all.reverse();
    if backwards.len() > limit {
        backwards.take(limit as int)
    } else {
        backwards
    }
}

/// The entry at a position counted from the newest, which is at 0.
pub open spec fn entry_at(all: Seq<HistoryView>, index: nat) -> Option<HistoryView> {
    if index < all.len() {
        Some(all[all.len() - 1 - index])
    } else {
        None
    }
}

/// Adds an entry to the history that is on disk and keeps the newest
/// `max_entries`.
pub fn append(entries: &Vec<HistoryEntry>, entry: &HistoryEntry, max_entries: usize) -> (r: Vec<
    HistoryEntry,
>)
    ensures
        entries_of(r@) == appended(entries_of(entries@), entry@, max_entries as nat),
{
    let ghost all = entries_of(entries@).push(entry@);
    let mut r: Vec<HistoryEntry> = Vec::new();
    if max_entries == 0 {
        assert(entries_of(r@) == all.skip(all.len() as int));
        return r;
    }
    let kept: usize = if entries.len() >= max_entries {
        max_entries - 1
    } else {
        entries.len()
    };
    let from: usize = entries.len() - kept;
    let mut i: usize = from;
    while i < entries.len()
        invariant
            from <= i <= entries@.len(),
            r@.len() == i - from,
            forall|k: int| 0 <= k < i - from ==> (#[trigger] r@[k])@ == entries@[from + k]@,
        decreases entries@.len() - i,
    {
        r.push(entries[i].clone());
        i += 1;
    }
    r.push(entry.clone());
    proof {
        let want = appended(entries_of(entries@), entry@, max_entries as nat);
        assert(want.len() == r@.len());
        assert forall|k: int| 0 <= k < want.len() implies entries_of(r@)[k] == want[k] by {
            if k < kept {
                assert(r@[k]@ == entries@[from + k]@);
            }
        }
        assert(entries_of(r@) == want);
    }
    r
}

/// Up to `limit` entries, newest first.
pub fn load_recent(entries: &Vec<HistoryEntry>, limit: usize) -> (r: Vec<HistoryEntry>)
    ensures
        entries_of(r@) == recent(entries_of(entries@), limit as nat),
{
    let n: usize = if entries.len() > limit {
        limit
    } else {
        entries.len()
    };
    let mut r: Vec<HistoryEntry> = Vec::new();
    let mut i: usize = 0;
    while i < n
        invariant
            i <= n <= entries@.len(),
            r@.len() == i,
            forall|k: int|
                0 <= k < i ==> (#[trigger] r@[k])@ == entries@[entries@.len() - 1 - k]@,
        decreases n - i,
    {
        r.push(entries[entries.len() - 1 - i].clone());
        i += 1;
    }
    proof {
        let want = recent(entries_of(entries@), limit as nat);
        assert(want.len() == r@.len());
        assert forall|k: int| 0 <= k < want.len() implies entries_of(r@)[k] == want[k] by {
            assert(r@[k]@ == entries@[entries@.len() - 1 - k]@);
        }
        assert(entries_of(r@) == want);
    }
    r
}

/// The entry at a position counted from the newest, which is at 0.
pub fn get(entries: &Vec<HistoryEntry>, index: usize) -> (r: Option<HistoryEntry>)
    ensures
        (match r {
            Some(e) => entry_at(entries_of(entries@), index as nat) == Some(e@),
            None => entry_at(entries_of(entries@), index as nat) is None,
        }),
{
    if index < entries.len() {
        let e = entries[entries.len() - 1 - index].clone();
        assert(entries_of(entries@)[entries@.len() - 1 - index] == e@);
        Some(e)
    } else {
        None
    }
}

// ---------------------------------------------------------------------
// The file
// ---------------------------------------------------------------------

/// The lines that are not blank.
pub open spec fn filled_lines(raw: Seq<char>) -> Seq<Seq<char>> {
    text::text_lines(raw).filter(|l: Seq<char>| text::trimmed(l).len() > 0)
}

/// Each line with a line feed behind it.
pub open spec fn lines_file(lines: Seq<Seq<char>>) -> Seq<char>
    decreases lines.len(),
{
    if lines.len() == 0 {
        Seq::<char>::empty()
    } else {
        lines_file(lines.drop_last()) + lines.last().push('\n')
    }
}

/// The entries that could be read, in their order.
pub open spec fn readable(v: Seq<Option<HistoryEntry>>) -> Seq<HistoryView>
    decreases v.len(),
{
    if v.len() == 0 {
        Seq::<HistoryView>::empty()
    } else {
        match v.last() {
            Some(e) => readable(v.drop_last()).push(e@),
            None => readable(v.drop_last()),
        }
    }
}

/// The lines of the history file that hold an entry.
pub fn history_lines(raw: &str) -> (r: Vec<String>)
    ensures
        text::texts(r@) == filled_lines(raw@),
{
    let lines = split_lines(raw);
    let ghost keep = |l: Seq<char>| text::trimmed(l).len() > 0;
    let ghost all = text::texts(lines@);
    let mut r: Vec<String> = Vec::new();
    let mut i: usize = 0;
    assert(all.take(0) == Seq::<Seq<char>>::empty());
    assert(text::texts(r@) == Seq::<Seq<char>>::empty().filter(keep)) by {
        reveal(Seq::filter);
    }
    while i < lines.len()
        invariant
            i <= lines@.len(),
            all == text::texts(lines@),
            keep == (|l: Seq<char>| text::trimmed(l).len() > 0),
            text::texts(r@) == all.take(i as int).filter(keep),
        decreases lines@.len() - i,
    {
        proof {
            reveal(Seq::filter);
            assert(all.take(i + 1).drop_last() == all.take(i as int));
            assert(all.take(i + 1).last() == lines@[i as int]@);
        }
        if !is_blank(lines[i].as_str()) {
            let ghost earlier = r@;
            let line = lines[i].clone();
            r.push(line);
            assert(text::texts(r@) == text::texts(earlier).push(line@));
        }
        i += 1;
    }
    assert(all.take(lines@.len() as int) == all);
    r
}

/// The entries that could be read from their lines; a line that could not
/// is passed over.
pub fn keep_readable(read: &Vec<Option<HistoryEntry>>) -> (r: Vec<HistoryEntry>)
    ensures
        entries_of(r@) == readable(read@),
{
    let mut r: Vec<HistoryEntry> = Vec::new();
    let mut i: usize = 0;
    assert(entries_of(r@) == Seq::<HistoryView>::empty());
    while i < read.len()
        invariant
            i <= read@.len(),
            entries_of(r@) == readable(read@.take(i as int)),
        decreases read@.len() - i,
    {
        assert(read@.take(i + 1).drop_last() == read@.take(i as int));
        if let Some(e) = &read[i] {
            let ghost earlier = r@;
            let copy = e.clone();
            r.push(copy);
            assert(entries_of(r@) == entries_of(earlier).push(copy@));
        }
        i += 1;
    }
    assert(read@.take(read@.len() as int) == read@);
    r
}

/// The text of a file with these lines.
pub fn file_text(lines: &Vec<String>) -> (r: String)
    ensures
        r@ == lines_file(text::texts(lines@)),
{
    let ghost all = text::texts(lines@);
    let mut out = String::new();
    let mut i: usize = 0;
    assert(all.take(0) == Seq::<Seq<char>>::empty());
    while i < lines.len()
        invariant
            i <= lines@.len(),
            all == text::texts(lines@),
            out@ == lines_file(all.take(i as int)),
        decreases lines@.len() - i,
    {
        proof {
            assert(all.take(i + 1).drop_last() == all.take(i as int));
            assert(all.take(i + 1).last() == lines@[i as int]@);
        }
        let ghost before = out@;
        out.append(lines[i].as_str());
        out.push('\n');
        assert(out@ == before + lines@[i as int]@.push('\n'));
        i += 1;
    }
    assert(all.take(lines@.len() as int) == all);
    out
}

// ---------------------------------------------------------------------
// Laws
// ---------------------------------------------------------------------

/// The history never holds more than `max` entries after an addition.
pub proof fn law_append_is_bounded(old: Seq<HistoryView>, entry: HistoryView, max: nat)
    ensures
        appended(old, entry, max).len() <= max,
{
}

/// What was added last is found at position 0, unless nothing is kept.
pub proof fn law_append_then_get(old: Seq<HistoryView>, entry: HistoryView, max: nat)
    requires
        max > 0,
    ensures
        entry_at(appended(old, entry, max), 0) == Some(entry),
{
}

/// An addition moves each older entry one position further, until it falls
/// off the end.
pub proof fn law_append_shifts(old: Seq<HistoryView>, entry: HistoryView, max: nat, index: nat)
    ensures
        entry_at(appended(old, entry, max), index + 1) == if index + 1 < max {
            entry_at(old, index)
        } else {
            None
        },
{
}

/// The recent entries are those that the positions 0, 1, 2, ... give.
pub proof fn law_recent_agrees_with_positions(all: Seq<HistoryView>, limit: nat, index: nat)
    ensures
        index < recent(all, limit).len() ==> entry_at(all, index) == Some(
            recent(all, limit)[index as int],
        ),
        index >= recent(all, limit).len() && index < limit ==> entry_at(all, index) is None,
        recent(all, limit).len() <= limit,
{
}

/// Whether a line can be told apart in a file of lines: it is not blank,
/// holds no line feed, and does not end in a carriage return.
pub open spec fn is_file_line(line: Seq<char>) -> bool {
    &&& text::trimmed(line).len() > 0
    &&& text_laws::uncut(line, Delimiter::Char('\n'))
    &&& line.last() != '\r'
}

proof fn lemma_file_pieces(lines: Seq<Seq<char>>)
    requires
        forall|i: int|
            0 <= i < lines.len() ==> text_laws::uncut(#[trigger] lines[i], Delimiter::Char('\n')),
    ensures
        text::pieces(lines_file(lines), Delimiter::Char('\n')) == lines.push(
            Seq::<char>::empty(),
        ),
    decreases lines.len(),
{
    let d = Delimiter::Char('\n');
    if lines.len() == 0 {
        assert(lines.push(Seq::<char>::empty()) == seq![Seq::<char>::empty()]);
    } else {
        let rest = lines.drop_last();
        assert forall|i: int| 0 <= i < rest.len() implies text_laws::uncut(
            #[trigger] rest[i],
            d,
        ) by {
            assert(rest[i] == lines[i]);
        }
        lemma_file_pieces(rest);
        assert(text_laws::uncut(lines[lines.len() - 1], d));
        let head = lines_file(rest);
        let body = head + lines.last();
        text_laws::lemma_pieces_extend(head, lines.last(), d);
        let p = rest.push(Seq::<char>::empty());
        assert(p.drop_last() == rest);
        assert(p.last() + lines.last() == lines.last());
        assert(rest.push(lines.last()) == lines);
        assert(lines_file(lines) == body.push('\n'));
        assert(body.push('\n').drop_last() == body);
    }
}

/// The lines of a file are those that it was made of, whatever they hold but
/// a line feed; a carriage return at a line's end counts as part of the end.
pub proof fn law_file_lines(lines: Seq<Seq<char>>)
    requires
        forall|i: int|
            0 <= i < lines.len() ==> text_laws::uncut(#[trigger] lines[i], Delimiter::Char('\n')),
    ensures
        text::text_lines(lines_file(lines)) == lines.map_values(
            |l: Seq<char>| text::without_cr(l),
        ),
{
    lemma_file_pieces(lines);
    let parts = text::pieces(lines_file(lines), Delimiter::Char('\n'));
    assert(parts.drop_last() == lines);
    assert(parts.last().len() == 0);
}

/// Reading the file that was written for some lines gives the lines back.
pub proof fn law_file_roundtrip(lines: Seq<Seq<char>>)
    requires
        forall|i: int| 0 <= i < lines.len() ==> is_file_line(#[trigger] lines[i]),
    ensures
        text::text_lines(lines_file(lines)) == lines,
        filled_lines(lines_file(lines)) == lines,
{
    assert forall|i: int| 0 <= i < lines.len() implies text_laws::uncut(
        #[trigger] lines[i],
        Delimiter::Char('\n'),
    ) by {
        assert(is_file_line(lines[i]));
    }
    law_file_lines(lines);
    let ended = lines.map_values(|l: Seq<char>| text::without_cr(l));
    assert forall|i: int| 0 <= i < lines.len() implies #[trigger] ended[i] == lines[i] by {
        assert(is_file_line(lines[i]));
    }
    assert(ended == lines);
    let keep = |l: Seq<char>| text::trimmed(l).len() > 0;
    assert forall|i: int| 0 <= i < lines.len() implies keep(#[trigger] lines[i]) by {
        assert(is_file_line(lines[i]));
    }
    text_laws::lemma_filter_all(lines, keep);
}

/// An entry that was read from a line, if one was.
pub open spec fn read_entry(e: Option<HistoryEntry>) -> Option<HistoryView> {
    match e {
        Some(e) => Some(e@),
        None => None,
    }
}

/// Whether `read` holds what `reading` makes of each of the lines.
pub open spec fn is_reading(
    read: Seq<Option<HistoryEntry>>,
    lines: Seq<Seq<char>>,
    reading: spec_fn(Seq<char>) -> Option<HistoryView>,
) -> bool {
    &&& read.len() == lines.len()
    &&& forall|i: int| 0 <= i < lines.len() ==> read_entry(#[trigger] read[i]) == reading(lines[i])
}

/// The lines that are not blank and can be read.
pub open spec fn entry_lines(
    lines: Seq<Seq<char>>,
    reading: spec_fn(Seq<char>) -> Option<HistoryView>,
) -> Seq<Seq<char>> {
    lines.filter(|l: Seq<char>| text::trimmed(l).len() > 0 && reading(l) is Some)
}

proof fn lemma_readable(
    lines: Seq<Seq<char>>,
    reading: spec_fn(Seq<char>) -> Option<HistoryView>,
    read: Seq<Option<HistoryEntry>>,
)
    requires
        is_reading(read, lines.filter(|l: Seq<char>| text::trimmed(l).len() > 0), reading),
    ensures
        readable(read) == entry_lines(lines, reading).map_values(|l: Seq<char>| reading(l)->0),
    decreases lines.len(),
{
    reveal(Seq::filter);
    let keep = |l: Seq<char>| text::trimmed(l).len() > 0;
    let value = |l: Seq<char>| reading(l)->0;
    if lines.len() > 0 {
        let rest = lines.drop_last();
        let l = lines.last();
        if keep(l) {
            let filled = rest.filter(keep);
            assert(lines.filter(keep) == filled.push(l));
            assert(read_entry(read[filled.len() as int]) == reading(filled.push(l)[
                filled.len() as int]));
            assert forall|i: int| 0 <= i < filled.len() implies read_entry(
                #[trigger] read.drop_last()[i],
            ) == reading(filled[i]) by {
                assert(read_entry(read[i]) == reading(filled.push(l)[i]));
            }
            lemma_readable(rest, reading, read.drop_last());
            if reading(l) is Some {
                assert(entry_lines(lines, reading) == entry_lines(rest, reading).push(l));
                assert(entry_lines(rest, reading).push(l).map_values(value) == entry_lines(
                    rest,
                    reading,
                ).map_values(value).push(value(l)));
            } else {
                assert(entry_lines(lines, reading) == entry_lines(rest, reading));
            }
        } else {
            lemma_readable(rest, reading, read);
            assert(entry_lines(lines, reading) == entry_lines(rest, reading));
        }
    } else {
        assert(entry_lines(lines, reading).map_values(value) == Seq::<HistoryView>::empty());
    }
}

/// What was written is read back, whatever else stands in the file: if each
/// entry can be read from its line, and the file holds the lines of some
/// entries in their order, any number of lines that are blank or cannot be
/// read before, between and behind them change nothing in what is read.
///
/// `line_of` is how an entry is written and `reading` how a line is read;
/// `lines` are those of the file, and `read` is what was made of those that
/// are not blank.
pub proof fn law_other_lines_change_nothing(
    entries: Seq<HistoryView>,
    line_of: spec_fn(HistoryView) -> Seq<char>,
    reading: spec_fn(Seq<char>) -> Option<HistoryView>,
    lines: Seq<Seq<char>>,
    read: Seq<Option<HistoryEntry>>,
)
    requires
        forall|i: int|
            0 <= i < entries.len() ==> reading(line_of(#[trigger] entries[i])) == Some(entries[i]),
        forall|i: int|
            0 <= i < lines.len() ==> text_laws::uncut(#[trigger] lines[i], Delimiter::Char('\n')),
        entry_lines(lines.map_values(|l: Seq<char>| text::without_cr(l)), reading)
            == entries.map_values(line_of),
        is_reading(read, filled_lines(lines_file(lines)), reading),
    ensures
        readable(read) == entries,
{
    law_file_lines(lines);
    let found = lines.map_values(|l: Seq<char>| text::without_cr(l));
    lemma_readable(found, reading, read);
    let value = |l: Seq<char>| reading(l)->0;
    assert forall|i: int| 0 <= i < entries.len() implies #[trigger] entries.map_values(
        line_of,
    ).map_values(value)[i] == entries[i] by {
        assert(reading(line_of(entries[i])) == Some(entries[i]));
    }
    assert(entries.map_values(line_of).map_values(value) == entries);
}

/// The entries that were written are read back, every field of them and in
/// their order, if each can be read from its line and each line can be told
/// apart in the file.
pub proof fn law_written_entries_are_read(
    entries: Seq<HistoryView>,
    line_of: spec_fn(HistoryView) -> Seq<char>,
    reading: spec_fn(Seq<char>) -> Option<HistoryView>,
    read: Seq<Option<HistoryEntry>>,
)
    requires
        forall|i: int|
            0 <= i < entries.len() ==> reading(line_of(#[trigger] entries[i])) == Some(entries[i])
                && is_file_line(line_of(entries[i])),
        is_reading(read, filled_lines(lines_file(entries.map_values(line_of))), reading),
    ensures
        readable(read) == entries,
{
    let lines = entries.map_values(line_of);
    assert forall|i: int| 0 <= i < lines.len() implies is_file_line(#[trigger] lines[i])
        && text_laws::uncut(lines[i], Delimiter::Char('\n')) && reading(lines[i]) is Some by {
        assert(is_file_line(line_of(entries[i])));
    }
    let found = lines.map_values(|l: Seq<char>| text::without_cr(l));
    assert(found == lines);
    text_laws::lemma_filter_all(
        lines,
        |l: Seq<char>| text::trimmed(l).len() > 0 && reading(l) is Some,
    );
    law_other_lines_change_nothing(entries, line_of, reading, lines, read);
}

/// An empty file holds no entries.
pub proof fn law_empty_file_has_no_entries()
    ensures
        filled_lines(Seq::<char>::empty()) == Seq::<Seq<char>>::empty(),
        readable(Seq::<Option<HistoryEntry>>::empty()) == Seq::<HistoryView>::empty(),
{
    law_file_roundtrip(Seq::<Seq<char>>::empty());
    assert(lines_file(Seq::<Seq<char>>::empty()) == Seq::<char>::empty());
}

// ---------------------------------------------------------------------
// Which entries come out, and in which order
// ---------------------------------------------------------------------

/// After an addition the new entry stands last, and before it the newest of
/// those that were there, in their order, as many as are kept.
pub proof fn law_append_keeps_the_newest(
    entries: &Vec<HistoryEntry>,
    entry: &HistoryEntry,
    max_entries: usize,
    r: Vec<HistoryEntry>,
    k: int,
)
    requires
        call_ensures(append, (entries, entry, max_entries), r),
    ensures
        r@.len() == (if entries@.len() < max_entries {
            entries@.len() + 1
        } else {
            max_entries as nat
        }),
        max_entries > 0 ==> r@.last()@ == entry@,
        0 <= k < r@.len() - 1 ==> r@[k]@ == entries@[entries@.len() + 1 - r@.len() + k]@,
{
    let all = entries_of(entries@).push(entry@);
    let want = appended(entries_of(entries@), entry@, max_entries as nat);
    assert(entries_of(r@) == want);
    assert(entries_of(r@).len() == r@.len());
    if max_entries > 0 {
        assert(entries_of(r@)[r@.len() - 1] == r@.last()@);
        assert(want[want.len() - 1] == all[all.len() - 1]);
    }
    if 0 <= k < r@.len() - 1 {
        assert(entries_of(r@)[k] == r@[k]@);
        assert(want[k] == all[entries@.len() + 1 - r@.len() + k]);
    }
}

/// The recent entries are the newest ones, newest first, as many as are
/// wanted or there are.
pub proof fn law_recent_are_the_newest_first(
    entries: &Vec<HistoryEntry>,
    limit: usize,
    r: Vec<HistoryEntry>,
    k: int,
)
    requires
        call_ensures(load_recent, (entries, limit), r),
    ensures
        r@.len() == (if entries@.len() < limit { entries@.len() } else { limit as nat }),
        0 <= k < r@.len() ==> r@[k]@ == entries@[entries@.len() - 1 - k]@,
{
    assert(entries_of(r@).len() == r@.len());
    if 0 <= k < r@.len() {
        assert(entries_of(r@)[k] == r@[k]@);
    }
}

/// Positions are counted from the newest entry, which stands last.
pub proof fn law_get_counts_from_the_newest(
    entries: &Vec<HistoryEntry>,
    index: usize,
    r: Option<HistoryEntry>,
)
    requires
        call_ensures(get, (entries, index), r),
    ensures
        r is Some <==> index < entries@.len(),
        r matches Some(e) ==> e@ == entries@[entries@.len() - 1 - index]@,
{
}

/// The lines with an entry are all lines of the file that are not all white
/// space, as they are and in their order.
pub proof fn law_lines_with_entries(raw: &str, r: Vec<String>, lines: Vec<String>)
    requires
        call_ensures(history_lines, (raw,), r),
        call_ensures(split_lines, (raw,), lines),
    ensures
        text::texts(r@) == text::texts(lines@).filter(
            |l: Seq<char>| exists|i: int| 0 <= i < l.len() && !text::is_white(#[trigger] l[i]),
        ),
{
    let keep = |l: Seq<char>| text::trimmed(l).len() > 0;
    let filled = |l: Seq<char>|
        exists|i: int| 0 <= i < l.len() && !text::is_white(#[trigger] l[i]);
    assert forall|l: Seq<char>| #[trigger] keep(l) == filled(l) by {
        text_laws::lemma_blank(l);
    }
    lemma_same_filter(text::texts(lines@), keep, filled);
    assert(text::texts(r@) == filled_lines(raw@));
}

proof fn lemma_same_filter(
    s: Seq<Seq<char>>,
    f: spec_fn(Seq<char>) -> bool,
    g: spec_fn(Seq<char>) -> bool,
)
    requires
        forall|x: Seq<char>| #[trigger] f(x) == g(x),
    ensures
        s.filter(f) == s.filter(g),
    decreases s.len(),
{
    reveal(Seq::filter);
    if s.len() > 0 {
        lemma_same_filter(s.drop_last(), f, g);
        assert(f(s.last()) == g(s.last()));
    }
}

proof fn lemma_readable_by_filter(v: Seq<Option<HistoryEntry>>)
    ensures
        readable(v) == v.filter(|e: Option<HistoryEntry>| e is Some).map_values(
            |e: Option<HistoryEntry>| e->0@,
        ),
    decreases v.len(),
{
    reveal(Seq::filter);
    let some = |e: Option<HistoryEntry>| e is Some;
    let value = |e: Option<HistoryEntry>| e->0@;
    if v.len() > 0 {
        lemma_readable_by_filter(v.drop_last());
        if v.last() is Some {
            assert(v.drop_last().filter(some).push(v.last()).map_values(value)
                == v.drop_last().filter(some).map_values(value).push(value(v.last())));
        }
    } else {
        assert(v.filter(some).map_values(value) == Seq::<HistoryView>::empty());
    }
}

/// Every entry that could be read is kept, as it is and in its order, and
/// nothing else is.
pub proof fn law_readable_entries_are_kept(
    read: &Vec<Option<HistoryEntry>>,
    r: Vec<HistoryEntry>,
)
    requires
        call_ensures(keep_readable, (read,), r),
    ensures
        r@.map_values(|e: HistoryEntry| e@) == read@.filter(
            |e: Option<HistoryEntry>| e is Some,
        ).map_values(|e: Option<HistoryEntry>| e->0@),
{
    lemma_readable_by_filter(read@);
    assert(r@.map_values(|e: HistoryEntry| e@) == entries_of(r@));
}

/// A file holds its lines one after the other, each with a line feed behind
/// it.
pub proof fn law_file_holds_its_lines(lines: &Vec<String>, r: String)
    requires
        call_ensures(file_text, (lines,), r),
    ensures
        r@ == lines@.map_values(|l: String| l@.push('\n')).flatten(),
{
    lemma_lines_file(lines@);
    lines@.map_values(|l: String| l@.push('\n')).lemma_flatten_and_flatten_alt_are_equivalent();
}

proof fn lemma_lines_file(lines: Seq<String>)
    ensures
        lines_file(text::texts(lines)) == lines.map_values(
            |l: String| l@.push('\n'),
        ).flatten_alt(),
    decreases lines.len(),
{
    let f = |l: String| l@.push('\n');
    if lines.len() > 0 {
        lemma_lines_file(lines.drop_last());
        assert(text::texts(lines).drop_last() == text::texts(lines.drop_last()));
        assert(lines.map_values(f).drop_last() == lines.drop_last().map_values(f));
        assert(lines.map_values(f).last() == lines.last()@.push('\n'));
    } else {
        assert(lines.map_values(f).flatten_alt() == Seq::<char>::empty());
    }
}

/// A copy of an entry says the same.
pub proof fn law_copy(e: &HistoryEntry, r: HistoryEntry)
    requires
        call_ensures(HistoryEntry::clone, (e,), r),
    ensures
        r.timestamp@ == e.timestamp@,
        r.provider@ == e.provider@,
        r.source_lang@ == e.source_lang@,
        r.target_lang@ == e.target_lang@,
        r.original@ == e.original@,
        r.translated@ == e.translated@,
{
}

} // verus!
