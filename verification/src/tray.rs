//! The tray menu.

use crate::daemon::DaemonEvent;
use crate::history;
use crate::history::HistoryEntry;
use crate::number;
use crate::number::{parse_usize, render_usize};
use crate::text;
use crate::text::{chars_of, join, same_text, split_words, string_of, strip_prefix, Delimiter};
use crate::text_laws;
use vstd::prelude::*;

verus! {

// ---------------------------------------------------------------------
// Labels
// ---------------------------------------------------------------------

/// The words of a text with one space between them.
pub open spec fn flat(s: Seq<char>) -> Seq<char> {
    text::joined(text::words(s), " "@)
}

/// A label of one line and at most 40 characters.
pub open spec fn label(s: Seq<char>) -> Seq<char> {
    if flat(s).len() > 40 {
        flat(s).take(37) + "..."@
    } else if flat(s).len() == 0 {
        "(no text)"@
    } else {
        flat(s)
    }
}

/// A label of one line and at most 40 characters. Recognized text often has
/// several lines, and a menu's labels should not.
pub fn snippet(s: &str) -> (r: String)
    ensures
        r@ == label(s@),
{
    let words = split_words(s);
    let line = join(&words, " ");
    let v = chars_of(line.as_str());
    if v.len() > 40 {
        let mut r = string_of(&v, 0, 37);
        assert(v@.subrange(0, 37) =~= flat(s@).take(37));
        r.append("...");
        r
    } else if v.len() == 0 {
        "(no text)".to_owned()
    } else {
        line
    }
}

/// Whether all the white space in a text is spaces.
pub open spec fn only_spaces(s: Seq<char>) -> bool {
    forall|i: int| 0 <= i < s.len() && text::is_white(#[trigger] s[i]) ==> s[i] == ' '
}

/// Whether no two spaces meet in a text.
pub open spec fn spaces_apart(s: Seq<char>) -> bool {
    forall|i: int, j: int|
        0 <= i < s.len() && j == i + 1 && j < s.len() && #[trigger] s[i] == ' ' ==> #[trigger] s[j]
            != ' '
}

/// Whether a text is words with one space between them: its white space is
/// spaces, no two of them meet, and none stands at an end.
pub open spec fn single_spaced(s: Seq<char>) -> bool {
    &&& only_spaces(s)
    &&& spaces_apart(s)
    &&& s.len() > 0 ==> s[0] != ' ' && s.last() != ' '
}

/// Words joined by spaces are words with one space between them.
proof fn lemma_joined_single_spaced(parts: Seq<Seq<char>>)
    requires
        forall|i: int|
            0 <= i < parts.len() ==> text_laws::uncut(#[trigger] parts[i], Delimiter::White)
                && parts[i].len() > 0,
    ensures
        single_spaced(text::joined(parts, " "@)),
        parts.len() > 0 ==> text::joined(parts, " "@).len() > 0,
    decreases parts.len(),
{
    reveal_strlit(" ");
    if parts.len() > 0 {
        let last = parts[parts.len() - 1];
        assert(text_laws::uncut(last, Delimiter::White) && last.len() > 0);
        assert forall|i: int| 0 <= i < last.len() implies !text::is_white(#[trigger] last[i])
            && last[i] != ' ' by {
            assert(!Delimiter::White.cuts(last[i]));
        }
        if parts.len() > 1 {
            assert forall|i: int| 0 <= i < parts.drop_last().len() implies text_laws::uncut(
                #[trigger] parts.drop_last()[i],
                Delimiter::White,
            ) && parts.drop_last()[i].len() > 0 by {
                assert(parts.drop_last()[i] == parts[i]);
            }
            lemma_joined_single_spaced(parts.drop_last());
            let front = text::joined(parts.drop_last(), " "@);
            let n = front.len() as int;
            let all = front + " "@ + last;
            assert(all.len() == n + 1 + last.len());
            assert forall|i: int| 0 <= i < all.len() implies #[trigger] all[i] == (if i < n {
                front[i]
            } else if i == n {
                ' '
            } else {
                last[i - n - 1]
            }) by {}
            assert(spaces_apart(all)) by {
                assert forall|i: int, j: int|
                    0 <= i < all.len() && j == i + 1 && j < all.len() && #[trigger] all[i]
                        == ' ' implies #[trigger] all[j] != ' ' by {
                    if j < n {
                        assert(front[i] == ' ' ==> front[j] != ' ');
                    } else if j == n {
                        assert(all[i] == front.last());
                    } else {
                        assert(all[j] == last[j - n - 1]);
                    }
                }
            }
        }
    }
}

/// On a text whose white space is spaces, cutting at white space is cutting
/// at spaces.
proof fn lemma_cut_at_spaces(s: Seq<char>)
    requires
        only_spaces(s),
    ensures
        text::pieces(s, Delimiter::White) == text::pieces(s, Delimiter::Char(' ')),
    decreases s.len(),
{
    if s.len() > 0 {
        let rest = s.drop_last();
        assert forall|i: int| 0 <= i < rest.len() && text::is_white(#[trigger] rest[i]) implies rest[i]
            == ' ' by {
            assert(rest[i] == s[i]);
        }
        lemma_cut_at_spaces(rest);
        assert(s[s.len() - 1] == s.last());
    }
}

/// The pieces of a text in which no two spaces meet and none stands in front
/// are not empty, but for the last one behind a space at the end.
proof fn lemma_pieces_filled(s: Seq<char>)
    requires
        only_spaces(s),
        spaces_apart(s),
        s.len() > 0,
        s[0] != ' ',
    ensures
        ({
            let cut = text::pieces(s, Delimiter::White);
            &&& cut.len() > 0
            &&& forall|i: int| 0 <= i < cut.len() - 1 ==> (#[trigger] cut[i]).len() > 0
            &&& s.last() != ' ' ==> cut.last().len() > 0
        }),
    decreases s.len(),
{
    let cut = text::pieces(s, Delimiter::White);
    let rest = s.drop_last();
    let before = text::pieces(rest, Delimiter::White);
    text::lemma_pieces_not_empty(s, Delimiter::White);
    text::lemma_pieces_not_empty(rest, Delimiter::White);
    assert(s[s.len() - 1] == s.last());
    if rest.len() == 0 {
        assert(cut == before.drop_last().push(before.last().push(s.last())));
    } else {
        assert forall|i: int| 0 <= i < rest.len() && text::is_white(#[trigger] rest[i]) implies rest[i]
            == ' ' by {
            assert(rest[i] == s[i]);
        }
        assert forall|i: int, j: int|
            0 <= i < rest.len() && j == i + 1 && j < rest.len() && #[trigger] rest[i]
                == ' ' implies #[trigger] rest[j] != ' ' by {
            assert(rest[i] == s[i] && rest[j] == s[j]);
        }
        lemma_pieces_filled(rest);
        if text::is_white(s.last()) {
            assert(rest.last() == s[s.len() - 2]);
            assert(cut == before.push(Seq::<char>::empty()));
        } else {
            assert(cut == before.drop_last().push(before.last().push(s.last())));
        }
    }
}

/// A text of words with one space between them is left as it is.
proof fn lemma_flat_fixed(s: Seq<char>)
    requires
        single_spaced(s),
        s.len() > 0,
    ensures
        flat(s) == s,
{
    reveal_strlit(" ");
    let cut = text::pieces(s, Delimiter::White);
    lemma_pieces_filled(s);
    assert forall|i: int| 0 <= i < cut.len() implies (#[trigger] cut[i]).len() > 0 by {
        if i == cut.len() - 1 {
            assert(cut[i] == cut.last());
        }
    }
    text_laws::lemma_filter_all(cut, |p: Seq<char>| p.len() > 0);
    lemma_cut_at_spaces(s);
    text_laws::law_split_then_join(s, ' ');
    assert(seq![' '] == " "@);
}

/// A label fits into a menu: it has one line, at most 40 characters, and is
/// not empty; its words have one space between them and none at an end.
pub proof fn law_label_fits(s: Seq<char>)
    ensures
        0 < label(s).len() <= 40,
        single_spaced(label(s)),
{
    reveal_strlit("...");
    reveal_strlit("(no text)");
    let cut = text::pieces(s, Delimiter::White);
    text_laws::law_pieces_are_uncut(s, Delimiter::White);
    let words = text::words(s);
    assert forall|i: int| 0 <= i < words.len() implies text_laws::uncut(
        #[trigger] words[i],
        Delimiter::White,
    ) && words[i].len() > 0 by {
        cut.lemma_filter_contains_rev(|p: Seq<char>| p.len() > 0, words[i]);
        let k = choose|k: int| 0 <= k < cut.len() && cut[k] == words[i];
        assert(text_laws::uncut(cut[k], Delimiter::White));
        cut.lemma_filter_pred(|p: Seq<char>| p.len() > 0, i);
    }
    lemma_joined_single_spaced(words);
    let f = flat(s);
    if f.len() > 40 {
        let l = f.take(37) + "..."@;
        assert forall|i: int| 0 <= i < l.len() implies #[trigger] l[i] == (if i < 37 {
            f[i]
        } else {
            '.'
        }) by {}
        assert(spaces_apart(l)) by {
            assert forall|i: int, j: int|
                0 <= i < l.len() && j == i + 1 && j < l.len() && #[trigger] l[i]
                    == ' ' implies #[trigger] l[j] != ' ' by {
                if j < 37 {
                    assert(f[i] == ' ' ==> f[j] != ' ');
                }
            }
        }
    }
}

/// A label is its own label.
pub proof fn law_label_of_label(s: Seq<char>)
    ensures
        label(label(s)) == label(s),
{
    law_label_fits(s);
    lemma_flat_fixed(label(s));
}

/// What tells one state of the history from another: how many entries the
/// menu shows, and when the newest was made.
pub open spec fn mark(entries: Seq<history::HistoryView>) -> Seq<char> {
    if entries.len() > 0 {
        number::decimal(entries.len()) + "|"@ + entries[0].timestamp
    } else {
        number::decimal(0)
    }
}

/// What tells one state of the history from another, so that the menu is
/// built anew only if it changed.
pub fn fingerprint(entries: &Vec<HistoryEntry>) -> (r: String)
    ensures
        r@ == mark(history::entries_of(entries@)),
{
    let mut r = render_usize(entries.len());
    if entries.len() > 0 {
        r.append("|");
        r.append(entries[0].timestamp.as_str());
    }
    r
}

// ---------------------------------------------------------------------
// The menu
// ---------------------------------------------------------------------

/// One line of a menu.
#[derive(Debug)]
pub enum MenuLine {
    Item { id: String, label: String },
    /// A line that cannot be chosen.
    Note { label: String },
    Separator,
}

#[verifier::ext_equal]
pub enum LineView {
    Item { id: Seq<char>, label: Seq<char> },
    Note { label: Seq<char> },
    Separator,
}

impl View for MenuLine {
    type V = LineView;

    open spec fn view(&self) -> LineView {
        match *self {
            MenuLine::Item { id, label } => LineView::Item { id: id@, label: label@ },
            MenuLine::Note { label } => LineView::Note { label: label@ },
            MenuLine::Separator => LineView::Separator,
        }
    }
}

/// What the lines of a menu say.
pub open spec fn lines_view(v: Seq<MenuLine>) -> Seq<LineView> {
    v.map_values(|l: MenuLine| l@)
}

/// The menu: lines, the submenu of the history, and lines again.
#[derive(Debug)]
pub struct TrayMenu {
    pub top: Vec<MenuLine>,
    pub history_title: String,
    pub history: Vec<MenuLine>,
    pub bottom: Vec<MenuLine>,
}

/// The name of an entry of the history in the menu, the newest being 0.
pub open spec fn history_id(index: nat) -> Seq<char> {
    "history:"@ + number::decimal(index)
}

/// The lines for entries of the history.
pub open spec fn entry_lines(entries: Seq<history::HistoryView>) -> Seq<LineView> {
    Seq::new(
        entries.len(),
        |i: int| LineView::Item { id: history_id(i as nat), label: label(entries[i].original) },
    )
}

/// The submenu of the history.
pub open spec fn history_menu(entries: Seq<history::HistoryView>) -> Seq<LineView> {
    if entries.len() == 0 {
        seq![LineView::Note { label: "No history yet"@ }]
    } else {
        entry_lines(entries).push(LineView::Separator).push(
            LineView::Item { id: "history:clear"@, label: "Clear History"@ },
        )
    }
}

/// The lines above the history.
pub open spec fn top_lines() -> Seq<LineView> {
    seq![
        LineView::Item { id: "capture"@, label: "Capture region"@ },
        LineView::Item { id: "watch-clipboard"@, label: "Live Clipboard Translate"@ },
    ]
}

/// The lines below the history.
pub open spec fn bottom_lines() -> Seq<LineView> {
    seq![LineView::Separator, LineView::Item { id: "quit"@, label: "Quit"@ }]
}

fn item(id: &str, label: &str) -> (r: MenuLine)
    ensures
        r@ == (LineView::Item { id: id@, label: label@ }),
{
    MenuLine::Item { id: id.to_owned(), label: label.to_owned() }
}

fn history_lines(entries: &Vec<HistoryEntry>) -> (r: Vec<MenuLine>)
    ensures
        lines_view(r@) == history_menu(history::entries_of(entries@)),
{
    let ghost shown = history::entries_of(entries@);
    let mut r: Vec<MenuLine> = Vec::new();
    if entries.len() == 0 {
        r.push(MenuLine::Note { label: "No history yet".to_owned() });
        assert(lines_view(r@) =~= history_menu(shown));
        return r;
    }
    let mut i: usize = 0;
    while i < entries.len()
        invariant
            i <= entries@.len(),
            shown == history::entries_of(entries@),
            r@.len() == i,
            forall|k: int| 0 <= k < i ==> (#[trigger] r@[k])@ == entry_lines(shown)[k],
        decreases entries@.len() - i,
    {
        let mut id = "history:".to_owned();
        let digits = render_usize(i);
        id.append(digits.as_str());
        let label = snippet(entries[i].original.as_str());
        r.push(MenuLine::Item { id, label });
        assert(r@[i as int]@ == entry_lines(shown)[i as int]);
        i += 1;
    }
    assert(lines_view(r@) =~= entry_lines(shown));
    r.push(MenuLine::Separator);
    r.push(item("history:clear", "Clear History"));
    assert(lines_view(r@) =~= history_menu(shown));
    r
}

/// The menu with the given entries of the history, newest first.
pub fn build_menu(entries: &Vec<HistoryEntry>) -> (r: TrayMenu)
    ensures
        lines_view(r.top@) == top_lines(),
        r.history_title@ == "History"@,
        lines_view(r.history@) == history_menu(history::entries_of(entries@)),
        lines_view(r.bottom@) == bottom_lines(),
{
    let mut top: Vec<MenuLine> = Vec::new();
    top.push(item("capture", "Capture region"));
    top.push(item("watch-clipboard", "Live Clipboard Translate"));
    assert(lines_view(top@) =~= top_lines());
    let mut bottom: Vec<MenuLine> = Vec::new();
    bottom.push(MenuLine::Separator);
    bottom.push(item("quit", "Quit"));
    assert(lines_view(bottom@) =~= bottom_lines());
    TrayMenu {
        top,
        history_title: "History".to_owned(),
        history: history_lines(entries),
        bottom,
    }
}

/// What a chosen line of the menu asks for.
pub open spec fn chosen(id: Seq<char>) -> Option<DaemonEvent> {
    if id == "capture"@ {
        Some(DaemonEvent::Capture)
    } else if id == "watch-clipboard"@ {
        Some(DaemonEvent::WatchClipboard)
    } else if id == "quit"@ {
        Some(DaemonEvent::Quit)
    } else if id == "history:clear"@ {
        Some(DaemonEvent::ClearHistory)
    } else if text::has_prefix(id, "history:"@) {
        match number::unsigned_in(id.skip("history:"@.len() as int), usize::MAX as nat) {
            Some(n) => Some(DaemonEvent::ShowHistory(n as usize)),
            None => None,
        }
    } else {
        None
    }
}

/// What a chosen line of the menu asks for.
pub fn menu_event(id: &str) -> (r: Option<DaemonEvent>)
    ensures
        r == chosen(id@),
{
    if same_text(id, "capture") {
        return Some(DaemonEvent::Capture);
    }
    if same_text(id, "watch-clipboard") {
        return Some(DaemonEvent::WatchClipboard);
    }
    if same_text(id, "quit") {
        return Some(DaemonEvent::Quit);
    }
    if same_text(id, "history:clear") {
        return Some(DaemonEvent::ClearHistory);
    }
    match strip_prefix(id, "history:") {
        Some(rest) => match parse_usize(rest.as_str()) {
            Some(n) => Some(DaemonEvent::ShowHistory(n)),
            None => None,
        },
        None => None,
    }
}

/// Choosing a line of the history shows the entry that the line stands for.
pub proof fn law_history_line_shows_its_entry(index: nat)
    requires
        index <= usize::MAX,
    ensures
        chosen(history_id(index)) == Some(DaemonEvent::ShowHistory(index as usize)),
{
    reveal_strlit("capture");
    reveal_strlit("watch-clipboard");
    reveal_strlit("quit");
    reveal_strlit("history:clear");
    reveal_strlit("history:");
    let id = history_id(index);
    let digits = number::decimal(index);
    assert(id.skip("history:"@.len() as int) =~= digits);
    assert(id.take("history:"@.len() as int) =~= "history:"@);
    number::law_unsigned_roundtrip(index, usize::MAX as nat);
    assert(id[0] == 'h');
    assert("capture"@[0] == 'c');
    assert("watch-clipboard"@[0] == 'w');
    assert("quit"@[0] == 'q');
    if id == "history:clear"@ {
        assert(digits =~= "history:clear"@.skip(8));
        number::lemma_decimal_digits(index);
        assert(digits[0] == 'c');
    }
}

/// The other lines of the menu ask for what their labels say.
pub proof fn law_fixed_lines()
    ensures
        chosen("capture"@) == Some(DaemonEvent::Capture),
        chosen("watch-clipboard"@) == Some(DaemonEvent::WatchClipboard),
        chosen("history:clear"@) == Some(DaemonEvent::ClearHistory),
        chosen("quit"@) == Some(DaemonEvent::Quit),
{
    reveal_strlit("capture");
    reveal_strlit("watch-clipboard");
    reveal_strlit("quit");
    reveal_strlit("history:clear");
    assert("capture"@[0] == 'c');
    assert("watch-clipboard"@[0] == 'w');
    assert("quit"@[0] == 'q');
    assert("history:clear"@[0] == 'h');
}

// ---------------------------------------------------------------------
// What the menu shows and does
// ---------------------------------------------------------------------

/// A label is the text's words with a space between them; what is longer than
/// 40 characters ends after 37 of them in three dots, and a text without words
/// is called so.
pub proof fn law_label_is_the_words(
    s: &str,
    r: String,
    words: &Vec<String>,
    space: &str,
    line: String,
)
    requires
        call_ensures(snippet, (s,), r),
        call_ensures(split_words, (s,), *words),
        space@ == " "@,
        call_ensures(join, (words, space), line),
    ensures
        0 < line@.len() <= 40 ==> r@ == line@,
        line@.len() > 40 ==> r@ == line@.take(37) + "..."@,
        line@.len() == 0 ==> r@ == "(no text)"@,
{
}

/// A text of words with one space between them that fits is its own label.
pub proof fn law_short_text_is_its_own_label(s: &str, r: String)
    requires
        call_ensures(snippet, (s,), r),
        single_spaced(s@),
        0 < s@.len() <= 40,
    ensures
        r@ == s@,
{
    lemma_flat_fixed(s@);
}

/// The mark of a history names how many entries are shown and when the
/// newest was made.
pub proof fn law_mark(entries: &Vec<HistoryEntry>, r: String)
    requires
        call_ensures(fingerprint, (entries,), r),
    ensures
        entries@.len() == 0 ==> r@ == "0"@,
        entries@.len() > 0 ==> r@ == number::decimal(entries@.len()) + "|"@
            + entries@[0].timestamp@,
{
    reveal_strlit("0");
    assert(number::decimal(0) == "0"@);
    if entries@.len() > 0 {
        assert(history::entries_of(entries@)[0] == entries@[0]@);
    }
}

/// The menu shows each entry in its order, by the label of its original
/// text, and choosing a line shows that entry. Behind the entries the history
/// can be cleared; without entries there is nothing to choose.
pub proof fn law_menu_lists_the_entries(
    entries: &Vec<HistoryEntry>,
    menu: TrayMenu,
    i: int,
    original: &str,
    label: String,
    id: &str,
    event: Option<DaemonEvent>,
)
    requires
        call_ensures(build_menu, (entries,), menu),
        call_ensures(snippet, (original,), label),
        call_ensures(menu_event, (id,), event),
    ensures
        entries@.len() == 0 ==> menu.history@.len() == 1 && (menu.history@[0] matches MenuLine::Note {
            label: note,
        } && note@ == "No history yet"@),
        entries@.len() > 0 ==> {
            &&& menu.history@.len() == entries@.len() + 2
            &&& menu.history@[entries@.len() as int] is Separator
            &&& menu.history@.last() matches MenuLine::Item { id: clear, label: text } && clear@
                == "history:clear"@ && text@ == "Clear History"@
        },
        0 <= i < entries@.len() ==> (menu.history@[i] matches MenuLine::Item {
            id: line_id,
            label: line_label,
        } && {
            &&& original@ == entries@[i].original@ ==> line_label@ == label@
            &&& id@ == line_id@ ==> event == Some(DaemonEvent::ShowHistory(i as usize))
        }),
{
    let shown = history::entries_of(entries@);
    let lines = lines_view(menu.history@);
    assert(lines == history_menu(shown));
    assert(lines.len() == menu.history@.len());
    if entries@.len() == 0 {
        assert(lines[0] == menu.history@[0]@);
    } else {
        let n = entries@.len() as int;
        assert(lines[n] == menu.history@[n]@);
        assert(lines[n + 1] == menu.history@[n + 1]@);
    }
    if 0 <= i < entries@.len() {
        assert(lines[i] == menu.history@[i]@);
        assert(lines[i] == entry_lines(shown)[i]);
        assert(shown[i] == entries@[i]@);
        assert(entries.len() == entries@.len());
        law_history_line_shows_its_entry(i as nat);
    }
}

/// The lines around the history, and what choosing them asks for.
pub proof fn law_menu_has_its_fixed_lines(
    entries: &Vec<HistoryEntry>,
    menu: TrayMenu,
    id: &str,
    event: Option<DaemonEvent>,
)
    requires
        call_ensures(build_menu, (entries,), menu),
        call_ensures(menu_event, (id,), event),
    ensures
        menu.history_title@ == "History"@,
        menu.top@.len() == 2,
        menu.top@[0] matches MenuLine::Item { id: a, label: x } && x@ == "Capture region"@ && (id@
            == a@ ==> event == Some(DaemonEvent::Capture)),
        menu.top@[1] matches MenuLine::Item { id: b, label: y } && y@
            == "Live Clipboard Translate"@ && (id@ == b@ ==> event == Some(
            DaemonEvent::WatchClipboard,
        )),
        menu.bottom@.len() == 2,
        menu.bottom@[0] is Separator,
        menu.bottom@[1] matches MenuLine::Item { id: c, label: z } && z@ == "Quit"@ && (id@ == c@
            ==> event == Some(DaemonEvent::Quit)),
        id@ == "history:clear"@ ==> event == Some(DaemonEvent::ClearHistory),
{
    law_fixed_lines();
    assert(lines_view(menu.top@).len() == menu.top@.len());
    assert(lines_view(menu.top@)[0] == menu.top@[0]@);
    assert(lines_view(menu.top@)[1] == menu.top@[1]@);
    assert(lines_view(menu.bottom@).len() == menu.bottom@.len());
    assert(lines_view(menu.bottom@)[0] == menu.bottom@[0]@);
    assert(lines_view(menu.bottom@)[1] == menu.bottom@[1]@);
}

/// A name that no line has asks for nothing.
pub proof fn law_other_names_ask_for_nothing(id: &str, event: Option<DaemonEvent>)
    requires
        call_ensures(menu_event, (id,), event),
        id@ != "capture"@,
        id@ != "watch-clipboard"@,
        id@ != "quit"@,
        id@ != "history:clear"@,
        forall|rest: Seq<char>|
            id@ == #[trigger] ("history:"@ + rest) ==> number::unsigned_in(rest, usize::MAX as nat)
                is None,
    ensures
        event is None,
{
    if text::has_prefix(id@, "history:"@) {
        let rest = id@.skip("history:"@.len() as int);
        assert(id@ == id@.take("history:"@.len() as int) + rest);
        assert(id@ == "history:"@ + rest);
    }
}

} // verus!
