//! Commands for a running Live Region Translate session, so that they can be
//! bound to keys. They are left in a file, one to the line, which the
//! session reads and clears.

use crate::history;
use crate::http;
use crate::http::Failure;
use crate::text;
use crate::text::split_lines;
use crate::text::Delimiter;
use crate::text_laws;
use vstd::prelude::*;

verus! {

/// What a running session is asked.
#[derive(Debug)]
pub enum RegionCommand {
    /// Capture once, and show the translation in the session's window.
    QuickCapture,
    /// Show where the watched regions are.
    ShowRegions,
    /// Stop watching a region.
    Delete { id: usize },
    /// Give a region a name.
    Rename { id: usize, name: String },
}

#[verifier::ext_equal]
pub enum CommandView {
    QuickCapture,
    ShowRegions,
    Delete { id: usize },
    Rename { id: usize, name: Seq<char> },
}

impl View for RegionCommand {
    type V = CommandView;

    open spec fn view(&self) -> CommandView {
        match *self {
            RegionCommand::QuickCapture => CommandView::QuickCapture,
            RegionCommand::ShowRegions => CommandView::ShowRegions,
            RegionCommand::Delete { id } => CommandView::Delete { id },
            RegionCommand::Rename { id, name } => CommandView::Rename { id, name: name@ },
        }
    }
}

impl Clone for RegionCommand {
    fn clone(&self) -> (r: Self)
        ensures
            r@ == self@,
    {
        match self {
            RegionCommand::QuickCapture => RegionCommand::QuickCapture,
            RegionCommand::ShowRegions => RegionCommand::ShowRegions,
            RegionCommand::Delete { id } => RegionCommand::Delete { id: *id },
            RegionCommand::Rename { id, name } => RegionCommand::Rename {
                id: *id,
                name: name.clone(),
            },
        }
    }
}

/// What is reported if there is no session to ask.
pub open spec fn no_session() -> Seq<char> {
    "Live Region Translate isn't running — start it from the tray or `ocr-translate watch-region` first"@
}

/// What is added to the file for a command, or why nothing is. `active`
/// tells whether a session is running; without one nobody would ever read
/// the command.
pub fn send(active: bool, line: &str) -> (r: Result<String, Failure>)
    ensures
        http::said(r) == (if active {
            Ok(line@.push('\n'))
        } else {
            Err(http::plain(no_session()))
        }),
{
    if !active {
        return Err(
            Failure::new(
                "Live Region Translate isn't running — start it from the tray or `ocr-translate watch-region` first",
            ),
        );
    }
    let mut r = line.to_owned();
    r.push('\n');
    Ok(r)
}

/// The lines of the file, each of them a command.
pub fn pending_lines(contents: &str) -> (r: Vec<String>)
    ensures
        text::texts(r@) == text::text_lines(contents@),
{
    split_lines(contents)
}

/// The commands that could be read, in their order.
pub open spec fn known(read: Seq<Option<RegionCommand>>) -> Seq<CommandView>
    decreases read.len(),
{
    if read.len() == 0 {
        Seq::<CommandView>::empty()
    } else {
        match read.last() {
            Some(c) => known(read.drop_last()).push(c@),
            None => known(read.drop_last()),
        }
    }
}

/// The commands that lines hold; a line that could not be read, such as one
/// that a later version wrote, is skipped.
pub fn drain(read: &Vec<Option<RegionCommand>>) -> (r: Vec<RegionCommand>)
    ensures
        r@.map_values(|c: RegionCommand| c@) == known(read@),
{
    let mut r: Vec<RegionCommand> = Vec::new();
    let mut i: usize = 0;
    assert(read@.take(0) =~= Seq::<Option<RegionCommand>>::empty());
    assert(r@.map_values(|c: RegionCommand| c@) =~= Seq::<CommandView>::empty());
    while i < read.len()
        invariant
            i <= read@.len(),
            r@.map_values(|c: RegionCommand| c@) == known(read@.take(i as int)),
        decreases read@.len() - i,
    {
        let ghost before = r@;
        assert(read@.take(i + 1).drop_last() =~= read@.take(i as int));
        if let Some(c) = &read[i] {
            let copy = c.clone();
            r.push(copy);
            assert(r@.map_values(|c: RegionCommand| c@) =~= before.map_values(
                |c: RegionCommand| c@,
            ).push(copy@));
        }
        i += 1;
    }
    assert(read@.take(read@.len() as int) =~= read@);
    r
}

/// The session finds the very lines that were sent, in their order: each
/// send adds a line with a line feed behind it to the file.
pub proof fn law_sent_lines_are_pending(lines: Seq<Seq<char>>)
    requires
        forall|i: int| 0 <= i < lines.len() ==> history::is_file_line(#[trigger] lines[i]),
    ensures
        text::text_lines(history::lines_file(lines)) == lines,
{
    history::law_file_roundtrip(lines);
}

/// A command that is sent adds its line to those in the file.
pub proof fn law_send_adds_a_line(lines: Seq<Seq<char>>, line: Seq<char>)
    ensures
        history::lines_file(lines) + line.push('\n') == history::lines_file(lines.push(line)),
{
    assert(lines.push(line).drop_last() == lines);
}

/// A command that was read from a line, if one was.
pub open spec fn read_command(c: Option<RegionCommand>) -> Option<CommandView> {
    match c {
        Some(c) => Some(c@),
        None => None,
    }
}

/// Whether `read` holds what `reading` makes of each of the lines.
pub open spec fn is_reading(
    read: Seq<Option<RegionCommand>>,
    lines: Seq<Seq<char>>,
    reading: spec_fn(Seq<char>) -> Option<CommandView>,
) -> bool {
    &&& read.len() == lines.len()
    &&& forall|i: int|
        0 <= i < lines.len() ==> read_command(#[trigger] read[i]) == reading(lines[i])
}

/// The lines that can be read.
pub open spec fn command_lines(
    lines: Seq<Seq<char>>,
    reading: spec_fn(Seq<char>) -> Option<CommandView>,
) -> Seq<Seq<char>> {
    lines.filter(|l: Seq<char>| reading(l) is Some)
}

proof fn lemma_known(
    lines: Seq<Seq<char>>,
    reading: spec_fn(Seq<char>) -> Option<CommandView>,
    read: Seq<Option<RegionCommand>>,
)
    requires
        is_reading(read, lines, reading),
    ensures
        known(read) == command_lines(lines, reading).map_values(|l: Seq<char>| reading(l)->0),
    decreases lines.len(),
{
    reveal(Seq::filter);
    let value = |l: Seq<char>| reading(l)->0;
    if lines.len() > 0 {
        let rest = lines.drop_last();
        let l = lines.last();
        assert(read_command(read[lines.len() - 1]) == reading(lines[lines.len() - 1]));
        assert forall|i: int| 0 <= i < rest.len() implies read_command(
            #[trigger] read.drop_last()[i],
        ) == reading(rest[i]) by {
            assert(read_command(read[i]) == reading(lines[i]));
        }
        lemma_known(rest, reading, read.drop_last());
        if reading(l) is Some {
            assert(command_lines(lines, reading) == command_lines(rest, reading).push(l));
            assert(command_lines(rest, reading).push(l).map_values(value) == command_lines(
                rest,
                reading,
            ).map_values(value).push(value(l)));
        } else {
            assert(command_lines(lines, reading) == command_lines(rest, reading));
        }
    } else {
        assert(command_lines(lines, reading).map_values(value) == Seq::<CommandView>::empty());
    }
}

/// The session gets the commands that were sent, in their order, whatever
/// else stands in the file: any number of lines that cannot be read before,
/// between and behind theirs change nothing.
///
/// `line_of` is how a command is written and `reading` how a line is read;
/// `lines` are those of the file, and `read` is what was made of them.
pub proof fn law_sent_commands_are_drained(
    commands: Seq<CommandView>,
    line_of: spec_fn(CommandView) -> Seq<char>,
    reading: spec_fn(Seq<char>) -> Option<CommandView>,
    lines: Seq<Seq<char>>,
    read: Seq<Option<RegionCommand>>,
)
    requires
        forall|i: int|
            0 <= i < commands.len() ==> reading(line_of(#[trigger] commands[i])) == Some(
                commands[i],
            ),
        forall|i: int|
            0 <= i < lines.len() ==> text_laws::uncut(#[trigger] lines[i], Delimiter::Char('\n')),
        command_lines(lines.map_values(|l: Seq<char>| text::without_cr(l)), reading)
            == commands.map_values(line_of),
        is_reading(read, text::text_lines(history::lines_file(lines)), reading),
    ensures
        known(read) == commands,
{
    history::law_file_lines(lines);
    let found = lines.map_values(|l: Seq<char>| text::without_cr(l));
    lemma_known(found, reading, read);
    let value = |l: Seq<char>| reading(l)->0;
    assert forall|i: int| 0 <= i < commands.len() implies #[trigger] commands.map_values(
        line_of,
    ).map_values(value)[i] == commands[i] by {
        assert(reading(line_of(commands[i])) == Some(commands[i]));
    }
    assert(commands.map_values(line_of).map_values(value) == commands);
}

/// A file that was cleared holds no commands.
pub proof fn law_cleared_file_has_no_commands()
    ensures
        text::text_lines(Seq::<char>::empty()) == Seq::<Seq<char>>::empty(),
        known(Seq::<Option<RegionCommand>>::empty()) == Seq::<CommandView>::empty(),
{
    history::law_file_roundtrip(Seq::<Seq<char>>::empty());
    assert(history::lines_file(Seq::<Seq<char>>::empty()) == Seq::<char>::empty());
}

/// If every line can be read, every command is kept.
pub proof fn law_known_commands_are_kept(read: Seq<Option<RegionCommand>>)
    requires
        forall|i: int| 0 <= i < read.len() ==> #[trigger] read[i] is Some,
    ensures
        known(read).len() == read.len(),
        forall|i: int| 0 <= i < read.len() ==> #[trigger] known(read)[i] == read[i]->0@,
    decreases read.len(),
{
    if read.len() > 0 {
        assert(read[read.len() - 1] is Some);
        assert forall|i: int| 0 <= i < read.drop_last().len() implies #[trigger] read.drop_last()[i]
            is Some by {
            assert(read[i] is Some);
        }
        law_known_commands_are_kept(read.drop_last());
    }
}

/// A command is sent as its line and a line feed if a session is running,
/// and refused if none is.
pub proof fn law_send(active: bool, line: &str, r: Result<String, Failure>)
    requires
        call_ensures(send, (active, line), r),
    ensures
        active ==> (r matches Ok(s) && s@ == line@ + seq!['\n']),
        !active ==> (r matches Err(f) && f.cause is None),
{
    assert(line@.push('\n') == line@ + seq!['\n']);
}

/// The pending lines are the lines of the file.
pub proof fn law_pending_lines(contents: &str, r: Vec<String>, lines: Vec<String>)
    requires
        call_ensures(pending_lines, (contents,), r),
        call_ensures(split_lines, (contents,), lines),
    ensures
        text::texts(r@) == text::texts(lines@),
{
}

proof fn lemma_known_by_filter(v: Seq<Option<RegionCommand>>)
    ensures
        known(v) == v.filter(|c: Option<RegionCommand>| c is Some).map_values(
            |c: Option<RegionCommand>| c->0@,
        ),
    decreases v.len(),
{
    reveal(Seq::filter);
    let some = |c: Option<RegionCommand>| c is Some;
    let value = |c: Option<RegionCommand>| c->0@;
    if v.len() > 0 {
        lemma_known_by_filter(v.drop_last());
        if v.last() is Some {
            assert(v.drop_last().filter(some).push(v.last()).map_values(value)
                == v.drop_last().filter(some).map_values(value).push(value(v.last())));
        }
    } else {
        assert(v.filter(some).map_values(value) == Seq::<CommandView>::empty());
    }
}

/// Every command that could be read is handed on, as it is and in its order,
/// and nothing else is.
pub proof fn law_readable_commands_are_drained(
    read: &Vec<Option<RegionCommand>>,
    r: Vec<RegionCommand>,
)
    requires
        call_ensures(drain, (read,), r),
    ensures
        r@.map_values(|c: RegionCommand| c@) == read@.filter(
            |c: Option<RegionCommand>| c is Some,
        ).map_values(|c: Option<RegionCommand>| c->0@),
{
    lemma_known_by_filter(read@);
}

} // verus!
