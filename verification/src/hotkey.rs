//! Hotkeys, written like `CTRL+ALT+O`.

use crate::http;
use crate::http::Failure;
use crate::letter_case;
use crate::letter_case::to_uppercase;
use crate::text;
use crate::text::{chars_of, same_text, split, trim_all, Delimiter};
use vstd::prelude::*;

verus! {

/// Whether the session runs on Wayland. `display_set` tells whether
/// `WAYLAND_DISPLAY` is set, `session_type` is what `XDG_SESSION_TYPE` holds.
pub fn is_wayland(display_set: bool, session_type: Option<&str>) -> (b: bool)
    ensures
        b == (display_set || (session_type matches Some(t) && t@ == "wayland"@)),
{
    if display_set {
        return true;
    }
    match session_type {
        Some(t) => same_text(t, "wayland"),
        None => false,
    }
}

/// The keys that are held while another is pressed.
#[derive(Debug, Clone, Copy, PartialEq, Eq, Structural)]
pub struct Modifiers {
    pub control: bool,
    pub alt: bool,
    pub shift: bool,
    pub meta: bool,
}

/// The key that is pressed.
#[derive(Debug, Clone, Copy, PartialEq, Eq, Structural)]
pub enum Key {
    /// A letter, counted from `A` as 0.
    Letter(u8),
    Digit(u8),
    Space,
    Enter,
    Tab,
    Escape,
    /// A function key, counted from 1.
    Function(u8),
}

#[derive(Debug, Clone, Copy, PartialEq, Eq, Structural)]
pub struct Hotkey {
    pub modifiers: Modifiers,
    pub key: Key,
}

/// No modifier.
pub open spec fn no_modifiers() -> Modifiers {
    Modifiers { control: false, alt: false, shift: false, meta: false }
}

/// Adds the modifier that a part names, in capitals; `None` if it names
/// none.
pub open spec fn with_modifier(m: Modifiers, part: Seq<char>) -> Option<Modifiers> {
    if part == "CTRL"@ || part == "CONTROL"@ {
        Some(Modifiers { control: true, ..m })
    } else if part == "ALT"@ {
        Some(Modifiers { alt: true, ..m })
    } else if part == "SHIFT"@ {
        Some(Modifiers { shift: true, ..m })
    } else if part == "SUPER"@ || part == "META"@ || part == "CMD"@ || part == "WIN"@ {
        Some(Modifiers { meta: true, ..m })
    } else {
        None
    }
}

/// The function key that a part names.
pub open spec fn function_named(part: Seq<char>) -> Option<Key> {
    if part == "F1"@ {
        Some(Key::Function(1))
    } else if part == "F2"@ {
        Some(Key::Function(2))
    } else if part == "F3"@ {
        Some(Key::Function(3))
    } else if part == "F4"@ {
        Some(Key::Function(4))
    } else if part == "F5"@ {
        Some(Key::Function(5))
    } else if part == "F6"@ {
        Some(Key::Function(6))
    } else if part == "F7"@ {
        Some(Key::Function(7))
    } else if part == "F8"@ {
        Some(Key::Function(8))
    } else if part == "F9"@ {
        Some(Key::Function(9))
    } else if part == "F10"@ {
        Some(Key::Function(10))
    } else if part == "F11"@ {
        Some(Key::Function(11))
    } else if part == "F12"@ {
        Some(Key::Function(12))
    } else {
        None
    }
}

/// The key that a part names: a letter or a digit by itself, the others by
/// their names in capitals.
pub open spec fn key_named(part: Seq<char>) -> Option<Key> {
    if part.len() == 1 && 'A' <= part[0] <= 'Z' {
        Some(Key::Letter((part[0] as int - 'A' as int) as u8))
    } else if part.len() == 1 && 'a' <= part[0] <= 'z' {
        Some(Key::Letter((part[0] as int - 'a' as int) as u8))
    } else if part.len() == 1 && '0' <= part[0] <= '9' {
        Some(Key::Digit((part[0] as int - '0' as int) as u8))
    } else if part == "SPACE"@ {
        Some(Key::Space)
    } else if part == "ENTER"@ || part == "RETURN"@ {
        Some(Key::Enter)
    } else if part == "TAB"@ {
        Some(Key::Tab)
    } else if part == "ESCAPE"@ || part == "ESC"@ {
        Some(Key::Escape)
    } else {
        function_named(part)
    }
}

/// What is reported of a part that names neither a modifier nor a key.
pub open spec fn unrecognized(part: Seq<char>) -> Seq<char> {
    "unrecognized key '"@ + part + "' in hotkey accelerator"@
}

/// What is reported of a hotkey without a key to press.
pub open spec fn no_key(accelerator: Seq<char>) -> Seq<char> {
    "hotkey '"@ + accelerator + "' has no non-modifier key"@
}

/// One part more: another modifier, or the key in place of an earlier one.
/// An unknown part is given back.
pub open spec fn with_part(
    state: Result<(Modifiers, Option<Key>), Seq<char>>,
    part: Seq<char>,
) -> Result<(Modifiers, Option<Key>), Seq<char>> {
    match state {
        Err(bad) => Err(bad),
        Ok((m, k)) => match with_modifier(m, part) {
            Some(m2) => Ok((m2, k)),
            None => match key_named(part) {
                Some(k2) => Ok((m, Some(k2))),
                None => Err(part),
            },
        },
    }
}

/// What the parts say together, or the first part that is unknown.
pub open spec fn combined(parts: Seq<Seq<char>>) -> Result<(Modifiers, Option<Key>), Seq<char>>
    decreases parts.len(),
{
    if parts.len() == 0 {
        Ok((no_modifiers(), None))
    } else {
        with_part(combined(parts.drop_last()), parts.last())
    }
}

/// The hotkey that the parts give, or what is reported.
pub open spec fn hotkey_in(accelerator: Seq<char>, parts: Seq<Seq<char>>) -> Result<
    Hotkey,
    Seq<char>,
> {
    match combined(parts) {
        Err(bad) => Err(unrecognized(bad)),
        Ok((modifiers, Some(key))) => Ok(Hotkey { modifiers, key }),
        Ok((_, None)) => Err(no_key(accelerator)),
    }
}

/// The parts of a hotkey's text in capitals: what stands between plus and
/// minus signs, without white space around it.
pub open spec fn capital_parts(accelerator: Seq<char>) -> Seq<Seq<char>> {
    text::trimmed_parts(text::pieces(accelerator, Delimiter::OneOf('+', '-'))).map_values(
        |p: Seq<char>| letter_case::uppercase(p),
    )
}

/// The same parts of a text that is all ASCII.
pub open spec fn ascii_capital_parts(accelerator: Seq<char>) -> Seq<Seq<char>> {
    text::trimmed_parts(text::pieces(accelerator, Delimiter::OneOf('+', '-'))).map_values(
        |p: Seq<char>| p.map_values(|c: char| letter_case::ascii_upper(c)),
    )
}

/// What a hotkey or a report says.
pub open spec fn hotkey_result(r: Result<Hotkey, Failure>) -> Result<Hotkey, Seq<char>> {
    match r {
        Ok(h) => Ok(h),
        Err(f) => Err(f@.message),
    }
}

// ---------------------------------------------------------------------
// Reading
// ---------------------------------------------------------------------

fn add_modifier(m: Modifiers, part: &str) -> (r: Option<Modifiers>)
    ensures
        r == with_modifier(m, part@),
{
    if same_text(part, "CTRL") || same_text(part, "CONTROL") {
        Some(Modifiers { control: true, ..m })
    } else if same_text(part, "ALT") {
        Some(Modifiers { alt: true, ..m })
    } else if same_text(part, "SHIFT") {
        Some(Modifiers { shift: true, ..m })
    } else if same_text(part, "SUPER") || same_text(part, "META") || same_text(part, "CMD")
        || same_text(part, "WIN") {
        Some(Modifiers { meta: true, ..m })
    } else {
        None
    }
}

fn function_from_str(part: &str) -> (r: Option<Key>)
    ensures
        r == function_named(part@),
{
    if same_text(part, "F1") {
        Some(Key::Function(1))
    } else if same_text(part, "F2") {
        Some(Key::Function(2))
    } else if same_text(part, "F3") {
        Some(Key::Function(3))
    } else if same_text(part, "F4") {
        Some(Key::Function(4))
    } else if same_text(part, "F5") {
        Some(Key::Function(5))
    } else if same_text(part, "F6") {
        Some(Key::Function(6))
    } else if same_text(part, "F7") {
        Some(Key::Function(7))
    } else if same_text(part, "F8") {
        Some(Key::Function(8))
    } else if same_text(part, "F9") {
        Some(Key::Function(9))
    } else if same_text(part, "F10") {
        Some(Key::Function(10))
    } else if same_text(part, "F11") {
        Some(Key::Function(11))
    } else if same_text(part, "F12") {
        Some(Key::Function(12))
    } else {
        None
    }
}

/// The key that a part names.
pub fn code_from_str(part: &str) -> (r: Result<Key, Failure>)
    ensures
        (match r {
            Ok(k) => key_named(part@) == Some(k),
            Err(f) => key_named(part@) is None && f@ == http::plain(unrecognized(part@)),
        }),
{
    let v = chars_of(part);
    if v.len() == 1 {
        let c = v[0];
        if 'A' <= c && c <= 'Z' {
            return Ok(Key::Letter((c as u32 - 'A' as u32) as u8));
        }
        if 'a' <= c && c <= 'z' {
            return Ok(Key::Letter((c as u32 - 'a' as u32) as u8));
        }
        if '0' <= c && c <= '9' {
            return Ok(Key::Digit((c as u32 - '0' as u32) as u8));
        }
    }
    if same_text(part, "SPACE") {
        return Ok(Key::Space);
    }
    if same_text(part, "ENTER") || same_text(part, "RETURN") {
        return Ok(Key::Enter);
    }
    if same_text(part, "TAB") {
        return Ok(Key::Tab);
    }
    if same_text(part, "ESCAPE") || same_text(part, "ESC") {
        return Ok(Key::Escape);
    }
    match function_from_str(part) {
        Some(k) => Ok(k),
        None => {
            let mut m = "unrecognized key '".to_owned();
            m.append(part);
            m.append("' in hotkey accelerator");
            Err(Failure::new(m.as_str()))
        },
    }
}

/// The hotkey that parts in capitals give. `accelerator` is the text that
/// they stood in.
pub fn hotkey_of_parts(accelerator: &str, parts: &Vec<String>) -> (r: Result<Hotkey, Failure>)
    ensures
        hotkey_result(r) == hotkey_in(accelerator@, text::texts(parts@)),
        r matches Err(f) ==> f@.cause is None,
{
    let ghost all = text::texts(parts@);
    let mut modifiers = Modifiers { control: false, alt: false, shift: false, meta: false };
    let mut key: Option<Key> = None;
    let mut i: usize = 0;
    assert(all.take(0) =~= Seq::<Seq<char>>::empty());
    while i < parts.len()
        invariant
            i <= parts@.len(),
            all == text::texts(parts@),
            combined(all.take(i as int)) == Ok::<(Modifiers, Option<Key>), Seq<char>>(
                (modifiers, key),
            ),
        decreases parts@.len() - i,
    {
        proof {
            assert(all.take(i + 1).drop_last() =~= all.take(i as int));
            assert(all.take(i + 1).last() == parts@[i as int]@);
        }
        match add_modifier(modifiers, parts[i].as_str()) {
            Some(m) => {
                modifiers = m;
            },
            None => match code_from_str(parts[i].as_str()) {
                Ok(k) => {
                    key = Some(k);
                },
                Err(f) => {
                    proof {
                        lemma_first_unknown_part(all, i as int);
                    }
                    return Err(f);
                },
            },
        }
        i += 1;
    }
    assert(all.take(all.len() as int) =~= all);
    match key {
        Some(key) => Ok(Hotkey { modifiers, key }),
        None => {
            let mut m = "hotkey '".to_owned();
            m.append(accelerator);
            m.append("' has no non-modifier key");
            Err(Failure::new(m.as_str()))
        },
    }
}

/// After an unknown part nothing else counts.
proof fn lemma_first_unknown_part(parts: Seq<Seq<char>>, at: int)
    requires
        0 <= at < parts.len(),
        combined(parts.take(at + 1)) is Err,
    ensures
        combined(parts) == combined(parts.take(at + 1)),
    decreases parts.len() - at,
{
    if at + 1 == parts.len() {
        assert(parts.take(at + 1) =~= parts);
    } else {
        assert(parts.drop_last().take(at + 1) =~= parts.take(at + 1));
        lemma_first_unknown_part(parts.drop_last(), at);
    }
}

fn capitals(parts: &Vec<String>) -> (r: Vec<String>)
    ensures
        text::texts(r@) == text::texts(parts@).map_values(
            |p: Seq<char>| letter_case::uppercase(p),
        ),
        (forall|k: int|
            0 <= k < parts@.len() ==> letter_case::is_ascii_text((#[trigger] parts@[k])@))
            ==> text::texts(r@) == text::texts(parts@).map_values(
            |p: Seq<char>| p.map_values(|c: char| letter_case::ascii_upper(c)),
        ),
{
    let mut r: Vec<String> = Vec::new();
    let mut i: usize = 0;
    while i < parts.len()
        invariant
            i <= parts@.len(),
            r@.len() == i,
            forall|k: int|
                0 <= k < i ==> (#[trigger] r@[k])@ == letter_case::uppercase(parts@[k]@),
            forall|k: int|
                0 <= k < i && letter_case::is_ascii_text(parts@[k]@) ==> (#[trigger] r@[k])@
                    == parts@[k]@.map_values(|c: char| letter_case::ascii_upper(c)),
        decreases parts@.len() - i,
    {
        r.push(to_uppercase(parts[i].as_str()));
        i += 1;
    }
    assert(text::texts(r@) =~= text::texts(parts@).map_values(
        |p: Seq<char>| letter_case::uppercase(p),
    ));
    proof {
        if forall|k: int|
            0 <= k < parts@.len() ==> letter_case::is_ascii_text((#[trigger] parts@[k])@) {
            let want = text::texts(parts@).map_values(
                |p: Seq<char>| p.map_values(|c: char| letter_case::ascii_upper(c)),
            );
            assert forall|k: int| 0 <= k < want.len() implies text::texts(r@)[k] == want[k] by {
                assert(letter_case::is_ascii_text(parts@[k]@));
                assert(r@[k]@ == parts@[k]@.map_values(|c: char| letter_case::ascii_upper(c)));
            }
            assert(text::texts(r@) =~= want);
        }
    }
    r
}

proof fn lemma_pieces_ascii(s: Seq<char>, d: Delimiter)
    requires
        letter_case::is_ascii_text(s),
    ensures
        forall|k: int|
            0 <= k < text::pieces(s, d).len() ==> letter_case::is_ascii_text(
                #[trigger] text::pieces(s, d)[k],
            ),
    decreases s.len(),
{
    if s.len() > 0 {
        assert forall|i: int| 0 <= i < s.drop_last().len() implies #[trigger] s.drop_last()[i]
            <= '\u{7f}' by {
            assert(s[i] <= '\u{7f}');
        }
        lemma_pieces_ascii(s.drop_last(), d);
        text::lemma_pieces_not_empty(s.drop_last(), d);
        let before = text::pieces(s.drop_last(), d);
        assert(letter_case::is_ascii_text(before[before.len() - 1]));
        assert(s[s.len() - 1] <= '\u{7f}');
        assert forall|k: int| 0 <= k < text::pieces(s, d).len() implies letter_case::is_ascii_text(
            #[trigger] text::pieces(s, d)[k],
        ) by {
            if k < before.len() - 1 || (d.cuts(s.last()) && k < before.len()) {
                assert(text::pieces(s, d)[k] == before[k]);
            }
        }
    }
}

proof fn lemma_trimmed_ascii(s: Seq<char>)
    requires
        letter_case::is_ascii_text(s),
    ensures
        letter_case::is_ascii_text(text::trimmed_start(s)),
        letter_case::is_ascii_text(text::trimmed_end(s)),
    decreases s.len(),
{
    if s.len() > 0 {
        assert forall|i: int| 0 <= i < s.skip(1).len() implies #[trigger] s.skip(1)[i]
            <= '\u{7f}' by {
            assert(s[i + 1] <= '\u{7f}');
        }
        assert forall|i: int| 0 <= i < s.drop_last().len() implies #[trigger] s.drop_last()[i]
            <= '\u{7f}' by {
            assert(s[i] <= '\u{7f}');
        }
        lemma_trimmed_ascii(s.skip(1));
        lemma_trimmed_ascii(s.drop_last());
    }
}

/// The hotkey that a text such as `CTRL+ALT+O` names. Case does not matter,
/// and of several keys the last one counts.
pub fn parse_accelerator(accelerator: &str) -> (r: Result<Hotkey, Failure>)
    ensures
        hotkey_result(r) == hotkey_in(accelerator@, capital_parts(accelerator@)),
        letter_case::is_ascii_text(accelerator@) ==> hotkey_result(r) == hotkey_in(
            accelerator@,
            ascii_capital_parts(accelerator@),
        ),
        r matches Err(f) ==> f@.cause is None,
{
    let pieces = split(accelerator, Delimiter::OneOf('+', '-'));
    let parts = trim_all(&pieces);
    proof {
        if letter_case::is_ascii_text(accelerator@) {
            let cut = text::pieces(accelerator@, Delimiter::OneOf('+', '-'));
            lemma_pieces_ascii(accelerator@, Delimiter::OneOf('+', '-'));
            assert forall|k: int| 0 <= k < parts@.len() implies letter_case::is_ascii_text(
                (#[trigger] parts@[k])@,
            ) by {
                assert(parts@[k]@ == text::texts(parts@)[k]);
                assert(letter_case::is_ascii_text(cut[k]));
                lemma_trimmed_ascii(cut[k]);
                lemma_trimmed_ascii(text::trimmed_start(cut[k]));
                lemma_trimmed_ascii(text::trimmed_end(cut[k]));
            }
        }
    }
    let capital = capitals(&parts);
    hotkey_of_parts(accelerator, &capital)
}

/// The hotkey to bind in place of the current one, if the text names another
/// one.
pub fn rebinding(current: Hotkey, accelerator: &str) -> (r: Result<Option<Hotkey>, Failure>)
    ensures
        (match hotkey_in(accelerator@, capital_parts(accelerator@)) {
            Ok(h) => r == Ok::<Option<Hotkey>, Failure>(
                if h == current {
                    None
                } else {
                    Some(h)
                },
            ),
            Err(m) => r matches Err(f) && f@ == http::plain(m),
        }),
{
    match parse_accelerator(accelerator) {
        Ok(h) => {
            if h == current {
                Ok(None)
            } else {
                Ok(Some(h))
            }
        },
        Err(f) => Err(f),
    }
}

// ---------------------------------------------------------------------
// Laws
// ---------------------------------------------------------------------

/// Where a modifier stands makes no difference: it may change places with
/// the part beside it.
pub proof fn law_modifier_position_is_free(
    front: Seq<Seq<char>>,
    modifier: Seq<char>,
    other: Seq<char>,
    back: Seq<Seq<char>>,
)
    requires
        with_modifier(no_modifiers(), modifier) is Some,
    ensures
        combined(front + seq![modifier, other] + back) == combined(
            front + seq![other, modifier] + back,
        ),
    decreases back.len(),
{
    let a = front + seq![modifier, other] + back;
    let b = front + seq![other, modifier] + back;
    if back.len() == 0 {
        assert(a.drop_last() =~= front.push(modifier));
        assert(b.drop_last() =~= front.push(other));
        assert(front.push(modifier).drop_last() =~= front);
        assert(front.push(other).drop_last() =~= front);
        assert(combined(front.push(modifier)) == with_part(combined(front), modifier));
        assert(combined(front.push(other)) == with_part(combined(front), other));
    } else {
        assert(a.drop_last() =~= front + seq![modifier, other] + back.drop_last());
        assert(b.drop_last() =~= front + seq![other, modifier] + back.drop_last());
        law_modifier_position_is_free(front, modifier, other, back.drop_last());
    }
}

/// Of two keys the later one counts.
pub proof fn law_last_key_counts(front: Seq<Seq<char>>, key: Seq<char>)
    requires
        combined(front) is Ok,
        with_modifier(no_modifiers(), key) is None,
        key_named(key) is Some,
    ensures
        combined(front.push(key)) == Ok::<(Modifiers, Option<Key>), Seq<char>>(
            (combined(front)->Ok_0.0, key_named(key)),
        ),
{
    assert(front.push(key).drop_last() =~= front);
    let m = combined(front)->Ok_0.0;
    assert(with_modifier(m, key) is None);
}

/// The session runs on Wayland if the display says so, or the session's type
/// does.
pub proof fn law_wayland(display_set: bool, session_type: Option<&str>, b: bool)
    requires
        call_ensures(is_wayland, (display_set, session_type), b),
    ensures
        display_set ==> b,
        !display_set && session_type is None ==> !b,
        !display_set ==> (session_type matches Some(t) ==> b == (t@ == "wayland"@)),
{
}

/// What each part of a hotkey names: one of the four modifiers, a letter, a
/// digit, or one of the other keys; anything else is reported.
pub proof fn law_key_names(part: &str, r: Result<Key, Failure>)
    requires
        call_ensures(code_from_str, (part,), r),
    ensures
        part@.len() == 1 && 'A' <= part@[0] <= 'Z' ==> (r matches Ok(Key::Letter(n)) && n
            == part@[0] as int - 'A' as int),
        part@.len() == 1 && 'a' <= part@[0] <= 'z' ==> (r matches Ok(Key::Letter(n)) && n
            == part@[0] as int - 'a' as int),
        part@.len() == 1 && '0' <= part@[0] <= '9' ==> (r matches Ok(Key::Digit(n)) && n
            == part@[0] as int - '0' as int),
        part@ == "SPACE"@ ==> r == Ok::<Key, Failure>(Key::Space),
        part@ == "ENTER"@ || part@ == "RETURN"@ ==> r == Ok::<Key, Failure>(Key::Enter),
        part@ == "TAB"@ ==> r == Ok::<Key, Failure>(Key::Tab),
        part@ == "ESCAPE"@ || part@ == "ESC"@ ==> r == Ok::<Key, Failure>(Key::Escape),
        r matches Err(f) ==> f.cause is None && f.message@ == "unrecognized key '"@ + part@
            + "' in hotkey accelerator"@,
{
    reveal_strlit("SPACE");
    reveal_strlit("ENTER");
    reveal_strlit("RETURN");
    reveal_strlit("TAB");
    reveal_strlit("ESCAPE");
    reveal_strlit("ESC");
    assert("SPACE"@.len() == 5 && "ENTER"@.len() == 5 && "RETURN"@.len() == 6 && "TAB"@.len() == 3
        && "ESCAPE"@.len() == 6 && "ESC"@.len() == 3);
    assert("SPACE"@[0] == 'S' && "ENTER"@[0] == 'E' && "RETURN"@[0] == 'R' && "TAB"@[0] == 'T'
        && "ESCAPE"@[0] == 'E' && "ESC"@[0] == 'E');
}

proof fn lemma_function_key(n: nat)
    requires
        1 <= n <= 12,
    ensures
        key_named(seq!['F'] + crate::number::decimal(n)) == Some(Key::Function(n as u8)),
{
    reveal_strlit("SPACE");
    reveal_strlit("ENTER");
    reveal_strlit("RETURN");
    reveal_strlit("TAB");
    reveal_strlit("ESCAPE");
    reveal_strlit("ESC");
    reveal_strlit("F1");
    reveal_strlit("F2");
    reveal_strlit("F3");
    reveal_strlit("F4");
    reveal_strlit("F5");
    reveal_strlit("F6");
    reveal_strlit("F7");
    reveal_strlit("F8");
    reveal_strlit("F9");
    reveal_strlit("F10");
    reveal_strlit("F11");
    reveal_strlit("F12");
    reveal_with_fuel(crate::number::decimal, 3);
    let s = seq!['F'] + crate::number::decimal(n);
    assert("SPACE"@[0] == 'S' && "ENTER"@[0] == 'E' && "RETURN"@[0] == 'R' && "TAB"@[0] == 'T'
        && "ESCAPE"@[0] == 'E' && "ESC"@[0] == 'E');
    assert("F1"@[1] == '1' && "F2"@[1] == '2' && "F3"@[1] == '3' && "F4"@[1] == '4' && "F5"@[1]
        == '5' && "F6"@[1] == '6' && "F7"@[1] == '7' && "F8"@[1] == '8' && "F9"@[1] == '9');
    assert("F10"@[2] == '0' && "F11"@[2] == '1' && "F12"@[2] == '2');
    assert("F10"@.len() == 3 && "F11"@.len() == 3 && "F12"@.len() == 3);
    assert(s[0] == 'F');
    if n == 1 {
        assert(s =~= "F1"@);
    } else if n == 2 {
        assert(s =~= "F2"@);
    } else if n == 3 {
        assert(s =~= "F3"@);
    } else if n == 4 {
        assert(s =~= "F4"@);
    } else if n == 5 {
        assert(s =~= "F5"@);
    } else if n == 6 {
        assert(s =~= "F6"@);
    } else if n == 7 {
        assert(s =~= "F7"@);
    } else if n == 8 {
        assert(s =~= "F8"@);
    } else if n == 9 {
        assert(s =~= "F9"@);
    } else if n == 10 {
        assert(s =~= "F10"@);
    } else if n == 11 {
        assert(s =~= "F11"@);
    } else {
        assert(s =~= "F12"@);
    }
}

/// The twelve function keys go by the letter F and their number.
pub proof fn law_function_keys(n: u8, part: &str, r: Result<Key, Failure>)
    requires
        1 <= n <= 12,
        part@ == seq!['F'] + crate::number::decimal(n as nat),
        call_ensures(code_from_str, (part,), r),
    ensures
        r == Ok::<Key, Failure>(Key::Function(n)),
{
    lemma_function_key(n as nat);
}

/// Whether a part names the control key, in either of its spellings.
pub open spec fn names_control(part: Seq<char>) -> bool {
    part == "CTRL"@ || part == "CONTROL"@
}

/// Whether a part names the meta key, in any of its spellings.
pub open spec fn names_meta(part: Seq<char>) -> bool {
    part == "SUPER"@ || part == "META"@ || part == "CMD"@ || part == "WIN"@
}

/// Whether a part names a modifier.
pub open spec fn names_modifier(part: Seq<char>) -> bool {
    names_control(part) || part == "ALT"@ || part == "SHIFT"@ || names_meta(part)
}

proof fn lemma_modifier_words()
    ensures
        forall|part: Seq<char>| #[trigger]
            names_control(part) ==> part != "ALT"@ && part != "SHIFT"@ && !names_meta(part),
        forall|part: Seq<char>| #[trigger]
            names_meta(part) ==> part != "ALT"@ && part != "SHIFT"@ && !names_control(part),
        !names_meta("ALT"@) && !names_meta("SHIFT"@) && "ALT"@ != "SHIFT"@,
        !names_control("ALT"@) && !names_control("SHIFT"@),
        forall|m: Modifiers, part: Seq<char>| #[trigger]
            with_modifier(m, part) is Some <==> names_modifier(part),
{
    reveal_strlit("CTRL");
    reveal_strlit("CONTROL");
    reveal_strlit("ALT");
    reveal_strlit("SHIFT");
    reveal_strlit("SUPER");
    reveal_strlit("META");
    reveal_strlit("CMD");
    reveal_strlit("WIN");
    assert("CTRL"@[0] == 'C' && "CONTROL"@[0] == 'C' && "ALT"@[0] == 'A' && "SHIFT"@[0] == 'S'
        && "SUPER"@[0] == 'S' && "META"@[0] == 'M' && "CMD"@[0] == 'C' && "WIN"@[0] == 'W');
    assert("CTRL"@.len() == 4 && "CONTROL"@.len() == 7 && "CMD"@.len() == 3);
    assert("SHIFT"@[1] == 'H' && "SUPER"@[1] == 'U');
}

proof fn lemma_control(parts: Seq<Seq<char>>)
    ensures
        combined(parts) matches Ok((m, k)) ==> (m.control <==> exists|i: int|
            0 <= i < parts.len() && names_control(#[trigger] parts[i])),
    decreases parts.len(),
{
    if parts.len() > 0 {
        lemma_control(parts.drop_last());
        lemma_modifier_words();
        lemma_exists_last(parts, |p: Seq<char>| names_control(p));
        assert(parts.last() == parts[parts.len() - 1]);
    }
}

proof fn lemma_alt(parts: Seq<Seq<char>>)
    ensures
        combined(parts) matches Ok((m, k)) ==> (m.alt <==> exists|i: int|
            0 <= i < parts.len() && #[trigger] parts[i] == "ALT"@),
    decreases parts.len(),
{
    if parts.len() > 0 {
        lemma_alt(parts.drop_last());
        lemma_modifier_words();
        lemma_exists_last(parts, |p: Seq<char>| p == "ALT"@);
        assert(names_meta(parts.last()) ==> !names_control(parts.last()));
        assert(parts.last() == parts[parts.len() - 1]);
    }
}

proof fn lemma_shift(parts: Seq<Seq<char>>)
    ensures
        combined(parts) matches Ok((m, k)) ==> (m.shift <==> exists|i: int|
            0 <= i < parts.len() && #[trigger] parts[i] == "SHIFT"@),
    decreases parts.len(),
{
    if parts.len() > 0 {
        lemma_shift(parts.drop_last());
        lemma_modifier_words();
        lemma_exists_last(parts, |p: Seq<char>| p == "SHIFT"@);
        assert(names_meta(parts.last()) ==> !names_control(parts.last()));
        assert(parts.last() == parts[parts.len() - 1]);
    }
}

proof fn lemma_meta(parts: Seq<Seq<char>>)
    ensures
        combined(parts) matches Ok((m, k)) ==> (m.meta <==> exists|i: int|
            0 <= i < parts.len() && names_meta(#[trigger] parts[i])),
    decreases parts.len(),
{
    if parts.len() > 0 {
        lemma_meta(parts.drop_last());
        lemma_modifier_words();
        lemma_exists_last(parts, |p: Seq<char>| names_meta(p));
        assert(names_meta(parts.last()) ==> !names_control(parts.last()));
        assert(parts.last() == parts[parts.len() - 1]);
    }
}

/// Whether the part at `i` is the last one that is not a modifier.
spec fn is_last_key(parts: Seq<Seq<char>>, i: int) -> bool {
    &&& 0 <= i < parts.len()
    &&& !names_modifier(parts[i])
    &&& forall|j: int| i < j < parts.len() ==> names_modifier(#[trigger] parts[j])
}

proof fn lemma_key(parts: Seq<Seq<char>>)
    ensures
        combined(parts) matches Ok((m, k)) ==> {
            &&& k is None ==> forall|i: int|
                0 <= i < parts.len() ==> names_modifier(#[trigger] parts[i])
            &&& k is Some ==> exists|i: int| #[trigger]
                is_last_key(parts, i) && key_named(parts[i]) == k
        },
    decreases parts.len(),
{
    if parts.len() > 0 {
        let rest = parts.drop_last();
        let n = parts.len() - 1;
        lemma_key(rest);
        lemma_modifier_words();
        assert(parts.last() == parts[n]);
        assert forall|i: int| 0 <= i < n implies #[trigger] rest[i] == parts[i] by {}
        if let Ok((m, k)) = combined(parts) {
            let k0 = combined(rest)->Ok_0.1;
            if names_modifier(parts[n]) {
                assert(k == k0);
                if k is Some {
                    let i = choose|i: int| #[trigger]
                        is_last_key(rest, i) && key_named(rest[i]) == k;
                    assert(parts[i] == rest[i]);
                    assert forall|j: int| i < j < parts.len() implies names_modifier(
                        #[trigger] parts[j],
                    ) by {
                        if j < n {
                            assert(rest[j] == parts[j]);
                        }
                    }
                    assert(is_last_key(parts, i));
                } else {
                    assert forall|i: int| 0 <= i < parts.len() implies names_modifier(
                        #[trigger] parts[i],
                    ) by {
                        if i < n {
                            assert(rest[i] == parts[i]);
                        }
                    }
                }
            } else {
                assert(is_last_key(parts, n));
            }
        }
    }
}

/// One of the parts has a property if one of those before the last has it,
/// or the last has.
proof fn lemma_exists_last(parts: Seq<Seq<char>>, f: spec_fn(Seq<char>) -> bool)
    requires
        parts.len() > 0,
    ensures
        (exists|i: int| 0 <= i < parts.len() && f(#[trigger] parts[i])) <==> (exists|i: int|
            0 <= i < parts.drop_last().len() && f(#[trigger] parts.drop_last()[i])) || f(
            parts[parts.len() - 1],
        ),
{
    let rest = parts.drop_last();
    if exists|i: int| 0 <= i < rest.len() && f(#[trigger] rest[i]) {
        let i = choose|i: int| 0 <= i < rest.len() && f(#[trigger] rest[i]);
        assert(f(parts[i]));
    }
    if exists|i: int| 0 <= i < parts.len() && f(#[trigger] parts[i]) {
        let i = choose|i: int| 0 <= i < parts.len() && f(#[trigger] parts[i]);
        if i < rest.len() {
            assert(f(rest[i]));
        }
    }
}

/// Whether a part names neither a modifier nor a key.
pub open spec fn is_unknown(part: Seq<char>) -> bool {
    !names_modifier(part) && key_named(part) is None
}

proof fn lemma_first_unknown(parts: Seq<Seq<char>>)
    ensures
        combined(parts) is Ok <==> forall|i: int|
            0 <= i < parts.len() ==> !is_unknown(#[trigger] parts[i]),
        combined(parts) matches Err(bad) ==> exists|i: int|
            0 <= i < parts.len() && bad == #[trigger] parts[i] && is_unknown(parts[i]) && forall|j:
                int|
                0 <= j < i ==> !is_unknown(#[trigger] parts[j]),
    decreases parts.len(),
{
    if parts.len() > 0 {
        let rest = parts.drop_last();
        let n = parts.len() - 1;
        lemma_first_unknown(rest);
        lemma_modifier_words();
        assert(parts.last() == parts[n]);
        assert forall|i: int| 0 <= i < n implies #[trigger] rest[i] == parts[i] by {}
        if let Err(bad) = combined(rest) {
            let i = choose|i: int|
                0 <= i < rest.len() && bad == #[trigger] rest[i] && is_unknown(rest[i]) && forall|
                    j: int,
                |
                    0 <= j < i ==> !is_unknown(#[trigger] rest[j]);
            assert(parts[i] == rest[i]);
            assert forall|j: int| 0 <= j < i implies !is_unknown(#[trigger] parts[j]) by {
                assert(rest[j] == parts[j]);
            }
        } else {
            assert forall|j: int| 0 <= j < n implies !is_unknown(#[trigger] parts[j]) by {
                assert(rest[j] == parts[j]);
            }
        }
    }
}

/// What the parts of a hotkey give: each modifier that is named, in whatever
/// place, and the last of the keys. The first part that names nothing is
/// reported; so are parts without a key.
pub proof fn law_parts_make_the_hotkey(
    accelerator: &str,
    parts: &Vec<String>,
    r: Result<Hotkey, Failure>,
)
    requires
        call_ensures(hotkey_of_parts, (accelerator, parts), r),
    ensures
        r matches Ok(h) ==> {
            &&& h.modifiers.control <==> exists|i: int|
                0 <= i < parts@.len() && names_control((#[trigger] parts@[i])@)
            &&& h.modifiers.alt <==> exists|i: int|
                0 <= i < parts@.len() && (#[trigger] parts@[i])@ == "ALT"@
            &&& h.modifiers.shift <==> exists|i: int|
                0 <= i < parts@.len() && (#[trigger] parts@[i])@ == "SHIFT"@
            &&& h.modifiers.meta <==> exists|i: int|
                0 <= i < parts@.len() && names_meta((#[trigger] parts@[i])@)
            &&& exists|i: int|
                0 <= i < parts@.len() && key_named((#[trigger] parts@[i])@) == Some(h.key)
                    && !names_modifier(parts@[i]@) && forall|j: int|
                    i < j < parts@.len() ==> names_modifier((#[trigger] parts@[j])@)
        },
        r is Ok <==> (forall|i: int| 0 <= i < parts@.len() ==> !is_unknown((#[trigger] parts@[i])@))
            && (exists|i: int| 0 <= i < parts@.len() && !names_modifier((#[trigger] parts@[i])@)),
        r matches Err(f) ==> f.cause is None && (f.message@ == "hotkey '"@ + accelerator@
            + "' has no non-modifier key"@ || exists|i: int|
            0 <= i < parts@.len() && is_unknown((#[trigger] parts@[i])@) && f.message@
                == "unrecognized key '"@ + parts@[i]@ + "' in hotkey accelerator"@ && forall|j: int|
                0 <= j < i ==> !is_unknown((#[trigger] parts@[j])@)),
{
    let all = text::texts(parts@);
    assert(all.len() == parts@.len());
    assert forall|i: int| 0 <= i < all.len() implies #[trigger] all[i] == parts@[i]@ by {}
    assert forall|i: int| 0 <= i < parts@.len() implies all[i] == (#[trigger] parts@[i])@ by {}
    lemma_control(all);
    lemma_alt(all);
    lemma_shift(all);
    lemma_meta(all);
    lemma_key(all);
    lemma_first_unknown(all);
    if let Ok(h) = r {
        let k = Some(h.key);
        let i = choose|i: int| #[trigger] is_last_key(all, i) && key_named(all[i]) == k;
        assert(parts@[i]@ == all[i]);
        assert forall|j: int| i < j < parts@.len() implies names_modifier(
            (#[trigger] parts@[j])@,
        ) by {
            assert(all[j] == parts@[j]@);
        }
    }
    if let Err(f) = r {
        if let Err(bad) = combined(all) {
            let i = choose|i: int|
                0 <= i < all.len() && bad == #[trigger] all[i] && is_unknown(all[i]) && forall|
                    j: int,
                |
                    0 <= j < i ==> !is_unknown(#[trigger] all[j]);
            assert(is_unknown(parts@[i]@));
        }
    }
}

/// A hotkey's text is cut at plus and minus signs, and its parts taken
/// without the white space around them and in capitals.
pub proof fn law_text_makes_the_parts(
    accelerator: &str,
    r: Result<Hotkey, Failure>,
    pieces: &Vec<String>,
    trimmed: Vec<String>,
    capitals: &Vec<String>,
    q: Result<Hotkey, Failure>,
)
    requires
        call_ensures(parse_accelerator, (accelerator,), r),
        call_ensures(split, (accelerator, Delimiter::OneOf('+', '-')), *pieces),
        call_ensures(trim_all, (pieces,), trimmed),
        capitals@.len() == trimmed@.len(),
        forall|i: int|
            0 <= i < capitals@.len() ==> (#[trigger] capitals@[i])@ == letter_case::uppercase(
                trimmed@[i]@,
            ),
        call_ensures(hotkey_of_parts, (accelerator, capitals), q),
    ensures
        r is Ok <==> q is Ok,
        r matches Ok(h) ==> q == Ok::<Hotkey, Failure>(h),
        r matches Err(f) ==> (q matches Err(g) && f.message@ == g.message@ && f.cause is None),
{
    assert(text::texts(trimmed@).len() == trimmed@.len());
    assert(text::texts(capitals@).len() == capitals@.len());
    assert forall|i: int| 0 <= i < capitals@.len() implies text::texts(capitals@)[i]
        == #[trigger] capital_parts(accelerator@)[i] by {
        assert(text::texts(capitals@)[i] == capitals@[i]@);
        assert(text::texts(trimmed@)[i] == trimmed@[i]@);
    }
    assert(text::texts(capitals@) =~= capital_parts(accelerator@));
}

/// A hotkey is bound anew if the text names another one than the current,
/// and what is wrong with the text is reported.
pub proof fn law_rebinding(
    current: Hotkey,
    accelerator: &str,
    r: Result<Option<Hotkey>, Failure>,
    parsed: Result<Hotkey, Failure>,
)
    requires
        call_ensures(rebinding, (current, accelerator), r),
        call_ensures(parse_accelerator, (accelerator,), parsed),
    ensures
        parsed matches Ok(h) ==> {
            &&& h == current ==> r == Ok::<Option<Hotkey>, Failure>(None)
            &&& h != current ==> r == Ok::<Option<Hotkey>, Failure>(Some(h))
        },
        parsed matches Err(f) ==> (r matches Err(g) && g@ == f@),
{
}

} // verus!
