//! Laws of the configuration in INI syntax: which key of a document sets which
//! field.

use crate::conf;
use crate::conf::{IniError, IniSection};
use crate::config;
use crate::config::{AppConfig, CaptureBackend};
use crate::number;
use crate::providers;
use crate::providers::{ProviderKind, ProviderMode};
use crate::text;
use vstd::prelude::*;

verus! {

/// Whether a section's first value for a key is this one.
pub open spec fn gives(section: IniSection, key: Seq<char>, value: Seq<char>) -> bool {
    exists|i: int|
        0 <= i < section.properties@.len() && (#[trigger] section.properties@[i]).0@ == key
            && section.properties@[i].1@ == value && forall|j: int|
            0 <= j < i ==> (#[trigger] section.properties@[j]).0@ != key
}

/// Whether a section has a value for a key.
pub open spec fn mentions(section: IniSection, key: Seq<char>) -> bool {
    exists|i: int|
        0 <= i < section.properties@.len() && (#[trigger] section.properties@[i]).0@ == key
}

/// Whether a section has that name.
pub open spec fn is_named(section: IniSection, name: Seq<char>) -> bool {
    section.name matches Some(n) && n@ == name
}

/// Whether the value that a key has last in the sections of that name is
/// this one; it stands in the section at `s`.
pub open spec fn given_last(
    sections: Seq<IniSection>,
    s: int,
    name: Seq<char>,
    key: Seq<char>,
    value: Seq<char>,
) -> bool {
    &&& 0 <= s < sections.len()
    &&& is_named(sections[s], name)
    &&& gives(sections[s], key, value)
    &&& forall|k: int|
        s < k < sections.len() && is_named(#[trigger] sections[k], name) ==> !mentions(
            sections[k],
            key,
        )
}

/// Whether no section of that name has a value for a key.
pub open spec fn never_given(sections: Seq<IniSection>, name: Seq<char>, key: Seq<char>) -> bool {
    forall|k: int|
        0 <= k < sections.len() && is_named(#[trigger] sections[k], name) ==> !mentions(
            sections[k],
            key,
        )
}

/// The first value of a key is found, and none where there is none.
proof fn lemma_value_of(props: Seq<(Seq<char>, Seq<char>)>, key: Seq<char>)
    ensures
        conf::value_of(props, key) is None <==> (forall|i: int|
            0 <= i < props.len() ==> (#[trigger] props[i]).0 != key),
        forall|i: int|
            0 <= i < props.len() && (#[trigger] props[i]).0 == key && (forall|j: int|
                0 <= j < i ==> (#[trigger] props[j]).0 != key) ==> conf::value_of(props, key)
                == Some(
                props[i].1,
            ),
    decreases props.len(),
{
    if props.len() > 0 {
        let rest = props.skip(1);
        lemma_value_of(rest, key);
        assert forall|i: int| 1 <= i < props.len() implies rest[i - 1] == #[trigger] props[i] by {}
        if props[0].0 != key {
            assert((forall|i: int| 0 <= i < rest.len() ==> (#[trigger] rest[i]).0 != key) <==> (
            forall|i: int| 0 <= i < props.len() ==> (#[trigger] props[i]).0 != key)) by {
                if forall|i: int| 0 <= i < rest.len() ==> (#[trigger] rest[i]).0 != key {
                    assert forall|i: int| 0 <= i < props.len() implies (#[trigger] props[i]).0
                        != key by {
                        if i > 0 {
                            assert(rest[i - 1] == props[i]);
                        }
                    }
                }
                if forall|i: int| 0 <= i < props.len() ==> (#[trigger] props[i]).0 != key {
                    assert forall|i: int| 0 <= i < rest.len() implies (#[trigger] rest[i]).0
                        != key by {
                        assert(rest[i] == props[i + 1]);
                    }
                }
            }
            assert forall|i: int|
                0 <= i < props.len() && (#[trigger] props[i]).0 == key && (forall|j: int|
                    0 <= j < i ==> (#[trigger] props[j]).0 != key) implies conf::value_of(props, key)
                == Some(props[i].1) by {
                assert(rest[i - 1] == props[i]);
                assert forall|j: int| 0 <= j < i - 1 implies (#[trigger] rest[j]).0 != key by {
                    assert(rest[j] == props[j + 1]);
                }
            }
        }
    }
}

/// What a section gives is what is looked up in it.
proof fn lemma_given_value(section: IniSection, key: Seq<char>, value: Seq<char>)
    ensures
        gives(section, key, value) ==> conf::value_of(conf::section_text(section).1, key)
                == Some(value),
        mentions(section, key) <==> conf::value_of(conf::section_text(section).1, key) is Some,
{
    let props = text::pairs(section.properties@);
    lemma_value_of(props, key);
    assert forall|i: int| 0 <= i < props.len() implies (#[trigger] props[i]) == (
        section.properties@[i].0@,
        section.properties@[i].1@,
    ) by {}
    if gives(section, key, value) {
        let i = choose|i: int|
            0 <= i < section.properties@.len() && (#[trigger] section.properties@[i]).0@ == key
                && section.properties@[i].1@ == value && forall|j: int|
                0 <= j < i ==> (#[trigger] section.properties@[j]).0@ != key;
        assert(props[i].0 == key);
        assert forall|j: int| 0 <= j < i implies (#[trigger] props[j]).0 != key by {
            assert(section.properties@[j].0@ != key);
        }
    }
    if mentions(section, key) {
        let i = choose|i: int|
            0 <= i < section.properties@.len() && (#[trigger] section.properties@[i]).0@ == key;
        assert(props[i].0 == key);
    } else {
        assert forall|i: int| 0 <= i < props.len() implies (#[trigger] props[i]).0 != key by {
            assert(section.properties@[i].0@ != key);
        }
    }
}

/// Whether no section behind the one at `s` has a value for a key of the
/// sections of that name.
spec fn silent_after(
    sections: Seq<(Option<Seq<char>>, Seq<(Seq<char>, Seq<char>)>)>,
    s: int,
    name: Seq<char>,
    key: Seq<char>,
) -> bool {
    forall|k: int|
        s < k < sections.len() && (#[trigger] sections[k]).0 == Some(name) ==> conf::value_of(
            sections[k].1,
            key,
        ) is None
}

/// Whether no section behind the one at `s` has that name.
spec fn unnamed_after(
    sections: Seq<(Option<Seq<char>>, Seq<(Seq<char>, Seq<char>)>)>,
    s: int,
    name: Seq<char>,
) -> bool {
    forall|k: int| s < k < sections.len() ==> (#[trigger] sections[k]).0 != Some(name)
}

/// The document's value for a key is the one at `s`, and nothing behind it
/// says otherwise.
proof fn lemma_last_value(
    sections: Seq<IniSection>,
    s: int,
    name: Seq<char>,
    key: Seq<char>,
    value: Seq<char>,
)
    ensures
        given_last(sections, s, name, key, value) ==> {
            let all = conf::document_text(sections);
            &&& 0 <= s < all.len()
            &&& all[s] == conf::section_text(sections[s])
            &&& all[s].0 == Some(name)
            &&& conf::value_of(all[s].1, key) == Some(value)
            &&& silent_after(all, s, name, key)
        },
{
    let all = conf::document_text(sections);
    if given_last(sections, s, name, key, value) {
        lemma_given_value(sections[s], key, value);
        assert forall|k: int|
            s < k < all.len() && (#[trigger] all[k]).0 == Some(name) implies conf::value_of(
            all[k].1,
            key,
        ) is None by {
            assert(all[k] == conf::section_text(sections[k]));
            assert(is_named(sections[k], name));
            lemma_given_value(sections[k], key, value);
        }
    }
}

/// A key that no section has a value for is not found in any.
proof fn lemma_never_given(sections: Seq<IniSection>, name: Seq<char>, key: Seq<char>)
    ensures
        never_given(sections, name, key) ==> silent_after(
            conf::document_text(sections),
            -1,
            name,
            key,
        ),
{
    let all = conf::document_text(sections);
    if never_given(sections, name, key) {
        assert forall|k: int|
            -1 < k < all.len() && (#[trigger] all[k]).0 == Some(name) implies conf::value_of(
            all[k].1,
            key,
        ) is None by {
            assert(all[k] == conf::section_text(sections[k]));
            assert(is_named(sections[k], name));
            lemma_given_value(sections[k], key, key);
        }
    }
}

/// The names of the sections differ.
proof fn lemma_section_names()
    ensures
        "ocr"@ != "general"@,
        "capture"@ != "general"@ && "capture"@ != "ocr"@,
        "popup"@ != "general"@ && "popup"@ != "ocr"@ && "popup"@ != "capture"@,
        "history_popup"@ != "general"@ && "history_popup"@ != "ocr"@ && "history_popup"@
            != "capture"@ && "history_popup"@ != "popup"@,
        "history"@ != "general"@ && "history"@ != "ocr"@ && "history"@ != "capture"@ && "history"@
            != "popup"@ && "history"@ != "history_popup"@,
        "live_translate"@ != "general"@ && "live_translate"@ != "ocr"@ && "live_translate"@
            != "capture"@ && "live_translate"@ != "popup"@ && "live_translate"@ != "history_popup"@
            && "live_translate"@ != "history"@,
        "prompt"@ != "general"@ && "prompt"@ != "ocr"@ && "prompt"@ != "capture"@ && "prompt"@
            != "popup"@ && "prompt"@ != "history_popup"@ && "prompt"@ != "history"@ && "prompt"@
            != "live_translate"@,
{
    reveal_strlit("general");
    reveal_strlit("ocr");
    reveal_strlit("capture");
    reveal_strlit("popup");
    reveal_strlit("history_popup");
    reveal_strlit("history");
    reveal_strlit("live_translate");
    reveal_strlit("prompt");
    assert("general"@.len() == 7 && "ocr"@.len() == 3 && "capture"@.len() == 7 && "popup"@.len()
        == 5);
    assert("history_popup"@.len() == 13 && "history"@.len() == 7 && "live_translate"@.len() == 14
        && "prompt"@.len() == 6);
    assert("capture"@[0] == 'c');
    assert("general"@[0] == 'g');
    assert("history"@[0] == 'h');
    assert("prompt"@[0] == 'p');
}

/// The document is read as far as the section at `s`, then that section.
proof fn lemma_read_at(
    old: config::AppConfigView,
    sections: Seq<(Option<Seq<char>>, Seq<(Seq<char>, Seq<char>)>)>,
    s: int,
)
    requires
        0 <= s < sections.len(),
    ensures
        conf::sections_read(old, sections.take(s + 1)) == conf::section_read(
            conf::sections_read(old, sections.take(s)),
            sections[s],
        ),
{
    assert(sections.take(s + 1).drop_last() == sections.take(s));
}

/// A field of `[general]` stays as it is where no later section has a value
/// for it.
proof fn lemma_general_stays(
    old: config::AppConfigView,
    sections: Seq<(Option<Seq<char>>, Seq<(Seq<char>, Seq<char>)>)>,
    s: int,
)
    requires
        -1 <= s < sections.len(),
    ensures
        silent_after(sections, s, "general"@, "target_lang"@)
            ==> conf::sections_read(old, sections).general.target_lang
            == conf::sections_read(old, sections.take(s + 1)).general.target_lang,
        silent_after(sections, s, "general"@, "source_lang"@)
            ==> conf::sections_read(old, sections).general.source_lang
            == conf::sections_read(old, sections.take(s + 1)).general.source_lang,
        silent_after(sections, s, "general"@, "log_level"@)
            ==> conf::sections_read(old, sections).general.log_level
            == conf::sections_read(old, sections.take(s + 1)).general.log_level,
    decreases sections.len(),
{
    lemma_section_names();
    if s + 1 == sections.len() {
        assert(sections.take(s + 1) == sections);
    } else {
        let rest = sections.drop_last();
        let last = sections[sections.len() - 1];
        assert(sections.last() == last);
        lemma_general_stays(old, rest, s);
        assert(rest.take(s + 1) == sections.take(s + 1));
        assert(silent_after(sections, s, "general"@, "target_lang"@)
            ==> silent_after(rest, s, "general"@, "target_lang"@)) by {
            assert forall|k: int| s < k < rest.len() implies #[trigger] rest[k] == sections[k] by {}
        }
        assert(silent_after(sections, s, "general"@, "target_lang"@) && last.0 == Some("general"@)
            ==> conf::value_of(
            last.1,
            "target_lang"@,
        ) is None);
        assert(silent_after(sections, s, "general"@, "source_lang"@)
            ==> silent_after(rest, s, "general"@, "source_lang"@)) by {
            assert forall|k: int| s < k < rest.len() implies #[trigger] rest[k] == sections[k] by {}
        }
        assert(silent_after(sections, s, "general"@, "source_lang"@) && last.0 == Some("general"@)
            ==> conf::value_of(
            last.1,
            "source_lang"@,
        ) is None);
        assert(silent_after(sections, s, "general"@, "log_level"@)
            ==> silent_after(rest, s, "general"@, "log_level"@)) by {
            assert forall|k: int| s < k < rest.len() implies #[trigger] rest[k] == sections[k] by {}
        }
        assert(silent_after(sections, s, "general"@, "log_level"@) && last.0 == Some("general"@)
            ==> conf::value_of(
            last.1,
            "log_level"@,
        ) is None);
    }
}

/// Each key of the `[general]` section sets the field of its name: the value
/// that it has last counts, and where it has none the default stays.
pub proof fn law_general_keys(
    sections: &Vec<IniSection>,
    cfg: AppConfig,
    d: AppConfig,
    s: int,
    value: Seq<char>,
)
    requires
        call_ensures(
            conf::config_from_sections,
            (sections,),
            Ok::<AppConfig, IniError>(cfg),
        ),
        call_ensures(AppConfig::default, (), d),
    ensures
        given_last(sections@, s, "general"@, "target_lang"@, value)
            ==> cfg.general.target_lang@ == value,
        never_given(sections@, "general"@, "target_lang"@)
            ==> cfg.general.target_lang@ == d.general.target_lang@,
        given_last(sections@, s, "general"@, "source_lang"@, value)
            ==> cfg.general.source_lang@ == value,
        never_given(sections@, "general"@, "source_lang"@)
            ==> cfg.general.source_lang@ == d.general.source_lang@,
        given_last(sections@, s, "general"@, "log_level"@, value)
            ==> cfg.general.log_level@ == value,
        never_given(sections@, "general"@, "log_level"@)
            ==> cfg.general.log_level@ == d.general.log_level@,
{
    lemma_section_names();
    let all = conf::document_text(sections@);
    let root = conf::root_read(all);
    assert(cfg@ == conf::sections_read(root, all));
    lemma_never_given(sections@, "general"@, "target_lang"@);
    lemma_last_value(sections@, s, "general"@, "target_lang"@, value);
    lemma_never_given(sections@, "general"@, "source_lang"@);
    lemma_last_value(sections@, s, "general"@, "source_lang"@, value);
    lemma_never_given(sections@, "general"@, "log_level"@);
    lemma_last_value(sections@, s, "general"@, "log_level"@, value);
    lemma_general_stays(root, all, -1);
    assert(all.take(0) == Seq::<(Option<Seq<char>>, Seq<(Seq<char>, Seq<char>)>)>::empty());
    assert(conf::sections_read(root, all.take(0)) == root);
    if 0 <= s < all.len() {
        lemma_general_stays(root, all, s);
        lemma_read_at(root, all, s);
    }
}

/// A field of `[ocr]` stays as it is where no later section has a value
/// for it.
proof fn lemma_ocr_stays(
    old: config::AppConfigView,
    sections: Seq<(Option<Seq<char>>, Seq<(Seq<char>, Seq<char>)>)>,
    s: int,
)
    requires
        -1 <= s < sections.len(),
    ensures
        silent_after(sections, s, "ocr"@, "languages"@)
            ==> conf::sections_read(old, sections).ocr.languages
            == conf::sections_read(old, sections.take(s + 1)).ocr.languages,
        silent_after(sections, s, "ocr"@, "preprocess"@)
            ==> conf::sections_read(old, sections).ocr.preprocess
            == conf::sections_read(old, sections.take(s + 1)).ocr.preprocess,
        unnamed_after(sections, s, "ocr"@) ==> conf::sections_read(old, sections).ocr
                == conf::sections_read(
            old,
            sections.take(s + 1),
        ).ocr,
    decreases sections.len(),
{
    lemma_section_names();
    if s + 1 == sections.len() {
        assert(sections.take(s + 1) == sections);
    } else {
        let rest = sections.drop_last();
        let last = sections[sections.len() - 1];
        assert(sections.last() == last);
        lemma_ocr_stays(old, rest, s);
        assert(rest.take(s + 1) == sections.take(s + 1));
        assert(silent_after(sections, s, "ocr"@, "languages"@)
            ==> silent_after(rest, s, "ocr"@, "languages"@)) by {
            assert forall|k: int| s < k < rest.len() implies #[trigger] rest[k] == sections[k] by {}
        }
        assert(silent_after(sections, s, "ocr"@, "languages"@) && last.0 == Some("ocr"@)
            ==> conf::value_of(
            last.1,
            "languages"@,
        ) is None);
        assert(silent_after(sections, s, "ocr"@, "preprocess"@)
            ==> silent_after(rest, s, "ocr"@, "preprocess"@)) by {
            assert forall|k: int| s < k < rest.len() implies #[trigger] rest[k] == sections[k] by {}
        }
        assert(silent_after(sections, s, "ocr"@, "preprocess"@) && last.0 == Some("ocr"@)
            ==> conf::value_of(
            last.1,
            "preprocess"@,
        ) is None);
        assert(unnamed_after(sections, s, "ocr"@) ==> unnamed_after(rest, s, "ocr"@)) by {
            assert forall|k: int| s < k < rest.len() implies #[trigger] rest[k] == sections[k] by {}
        }
        assert(unnamed_after(sections, s, "ocr"@) ==> last.0 != Some("ocr"@));
    }
}

/// Each key of the `[ocr]` section sets the field of its name: the value
/// that it has last counts, and where it has none the default stays. The tessdata directory and
/// the page segmentation mode are those of the last `[ocr]` section, and unset
/// where that has none.
pub proof fn law_ocr_keys(
    sections: &Vec<IniSection>,
    cfg: AppConfig,
    d: AppConfig,
    s: int,
    value: Seq<char>,
    psm: i32,
)
    requires
        call_ensures(
            conf::config_from_sections,
            (sections,),
            Ok::<AppConfig, IniError>(cfg),
        ),
        call_ensures(AppConfig::default, (), d),
    ensures
        given_last(sections@, s, "ocr"@, "languages"@, value) ==> cfg.ocr.languages@ == value,
        never_given(sections@, "ocr"@, "languages"@) ==> cfg.ocr.languages@ == d.ocr.languages@,
        given_last(sections@, s, "ocr"@, "preprocess"@, "true"@) ==> cfg.ocr.preprocess,
        given_last(sections@, s, "ocr"@, "preprocess"@, "false"@) ==> !cfg.ocr.preprocess,
        never_given(sections@, "ocr"@, "preprocess"@) ==> cfg.ocr.preprocess == d.ocr.preprocess,
        0 <= s < sections@.len() && is_named(sections@[s], "ocr"@) && (forall|k: int|
            s < k < sections@.len() ==> !is_named(#[trigger] sections@[k], "ocr"@)) ==> {
            &&& gives(sections@[s], "tessdata_dir"@, value) ==> text::opt_text(cfg.ocr.tessdata_dir)
                == Some(value)
            &&& !mentions(sections@[s], "tessdata_dir"@) ==> cfg.ocr.tessdata_dir is None
            &&& gives(sections@[s], "psm"@, number::signed_decimal(psm as int)) ==> cfg.ocr.psm
                == Some(psm)
            &&& !mentions(sections@[s], "psm"@) ==> cfg.ocr.psm is None
        },
{
    lemma_section_names();
    let all = conf::document_text(sections@);
    let root = conf::root_read(all);
    assert(cfg@ == conf::sections_read(root, all));
    reveal_strlit("true");
    reveal_strlit("false");
    assert("true"@.len() == 4 && "false"@.len() == 5);
    number::law_signed_roundtrip(psm as int, i32::MIN as int, i32::MAX as nat);
    lemma_never_given(sections@, "ocr"@, "languages"@);
    lemma_last_value(sections@, s, "ocr"@, "languages"@, value);
    lemma_never_given(sections@, "ocr"@, "preprocess"@);
    lemma_last_value(sections@, s, "ocr"@, "preprocess"@, "true"@);
    lemma_last_value(sections@, s, "ocr"@, "preprocess"@, "false"@);
    if 0 <= s < sections@.len() {
        lemma_given_value(sections@[s], "tessdata_dir"@, value);
        lemma_given_value(sections@[s], "psm"@, number::signed_decimal(psm as int));
        if forall|k: int| s < k < sections@.len() ==> !is_named(#[trigger] sections@[k], "ocr"@) {
            assert forall|k: int| s < k < all.len() implies (#[trigger] all[k]).0 != Some(
                "ocr"@,
            ) by {
                assert(all[k] == conf::section_text(sections@[k]));
                assert(!is_named(sections@[k], "ocr"@));
            }
        }
        assert(all[s] == conf::section_text(sections@[s]));
    }
    lemma_ocr_stays(root, all, -1);
    assert(all.take(0) == Seq::<(Option<Seq<char>>, Seq<(Seq<char>, Seq<char>)>)>::empty());
    assert(conf::sections_read(root, all.take(0)) == root);
    if 0 <= s < all.len() {
        lemma_ocr_stays(root, all, s);
        lemma_read_at(root, all, s);
    }
}

/// A field of `[capture]` stays as it is where no later section has a value
/// for it.
proof fn lemma_capture_stays(
    old: config::AppConfigView,
    sections: Seq<(Option<Seq<char>>, Seq<(Seq<char>, Seq<char>)>)>,
    s: int,
)
    requires
        -1 <= s < sections.len(),
    ensures
        silent_after(sections, s, "capture"@, "backend"@)
            ==> conf::sections_read(old, sections).capture.backend
            == conf::sections_read(old, sections.take(s + 1)).capture.backend,
        silent_after(sections, s, "capture"@, "external_command"@)
            ==> conf::sections_read(old, sections).capture.external_command
            == conf::sections_read(old, sections.take(s + 1)).capture.external_command,
        silent_after(sections, s, "capture"@, "external_timeout_secs"@)
            ==> conf::sections_read(old, sections).capture.external_timeout_secs
            == conf::sections_read(old, sections.take(s + 1)).capture.external_timeout_secs,
    decreases sections.len(),
{
    lemma_section_names();
    if s + 1 == sections.len() {
        assert(sections.take(s + 1) == sections);
    } else {
        let rest = sections.drop_last();
        let last = sections[sections.len() - 1];
        assert(sections.last() == last);
        lemma_capture_stays(old, rest, s);
        assert(rest.take(s + 1) == sections.take(s + 1));
        assert(silent_after(sections, s, "capture"@, "backend"@)
            ==> silent_after(rest, s, "capture"@, "backend"@)) by {
            assert forall|k: int| s < k < rest.len() implies #[trigger] rest[k] == sections[k] by {}
        }
        assert(silent_after(sections, s, "capture"@, "backend"@) && last.0 == Some("capture"@)
            ==> conf::value_of(
            last.1,
            "backend"@,
        ) is None);
        assert(silent_after(sections, s, "capture"@, "external_command"@)
            ==> silent_after(rest, s, "capture"@, "external_command"@)) by {
            assert forall|k: int| s < k < rest.len() implies #[trigger] rest[k] == sections[k] by {}
        }
        assert(silent_after(sections, s, "capture"@, "external_command"@)
            && last.0 == Some("capture"@)
            ==> conf::value_of(
            last.1,
            "external_command"@,
        ) is None);
        assert(silent_after(sections, s, "capture"@, "external_timeout_secs"@)
            ==> silent_after(rest, s, "capture"@, "external_timeout_secs"@)) by {
            assert forall|k: int| s < k < rest.len() implies #[trigger] rest[k] == sections[k] by {}
        }
        assert(silent_after(sections, s, "capture"@, "external_timeout_secs"@)
            && last.0 == Some("capture"@)
            ==> conf::value_of(
            last.1,
            "external_timeout_secs"@,
        ) is None);
    }
}

/// Each key of the `[capture]` section sets the field of its name: the value
/// that it has last counts, and where it has none the default stays.
pub proof fn law_capture_keys(
    sections: &Vec<IniSection>,
    cfg: AppConfig,
    d: AppConfig,
    s: int,
    value: Seq<char>,
    n: u64,
)
    requires
        call_ensures(
            conf::config_from_sections,
            (sections,),
            Ok::<AppConfig, IniError>(cfg),
        ),
        call_ensures(AppConfig::default, (), d),
    ensures
        given_last(sections@, s, "capture"@, "backend"@, value) && value == "external"@
            ==> cfg.capture.backend == CaptureBackend::External,
        given_last(sections@, s, "capture"@, "backend"@, value) && value != "external"@
            ==> cfg.capture.backend == CaptureBackend::BuiltIn,
        never_given(sections@, "capture"@, "backend"@) ==> cfg.capture.backend == d.capture.backend,
        given_last(sections@, s, "capture"@, "external_command"@, value)
            ==> cfg.capture.external_command@ == value,
        never_given(sections@, "capture"@, "external_command"@)
            ==> cfg.capture.external_command@ == d.capture.external_command@,
        given_last(sections@, s, "capture"@, "external_timeout_secs"@, number::decimal(n as nat))
            ==> cfg.capture.external_timeout_secs == n,
        never_given(sections@, "capture"@, "external_timeout_secs"@)
            ==> cfg.capture.external_timeout_secs == d.capture.external_timeout_secs,
{
    lemma_section_names();
    let all = conf::document_text(sections@);
    let root = conf::root_read(all);
    assert(cfg@ == conf::sections_read(root, all));
    number::law_unsigned_roundtrip(n as nat, u64::MAX as nat);
    lemma_never_given(sections@, "capture"@, "backend"@);
    lemma_last_value(sections@, s, "capture"@, "backend"@, value);
    lemma_never_given(sections@, "capture"@, "external_command"@);
    lemma_last_value(sections@, s, "capture"@, "external_command"@, value);
    lemma_never_given(sections@, "capture"@, "external_timeout_secs"@);
    lemma_last_value(sections@, s, "capture"@, "external_timeout_secs"@, number::decimal(n as nat));
    lemma_capture_stays(root, all, -1);
    assert(all.take(0) == Seq::<(Option<Seq<char>>, Seq<(Seq<char>, Seq<char>)>)>::empty());
    assert(conf::sections_read(root, all.take(0)) == root);
    if 0 <= s < all.len() {
        lemma_capture_stays(root, all, s);
        lemma_read_at(root, all, s);
    }
}

/// A field of `[popup]` stays as it is where no later section has a value
/// for it.
proof fn lemma_popup_stays(
    old: config::AppConfigView,
    sections: Seq<(Option<Seq<char>>, Seq<(Seq<char>, Seq<char>)>)>,
    s: int,
)
    requires
        -1 <= s < sections.len(),
    ensures
        silent_after(sections, s, "popup"@, "width"@) ==> conf::sections_read(old, sections).popup.width
            == conf::sections_read(old, sections.take(s + 1)).popup.width,
        silent_after(sections, s, "popup"@, "height"@) ==> conf::sections_read(old, sections).popup.height
            == conf::sections_read(old, sections.take(s + 1)).popup.height,
        silent_after(sections, s, "popup"@, "font_size"@)
            ==> conf::sections_read(old, sections).popup.font_size
            == conf::sections_read(old, sections.take(s + 1)).popup.font_size,
        silent_after(sections, s, "popup"@, "always_on_top"@)
            ==> conf::sections_read(old, sections).popup.always_on_top
            == conf::sections_read(old, sections.take(s + 1)).popup.always_on_top,
        silent_after(sections, s, "popup"@, "auto_close_secs"@)
            ==> conf::sections_read(old, sections).popup.auto_close_secs
            == conf::sections_read(old, sections.take(s + 1)).popup.auto_close_secs,
    decreases sections.len(),
{
    lemma_section_names();
    if s + 1 == sections.len() {
        assert(sections.take(s + 1) == sections);
    } else {
        let rest = sections.drop_last();
        let last = sections[sections.len() - 1];
        assert(sections.last() == last);
        lemma_popup_stays(old, rest, s);
        assert(rest.take(s + 1) == sections.take(s + 1));
        assert(silent_after(sections, s, "popup"@, "width"@)
            ==> silent_after(rest, s, "popup"@, "width"@)) by {
            assert forall|k: int| s < k < rest.len() implies #[trigger] rest[k] == sections[k] by {}
        }
        assert(silent_after(sections, s, "popup"@, "width"@) && last.0 == Some("popup"@)
            ==> conf::value_of(
            last.1,
            "width"@,
        ) is None);
        assert(silent_after(sections, s, "popup"@, "height"@)
            ==> silent_after(rest, s, "popup"@, "height"@)) by {
            assert forall|k: int| s < k < rest.len() implies #[trigger] rest[k] == sections[k] by {}
        }
        assert(silent_after(sections, s, "popup"@, "height"@) && last.0 == Some("popup"@)
            ==> conf::value_of(
            last.1,
            "height"@,
        ) is None);
        assert(silent_after(sections, s, "popup"@, "font_size"@)
            ==> silent_after(rest, s, "popup"@, "font_size"@)) by {
            assert forall|k: int| s < k < rest.len() implies #[trigger] rest[k] == sections[k] by {}
        }
        assert(silent_after(sections, s, "popup"@, "font_size"@) && last.0 == Some("popup"@)
            ==> conf::value_of(
            last.1,
            "font_size"@,
        ) is None);
        assert(silent_after(sections, s, "popup"@, "always_on_top"@)
            ==> silent_after(rest, s, "popup"@, "always_on_top"@)) by {
            assert forall|k: int| s < k < rest.len() implies #[trigger] rest[k] == sections[k] by {}
        }
        assert(silent_after(sections, s, "popup"@, "always_on_top"@) && last.0 == Some("popup"@)
            ==> conf::value_of(
            last.1,
            "always_on_top"@,
        ) is None);
        assert(silent_after(sections, s, "popup"@, "auto_close_secs"@)
            ==> silent_after(rest, s, "popup"@, "auto_close_secs"@)) by {
            assert forall|k: int| s < k < rest.len() implies #[trigger] rest[k] == sections[k] by {}
        }
        assert(silent_after(sections, s, "popup"@, "auto_close_secs"@) && last.0 == Some("popup"@)
            ==> conf::value_of(
            last.1,
            "auto_close_secs"@,
        ) is None);
    }
}

/// Each key of the `[popup]` section sets the field of its name: the value
/// that it has last counts, and where it has none the default stays.
pub proof fn law_popup_keys(
    sections: &Vec<IniSection>,
    cfg: AppConfig,
    d: AppConfig,
    s: int,
    value: Seq<char>,
    n: u64,
)
    requires
        call_ensures(
            conf::config_from_sections,
            (sections,),
            Ok::<AppConfig, IniError>(cfg),
        ),
        call_ensures(AppConfig::default, (), d),
    ensures
        given_last(sections@, s, "popup"@, "width"@, value)
            ==> cfg.popup.width@.len() > 0 && cfg.popup.width@.last() == value,
        never_given(sections@, "popup"@, "width"@) ==> cfg.popup.width@ == d.popup.width@,
        given_last(sections@, s, "popup"@, "height"@, value)
            ==> cfg.popup.height@.len() > 0 && cfg.popup.height@.last() == value,
        never_given(sections@, "popup"@, "height"@) ==> cfg.popup.height@ == d.popup.height@,
        given_last(sections@, s, "popup"@, "font_size"@, value)
            ==> cfg.popup.font_size@.len() > 0 && cfg.popup.font_size@.last() == value,
        never_given(sections@, "popup"@, "font_size"@)
            ==> cfg.popup.font_size@ == d.popup.font_size@,
        given_last(sections@, s, "popup"@, "always_on_top"@, "true"@) ==> cfg.popup.always_on_top,
        given_last(sections@, s, "popup"@, "always_on_top"@, "false"@) ==> !cfg.popup.always_on_top,
        never_given(sections@, "popup"@, "always_on_top"@)
            ==> cfg.popup.always_on_top == d.popup.always_on_top,
        given_last(sections@, s, "popup"@, "auto_close_secs"@, number::decimal(n as nat))
            ==> cfg.popup.auto_close_secs == n,
        never_given(sections@, "popup"@, "auto_close_secs"@)
            ==> cfg.popup.auto_close_secs == d.popup.auto_close_secs,
{
    lemma_section_names();
    let all = conf::document_text(sections@);
    let root = conf::root_read(all);
    assert(cfg@ == conf::sections_read(root, all));
    number::law_unsigned_roundtrip(n as nat, u64::MAX as nat);
    reveal_strlit("true");
    reveal_strlit("false");
    assert("true"@.len() == 4 && "false"@.len() == 5);
    lemma_never_given(sections@, "popup"@, "width"@);
    lemma_last_value(sections@, s, "popup"@, "width"@, value);
    lemma_never_given(sections@, "popup"@, "height"@);
    lemma_last_value(sections@, s, "popup"@, "height"@, value);
    lemma_never_given(sections@, "popup"@, "font_size"@);
    lemma_last_value(sections@, s, "popup"@, "font_size"@, value);
    lemma_never_given(sections@, "popup"@, "always_on_top"@);
    lemma_last_value(sections@, s, "popup"@, "always_on_top"@, "true"@);
    lemma_last_value(sections@, s, "popup"@, "always_on_top"@, "false"@);
    lemma_never_given(sections@, "popup"@, "auto_close_secs"@);
    lemma_last_value(sections@, s, "popup"@, "auto_close_secs"@, number::decimal(n as nat));
    lemma_popup_stays(root, all, -1);
    assert(all.take(0) == Seq::<(Option<Seq<char>>, Seq<(Seq<char>, Seq<char>)>)>::empty());
    assert(conf::sections_read(root, all.take(0)) == root);
    if 0 <= s < all.len() {
        lemma_popup_stays(root, all, s);
        lemma_read_at(root, all, s);
    }
}

/// A field of `[history_popup]` stays as it is where no later section has a value
/// for it.
proof fn lemma_history_popup_stays(
    old: config::AppConfigView,
    sections: Seq<(Option<Seq<char>>, Seq<(Seq<char>, Seq<char>)>)>,
    s: int,
)
    requires
        -1 <= s < sections.len(),
    ensures
        silent_after(sections, s, "history_popup"@, "width"@)
            ==> conf::sections_read(old, sections).history_popup.width
            == conf::sections_read(old, sections.take(s + 1)).history_popup.width,
        silent_after(sections, s, "history_popup"@, "height"@)
            ==> conf::sections_read(old, sections).history_popup.height
            == conf::sections_read(old, sections.take(s + 1)).history_popup.height,
        silent_after(sections, s, "history_popup"@, "font_size"@)
            ==> conf::sections_read(old, sections).history_popup.font_size
            == conf::sections_read(old, sections.take(s + 1)).history_popup.font_size,
        silent_after(sections, s, "history_popup"@, "always_on_top"@)
            ==> conf::sections_read(old, sections).history_popup.always_on_top
            == conf::sections_read(old, sections.take(s + 1)).history_popup.always_on_top,
        silent_after(sections, s, "history_popup"@, "auto_close_secs"@)
            ==> conf::sections_read(old, sections).history_popup.auto_close_secs
            == conf::sections_read(old, sections.take(s + 1)).history_popup.auto_close_secs,
    decreases sections.len(),
{
    lemma_section_names();
    if s + 1 == sections.len() {
        assert(sections.take(s + 1) == sections);
    } else {
        let rest = sections.drop_last();
        let last = sections[sections.len() - 1];
        assert(sections.last() == last);
        lemma_history_popup_stays(old, rest, s);
        assert(rest.take(s + 1) == sections.take(s + 1));
        assert(silent_after(sections, s, "history_popup"@, "width"@)
            ==> silent_after(rest, s, "history_popup"@, "width"@)) by {
            assert forall|k: int| s < k < rest.len() implies #[trigger] rest[k] == sections[k] by {}
        }
        assert(silent_after(sections, s, "history_popup"@, "width"@)
            && last.0 == Some("history_popup"@)
            ==> conf::value_of(
            last.1,
            "width"@,
        ) is None);
        assert(silent_after(sections, s, "history_popup"@, "height"@)
            ==> silent_after(rest, s, "history_popup"@, "height"@)) by {
            assert forall|k: int| s < k < rest.len() implies #[trigger] rest[k] == sections[k] by {}
        }
        assert(silent_after(sections, s, "history_popup"@, "height"@)
            && last.0 == Some("history_popup"@)
            ==> conf::value_of(
            last.1,
            "height"@,
        ) is None);
        assert(silent_after(sections, s, "history_popup"@, "font_size"@)
            ==> silent_after(rest, s, "history_popup"@, "font_size"@)) by {
            assert forall|k: int| s < k < rest.len() implies #[trigger] rest[k] == sections[k] by {}
        }
        assert(silent_after(sections, s, "history_popup"@, "font_size"@)
            && last.0 == Some("history_popup"@)
            ==> conf::value_of(
            last.1,
            "font_size"@,
        ) is None);
        assert(silent_after(sections, s, "history_popup"@, "always_on_top"@)
            ==> silent_after(rest, s, "history_popup"@, "always_on_top"@)) by {
            assert forall|k: int| s < k < rest.len() implies #[trigger] rest[k] == sections[k] by {}
        }
        assert(silent_after(sections, s, "history_popup"@, "always_on_top"@)
            && last.0 == Some("history_popup"@)
            ==> conf::value_of(
            last.1,
            "always_on_top"@,
        ) is None);
        assert(silent_after(sections, s, "history_popup"@, "auto_close_secs"@)
            ==> silent_after(rest, s, "history_popup"@, "auto_close_secs"@)) by {
            assert forall|k: int| s < k < rest.len() implies #[trigger] rest[k] == sections[k] by {}
        }
        assert(silent_after(sections, s, "history_popup"@, "auto_close_secs"@)
            && last.0 == Some("history_popup"@)
            ==> conf::value_of(
            last.1,
            "auto_close_secs"@,
        ) is None);
    }
}

/// Each key of the `[history_popup]` section sets the field of its name: the value
/// that it has last counts, and where it has none the default stays.
pub proof fn law_history_popup_keys(
    sections: &Vec<IniSection>,
    cfg: AppConfig,
    d: AppConfig,
    s: int,
    value: Seq<char>,
    n: u64,
)
    requires
        call_ensures(
            conf::config_from_sections,
            (sections,),
            Ok::<AppConfig, IniError>(cfg),
        ),
        call_ensures(AppConfig::default, (), d),
    ensures
        given_last(sections@, s, "history_popup"@, "width"@, value)
            ==> cfg.history_popup.width@.len() > 0 && cfg.history_popup.width@.last() == value,
        never_given(sections@, "history_popup"@, "width"@)
            ==> cfg.history_popup.width@ == d.history_popup.width@,
        given_last(sections@, s, "history_popup"@, "height"@, value)
            ==> cfg.history_popup.height@.len() > 0 && cfg.history_popup.height@.last() == value,
        never_given(sections@, "history_popup"@, "height"@)
            ==> cfg.history_popup.height@ == d.history_popup.height@,
        given_last(sections@, s, "history_popup"@, "font_size"@, value)
            ==> cfg.history_popup.font_size@.len() > 0 && cfg.history_popup.font_size@.last()
                == value,
        never_given(sections@, "history_popup"@, "font_size"@)
            ==> cfg.history_popup.font_size@ == d.history_popup.font_size@,
        given_last(sections@, s, "history_popup"@, "always_on_top"@, "true"@)
            ==> cfg.history_popup.always_on_top,
        given_last(sections@, s, "history_popup"@, "always_on_top"@, "false"@)
            ==> !cfg.history_popup.always_on_top,
        never_given(sections@, "history_popup"@, "always_on_top"@)
            ==> cfg.history_popup.always_on_top == d.history_popup.always_on_top,
        given_last(sections@, s, "history_popup"@, "auto_close_secs"@, number::decimal(n as nat))
            ==> cfg.history_popup.auto_close_secs == n,
        never_given(sections@, "history_popup"@, "auto_close_secs"@)
            ==> cfg.history_popup.auto_close_secs == d.history_popup.auto_close_secs,
{
    lemma_section_names();
    let all = conf::document_text(sections@);
    let root = conf::root_read(all);
    assert(cfg@ == conf::sections_read(root, all));
    number::law_unsigned_roundtrip(n as nat, u64::MAX as nat);
    reveal_strlit("true");
    reveal_strlit("false");
    assert("true"@.len() == 4 && "false"@.len() == 5);
    lemma_never_given(sections@, "history_popup"@, "width"@);
    lemma_last_value(sections@, s, "history_popup"@, "width"@, value);
    lemma_never_given(sections@, "history_popup"@, "height"@);
    lemma_last_value(sections@, s, "history_popup"@, "height"@, value);
    lemma_never_given(sections@, "history_popup"@, "font_size"@);
    lemma_last_value(sections@, s, "history_popup"@, "font_size"@, value);
    lemma_never_given(sections@, "history_popup"@, "always_on_top"@);
    lemma_last_value(sections@, s, "history_popup"@, "always_on_top"@, "true"@);
    lemma_last_value(sections@, s, "history_popup"@, "always_on_top"@, "false"@);
    lemma_never_given(sections@, "history_popup"@, "auto_close_secs"@);
    lemma_last_value(sections@, s, "history_popup"@, "auto_close_secs"@, number::decimal(n as nat));
    lemma_history_popup_stays(root, all, -1);
    assert(all.take(0) == Seq::<(Option<Seq<char>>, Seq<(Seq<char>, Seq<char>)>)>::empty());
    assert(conf::sections_read(root, all.take(0)) == root);
    if 0 <= s < all.len() {
        lemma_history_popup_stays(root, all, s);
        lemma_read_at(root, all, s);
    }
}

/// A field of `[history]` stays as it is where no later section has a value
/// for it.
proof fn lemma_history_stays(
    old: config::AppConfigView,
    sections: Seq<(Option<Seq<char>>, Seq<(Seq<char>, Seq<char>)>)>,
    s: int,
)
    requires
        -1 <= s < sections.len(),
    ensures
        silent_after(sections, s, "history"@, "enabled"@)
            ==> conf::sections_read(old, sections).history.enabled
            == conf::sections_read(old, sections.take(s + 1)).history.enabled,
        silent_after(sections, s, "history"@, "max_entries"@)
            ==> conf::sections_read(old, sections).history.max_entries
            == conf::sections_read(old, sections.take(s + 1)).history.max_entries,
        silent_after(sections, s, "history"@, "tray_menu_entries"@)
            ==> conf::sections_read(old, sections).history.tray_menu_entries
            == conf::sections_read(old, sections.take(s + 1)).history.tray_menu_entries,
    decreases sections.len(),
{
    lemma_section_names();
    if s + 1 == sections.len() {
        assert(sections.take(s + 1) == sections);
    } else {
        let rest = sections.drop_last();
        let last = sections[sections.len() - 1];
        assert(sections.last() == last);
        lemma_history_stays(old, rest, s);
        assert(rest.take(s + 1) == sections.take(s + 1));
        assert(silent_after(sections, s, "history"@, "enabled"@)
            ==> silent_after(rest, s, "history"@, "enabled"@)) by {
            assert forall|k: int| s < k < rest.len() implies #[trigger] rest[k] == sections[k] by {}
        }
        assert(silent_after(sections, s, "history"@, "enabled"@) && last.0 == Some("history"@)
            ==> conf::value_of(
            last.1,
            "enabled"@,
        ) is None);
        assert(silent_after(sections, s, "history"@, "max_entries"@)
            ==> silent_after(rest, s, "history"@, "max_entries"@)) by {
            assert forall|k: int| s < k < rest.len() implies #[trigger] rest[k] == sections[k] by {}
        }
        assert(silent_after(sections, s, "history"@, "max_entries"@) && last.0 == Some("history"@)
            ==> conf::value_of(
            last.1,
            "max_entries"@,
        ) is None);
        assert(silent_after(sections, s, "history"@, "tray_menu_entries"@)
            ==> silent_after(rest, s, "history"@, "tray_menu_entries"@)) by {
            assert forall|k: int| s < k < rest.len() implies #[trigger] rest[k] == sections[k] by {}
        }
        assert(silent_after(sections, s, "history"@, "tray_menu_entries"@)
            && last.0 == Some("history"@)
            ==> conf::value_of(
            last.1,
            "tray_menu_entries"@,
        ) is None);
    }
}

/// Each key of the `[history]` section sets the field of its name: the value
/// that it has last counts, and where it has none the default stays.
pub proof fn law_history_keys(
    sections: &Vec<IniSection>,
    cfg: AppConfig,
    d: AppConfig,
    s: int,
    value: Seq<char>,
    n: usize,
)
    requires
        call_ensures(
            conf::config_from_sections,
            (sections,),
            Ok::<AppConfig, IniError>(cfg),
        ),
        call_ensures(AppConfig::default, (), d),
    ensures
        given_last(sections@, s, "history"@, "enabled"@, "true"@) ==> cfg.history.enabled,
        given_last(sections@, s, "history"@, "enabled"@, "false"@) ==> !cfg.history.enabled,
        never_given(sections@, "history"@, "enabled"@) ==> cfg.history.enabled == d.history.enabled,
        given_last(sections@, s, "history"@, "max_entries"@, number::decimal(n as nat))
            ==> cfg.history.max_entries == n,
        never_given(sections@, "history"@, "max_entries"@)
            ==> cfg.history.max_entries == d.history.max_entries,
        given_last(sections@, s, "history"@, "tray_menu_entries"@, number::decimal(n as nat))
            ==> cfg.history.tray_menu_entries == n,
        never_given(sections@, "history"@, "tray_menu_entries"@)
            ==> cfg.history.tray_menu_entries == d.history.tray_menu_entries,
{
    lemma_section_names();
    let all = conf::document_text(sections@);
    let root = conf::root_read(all);
    assert(cfg@ == conf::sections_read(root, all));
    number::law_unsigned_roundtrip(n as nat, usize::MAX as nat);
    reveal_strlit("true");
    reveal_strlit("false");
    assert("true"@.len() == 4 && "false"@.len() == 5);
    lemma_never_given(sections@, "history"@, "enabled"@);
    lemma_last_value(sections@, s, "history"@, "enabled"@, "true"@);
    lemma_last_value(sections@, s, "history"@, "enabled"@, "false"@);
    lemma_never_given(sections@, "history"@, "max_entries"@);
    lemma_last_value(sections@, s, "history"@, "max_entries"@, number::decimal(n as nat));
    lemma_never_given(sections@, "history"@, "tray_menu_entries"@);
    lemma_last_value(sections@, s, "history"@, "tray_menu_entries"@, number::decimal(n as nat));
    lemma_history_stays(root, all, -1);
    assert(all.take(0) == Seq::<(Option<Seq<char>>, Seq<(Seq<char>, Seq<char>)>)>::empty());
    assert(conf::sections_read(root, all.take(0)) == root);
    if 0 <= s < all.len() {
        lemma_history_stays(root, all, s);
        lemma_read_at(root, all, s);
    }
}

/// A field of `[live_translate]` stays as it is where no later section has a value
/// for it.
proof fn lemma_live_translate_stays(
    old: config::AppConfigView,
    sections: Seq<(Option<Seq<char>>, Seq<(Seq<char>, Seq<char>)>)>,
    s: int,
)
    requires
        -1 <= s < sections.len(),
    ensures
        silent_after(sections, s, "live_translate"@, "width"@)
            ==> conf::sections_read(old, sections).live_translate.width
            == conf::sections_read(old, sections.take(s + 1)).live_translate.width,
        silent_after(sections, s, "live_translate"@, "height"@)
            ==> conf::sections_read(old, sections).live_translate.height
            == conf::sections_read(old, sections.take(s + 1)).live_translate.height,
        silent_after(sections, s, "live_translate"@, "font_size"@)
            ==> conf::sections_read(old, sections).live_translate.font_size
            == conf::sections_read(old, sections.take(s + 1)).live_translate.font_size,
        silent_after(sections, s, "live_translate"@, "always_on_top"@)
            ==> conf::sections_read(old, sections).live_translate.always_on_top
            == conf::sections_read(old, sections.take(s + 1)).live_translate.always_on_top,
        silent_after(sections, s, "live_translate"@, "show_source_by_default"@)
            ==> conf::sections_read(old, sections).live_translate.show_source_by_default
            == conf::sections_read(old, sections.take(s + 1)).live_translate.show_source_by_default,
        silent_after(sections, s, "live_translate"@, "poll_interval_ms"@)
            ==> conf::sections_read(old, sections).live_translate.poll_interval_ms
            == conf::sections_read(old, sections.take(s + 1)).live_translate.poll_interval_ms,
    decreases sections.len(),
{
    lemma_section_names();
    if s + 1 == sections.len() {
        assert(sections.take(s + 1) == sections);
    } else {
        let rest = sections.drop_last();
        let last = sections[sections.len() - 1];
        assert(sections.last() == last);
        lemma_live_translate_stays(old, rest, s);
        assert(rest.take(s + 1) == sections.take(s + 1));
        assert(silent_after(sections, s, "live_translate"@, "width"@)
            ==> silent_after(rest, s, "live_translate"@, "width"@)) by {
            assert forall|k: int| s < k < rest.len() implies #[trigger] rest[k] == sections[k] by {}
        }
        assert(silent_after(sections, s, "live_translate"@, "width"@)
            && last.0 == Some("live_translate"@)
            ==> conf::value_of(
            last.1,
            "width"@,
        ) is None);
        assert(silent_after(sections, s, "live_translate"@, "height"@)
            ==> silent_after(rest, s, "live_translate"@, "height"@)) by {
            assert forall|k: int| s < k < rest.len() implies #[trigger] rest[k] == sections[k] by {}
        }
        assert(silent_after(sections, s, "live_translate"@, "height"@)
            && last.0 == Some("live_translate"@)
            ==> conf::value_of(
            last.1,
            "height"@,
        ) is None);
        assert(silent_after(sections, s, "live_translate"@, "font_size"@)
            ==> silent_after(rest, s, "live_translate"@, "font_size"@)) by {
            assert forall|k: int| s < k < rest.len() implies #[trigger] rest[k] == sections[k] by {}
        }
        assert(silent_after(sections, s, "live_translate"@, "font_size"@)
            && last.0 == Some("live_translate"@)
            ==> conf::value_of(
            last.1,
            "font_size"@,
        ) is None);
        assert(silent_after(sections, s, "live_translate"@, "always_on_top"@)
            ==> silent_after(rest, s, "live_translate"@, "always_on_top"@)) by {
            assert forall|k: int| s < k < rest.len() implies #[trigger] rest[k] == sections[k] by {}
        }
        assert(silent_after(sections, s, "live_translate"@, "always_on_top"@)
            && last.0 == Some("live_translate"@)
            ==> conf::value_of(
            last.1,
            "always_on_top"@,
        ) is None);
        assert(silent_after(sections, s, "live_translate"@, "show_source_by_default"@)
            ==> silent_after(rest, s, "live_translate"@, "show_source_by_default"@)) by {
            assert forall|k: int| s < k < rest.len() implies #[trigger] rest[k] == sections[k] by {}
        }
        assert(silent_after(sections, s, "live_translate"@, "show_source_by_default"@)
            && last.0 == Some("live_translate"@)
            ==> conf::value_of(
            last.1,
            "show_source_by_default"@,
        ) is None);
        assert(silent_after(sections, s, "live_translate"@, "poll_interval_ms"@)
            ==> silent_after(rest, s, "live_translate"@, "poll_interval_ms"@)) by {
            assert forall|k: int| s < k < rest.len() implies #[trigger] rest[k] == sections[k] by {}
        }
        assert(silent_after(sections, s, "live_translate"@, "poll_interval_ms"@)
            && last.0 == Some("live_translate"@)
            ==> conf::value_of(
            last.1,
            "poll_interval_ms"@,
        ) is None);
    }
}

/// Each key of the `[live_translate]` section sets the field of its name: the value
/// that it has last counts, and where it has none the default stays.
pub proof fn law_live_translate_keys(
    sections: &Vec<IniSection>,
    cfg: AppConfig,
    d: AppConfig,
    s: int,
    value: Seq<char>,
    n: u64,
)
    requires
        call_ensures(
            conf::config_from_sections,
            (sections,),
            Ok::<AppConfig, IniError>(cfg),
        ),
        call_ensures(AppConfig::default, (), d),
    ensures
        given_last(sections@, s, "live_translate"@, "width"@, value)
            ==> cfg.live_translate.width@.len() > 0 && cfg.live_translate.width@.last() == value,
        never_given(sections@, "live_translate"@, "width"@)
            ==> cfg.live_translate.width@ == d.live_translate.width@,
        given_last(sections@, s, "live_translate"@, "height"@, value)
            ==> cfg.live_translate.height@.len() > 0 && cfg.live_translate.height@.last() == value,
        never_given(sections@, "live_translate"@, "height"@)
            ==> cfg.live_translate.height@ == d.live_translate.height@,
        given_last(sections@, s, "live_translate"@, "font_size"@, value)
            ==> cfg.live_translate.font_size@.len() > 0 && cfg.live_translate.font_size@.last()
                == value,
        never_given(sections@, "live_translate"@, "font_size"@)
            ==> cfg.live_translate.font_size@ == d.live_translate.font_size@,
        given_last(sections@, s, "live_translate"@, "always_on_top"@, "true"@)
            ==> cfg.live_translate.always_on_top,
        given_last(sections@, s, "live_translate"@, "always_on_top"@, "false"@)
            ==> !cfg.live_translate.always_on_top,
        never_given(sections@, "live_translate"@, "always_on_top"@)
            ==> cfg.live_translate.always_on_top == d.live_translate.always_on_top,
        given_last(sections@, s, "live_translate"@, "show_source_by_default"@, "true"@)
            ==> cfg.live_translate.show_source_by_default,
        given_last(sections@, s, "live_translate"@, "show_source_by_default"@, "false"@)
            ==> !cfg.live_translate.show_source_by_default,
        never_given(sections@, "live_translate"@, "show_source_by_default"@)
            ==> cfg.live_translate.show_source_by_default
                == d.live_translate.show_source_by_default,
        given_last(sections@, s, "live_translate"@, "poll_interval_ms"@, number::decimal(n as nat))
            ==> cfg.live_translate.poll_interval_ms == n,
        never_given(sections@, "live_translate"@, "poll_interval_ms"@)
            ==> cfg.live_translate.poll_interval_ms == d.live_translate.poll_interval_ms,
{
    lemma_section_names();
    let all = conf::document_text(sections@);
    let root = conf::root_read(all);
    assert(cfg@ == conf::sections_read(root, all));
    number::law_unsigned_roundtrip(n as nat, u64::MAX as nat);
    reveal_strlit("true");
    reveal_strlit("false");
    assert("true"@.len() == 4 && "false"@.len() == 5);
    lemma_never_given(sections@, "live_translate"@, "width"@);
    lemma_last_value(sections@, s, "live_translate"@, "width"@, value);
    lemma_never_given(sections@, "live_translate"@, "height"@);
    lemma_last_value(sections@, s, "live_translate"@, "height"@, value);
    lemma_never_given(sections@, "live_translate"@, "font_size"@);
    lemma_last_value(sections@, s, "live_translate"@, "font_size"@, value);
    lemma_never_given(sections@, "live_translate"@, "always_on_top"@);
    lemma_last_value(sections@, s, "live_translate"@, "always_on_top"@, "true"@);
    lemma_last_value(sections@, s, "live_translate"@, "always_on_top"@, "false"@);
    lemma_never_given(sections@, "live_translate"@, "show_source_by_default"@);
    lemma_last_value(sections@, s, "live_translate"@, "show_source_by_default"@, "true"@);
    lemma_last_value(sections@, s, "live_translate"@, "show_source_by_default"@, "false"@);
    lemma_never_given(sections@, "live_translate"@, "poll_interval_ms"@);
    lemma_last_value(
        sections@,
        s,
        "live_translate"@,
        "poll_interval_ms"@,
        number::decimal(n as nat),
    );
    lemma_live_translate_stays(root, all, -1);
    assert(all.take(0) == Seq::<(Option<Seq<char>>, Seq<(Seq<char>, Seq<char>)>)>::empty());
    assert(conf::sections_read(root, all.take(0)) == root);
    if 0 <= s < all.len() {
        lemma_live_translate_stays(root, all, s);
        lemma_read_at(root, all, s);
    }
}

/// A field of `[prompt]` stays as it is where no later section has a value
/// for it.
proof fn lemma_prompt_stays(
    old: config::AppConfigView,
    sections: Seq<(Option<Seq<char>>, Seq<(Seq<char>, Seq<char>)>)>,
    s: int,
)
    requires
        -1 <= s < sections.len(),
    ensures
        silent_after(sections, s, "prompt"@, "system"@)
            ==> conf::sections_read(old, sections).prompt.system
            == conf::sections_read(old, sections.take(s + 1)).prompt.system,
        silent_after(sections, s, "prompt"@, "template"@)
            ==> conf::sections_read(old, sections).prompt.template
            == conf::sections_read(old, sections.take(s + 1)).prompt.template,
    decreases sections.len(),
{
    lemma_section_names();
    if s + 1 == sections.len() {
        assert(sections.take(s + 1) == sections);
    } else {
        let rest = sections.drop_last();
        let last = sections[sections.len() - 1];
        assert(sections.last() == last);
        lemma_prompt_stays(old, rest, s);
        assert(rest.take(s + 1) == sections.take(s + 1));
        assert(silent_after(sections, s, "prompt"@, "system"@)
            ==> silent_after(rest, s, "prompt"@, "system"@)) by {
            assert forall|k: int| s < k < rest.len() implies #[trigger] rest[k] == sections[k] by {}
        }
        assert(silent_after(sections, s, "prompt"@, "system"@) && last.0 == Some("prompt"@)
            ==> conf::value_of(
            last.1,
            "system"@,
        ) is None);
        assert(silent_after(sections, s, "prompt"@, "template"@)
            ==> silent_after(rest, s, "prompt"@, "template"@)) by {
            assert forall|k: int| s < k < rest.len() implies #[trigger] rest[k] == sections[k] by {}
        }
        assert(silent_after(sections, s, "prompt"@, "template"@) && last.0 == Some("prompt"@)
            ==> conf::value_of(
            last.1,
            "template"@,
        ) is None);
    }
}

/// Each key of the `[prompt]` section sets the field of its name: the value
/// that it has last counts, and where it has none the default stays.
pub proof fn law_prompt_keys(
    sections: &Vec<IniSection>,
    cfg: AppConfig,
    d: AppConfig,
    s: int,
    value: Seq<char>,
)
    requires
        call_ensures(
            conf::config_from_sections,
            (sections,),
            Ok::<AppConfig, IniError>(cfg),
        ),
        call_ensures(AppConfig::default, (), d),
    ensures
        given_last(sections@, s, "prompt"@, "system"@, value) ==> cfg.prompt.system@ == value,
        never_given(sections@, "prompt"@, "system"@) ==> cfg.prompt.system@ == d.prompt.system@,
        given_last(sections@, s, "prompt"@, "template"@, value)
            ==> cfg.prompt.template@ == text::replaced(value, "\\n"@, "\n"@),
        never_given(sections@, "prompt"@, "template"@)
            ==> cfg.prompt.template@ == d.prompt.template@,
{
    lemma_section_names();
    let all = conf::document_text(sections@);
    let root = conf::root_read(all);
    assert(cfg@ == conf::sections_read(root, all));
    lemma_never_given(sections@, "prompt"@, "system"@);
    lemma_last_value(sections@, s, "prompt"@, "system"@, value);
    lemma_never_given(sections@, "prompt"@, "template"@);
    lemma_last_value(sections@, s, "prompt"@, "template"@, value);
    lemma_prompt_stays(root, all, -1);
    assert(all.take(0) == Seq::<(Option<Seq<char>>, Seq<(Seq<char>, Seq<char>)>)>::empty());
    assert(conf::sections_read(root, all.take(0)) == root);
    if 0 <= s < all.len() {
        lemma_prompt_stays(root, all, s);
        lemma_read_at(root, all, s);
    }
}

/// Names that begin with `provider.` are not those of other sections.
proof fn lemma_provider_name(name: Seq<char>)
    ensures
        ({
            let full = "provider."@ + name;
            &&& text::has_prefix(full, "provider."@)
            &&& full.skip("provider."@.len() as int) == name
            &&& full != "general"@ && full != "ocr"@ && full != "capture"@ && full != "popup"@
                && full != "history_popup"@ && full != "history"@ && full != "live_translate"@
                && full != "prompt"@
        }),
{
    reveal_strlit("general");
    reveal_strlit("ocr");
    reveal_strlit("capture");
    reveal_strlit("popup");
    reveal_strlit("history_popup");
    reveal_strlit("history");
    reveal_strlit("live_translate");
    reveal_strlit("prompt");
    reveal_strlit("provider.");
    let full = "provider."@ + name;
    assert(full.take("provider."@.len() as int) == "provider."@);
    assert(full.skip("provider."@.len() as int) == name);
    assert(full[0] == 'p' && full.len() >= 9);
    assert("general"@.len() == 7 && "ocr"@.len() == 3 && "capture"@.len() == 7 && "popup"@.len()
        == 5);
    assert("history"@.len() == 7 && "prompt"@.len() == 6);
    assert("history_popup"@[0] == 'h');
    assert("live_translate"@[0] == 'l');
}

/// A provider's settings stay as the last section of its name left them.
proof fn lemma_provider_stays(
    old: config::AppConfigView,
    sections: Seq<(Option<Seq<char>>, Seq<(Seq<char>, Seq<char>)>)>,
    s: int,
    name: Seq<char>,
)
    requires
        0 <= s < sections.len(),
        sections[s].0 == Some("provider."@ + name),
        unnamed_after(sections, s, "provider."@ + name),
    ensures
        conf::sections_read(old, sections).providers.contains_key(name),
        conf::sections_read(old, sections).providers[name] == conf::provider_read(sections[s].1),
    decreases sections.len(),
{
    let full = "provider."@ + name;
    lemma_provider_name(name);
    let rest = sections.drop_last();
    let last = sections[sections.len() - 1];
    assert(sections.last() == last);
    if s + 1 < sections.len() {
        assert forall|k: int| s < k < rest.len() implies (#[trigger] rest[k]).0 != Some(full) by {
            assert(rest[k] == sections[k]);
        }
        lemma_provider_stays(old, rest, s, name);
        if last.0 is Some && text::has_prefix(last.0->0, "provider."@) {
            let other = last.0->0;
            assert(other.take("provider."@.len() as int) + other.skip("provider."@.len() as int)
                == other);
        }
    }
}

/// A provider is configured only if a section has its name.
proof fn lemma_provider_has_section(
    old: config::AppConfigView,
    sections: Seq<(Option<Seq<char>>, Seq<(Seq<char>, Seq<char>)>)>,
    name: Seq<char>,
)
    requires
        !old.providers.contains_key(name),
        forall|k: int|
            0 <= k < sections.len() ==> (#[trigger] sections[k]).0 != Some("provider."@ + name),
    ensures
        !conf::sections_read(old, sections).providers.contains_key(name),
    decreases sections.len(),
{
    if sections.len() > 0 {
        let rest = sections.drop_last();
        let last = sections[sections.len() - 1];
        assert(sections.last() == last);
        assert forall|k: int| 0 <= k < rest.len() implies (#[trigger] rest[k]).0 != Some(
            "provider."@ + name,
        ) by {
            assert(rest[k] == sections[k]);
        }
        lemma_provider_has_section(old, rest, name);
        if last.0 is Some && text::has_prefix(last.0->0, "provider."@) {
            let other = last.0->0;
            assert(other.take("provider."@.len() as int) + other.skip("provider."@.len() as int)
                == other);
        }
    }
}

/// Each `[provider.<name>]` section is a provider of that name, and each of
/// its keys sets the field of its name. Of several sections for one provider
/// the last counts.
pub proof fn law_provider_keys(
    sections: &Vec<IniSection>,
    cfg: AppConfig,
    s: int,
    name: Seq<char>,
    value: Seq<char>,
    n: u64,
)
    requires
        call_ensures(conf::config_from_sections, (sections,), Ok::<AppConfig, IniError>(cfg)),
        0 <= s < sections@.len(),
        is_named(sections@[s], "provider."@ + name),
        forall|k: int|
            s < k < sections@.len() ==> !is_named(#[trigger] sections@[k], "provider."@ + name),
    ensures
        exists|i: int|
            0 <= i < cfg.providers.entries@.len() && (#[trigger] cfg.providers.entries@[i]).name@
                == name,
        forall|i: int|
            0 <= i < cfg.providers.entries@.len() && (#[trigger] cfg.providers.entries@[i]).name@
                == name ==> {
                let given = sections@[s];
                let p = cfg.providers.entries@[i].config;
                &&& gives(given, "base_url"@, value) ==> text::opt_text(p.base_url) == Some(value)
                &&& !mentions(given, "base_url"@) ==> p.base_url is None
                &&& gives(given, "api_key"@, value) ==> text::opt_text(p.api_key) == Some(value)
                &&& !mentions(given, "api_key"@) ==> p.api_key is None
                &&& gives(given, "api_key_env"@, value) ==> text::opt_text(p.api_key_env) == Some(
                    value,
                )
                &&& !mentions(given, "api_key_env"@) ==> p.api_key_env is None
                &&& gives(given, "model"@, value) ==> text::opt_text(p.model) == Some(value)
                &&& !mentions(given, "model"@) ==> p.model is None
                &&& gives(given, "region"@, value) ==> text::opt_text(p.region) == Some(value)
                &&& !mentions(given, "region"@) ==> p.region is None
                &&& gives(given, "timeout_secs"@, number::decimal(n as nat)) ==> p.timeout_secs
                    == n
                &&& !mentions(given, "timeout_secs"@) ==> p.timeout_secs == 60
                &&& gives(given, "kind"@, value) ==> p.kind == (if value == "google_translate"@ {
                    ProviderKind::GoogleTranslate
                } else if value == "bing_translate"@ {
                    ProviderKind::BingTranslate
                } else {
                    ProviderKind::OpenAiCompatible
                })
                &&& !mentions(given, "kind"@) ==> p.kind == ProviderKind::OpenAiCompatible
                &&& gives(given, "mode"@, value) ==> p.mode == (if value == "public"@ {
                    ProviderMode::Public
                } else {
                    ProviderMode::Private
                })
                &&& !mentions(given, "mode"@) ==> p.mode == ProviderMode::Private
            },
{
    let all = conf::document_text(sections@);
    let full = "provider."@ + name;
    assert(all[s] == conf::section_text(sections@[s]));
    assert forall|k: int| s < k < all.len() implies (#[trigger] all[k]).0 != Some(full) by {
        assert(all[k] == conf::section_text(sections@[k]));
        assert(!is_named(sections@[k], full));
    }
    lemma_provider_stays(conf::root_read(all), all, s, name);
    number::law_unsigned_roundtrip(n as nat, u64::MAX as nat);
    lemma_given_value(sections@[s], "base_url"@, value);
    lemma_given_value(sections@[s], "api_key"@, value);
    lemma_given_value(sections@[s], "api_key_env"@, value);
    lemma_given_value(sections@[s], "model"@, value);
    lemma_given_value(sections@[s], "region"@, value);
    lemma_given_value(sections@[s], "timeout_secs"@, number::decimal(n as nat));
    lemma_given_value(sections@[s], "kind"@, value);
    lemma_given_value(sections@[s], "mode"@, value);
    let entries = cfg.providers.entries@;
    providers::lemma_table_names(entries);
    assert(cfg@.providers.contains_key(name));
    assert(cfg@.providers[name] == conf::provider_read(all[s].1));
    assert forall|i: int| 0 <= i < entries.len() && (#[trigger] entries[i]).name@ == name implies
        entries[i].config@ == conf::provider_read(all[s].1) by {
        providers::lemma_table_entry(entries, i);
    }
}

/// Every provider of a configuration that was read has a section.
pub proof fn law_every_provider_has_a_section(sections: &Vec<IniSection>, cfg: AppConfig, i: int)
    requires
        call_ensures(conf::config_from_sections, (sections,), Ok::<AppConfig, IniError>(cfg)),
        0 <= i < cfg.providers.entries@.len(),
    ensures
        exists|s: int|
            0 <= s < sections@.len() && is_named(
                #[trigger] sections@[s],
                "provider."@ + cfg.providers.entries@[i].name@,
            ),
{
    let all = conf::document_text(sections@);
    let name = cfg.providers.entries@[i].name@;
    providers::lemma_table_entry(cfg.providers.entries@, i);
    if forall|s: int|
        0 <= s < sections@.len() ==> !is_named(#[trigger] sections@[s], "provider."@ + name) {
        assert forall|k: int| 0 <= k < all.len() implies (#[trigger] all[k]).0 != Some(
            "provider."@ + name,
        ) by {
            assert(all[k] == conf::section_text(sections@[k]));
            assert(!is_named(sections@[k], "provider."@ + name));
        }
        lemma_provider_has_section(conf::root_read(all), all, name);
    }
}

/// The section without a name is the first that has none.
proof fn lemma_root(
    sections: Seq<(Option<Seq<char>>, Seq<(Seq<char>, Seq<char>)>)>,
    s: int,
)
    requires
        0 <= s < sections.len(),
        sections[s].0 is None,
        forall|k: int| 0 <= k < s ==> (#[trigger] sections[k]).0 is Some,
    ensures
        conf::root_properties(sections) == sections[s].1,
    decreases s,
{
    if s > 0 {
        let rest = sections.skip(1);
        assert(sections[0].0 is Some);
        assert(rest[s - 1] == sections[s]);
        assert forall|k: int| 0 <= k < s - 1 implies (#[trigger] rest[k]).0 is Some by {
            assert(rest[k] == sections[k + 1]);
        }
        lemma_root(rest, s - 1);
    }
}

proof fn lemma_no_root(sections: Seq<(Option<Seq<char>>, Seq<(Seq<char>, Seq<char>)>)>)
    requires
        forall|k: int| 0 <= k < sections.len() ==> (#[trigger] sections[k]).0 is Some,
    ensures
        conf::root_properties(sections).len() == 0,
    decreases sections.len(),
{
    if sections.len() > 0 {
        let rest = sections.skip(1);
        assert(sections[0].0 is Some);
        assert forall|k: int| 0 <= k < rest.len() implies (#[trigger] rest[k]).0 is Some by {
            assert(rest[k] == sections[k + 1]);
        }
        lemma_no_root(rest);
    }
}

/// No section changes the active provider, its fallbacks, or what has no
/// section of its own.
proof fn lemma_root_stays(
    old: config::AppConfigView,
    sections: Seq<(Option<Seq<char>>, Seq<(Seq<char>, Seq<char>)>)>,
)
    ensures
        conf::sections_read(old, sections).active_provider == old.active_provider,
        conf::sections_read(old, sections).fallback_providers == old.fallback_providers,
        conf::sections_read(old, sections).translate == old.translate,
        conf::sections_read(old, sections).region_translate == old.region_translate,
        conf::sections_read(old, sections).hotkey == old.hotkey,
    decreases sections.len(),
{
    if sections.len() > 0 {
        lemma_root_stays(old, sections.drop_last());
    }
}

/// The keys before the first section name the active provider and, in a
/// list, its fallbacks; where they do not, the defaults stay. What has no
/// section of its own keeps its default.
pub proof fn law_root_keys(
    sections: &Vec<IniSection>,
    cfg: AppConfig,
    d: AppConfig,
    s: int,
    value: &str,
    list: Vec<String>,
)
    requires
        call_ensures(conf::config_from_sections, (sections,), Ok::<AppConfig, IniError>(cfg)),
        call_ensures(AppConfig::default, (), d),
        call_ensures(crate::text::split_list, (value,), list),
    ensures
        0 <= s < sections@.len() && sections@[s].name is None && (forall|k: int|
            0 <= k < s ==> (#[trigger] sections@[k]).name is Some) ==> {
            &&& gives(sections@[s], "active_provider"@, value@) ==> cfg.active_provider@ == value@
            &&& !mentions(sections@[s], "active_provider"@) ==> cfg.active_provider@
                == d.active_provider@
            &&& gives(sections@[s], "fallback_providers"@, value@) ==> text::texts(
                cfg.fallback_providers@,
            ) == text::texts(list@)
            &&& !mentions(sections@[s], "fallback_providers"@) ==> text::texts(
                cfg.fallback_providers@,
            ) == text::texts(d.fallback_providers@)
        },
        (forall|k: int| 0 <= k < sections@.len() ==> (#[trigger] sections@[k]).name is Some) ==> {
            &&& cfg.active_provider@ == d.active_provider@
            &&& text::texts(cfg.fallback_providers@) == text::texts(d.fallback_providers@)
        },
        cfg.translate@ == d.translate@,
        cfg.region_translate == d.region_translate,
        cfg.hotkey@ == d.hotkey@,
{
    let all = conf::document_text(sections@);
    let root = conf::root_read(all);
    assert(cfg@ == conf::sections_read(root, all));
    lemma_root_stays(root, all);
    if 0 <= s < sections@.len() && sections@[s].name is None && (forall|k: int|
        0 <= k < s ==> (#[trigger] sections@[k]).name is Some) {
        assert(all[s] == conf::section_text(sections@[s]));
        assert forall|k: int| 0 <= k < s implies (#[trigger] all[k]).0 is Some by {
            assert(all[k] == conf::section_text(sections@[k]));
            assert(sections@[k].name is Some);
        }
        lemma_root(all, s);
        lemma_given_value(sections@[s], "active_provider"@, value@);
        lemma_given_value(sections@[s], "fallback_providers"@, value@);
    }
    if forall|k: int| 0 <= k < sections@.len() ==> (#[trigger] sections@[k]).name is Some {
        assert forall|k: int| 0 <= k < all.len() implies (#[trigger] all[k]).0 is Some by {
            assert(all[k] == conf::section_text(sections@[k]));
            assert(sections@[k].name is Some);
        }
        lemma_no_root(all);
    }
}

/// A document is refused if it has no section for a provider, or none for
/// the active one, and for no other reason.
pub proof fn law_refused_documents(
    sections: &Vec<IniSection>,
    r: Result<AppConfig, IniError>,
    s: int,
    name: Seq<char>,
)
    requires
        call_ensures(conf::config_from_sections, (sections,), r),
    ensures
        r matches Err(e) ==> e is NoProviders || e is UnknownActiveProvider,
        0 <= s < sections@.len() && is_named(sections@[s], "provider."@ + name) ==> !(r matches Err(
            e,
        ) && e is NoProviders),
        (forall|k: int, x: Seq<char>|
            0 <= k < sections@.len() ==> !(#[trigger] is_named(sections@[k], "provider."@ + x))) ==> (
        r matches Err(e) && e is NoProviders),
{
    let all = conf::document_text(sections@);
    let cfg = conf::sections_read(conf::root_read(all), all);
    if 0 <= s < sections@.len() && is_named(sections@[s], "provider."@ + name) {
        assert(all[s] == conf::section_text(sections@[s]));
        lemma_some_provider(conf::root_read(all), all, s, name);
        assert(cfg.providers.contains_key(name));
    }
    if forall|k: int, x: Seq<char>|
        0 <= k < sections@.len() ==> !(#[trigger] is_named(sections@[k], "provider."@ + x)) {
        assert forall|x: Seq<char>| !cfg.providers.contains_key(x) by {
            assert forall|k: int| 0 <= k < all.len() implies (#[trigger] all[k]).0 != Some(
                "provider."@ + x,
            ) by {
                assert(all[k] == conf::section_text(sections@[k]));
                assert(!is_named(sections@[k], "provider."@ + x));
            }
            lemma_provider_has_section(conf::root_read(all), all, x);
        }
        assert(cfg.providers =~= Map::<Seq<char>, providers::ProviderView>::empty());
    }
}

/// A provider that has a section is configured.
proof fn lemma_some_provider(
    old: config::AppConfigView,
    sections: Seq<(Option<Seq<char>>, Seq<(Seq<char>, Seq<char>)>)>,
    s: int,
    name: Seq<char>,
)
    requires
        0 <= s < sections.len(),
        sections[s].0 == Some("provider."@ + name),
    ensures
        conf::sections_read(old, sections).providers.contains_key(name),
    decreases sections.len(),
{
    lemma_provider_name(name);
    assert(sections.last() == sections[sections.len() - 1]);
    if s + 1 < sections.len() {
        assert(sections.drop_last()[s] == sections[s]);
        lemma_some_provider(old, sections.drop_last(), s, name);
    }
}

/// A document whose active provider has a section is a configuration; one
/// whose active provider has none is refused, with that name.
pub proof fn law_active_provider_needs_a_section(
    sections: &Vec<IniSection>,
    r: Result<AppConfig, IniError>,
    root: int,
    s: int,
    active: Seq<char>,
)
    requires
        call_ensures(conf::config_from_sections, (sections,), r),
        0 <= root < sections@.len(),
        sections@[root].name is None,
        forall|k: int| 0 <= k < root ==> (#[trigger] sections@[k]).name is Some,
        gives(sections@[root], "active_provider"@, active),
    ensures
        0 <= s < sections@.len() && is_named(sections@[s], "provider."@ + active) ==> (r matches Ok(
            cfg,
        ) && cfg.active_provider@ == active),
        (forall|k: int|
            0 <= k < sections@.len() ==> !is_named(#[trigger] sections@[k], "provider."@ + active))
            ==> (r matches Err(e) && (e is NoProviders || (e matches IniError::UnknownActiveProvider(
            n,
        ) && n@ == active))),
{
    let all = conf::document_text(sections@);
    let start = conf::root_read(all);
    let cfg = conf::sections_read(start, all);
    assert(all[root] == conf::section_text(sections@[root]));
    assert forall|k: int| 0 <= k < root implies (#[trigger] all[k]).0 is Some by {
        assert(all[k] == conf::section_text(sections@[k]));
        assert(sections@[k].name is Some);
    }
    lemma_root(all, root);
    lemma_given_value(sections@[root], "active_provider"@, active);
    lemma_root_stays(start, all);
    assert(cfg.active_provider == active);
    if 0 <= s < sections@.len() && is_named(sections@[s], "provider."@ + active) {
        assert(all[s] == conf::section_text(sections@[s]));
        lemma_some_provider(start, all, s, active);
    }
    if forall|k: int|
        0 <= k < sections@.len() ==> !is_named(#[trigger] sections@[k], "provider."@ + active) {
        assert forall|k: int| 0 <= k < all.len() implies (#[trigger] all[k]).0 != Some(
            "provider."@ + active,
        ) by {
            assert(all[k] == conf::section_text(sections@[k]));
            assert(!is_named(sections@[k], "provider."@ + active));
        }
        lemma_provider_has_section(start, all, active);
    }
}

/// The value that is looked up is the first that stands under the key.
pub proof fn law_first_value_counts(
    section: IniSection,
    key: &str,
    r: Option<&str>,
    value: Seq<char>,
)
    requires
        call_ensures(conf::get, (&section.properties, key), r),
    ensures
        gives(section, key@, value) ==> (r matches Some(v) && v@ == value),
        !mentions(section, key@) ==> r is None,
{
    lemma_given_value(section, key@, value);
}

/// A byte order mark at the start of a text is left out, and nothing else
/// is.
pub proof fn law_byte_order_mark(source: &str, r: String, rest: Seq<char>)
    requires
        call_ensures(conf::strip_bom, (source,), r),
    ensures
        source@ == seq!['\u{feff}'] + rest ==> r@ == rest,
        source@.len() == 0 || source@[0] != '\u{feff}' ==> r@ == source@,
{
    if source@ == seq!['\u{feff}'] + rest {
        assert(source@.skip(1) == rest);
    }
}

/// An INI text is the configuration of its sections; what the parser
/// complains of is reported.
pub proof fn law_text_is_read_by_its_sections(
    source: &str,
    plain: String,
    r: Result<AppConfig, IniError>,
    sections: &Vec<IniSection>,
    q: Result<AppConfig, IniError>,
)
    requires
        call_ensures(conf::strip_bom, (source,), plain),
        call_ensures(conf::load_ini, (source,), r),
        call_ensures(conf::config_from_sections, (sections,), q),
    ensures
        conf::ini_reading(plain@)
                == Ok::<_, Seq<char>>(conf::document_text(sections@)) ==> conf::outcome(r)
            == conf::outcome(q),
        conf::ini_reading(plain@) matches Err(e) ==> (r matches Err(IniError::Syntax(s)) && s@
                == e),
{
}

/// The errors in words.
pub proof fn law_error_messages(e: &IniError, r: String)
    requires
        call_ensures(IniError::message, (e,), r),
    ensures
        *e matches IniError::Syntax(s) ==> r@ == "invalid INI syntax: "@ + s@,
        *e is NoProviders ==> r@ == "config has no [provider.<name>] sections defined"@,
        *e matches IniError::UnknownActiveProvider(s) ==> r@ == "active_provider '"@ + s@
            + "' has no matching [provider."@ + s@ + "] section"@,
{
}

/// Whether the only value that a key has in the sections of that name is
/// this one; it stands in the section at `s`.
pub open spec fn given_once(
    sections: Seq<IniSection>,
    s: int,
    name: Seq<char>,
    key: Seq<char>,
    value: Seq<char>,
) -> bool {
    &&& given_last(sections, s, name, key, value)
    &&& forall|k: int|
        0 <= k < s && is_named(#[trigger] sections[k], name) ==> !mentions(sections[k], key)
}

/// Before the only value of a key, nothing has one for it.
proof fn lemma_silent_before(
    sections: Seq<IniSection>,
    s: int,
    name: Seq<char>,
    key: Seq<char>,
    value: Seq<char>,
)
    ensures
        given_once(sections, s, name, key, value) ==> silent_after(
            conf::document_text(sections).take(s),
            -1,
            name,
            key,
        ),
{
    if given_once(sections, s, name, key, value) {
        let all = conf::document_text(sections);
        let front = all.take(s);
        assert forall|k: int|
            -1 < k < front.len() && (#[trigger] front[k]).0 == Some(name) implies conf::value_of(
            front[k].1,
            key,
        ) is None by {
            assert(front[k] == conf::section_text(sections[k]));
            assert(is_named(sections[k], name));
            lemma_given_value(sections[k], key, key);
        }
    }
}

/// A value of the `[ocr]` section that cannot be read leaves its field as it
/// was.
pub proof fn law_ocr_values(
    sections: &Vec<IniSection>,
    cfg: AppConfig,
    d: AppConfig,
    s: int,
    value: Seq<char>,
)
    requires
        call_ensures(conf::config_from_sections, (sections,), Ok::<AppConfig, IniError>(cfg)),
        call_ensures(AppConfig::default, (), d),
    ensures
        given_once(sections@, s, "ocr"@, "preprocess"@, value) && value != "true"@
            && value != "false"@
            ==> cfg.ocr.preprocess == d.ocr.preprocess,
{
    lemma_section_names();
    let all = conf::document_text(sections@);
    let root = conf::root_read(all);
    assert(cfg@ == conf::sections_read(root, all));
    lemma_last_value(sections@, s, "ocr"@, "preprocess"@, value);
    lemma_silent_before(sections@, s, "ocr"@, "preprocess"@, value);
    if 0 <= s < all.len() {
        let front = all.take(s);
        lemma_ocr_stays(root, front, -1);
        assert(front.take(0) == Seq::<(Option<Seq<char>>, Seq<(Seq<char>, Seq<char>)>)>::empty());
        assert(conf::sections_read(root, front.take(0)) == root);
        lemma_ocr_stays(root, all, s);
        lemma_read_at(root, all, s);
    }
}

/// A value of the `[capture]` section that cannot be read leaves its field as it
/// was.
pub proof fn law_capture_values(
    sections: &Vec<IniSection>,
    cfg: AppConfig,
    d: AppConfig,
    s: int,
    value: Seq<char>,
)
    requires
        call_ensures(conf::config_from_sections, (sections,), Ok::<AppConfig, IniError>(cfg)),
        call_ensures(AppConfig::default, (), d),
    ensures
        given_once(sections@, s, "capture"@, "external_timeout_secs"@, value)
            && number::unsigned_in(value, u64::MAX as nat) is None ==> cfg.capture.external_timeout_secs
                == d.capture.external_timeout_secs,
{
    lemma_section_names();
    let all = conf::document_text(sections@);
    let root = conf::root_read(all);
    assert(cfg@ == conf::sections_read(root, all));
    lemma_last_value(sections@, s, "capture"@, "external_timeout_secs"@, value);
    lemma_silent_before(sections@, s, "capture"@, "external_timeout_secs"@, value);
    if 0 <= s < all.len() {
        let front = all.take(s);
        lemma_capture_stays(root, front, -1);
        assert(front.take(0) == Seq::<(Option<Seq<char>>, Seq<(Seq<char>, Seq<char>)>)>::empty());
        assert(conf::sections_read(root, front.take(0)) == root);
        lemma_capture_stays(root, all, s);
        lemma_read_at(root, all, s);
    }
}

/// A value of the `[popup]` section that cannot be read leaves its field as it
/// was; a measure keeps all the texts that it was given.
pub proof fn law_popup_values(
    sections: &Vec<IniSection>,
    cfg: AppConfig,
    d: AppConfig,
    s: int,
    value: Seq<char>,
)
    requires
        call_ensures(conf::config_from_sections, (sections,), Ok::<AppConfig, IniError>(cfg)),
        call_ensures(AppConfig::default, (), d),
    ensures
        given_once(sections@, s, "popup"@, "width"@, value) ==> cfg.popup.width@
            == d.popup.width@.push(value),
        given_once(sections@, s, "popup"@, "height"@, value) ==> cfg.popup.height@
            == d.popup.height@.push(value),
        given_once(sections@, s, "popup"@, "font_size"@, value) ==> cfg.popup.font_size@
            == d.popup.font_size@.push(value),
        given_once(sections@, s, "popup"@, "always_on_top"@, value) && value != "true"@
            && value != "false"@
            ==> cfg.popup.always_on_top == d.popup.always_on_top,
        given_once(sections@, s, "popup"@, "auto_close_secs"@, value)
            && number::unsigned_in(value, u64::MAX as nat) is None ==> cfg.popup.auto_close_secs
                == d.popup.auto_close_secs,
{
    lemma_section_names();
    let all = conf::document_text(sections@);
    let root = conf::root_read(all);
    assert(cfg@ == conf::sections_read(root, all));
    lemma_last_value(sections@, s, "popup"@, "width"@, value);
    lemma_silent_before(sections@, s, "popup"@, "width"@, value);
    lemma_last_value(sections@, s, "popup"@, "height"@, value);
    lemma_silent_before(sections@, s, "popup"@, "height"@, value);
    lemma_last_value(sections@, s, "popup"@, "font_size"@, value);
    lemma_silent_before(sections@, s, "popup"@, "font_size"@, value);
    lemma_last_value(sections@, s, "popup"@, "always_on_top"@, value);
    lemma_silent_before(sections@, s, "popup"@, "always_on_top"@, value);
    lemma_last_value(sections@, s, "popup"@, "auto_close_secs"@, value);
    lemma_silent_before(sections@, s, "popup"@, "auto_close_secs"@, value);
    if 0 <= s < all.len() {
        let front = all.take(s);
        lemma_popup_stays(root, front, -1);
        assert(front.take(0) == Seq::<(Option<Seq<char>>, Seq<(Seq<char>, Seq<char>)>)>::empty());
        assert(conf::sections_read(root, front.take(0)) == root);
        lemma_popup_stays(root, all, s);
        lemma_read_at(root, all, s);
    }
}

/// A value of the `[history_popup]` section that cannot be read leaves its field as it
/// was; a measure keeps all the texts that it was given.
pub proof fn law_history_popup_values(
    sections: &Vec<IniSection>,
    cfg: AppConfig,
    d: AppConfig,
    s: int,
    value: Seq<char>,
)
    requires
        call_ensures(conf::config_from_sections, (sections,), Ok::<AppConfig, IniError>(cfg)),
        call_ensures(AppConfig::default, (), d),
    ensures
        given_once(sections@, s, "history_popup"@, "width"@, value) ==> cfg.history_popup.width@
            == d.history_popup.width@.push(value),
        given_once(sections@, s, "history_popup"@, "height"@, value) ==> cfg.history_popup.height@
            == d.history_popup.height@.push(value),
        given_once(sections@, s, "history_popup"@, "font_size"@, value)
            ==> cfg.history_popup.font_size@
            == d.history_popup.font_size@.push(value),
        given_once(sections@, s, "history_popup"@, "always_on_top"@, value) && value != "true"@
            && value != "false"@
            ==> cfg.history_popup.always_on_top == d.history_popup.always_on_top,
        given_once(sections@, s, "history_popup"@, "auto_close_secs"@, value)
            && number::unsigned_in(value, u64::MAX as nat) is None ==> cfg.history_popup.auto_close_secs
                == d.history_popup.auto_close_secs,
{
    lemma_section_names();
    let all = conf::document_text(sections@);
    let root = conf::root_read(all);
    assert(cfg@ == conf::sections_read(root, all));
    lemma_last_value(sections@, s, "history_popup"@, "width"@, value);
    lemma_silent_before(sections@, s, "history_popup"@, "width"@, value);
    lemma_last_value(sections@, s, "history_popup"@, "height"@, value);
    lemma_silent_before(sections@, s, "history_popup"@, "height"@, value);
    lemma_last_value(sections@, s, "history_popup"@, "font_size"@, value);
    lemma_silent_before(sections@, s, "history_popup"@, "font_size"@, value);
    lemma_last_value(sections@, s, "history_popup"@, "always_on_top"@, value);
    lemma_silent_before(sections@, s, "history_popup"@, "always_on_top"@, value);
    lemma_last_value(sections@, s, "history_popup"@, "auto_close_secs"@, value);
    lemma_silent_before(sections@, s, "history_popup"@, "auto_close_secs"@, value);
    if 0 <= s < all.len() {
        let front = all.take(s);
        lemma_history_popup_stays(root, front, -1);
        assert(front.take(0) == Seq::<(Option<Seq<char>>, Seq<(Seq<char>, Seq<char>)>)>::empty());
        assert(conf::sections_read(root, front.take(0)) == root);
        lemma_history_popup_stays(root, all, s);
        lemma_read_at(root, all, s);
    }
}

/// A value of the `[history]` section that cannot be read leaves its field as it
/// was.
pub proof fn law_history_values(
    sections: &Vec<IniSection>,
    cfg: AppConfig,
    d: AppConfig,
    s: int,
    value: Seq<char>,
)
    requires
        call_ensures(conf::config_from_sections, (sections,), Ok::<AppConfig, IniError>(cfg)),
        call_ensures(AppConfig::default, (), d),
    ensures
        given_once(sections@, s, "history"@, "enabled"@, value) && value != "true"@
            && value != "false"@
            ==> cfg.history.enabled == d.history.enabled,
        given_once(sections@, s, "history"@, "max_entries"@, value)
            && number::unsigned_in(value, usize::MAX as nat) is None ==> cfg.history.max_entries
                == d.history.max_entries,
        given_once(sections@, s, "history"@, "tray_menu_entries"@, value)
            && number::unsigned_in(value, usize::MAX as nat) is None ==> cfg.history.tray_menu_entries
                == d.history.tray_menu_entries,
{
    lemma_section_names();
    let all = conf::document_text(sections@);
    let root = conf::root_read(all);
    assert(cfg@ == conf::sections_read(root, all));
    lemma_last_value(sections@, s, "history"@, "enabled"@, value);
    lemma_silent_before(sections@, s, "history"@, "enabled"@, value);
    lemma_last_value(sections@, s, "history"@, "max_entries"@, value);
    lemma_silent_before(sections@, s, "history"@, "max_entries"@, value);
    lemma_last_value(sections@, s, "history"@, "tray_menu_entries"@, value);
    lemma_silent_before(sections@, s, "history"@, "tray_menu_entries"@, value);
    if 0 <= s < all.len() {
        let front = all.take(s);
        lemma_history_stays(root, front, -1);
        assert(front.take(0) == Seq::<(Option<Seq<char>>, Seq<(Seq<char>, Seq<char>)>)>::empty());
        assert(conf::sections_read(root, front.take(0)) == root);
        lemma_history_stays(root, all, s);
        lemma_read_at(root, all, s);
    }
}

/// A value of the `[live_translate]` section that cannot be read leaves its field as it
/// was; a measure keeps all the texts that it was given.
pub proof fn law_live_translate_values(
    sections: &Vec<IniSection>,
    cfg: AppConfig,
    d: AppConfig,
    s: int,
    value: Seq<char>,
)
    requires
        call_ensures(conf::config_from_sections, (sections,), Ok::<AppConfig, IniError>(cfg)),
        call_ensures(AppConfig::default, (), d),
    ensures
        given_once(sections@, s, "live_translate"@, "width"@, value) ==> cfg.live_translate.width@
            == d.live_translate.width@.push(value),
        given_once(sections@, s, "live_translate"@, "height"@, value) ==> cfg.live_translate.height@
            == d.live_translate.height@.push(value),
        given_once(sections@, s, "live_translate"@, "font_size"@, value)
            ==> cfg.live_translate.font_size@
            == d.live_translate.font_size@.push(value),
        given_once(sections@, s, "live_translate"@, "always_on_top"@, value) && value != "true"@
            && value != "false"@
            ==> cfg.live_translate.always_on_top == d.live_translate.always_on_top,
        given_once(sections@, s, "live_translate"@, "show_source_by_default"@, value) && value != "true"@
            && value != "false"@
            ==> cfg.live_translate.show_source_by_default
                == d.live_translate.show_source_by_default,
        given_once(sections@, s, "live_translate"@, "poll_interval_ms"@, value)
            && number::unsigned_in(value, u64::MAX as nat) is None ==> cfg.live_translate.poll_interval_ms
                == d.live_translate.poll_interval_ms,
{
    lemma_section_names();
    let all = conf::document_text(sections@);
    let root = conf::root_read(all);
    assert(cfg@ == conf::sections_read(root, all));
    lemma_last_value(sections@, s, "live_translate"@, "width"@, value);
    lemma_silent_before(sections@, s, "live_translate"@, "width"@, value);
    lemma_last_value(sections@, s, "live_translate"@, "height"@, value);
    lemma_silent_before(sections@, s, "live_translate"@, "height"@, value);
    lemma_last_value(sections@, s, "live_translate"@, "font_size"@, value);
    lemma_silent_before(sections@, s, "live_translate"@, "font_size"@, value);
    lemma_last_value(sections@, s, "live_translate"@, "always_on_top"@, value);
    lemma_silent_before(sections@, s, "live_translate"@, "always_on_top"@, value);
    lemma_last_value(sections@, s, "live_translate"@, "show_source_by_default"@, value);
    lemma_silent_before(sections@, s, "live_translate"@, "show_source_by_default"@, value);
    lemma_last_value(sections@, s, "live_translate"@, "poll_interval_ms"@, value);
    lemma_silent_before(sections@, s, "live_translate"@, "poll_interval_ms"@, value);
    if 0 <= s < all.len() {
        let front = all.take(s);
        lemma_live_translate_stays(root, front, -1);
        assert(front.take(0) == Seq::<(Option<Seq<char>>, Seq<(Seq<char>, Seq<char>)>)>::empty());
        assert(conf::sections_read(root, front.take(0)) == root);
        lemma_live_translate_stays(root, all, s);
        lemma_read_at(root, all, s);
    }
}

} // verus!
