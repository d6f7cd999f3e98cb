//! Which file the configuration is read from, and which files are written
//! when there is none.

use crate::letter_case;
use crate::letter_case::to_lowercase;
use crate::text;
use crate::text::same_text;
use vstd::prelude::*;

verus! {

/// The syntax of a configuration file.
#[derive(Debug, Clone, Copy, PartialEq, Eq, Structural)]
pub enum ConfigFormat {
    Yaml,
    Conf,
}

/// The configuration file.
#[derive(Debug)]
pub enum ConfigSource {
    /// The path that the user gave.
    Explicit(String),
    /// A file of this name in the configuration directory.
    InConfigDir(String),
}

pub enum ConfigSourceView {
    Explicit(Seq<char>),
    InConfigDir(Seq<char>),
}

impl View for ConfigSource {
    type V = ConfigSourceView;

    open spec fn view(&self) -> ConfigSourceView {
        match *self {
            ConfigSource::Explicit(s) => ConfigSourceView::Explicit(s@),
            ConfigSource::InConfigDir(s) => ConfigSourceView::InConfigDir(s@),
        }
    }
}

/// What goes wrong on the way to the configuration.
#[derive(Debug)]
pub enum LocateError {
    /// There is no configuration directory on this platform.
    NoConfigDir,
    /// No syntax goes with this file extension.
    UnsupportedExtension(String),
    /// No syntax has this name.
    UnknownFormat(String),
    /// The file, of this name, is there already.
    AlreadyExists(String),
}

pub enum LocateErrorView {
    NoConfigDir,
    UnsupportedExtension(Seq<char>),
    UnknownFormat(Seq<char>),
    AlreadyExists(Seq<char>),
}

impl View for LocateError {
    type V = LocateErrorView;

    open spec fn view(&self) -> LocateErrorView {
        match *self {
            LocateError::NoConfigDir => LocateErrorView::NoConfigDir,
            LocateError::UnsupportedExtension(s) => LocateErrorView::UnsupportedExtension(s@),
            LocateError::UnknownFormat(s) => LocateErrorView::UnknownFormat(s@),
            LocateError::AlreadyExists(s) => LocateErrorView::AlreadyExists(s@),
        }
    }
}

impl LocateError {
    /// The error in words.
    pub fn message(&self) -> (r: String)
        ensures
            r@ == (match self@ {
                LocateErrorView::NoConfigDir =>
                    "could not determine a config directory for this platform"@,
                LocateErrorView::UnsupportedExtension(s) => "unsupported config extension '"@ + s
                    + "' (use .yaml or .conf)"@,
                LocateErrorView::UnknownFormat(s) => "unknown format '"@ + s
                    + "', expected 'yaml' or 'conf'"@,
                LocateErrorView::AlreadyExists(s) => s
                    + " already exists (use --force to overwrite)"@,
            }),
    {
        match self {
            LocateError::NoConfigDir => {
                "could not determine a config directory for this platform".to_owned()
            },
            LocateError::UnsupportedExtension(s) => {
                let mut r = "unsupported config extension '".to_owned();
                r.append(s.as_str());
                r.append("' (use .yaml or .conf)");
                r
            },
            LocateError::UnknownFormat(s) => {
                let mut r = "unknown format '".to_owned();
                r.append(s.as_str());
                r.append("', expected 'yaml' or 'conf'");
                r
            },
            LocateError::AlreadyExists(s) => {
                let mut r = s.clone();
                r.append(" already exists (use --force to overwrite)");
                r
            },
        }
    }
}

/// A text given by reference, if any.
pub open spec fn opt_str(o: Option<&str>) -> Option<Seq<char>> {
    match o {
        Some(s) => Some(s@),
        None => None,
    }
}

/// The file names in the configuration directory, if there is one.
pub open spec fn opt_names(o: Option<&Vec<String>>) -> Option<Seq<Seq<char>>> {
    match o {
        Some(v) => Some(text::texts(v@)),
        None => None,
    }
}

/// The configuration file: the one that the user named, else the first of
/// `config.yaml`, `config.yml` and `config.conf` that the configuration
/// directory holds.
pub open spec fn config_source(
    explicit: Option<Seq<char>>,
    dir_files: Option<Seq<Seq<char>>>,
) -> Option<ConfigSourceView> {
    match explicit {
        Some(path) => Some(ConfigSourceView::Explicit(path)),
        None => match dir_files {
            None => None,
            Some(files) => if files.contains("config.yaml"@) {
                Some(ConfigSourceView::InConfigDir("config.yaml"@))
            } else if files.contains("config.yml"@) {
                Some(ConfigSourceView::InConfigDir("config.yml"@))
            } else if files.contains("config.conf"@) {
                Some(ConfigSourceView::InConfigDir("config.conf"@))
            } else {
                None
            },
        },
    }
}

/// Whether a list of names holds a name.
fn names_contain(names: &Vec<String>, name: &str) -> (b: bool)
    ensures
        b == text::texts(names@).contains(name@),
{
    let mut i: usize = 0;
    while i < names.len()
        invariant
            i <= names@.len(),
            forall|k: int| 0 <= k < i ==> (#[trigger] names@[k])@ != name@,
        decreases names@.len() - i,
    {
        if same_text(names[i].as_str(), name) {
            assert(text::texts(names@)[i as int] == name@);
            return true;
        }
        i += 1;
    }
    assert forall|k: int| 0 <= k < names@.len() implies text::texts(names@)[k] != name@ by {
        assert(names@[k]@ != name@);
    }
    false
}

/// The configuration file, if there is one. `dir_files` names the files in
/// the configuration directory, if the platform has such a directory.
pub fn resolve_path(explicit_path: Option<&str>, dir_files: Option<&Vec<String>>) -> (r: Option<
    ConfigSource,
>)
    ensures
        (match r {
            Some(s) => config_source(opt_str(explicit_path), opt_names(dir_files)) == Some(s@),
            None => config_source(opt_str(explicit_path), opt_names(dir_files)) is None,
        }),
{
    if let Some(path) = explicit_path {
        return Some(ConfigSource::Explicit(path.to_owned()));
    }
    match dir_files {
        None => None,
        Some(files) => {
            if names_contain(files, "config.yaml") {
                Some(ConfigSource::InConfigDir("config.yaml".to_owned()))
            } else if names_contain(files, "config.yml") {
                Some(ConfigSource::InConfigDir("config.yml".to_owned()))
            } else if names_contain(files, "config.conf") {
                Some(ConfigSource::InConfigDir("config.conf".to_owned()))
            } else {
                None
            }
        },
    }
}

/// What loading the configuration starts with.
#[derive(Debug)]
pub enum LoadPlan {
    /// Read this file.
    Read(ConfigSource),
    /// Write the default files, then read `config.yaml`.
    CreateDefault,
}

pub enum LoadPlanView {
    Read(ConfigSourceView),
    CreateDefault,
}

impl View for LoadPlan {
    type V = LoadPlanView;

    open spec fn view(&self) -> LoadPlanView {
        match *self {
            LoadPlan::Read(s) => LoadPlanView::Read(s@),
            LoadPlan::CreateDefault => LoadPlanView::CreateDefault,
        }
    }
}

/// How the configuration is loaded: the file there is, else a first file in
/// the configuration directory, which must then exist.
pub open spec fn load_plan(
    explicit: Option<Seq<char>>,
    dir_files: Option<Seq<Seq<char>>>,
) -> Result<LoadPlanView, LocateErrorView> {
    match config_source(explicit, dir_files) {
        Some(s) => Ok(LoadPlanView::Read(s)),
        None => if dir_files is Some {
            Ok(LoadPlanView::CreateDefault)
        } else {
            Err(LocateErrorView::NoConfigDir)
        },
    }
}

/// How the configuration is loaded.
pub fn plan_load(explicit_path: Option<&str>, dir_files: Option<&Vec<String>>) -> (r: Result<
    LoadPlan,
    LocateError,
>)
    ensures
        (match r {
            Ok(p) => load_plan(opt_str(explicit_path), opt_names(dir_files)) == Ok::<
                LoadPlanView,
                LocateErrorView,
            >(p@),
            Err(e) => load_plan(opt_str(explicit_path), opt_names(dir_files)) == Err::<
                LoadPlanView,
                LocateErrorView,
            >(e@),
        }),
{
    match resolve_path(explicit_path, dir_files) {
        Some(s) => Ok(LoadPlan::Read(s)),
        None => {
            if dir_files.is_some() {
                Ok(LoadPlan::CreateDefault)
            } else {
                Err(LocateError::NoConfigDir)
            }
        },
    }
}

/// The syntax that goes with a file extension in lower case.
pub open spec fn extension_format(lowered: Seq<char>) -> Result<ConfigFormat, LocateErrorView> {
    if lowered == "yaml"@ || lowered == "yml"@ {
        Ok(ConfigFormat::Yaml)
    } else if lowered == "conf"@ || lowered == "ini"@ {
        Ok(ConfigFormat::Conf)
    } else {
        Err(LocateErrorView::UnsupportedExtension(lowered))
    }
}

/// A format or an error, by their views.
pub open spec fn format_outcome(r: Result<ConfigFormat, LocateError>) -> Result<
    ConfigFormat,
    LocateErrorView,
> {
    match r {
        Ok(f) => Ok(f),
        Err(e) => Err(e@),
    }
}

/// The syntax that goes with a file extension in lower case.
pub fn format_of_lowered(lowered: &str) -> (r: Result<ConfigFormat, LocateError>)
    ensures
        format_outcome(r) == extension_format(lowered@),
{
    if same_text(lowered, "yaml") || same_text(lowered, "yml") {
        Ok(ConfigFormat::Yaml)
    } else if same_text(lowered, "conf") || same_text(lowered, "ini") {
        Ok(ConfigFormat::Conf)
    } else {
        Err(LocateError::UnsupportedExtension(lowered.to_owned()))
    }
}

/// The syntax that goes with a file extension, in whatever case.
pub fn format_of_extension(extension: &str) -> (r: Result<ConfigFormat, LocateError>)
    ensures
        format_outcome(r) == extension_format(letter_case::lowercase(extension@)),
        letter_case::is_ascii_text(extension@) ==> format_outcome(r) == extension_format(
            extension@.map_values(|c: char| letter_case::ascii_lower(c)),
        ),
{
    format_of_lowered(to_lowercase(extension).as_str())
}

/// The syntax that a user asks for by name.
pub open spec fn named_format(name: Seq<char>) -> Result<ConfigFormat, LocateErrorView> {
    if name == "yaml"@ || name == "yml"@ {
        Ok(ConfigFormat::Yaml)
    } else if name == "conf"@ || name == "ini"@ {
        Ok(ConfigFormat::Conf)
    } else {
        Err(LocateErrorView::UnknownFormat(name))
    }
}

/// The syntax that a user asks for by name.
pub fn format_of_name(name: &str) -> (r: Result<ConfigFormat, LocateError>)
    ensures
        format_outcome(r) == named_format(name@),
{
    if same_text(name, "yaml") || same_text(name, "yml") {
        Ok(ConfigFormat::Yaml)
    } else if same_text(name, "conf") || same_text(name, "ini") {
        Ok(ConfigFormat::Conf)
    } else {
        Err(LocateError::UnknownFormat(name.to_owned()))
    }
}

/// The name of the configuration file in a syntax.
pub open spec fn config_file(format: ConfigFormat) -> Seq<char> {
    match format {
        ConfigFormat::Yaml => "config.yaml"@,
        ConfigFormat::Conf => "config.conf"@,
    }
}

/// The name of the configuration file in a syntax.
pub fn config_file_name(format: ConfigFormat) -> (r: String)
    ensures
        r@ == config_file(format),
{
    match format {
        ConfigFormat::Yaml => "config.yaml".to_owned(),
        ConfigFormat::Conf => "config.conf".to_owned(),
    }
}

/// A file to write: its name, and the syntax of the example to put in it.
#[derive(Debug)]
pub struct FileToWrite {
    pub name: String,
    pub example: ConfigFormat,
}

/// The files to write, in their order.
pub open spec fn writes_text(v: Seq<FileToWrite>) -> Seq<(Seq<char>, ConfigFormat)> {
    v.map_values(|f: FileToWrite| (f.name@, f.example))
}

/// The files that the default configuration consists of: the file in use
/// and an example of each syntax beside it.
pub open spec fn default_files(format: ConfigFormat) -> Seq<(Seq<char>, ConfigFormat)> {
    seq![
        (config_file(format), format),
        ("config.example.yaml"@, ConfigFormat::Yaml),
        ("config.example.conf"@, ConfigFormat::Conf),
    ]
}

/// The files that the default configuration consists of.
pub fn default_writes(format: ConfigFormat) -> (r: Vec<FileToWrite>)
    ensures
        writes_text(r@) == default_files(format),
{
    let mut r: Vec<FileToWrite> = Vec::new();
    r.push(FileToWrite { name: config_file_name(format), example: format });
    r.push(
        FileToWrite { name: "config.example.yaml".to_owned(), example: ConfigFormat::Yaml },
    );
    r.push(
        FileToWrite { name: "config.example.conf".to_owned(), example: ConfigFormat::Conf },
    );
    assert(writes_text(r@) == default_files(format));
    r
}

/// What is written to restore the default configuration in the syntax of a
/// given name: nothing if the file is there and overwriting was not asked
/// for.
pub open spec fn reset_files(
    format: Seq<char>,
    force: bool,
    dir_entries: Option<Seq<Seq<char>>>,
) -> Result<Seq<(Seq<char>, ConfigFormat)>, LocateErrorView> {
    match dir_entries {
        None => Err(LocateErrorView::NoConfigDir),
        Some(entries) => match named_format(format) {
            Err(e) => Err(e),
            Ok(f) => if entries.contains(config_file(f)) && !force {
                Err(LocateErrorView::AlreadyExists(config_file(f)))
            } else {
                Ok(default_files(f))
            },
        },
    }
}

/// The files to write to restore the default configuration. `dir_entries`
/// names what the configuration directory holds, if there is one.
pub fn reset_default_config(
    format: &str,
    force: bool,
    dir_entries: Option<&Vec<String>>,
) -> (r: Result<Vec<FileToWrite>, LocateError>)
    ensures
        (match r {
            Ok(v) => reset_files(format@, force, opt_names(dir_entries)) == Ok::<
                Seq<(Seq<char>, ConfigFormat)>,
                LocateErrorView,
            >(writes_text(v@)),
            Err(e) => reset_files(format@, force, opt_names(dir_entries)) == Err::<
                Seq<(Seq<char>, ConfigFormat)>,
                LocateErrorView,
            >(e@),
        }),
{
    match dir_entries {
        None => Err(LocateError::NoConfigDir),
        Some(entries) => match format_of_name(format) {
            Err(e) => Err(e),
            Ok(f) => {
                let name = config_file_name(f);
                if names_contain(entries, name.as_str()) && !force {
                    Err(LocateError::AlreadyExists(name))
                } else {
                    Ok(default_writes(f))
                }
            },
        },
    }
}

/// Loading reads the very file that `resolve_path` names, whenever it names
/// one.
pub proof fn law_load_reads_resolved_file(
    explicit: Option<Seq<char>>,
    dir_files: Option<Seq<Seq<char>>>,
)
    ensures
        config_source(explicit, dir_files) matches Some(s) ==> load_plan(explicit, dir_files)
            == Ok::<LoadPlanView, LocateErrorView>(LoadPlanView::Read(s)),
{
}

/// After the default files were written into a configuration directory,
/// loading finds a file there.
pub proof fn law_default_files_are_found(files: Seq<Seq<char>>, format: ConfigFormat)
    requires
        forall|i: int|
            0 <= i < default_files(format).len() ==> files.contains(
                (#[trigger] default_files(format)[i]).0,
            ),
    ensures
        config_source(None, Some(files)) is Some,
        format == ConfigFormat::Yaml ==> config_source(None, Some(files)) == Some(
            ConfigSourceView::InConfigDir("config.yaml"@),
        ),
{
    assert(files.contains(default_files(format)[0].0));
}

// ---------------------------------------------------------------------
// Which file it is
// ---------------------------------------------------------------------

/// Whether a directory's list of files holds a name.
pub open spec fn holds_file(files: Option<&Vec<String>>, name: Seq<char>) -> bool {
    files matches Some(v) && exists|i: int| 0 <= i < v@.len() && (#[trigger] v@[i])@ == name
}

proof fn lemma_holds_file(files: Option<&Vec<String>>, name: Seq<char>)
    ensures
        holds_file(files, name) <==> (opt_names(files) matches Some(names) && names.contains(name)),
{
    if let Some(v) = files {
        let names = text::texts(v@);
        if holds_file(files, name) {
            let i = choose|i: int| 0 <= i < v@.len() && (#[trigger] v@[i])@ == name;
            assert(names[i] == name);
        }
        if names.contains(name) {
            let i = choose|i: int| 0 <= i < names.len() && names[i] == name;
            assert(v@[i]@ == name);
        }
    }
}

/// The file that the user named goes before all others; then come
/// `config.yaml`, `config.yml` and `config.conf` of the configuration
/// directory, in this order. Loading reads that file; where there is none, the
/// default files are written first, which needs the directory.
pub proof fn law_configuration_file(
    explicit_path: Option<&str>,
    dir_files: Option<&Vec<String>>,
    r: Option<ConfigSource>,
    plan: Result<LoadPlan, LocateError>,
)
    requires
        call_ensures(resolve_path, (explicit_path, dir_files), r),
        call_ensures(plan_load, (explicit_path, dir_files), plan),
    ensures
        explicit_path matches Some(p) ==> (r matches Some(ConfigSource::Explicit(s)) && s@ == p@),
        explicit_path is None ==> {
            let yaml = holds_file(dir_files, "config.yaml"@);
            let yml = holds_file(dir_files, "config.yml"@);
            let conf = holds_file(dir_files, "config.conf"@);
            &&& yaml ==> (r matches Some(ConfigSource::InConfigDir(s)) && s@ == "config.yaml"@)
            &&& !yaml && yml ==> (r matches Some(ConfigSource::InConfigDir(s)) && s@
                == "config.yml"@)
            &&& !yaml && !yml && conf ==> (r matches Some(ConfigSource::InConfigDir(s)) && s@
                == "config.conf"@)
            &&& !yaml && !yml && !conf ==> r is None
        },
        r matches Some(s) ==> (plan matches Ok(LoadPlan::Read(t)) && t@ == s@),
        r is None && dir_files is Some ==> (plan matches Ok(p) && p is CreateDefault),
        r is None && dir_files is None ==> (plan matches Err(e) && e is NoConfigDir),
{
    lemma_holds_file(dir_files, "config.yaml"@);
    lemma_holds_file(dir_files, "config.yml"@);
    lemma_holds_file(dir_files, "config.conf"@);
}

/// The words for a syntax differ.
proof fn lemma_syntax_words()
    ensures
        "yaml"@ != "conf"@ && "yaml"@ != "ini"@ && "yml"@ != "conf"@ && "yml"@ != "ini"@,
{
    reveal_strlit("yaml");
    reveal_strlit("yml");
    reveal_strlit("conf");
    reveal_strlit("ini");
    assert("yaml"@[0] == 'y' && "yml"@[0] == 'y' && "conf"@[0] == 'c' && "ini"@[0] == 'i');
}

/// Which syntax an extension stands for; any other is reported as it is.
pub proof fn law_extension(lowered: &str, r: Result<ConfigFormat, LocateError>)
    requires
        call_ensures(format_of_lowered, (lowered,), r),
    ensures
        lowered@ == "yaml"@ || lowered@ == "yml"@ ==> r == Ok::<ConfigFormat, LocateError>(
            ConfigFormat::Yaml,
        ),
        lowered@ == "conf"@ || lowered@ == "ini"@ ==> r == Ok::<ConfigFormat, LocateError>(
            ConfigFormat::Conf,
        ),
        lowered@ != "yaml"@ && lowered@ != "yml"@ && lowered@ != "conf"@ && lowered@ != "ini"@ ==> (
        r matches Err(LocateError::UnsupportedExtension(s)) && s@ == lowered@),
{
    lemma_syntax_words();
}

/// Which syntax a name stands for; any other is reported as it is.
pub proof fn law_syntax_name(name: &str, r: Result<ConfigFormat, LocateError>)
    requires
        call_ensures(format_of_name, (name,), r),
    ensures
        name@ == "yaml"@ || name@ == "yml"@ ==> r == Ok::<ConfigFormat, LocateError>(
            ConfigFormat::Yaml,
        ),
        name@ == "conf"@ || name@ == "ini"@ ==> r == Ok::<ConfigFormat, LocateError>(
            ConfigFormat::Conf,
        ),
        name@ != "yaml"@ && name@ != "yml"@ && name@ != "conf"@ && name@ != "ini"@ ==> (
        r matches Err(LocateError::UnknownFormat(s)) && s@ == name@),
{
    lemma_syntax_words();
}

/// The case of an extension makes no difference.
pub proof fn law_extension_in_any_case(
    extension: &str,
    r: Result<ConfigFormat, LocateError>,
    lowered: &str,
    q: Result<ConfigFormat, LocateError>,
)
    requires
        call_ensures(format_of_extension, (extension,), r),
        call_ensures(format_of_lowered, (lowered,), q),
    ensures
        lowered@ == letter_case::lowercase(extension@) ==> format_outcome(r) == format_outcome(q),
        (forall|i: int| 0 <= i < extension@.len() ==> #[trigger] extension@[i] <= '\u{7f}')
            && lowered@ == extension@.map_values(
            |c: char|
                if 'A' <= c <= 'Z' {
                    (c as int + 32) as char
                } else {
                    c
                },
        ) ==> format_outcome(r) == format_outcome(q),
{
    assert(extension@.map_values(
        |c: char|
            if 'A' <= c <= 'Z' {
                (c as int + 32) as char
            } else {
                c
            },
    ) =~= extension@.map_values(|c: char| letter_case::ascii_lower(c)));
}

/// The default files are the one in use, in the syntax asked for, and an
/// example of each syntax.
pub proof fn law_default_files(format: ConfigFormat, r: Vec<FileToWrite>, name: String)
    requires
        call_ensures(default_writes, (format,), r),
        call_ensures(config_file_name, (format,), name),
    ensures
        format == ConfigFormat::Yaml ==> name@ == "config.yaml"@,
        format == ConfigFormat::Conf ==> name@ == "config.conf"@,
        r@.len() == 3,
        r@[0].name@ == name@ && r@[0].example == format,
        r@[1].name@ == "config.example.yaml"@ && r@[1].example == ConfigFormat::Yaml,
        r@[2].name@ == "config.example.conf"@ && r@[2].example == ConfigFormat::Conf,
{
    assert(writes_text(r@).len() == r@.len());
    assert(writes_text(r@)[0] == (r@[0].name@, r@[0].example));
    assert(writes_text(r@)[1] == (r@[1].name@, r@[1].example));
    assert(writes_text(r@)[2] == (r@[2].name@, r@[2].example));
}

/// Restoring the defaults writes the default files of the syntax asked for,
/// and never over a file that is there unless that is asked for too.
pub proof fn law_restoring(
    format: &str,
    force: bool,
    dir_entries: Option<&Vec<String>>,
    r: Result<Vec<FileToWrite>, LocateError>,
    known: Result<ConfigFormat, LocateError>,
    f: ConfigFormat,
    name: String,
    files: Vec<FileToWrite>,
)
    requires
        call_ensures(reset_default_config, (format, force, dir_entries), r),
        call_ensures(format_of_name, (format,), known),
        call_ensures(config_file_name, (f,), name),
        call_ensures(default_writes, (f,), files),
    ensures
        dir_entries is None ==> (r matches Err(e) && e is NoConfigDir),
        dir_entries is Some ==> (known matches Err(e) ==> (r matches Err(g) && g@ == e@)),
        dir_entries is Some && known == Ok::<ConfigFormat, LocateError>(f) ==> {
            &&& holds_file(dir_entries, name@) && !force ==> (r matches Err(
                LocateError::AlreadyExists(s),
            ) && s@ == name@)
            &&& !holds_file(dir_entries, name@) || force ==> (r matches Ok(v) && writes_text(v@)
                == writes_text(files@))
        },
{
    lemma_holds_file(dir_entries, name@);
}

/// The errors in words.
pub proof fn law_error_messages(e: &LocateError, r: String)
    requires
        call_ensures(LocateError::message, (e,), r),
    ensures
        *e is NoConfigDir ==> r@ == "could not determine a config directory for this platform"@,
        *e matches LocateError::UnsupportedExtension(s) ==> r@ == "unsupported config extension '"@
            + s@ + "' (use .yaml or .conf)"@,
        *e matches LocateError::UnknownFormat(s) ==> r@ == "unknown format '"@ + s@
            + "', expected 'yaml' or 'conf'"@,
        *e matches LocateError::AlreadyExists(s) ==> r@ == s@
            + " already exists (use --force to overwrite)"@,
{
}

} // verus!
