//! The options of the translation system and how they are read.
//!
//! Each option can be set in the configuration file, a TOML document, and
//! overridden from the environment. A value from the environment wins over
//! one from the file, and an option that is set in neither place takes its
//! default.

use toml_edit::{DocumentMut, TomlError};
use vstd::prelude::*;
use crate::misc::language::{upper_text, Language};
use crate::misc::text::same_text;

verus! {

/// `toml_edit::DocumentMut`, a parsed TOML document. Contracts see of it
/// what `document_strings` names.
#[verifier::external_type_specification]
#[verifier::external_body]
pub struct ExDocumentMut(DocumentMut);

/// `toml_edit::TomlError`, the error of a failed parse. Contracts see
/// nothing inside it: it is only handed on.
#[verifier::external_type_specification]
#[verifier::external_body]
pub struct ExTomlError(TomlError);

/// The entries at the top level of a TOML document whose value is a
/// string, by key.
pub uninterp spec fn document_strings(document: DocumentMut) -> Map<Seq<char>, Seq<char>>;

/// What reading `content` as a TOML document gives: the top-level string
/// entries of the document, or nothing when `content` is not valid TOML.
pub uninterp spec fn parsed_strings(content: Seq<char>) -> Option<Map<Seq<char>, Seq<char>>>;

/// Calls `toml_edit`'s `DocumentMut::from_str`. The claim is only that the
/// outcome depends on nothing but the text: it is the outcome that
/// `parsed_strings` names.
#[verifier::external_body]
fn parse_document(content: &str) -> (r: Result<DocumentMut, TomlError>)
    ensures
        match r {
            Ok(document) => parsed_strings(content@) == Some(document_strings(document)),
            Err(_) => parsed_strings(content@) is None,
        },
{
    content.parse::<DocumentMut>()
}

/// Calls `toml_edit`'s `Table::get` on the document's root table and
/// `Item::as_str` on what it finds. The result is the string under `key`
/// where the root table has an entry of that key whose value is a string,
/// and nothing otherwise.
#[verifier::external_body]
fn document_string(document: &DocumentMut, key: &str) -> (r: Option<String>)
    ensures
        match r {
            Some(value) => document_strings(*document).contains_key(key@) && document_strings(
                *document,
            )[key@] == value@,
            None => !document_strings(*document).contains_key(key@),
        },
{
    document.get(key).and_then(|item| item.as_str()).map(|value| value.to_string())
}

/// The order in which translation files are merged.
#[derive(Clone, Copy, Debug, PartialEq, Eq, Structural)]
pub enum SeekMode {
    /// Ascending lexical order of the files' relative paths.
    Alphabetical,
    /// Descending lexical order of the files' relative paths.
    Unalphabetical,
}

/// What happens when two files define the same language of one message.
#[derive(Clone, Copy, Debug, PartialEq, Eq, Structural)]
pub enum TranslationOverlap {
    /// The file merged later replaces what is there.
    Overwrite,
    /// What is there stays; the later file only adds what is new.
    Ignore,
}

impl SeekMode {
    /// The name a configuration uses for this mode.
    pub open spec fn name_text(self) -> Seq<char> {
        match self {
            SeekMode::Alphabetical => "Alphabetical"@,
            SeekMode::Unalphabetical => "Unalphabetical"@,
        }
    }

    /// The mode of the given name, if `name` is the name of one.
    pub open spec fn named(name: Seq<char>) -> Option<SeekMode> {
        if name == SeekMode::Alphabetical.name_text() {
            Some(SeekMode::Alphabetical)
        } else if name == SeekMode::Unalphabetical.name_text() {
            Some(SeekMode::Unalphabetical)
        } else {
            None
        }
    }

    /// The name a configuration uses for this mode.
    pub fn name(&self) -> (r: &'static str)
        ensures
            r@ == self.name_text(),
    {
        match self {
            SeekMode::Alphabetical => "Alphabetical",
            SeekMode::Unalphabetical => "Unalphabetical",
        }
    }

    /// Reads a mode from its name. The name must match exactly, letter
    /// case included.
    pub fn from_name(name: &str) -> (r: Option<SeekMode>)
        ensures
            r == SeekMode::named(name@),
    {
        if same_text(name, "Alphabetical") {
            Some(SeekMode::Alphabetical)
        } else if same_text(name, "Unalphabetical") {
            Some(SeekMode::Unalphabetical)
        } else {
            None
        }
    }
}

impl TranslationOverlap {
    /// The name a configuration uses for this policy.
    pub open spec fn name_text(self) -> Seq<char> {
        match self {
            TranslationOverlap::Overwrite => "Overwrite"@,
            TranslationOverlap::Ignore => "Ignore"@,
        }
    }

    /// The policy of the given name, if `name` is the name of one.
    pub open spec fn named(name: Seq<char>) -> Option<TranslationOverlap> {
        if name == TranslationOverlap::Overwrite.name_text() {
            Some(TranslationOverlap::Overwrite)
        } else if name == TranslationOverlap::Ignore.name_text() {
            Some(TranslationOverlap::Ignore)
        } else {
            None
        }
    }

    /// The name a configuration uses for this policy.
    pub fn name(&self) -> (r: &'static str)
        ensures
            r@ == self.name_text(),
    {
        match self {
            TranslationOverlap::Overwrite => "Overwrite",
            TranslationOverlap::Ignore => "Ignore",
        }
    }

    /// Reads a policy from its name. The name must match exactly, letter
    /// case included.
    pub fn from_name(name: &str) -> (r: Option<TranslationOverlap>)
        ensures
            r == TranslationOverlap::named(name@),
    {
        if same_text(name, "Overwrite") {
            Some(TranslationOverlap::Overwrite)
        } else if same_text(name, "Ignore") {
            Some(TranslationOverlap::Ignore)
        } else {
            None
        }
    }
}

impl Default for SeekMode {
    /// Alphabetical order.
    fn default() -> (r: SeekMode)
        ensures
            r == SeekMode::Alphabetical,
    {
        SeekMode::Alphabetical
    }
}

impl Default for TranslationOverlap {
    /// The later file wins.
    fn default() -> (r: TranslationOverlap)
        ensures
            r == TranslationOverlap::Overwrite,
    {
        TranslationOverlap::Overwrite
    }
}

/// An option of the configuration.
#[derive(Clone, Copy, Debug, PartialEq, Eq, Structural)]
pub enum ConfigKey {
    /// The directory that holds the translation files.
    LocalesPath,
    /// The overlap policy.
    Overlap,
    /// The seek mode.
    SeekMode,
    /// The fallback language.
    FallbackLanguage,
}

impl ConfigKey {
    /// The key of the option in the configuration file.
    pub open spec fn name_text(self) -> Seq<char> {
        match self {
            ConfigKey::LocalesPath => "locales_path"@,
            ConfigKey::Overlap => "overlap"@,
            ConfigKey::SeekMode => "seek_mode"@,
            ConfigKey::FallbackLanguage => "fallback_language"@,
        }
    }

    /// The name of the environment variable that overrides the option.
    pub open spec fn variable_text(self) -> Seq<char> {
        match self {
            ConfigKey::LocalesPath => "TRANSLATABLE_LOCALES_PATH"@,
            ConfigKey::Overlap => "TRANSLATABLE_OVERLAP"@,
            ConfigKey::SeekMode => "TRANSLATABLE_SEEK_MODE"@,
            ConfigKey::FallbackLanguage => "TRANSLATABLE_FALLBACK_LANGUAGE"@,
        }
    }

    /// The key of the option in the configuration file.
    pub fn name(&self) -> (r: &'static str)
        ensures
            r@ == self.name_text(),
    {
        match self {
            ConfigKey::LocalesPath => "locales_path",
            ConfigKey::Overlap => "overlap",
            ConfigKey::SeekMode => "seek_mode",
            ConfigKey::FallbackLanguage => "fallback_language",
        }
    }

    /// The name of the environment variable that overrides the option.
    pub fn variable(&self) -> (r: &'static str)
        ensures
            r@ == self.variable_text(),
    {
        match self {
            ConfigKey::LocalesPath => "TRANSLATABLE_LOCALES_PATH",
            ConfigKey::Overlap => "TRANSLATABLE_OVERLAP",
            ConfigKey::SeekMode => "TRANSLATABLE_SEEK_MODE",
            ConfigKey::FallbackLanguage => "TRANSLATABLE_FALLBACK_LANGUAGE",
        }
    }
}

/// The prefix of every environment variable of the configuration.
pub open spec fn variable_prefix() -> Seq<char> {
    "TRANSLATABLE_"@
}

/// The environment variable of an option is named by the option's key in
/// upper case behind the common prefix.
pub proof fn lemma_variable_names(key: ConfigKey)
    ensures
        key.variable_text() == variable_prefix() + upper_text(key.name_text()),
{
    reveal_strlit("TRANSLATABLE_");
    match key {
        ConfigKey::LocalesPath => {
            reveal_strlit("locales_path");
            reveal_strlit("TRANSLATABLE_LOCALES_PATH");
        },
        ConfigKey::Overlap => {
            reveal_strlit("overlap");
            reveal_strlit("TRANSLATABLE_OVERLAP");
        },
        ConfigKey::SeekMode => {
            reveal_strlit("seek_mode");
            reveal_strlit("TRANSLATABLE_SEEK_MODE");
        },
        ConfigKey::FallbackLanguage => {
            reveal_strlit("fallback_language");
            reveal_strlit("TRANSLATABLE_FALLBACK_LANGUAGE");
        },
    }
    assert(key.variable_text() =~= variable_prefix() + upper_text(key.name_text()));
}

/// The text of each option, where it is set.
#[derive(Clone, Debug)]
pub struct ConfigValues {
    /// The directory that holds the translation files.
    pub locales_path: Option<String>,
    /// The name of the overlap policy.
    pub overlap: Option<String>,
    /// The name of the seek mode.
    pub seek_mode: Option<String>,
    /// The code of the fallback language.
    pub fallback_language: Option<String>,
}

/// What contracts say of a set of option texts.
pub struct ValuesModel {
    /// The directory that holds the translation files.
    pub locales_path: Option<Seq<char>>,
    /// The name of the overlap policy.
    pub overlap: Option<Seq<char>>,
    /// The name of the seek mode.
    pub seek_mode: Option<Seq<char>>,
    /// The code of the fallback language.
    pub fallback_language: Option<Seq<char>>,
}

/// The text of an optional string.
pub open spec fn text_of(value: Option<String>) -> Option<Seq<char>> {
    match value {
        Some(text) => Some(text@),
        None => None,
    }
}

impl View for ConfigValues {
    type V = ValuesModel;

    open spec fn view(&self) -> ValuesModel {
        ValuesModel {
            locales_path: text_of(self.locales_path),
            overlap: text_of(self.overlap),
            seek_mode: text_of(self.seek_mode),
            fallback_language: text_of(self.fallback_language),
        }
    }
}

impl ConfigValues {
    /// No option set.
    pub fn new() -> (r: ConfigValues)
        ensures
            r@ == (ValuesModel {
                locales_path: None,
                overlap: None,
                seek_mode: None,
                fallback_language: None,
            }),
    {
        ConfigValues { locales_path: None, overlap: None, seek_mode: None, fallback_language: None }
    }
}

/// Why the configuration could not be read.
#[derive(Debug)]
pub enum ConfigError {
    /// The configuration file is not valid TOML.
    ParseToml(TomlError),
    /// An option holds a value that is not one of its names: the option's
    /// key, then the value.
    InvalidValue(String, String),
}

/// What contracts say of a configuration error.
pub enum ConfigErrorModel {
    /// The configuration file is not valid TOML.
    ParseToml,
    /// The option's key, then the value that is none of its names.
    InvalidValue(Seq<char>, Seq<char>),
}

impl View for ConfigError {
    type V = ConfigErrorModel;

    open spec fn view(&self) -> ConfigErrorModel {
        match self {
            ConfigError::ParseToml(_) => ConfigErrorModel::ParseToml,
            ConfigError::InvalidValue(key, value) => ConfigErrorModel::InvalidValue(key@, value@),
        }
    }
}

/// What contracts say of a configuration.
pub struct ConfigModel {
    /// The directory that holds the translation files.
    pub path: Seq<char>,
    /// The order in which the files are merged.
    pub seek_mode: SeekMode,
    /// What happens where files overlap.
    pub overlap: TranslationOverlap,
    /// The language used where the requested one is missing, if any.
    pub fallback_language: Option<Language>,
}

/// The configuration of the translation system.
#[derive(Clone, Debug)]
pub struct MacroConfig {
    path: String,
    seek_mode: SeekMode,
    overlap: TranslationOverlap,
    fallback_language: Option<Language>,
}

impl View for MacroConfig {
    type V = ConfigModel;

    closed spec fn view(&self) -> ConfigModel {
        ConfigModel {
            path: self.path@,
            seek_mode: self.seek_mode,
            overlap: self.overlap,
            fallback_language: self.fallback_language,
        }
    }
}

/// The directory that is used when none is configured.
pub open spec fn default_path() -> Seq<char> {
    "./translations"@
}

/// The value in force for an option: the one from the environment where
/// there is one, else the one from the file.
pub open spec fn in_force(environment: Option<Seq<char>>, file: Option<Seq<char>>) -> Option<
    Seq<char>,
> {
    match environment {
        Some(value) => Some(value),
        None => file,
    }
}

/// The value that a document has for an option, if it has one.
pub open spec fn file_value(file: Map<Seq<char>, Seq<char>>, key: ConfigKey) -> Option<Seq<char>> {
    if file.contains_key(key.name_text()) {
        Some(file[key.name_text()])
    } else {
        None
    }
}

/// The values in force, from those of the environment and those of the
/// file.
pub open spec fn values_in_force(environment: ValuesModel, file: Map<Seq<char>, Seq<char>>)
    -> ValuesModel {
    ValuesModel {
        locales_path: in_force(environment.locales_path, file_value(file, ConfigKey::LocalesPath)),
        overlap: in_force(environment.overlap, file_value(file, ConfigKey::Overlap)),
        seek_mode: in_force(environment.seek_mode, file_value(file, ConfigKey::SeekMode)),
        fallback_language: in_force(
            environment.fallback_language,
            file_value(file, ConfigKey::FallbackLanguage),
        ),
    }
}

/// The configuration that the given option texts stand for. The overlap
/// policy is checked first, then the seek mode, then the fallback
/// language; the first of them that is set to something that names nothing
/// is reported. An option that is not set takes its default: the directory
/// `./translations`, the policy `Ignore`, the mode `Alphabetical`, and no
/// fallback language.
pub open spec fn config_of(values: ValuesModel) -> Result<ConfigModel, ConfigErrorModel> {
    if values.overlap is Some && TranslationOverlap::named(values.overlap->0) is None {
        Err(ConfigErrorModel::InvalidValue(ConfigKey::Overlap.name_text(), values.overlap->0))
    } else if values.seek_mode is Some && SeekMode::named(values.seek_mode->0) is None {
        Err(ConfigErrorModel::InvalidValue(ConfigKey::SeekMode.name_text(), values.seek_mode->0))
    } else if values.fallback_language is Some && Language::with_code(values.fallback_language->0)
        is None {
        Err(
            ConfigErrorModel::InvalidValue(
                ConfigKey::FallbackLanguage.name_text(),
                values.fallback_language->0,
            ),
        )
    } else {
        Ok(
            ConfigModel {
                path: match values.locales_path {
                    Some(path) => path,
                    None => default_path(),
                },
                overlap: match values.overlap {
                    Some(name) => TranslationOverlap::named(name)->0,
                    None => TranslationOverlap::Ignore,
                },
                seek_mode: match values.seek_mode {
                    Some(name) => SeekMode::named(name)->0,
                    None => SeekMode::Alphabetical,
                },
                fallback_language: match values.fallback_language {
                    Some(code) => Language::with_code(code),
                    None => None,
                },
            },
        )
    }
}

/// Whether an outcome of the library is the outcome that a contract names.
pub open spec fn same_config(got: Result<MacroConfig, ConfigError>, want: Result<
    ConfigModel,
    ConfigErrorModel,
>) -> bool {
    match got {
        Ok(config) => want == Ok::<ConfigModel, ConfigErrorModel>(config@),
        Err(error) => want == Err::<ConfigModel, ConfigErrorModel>(error@),
    }
}

/// The value in force for an option: the one from the environment where
/// there is one, else the one from the file.
pub fn config_value(environment: Option<String>, file: Option<String>) -> (r: Option<String>)
    ensures
        text_of(r) == in_force(text_of(environment), text_of(file)),
{
    match environment {
        Some(value) => Some(value),
        None => file,
    }
}

impl MacroConfig {
    /// The configuration that the given option texts stand for.
    pub fn from_values(values: ConfigValues) -> (r: Result<MacroConfig, ConfigError>)
        ensures
            same_config(r, config_of(values@)),
    {
        let overlap = match values.overlap {
            Some(name) => match TranslationOverlap::from_name(name.as_str()) {
                Some(overlap) => overlap,
                None => {
                    return Err(ConfigError::InvalidValue(ConfigKey::Overlap.name().to_owned(), name));
                },
            },
            None => TranslationOverlap::Ignore,
        };
        let seek_mode = match values.seek_mode {
            Some(name) => match SeekMode::from_name(name.as_str()) {
                Some(seek_mode) => seek_mode,
                None => {
                    return Err(
                        ConfigError::InvalidValue(ConfigKey::SeekMode.name().to_owned(), name),
                    );
                },
            },
            None => SeekMode::Alphabetical,
        };
        let fallback_language = match values.fallback_language {
            Some(code) => match Language::from_code(code.as_str()) {
                Some(language) => Some(language),
                None => {
                    return Err(
                        ConfigError::InvalidValue(
                            ConfigKey::FallbackLanguage.name().to_owned(),
                            code,
                        ),
                    );
                },
            },
            None => None,
        };
        let path = match values.locales_path {
            Some(path) => path,
            None => "./translations".to_owned(),
        };
        Ok(MacroConfig { path, seek_mode, overlap, fallback_language })
    }

    /// The directory that holds the translation files.
    pub fn path(&self) -> (r: &str)
        ensures
            r@ == self@.path,
    {
        self.path.as_str()
    }

    /// The order in which the files are merged.
    pub fn seek_mode(&self) -> (r: SeekMode)
        ensures
            r == self@.seek_mode,
    {
        self.seek_mode
    }

    /// What happens where files overlap.
    pub fn overlap(&self) -> (r: TranslationOverlap)
        ensures
            r == self@.overlap,
    {
        self.overlap
    }

    /// The language used where the requested one is missing, if one is
    /// configured.
    pub fn fallback_language(&self) -> (r: Option<Language>)
        ensures
            r == self@.fallback_language,
    {
        self.fallback_language
    }
}

/// Reads the configuration from the text of the configuration file and the
/// values found in the environment. The file must be valid TOML; an empty
/// text is. Each option takes the value from the environment where there
/// is one, else the string that the file has under the option's key, else
/// its default.
pub fn load_config(content: &str, environment: ConfigValues) -> (r: Result<MacroConfig, ConfigError>)
    ensures
        match parsed_strings(content@) {
            None => r is Err && r->Err_0@ == ConfigErrorModel::ParseToml,
            Some(file) => same_config(r, config_of(values_in_force(environment@, file))),
        },
{
    let document = match parse_document(content) {
        Ok(document) => document,
        Err(error) => {
            return Err(ConfigError::ParseToml(error));
        },
    };
    let values = ConfigValues {
        locales_path: config_value(
            environment.locales_path,
            document_string(&document, ConfigKey::LocalesPath.name()),
        ),
        overlap: config_value(
            environment.overlap,
            document_string(&document, ConfigKey::Overlap.name()),
        ),
        seek_mode: config_value(
            environment.seek_mode,
            document_string(&document, ConfigKey::SeekMode.name()),
        ),
        fallback_language: config_value(
            environment.fallback_language,
            document_string(&document, ConfigKey::FallbackLanguage.name()),
        ),
    };
    MacroConfig::from_values(values)
}

} // verus!
