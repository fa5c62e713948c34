//! The configuration that a package keeps for this tool in its manifest,
//! under `package.metadata.grub-bootimage`.

use crate::document::{document_of, entry_views, parse_document, value_views};
use crate::document::{toml_document, NESTING_LIMIT};
use crate::nesting::nesting_of;
use crate::document::{DocumentError, DocumentErrorView, Entry, EntryView, TomlValue, TomlView};
use crate::text::{holds_text, optional_texts, texts};
use vstd::prelude::*;
use vstd::string::StringExecFns;

verus! {

/// What the table `package.metadata.grub-bootimage` configures.
#[derive(Debug, Clone)]
#[non_exhaustive]
pub struct Config {
    /// The arguments that the emulator gets in run mode, after the image.
    pub run_args: Option<Vec<String>>,
    /// The arguments that the emulator gets in test mode, after the image.
    pub test_args: Option<Vec<String>>,
    /// The exit code of the emulator that means that the tests passed; zero
    /// where none is named.
    pub test_success_exit_code: Option<i32>,
    /// How long a test run may take, in seconds, before the emulator is
    /// killed.
    pub test_timeout: u32,
}

/// A configuration as a mathematical value.
pub struct ConfigView {
    pub run_args: Option<Seq<Seq<char>>>,
    pub test_args: Option<Seq<Seq<char>>>,
    pub test_success_exit_code: Option<i32>,
    pub test_timeout: u32,
}

/// Why a manifest yields no configuration.
#[derive(Debug, PartialEq, Eq)]
pub enum ConfigError {
    /// The manifest is nested too deeply to be parsed.
    TooNested,
    /// The manifest is not a TOML document.
    Syntax(toml::de::Error),
    /// `package.metadata.grub-bootimage` is there and is no table; the
    /// value found in its place.
    InvalidMetadata(TomlValue),
    /// The table has an entry that is no setting: the key is unknown, the
    /// value is of another type than the key asks for, or it is an integer
    /// that the setting cannot hold.
    UnexpectedKey { key: String, value: TomlValue },
    /// An argument list holds something that is no string.
    NotStrings,
}

/// An error as a mathematical value. Of a syntax error only the fact is kept.
pub enum ConfigErrorView {
    TooNested,
    Syntax,
    InvalidMetadata(TomlView),
    UnexpectedKey { key: Seq<char>, value: TomlView },
    NotStrings,
}

/// The test timeout of a package that configures none, in seconds.
pub const DEFAULT_TEST_TIMEOUT: u32 = 300;

impl View for Config {
    type V = ConfigView;

    open spec fn view(&self) -> ConfigView {
        ConfigView {
            run_args: optional_texts(self.run_args),
            test_args: optional_texts(self.test_args),
            test_success_exit_code: self.test_success_exit_code,
            test_timeout: self.test_timeout,
        }
    }
}

impl View for ConfigError {
    type V = ConfigErrorView;

    open spec fn view(&self) -> ConfigErrorView {
        match self {
            ConfigError::TooNested => ConfigErrorView::TooNested,
            ConfigError::Syntax(_) => ConfigErrorView::Syntax,
            ConfigError::InvalidMetadata(value) => ConfigErrorView::InvalidMetadata(value@),
            ConfigError::UnexpectedKey { key, value } => ConfigErrorView::UnexpectedKey {
                key: key@,
                value: value@,
            },
            ConfigError::NotStrings => ConfigErrorView::NotStrings,
        }
    }
}

impl ConfigErrorView {
    /// The text of the error, given the text that the value it carries is
    /// printed as.
    pub open spec fn message_text(self, rendered: Seq<char>) -> Seq<char> {
        match self {
            ConfigErrorView::TooNested => "Cargo.toml is nested too deeply"@,
            ConfigErrorView::Syntax => "Failed to parse Cargo.toml"@,
            ConfigErrorView::InvalidMetadata(_) => "grub-bootimage: config invalid: "@ + rendered,
            ConfigErrorView::UnexpectedKey { key, .. } => "grub-bootimage: unexpected key `"@ + key
                + "` with value `"@ + rendered + "`"@,
            ConfigErrorView::NotStrings => "config must be a list of strings"@,
        }
    }
}

impl ConfigError {
    /// The text of the error.
    ///
    /// `rendered` is the value that the error carries, printed as TOML; it is
    /// put into the text where the error carries a value, and otherwise left
    /// out.
    pub fn message(&self, rendered: &str) -> (text: String)
        ensures
            text@ == self@.message_text(rendered@),
    {
        match self {
            ConfigError::TooNested => "Cargo.toml is nested too deeply".to_owned(),
            ConfigError::Syntax(_) => "Failed to parse Cargo.toml".to_owned(),
            ConfigError::InvalidMetadata(_) => {
                let mut text = "grub-bootimage: config invalid: ".to_owned();
                text.append(rendered);
                text
            },
            ConfigError::UnexpectedKey { key, .. } => {
                let mut text = "grub-bootimage: unexpected key `".to_owned();
                text.append(key.as_str());
                text.append("` with value `");
                text.append(rendered);
                text.append("`");
                text
            },
            ConfigError::NotStrings => "config must be a list of strings".to_owned(),
        }
    }
}

/// The view of a configuration or of the error in its place.
pub open spec fn loaded_view(loaded: Result<Config, ConfigError>) -> Result<
    ConfigView,
    ConfigErrorView,
> {
    match loaded {
        Ok(config) => Ok(config@),
        Err(error) => Err(error@),
    }
}

/// The configuration of a package that configures nothing.
pub open spec fn default_config() -> ConfigView {
    ConfigView {
        run_args: None,
        test_args: None,
        test_success_exit_code: None,
        test_timeout: DEFAULT_TEST_TIMEOUT,
    }
}

/// Whether an integer is a number of seconds that a timeout can hold.
pub open spec fn fits_timeout(number: i64) -> bool {
    0 <= number <= u32::MAX
}

/// Whether an integer is an exit code.
pub open spec fn fits_exit_code(number: i64) -> bool {
    i32::MIN <= number <= i32::MAX
}

/// The strings of a list whose items are all strings; a list with any other
/// item has none.
pub open spec fn string_list(items: Seq<TomlView>) -> Option<Seq<Seq<char>>> {
    if forall|i: int| 0 <= i < items.len() ==> (#[trigger] items[i]) is String {
        Some(Seq::new(items.len(), |i: int| items[i]->String_0))
    } else {
        None
    }
}

/// The configuration with the arguments of one mode replaced by the strings
/// of `items`.
pub open spec fn with_args(config: ConfigView, test: bool, items: Seq<TomlView>) -> Result<
    ConfigView,
    ConfigErrorView,
> {
    match string_list(items) {
        Some(args) => Ok(
            if test {
                ConfigView { test_args: Some(args), ..config }
            } else {
                ConfigView { run_args: Some(args), ..config }
            },
        ),
        None => Err(ConfigErrorView::NotStrings),
    }
}

/// What one table entry makes of a configuration.
///
/// `run-args` and `test-args` take an array of strings. `test-timeout` takes
/// an integer from 0 to `u32::MAX` and `test-success-exit-code` one from
/// `i32::MIN` to `i32::MAX`; the setting is the integer itself. Every other
/// entry is an error, an integer out of range included: a setting never
/// stands for another number than the one written.
pub open spec fn with_entry(config: ConfigView, entry: EntryView) -> Result<
    ConfigView,
    ConfigErrorView,
> {
    if entry.key == "run-args"@ && entry.value is Array {
        with_args(config, false, entry.value->Array_0)
    } else if entry.key == "test-args"@ && entry.value is Array {
        with_args(config, true, entry.value->Array_0)
    } else if entry.key == "test-timeout"@ && entry.value is Integer && fits_timeout(
        entry.value->Integer_0,
    ) {
        Ok(ConfigView { test_timeout: entry.value->Integer_0 as u32, ..config })
    } else if entry.key == "test-success-exit-code"@ && entry.value is Integer && fits_exit_code(
        entry.value->Integer_0,
    ) {
        Ok(
            ConfigView {
                test_success_exit_code: Some(entry.value->Integer_0 as i32),
                ..config
            },
        )
    } else {
        Err(ConfigErrorView::UnexpectedKey { key: entry.key, value: entry.value })
    }
}

/// What the entries of a table make of a configuration, taken in order. The
/// first entry that is an error ends it.
pub open spec fn with_entries(config: ConfigView, entries: Seq<EntryView>) -> Result<
    ConfigView,
    ConfigErrorView,
>
    decreases entries.len(),
{
    if entries.len() == 0 {
        Ok(config)
    } else {
        match with_entry(config, entries[0]) {
            Ok(next) => with_entries(next, entries.skip(1)),
            Err(error) => Err(error),
        }
    }
}

/// The value that a manifest keeps under `package.metadata.grub-bootimage`.
pub open spec fn metadata_of(manifest: TomlView) -> Option<TomlView> {
    match manifest.member("package"@) {
        Some(package) => match package.member("metadata"@) {
            Some(metadata) => metadata.member("grub-bootimage"@),
            None => None,
        },
        None => None,
    }
}

/// The configuration that a manifest holds.
pub open spec fn config_of_document(manifest: TomlView) -> Result<ConfigView, ConfigErrorView> {
    match metadata_of(manifest) {
        None => Ok(default_config()),
        Some(TomlView::Table(entries)) => with_entries(default_config(), entries),
        Some(other) => Err(ConfigErrorView::InvalidMetadata(other)),
    }
}

/// The configuration that the text of a manifest holds.
pub open spec fn config_of_text(content: Seq<char>) -> Result<ConfigView, ConfigErrorView> {
    match document_of(content) {
        Ok(manifest) => config_of_document(manifest),
        Err(DocumentErrorView::TooNested) => Err(ConfigErrorView::TooNested),
        Err(DocumentErrorView::Syntax) => Err(ConfigErrorView::Syntax),
    }
}

impl Config {
    /// The configuration of a package that configures nothing: no extra
    /// arguments, no exit code named, and a test timeout of
    /// [`DEFAULT_TEST_TIMEOUT`] seconds.
    pub fn new() -> (config: Config)
        ensures
            config@ == default_config(),
    {
        Config {
            run_args: None,
            test_args: None,
            test_success_exit_code: None,
            test_timeout: DEFAULT_TEST_TIMEOUT,
        }
    }
}

/// Reads an argument list: the strings of an array whose items are all
/// strings, in the order of the array.
pub fn parse_config(array: Vec<TomlValue>) -> (parsed: Result<Vec<String>, ConfigError>)
    ensures
        parsed is Ok <==> string_list(value_views(array@)) is Some,
        parsed matches Ok(strings) ==> Some(texts(strings@)) == string_list(value_views(array@)),
        parsed matches Err(error) ==> error@ == ConfigErrorView::NotStrings,
{
    let ghost items = value_views(array@);
    let mut parsed: Vec<String> = Vec::new();
    for value in it: array
        invariant
            it.seq() == array@,
            items == value_views(array@),
            parsed@.len() == it.index(),
            forall|j: int| 0 <= j < it.index() ==> (#[trigger] items[j]) is String,
            forall|j: int| 0 <= j < it.index() ==> (#[trigger] parsed@[j])@ == items[j]->String_0,
    {
        match value {
            TomlValue::String(s) => parsed.push(s),
            _ => {
                assert(!(items[it.index()] is String));
                return Err(ConfigError::NotStrings);
            },
        }
    }
    assert(texts(parsed@) =~= string_list(items)->0);
    Ok(parsed)
}

/// Applies one table entry to a configuration.
///
/// The entry sets what its key names where its value is of the type that the
/// key asks for and, for an integer, within the range of the setting; every
/// other entry is refused with its key and value.
pub fn apply_entry(config: Config, entry: Entry) -> (applied: Result<Config, ConfigError>)
    ensures
        loaded_view(applied) == with_entry(config@, entry@),
{
    let mut config = config;
    let Entry { key, value } = entry;
    proof {
        crate::document::lemma_view_of_collections(value);
    }
    match value {
        TomlValue::Array(items) => {
            if holds_text(&key, "run-args") {
                match parse_config(items) {
                    Ok(args) => {
                        config.run_args = Some(args);
                        Ok(config)
                    },
                    Err(error) => Err(error),
                }
            } else if holds_text(&key, "test-args") {
                match parse_config(items) {
                    Ok(args) => {
                        config.test_args = Some(args);
                        Ok(config)
                    },
                    Err(error) => Err(error),
                }
            } else {
                Err(ConfigError::UnexpectedKey { key, value: TomlValue::Array(items) })
            }
        },
        TomlValue::Integer(number) => {
            if holds_text(&key, "test-timeout") && 0 <= number && number <= 0xFFFF_FFFF {
                config.test_timeout = number as u32;
                Ok(config)
            } else if holds_text(&key, "test-success-exit-code") && -0x8000_0000 <= number
                && number <= 0x7FFF_FFFF {
                config.test_success_exit_code = Some(number as i32);
                Ok(config)
            } else {
                Err(ConfigError::UnexpectedKey { key, value: TomlValue::Integer(number) })
            }
        },
        other => Err(ConfigError::UnexpectedKey { key, value: other }),
    }
}

/// Applies the entries of a table to a configuration, in order, and stops at
/// the first entry that is refused.
pub fn apply_entries(config: Config, entries: Vec<Entry>) -> (applied: Result<Config, ConfigError>)
    ensures
        loaded_view(applied) == with_entries(config@, entry_views(entries@)),
{
    let ghost all = entry_views(entries@);
    let mut current = config;
    assert(all.skip(0) =~= all);
    for entry in it: entries
        invariant
            it.seq() == entries@,
            all == entry_views(entries@),
            with_entries(config@, all) == with_entries(current@, all.skip(it.index())),
    {
        assert(all.skip(it.index())[0] == entry@);
        assert(all.skip(it.index()).skip(1) =~= all.skip(it.index() + 1));
        match apply_entry(current, entry) {
            Ok(next) => {
                current = next;
            },
            Err(error) => {
                return Err(error);
            },
        }
    }
    assert(all.skip(all.len() as int) =~= Seq::<EntryView>::empty());
    Ok(current)
}

/// Reads the configuration out of a parsed manifest.
///
/// A manifest without `package.metadata.grub-bootimage` yields the default
/// configuration. Where that value is there, it must be a table whose
/// entries are all settings.
pub fn config_from_document(manifest: TomlValue) -> (loaded: Result<Config, ConfigError>)
    ensures
        loaded_view(loaded) == config_of_document(manifest@),
{
    let package = match manifest.into_member("package") {
        Some(package) => package,
        None => {
            return Ok(Config::new());
        },
    };
    let all_metadata = match package.into_member("metadata") {
        Some(all_metadata) => all_metadata,
        None => {
            return Ok(Config::new());
        },
    };
    let metadata = match all_metadata.into_member("grub-bootimage") {
        Some(metadata) => metadata,
        None => {
            return Ok(Config::new());
        },
    };
    match metadata.into_table() {
        Ok(entries) => apply_entries(Config::new(), entries),
        Err(other) => Err(ConfigError::InvalidMetadata(other)),
    }
}

/// Reads the configuration out of the text of a manifest.
///
/// A text that is nested too deeply, or that is not TOML, yields no
/// configuration.
pub fn read_config(content: &str) -> (loaded: Result<Config, ConfigError>)
    ensures
        loaded_view(loaded) == config_of_text(content@),
{
    match parse_document(content) {
        Ok(manifest) => config_from_document(manifest),
        Err(DocumentError::TooNested) => Err(ConfigError::TooNested),
        Err(DocumentError::Syntax(error)) => Err(ConfigError::Syntax(error)),
    }
}

/// Whether a table entry is a setting.
pub open spec fn is_setting(entry: EntryView) -> bool {
    ||| (entry.key == "run-args"@ || entry.key == "test-args"@) && entry.value is Array
        && string_list(entry.value->Array_0) is Some
    ||| entry.key == "test-timeout"@ && entry.value is Integer && fits_timeout(
        entry.value->Integer_0,
    )
    ||| entry.key == "test-success-exit-code"@ && entry.value is Integer && fits_exit_code(
        entry.value->Integer_0,
    )
}

/// An entry is applied exactly when it is a setting, whatever the
/// configuration it is applied to, and the error of one that is not does not
/// depend on that configuration either.
pub proof fn law_entry_applies_iff_setting(config: ConfigView, other: ConfigView, entry: EntryView)
    ensures
        with_entry(config, entry) is Ok <==> is_setting(entry),
        with_entry(config, entry) matches Err(error) ==> with_entry(other, entry) == Err::<
            ConfigView,
            ConfigErrorView,
        >(error),
{
}

/// A table yields a configuration exactly when each of its entries is a
/// setting. Otherwise the error is that of the first entry that is none.
pub proof fn law_first_bad_entry_decides(config: ConfigView, entries: Seq<EntryView>)
    ensures
        with_entries(config, entries) is Ok <==> forall|i: int|
            0 <= i < entries.len() ==> is_setting(#[trigger] entries[i]),
        forall|i: int|
            0 <= i < entries.len() && !is_setting(entries[i]) && (forall|j: int|
                0 <= j < i ==> is_setting(#[trigger] entries[j])) ==> with_entries(config, entries)
                == with_entry(config, #[trigger] entries[i]),
    decreases entries.len(),
{
    if entries.len() > 0 {
        let rest = entries.skip(1);
        law_entry_applies_iff_setting(config, config, entries[0]);
        match with_entry(config, entries[0]) {
            Ok(next) => {
                law_first_bad_entry_decides(next, rest);
                assert forall|i: int| 0 <= i < entries.len() implies (is_setting(
                    #[trigger] entries[i],
                ) <==> (i == 0 || is_setting(rest[i - 1]))) by {
                    if i > 0 {
                        assert(rest[i - 1] == entries[i]);
                    }
                }
                if with_entries(next, rest) is Ok {
                    assert forall|i: int| 0 <= i < entries.len() implies is_setting(
                        #[trigger] entries[i],
                    ) by {
                        if i > 0 {
                            assert(rest[i - 1] == entries[i]);
                        }
                    }
                } else {
                    let bad = choose|k: int| 0 <= k < rest.len() && !is_setting(#[trigger] rest[k]);
                    assert(entries[bad + 1] == rest[bad]);
                }
                assert forall|i: int|
                    0 <= i < entries.len() && !is_setting(entries[i]) && (forall|j: int|
                        0 <= j < i ==> is_setting(#[trigger] entries[j])) implies with_entries(
                    config,
                    entries,
                ) == with_entry(config, #[trigger] entries[i]) by {
                    assert(i > 0);
                    assert(rest[i - 1] == entries[i]);
                    assert forall|j: int| 0 <= j < i - 1 implies is_setting(#[trigger] rest[j]) by {
                        assert(rest[j] == entries[j + 1]);
                    }
                    law_entry_applies_iff_setting(next, config, entries[i]);
                }
            },
            Err(_) => {
                assert(!is_setting(entries[0]));
            },
        }
    }
}

/// A setting is the integer that was written, never another number: a
/// timeout that an entry sets is the entry's integer, and so is an exit
/// code.
pub proof fn law_integers_are_kept(config: ConfigView, entry: EntryView)
    requires
        with_entry(config, entry) is Ok,
        entry.value is Integer,
    ensures
        entry.key == "test-timeout"@ ==> with_entry(config, entry)->Ok_0.test_timeout
            == entry.value->Integer_0,
        entry.key == "test-success-exit-code"@ ==> with_entry(
            config,
            entry,
        )->Ok_0.test_success_exit_code == Some(entry.value->Integer_0 as i32)
            && entry.value->Integer_0 as i32 == entry.value->Integer_0,
        entry.key == "test-timeout"@ || entry.key == "test-success-exit-code"@,
{
    reveal_strlit("run-args");
    reveal_strlit("test-args");
    reveal_strlit("test-timeout");
    reveal_strlit("test-success-exit-code");
    let run = "run-args"@;
    let test = "test-args"@;
    let timeout = "test-timeout"@;
    let code = "test-success-exit-code"@;
    assert(run.len() == 8 && test.len() == 9 && timeout.len() == 12 && code.len() == 22);
}

/// A manifest is refused as too nested exactly when its text is nested
/// deeper than the limit, and as no TOML exactly when it is not and the
/// parser has no document for it. What the document holds decides neither.
pub proof fn law_refused_unread_iff_over_limit(content: Seq<char>)
    ensures
        config_of_text(content) == Err::<ConfigView, ConfigErrorView>(ConfigErrorView::TooNested)
            <==> nesting_of(content) > NESTING_LIMIT,
        config_of_text(content) == Err::<ConfigView, ConfigErrorView>(ConfigErrorView::Syntax)
            <==> nesting_of(content) <= NESTING_LIMIT && toml_document(content) is None,
{
    match document_of(content) {
        Ok(manifest) => match metadata_of(manifest) {
            Some(TomlView::Table(entries)) => {
                lemma_entries_refuse_by_entry(default_config(), entries);
            },
            _ => {},
        },
        Err(_) => {},
    }
}

/// The error of a table of entries is the error of one of its entries, which
/// carries a key or is about strings.
proof fn lemma_entries_refuse_by_entry(config: ConfigView, entries: Seq<EntryView>)
    ensures
        with_entries(config, entries) matches Err(error) ==> error is UnexpectedKey
            || error is NotStrings,
    decreases entries.len(),
{
    if entries.len() > 0 {
        match with_entry(config, entries[0]) {
            Ok(next) => {
                lemma_entries_refuse_by_entry(next, entries.skip(1));
            },
            Err(_) => {},
        }
    }
}

} // verus!
