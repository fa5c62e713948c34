use grub_bootimage::config::{
    apply_entries, apply_entry, config_from_document, parse_config, read_config, Config,
    ConfigError, DEFAULT_TEST_TIMEOUT,
};
use grub_bootimage::document::{Entry, TomlValue};

fn text(s: &str) -> TomlValue {
    TomlValue::String(s.to_owned())
}

fn entry(key: &str, value: TomlValue) -> Entry {
    Entry { key: key.to_owned(), value }
}

fn strings(list: &[&str]) -> Vec<String> {
    list.iter().map(|s| (*s).to_owned()).collect()
}

fn assert_default(config: &Config) {
    assert_eq!(config.run_args, None);
    assert_eq!(config.test_args, None);
    assert_eq!(config.test_success_exit_code, None);
    assert_eq!(config.test_timeout, 300);
}

#[test]
fn new_config_is_the_default() {
    assert_default(&Config::new());
    assert_eq!(DEFAULT_TEST_TIMEOUT, 300);
}

#[test]
fn manifest_without_metadata_gives_the_default() {
    assert_default(&read_config("").unwrap());
    assert_default(&read_config("[package]\nname = \"kernel\"\n").unwrap());
    assert_default(&read_config("[package.metadata]\nother = 1\n").unwrap());
    assert_default(&read_config("[package.metadata.bootimage]\ntest-timeout = 1\n").unwrap());
    assert_default(&read_config("package = 5\n").unwrap());
    assert_default(&read_config("[package]\nmetadata = \"none\"\n").unwrap());
}

#[test]
fn empty_table_gives_the_default() {
    assert_default(&read_config("[package.metadata.grub-bootimage]\n").unwrap());
}

#[test]
fn all_settings_are_read() {
    let manifest = "\
[package]
name = \"kernel\"

[package.metadata.grub-bootimage]
run-args = [\"-serial\", \"stdio\"]
test-args = [\"-device\", \"isa-debug-exit,iobase=0xf4,iosize=0x04\", \"-display\", \"none\"]
test-success-exit-code = 33
test-timeout = 60
";
    let config = read_config(manifest).unwrap();
    assert_eq!(config.run_args, Some(strings(&["-serial", "stdio"])));
    assert_eq!(
        config.test_args,
        Some(strings(&["-device", "isa-debug-exit,iobase=0xf4,iosize=0x04", "-display", "none"]))
    );
    assert_eq!(config.test_success_exit_code, Some(33));
    assert_eq!(config.test_timeout, 60);
}

#[test]
fn one_setting_leaves_the_others_at_their_default() {
    let config = read_config("[package.metadata.grub-bootimage]\ntest-timeout = 0\n").unwrap();
    assert_eq!(config.test_timeout, 0);
    assert_eq!(config.run_args, None);
    assert_eq!(config.test_args, None);
    assert_eq!(config.test_success_exit_code, None);
}

#[test]
fn empty_argument_list_is_kept_as_empty() {
    let config = read_config("[package.metadata.grub-bootimage]\nrun-args = []\n").unwrap();
    assert_eq!(config.run_args, Some(Vec::new()));
    assert_eq!(config.test_args, None);
}

fn timeout_of(n: i64) -> Result<u32, ConfigError> {
    let manifest = format!("[package.metadata.grub-bootimage]\ntest-timeout = {}\n", n);
    read_config(&manifest).map(|config| config.test_timeout)
}

fn code_of(n: i64) -> Result<Option<i32>, ConfigError> {
    let manifest = format!("[package.metadata.grub-bootimage]\ntest-success-exit-code = {}\n", n);
    read_config(&manifest).map(|config| config.test_success_exit_code)
}

fn refused(key: &str, n: i64) -> ConfigError {
    ConfigError::UnexpectedKey { key: key.to_owned(), value: TomlValue::Integer(n) }
}

#[test]
fn timeout_in_range_is_kept_as_written() {
    assert_eq!(timeout_of(0), Ok(0));
    assert_eq!(timeout_of(1), Ok(1));
    assert_eq!(timeout_of(300), Ok(300));
    assert_eq!(timeout_of(4294967295), Ok(u32::MAX));
}

#[test]
fn timeout_out_of_range_is_refused() {
    for n in [-1, 4294967296, 4294967296 + 5, i64::MIN, i64::MAX] {
        assert_eq!(timeout_of(n), Err(refused("test-timeout", n)));
    }
}

#[test]
fn exit_code_in_range_is_kept_as_written() {
    assert_eq!(code_of(0), Ok(Some(0)));
    assert_eq!(code_of(33), Ok(Some(33)));
    assert_eq!(code_of(-1), Ok(Some(-1)));
    assert_eq!(code_of(2147483647), Ok(Some(i32::MAX)));
    assert_eq!(code_of(-2147483648), Ok(Some(i32::MIN)));
}

#[test]
fn exit_code_out_of_range_is_refused() {
    for n in [2147483648, -2147483649, 4294967295, 4294967296 + 42, i64::MIN, i64::MAX] {
        assert_eq!(code_of(n), Err(refused("test-success-exit-code", n)));
    }
}

/// A flat manifest with many lines, headers and dots, to which `settings` is
/// added as the table of this tool.
fn long_manifest(settings: &str) -> String {
    let mut manifest = String::from("[package]\nname = \"kernel\"\nversion = \"0.1.0\"\n");
    manifest.push_str(&format!("description = \"{}\"\n", "a.b.c. ".repeat(300)));
    manifest.push_str("[dependencies]\n");
    for i in 0..300 {
        manifest.push_str(&format!(
            "dep{} = {{ version = \"1.0.{}\", features = [\"x.y\"] }} # 1.0.{}\n",
            i, i, i
        ));
    }
    manifest.push_str("[package.metadata.grub-bootimage]\n");
    manifest.push_str(settings);
    manifest
}

#[test]
fn long_flat_manifest_is_read() {
    let config = read_config(&long_manifest("test-timeout = 77\n")).unwrap();
    assert_eq!(config.test_timeout, 77);
    let config = read_config(&long_manifest("test-success-exit-code = -5\n")).unwrap();
    assert_eq!(config.test_success_exit_code, Some(-5));
    assert_eq!(config.test_timeout, 300);
    let config = read_config(&long_manifest("run-args = [\"-s\"]\n")).unwrap();
    assert_eq!(config.run_args, Some(strings(&["-s"])));
    assert_default(&read_config(&long_manifest("")).unwrap());
}

#[test]
fn long_flat_manifest_is_refused_for_its_entries_only() {
    assert_eq!(read_config(&long_manifest("bogus = 1\n")).unwrap_err(), refused("bogus", 1));
    assert_eq!(
        read_config(&long_manifest("test-args = [1]\n")).unwrap_err(),
        ConfigError::NotStrings
    );
    assert_eq!(
        read_config(&long_manifest("test-timeout = -1\n")).unwrap_err(),
        refused("test-timeout", -1)
    );
}

#[test]
fn long_flat_text_that_is_not_toml_is_a_syntax_error() {
    let error = read_config(&long_manifest("test-timeout = = 1\n")).unwrap_err();
    assert!(matches!(error, ConfigError::Syntax(_)));
    assert_eq!(error.message(""), "Failed to parse Cargo.toml");
    let dots = format!("a = {}", "1.".repeat(1_000));
    assert!(matches!(read_config(&dots), Err(ConfigError::Syntax(_))));
    let headers = format!("{}[package", "[a.b.c]\n".repeat(1_000));
    assert!(matches!(read_config(&headers), Err(ConfigError::Syntax(_))));
}

#[test]
fn manifest_nested_too_deeply_is_refused_unread() {
    let at_limit = format!("a = {}{}\n", "[".repeat(64), "]".repeat(64));
    assert!(read_config(&at_limit).is_ok());
    let beyond = format!("a = {}{}\n", "[".repeat(65), "]".repeat(65));
    assert_eq!(read_config(&beyond).unwrap_err(), ConfigError::TooNested);
    let deep = format!("a = {}", "[".repeat(100_000));
    assert_eq!(read_config(&deep).unwrap_err(), ConfigError::TooNested);
    let dotted = format!("a{} = 1", ".a".repeat(100_000));
    assert_eq!(read_config(&dotted).unwrap_err(), ConfigError::TooNested);
    let braces = format!("a = {}", "{b = ".repeat(100_000));
    assert_eq!(read_config(&braces).unwrap_err(), ConfigError::TooNested);
}

#[test]
fn error_texts_name_the_key_and_the_value() {
    assert_eq!(ConfigError::TooNested.message("x"), "Cargo.toml is nested too deeply");
    assert_eq!(ConfigError::NotStrings.message("x"), "config must be a list of strings");
    assert_eq!(
        ConfigError::InvalidMetadata(TomlValue::Integer(5)).message("Integer(5)"),
        "grub-bootimage: config invalid: Integer(5)"
    );
    assert_eq!(
        refused("test-timeout", -1).message("-1"),
        "grub-bootimage: unexpected key `test-timeout` with value `-1`"
    );
    assert_eq!(refused("", 0).message(""), "grub-bootimage: unexpected key `` with value ``");
    let syntax = read_config("[package").unwrap_err();
    assert_eq!(syntax.message("ignored"), "Failed to parse Cargo.toml");
}

#[test]
fn unknown_key_is_refused_with_its_value() {
    let error = read_config("[package.metadata.grub-bootimage]\nrun-command = [\"qemu\"]\n")
        .unwrap_err();
    assert_eq!(
        error,
        ConfigError::UnexpectedKey {
            key: "run-command".to_owned(),
            value: TomlValue::Array(vec![text("qemu")]),
        }
    );
}

#[test]
fn value_of_the_wrong_type_is_refused() {
    let cases = [
        ("test-timeout = \"60\"", "test-timeout", text("60")),
        ("test-timeout = [60]", "test-timeout", TomlValue::Array(vec![TomlValue::Integer(60)])),
        ("test-success-exit-code = true", "test-success-exit-code", TomlValue::Boolean(true)),
        ("run-args = 1", "run-args", TomlValue::Integer(1)),
        ("test-args = \"-s\"", "test-args", text("-s")),
        ("test-timeout = 1.5", "test-timeout", TomlValue::Float(0x3FF8_0000_0000_0000)),
    ];
    for (line, key, value) in cases {
        let manifest = format!("[package.metadata.grub-bootimage]\n{}\n", line);
        assert_eq!(
            read_config(&manifest).unwrap_err(),
            ConfigError::UnexpectedKey { key: key.to_owned(), value }
        );
    }
}

#[test]
fn argument_that_is_no_string_is_refused() {
    let error =
        read_config("[package.metadata.grub-bootimage]\ntest-args = [[\"-s\"], [\"-S\"]]\n")
            .unwrap_err();
    assert_eq!(error, ConfigError::NotStrings);
    assert_eq!(
        read_config("[package.metadata.grub-bootimage]\nrun-args = [1, 2]\n").unwrap_err(),
        ConfigError::NotStrings
    );
}

#[test]
fn metadata_that_is_no_table_is_refused() {
    assert_eq!(
        read_config("[package.metadata]\ngrub-bootimage = 5\n").unwrap_err(),
        ConfigError::InvalidMetadata(TomlValue::Integer(5))
    );
    assert_eq!(
        read_config("[package.metadata]\ngrub-bootimage = [\"a\"]\n").unwrap_err(),
        ConfigError::InvalidMetadata(TomlValue::Array(vec![text("a")]))
    );
}

#[test]
fn text_that_is_not_toml_is_a_syntax_error() {
    assert!(matches!(read_config("[package"), Err(ConfigError::Syntax(_))));
    assert!(matches!(read_config("a = = 1"), Err(ConfigError::Syntax(_))));
    assert!(matches!(read_config("a = 1\na = 2\n"), Err(ConfigError::Syntax(_))));
}

#[test]
fn first_bad_entry_in_key_order_decides() {
    // The parser hands the entries out by ascending key, wherever they stand
    // in the text.
    let manifest = "\
[package.metadata.grub-bootimage]
zeta = 1
run-args = [1]
alpha = 2
";
    assert_eq!(
        read_config(manifest).unwrap_err(),
        ConfigError::UnexpectedKey { key: "alpha".to_owned(), value: TomlValue::Integer(2) }
    );
    let manifest = "\
[package.metadata.grub-bootimage]
zeta = 1
run-args = [1]
";
    assert_eq!(read_config(manifest).unwrap_err(), ConfigError::NotStrings);
}

#[test]
fn parse_config_takes_strings_in_order() {
    assert_eq!(parse_config(Vec::new()).unwrap(), Vec::<String>::new());
    assert_eq!(
        parse_config(vec![text("-m"), text("1G"), text("")]).unwrap(),
        strings(&["-m", "1G", ""])
    );
}

#[test]
fn parse_config_refuses_anything_but_strings() {
    assert_eq!(parse_config(vec![TomlValue::Integer(1)]).unwrap_err(), ConfigError::NotStrings);
    assert_eq!(
        parse_config(vec![text("a"), TomlValue::Boolean(false), text("b")]).unwrap_err(),
        ConfigError::NotStrings
    );
    assert_eq!(
        parse_config(vec![text("a"), TomlValue::Array(vec![text("b")])]).unwrap_err(),
        ConfigError::NotStrings
    );
}

#[test]
fn apply_entry_sets_what_the_key_names() {
    let config = apply_entry(Config::new(), entry("test-timeout", TomlValue::Integer(5))).unwrap();
    assert_eq!(config.test_timeout, 5);
    assert_eq!(config.test_success_exit_code, None);
    let config = apply_entry(config, entry("test-success-exit-code", TomlValue::Integer(3))).unwrap();
    assert_eq!(config.test_timeout, 5);
    assert_eq!(config.test_success_exit_code, Some(3));
    let config =
        apply_entry(config, entry("run-args", TomlValue::Array(vec![text("-s")]))).unwrap();
    assert_eq!(config.run_args, Some(strings(&["-s"])));
    assert_eq!(config.test_args, None);
    let config =
        apply_entry(config, entry("test-args", TomlValue::Array(vec![text("-S")]))).unwrap();
    assert_eq!(config.run_args, Some(strings(&["-s"])));
    assert_eq!(config.test_args, Some(strings(&["-S"])));
    assert_eq!(config.test_timeout, 5);
}

#[test]
fn apply_entry_refuses_keys_that_differ_in_case_or_spelling() {
    for key in ["Test-Timeout", "test_timeout", "test-timeout ", "", "timeout"] {
        assert_eq!(
            apply_entry(Config::new(), entry(key, TomlValue::Integer(5))).unwrap_err(),
            ConfigError::UnexpectedKey { key: key.to_owned(), value: TomlValue::Integer(5) }
        );
    }
}

#[test]
fn apply_entries_lets_a_later_entry_win() {
    let config = apply_entries(
        Config::new(),
        vec![
            entry("test-timeout", TomlValue::Integer(5)),
            entry("test-timeout", TomlValue::Integer(6)),
        ],
    )
    .unwrap();
    assert_eq!(config.test_timeout, 6);
}

#[test]
fn apply_entries_stops_at_the_first_refusal() {
    let error = apply_entries(
        Config::new(),
        vec![
            entry("test-timeout", TomlValue::Integer(5)),
            entry("run-args", TomlValue::Array(vec![TomlValue::Integer(1)])),
            entry("bogus", TomlValue::Integer(6)),
        ],
    )
    .unwrap_err();
    assert_eq!(error, ConfigError::NotStrings);
    assert_default(&apply_entries(Config::new(), Vec::new()).unwrap());
}

#[test]
fn config_from_document_walks_to_the_table() {
    let table = TomlValue::Table(vec![entry("test-timeout", TomlValue::Integer(9))]);
    let metadata = TomlValue::Table(vec![entry("grub-bootimage", table)]);
    let package = TomlValue::Table(vec![entry("name", text("k")), entry("metadata", metadata)]);
    let manifest = TomlValue::Table(vec![entry("package", package)]);
    assert_eq!(config_from_document(manifest).unwrap().test_timeout, 9);
    assert_default(&config_from_document(TomlValue::Table(Vec::new())).unwrap());
    assert_default(&config_from_document(TomlValue::Integer(1)).unwrap());
}

#[test]
fn config_can_be_cloned_and_printed() {
    let mut config = Config::new();
    config.run_args = Some(strings(&["-s"]));
    let copy = config.clone();
    assert_eq!(copy.run_args, config.run_args);
    assert!(format!("{:?}", copy).contains("run_args"));
}
