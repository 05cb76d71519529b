use translatable::data::config::{
    config_value, load_config, ConfigError, ConfigKey, ConfigValues, MacroConfig, SeekMode,
    TranslationOverlap,
};
use translatable::misc::language::Language;

fn set(
    locales_path: Option<&str>,
    overlap: Option<&str>,
    seek_mode: Option<&str>,
    fallback_language: Option<&str>,
) -> ConfigValues {
    ConfigValues {
        locales_path: locales_path.map(|s| s.to_string()),
        overlap: overlap.map(|s| s.to_string()),
        seek_mode: seek_mode.map(|s| s.to_string()),
        fallback_language: fallback_language.map(|s| s.to_string()),
    }
}

fn invalid(r: Result<MacroConfig, ConfigError>) -> (String, String) {
    match r {
        Err(ConfigError::InvalidValue(key, value)) => (key, value),
        other => panic!("{other:?}"),
    }
}

#[test]
fn defaults_apply_where_nothing_is_set() {
    let config = MacroConfig::from_values(ConfigValues::new()).unwrap();
    assert_eq!(config.path(), "./translations");
    assert_eq!(config.overlap(), TranslationOverlap::Ignore);
    assert_eq!(config.seek_mode(), SeekMode::Alphabetical);
    assert_eq!(config.fallback_language(), None);
}

#[test]
fn values_are_read_by_name() {
    let config = MacroConfig::from_values(set(
        Some("./locales"),
        Some("Overwrite"),
        Some("Unalphabetical"),
        Some("es"),
    ))
    .unwrap();
    assert_eq!(config.path(), "./locales");
    assert_eq!(config.overlap(), TranslationOverlap::Overwrite);
    assert_eq!(config.seek_mode(), SeekMode::Unalphabetical);
    assert_eq!(config.fallback_language(), Some(Language::ES));
    let config =
        MacroConfig::from_values(set(None, Some("Ignore"), Some("Alphabetical"), Some("AA")))
            .unwrap();
    assert_eq!(config.overlap(), TranslationOverlap::Ignore);
    assert_eq!(config.seek_mode(), SeekMode::Alphabetical);
    assert_eq!(config.fallback_language(), Some(Language::AA));
}

#[test]
fn invalid_values_are_reported_in_order() {
    assert_eq!(
        invalid(MacroConfig::from_values(set(None, Some("overwrite"), Some("x"), Some("y")))),
        ("overlap".to_string(), "overwrite".to_string())
    );
    assert_eq!(
        invalid(MacroConfig::from_values(set(None, Some("Ignore"), Some("alphabetical"), Some("y")))),
        ("seek_mode".to_string(), "alphabetical".to_string())
    );
    assert_eq!(
        invalid(MacroConfig::from_values(set(None, None, None, Some("Spanish")))),
        ("fallback_language".to_string(), "Spanish".to_string())
    );
    assert_eq!(
        invalid(MacroConfig::from_values(set(None, Some(""), None, None))),
        ("overlap".to_string(), "".to_string())
    );
}

#[test]
fn names_are_matched_exactly() {
    assert_eq!(SeekMode::from_name("Alphabetical"), Some(SeekMode::Alphabetical));
    assert_eq!(SeekMode::from_name("Unalphabetical"), Some(SeekMode::Unalphabetical));
    assert_eq!(SeekMode::from_name("alphabetical"), None);
    assert_eq!(SeekMode::from_name("Alphabetical "), None);
    assert_eq!(TranslationOverlap::from_name("Overwrite"), Some(TranslationOverlap::Overwrite));
    assert_eq!(TranslationOverlap::from_name("Ignore"), Some(TranslationOverlap::Ignore));
    assert_eq!(TranslationOverlap::from_name("IGNORE"), None);
    for mode in [SeekMode::Alphabetical, SeekMode::Unalphabetical] {
        assert_eq!(SeekMode::from_name(mode.name()), Some(mode));
    }
    for policy in [TranslationOverlap::Overwrite, TranslationOverlap::Ignore] {
        assert_eq!(TranslationOverlap::from_name(policy.name()), Some(policy));
    }
}

#[test]
fn default_values_of_the_enums() {
    assert_eq!(SeekMode::default(), SeekMode::Alphabetical);
    assert_eq!(TranslationOverlap::default(), TranslationOverlap::Overwrite);
}

#[test]
fn environment_wins_over_file() {
    assert_eq!(config_value(Some("e".to_string()), Some("f".to_string())), Some("e".to_string()));
    assert_eq!(config_value(None, Some("f".to_string())), Some("f".to_string()));
    assert_eq!(config_value(Some("e".to_string()), None), Some("e".to_string()));
    assert_eq!(config_value(None, None), None);
}

#[test]
fn variable_is_the_key_in_upper_case_behind_the_prefix() {
    for key in [
        ConfigKey::LocalesPath,
        ConfigKey::Overlap,
        ConfigKey::SeekMode,
        ConfigKey::FallbackLanguage,
    ] {
        assert_eq!(key.variable(), format!("TRANSLATABLE_{}", key.name().to_uppercase()));
    }
    assert_eq!(ConfigKey::LocalesPath.name(), "locales_path");
    assert_eq!(ConfigKey::FallbackLanguage.variable(), "TRANSLATABLE_FALLBACK_LANGUAGE");
}

#[test]
fn empty_file_gives_the_defaults() {
    let config = load_config("", ConfigValues::new()).unwrap();
    assert_eq!(config.path(), "./translations");
    assert_eq!(config.overlap(), TranslationOverlap::Ignore);
    assert_eq!(config.seek_mode(), SeekMode::Alphabetical);
    assert_eq!(config.fallback_language(), None);
}

#[test]
fn file_values_are_read() {
    let content = "locales_path = \"./locales\"\noverlap = \"Overwrite\"\n\
                   seek_mode = \"Unalphabetical\"\nfallback_language = \"es\"\nother = 3\n";
    let config = load_config(content, ConfigValues::new()).unwrap();
    assert_eq!(config.path(), "./locales");
    assert_eq!(config.overlap(), TranslationOverlap::Overwrite);
    assert_eq!(config.seek_mode(), SeekMode::Unalphabetical);
    assert_eq!(config.fallback_language(), Some(Language::ES));
}

#[test]
fn environment_overrides_the_file() {
    let content = "locales_path = \"./locales\"\noverlap = \"Overwrite\"\nseek_mode = \"nonsense\"\n";
    let config = load_config(
        content,
        set(Some("./elsewhere"), None, Some("Unalphabetical"), Some("AA")),
    )
    .unwrap();
    assert_eq!(config.path(), "./elsewhere");
    assert_eq!(config.overlap(), TranslationOverlap::Overwrite);
    assert_eq!(config.seek_mode(), SeekMode::Unalphabetical);
    assert_eq!(config.fallback_language(), Some(Language::AA));
}

#[test]
fn value_that_is_no_string_counts_as_unset() {
    let content = "locales_path = 3\noverlap = [\"Overwrite\"]\n[seek_mode]\nx = \"Alphabetical\"\n";
    let config = load_config(content, ConfigValues::new()).unwrap();
    assert_eq!(config.path(), "./translations");
    assert_eq!(config.overlap(), TranslationOverlap::Ignore);
    assert_eq!(config.seek_mode(), SeekMode::Alphabetical);
}

#[test]
fn invalid_file_value_is_reported() {
    assert_eq!(
        invalid(load_config("overlap = \"Sometimes\"", ConfigValues::new())),
        ("overlap".to_string(), "Sometimes".to_string())
    );
    assert_eq!(
        invalid(load_config("overlap = \"Ignore\"", set(None, Some("Never"), None, None))),
        ("overlap".to_string(), "Never".to_string())
    );
}

#[test]
fn broken_file_is_a_parse_error() {
    match load_config("overlap = ", ConfigValues::new()) {
        Err(ConfigError::ParseToml(error)) => assert!(error.span().is_some()),
        other => panic!("{other:?}"),
    }
    assert!(matches!(
        load_config("= = =", set(Some("x"), Some("Ignore"), None, None)),
        Err(ConfigError::ParseToml(_))
    ));
}
