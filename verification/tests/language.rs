use translatable::misc::language::Language;

#[test]
fn code_is_two_upper_case_letters() {
    assert_eq!(Language::AA.code(), "AA");
    assert_eq!(Language::ES.code(), "ES");
    assert_eq!(Language::ZU.code(), "ZU");
}

#[test]
fn name_is_the_english_name() {
    assert_eq!(Language::AA.name(), "Afar");
    assert_eq!(Language::ES.name(), "Spanish");
    assert_eq!(Language::EN.name(), "English");
    assert_eq!(Language::GD.name(), "Scottish Gaelic");
}

#[test]
fn from_code_ignores_letter_case() {
    assert_eq!(Language::from_code("ES"), Some(Language::ES));
    assert_eq!(Language::from_code("es"), Some(Language::ES));
    assert_eq!(Language::from_code("eS"), Some(Language::ES));
    assert_eq!(Language::from_code("aa"), Some(Language::AA));
}

#[test]
fn from_code_rejects_what_is_no_code() {
    assert_eq!(Language::from_code(""), None);
    assert_eq!(Language::from_code("E"), None);
    assert_eq!(Language::from_code("ESP"), None);
    assert_eq!(Language::from_code("XX"), None);
    assert_eq!(Language::from_code("e\u{17f}"), None);
    assert_eq!(Language::from_code("Spanish"), None);
}

#[test]
fn from_letters_wants_upper_case() {
    assert_eq!(Language::from_letters('E', 'S'), Some(Language::ES));
    assert_eq!(Language::from_letters('e', 's'), None);
    assert_eq!(Language::from_letters('Q', 'Q'), None);
}

#[test]
fn every_code_reads_back_as_its_language() {
    let some = [
        Language::AA,
        Language::BH,
        Language::DE,
        Language::EN,
        Language::ES,
        Language::FR,
        Language::JA,
        Language::NB,
        Language::VO,
        Language::ZH,
        Language::ZU,
    ];
    for language in some {
        assert_eq!(Language::from_code(language.code()), Some(language));
        assert_eq!(language.code().len(), 2);
    }
}
