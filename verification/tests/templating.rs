use translatable::misc::replacements::Replacements;
use translatable::misc::templating::{FormatString, TemplateError};

fn values(pairs: &[(&str, &str)]) -> Replacements {
    let mut out = Replacements::new();
    for (name, value) in pairs {
        out.insert(name.to_string(), value.to_string());
    }
    out
}

fn render(template: &str, pairs: &[(&str, &str)]) -> Result<String, TemplateError> {
    FormatString::parse(template).replace_with(&values(pairs))
}

#[test]
fn renders_a_placeholder() {
    assert_eq!(
        render("What's good {user}?", &[("user", "John")]).unwrap(),
        "What's good John?"
    );
}

#[test]
fn renders_plain_text_unchanged() {
    assert_eq!(render("Nice to meet you.", &[]).unwrap(), "Nice to meet you.");
    assert_eq!(render("", &[]).unwrap(), "");
    assert_eq!(render("unused", &[("user", "John")]).unwrap(), "unused");
}

#[test]
fn renders_several_placeholders_in_order() {
    assert_eq!(
        render("{a}{b} and {a}, {_c1}!", &[("a", "1"), ("b", "2"), ("_c1", "3")]).unwrap(),
        "12 and 1, 3!"
    );
}

#[test]
fn value_is_not_read_as_a_template() {
    assert_eq!(render("{a}", &[("a", "{b}"), ("b", "x")]).unwrap(), "{b}");
}

#[test]
fn braces_without_an_identifier_are_text() {
    for text in [
        "{",
        "}",
        "{}",
        "{ }",
        "{1a}",
        "{a b}",
        "{a",
        "a}",
        "{a-b}",
        "{{",
        "}}",
        "{\u{e9}}",
    ] {
        assert_eq!(render(text, &[("a", "X"), ("b", "Y")]).unwrap(), text);
    }
}

#[test]
fn placeholder_inside_other_braces() {
    assert_eq!(render("{{a}}", &[("a", "X")]).unwrap(), "{X}");
    assert_eq!(render("{x{a}", &[("a", "X"), ("x", "no")]).unwrap(), "{xX");
    assert_eq!(render("{a}{", &[("a", "X")]).unwrap(), "X{");
}

#[test]
fn missing_placeholder_is_named() {
    match render("Hello {user}, {other}", &[]) {
        Err(TemplateError::MissingPlaceholder(name)) => assert_eq!(name, "user"),
        Ok(text) => panic!("rendered {text}"),
    }
    match render("Hello {user}, {other}", &[("user", "John")]) {
        Err(TemplateError::MissingPlaceholder(name)) => assert_eq!(name, "other"),
        Ok(text) => panic!("rendered {text}"),
    }
}

#[test]
fn template_is_given_back_character_for_character() {
    for text in [
        "",
        "plain",
        "What's good {user}?",
        "{a}{b}{c}",
        "{{a}} {b",
        "tr\u{e8}s {bien} \u{1f600}",
        "{_}",
    ] {
        assert_eq!(FormatString::parse(text).template(), text);
    }
}

#[test]
fn copy_renders_like_its_source() {
    let first = FormatString::parse("a {b} c");
    let copy = first.clone();
    let table = values(&[("b", "B")]);
    assert_eq!(copy.replace_with(&table).unwrap(), "a B c");
    assert_eq!(copy.template(), first.template());
}

#[test]
fn replacements_keep_the_last_value_of_a_name() {
    let mut table = Replacements::new();
    assert_eq!(table.len(), 0);
    assert!(table.get("a").is_none());
    table.insert("a".to_string(), "1".to_string());
    table.insert("b".to_string(), "2".to_string());
    table.insert("a".to_string(), "3".to_string());
    assert_eq!(table.len(), 2);
    assert_eq!(table.get("a").unwrap(), "3");
    assert_eq!(table.get("b").unwrap(), "2");
    assert!(table.get("c").is_none());
    assert!(table.get("A").is_none());
}
