use proc_macro2::Span;
use translatable::macro_input::context::{
    ContextError, ContextMacroField, ContextMacroInput, FieldIssue, FieldProblem, FieldType,
    WrittenField, WrittenPath,
};
use translatable::macro_input::translation_path::TranslationPath;
use translatable::misc::language::Language;
use translatable::misc::templating::FormatString;
use translatable::translations::collection::{RawSource, TranslationNodeCollection};
use translatable::translations::node::{TranslationBranch, TranslationNode, TranslationObject};
use translatable::data::config::TranslationOverlap;

fn at(path: &[&str], is_glob: bool) -> TranslationPath {
    TranslationPath::new(path.iter().map(|s| s.to_string()).collect(), Span::call_site(), is_glob)
}

fn field(base: Option<TranslationPath>, path: Option<TranslationPath>, name: &str) -> ContextMacroField {
    ContextMacroField::new(base, path, name.to_string(), Span::call_site())
}

fn declared(ty: FieldType, path: WrittenPath, name: Option<&str>) -> WrittenField {
    WrittenField { ty, path, name: name.map(|s| s.to_string()), span: Span::call_site() }
}

fn corpus() -> TranslationNodeCollection {
    let mut english = TranslationObject::new();
    english.insert(Language::EN, FormatString::parse("hello"));
    let mut inner = TranslationBranch::new();
    inner.insert("hello".to_string(), TranslationNode::Leaf(english));
    let mut root = TranslationBranch::new();
    root.insert("app".to_string(), TranslationNode::Branch(inner));
    TranslationNodeCollection::build(
        &vec![RawSource::new("app.toml".to_string(), TranslationNode::Branch(root))],
        TranslationOverlap::Ignore,
    )
    .unwrap()
}

#[test]
fn field_without_paths_is_looked_up_by_name() {
    let f = field(None, None, "formal");
    assert_eq!(f.name(), "formal");
    assert_eq!(f.path().static_display(), "formal");
    assert!(!f.path().is_glob());
    let _ = f.span();
}

#[test]
fn field_path_follows_the_base_path() {
    assert_eq!(
        field(Some(at(&["greetings"], false)), None, "formal").path().static_display(),
        "greetings::formal"
    );
    assert_eq!(
        field(Some(at(&["a", "b"], true)), Some(at(&["c", "d"], false)), "x").path().static_display(),
        "::a::b::c::d"
    );
    assert_eq!(
        field(Some(at(&["a"], false)), Some(at(&["c"], true)), "x").path().static_display(),
        "a::c"
    );
    assert_eq!(field(None, Some(at(&["c"], true)), "x").path().static_display(), "::c");
}

#[test]
fn written_fields_without_problems_make_a_context() {
    let input = ContextMacroInput::from_written(
        "Context".to_string(),
        Span::call_site(),
        Some(at(&["app"], false)),
        vec![
            declared(FieldType::Text, WrittenPath::Absent, Some("hello")),
            declared(FieldType::Inferred, WrittenPath::Valid(at(&["bye"], false)), Some("other")),
        ],
    )
    .unwrap();
    assert_eq!(input.ident(), "Context");
    let _ = input.span();
    assert_eq!(input.fields().len(), 2);
    assert_eq!(input.fields()[0].name(), "hello");
    assert_eq!(input.fields()[0].path().static_display(), "app::hello");
    assert_eq!(input.fields()[1].name(), "other");
    assert_eq!(input.fields()[1].path().static_display(), "app::bye");
}

#[test]
fn every_problem_is_reported_in_field_order() {
    let issues = ContextMacroInput::from_written(
        "Context".to_string(),
        Span::call_site(),
        None,
        vec![
            declared(FieldType::Other, WrittenPath::Invalid, None),
            declared(FieldType::Text, WrittenPath::Absent, Some("fine")),
            declared(FieldType::Text, WrittenPath::Invalid, None),
            declared(FieldType::Inferred, WrittenPath::Absent, None),
        ],
    )
    .unwrap_err();
    assert_eq!(
        issues,
        vec![
            FieldIssue { index: 0, problem: FieldProblem::TypeNotAllowed },
            FieldIssue { index: 2, problem: FieldProblem::InvalidPath },
            FieldIssue { index: 3, problem: FieldProblem::Unnamed },
        ]
    );
    assert_eq!(
        FieldProblem::TypeNotAllowed.message(),
        "The type must be a String or inferred as '_'."
    );
    assert_eq!(FieldProblem::Unnamed.message(), "The field must be named.");
}

#[test]
fn context_without_fields_is_fine() {
    let input =
        ContextMacroInput::from_written("Empty".to_string(), Span::call_site(), None, Vec::new())
            .unwrap();
    assert!(input.fields().is_empty());
    assert!(input.translations(&corpus()).unwrap().is_empty());
}

#[test]
fn context_finds_the_message_of_each_field() {
    let input = ContextMacroInput::new(
        "Context".to_string(),
        Span::call_site(),
        vec![field(Some(at(&["app"], true)), None, "hello")],
    );
    let collection = corpus();
    let objects = input.translations(&collection).unwrap();
    assert_eq!(objects.len(), 1);
    assert_eq!(objects[0].get(&Language::EN).unwrap().template(), "hello");
}

#[test]
fn context_reports_the_first_field_without_message() {
    let input = ContextMacroInput::new(
        "Context".to_string(),
        Span::call_site(),
        vec![
            field(Some(at(&["app"], true)), None, "hello"),
            field(Some(at(&["app"], true)), None, "missing"),
            field(None, None, "also_missing"),
        ],
    );
    match input.translations(&corpus()) {
        Err(ContextError::TranslationNotFound(path)) => assert_eq!(path, "::app::missing"),
        Ok(found) => panic!("found {}", found.len()),
    }
}
