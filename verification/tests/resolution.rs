use proc_macro2::Span;
use translatable::data::config::{SeekMode, TranslationOverlap};
use translatable::macro_input::context::{ContextMacroField, ContextMacroInput};
use translatable::macro_input::translation_path::TranslationPath;
use translatable::misc::language::Language;
use translatable::misc::replacements::Replacements;
use translatable::misc::templating::FormatString;
use translatable::resolution::{
    get_fallback_translation, get_translation_object, render, resolve, resolve_in_object,
    select_object, select_translation, ResolutionError, ResolutionMode,
};
use translatable::translations::collection::{RawSource, TranslationNodeCollection};
use translatable::translations::node::{TranslationBranch, TranslationNode, TranslationObject};

fn rendering(entries: &[(Language, &str)]) -> TranslationNode {
    let mut object = TranslationObject::new();
    for (language, text) in entries {
        object.insert(*language, FormatString::parse(text));
    }
    TranslationNode::Leaf(object)
}

fn greetings() -> TranslationNodeCollection {
    let mut greetings = TranslationBranch::new();
    greetings.insert(
        "formal".to_string(),
        rendering(&[(Language::AA, "Nice to meet you."), (Language::ES, "Bueno conocerte.")]),
    );
    greetings.insert("informal".to_string(), rendering(&[(Language::AA, "What's good {user}?")]));
    let mut root = TranslationBranch::new();
    root.insert("greetings".to_string(), TranslationNode::Branch(greetings));
    let file = RawSource::new("greetings.toml".to_string(), TranslationNode::Branch(root));
    TranslationNodeCollection::load(vec![file], SeekMode::Alphabetical, TranslationOverlap::Ignore)
        .unwrap()
}

fn segments(path: &[&str]) -> Vec<String> {
    path.iter().map(|s| s.to_string()).collect()
}

fn located(path: &[&str], is_glob: bool) -> TranslationPath {
    TranslationPath::new(segments(path), Span::call_site(), is_glob)
}

fn replacing(pairs: &[(&str, &str)]) -> Replacements {
    let mut out = Replacements::new();
    for (name, value) in pairs {
        out.insert(name.to_string(), value.to_string());
    }
    out
}

#[test]
fn pass_fallback_catch() {
    let corpus = greetings();
    let base_path = located(&["greetings"], false);
    let context = ContextMacroInput::new(
        "Context".to_string(),
        Span::call_site(),
        vec![
            ContextMacroField::new(
                Some(base_path.clone()),
                None,
                "formal".to_string(),
                Span::call_site(),
            ),
            ContextMacroField::new(
                Some(base_path),
                None,
                "informal".to_string(),
                Span::call_site(),
            ),
        ],
    );
    let user = replacing(&[("user", "John")]);
    let objects = context.translations(&corpus).unwrap();
    let formal = resolve_in_object(objects[0], Language::AA, None, "greetings::formal", &user);
    let informal = resolve_in_object(objects[1], Language::AA, None, "greetings::informal", &user);

    assert_eq!(formal.unwrap(), "Nice to meet you.");
    assert_eq!(informal.unwrap(), "What's good John?");
}

#[test]
fn pass_dynamic_enum() {
    let corpus = greetings();
    let path = located(&["greetings", "formal"], false);
    let (object, fallback) = select_object(&corpus, None, &path).unwrap();
    let translation = resolve_in_object(
        object,
        Language::ES,
        fallback,
        &path.static_display(),
        &Replacements::new(),
    )
    .expect("Expected translation generation to be OK");

    assert_eq!(translation, "Bueno conocerte.");
}

#[test]
fn resolves_the_informal_greeting() {
    let text = resolve(
        &greetings(),
        &segments(&["greetings", "informal"]),
        Language::AA,
        None,
        &replacing(&[("user", "John")]),
    );
    assert_eq!(text.unwrap(), "What's good John?");
}

#[test]
fn resolves_the_formal_greeting_in_spanish() {
    let text = resolve(
        &greetings(),
        &segments(&["greetings", "formal"]),
        Language::ES,
        None,
        &Replacements::new(),
    );
    assert_eq!(text.unwrap(), "Bueno conocerte.");
}

#[test]
fn unknown_path_is_reported() {
    let r = resolve(
        &greetings(),
        &segments(&["greetings", "unknown"]),
        Language::AA,
        None,
        &Replacements::new(),
    );
    match r {
        Err(ResolutionError::PathNotFound(path)) => assert_eq!(path, "greetings::unknown"),
        other => panic!("{other:?}"),
    }
    let r = resolve(&greetings(), &segments(&["greetings"]), Language::AA, None, &Replacements::new());
    match r {
        Err(ResolutionError::PathNotFound(path)) => assert_eq!(path, "greetings"),
        other => panic!("{other:?}"),
    }
    let r = resolve(&greetings(), &segments(&[]), Language::AA, None, &Replacements::new());
    match r {
        Err(ResolutionError::PathNotFound(path)) => assert_eq!(path, ""),
        other => panic!("{other:?}"),
    }
}

#[test]
fn fallback_is_used_where_the_language_is_missing() {
    let text = resolve(
        &greetings(),
        &segments(&["greetings", "informal"]),
        Language::ES,
        Some(Language::AA),
        &replacing(&[("user", "John")]),
    );
    assert_eq!(text.unwrap(), "What's good John?");
}

#[test]
fn requested_language_wins_over_the_fallback() {
    let text = resolve(
        &greetings(),
        &segments(&["greetings", "formal"]),
        Language::ES,
        Some(Language::AA),
        &Replacements::new(),
    );
    assert_eq!(text.unwrap(), "Bueno conocerte.");
}

#[test]
fn missing_language_without_fallback_is_reported() {
    let r = resolve(
        &greetings(),
        &segments(&["greetings", "informal"]),
        Language::ES,
        None,
        &replacing(&[("user", "John")]),
    );
    match r {
        Err(ResolutionError::LanguageNotAvailable(language, path)) => {
            assert_eq!(language, Language::ES);
            assert_eq!(path, "greetings::informal");
        }
        other => panic!("{other:?}"),
    }
}

#[test]
fn missing_fallback_is_reported_even_if_the_language_is_there() {
    let r = resolve(
        &greetings(),
        &segments(&["greetings", "informal"]),
        Language::AA,
        Some(Language::ES),
        &replacing(&[("user", "John")]),
    );
    match r {
        Err(ResolutionError::FallbackNotAvailable(language, path)) => {
            assert_eq!(language, Language::ES);
            assert_eq!(path, "greetings::informal");
        }
        other => panic!("{other:?}"),
    }
    let r = resolve(
        &greetings(),
        &segments(&["greetings", "informal"]),
        Language::FR,
        Some(Language::ES),
        &replacing(&[("user", "John")]),
    );
    assert!(matches!(r, Err(ResolutionError::FallbackNotAvailable(Language::ES, _))));
}

#[test]
fn missing_placeholder_is_reported() {
    let r = resolve(
        &greetings(),
        &segments(&["greetings", "informal"]),
        Language::AA,
        None,
        &replacing(&[("name", "John")]),
    );
    match r {
        Err(ResolutionError::MissingPlaceholder(name)) => assert_eq!(name, "user"),
        other => panic!("{other:?}"),
    }
}

#[test]
fn path_error_comes_before_fallback_error() {
    let r = resolve(
        &greetings(),
        &segments(&["nowhere"]),
        Language::AA,
        Some(Language::ZU),
        &Replacements::new(),
    );
    assert!(matches!(r, Err(ResolutionError::PathNotFound(_))));
}

#[test]
fn static_lookup_displays_the_path_as_written() {
    let corpus = greetings();
    match get_translation_object(&corpus, &located(&["greetings", "unknown"], true)) {
        Err(ResolutionError::PathNotFound(path)) => assert_eq!(path, "::greetings::unknown"),
        other => panic!("{:?}", other.map(|_| ())),
    }
    let found = get_translation_object(&corpus, &located(&["greetings", "formal"], true)).unwrap();
    assert_eq!(found.len(), 2);
}

#[test]
fn fallback_translation_is_checked_eagerly() {
    let corpus = greetings();
    let path = located(&["greetings", "formal"], false);
    let object = get_translation_object(&corpus, &path).unwrap();
    assert!(get_fallback_translation(&path, object, None).unwrap().is_none());
    let found = get_fallback_translation(&path, object, Some(Language::ES)).unwrap().unwrap();
    assert_eq!(found.template(), "Bueno conocerte.");
    match get_fallback_translation(&path, object, Some(Language::FR)) {
        Err(ResolutionError::FallbackNotAvailable(language, shown)) => {
            assert_eq!(language, Language::FR);
            assert_eq!(shown, "greetings::formal");
        }
        other => panic!("{:?}", other.map(|_| ())),
    }
}

#[test]
fn select_translation_follows_the_same_rule() {
    let corpus = greetings();
    let informal = located(&["greetings", "informal"], false);
    let text = select_translation(&corpus, None, Language::AA, &informal).unwrap();
    assert_eq!(text.template(), "What's good {user}?");
    let text = select_translation(&corpus, Some(Language::AA), Language::ES, &informal).unwrap();
    assert_eq!(text.template(), "What's good {user}?");
    assert!(matches!(
        select_translation(&corpus, None, Language::ES, &informal),
        Err(ResolutionError::LanguageNotAvailable(Language::ES, _))
    ));
    assert!(matches!(
        select_translation(&corpus, Some(Language::ES), Language::AA, &informal),
        Err(ResolutionError::FallbackNotAvailable(Language::ES, _))
    ));
    assert!(matches!(
        select_translation(&corpus, Some(Language::ES), Language::AA, &located(&["x"], false)),
        Err(ResolutionError::PathNotFound(_))
    ));
}

#[test]
fn select_object_reports_path_and_fallback() {
    let corpus = greetings();
    let formal = located(&["greetings", "formal"], false);
    let (object, fallback) = select_object(&corpus, Some(Language::AA), &formal).unwrap();
    assert_eq!(object.len(), 2);
    assert_eq!(fallback.unwrap().template(), "Nice to meet you.");
    assert!(matches!(
        select_object(&corpus, Some(Language::FR), &formal),
        Err(ResolutionError::FallbackNotAvailable(Language::FR, _))
    ));
    assert!(matches!(
        select_object(&corpus, None, &located(&["greetings"], false)),
        Err(ResolutionError::PathNotFound(_))
    ));
}

#[test]
fn resolve_in_object_names_the_missing_language() {
    let corpus = greetings();
    let object = corpus.find_path(&segments(&["greetings", "informal"])).unwrap();
    match resolve_in_object(object, Language::ES, None, "shown", &Replacements::new()) {
        Err(ResolutionError::LanguageNotAvailable(language, path)) => {
            assert_eq!(language, Language::ES);
            assert_eq!(path, "shown");
        }
        other => panic!("{other:?}"),
    }
}

#[test]
fn render_maps_the_template_error() {
    let text = FormatString::parse("{a}-{b}");
    assert_eq!(render(&text, &replacing(&[("a", "1"), ("b", "2")])).unwrap(), "1-2");
    match render(&text, &replacing(&[("a", "1")])) {
        Err(ResolutionError::MissingPlaceholder(name)) => assert_eq!(name, "b"),
        other => panic!("{other:?}"),
    }
}

#[test]
fn both_modes_give_the_same_result() {
    let corpus = greetings();
    let user = replacing(&[("user", "John")]);
    for path in [vec!["greetings", "formal"], vec!["greetings", "informal"], vec!["none"]] {
        for language in [Language::AA, Language::ES, Language::FR] {
            for fallback in [None, Some(Language::AA), Some(Language::ES)] {
                let at_once = resolve(&corpus, &segments(&path), language, fallback, &user);
                let located = located(&path, false);
                let in_steps = select_translation(&corpus, fallback, language, &located)
                    .and_then(|text| render(text, &user));
                assert_eq!(format!("{at_once:?}"), format!("{in_steps:?}"));
            }
        }
    }
}

#[test]
fn resolution_mode_follows_what_is_known() {
    assert_eq!(ResolutionMode::select(true, true), ResolutionMode::AllStatic);
    assert_eq!(ResolutionMode::select(false, true), ResolutionMode::PathStatic);
    assert_eq!(ResolutionMode::select(true, false), ResolutionMode::AllDynamic);
    assert_eq!(ResolutionMode::select(false, false), ResolutionMode::AllDynamic);
}
