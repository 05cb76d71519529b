use proc_macro2::Span;
use translatable::macro_input::translation_path::{PathError, TranslationPath, WrittenSegment};
use translatable::misc::text::{comes_before, join_with, same_text};

fn path(segments: &[&str], is_glob: bool) -> TranslationPath {
    TranslationPath::new(
        segments.iter().map(|s| s.to_string()).collect(),
        Span::call_site(),
        is_glob,
    )
}

fn written(name: &str, has_arguments: bool) -> WrittenSegment {
    WrittenSegment { name: name.to_string(), has_arguments }
}

#[test]
fn absolute_path_displays_with_leading_colons() {
    assert_eq!(path(&["a", "b"], true).static_display(), "::a::b");
}

#[test]
fn relative_path_displays_without_prefix() {
    assert_eq!(path(&["a", "b"], false).static_display(), "a::b");
    assert_eq!(path(&["greetings", "unknown"], false).static_display(), "greetings::unknown");
}

#[test]
fn short_paths_display() {
    assert_eq!(path(&["a"], false).static_display(), "a");
    assert_eq!(path(&["a"], true).static_display(), "::a");
    assert_eq!(path(&[], false).static_display(), "");
    assert_eq!(path(&[], true).static_display(), "::");
}

#[test]
fn new_keeps_its_arguments() {
    let p = path(&["x", "y"], true);
    assert_eq!(p.segments(), &vec!["x".to_string(), "y".to_string()]);
    assert!(p.is_glob());
    let _ = p.span();
}

#[test]
fn path_stands_for_its_segments() {
    let p = path(&["x", "y"], false);
    assert_eq!(p.len(), 2);
    assert_eq!(p[1], "y");
    let segments: &Vec<String> = &p;
    assert_eq!(segments, p.segments());
}

#[test]
fn merge_concatenates_and_keeps_the_left_flag() {
    let merged = path(&["a", "b"], true).merge(&path(&["c"], false));
    assert_eq!(merged.segments(), &vec!["a".to_string(), "b".to_string(), "c".to_string()]);
    assert!(merged.is_glob());
    assert_eq!(merged.static_display(), "::a::b::c");

    let merged = path(&["a"], false).merge(&path(&["b", "c"], true));
    assert_eq!(merged.segments(), &vec!["a".to_string(), "b".to_string(), "c".to_string()]);
    assert!(!merged.is_glob());
    assert_eq!(merged.static_display(), "a::b::c");
}

#[test]
fn merge_with_the_root_path() {
    let root = TranslationPath::default();
    assert!(root.segments().is_empty());
    assert!(!root.is_glob());
    assert_eq!(root.merge(&path(&["a"], true)).static_display(), "a");
    assert_eq!(path(&["a"], true).merge(&root).static_display(), "::a");
}

#[test]
fn equality_is_by_segments_and_flag() {
    assert!(path(&["a", "b"], false) == path(&["a", "b"], false));
    assert!(path(&["a", "b"], false) != path(&["a", "b"], true));
    assert!(path(&["a", "b"], false) != path(&["a"], false));
    assert!(path(&["a", "b"], false) != path(&["a", "c"], false));
    assert!(path(&["a", "b"], false).same_as(&path(&["a", "b"], false).clone()));
    assert!(path(&[], false) == TranslationPath::default());
}

#[test]
fn written_path_without_arguments_is_accepted() {
    let p = TranslationPath::from_written(
        true,
        vec![written("greetings", false), written("formal", false)],
        Span::call_site(),
    )
    .unwrap();
    assert_eq!(p.static_display(), "::greetings::formal");
    let p = TranslationPath::from_written(false, vec![written("a", false)], Span::call_site())
        .unwrap();
    assert_eq!(p.static_display(), "a");
}

#[test]
fn written_path_with_arguments_is_rejected_at_the_first() {
    let r = TranslationPath::from_written(
        false,
        vec![written("a", false), written("b", true), written("c", true)],
        Span::call_site(),
    );
    match r {
        Err(PathError::GenericArguments(index)) => {
            assert_eq!(index, 1);
            assert_eq!(
                PathError::GenericArguments(index).message(),
                "A translation path can't contain generic arguments."
            );
        }
        Ok(p) => panic!("accepted {}", p.static_display()),
    }
}

#[test]
fn join_puts_the_separator_between() {
    let parts = vec!["a".to_string(), "b".to_string(), "c".to_string()];
    assert_eq!(join_with(&parts, "::"), "a::b::c");
    assert_eq!(join_with(&parts, ""), "abc");
    assert_eq!(join_with(&vec!["a".to_string()], "::"), "a");
    assert_eq!(join_with(&Vec::new(), "::"), "");
    assert_eq!(join_with(&vec!["".to_string(), "".to_string()], "-"), "-");
}

#[test]
fn same_text_compares_characters() {
    assert!(same_text("", ""));
    assert!(same_text("abc", "abc"));
    assert!(!same_text("abc", "abd"));
    assert!(!same_text("abc", "ab"));
    assert!(!same_text("e\u{301}", "\u{e9}"));
}

#[test]
fn lexical_order_agrees_with_the_order_of_strings() {
    let samples = ["", "a", "ab", "b", "B", "a/b.toml", "a/c.toml", "z", "\u{e9}", "\u{1f600}", "aa"];
    for x in samples {
        for y in samples {
            assert_eq!(comes_before(x, y), x < y, "{x:?} {y:?}");
        }
    }
}
