use translatable::data::config::{SeekMode, TranslationOverlap};
use translatable::misc::language::Language;
use translatable::misc::templating::FormatString;
use translatable::translations::collection::{order_sources, RawSource, TranslationNodeCollection};
use translatable::translations::node::{TranslationBranch, TranslationNode, TranslationObject};

fn message(entries: &[(Language, &str)]) -> TranslationNode {
    let mut object = TranslationObject::new();
    for (language, text) in entries {
        object.insert(*language, FormatString::parse(text));
    }
    TranslationNode::Leaf(object)
}

fn namespace(children: Vec<(&str, TranslationNode)>) -> TranslationNode {
    let mut branch = TranslationBranch::new();
    for (key, node) in children {
        branch.insert(key.to_string(), node);
    }
    TranslationNode::Branch(branch)
}

fn source(relative_path: &str, entries: &[(Language, &str)]) -> RawSource {
    RawSource::new(
        relative_path.to_string(),
        namespace(vec![("section", namespace(vec![("hello", message(entries))]))]),
    )
}

fn hello(collection: &TranslationNodeCollection, language: Language) -> Option<String> {
    collection
        .find_path(&vec!["section".to_string(), "hello".to_string()])
        .and_then(|object| object.get(&language))
        .map(|text| text.template())
}

fn paths(sources: &[RawSource]) -> Vec<String> {
    sources.iter().map(|s| s.relative_path().to_string()).collect()
}

#[test]
fn empty_collection_finds_nothing() {
    let collection = TranslationNodeCollection::new();
    assert!(collection.find_path(&vec![]).is_none());
    assert!(collection.find_path(&vec!["a".to_string()]).is_none());
    let built = TranslationNodeCollection::build(&vec![], TranslationOverlap::Ignore).unwrap();
    assert!(built.find_path(&vec!["a".to_string()]).is_none());
}

#[test]
fn reads_are_repeatable() {
    let sources = vec![source("a.toml", &[(Language::EN, "hi")])];
    let collection = TranslationNodeCollection::build(&sources, TranslationOverlap::Ignore).unwrap();
    let path = vec!["section".to_string(), "hello".to_string()];
    let first = collection.find_path(&path).unwrap();
    for _ in 0..10 {
        let again = collection.find_path(&path).unwrap();
        assert!(std::ptr::eq(first, again));
        assert_eq!(hello(&collection, Language::EN).unwrap(), "hi");
    }
}

#[test]
fn overwrite_takes_the_later_source() {
    let a = source("a.toml", &[(Language::EN, "a-en"), (Language::ES, "a-es")]);
    let b = source("b.toml", &[(Language::ES, "b-es"), (Language::FR, "b-fr")]);
    let ab = TranslationNodeCollection::build(&vec![a.clone(), b.clone()], TranslationOverlap::Overwrite)
        .unwrap();
    assert_eq!(hello(&ab, Language::EN).unwrap(), "a-en");
    assert_eq!(hello(&ab, Language::ES).unwrap(), "b-es");
    assert_eq!(hello(&ab, Language::FR).unwrap(), "b-fr");
    let ba = TranslationNodeCollection::build(&vec![b, a], TranslationOverlap::Overwrite).unwrap();
    assert_eq!(hello(&ba, Language::EN).unwrap(), "a-en");
    assert_eq!(hello(&ba, Language::ES).unwrap(), "a-es");
    assert_eq!(hello(&ba, Language::FR).unwrap(), "b-fr");
}

#[test]
fn ignore_keeps_the_earlier_source() {
    let a = source("a.toml", &[(Language::EN, "a-en"), (Language::ES, "a-es")]);
    let b = source("b.toml", &[(Language::ES, "b-es"), (Language::FR, "b-fr")]);
    let ab = TranslationNodeCollection::build(&vec![a.clone(), b.clone()], TranslationOverlap::Ignore)
        .unwrap();
    assert_eq!(hello(&ab, Language::EN).unwrap(), "a-en");
    assert_eq!(hello(&ab, Language::ES).unwrap(), "a-es");
    assert_eq!(hello(&ab, Language::FR).unwrap(), "b-fr");
    let ba = TranslationNodeCollection::build(&vec![b, a], TranslationOverlap::Ignore).unwrap();
    assert_eq!(hello(&ba, Language::ES).unwrap(), "b-es");
    assert_eq!(hello(&ba, Language::EN).unwrap(), "a-en");
}

#[test]
fn three_sources_in_a_row() {
    let sources = vec![
        source("1.toml", &[(Language::EN, "one")]),
        source("2.toml", &[(Language::EN, "two"), (Language::ES, "dos")]),
        source("3.toml", &[(Language::EN, "three"), (Language::FR, "trois")]),
    ];
    let last = TranslationNodeCollection::build(&sources, TranslationOverlap::Overwrite).unwrap();
    assert_eq!(hello(&last, Language::EN).unwrap(), "three");
    assert_eq!(hello(&last, Language::ES).unwrap(), "dos");
    assert_eq!(hello(&last, Language::FR).unwrap(), "trois");
    let first = TranslationNodeCollection::build(&sources, TranslationOverlap::Ignore).unwrap();
    assert_eq!(hello(&first, Language::EN).unwrap(), "one");
    assert_eq!(hello(&first, Language::ES).unwrap(), "dos");
    assert_eq!(hello(&first, Language::FR).unwrap(), "trois");
    assert!(hello(&first, Language::DE).is_none());
}

#[test]
fn sources_are_ordered_by_relative_path() {
    let given = || {
        vec![
            source("b/x.toml", &[]),
            source("a.toml", &[]),
            source("c.toml", &[]),
            source("b.toml", &[]),
            source("B.toml", &[]),
        ]
    };
    assert_eq!(
        paths(&order_sources(given(), SeekMode::Alphabetical)),
        vec!["B.toml", "a.toml", "b.toml", "b/x.toml", "c.toml"]
    );
    assert_eq!(
        paths(&order_sources(given(), SeekMode::Unalphabetical)),
        vec!["c.toml", "b/x.toml", "b.toml", "a.toml", "B.toml"]
    );
    assert!(order_sources(Vec::new(), SeekMode::Alphabetical).is_empty());
}

#[test]
fn ordering_keeps_every_source() {
    let given = vec![
        source("same.toml", &[(Language::EN, "1")]),
        source("other.toml", &[(Language::EN, "2")]),
        source("same.toml", &[(Language::EN, "3")]),
    ];
    let ordered = order_sources(given, SeekMode::Alphabetical);
    assert_eq!(paths(&ordered), vec!["other.toml", "same.toml", "same.toml"]);
    let mut texts: Vec<String> = ordered
        .iter()
        .map(|s| {
            s.root()
                .find_path(&vec!["section".to_string(), "hello".to_string()])
                .unwrap()
                .get(&Language::EN)
                .unwrap()
                .template()
        })
        .collect();
    texts.sort();
    assert_eq!(texts, vec!["1", "2", "3"]);
}

#[test]
fn seek_mode_decides_which_source_wins() {
    let given = || {
        vec![
            source("b.toml", &[(Language::EN, "from b")]),
            source("a.toml", &[(Language::EN, "from a")]),
        ]
    };
    let load = |mode, overlap| hello(&TranslationNodeCollection::load(given(), mode, overlap).unwrap(), Language::EN).unwrap();
    assert_eq!(load(SeekMode::Alphabetical, TranslationOverlap::Overwrite), "from b");
    assert_eq!(load(SeekMode::Alphabetical, TranslationOverlap::Ignore), "from a");
    assert_eq!(load(SeekMode::Unalphabetical, TranslationOverlap::Overwrite), "from a");
    assert_eq!(load(SeekMode::Unalphabetical, TranslationOverlap::Ignore), "from b");
}

#[test]
fn conflict_names_both_sources() {
    let sources = vec![
        RawSource::new("a.toml".to_string(), namespace(vec![("other", message(&[]))])),
        RawSource::new(
            "b.toml".to_string(),
            namespace(vec![("x", namespace(vec![("y", message(&[(Language::EN, "leaf")]))]))]),
        ),
        RawSource::new("c.toml".to_string(), namespace(vec![("x", namespace(vec![]))])),
        RawSource::new(
            "d.toml".to_string(),
            namespace(vec![("x", namespace(vec![("y", namespace(vec![]))]))]),
        ),
    ];
    let error = TranslationNodeCollection::build(&sources, TranslationOverlap::Overwrite).unwrap_err();
    assert_eq!(error.path, vec!["x".to_string(), "y".to_string()]);
    assert!(error.existing_is_leaf);
    assert_eq!(error.incoming_index, 3);
    assert_eq!(error.incoming_source, "d.toml");
    assert_eq!(error.existing_index, Some(1));
    assert_eq!(error.existing_source, Some("b.toml".to_string()));
}

#[test]
fn source_that_is_a_message_conflicts_at_the_root() {
    let sources = vec![RawSource::new("a.toml".to_string(), message(&[(Language::EN, "x")]))];
    let error = TranslationNodeCollection::build(&sources, TranslationOverlap::Ignore).unwrap_err();
    assert!(error.path.is_empty());
    assert!(!error.existing_is_leaf);
    assert_eq!(error.incoming_index, 0);
    assert_eq!(error.incoming_source, "a.toml");
    assert_eq!(error.existing_index, None);
    assert_eq!(error.existing_source, None);
}

#[test]
fn structure_does_not_depend_on_the_order() {
    let a = RawSource::new(
        "a.toml".to_string(),
        namespace(vec![("x", namespace(vec![("one", message(&[(Language::EN, "1")]))]))]),
    );
    let b = RawSource::new(
        "b.toml".to_string(),
        namespace(vec![
            ("x", namespace(vec![("two", message(&[(Language::EN, "2")]))])),
            ("y", message(&[(Language::EN, "3")])),
        ]),
    );
    for sources in [vec![a.clone(), b.clone()], vec![b, a]] {
        for policy in [TranslationOverlap::Overwrite, TranslationOverlap::Ignore] {
            let collection = TranslationNodeCollection::build(&sources, policy).unwrap();
            for (path, present) in [
                (vec!["x", "one"], true),
                (vec!["x", "two"], true),
                (vec!["y"], true),
                (vec!["x"], false),
                (vec!["z"], false),
            ] {
                let path: Vec<String> = path.iter().map(|s| s.to_string()).collect();
                assert_eq!(collection.find_path(&path).is_some(), present);
            }
            assert!(collection.root().node_at(&vec!["x".to_string()]).is_some());
            assert!(collection.clone().find_path(&vec!["y".to_string()]).is_some());
        }
    }
}
