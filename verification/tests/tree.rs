use translatable::data::config::TranslationOverlap;
use translatable::misc::language::Language;
use translatable::misc::replacements::Replacements;
use translatable::misc::templating::FormatString;
use translatable::translations::node::{TranslationBranch, TranslationNode, TranslationObject};

fn object_of(entries: &[(Language, &str)]) -> TranslationObject {
    let mut object = TranslationObject::new();
    for (language, text) in entries {
        object.insert(*language, FormatString::parse(text));
    }
    object
}

fn leaf_of(entries: &[(Language, &str)]) -> TranslationNode {
    TranslationNode::Leaf(object_of(entries))
}

fn branch_of(children: Vec<(&str, TranslationNode)>) -> TranslationNode {
    let mut branch = TranslationBranch::new();
    for (key, node) in children {
        branch.insert(key.to_string(), node);
    }
    TranslationNode::Branch(branch)
}

fn keys_to(path: &[&str]) -> Vec<String> {
    path.iter().map(|s| s.to_string()).collect()
}

fn text_at(node: &TranslationNode, path: &[&str], language: Language) -> Option<String> {
    node.find_path(&keys_to(path))
        .and_then(|object| object.get(&language))
        .map(|text| text.replace_with(&Replacements::new()).unwrap())
}

#[test]
fn object_holds_one_rendering_per_language() {
    let mut object = TranslationObject::new();
    assert_eq!(object.len(), 0);
    assert!(object.get(&Language::ES).is_none());
    object.insert(Language::ES, FormatString::parse("uno"));
    object.insert(Language::EN, FormatString::parse("one"));
    object.insert(Language::ES, FormatString::parse("dos"));
    assert_eq!(object.len(), 2);
    assert_eq!(object.get(&Language::ES).unwrap().template(), "dos");
    assert_eq!(object.get(&Language::EN).unwrap().template(), "one");
    assert!(object.contains(&Language::EN));
    assert!(!object.contains(&Language::FR));
    let mut languages = object.languages();
    languages.sort_by_key(|l| l.code());
    assert_eq!(languages, vec![Language::EN, Language::ES]);
}

#[test]
fn objects_merge_under_overwrite() {
    let merged = object_of(&[(Language::EN, "a-en"), (Language::ES, "a-es")]).merge(
        object_of(&[(Language::ES, "b-es"), (Language::FR, "b-fr")]),
        TranslationOverlap::Overwrite,
    );
    assert_eq!(merged.len(), 3);
    assert_eq!(merged.get(&Language::EN).unwrap().template(), "a-en");
    assert_eq!(merged.get(&Language::ES).unwrap().template(), "b-es");
    assert_eq!(merged.get(&Language::FR).unwrap().template(), "b-fr");
}

#[test]
fn objects_merge_under_ignore() {
    let merged = object_of(&[(Language::EN, "a-en"), (Language::ES, "a-es")]).merge(
        object_of(&[(Language::ES, "b-es"), (Language::FR, "b-fr")]),
        TranslationOverlap::Ignore,
    );
    assert_eq!(merged.len(), 3);
    assert_eq!(merged.get(&Language::EN).unwrap().template(), "a-en");
    assert_eq!(merged.get(&Language::ES).unwrap().template(), "a-es");
    assert_eq!(merged.get(&Language::FR).unwrap().template(), "b-fr");
}

#[test]
fn branch_holds_one_node_per_key() {
    let mut branch = TranslationBranch::new();
    assert_eq!(branch.len(), 0);
    branch.insert("a".to_string(), leaf_of(&[(Language::EN, "1")]));
    branch.insert("b".to_string(), leaf_of(&[(Language::EN, "2")]));
    branch.insert("a".to_string(), leaf_of(&[(Language::EN, "3")]));
    assert_eq!(branch.len(), 2);
    let mut keys = branch.keys();
    keys.sort();
    assert_eq!(keys, vec!["a".to_string(), "b".to_string()]);
    assert!(branch.get("c").is_none());
    match branch.get("a") {
        Some(TranslationNode::Leaf(object)) => {
            assert_eq!(object.get(&Language::EN).unwrap().template(), "3")
        }
        _ => panic!("no leaf under a"),
    }
}

#[test]
fn find_path_walks_one_segment_per_level() {
    let tree = branch_of(vec![
        ("greetings", branch_of(vec![("formal", leaf_of(&[(Language::EN, "Good day")]))])),
        ("bye", leaf_of(&[(Language::EN, "Bye")])),
    ]);
    assert_eq!(text_at(&tree, &["greetings", "formal"], Language::EN).unwrap(), "Good day");
    assert_eq!(text_at(&tree, &["bye"], Language::EN).unwrap(), "Bye");
    assert!(tree.find_path(&keys_to(&["greetings"])).is_none());
    assert!(tree.find_path(&keys_to(&[])).is_none());
    assert!(tree.find_path(&keys_to(&["greetings", "unknown"])).is_none());
    assert!(tree.find_path(&keys_to(&["bye", "formal"])).is_none());
    assert!(tree.find_path(&keys_to(&["formal"])).is_none());
    assert!(tree.find_path(&keys_to(&["greetings", "formal", "x"])).is_none());
    assert!(tree.node_at(&keys_to(&["greetings"])).is_some());
    assert!(tree.node_at(&keys_to(&[])).is_some());
    assert!(tree.node_at(&keys_to(&["bye", "x"])).is_none());
}

#[test]
fn find_path_on_a_leaf() {
    let leaf = leaf_of(&[(Language::EN, "x")]);
    assert!(leaf.find_path(&keys_to(&[])).is_some());
    assert!(leaf.find_path(&keys_to(&["a"])).is_none());
}

#[test]
fn trees_merge_key_by_key() {
    let a = branch_of(vec![
        ("shared", branch_of(vec![
            ("both", leaf_of(&[(Language::EN, "a-en"), (Language::ES, "a-es")])),
            ("only_a", leaf_of(&[(Language::EN, "only a")])),
        ])),
        ("left", leaf_of(&[(Language::EN, "left")])),
    ]);
    let b = branch_of(vec![
        ("shared", branch_of(vec![
            ("both", leaf_of(&[(Language::ES, "b-es"), (Language::FR, "b-fr")])),
            ("only_b", leaf_of(&[(Language::EN, "only b")])),
        ])),
        ("right", branch_of(vec![("deep", leaf_of(&[(Language::EN, "right")]))])),
    ]);
    let merged = a.clone().merge(b.clone(), TranslationOverlap::Overwrite).unwrap();
    assert_eq!(text_at(&merged, &["shared", "both"], Language::EN).unwrap(), "a-en");
    assert_eq!(text_at(&merged, &["shared", "both"], Language::ES).unwrap(), "b-es");
    assert_eq!(text_at(&merged, &["shared", "both"], Language::FR).unwrap(), "b-fr");
    assert_eq!(text_at(&merged, &["shared", "only_a"], Language::EN).unwrap(), "only a");
    assert_eq!(text_at(&merged, &["shared", "only_b"], Language::EN).unwrap(), "only b");
    assert_eq!(text_at(&merged, &["left"], Language::EN).unwrap(), "left");
    assert_eq!(text_at(&merged, &["right", "deep"], Language::EN).unwrap(), "right");

    let merged = a.merge(b, TranslationOverlap::Ignore).unwrap();
    assert_eq!(text_at(&merged, &["shared", "both"], Language::EN).unwrap(), "a-en");
    assert_eq!(text_at(&merged, &["shared", "both"], Language::ES).unwrap(), "a-es");
    assert_eq!(text_at(&merged, &["shared", "both"], Language::FR).unwrap(), "b-fr");
    assert_eq!(text_at(&merged, &["right", "deep"], Language::EN).unwrap(), "right");
}

#[test]
fn message_against_namespace_is_a_conflict() {
    let a = branch_of(vec![("x", branch_of(vec![("y", leaf_of(&[(Language::EN, "leaf")]))]))]);
    let b = branch_of(vec![(
        "x",
        branch_of(vec![("y", branch_of(vec![("z", leaf_of(&[(Language::EN, "deep")]))]))]),
    )]);
    let conflict = a.clone().merge(b.clone(), TranslationOverlap::Overwrite).unwrap_err();
    assert_eq!(conflict.path, vec!["x".to_string(), "y".to_string()]);
    assert!(conflict.existing_is_leaf);
    let conflict = b.merge(a, TranslationOverlap::Ignore).unwrap_err();
    assert_eq!(conflict.path, vec!["x".to_string(), "y".to_string()]);
    assert!(!conflict.existing_is_leaf);
}

#[test]
fn conflict_at_the_root() {
    let leaf = leaf_of(&[(Language::EN, "leaf")]);
    let branch = branch_of(vec![]);
    let conflict = leaf.clone().merge(branch.clone(), TranslationOverlap::Overwrite).unwrap_err();
    assert!(conflict.path.is_empty());
    assert!(conflict.existing_is_leaf);
    let conflict = branch.merge(leaf, TranslationOverlap::Overwrite).unwrap_err();
    assert!(conflict.path.is_empty());
    assert!(!conflict.existing_is_leaf);
}

#[test]
fn copy_of_a_tree_holds_the_same_messages() {
    let tree = branch_of(vec![("a", branch_of(vec![("b", leaf_of(&[(Language::EN, "x {y}")]))]))]);
    let copy = tree.clone();
    let found = copy.find_path(&keys_to(&["a", "b"])).unwrap();
    assert_eq!(found.get(&Language::EN).unwrap().template(), "x {y}");
    assert_eq!(found.clone().len(), 1);
}
