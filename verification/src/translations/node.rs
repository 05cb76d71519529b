//! Messages and namespaces.
//!
//! A [`TranslationObject`] holds the renderings of one message, one per
//! language. A [`TranslationNode`] is either such a message or a namespace
//! that maps key segments to further nodes.

use vstd::prelude::*;
use crate::data::config::TranslationOverlap;
use crate::misc::assoc::{
    assoc_map,
    lemma_assoc_domain,
    lemma_assoc_lookup,
    lemma_assoc_push,
    lemma_assoc_update,
};
use crate::misc::language::Language;
use crate::misc::templating::{FormatString, Piece};
use crate::misc::text::{same_text, texts};

verus! {

/// What contracts say of a message: the template of each language that it
/// is written in.
pub type ObjectModel = Map<Language, Seq<Piece>>;

/// What contracts say of a node of the tree.
pub enum NodeModel {
    /// A message.
    Leaf(ObjectModel),
    /// A namespace: the nodes below it, by key segment.
    Branch(Map<Seq<char>, NodeModel>),
}

impl NodeModel {
    /// The node that `path` leads to, one segment per namespace level.
    /// There is none when a segment is not a key of the namespace reached,
    /// or when a message is reached before the path ends.
    pub open spec fn node_at(self, path: Seq<Seq<char>>) -> Option<NodeModel>
        decreases path.len(),
    {
        if path.len() == 0 {
            Some(self)
        } else {
            match self {
                NodeModel::Leaf(_) => None,
                NodeModel::Branch(children) => if children.contains_key(path[0]) {
                    children[path[0]].node_at(path.drop_first())
                } else {
                    None
                },
            }
        }
    }

    /// The message at exactly `path`. There is none when the path leads
    /// nowhere or ends on a namespace.
    pub open spec fn find(self, path: Seq<Seq<char>>) -> Option<ObjectModel> {
        match self.node_at(path) {
            Some(NodeModel::Leaf(object)) => Some(object),
            _ => None,
        }
    }
}

/// The renderings of a message after `incoming` was merged into
/// `existing`. Each language of either side is there. Where both sides have
/// a language, `Overwrite` takes the incoming rendering and `Ignore` keeps
/// the existing one.
pub open spec fn merged_object(
    existing: ObjectModel,
    incoming: ObjectModel,
    policy: TranslationOverlap,
) -> ObjectModel {
    match policy {
        TranslationOverlap::Overwrite => existing.union_prefer_right(incoming),
        TranslationOverlap::Ignore => incoming.union_prefer_right(existing),
    }
}

/// Whether the two trees clash at `path`: both have a node there, and one
/// is a message where the other is a namespace.
pub open spec fn is_conflict(a: NodeModel, b: NodeModel, path: Seq<Seq<char>>) -> bool {
    match (a.node_at(path), b.node_at(path)) {
        (Some(x), Some(y)) => (x is Leaf) != (y is Leaf),
        _ => false,
    }
}

/// Whether the two trees can be merged: they clash nowhere.
pub open spec fn compatible(a: NodeModel, b: NodeModel) -> bool {
    forall|path: Seq<Seq<char>>| !is_conflict(a, b, path)
}

/// Whether the namespaces can be merged: the nodes under each key that
/// both have can be.
pub open spec fn children_compatible(
    a: Map<Seq<char>, NodeModel>,
    b: Map<Seq<char>, NodeModel>,
) -> bool {
    forall|key: Seq<char>|
        a.contains_key(key) && b.contains_key(key) ==> compatible(#[trigger] a[key], b[key])
}

/// The tree after `incoming` was merged into `existing`; meaningful for
/// trees that can be merged. Two messages merge by `merged_object`. A
/// namespace keeps every key of either side: a key of one side only keeps
/// its whole subtree, and under a key of both the subtrees are merged.
pub open spec fn merged(existing: NodeModel, incoming: NodeModel, policy: TranslationOverlap)
    -> NodeModel
    decreases existing,
{
    match (existing, incoming) {
        (NodeModel::Leaf(x), NodeModel::Leaf(y)) => NodeModel::Leaf(merged_object(x, y, policy)),
        (NodeModel::Branch(x), NodeModel::Branch(y)) => NodeModel::Branch(
            Map::new(
                |key: Seq<char>| x.contains_key(key) || y.contains_key(key),
                |key: Seq<char>|
                    if x.contains_key(key) && y.contains_key(key) {
                        merged(x[key], y[key], policy)
                    } else if x.contains_key(key) {
                        x[key]
                    } else {
                        y[key]
                    },
            ),
        ),
        _ => existing,
    }
}

/// The namespace after `incoming` was merged into `existing`.
pub open spec fn merged_children(
    existing: Map<Seq<char>, NodeModel>,
    incoming: Map<Seq<char>, NodeModel>,
    policy: TranslationOverlap,
) -> Map<Seq<char>, NodeModel> {
    merged(NodeModel::Branch(existing), NodeModel::Branch(incoming), policy)->Branch_0
}

spec fn languages_of(entries: Seq<(Language, FormatString)>) -> Seq<Language> {
    Seq::new(entries.len(), |i: int| entries[i].0)
}

spec fn templates_of(entries: Seq<(Language, FormatString)>) -> Seq<Seq<Piece>> {
    Seq::new(entries.len(), |i: int| entries[i].1@)
}

/// All known renderings of one message: at most one per language.
#[derive(Debug)]
pub struct TranslationObject {
    entries: Vec<(Language, FormatString)>,
}

impl View for TranslationObject {
    type V = ObjectModel;

    closed spec fn view(&self) -> ObjectModel {
        assoc_map(languages_of(self.entries@), templates_of(self.entries@))
    }
}

impl TranslationObject {
    #[verifier::type_invariant]
    spec fn languages_are_distinct(self) -> bool {
        languages_of(self.entries@).no_duplicates()
    }

    /// A message without any rendering.
    pub fn new() -> (r: TranslationObject)
        ensures
            r@ == Map::<Language, Seq<Piece>>::empty(),
    {
        let r = TranslationObject { entries: Vec::new() };
        assert(r@ =~= Map::<Language, Seq<Piece>>::empty());
        r
    }

    fn position(&self, language: Language) -> (r: Option<usize>)
        ensures
            match r {
                Some(i) => i < self.entries@.len() && languages_of(self.entries@)[i as int]
                    == language,
                None => !languages_of(self.entries@).contains(language),
            },
    {
        let mut i: usize = 0;
        while i < self.entries.len()
            invariant
                i <= self.entries.len(),
                forall|j: int| 0 <= j < i ==> languages_of(self.entries@)[j] != language,
            decreases self.entries.len() - i,
        {
            if self.entries[i].0 == language {
                return Some(i);
            }
            i = i + 1;
        }
        None
    }

    /// The rendering in exactly `language`, if the message has one.
    pub fn get(&self, language: &Language) -> (r: Option<&FormatString>)
        ensures
            match r {
                Some(text) => self@.contains_key(*language) && self@[*language] == text@,
                None => !self@.contains_key(*language),
            },
    {
        proof {
            use_type_invariant(self);
        }
        match self.position(*language) {
            Some(i) => {
                proof {
                    lemma_assoc_lookup(
                        languages_of(self.entries@),
                        templates_of(self.entries@),
                        i as int,
                    );
                }
                Some(&self.entries[i].1)
            },
            None => None,
        }
    }

    /// Whether the message has a rendering in `language`.
    pub fn contains(&self, language: &Language) -> (r: bool)
        ensures
            r == self@.contains_key(*language),
    {
        self.get(language).is_some()
    }

    /// Sets the rendering in `language`, in place of any earlier one.
    pub fn insert(&mut self, language: Language, text: FormatString)
        ensures
            final(self)@ == old(self)@.insert(language, text@),
    {
        proof {
            use_type_invariant(&*self);
        }
        let ghost languages = languages_of(self.entries@);
        let ghost templates = templates_of(self.entries@);
        let found = self.position(language);
        let mut entries: Vec<(Language, FormatString)> = Vec::new();
        std::mem::swap(&mut entries, &mut self.entries);
        match found {
            Some(i) => {
                entries[i].1 = text;
                proof {
                    assert(languages_of(entries@) =~= languages);
                    assert(templates_of(entries@) =~= templates.update(i as int, text@));
                    lemma_assoc_update(languages, templates, i as int, text@);
                }
            },
            None => {
                entries.push((language, text));
                proof {
                    assert(languages_of(entries@) =~= languages.push(language));
                    assert(templates_of(entries@) =~= templates.push(text@));
                    lemma_assoc_push(languages, templates, language, text@);
                }
            },
        }
        self.entries = entries;
    }

    /// The number of languages the message is written in.
    pub fn len(&self) -> (n: usize)
        ensures
            n == self@.dom().len(),
            self@.dom().finite(),
    {
        proof {
            use_type_invariant(self);
            lemma_assoc_domain(languages_of(self.entries@), templates_of(self.entries@));
            languages_of(self.entries@).unique_seq_to_set();
        }
        self.entries.len()
    }

    /// The languages the message is written in, each once.
    pub fn languages(&self) -> (r: Vec<Language>)
        ensures
            r@.no_duplicates(),
            r@.to_set() == self@.dom(),
    {
        proof {
            use_type_invariant(self);
            lemma_assoc_domain(languages_of(self.entries@), templates_of(self.entries@));
        }
        let mut out: Vec<Language> = Vec::new();
        let mut i: usize = 0;
        while i < self.entries.len()
            invariant
                i <= self.entries.len(),
                out@ == languages_of(self.entries@).take(i as int),
            decreases self.entries.len() - i,
        {
            out.push(self.entries[i].0);
            assert(out@ =~= languages_of(self.entries@).take(i + 1));
            i = i + 1;
        }
        assert(out@ =~= languages_of(self.entries@));
        out
    }

    /// Merges the renderings of `incoming` into this message. Each language
    /// of either side is kept. Where both have a language, `Overwrite`
    /// takes the incoming rendering and `Ignore` keeps the existing one.
    pub fn merge(self, incoming: TranslationObject, policy: TranslationOverlap) -> (r:
        TranslationObject)
        ensures
            r@ == merged_object(self@, incoming@, policy),
    {
        proof {
            use_type_invariant(&incoming);
        }
        let ghost base = self@;
        let ghost languages = languages_of(incoming.entries@);
        let ghost templates = templates_of(incoming.entries@);
        let mut result = self;
        let TranslationObject { entries } = incoming;
        let ghost given = entries@;
        assert(assoc_map(languages.take(0), templates.take(0)) =~= Map::<
            Language,
            Seq<Piece>,
        >::empty());
        assert(result@ =~= merged_object(
            base,
            assoc_map(languages.take(0), templates.take(0)),
            policy,
        ));
        for entry in it: entries
            invariant
                it.seq() == given,
                languages == languages_of(given),
                templates == templates_of(given),
                languages.no_duplicates(),
                result@ == merged_object(
                    base,
                    assoc_map(languages.take(it.index()), templates.take(it.index())),
                    policy,
                ),
        {
            let ghost done = it.index();
            let (language, text) = entry;
            proof {
                assert(language == languages[done]);
                assert(text@ == templates[done]);
                assert(languages.take(done + 1) =~= languages.take(done).push(language));
                assert(templates.take(done + 1) =~= templates.take(done).push(text@));
                assert(!languages.take(done).contains(language)) by {
                    if languages.take(done).contains(language) {
                        let j = languages.take(done).index_of(language);
                        assert(languages[j] == languages[done]);
                    }
                }
                assert(languages.take(done).no_duplicates());
                lemma_assoc_push(languages.take(done), templates.take(done), language, text@);
            }
            match policy {
                TranslationOverlap::Overwrite => {
                    result.insert(language, text);
                },
                TranslationOverlap::Ignore => {
                    if !result.contains(&language) {
                        result.insert(language, text);
                    }
                },
            }
            assert(result@ =~= merged_object(
                base,
                assoc_map(languages.take(done + 1), templates.take(done + 1)),
                policy,
            ));
        }
        assert(languages.take(languages.len() as int) =~= languages);
        assert(templates.take(templates.len() as int) =~= templates);
        result
    }
}

/// A clash found while merging: at `path` one tree has a message where the
/// other has a namespace.
#[derive(Debug)]
pub struct MergeConflict {
    /// The key segments that lead to the clash, outermost first.
    pub path: Vec<String>,
    /// Whether the message is on the side that was merged into; the
    /// namespace is then on the incoming side.
    pub existing_is_leaf: bool,
}

spec fn keys_of(entries: Seq<(String, TranslationNode)>) -> Seq<Seq<char>> {
    Seq::new(entries.len(), |i: int| entries[i].0@)
}

spec fn models_of(entries: Seq<(String, TranslationNode)>) -> Seq<NodeModel> {
    Seq::new(entries.len(), |i: int| entries[i].1.model())
}

/// A namespace: the nodes below one level of the tree, each under its own
/// key segment.
#[derive(Debug)]
pub struct TranslationBranch {
    entries: Vec<(String, TranslationNode)>,
}

/// One level of the translation tree.
#[derive(Debug)]
pub enum TranslationNode {
    /// A message.
    Leaf(TranslationObject),
    /// A namespace.
    Branch(TranslationBranch),
}

impl TranslationNode {
    /// The tree as contracts see it.
    pub closed spec fn model(self) -> NodeModel
        decreases self,
    {
        match self {
            TranslationNode::Leaf(object) => NodeModel::Leaf(object@),
            TranslationNode::Branch(branch) => NodeModel::Branch(
                assoc_map(
                    keys_of(branch.entries@),
                    Seq::new(
                        branch.entries@.len(),
                        |i: int|
                            if 0 <= i < branch.entries@.len() {
                                branch.entries@[i].1.model()
                            } else {
                                NodeModel::Leaf(Map::empty())
                            },
                    ),
                ),
            ),
        }
    }
}

impl View for TranslationNode {
    type V = NodeModel;

    open spec fn view(&self) -> NodeModel {
        self.model()
    }
}

impl View for TranslationBranch {
    type V = Map<Seq<char>, NodeModel>;

    closed spec fn view(&self) -> Map<Seq<char>, NodeModel> {
        assoc_map(keys_of(self.entries@), models_of(self.entries@))
    }
}

/// A message is seen as a leaf holding its renderings, a namespace as a
/// branch holding its children.
pub proof fn lemma_node_view(node: TranslationNode)
    ensures
        node matches TranslationNode::Leaf(object) ==> node@ == NodeModel::Leaf(object@),
        node matches TranslationNode::Branch(branch) ==> node@ == NodeModel::Branch(branch@),
{
    if let TranslationNode::Branch(branch) = node {
        let keys = keys_of(branch.entries@);
        assert(node.model() is Branch);
        let children = node.model()->Branch_0;
        assert forall|key: Seq<char>| keys.contains(key) implies #[trigger] children[key]
            == branch@[key] by {
            let i = keys.index_of(key);
            assert(0 <= i < branch.entries@.len());
        }
        assert(children =~= branch@);
    }
}

fn position_of(entries: &Vec<(String, TranslationNode)>, key: &str) -> (r: Option<usize>)
    ensures
        match r {
            Some(i) => i < entries@.len() && keys_of(entries@)[i as int] == key@,
            None => !keys_of(entries@).contains(key@),
        },
{
    let mut i: usize = 0;
    while i < entries.len()
        invariant
            i <= entries.len(),
            forall|j: int| 0 <= j < i ==> keys_of(entries@)[j] != key@,
        decreases entries.len() - i,
    {
        if same_text(entries[i].0.as_str(), key) {
            return Some(i);
        }
        i = i + 1;
    }
    None
}

impl TranslationBranch {
    #[verifier::type_invariant]
    spec fn keys_are_distinct(self) -> bool {
        keys_of(self.entries@).no_duplicates()
    }

    /// A namespace without children.
    pub fn new() -> (r: TranslationBranch)
        ensures
            r@ == Map::<Seq<char>, NodeModel>::empty(),
    {
        let r = TranslationBranch { entries: Vec::new() };
        assert(r@ =~= Map::<Seq<char>, NodeModel>::empty());
        r
    }

    /// The node under `key`, if the namespace has one.
    pub fn get(&self, key: &str) -> (r: Option<&TranslationNode>)
        ensures
            match r {
                Some(node) => self@.contains_key(key@) && self@[key@] == node@,
                None => !self@.contains_key(key@),
            },
    {
        proof {
            use_type_invariant(self);
        }
        match position_of(&self.entries, key) {
            Some(i) => {
                proof {
                    lemma_assoc_lookup(keys_of(self.entries@), models_of(self.entries@), i as int);
                }
                Some(&self.entries[i].1)
            },
            None => None,
        }
    }

    /// Puts `node` under `key`, in place of any node that was there.
    pub fn insert(&mut self, key: String, node: TranslationNode)
        ensures
            final(self)@ == old(self)@.insert(key@, node@),
    {
        proof {
            use_type_invariant(&*self);
        }
        let ghost keys = keys_of(self.entries@);
        let ghost models = models_of(self.entries@);
        let found = position_of(&self.entries, key.as_str());
        let mut entries: Vec<(String, TranslationNode)> = Vec::new();
        std::mem::swap(&mut entries, &mut self.entries);
        match found {
            Some(i) => {
                entries[i].1 = node;
                proof {
                    assert(keys_of(entries@) =~= keys);
                    assert(models_of(entries@) =~= models.update(i as int, node@));
                    lemma_assoc_update(keys, models, i as int, node@);
                }
            },
            None => {
                entries.push((key, node));
                proof {
                    assert(keys_of(entries@) =~= keys.push(key@));
                    assert(models_of(entries@) =~= models.push(node@));
                    lemma_assoc_push(keys, models, key@, node@);
                }
            },
        }
        self.entries = entries;
    }

    /// The number of children.
    pub fn len(&self) -> (n: usize)
        ensures
            n == self@.dom().len(),
            self@.dom().finite(),
    {
        proof {
            use_type_invariant(self);
            lemma_assoc_domain(keys_of(self.entries@), models_of(self.entries@));
            keys_of(self.entries@).unique_seq_to_set();
        }
        self.entries.len()
    }

    /// The keys of the children, each once.
    pub fn keys(&self) -> (r: Vec<String>)
        ensures
            texts(r@).no_duplicates(),
            texts(r@).to_set() == self@.dom(),
    {
        proof {
            use_type_invariant(self);
            lemma_assoc_domain(keys_of(self.entries@), models_of(self.entries@));
        }
        let mut out: Vec<String> = Vec::new();
        let mut i: usize = 0;
        while i < self.entries.len()
            invariant
                i <= self.entries.len(),
                texts(out@) == keys_of(self.entries@).take(i as int),
            decreases self.entries.len() - i,
        {
            let ghost before = texts(out@);
            let key = self.entries[i].0.clone();
            out.push(key);
            assert(texts(out@) =~= before.push(key@));
            assert(keys_of(self.entries@).take(i + 1) =~= before.push(key@));
            i = i + 1;
        }
        assert(texts(out@) =~= keys_of(self.entries@));
        out
    }
}

impl TranslationNode {
    /// The node that `path` leads to, one segment per namespace level.
    /// There is none when a segment is missing or when a message is reached
    /// before the path ends.
    pub fn node_at(&self, path: &Vec<String>) -> (r: Option<&TranslationNode>)
        ensures
            match r {
                Some(node) => self@.node_at(texts(path@)) == Some(node@),
                None => self@.node_at(texts(path@)) is None,
            },
    {
        let ghost full = texts(path@);
        let mut node = self;
        let mut i: usize = 0;
        assert(full.skip(0) =~= full);
        while i < path.len()
            invariant
                i <= path.len(),
                full == texts(path@),
                self@.node_at(full) == node@.node_at(full.skip(i as int)),
            decreases path.len() - i,
        {
            let ghost rest = full.skip(i as int);
            proof {
                assert(rest.len() > 0);
                assert(rest[0] == path@[i as int]@);
                assert(rest.drop_first() =~= full.skip(i + 1));
                lemma_node_view(*node);
            }
            match node {
                TranslationNode::Leaf(_) => {
                    return None;
                },
                TranslationNode::Branch(branch) => {
                    match branch.get(path[i].as_str()) {
                        Some(child) => {
                            node = child;
                        },
                        None => {
                            return None;
                        },
                    }
                },
            }
            i = i + 1;
        }
        assert(full.skip(i as int).len() == 0);
        Some(node)
    }

    /// The message at exactly `path`, one segment per namespace level.
    /// There is none when a segment is missing, when a message is reached
    /// before the path ends, or when the path ends on a namespace.
    pub fn find_path(&self, path: &Vec<String>) -> (r: Option<&TranslationObject>)
        ensures
            match r {
                Some(object) => self@.find(texts(path@)) == Some(object@),
                None => self@.find(texts(path@)) is None,
            },
    {
        match self.node_at(path) {
            Some(node) => {
                proof {
                    lemma_node_view(*node);
                }
                match node {
                    TranslationNode::Leaf(object) => Some(object),
                    TranslationNode::Branch(_) => None,
                }
            },
            None => None,
        }
    }
}

/// Whether `conflict` names a clash between the two trees, and says
/// rightly on which side the message is.
pub open spec fn describes_conflict(a: NodeModel, b: NodeModel, conflict: MergeConflict) -> bool {
    &&& is_conflict(a, b, texts(conflict.path@))
    &&& conflict.existing_is_leaf == (a.node_at(texts(conflict.path@)) matches Some(
        NodeModel::Leaf(_),
    ))
}

/// Two messages never clash.
pub proof fn lemma_leaves_compatible(x: ObjectModel, y: ObjectModel)
    ensures
        compatible(NodeModel::Leaf(x), NodeModel::Leaf(y)),
{
}

/// Two namespaces can be merged when the nodes under each shared key can
/// be, and only then.
pub proof fn lemma_branches_compatible(x: Map<Seq<char>, NodeModel>, y: Map<Seq<char>, NodeModel>)
    ensures
        children_compatible(x, y) <==> compatible(NodeModel::Branch(x), NodeModel::Branch(y)),
{
    let a = NodeModel::Branch(x);
    let b = NodeModel::Branch(y);
    if children_compatible(x, y) {
        assert forall|path: Seq<Seq<char>>| !is_conflict(a, b, path) by {
            if path.len() > 0 && x.contains_key(path[0]) && y.contains_key(path[0]) {
                assert(compatible(x[path[0]], y[path[0]]));
                assert(!is_conflict(x[path[0]], y[path[0]], path.drop_first()));
            }
        }
    }
    if compatible(a, b) {
        assert forall|key: Seq<char>| x.contains_key(key) && y.contains_key(key) implies compatible(
            #[trigger] x[key],
            y[key],
        ) by {
            assert forall|path: Seq<Seq<char>>| !is_conflict(x[key], y[key], path) by {
                let longer = seq![key] + path;
                assert(longer[0] == key);
                assert(longer.drop_first() =~= path);
                assert(!is_conflict(a, b, longer));
            }
        }
    }
}

/// A clash below a shared key is a clash of the namespaces, at the path
/// that begins with that key.
pub proof fn lemma_conflict_below(
    x: Map<Seq<char>, NodeModel>,
    y: Map<Seq<char>, NodeModel>,
    key: Seq<char>,
    path: Seq<Seq<char>>,
)
    requires
        x.contains_key(key),
        y.contains_key(key),
    ensures
        NodeModel::Branch(x).node_at(seq![key] + path) == x[key].node_at(path),
        NodeModel::Branch(y).node_at(seq![key] + path) == y[key].node_at(path),
        is_conflict(NodeModel::Branch(x), NodeModel::Branch(y), seq![key] + path) == is_conflict(
            x[key],
            y[key],
            path,
        ),
{
    let longer = seq![key] + path;
    assert(longer[0] == key);
    assert(longer.drop_first() =~= path);
}

proof fn lemma_merge_adds_key(
    base: Map<Seq<char>, NodeModel>,
    done: Map<Seq<char>, NodeModel>,
    key: Seq<char>,
    node: NodeModel,
    policy: TranslationOverlap,
)
    requires
        !base.contains_key(key),
        !done.contains_key(key),
        children_compatible(base, done),
    ensures
        children_compatible(base, done.insert(key, node)),
        merged_children(base, done.insert(key, node), policy) == merged_children(
            base,
            done,
            policy,
        ).insert(key, node),
{
    let after = done.insert(key, node);
    assert forall|k: Seq<char>| base.contains_key(k) && after.contains_key(k) implies compatible(
        #[trigger] base[k],
        after[k],
    ) by {
        assert(compatible(base[k], done[k]));
    }
    assert(merged_children(base, after, policy) =~= merged_children(base, done, policy).insert(
        key,
        node,
    ));
}

proof fn lemma_merge_joins_key(
    base: Map<Seq<char>, NodeModel>,
    done: Map<Seq<char>, NodeModel>,
    key: Seq<char>,
    node: NodeModel,
    policy: TranslationOverlap,
)
    requires
        base.contains_key(key),
        !done.contains_key(key),
        children_compatible(base, done),
        compatible(base[key], node),
    ensures
        children_compatible(base, done.insert(key, node)),
        merged_children(base, done.insert(key, node), policy) == merged_children(
            base,
            done,
            policy,
        ).insert(key, merged(base[key], node, policy)),
        merged_children(base, done, policy)[key] == base[key],
{
    let after = done.insert(key, node);
    assert forall|k: Seq<char>| base.contains_key(k) && after.contains_key(k) implies compatible(
        #[trigger] base[k],
        after[k],
    ) by {
        if k != key {
            assert(compatible(base[k], done[k]));
        }
    }
    assert(merged_children(base, after, policy) =~= merged_children(base, done, policy).insert(
        key,
        merged(base[key], node, policy),
    ));
}

impl TranslationBranch {
    /// Merges the children of `incoming` into this namespace. A key that
    /// only one side has keeps its whole subtree; under a key of both the
    /// two nodes are merged. Fails with a clash where one side has a
    /// message and the other a namespace at the same path.
    pub fn merge(self, incoming: TranslationBranch, policy: TranslationOverlap) -> (r: Result<
        TranslationBranch,
        MergeConflict,
    >)
        ensures
            match r {
                Ok(branch) => children_compatible(self@, incoming@) && branch@ == merged_children(
                    self@,
                    incoming@,
                    policy,
                ),
                Err(conflict) => describes_conflict(
                    NodeModel::Branch(self@),
                    NodeModel::Branch(incoming@),
                    conflict,
                ),
            },
        decreases incoming,
    {
        proof {
            use_type_invariant(&self);
            use_type_invariant(&incoming);
        }
        let ghost base = self@;
        let ghost added = incoming@;
        let ghost whole = incoming;
        let TranslationBranch { entries: mut entries } = self;
        let TranslationBranch { entries: incoming_entries } = incoming;
        let ghost given = incoming_entries@;
        let ghost keys = keys_of(given);
        let ghost models = models_of(given);
        proof {
            assert(assoc_map(keys.take(0), models.take(0)) =~= Map::<
                Seq<char>,
                NodeModel,
            >::empty());
            assert(merged_children(base, Map::<Seq<char>, NodeModel>::empty(), policy) =~= base);
        }
        for entry in it: incoming_entries
            invariant
                it.seq() == given,
                whole == incoming,
                whole.entries@ == given,
                base == self@,
                added == incoming@,
                keys == keys_of(given),
                models == models_of(given),
                keys.no_duplicates(),
                added == assoc_map(keys, models),
                keys_of(entries@).no_duplicates(),
                children_compatible(
                    base,
                    assoc_map(keys.take(it.index()), models.take(it.index())),
                ),
                assoc_map(keys_of(entries@), models_of(entries@)) == merged_children(
                    base,
                    assoc_map(keys.take(it.index()), models.take(it.index())),
                    policy,
                ),
        {
            let ghost index = it.index();
            let ghost done = assoc_map(keys.take(index), models.take(index));
            let ghost current_keys = keys_of(entries@);
            let ghost current_models = models_of(entries@);
            let (key, child) = entry;
            proof {
                assert(key@ == keys[index]);
                assert(child@ == models[index]);
                assert(keys.take(index + 1) =~= keys.take(index).push(key@));
                assert(models.take(index + 1) =~= models.take(index).push(child@));
                assert(!keys.take(index).contains(key@)) by {
                    if keys.take(index).contains(key@) {
                        let j = keys.take(index).index_of(key@);
                        assert(keys[j] == keys[index]);
                    }
                }
                assert(keys.take(index).no_duplicates());
                lemma_assoc_push(keys.take(index), models.take(index), key@, child@);
                lemma_assoc_lookup(keys, models, index);
            }
            match position_of(&entries, key.as_str()) {
                None => {
                    proof {
                        assert(!assoc_map(current_keys, current_models).contains_key(key@));
                        assert(!base.contains_key(key@));
                        lemma_merge_adds_key(base, done, key@, child@, policy);
                        lemma_assoc_push(current_keys, current_models, key@, child@);
                    }
                    entries.push((key, child));
                    proof {
                        assert(keys_of(entries@) =~= current_keys.push(key@));
                        assert(models_of(entries@) =~= current_models.push(child@));
                    }
                },
                Some(i) => {
                    proof {
                        lemma_assoc_lookup(current_keys, current_models, i as int);
                    }
                    let (existing_key, current) = entries.remove(i);
                    proof {
                        assert(assoc_map(current_keys, current_models).contains_key(key@));
                        assert(base.contains_key(key@));
                        assert(merged_children(base, done, policy)[key@] == base[key@]);
                        assert(current@ == base[key@]);
                        vstd::std_specs::vec::axiom_vec_index_decreases(whole.entries, index);
                        assert(whole.entries[index].1 == child);
                        assert(decreases_to!(incoming => child));
                    }
                    match current.merge(child, policy) {
                        Ok(node) => {
                            proof {
                                lemma_merge_joins_key(base, done, key@, child@, policy);
                                lemma_assoc_update(current_keys, current_models, i as int, node@);
                            }
                            entries.insert(i, (existing_key, node));
                            proof {
                                assert(keys_of(entries@) =~= current_keys);
                                assert(models_of(entries@) =~= current_models.update(
                                    i as int,
                                    node@,
                                ));
                            }
                        },
                        Err(conflict) => {
                            let ghost below = texts(conflict.path@);
                            let existing_is_leaf = conflict.existing_is_leaf;
                            let mut path = conflict.path;
                            path.insert(0, key);
                            proof {
                                assert(texts(path@) =~= seq![key@] + below);
                                lemma_conflict_below(base, added, key@, below);
                            }
                            return Err(MergeConflict { path, existing_is_leaf });
                        },
                    }
                },
            }
        }
        proof {
            assert(keys.take(keys.len() as int) =~= keys);
            assert(models.take(models.len() as int) =~= models);
        }
        Ok(TranslationBranch { entries })
    }
}

impl TranslationNode {
    /// Merges `incoming` into this tree. Messages at the same path are
    /// merged language by language under `policy`; namespaces are merged
    /// key by key. Fails where one tree has a message and the other a
    /// namespace at the same path, and names that path.
    pub fn merge(self, incoming: TranslationNode, policy: TranslationOverlap) -> (r: Result<
        TranslationNode,
        MergeConflict,
    >)
        ensures
            match r {
                Ok(node) => compatible(self@, incoming@) && node@ == merged(
                    self@,
                    incoming@,
                    policy,
                ),
                Err(conflict) => describes_conflict(self@, incoming@, conflict),
            },
        decreases incoming,
    {
        proof {
            lemma_node_view(self);
            lemma_node_view(incoming);
        }
        match self {
            TranslationNode::Leaf(existing) => match incoming {
                TranslationNode::Leaf(added) => {
                    proof {
                        lemma_leaves_compatible(existing@, added@);
                    }
                    let object = existing.merge(added, policy);
                    let node = TranslationNode::Leaf(object);
                    proof {
                        lemma_node_view(node);
                    }
                    Ok(node)
                },
                TranslationNode::Branch(_) => {
                    let conflict = MergeConflict { path: Vec::new(), existing_is_leaf: true };
                    assert(texts(conflict.path@) =~= Seq::<Seq<char>>::empty());
                    Err(conflict)
                },
            },
            TranslationNode::Branch(existing) => match incoming {
                TranslationNode::Leaf(_) => {
                    let conflict = MergeConflict { path: Vec::new(), existing_is_leaf: false };
                    assert(texts(conflict.path@) =~= Seq::<Seq<char>>::empty());
                    Err(conflict)
                },
                TranslationNode::Branch(added) => {
                    proof {
                        lemma_branches_compatible(existing@, added@);
                    }
                    match existing.merge(added, policy) {
                        Ok(branch) => {
                            let node = TranslationNode::Branch(branch);
                            proof {
                                lemma_node_view(node);
                            }
                            Ok(node)
                        },
                        Err(conflict) => Err(conflict),
                    }
                },
            },
        }
    }
}

/// What is found at one path after a merge, from what the two trees had
/// there: the merged message where both had one, else the message of the
/// side that had one.
pub open spec fn found_after_merge(
    existing: Option<ObjectModel>,
    incoming: Option<ObjectModel>,
    policy: TranslationOverlap,
) -> Option<ObjectModel> {
    match (existing, incoming) {
        (Some(x), Some(y)) => Some(merged_object(x, y, policy)),
        (Some(x), None) => Some(x),
        (None, Some(y)) => Some(y),
        (None, None) => None,
    }
}

/// After a merge of two trees that do not clash, the node at any path is
/// the merge of the nodes that the two trees had there, or the node of the
/// one tree that had any.
pub proof fn lemma_merged_node_at(
    existing: NodeModel,
    incoming: NodeModel,
    policy: TranslationOverlap,
    path: Seq<Seq<char>>,
)
    requires
        compatible(existing, incoming),
    ensures
        merged(existing, incoming, policy).node_at(path) == match (
            existing.node_at(path),
            incoming.node_at(path),
        ) {
            (Some(x), Some(y)) => Some(merged(x, y, policy)),
            (Some(x), None) => Some(x),
            (None, Some(y)) => Some(y),
            (None, None) => None,
        },
    decreases path.len(),
{
    assert(!is_conflict(existing, incoming, Seq::<Seq<char>>::empty()));
    if path.len() > 0 {
        match (existing, incoming) {
            (NodeModel::Branch(x), NodeModel::Branch(y)) => {
                let key = path[0];
                if x.contains_key(key) && y.contains_key(key) {
                    lemma_branches_compatible(x, y);
                    lemma_merged_node_at(x[key], y[key], policy, path.drop_first());
                }
            },
            _ => {},
        }
    }
}

/// After a merge of two trees that do not clash, the message at any path
/// is what `found_after_merge` makes of the messages that the two trees
/// had there. In particular a message of both sides keeps every language of
/// either, and a path that neither side had stays empty.
pub proof fn lemma_merged_find(
    existing: NodeModel,
    incoming: NodeModel,
    policy: TranslationOverlap,
    path: Seq<Seq<char>>,
)
    requires
        compatible(existing, incoming),
    ensures
        merged(existing, incoming, policy).find(path) == found_after_merge(
            existing.find(path),
            incoming.find(path),
            policy,
        ),
{
    lemma_merged_node_at(existing, incoming, policy, path);
    assert(!is_conflict(existing, incoming, path));
}

/// Merging into a namespace without children gives the incoming namespace,
/// and never clashes.
pub proof fn lemma_merge_into_empty(incoming: Map<Seq<char>, NodeModel>, policy: TranslationOverlap)
    ensures
        compatible(NodeModel::Branch(Map::empty()), NodeModel::Branch(incoming)),
        merged(NodeModel::Branch(Map::empty()), NodeModel::Branch(incoming), policy)
            == NodeModel::Branch(incoming),
{
    let empty = Map::<Seq<char>, NodeModel>::empty();
    lemma_branches_compatible(empty, incoming);
    assert(merged_children(empty, incoming, policy) =~= incoming);
}

impl Clone for TranslationObject {
    /// A copy with the same rendering for each language.
    fn clone(&self) -> (r: TranslationObject)
        ensures
            r@ == self@,
    {
        proof {
            use_type_invariant(self);
        }
        let mut entries: Vec<(Language, FormatString)> = Vec::new();
        let mut i: usize = 0;
        while i < self.entries.len()
            invariant
                i <= self.entries.len(),
                languages_of(entries@) == languages_of(self.entries@).take(i as int),
                templates_of(entries@) == templates_of(self.entries@).take(i as int),
            decreases self.entries.len() - i,
        {
            let ghost languages = languages_of(entries@);
            let ghost templates = templates_of(entries@);
            let language = self.entries[i].0;
            let text = self.entries[i].1.clone();
            entries.push((language, text));
            proof {
                assert(languages_of(entries@) =~= languages.push(language));
                assert(templates_of(entries@) =~= templates.push(text@));
                assert(languages_of(self.entries@).take(i + 1) =~= languages.push(language));
                assert(templates_of(self.entries@).take(i + 1) =~= templates.push(text@));
            }
            i = i + 1;
        }
        proof {
            assert(languages_of(self.entries@).take(i as int) =~= languages_of(self.entries@));
            assert(templates_of(self.entries@).take(i as int) =~= templates_of(self.entries@));
        }
        TranslationObject { entries }
    }
}

impl TranslationBranch {
    fn duplicate(&self) -> (r: TranslationBranch)
        ensures
            r@ == self@,
        decreases self,
    {
        proof {
            use_type_invariant(self);
        }
        let mut entries: Vec<(String, TranslationNode)> = Vec::new();
        let mut i: usize = 0;
        while i < self.entries.len()
            invariant
                i <= self.entries.len(),
                keys_of(entries@) == keys_of(self.entries@).take(i as int),
                models_of(entries@) == models_of(self.entries@).take(i as int),
            decreases self.entries.len() - i,
        {
            let ghost keys = keys_of(entries@);
            let ghost models = models_of(entries@);
            let key = self.entries[i].0.clone();
            proof {
                vstd::std_specs::vec::axiom_vec_index_decreases(self.entries, i as int);
            }
            let node = self.entries[i].1.duplicate();
            entries.push((key, node));
            proof {
                assert(keys_of(entries@) =~= keys.push(key@));
                assert(models_of(entries@) =~= models.push(node@));
                assert(keys_of(self.entries@).take(i + 1) =~= keys.push(key@));
                assert(models_of(self.entries@).take(i + 1) =~= models.push(node@));
            }
            i = i + 1;
        }
        proof {
            assert(keys_of(self.entries@).take(i as int) =~= keys_of(self.entries@));
            assert(models_of(self.entries@).take(i as int) =~= models_of(self.entries@));
        }
        TranslationBranch { entries }
    }
}

impl TranslationNode {
    fn duplicate(&self) -> (r: TranslationNode)
        ensures
            r@ == self@,
        decreases self,
    {
        proof {
            lemma_node_view(*self);
        }
        let node = match self {
            TranslationNode::Leaf(object) => TranslationNode::Leaf(object.clone()),
            TranslationNode::Branch(branch) => TranslationNode::Branch(branch.duplicate()),
        };
        proof {
            lemma_node_view(node);
        }
        node
    }
}

impl Clone for TranslationBranch {
    /// A copy with an equal subtree under each key.
    fn clone(&self) -> (r: TranslationBranch)
        ensures
            r@ == self@,
    {
        self.duplicate()
    }
}

impl Clone for TranslationNode {
    /// A copy of the whole tree below this node.
    fn clone(&self) -> (r: TranslationNode)
        ensures
            r@ == self@,
    {
        self.duplicate()
    }
}

} // verus!
