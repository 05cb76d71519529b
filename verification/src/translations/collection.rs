//! The merged corpus: every source folded into one tree, and the lookup of
//! messages in it.
//!
//! Sources are merged one after the other, each into what the earlier ones
//! gave. The seek mode decides the order; the overlap policy decides which
//! rendering stays where two sources define the same language of a message.

use vstd::multiset::Multiset;
use vstd::prelude::*;
use crate::data::config::{SeekMode, TranslationOverlap};
use crate::misc::text::{
    comes_before,
    lemma_precedes_irreflexive,
    lemma_precedes_total,
    lemma_precedes_transitive,
    precedes,
    precedes_or_same,
    texts,
};
use crate::translations::node::{
    compatible,
    describes_conflict,
    found_after_merge,
    is_conflict,
    lemma_merge_into_empty,
    lemma_merged_find,
    lemma_node_view,
    merged,
    merged_object,
    NodeModel,
    TranslationBranch,
    TranslationNode,
    TranslationObject,
};

verus! {

/// What contracts say of a source: where it was found and what it defines.
pub struct SourceModel {
    /// The file's path below the translation root.
    pub relative_path: Seq<char>,
    /// The tree that the file defines.
    pub root: NodeModel,
}

/// The tree of one translation file, not yet merged with any other.
#[derive(Debug)]
pub struct RawSource {
    relative_path: String,
    root: TranslationNode,
}

impl View for RawSource {
    type V = SourceModel;

    closed spec fn view(&self) -> SourceModel {
        SourceModel { relative_path: self.relative_path@, root: self.root@ }
    }
}

impl Clone for RawSource {
    /// A copy with the same path and an equal tree.
    fn clone(&self) -> (r: RawSource)
        ensures
            r@ == self@,
    {
        RawSource { relative_path: self.relative_path.clone(), root: self.root.clone() }
    }
}

impl RawSource {
    /// The source found at `relative_path` that defines `root`.
    pub fn new(relative_path: String, root: TranslationNode) -> (r: RawSource)
        ensures
            r@ == (SourceModel { relative_path: relative_path@, root: root@ }),
    {
        RawSource { relative_path, root }
    }

    /// The file's path below the translation root.
    pub fn relative_path(&self) -> (r: &str)
        ensures
            r@ == self@.relative_path,
    {
        self.relative_path.as_str()
    }

    /// The tree that the file defines.
    pub fn root(&self) -> (r: &TranslationNode)
        ensures
            r@ == self@.root,
    {
        &self.root
    }
}

/// The sources as contracts see them.
pub open spec fn models_of(sources: Seq<RawSource>) -> Seq<SourceModel> {
    Seq::new(sources.len(), |i: int| sources[i]@)
}

/// The trees of the sources, in order.
pub open spec fn roots_of(sources: Seq<SourceModel>) -> Seq<NodeModel> {
    Seq::new(sources.len(), |i: int| sources[i].root)
}

/// Whether a source at path `a` is merged before one at path `b`.
pub open spec fn goes_before(a: Seq<char>, b: Seq<char>, mode: SeekMode) -> bool {
    match mode {
        SeekMode::Alphabetical => precedes(a, b),
        SeekMode::Unalphabetical => precedes(b, a),
    }
}

/// Whether the sources stand in the order of `mode`: none stands behind a
/// source that it goes before.
pub open spec fn in_seek_order(sources: Seq<SourceModel>, mode: SeekMode) -> bool {
    forall|i: int, j: int|
        0 <= i < j < sources.len() ==> !goes_before(
            (#[trigger] sources[j]).relative_path,
            (#[trigger] sources[i]).relative_path,
            mode,
        )
}

/// Sources in seek order stand in ascending lexical order of their
/// relative paths under `Alphabetical`, and in descending order under
/// `Unalphabetical`.
pub proof fn lemma_seek_order(sources: Seq<SourceModel>, mode: SeekMode, i: int, j: int)
    requires
        in_seek_order(sources, mode),
        0 <= i < j < sources.len(),
    ensures
        mode == SeekMode::Alphabetical ==> precedes_or_same(
            sources[i].relative_path,
            sources[j].relative_path,
        ),
        mode == SeekMode::Unalphabetical ==> precedes_or_same(
            sources[j].relative_path,
            sources[i].relative_path,
        ),
{
    lemma_precedes_total(sources[i].relative_path, sources[j].relative_path);
    assert(!goes_before(sources[j].relative_path, sources[i].relative_path, mode));
}

fn is_earlier(a: &RawSource, b: &RawSource, mode: SeekMode) -> (r: bool)
    ensures
        r == goes_before(a@.relative_path, b@.relative_path, mode),
{
    match mode {
        SeekMode::Alphabetical => comes_before(a.relative_path.as_str(), b.relative_path.as_str()),
        SeekMode::Unalphabetical => comes_before(
            b.relative_path.as_str(),
            a.relative_path.as_str(),
        ),
    }
}

proof fn lemma_goes_before_transitive(a: Seq<char>, b: Seq<char>, c: Seq<char>, mode: SeekMode)
    requires
        goes_before(a, b, mode),
        goes_before(b, c, mode),
    ensures
        goes_before(a, c, mode),
{
    match mode {
        SeekMode::Alphabetical => lemma_precedes_transitive(a, b, c),
        SeekMode::Unalphabetical => lemma_precedes_transitive(c, b, a),
    }
}

fn earliest(sources: &Vec<RawSource>, mode: SeekMode) -> (best: usize)
    requires
        sources.len() > 0,
    ensures
        best < sources.len(),
        forall|j: int|
            0 <= j < sources.len() ==> !goes_before(
                (#[trigger] sources@[j])@.relative_path,
                sources@[best as int]@.relative_path,
                mode,
            ),
{
    let mut best: usize = 0;
    let mut i: usize = 1;
    proof {
        lemma_precedes_irreflexive(sources@[0]@.relative_path);
    }
    while i < sources.len()
        invariant
            1 <= i <= sources.len(),
            best < i,
            forall|j: int|
                0 <= j < i ==> !goes_before(
                    (#[trigger] sources@[j])@.relative_path,
                    sources@[best as int]@.relative_path,
                    mode,
                ),
        decreases sources.len() - i,
    {
        if is_earlier(&sources[i], &sources[best], mode) {
            proof {
                let new = sources@[i as int]@.relative_path;
                let old = sources@[best as int]@.relative_path;
                lemma_precedes_irreflexive(new);
                assert forall|j: int| 0 <= j < i + 1 implies !goes_before(
                    (#[trigger] sources@[j])@.relative_path,
                    new,
                    mode,
                ) by {
                    if goes_before(sources@[j]@.relative_path, new, mode) {
                        lemma_goes_before_transitive(sources@[j]@.relative_path, new, old, mode);
                    }
                }
            }
            best = i;
        }
        i = i + 1;
    }
    best
}

/// Puts the sources in the order in which `mode` has them merged:
/// ascending lexical order of their relative paths for `Alphabetical`,
/// descending for `Unalphabetical`. The result holds exactly the sources
/// given.
pub fn order_sources(sources: Vec<RawSource>, mode: SeekMode) -> (r: Vec<RawSource>)
    ensures
        r@.to_multiset() == sources@.to_multiset(),
        in_seek_order(models_of(r@), mode),
{
    broadcast use {vstd::seq_lib::group_to_multiset_ensures, vstd::multiset::group_multiset_axioms};

    let ghost given = sources@;
    let mut rest = sources;
    let mut out: Vec<RawSource> = Vec::new();
    assert(out@.to_multiset().add(rest@.to_multiset()) =~= given.to_multiset());
    while rest.len() > 0
        invariant
            out@.to_multiset().add(rest@.to_multiset()) == given.to_multiset(),
            in_seek_order(models_of(out@), mode),
            forall|i: int, j: int|
                0 <= i < out@.len() && 0 <= j < rest@.len() ==> !goes_before(
                    (#[trigger] rest@[j])@.relative_path,
                    (#[trigger] out@[i])@.relative_path,
                    mode,
                ),
        decreases rest.len(),
    {
        let best = earliest(&rest, mode);
        let ghost before_rest = rest@;
        let ghost before_out = out@;
        let next = rest.remove(best);
        out.push(next);
        proof {
            assert(rest@ == before_rest.remove(best as int));
            assert(out@ == before_out.push(next));
            assert(before_rest[best as int] == next);
            assert(before_rest.contains(next));
            vstd::seq_lib::to_multiset_contains(before_rest, next);
            vstd::seq_lib::to_multiset_remove(before_rest, best as int);
            vstd::seq_lib::to_multiset_build(before_out, next);
            assert(before_rest.to_multiset().count(next) > 0);
            assert(out@.to_multiset().add(rest@.to_multiset()) =~= before_out.to_multiset().add(
                before_rest.to_multiset(),
            ));
            assert forall|i: int, j: int| 0 <= i < j < out@.len() implies !goes_before(
                (#[trigger] models_of(out@)[j]).relative_path,
                (#[trigger] models_of(out@)[i]).relative_path,
                mode,
            ) by {
                if j < before_out.len() {
                    assert(models_of(before_out)[j] == models_of(out@)[j]);
                    assert(models_of(before_out)[i] == models_of(out@)[i]);
                } else {
                    assert(out@[j] == before_rest[best as int]);
                    assert(out@[i] == before_out[i]);
                }
            }
            assert forall|i: int, j: int| 0 <= i < out@.len() && 0 <= j < rest@.len() implies
                !goes_before(
                (#[trigger] rest@[j])@.relative_path,
                (#[trigger] out@[i])@.relative_path,
                mode,
            ) by {
                let k = if j < best { j } else { j + 1 };
                assert(rest@[j] == before_rest[k]);
                if i < before_out.len() {
                    assert(out@[i] == before_out[i]);
                } else {
                    assert(out@[i] == before_rest[best as int]);
                }
            }
        }
    }
    assert(rest@.to_multiset() =~= Multiset::<RawSource>::empty()) by {
        assert(rest@ =~= Seq::<RawSource>::empty());
    }
    assert(out@.to_multiset() =~= given.to_multiset());
    out
}

/// The tree that merging the given trees one after the other gives,
/// starting from a namespace without children.
pub open spec fn merged_all(roots: Seq<NodeModel>, policy: TranslationOverlap) -> NodeModel
    decreases roots.len(),
{
    if roots.len() == 0 {
        NodeModel::Branch(Map::empty())
    } else {
        merged(merged_all(roots.drop_last(), policy), roots.last(), policy)
    }
}

/// Whether the trees can be merged one after the other: none clashes with
/// what the trees before it gave.
pub open spec fn mergeable(roots: Seq<NodeModel>, policy: TranslationOverlap) -> bool {
    forall|k: int|
        0 <= k < roots.len() ==> compatible(
            merged_all(#[trigger] roots.take(k), policy),
            roots[k],
        )
}

/// Why the sources could not be merged.
#[derive(Debug)]
pub struct MergeError {
    /// The key segments that lead to the clash, outermost first.
    pub path: Vec<String>,
    /// Whether the sources merged so far have a message at `path`; the
    /// incoming source then has a namespace there. Otherwise it is the
    /// other way round.
    pub existing_is_leaf: bool,
    /// The position, in merge order, of the source that could not be
    /// merged.
    pub incoming_index: usize,
    /// The relative path of the source that could not be merged.
    pub incoming_source: String,
    /// The position, in merge order, of the first source that has a node at
    /// `path`, if any of the sources merged before has one.
    pub existing_index: Option<usize>,
    /// The relative path of that source.
    pub existing_source: Option<String>,
}

/// Whether `j` is the position of the first of the `k` leading trees that
/// has a node at `path`.
pub open spec fn is_first_with_node(
    roots: Seq<NodeModel>,
    k: int,
    path: Seq<Seq<char>>,
    j: int,
) -> bool {
    &&& 0 <= j < k
    &&& roots[j].node_at(path) is Some
    &&& forall|i: int| 0 <= i < j ==> (#[trigger] roots[i]).node_at(path) is None
}

/// Whether `error` says rightly why the sources cannot be merged: the
/// source at `incoming_index` is the first that clashes with what the
/// sources before it gave, it does so at `path`, and the source named as
/// existing is the first one before it that has a node there.
pub open spec fn describes_failure(
    sources: Seq<SourceModel>,
    policy: TranslationOverlap,
    error: MergeError,
) -> bool {
    let roots = roots_of(sources);
    let k = error.incoming_index as int;
    let path = texts(error.path@);
    &&& 0 <= k < sources.len()
    &&& mergeable(roots.take(k), policy)
    &&& describes_conflict(
        merged_all(roots.take(k), policy),
        roots[k],
        crate::translations::node::MergeConflict {
            path: error.path,
            existing_is_leaf: error.existing_is_leaf,
        },
    )
    &&& error.incoming_source@ == sources[k].relative_path
    &&& match error.existing_index {
        Some(j) => {
            &&& is_first_with_node(roots, k, path, j as int)
            &&& error.existing_source is Some
            &&& error.existing_source->0@ == sources[j as int].relative_path
        },
        None => error.existing_source is None && forall|i: int|
            0 <= i < k ==> (#[trigger] roots[i]).node_at(path) is None,
    }
}

fn first_with_node(sources: &Vec<RawSource>, k: usize, path: &Vec<String>) -> (r: Option<usize>)
    requires
        k <= sources.len(),
    ensures
        match r {
            Some(j) => is_first_with_node(
                roots_of(models_of(sources@)),
                k as int,
                texts(path@),
                j as int,
            ),
            None => forall|i: int|
                0 <= i < k ==> (#[trigger] roots_of(models_of(sources@))[i]).node_at(texts(path@))
                    is None,
        },
{
    let ghost roots = roots_of(models_of(sources@));
    let mut j: usize = 0;
    while j < k
        invariant
            j <= k <= sources.len(),
            roots == roots_of(models_of(sources@)),
            forall|i: int| 0 <= i < j ==> (#[trigger] roots[i]).node_at(texts(path@)) is None,
        decreases k - j,
    {
        assert(roots[j as int] == sources@[j as int]@.root);
        if sources[j].root().node_at(path).is_some() {
            return Some(j);
        }
        j = j + 1;
    }
    None
}

/// The whole merged corpus.
#[derive(Debug)]
pub struct TranslationNodeCollection {
    root: TranslationNode,
}

impl View for TranslationNodeCollection {
    type V = NodeModel;

    closed spec fn view(&self) -> NodeModel {
        self.root@
    }
}

impl Clone for TranslationNodeCollection {
    /// A copy of the whole tree.
    fn clone(&self) -> (r: TranslationNodeCollection)
        ensures
            r@ == self@,
    {
        TranslationNodeCollection { root: self.root.clone() }
    }
}

impl TranslationNodeCollection {
    /// A collection without any message.
    pub fn new() -> (r: TranslationNodeCollection)
        ensures
            r@ == NodeModel::Branch(Map::empty()),
    {
        let root = TranslationNode::Branch(TranslationBranch::new());
        proof {
            lemma_node_view(root);
        }
        TranslationNodeCollection { root }
    }

    /// The collection that consists of the given tree.
    pub fn from_root(root: TranslationNode) -> (r: TranslationNodeCollection)
        ensures
            r@ == root@,
    {
        TranslationNodeCollection { root }
    }

    /// Merges the sources in the order given, each into what the earlier
    /// ones gave, starting from an empty namespace. Fails at the first
    /// source that has a message where the earlier ones have a namespace,
    /// or a namespace where they have a message.
    pub fn build(sources: &Vec<RawSource>, policy: TranslationOverlap) -> (r: Result<
        TranslationNodeCollection,
        MergeError,
    >)
        ensures
            match r {
                Ok(collection) => mergeable(roots_of(models_of(sources@)), policy) && collection@
                    == merged_all(roots_of(models_of(sources@)), policy),
                Err(error) => describes_failure(models_of(sources@), policy, error),
            },
    {
        let ghost roots = roots_of(models_of(sources@));
        let mut root = TranslationNode::Branch(TranslationBranch::new());
        let mut i: usize = 0;
        proof {
            lemma_node_view(root);
            assert(roots.take(0) =~= Seq::<NodeModel>::empty());
        }
        while i < sources.len()
            invariant
                i <= sources.len(),
                roots == roots_of(models_of(sources@)),
                root@ == merged_all(roots.take(i as int), policy),
                mergeable(roots.take(i as int), policy),
            decreases sources.len() - i,
        {
            let ghost so_far = roots.take(i as int);
            let ghost next = roots.take(i + 1);
            proof {
                assert(next.drop_last() =~= so_far);
                assert(next.last() == sources@[i as int]@.root);
            }
            let incoming = sources[i].root().clone();
            match root.merge(incoming, policy) {
                Ok(node) => {
                    proof {
                        assert forall|k: int| 0 <= k < next.len() implies compatible(
                            merged_all(#[trigger] next.take(k), policy),
                            next[k],
                        ) by {
                            if k < i {
                                assert(next.take(k) =~= so_far.take(k));
                                assert(compatible(merged_all(so_far.take(k), policy), so_far[k]));
                            } else {
                                assert(next.take(k) =~= so_far);
                            }
                        }
                    }
                    root = node;
                },
                Err(conflict) => {
                    let existing_index = first_with_node(sources, i, &conflict.path);
                    let existing_source = match existing_index {
                        Some(j) => Some(sources[j].relative_path.clone()),
                        None => None,
                    };
                    let error = MergeError {
                        path: conflict.path,
                        existing_is_leaf: conflict.existing_is_leaf,
                        incoming_index: i,
                        incoming_source: sources[i].relative_path.clone(),
                        existing_index,
                        existing_source,
                    };
                    return Err(error);
                },
            }
            i = i + 1;
        }
        assert(roots.take(i as int) =~= roots);
        Ok(TranslationNodeCollection { root })
    }

    /// Puts the sources in the order of `seek_mode` and merges them in that
    /// order under `overlap`.
    pub fn load(sources: Vec<RawSource>, seek_mode: SeekMode, overlap: TranslationOverlap) -> (r:
        Result<TranslationNodeCollection, MergeError>)
        ensures
            exists|ordered: Seq<SourceModel>|
                {
                    &&& in_seek_order(ordered, seek_mode)
                    &&& is_reordering(ordered, models_of(sources@))
                    &&& match r {
                        Ok(collection) => mergeable(roots_of(ordered), overlap) && collection@
                            == merged_all(roots_of(ordered), overlap),
                        Err(error) => describes_failure(ordered, overlap, error),
                    }
                },
    {
        let ordered = order_sources(sources, seek_mode);
        proof {
            lemma_models_reordered(ordered@, sources@);
        }
        let r = TranslationNodeCollection::build(&ordered, overlap);
        assert(in_seek_order(models_of(ordered@), seek_mode));
        r
    }

    /// The tree that holds every message.
    pub fn root(&self) -> (r: &TranslationNode)
        ensures
            r@ == self@,
    {
        &self.root
    }

    /// The message at exactly `path`, one segment per namespace level,
    /// walking down from the root. There is none when a segment is
    /// missing, when a message is reached before the path ends, or when
    /// the path ends on a namespace. The collection is not changed, so the
    /// same path always gives the same message.
    pub fn find_path(&self, path: &Vec<String>) -> (r: Option<&TranslationObject>)
        ensures
            match r {
                Some(object) => self@.find(texts(path@)) == Some(object@),
                None => self@.find(texts(path@)) is None,
            },
    {
        self.root.find_path(path)
    }
}

/// Whether the two lists hold the same sources, each as often as the
/// other.
pub open spec fn is_reordering(a: Seq<SourceModel>, b: Seq<SourceModel>) -> bool {
    a.to_multiset() == b.to_multiset()
}

/// Whether no two of the sources have the same relative path.
pub open spec fn paths_distinct(sources: Seq<SourceModel>) -> bool {
    forall|i: int, j: int|
        0 <= i < j < sources.len() ==> (#[trigger] sources[i]).relative_path != (
        #[trigger] sources[j]).relative_path
}

/// Sources with pairwise different relative paths have exactly one seek
/// order: two lists of the same sources that both stand in seek order are
/// the same list.
pub proof fn lemma_seek_order_is_unique(a: Seq<SourceModel>, b: Seq<SourceModel>, mode: SeekMode)
    requires
        is_reordering(a, b),
        in_seek_order(a, mode),
        in_seek_order(b, mode),
        paths_distinct(a),
    ensures
        a == b,
    decreases a.len(),
{
    broadcast use {vstd::seq_lib::group_to_multiset_ensures, vstd::multiset::group_multiset_axioms};

    vstd::seq_lib::to_multiset_len(a);
    vstd::seq_lib::to_multiset_len(b);
    assert(a.len() == b.len());
    if a.len() == 0 {
        assert(a =~= b);
    } else {
        let first = a[0];
        assert(a.contains(first));
        assert(b.to_multiset().count(first) > 0);
        assert(b.contains(first));
        let m = b.index_of(first);
        assert(b.contains(b[0]));
        assert(a.to_multiset().count(b[0]) > 0);
        assert(a.contains(b[0]));
        let k = a.index_of(b[0]);
        if k > 0 {
            lemma_precedes_total(a[0].relative_path, a[k].relative_path);
            assert(!goes_before(a[k].relative_path, a[0].relative_path, mode));
            assert(goes_before(first.relative_path, b[0].relative_path, mode));
            if m > 0 {
                assert(!goes_before(b[m].relative_path, b[0].relative_path, mode));
            }
            assert(false);
        }
        assert(a[0] == b[0]);
        let rest_a = a.remove(0);
        let rest_b = b.remove(0);
        assert(rest_a.to_multiset() =~= rest_b.to_multiset());
        assert forall|i: int, j: int| 0 <= i < j < rest_a.len() implies !goes_before(
            (#[trigger] rest_a[j]).relative_path,
            (#[trigger] rest_a[i]).relative_path,
            mode,
        ) && rest_a[i].relative_path != rest_a[j].relative_path by {
            assert(rest_a[i] == a[i + 1] && rest_a[j] == a[j + 1]);
        }
        assert forall|i: int, j: int| 0 <= i < j < rest_b.len() implies !goes_before(
            (#[trigger] rest_b[j]).relative_path,
            (#[trigger] rest_b[i]).relative_path,
            mode,
        ) by {
            assert(rest_b[i] == b[i + 1] && rest_b[j] == b[j + 1]);
        }
        lemma_seek_order_is_unique(rest_a, rest_b, mode);
        assert(a =~= seq![a[0]] + rest_a);
        assert(b =~= seq![b[0]] + rest_b);
    }
}

proof fn lemma_models_reordered(a: Seq<RawSource>, b: Seq<RawSource>)
    requires
        a.to_multiset() == b.to_multiset(),
    ensures
        is_reordering(models_of(a), models_of(b)),
{
    let f = |s: RawSource| s@;
    assert(models_of(a) =~= a.map_values(f));
    assert(models_of(b) =~= b.map_values(f));
    lemma_map_values_to_multiset(a, b, f);
}

proof fn lemma_map_values_to_multiset<A, B>(a: Seq<A>, b: Seq<A>, f: spec_fn(A) -> B)
    requires
        a.to_multiset() == b.to_multiset(),
    ensures
        a.map_values(f).to_multiset() == b.map_values(f).to_multiset(),
    decreases a.len(),
{
    broadcast use {vstd::seq_lib::group_to_multiset_ensures, vstd::multiset::group_multiset_axioms};

    a.to_multiset_ensures();
    b.to_multiset_ensures();
    if a.len() == 0 {
        assert(b.len() == 0);
        assert(a.map_values(f) =~= b.map_values(f));
    } else {
        let x = a.last();
        assert(a.to_multiset().count(x) > 0) by {
            assert(a[a.len() - 1] == x);
        }
        assert(b.contains(x));
        let j = b.index_of(x);
        let a2 = a.drop_last();
        let b2 = b.remove(j);
        assert(a =~= a2.push(x));
        assert(a2.to_multiset() =~= a.to_multiset().remove(x));
        assert(b2.to_multiset() =~= b.to_multiset().remove(x));
        lemma_map_values_to_multiset(a2, b2, f);
        assert(a.map_values(f) =~= a2.map_values(f).push(f(x)));
        assert(b.map_values(f).remove(j) =~= b2.map_values(f));
        let bm = b.map_values(f);
        assert(bm[j] == f(x));
        assert(bm.remove(j).to_multiset() =~= bm.to_multiset().remove(f(x)));
        assert(bm.to_multiset().count(f(x)) > 0);
        assert(bm.to_multiset() =~= bm.remove(j).to_multiset().insert(f(x)));
    }
}

/// Whether the message that `root` has at `path` is written in
/// `language`.
pub open spec fn defines(root: NodeModel, path: Seq<Seq<char>>, language: crate::misc::language::Language)
    -> bool {
    root.find(path) matches Some(object) && object.contains_key(language)
}

/// Trees clash the same way whichever of them is taken first.
pub proof fn lemma_compatible_symmetric(a: NodeModel, b: NodeModel)
    ensures
        compatible(a, b) == compatible(b, a),
{
    if compatible(a, b) {
        assert forall|path: Seq<Seq<char>>| !is_conflict(b, a, path) by {
            assert(!is_conflict(a, b, path));
        }
    }
    if compatible(b, a) {
        assert forall|path: Seq<Seq<char>>| !is_conflict(a, b, path) by {
            assert(!is_conflict(b, a, path));
        }
    }
}

/// A list of trees can be merged exactly when its last tree can be merged
/// into what the trees before it give, and those can be merged.
pub proof fn lemma_mergeable_step(roots: Seq<NodeModel>, policy: TranslationOverlap)
    requires
        roots.len() > 0,
    ensures
        mergeable(roots, policy) <==> (mergeable(roots.drop_last(), policy) && compatible(
            merged_all(roots.drop_last(), policy),
            roots.last(),
        )),
{
    let front = roots.drop_last();
    assert(roots.take(roots.len() - 1) =~= front);
    if mergeable(roots, policy) {
        assert forall|k: int| 0 <= k < front.len() implies compatible(
            merged_all(#[trigger] front.take(k), policy),
            front[k],
        ) by {
            assert(front.take(k) =~= roots.take(k));
            assert(compatible(merged_all(roots.take(k), policy), roots[k]));
        }
        assert(compatible(merged_all(roots.take(roots.len() - 1), policy), roots[roots.len() - 1]));
    }
    if mergeable(front, policy) && compatible(merged_all(front, policy), roots.last()) {
        assert forall|k: int| 0 <= k < roots.len() implies compatible(
            merged_all(#[trigger] roots.take(k), policy),
            roots[k],
        ) by {
            if k < front.len() {
                assert(front.take(k) =~= roots.take(k));
                assert(compatible(merged_all(front.take(k), policy), front[k]));
            }
        }
    }
}

/// What the merged sources have at a path is what the sources before the
/// last one gave there, merged with what the last one has there.
pub proof fn lemma_merged_all_find(
    roots: Seq<NodeModel>,
    policy: TranslationOverlap,
    path: Seq<Seq<char>>,
)
    requires
        roots.len() > 0,
        mergeable(roots, policy),
    ensures
        merged_all(roots, policy).find(path) == found_after_merge(
            merged_all(roots.drop_last(), policy).find(path),
            roots.last().find(path),
            policy,
        ),
{
    lemma_mergeable_step(roots, policy);
    lemma_merged_find(merged_all(roots.drop_last(), policy), roots.last(), policy, path);
}

/// Under `Overwrite` the source merged last wins: where several sources
/// define a language of the message at a path, the merged collection has
/// the rendering of the last of them in merge order.
pub proof fn lemma_overwrite_takes_last(
    roots: Seq<NodeModel>,
    path: Seq<Seq<char>>,
    language: crate::misc::language::Language,
    k: int,
)
    requires
        mergeable(roots, TranslationOverlap::Overwrite),
        0 <= k < roots.len(),
        defines(roots[k], path, language),
        forall|j: int| k < j < roots.len() ==> !defines(#[trigger] roots[j], path, language),
    ensures
        defines(merged_all(roots, TranslationOverlap::Overwrite), path, language),
        merged_all(roots, TranslationOverlap::Overwrite).find(path)->0[language] == roots[k].find(
            path,
        )->0[language],
    decreases roots.len(),
{
    let policy = TranslationOverlap::Overwrite;
    lemma_mergeable_step(roots, policy);
    lemma_merged_all_find(roots, policy, path);
    if k < roots.len() - 1 {
        let front = roots.drop_last();
        assert(front[k] == roots[k]);
        assert forall|j: int| k < j < front.len() implies !defines(
            #[trigger] front[j],
            path,
            language,
        ) by {
            assert(front[j] == roots[j]);
        }
        lemma_overwrite_takes_last(front, path, language, k);
        assert(!defines(roots[roots.len() - 1], path, language));
    }
}

/// Under `Ignore` the source merged first wins: where several sources
/// define a language of the message at a path, the merged collection has
/// the rendering of the first of them in merge order.
pub proof fn lemma_ignore_keeps_first(
    roots: Seq<NodeModel>,
    path: Seq<Seq<char>>,
    language: crate::misc::language::Language,
    k: int,
)
    requires
        mergeable(roots, TranslationOverlap::Ignore),
        0 <= k < roots.len(),
        defines(roots[k], path, language),
        forall|j: int| 0 <= j < k ==> !defines(#[trigger] roots[j], path, language),
    ensures
        defines(merged_all(roots, TranslationOverlap::Ignore), path, language),
        merged_all(roots, TranslationOverlap::Ignore).find(path)->0[language] == roots[k].find(
            path,
        )->0[language],
    decreases roots.len(),
{
    let policy = TranslationOverlap::Ignore;
    lemma_mergeable_step(roots, policy);
    lemma_merged_all_find(roots, policy, path);
    let front = roots.drop_last();
    if k < roots.len() - 1 {
        assert(front[k] == roots[k]);
        assert forall|j: int| 0 <= j < k implies !defines(#[trigger] front[j], path, language) by {
            assert(front[j] == roots[j]);
        }
        lemma_ignore_keeps_first(front, path, language, k);
    } else {
        lemma_undefined_stays_undefined(front, policy, path, language);
    }
}

/// A language that no source defines for the message at a path is not
/// defined there after the merge either.
pub proof fn lemma_undefined_stays_undefined(
    roots: Seq<NodeModel>,
    policy: TranslationOverlap,
    path: Seq<Seq<char>>,
    language: crate::misc::language::Language,
)
    requires
        mergeable(roots, policy),
        forall|j: int| 0 <= j < roots.len() ==> !defines(#[trigger] roots[j], path, language),
    ensures
        !defines(merged_all(roots, policy), path, language),
    decreases roots.len(),
{
    if roots.len() > 0 {
        let front = roots.drop_last();
        lemma_mergeable_step(roots, policy);
        lemma_merged_all_find(roots, policy, path);
        assert forall|j: int| 0 <= j < front.len() implies !defines(
            #[trigger] front[j],
            path,
            language,
        ) by {
            assert(front[j] == roots[j]);
        }
        lemma_undefined_stays_undefined(front, policy, path, language);
        assert(!defines(roots[roots.len() - 1], path, language));
    } else {
        assert(path.len() > 0 ==> merged_all(roots, policy).node_at(path) is None);
    }
}

/// Which messages there are after a merge, and in which languages, does
/// not depend on the order of the sources or on the policy: a language of
/// the message at a path is defined after the merge exactly when some
/// source defines it.
pub proof fn lemma_merge_keeps_what_sources_define(
    roots: Seq<NodeModel>,
    policy: TranslationOverlap,
    path: Seq<Seq<char>>,
    language: crate::misc::language::Language,
)
    requires
        mergeable(roots, policy),
    ensures
        defines(merged_all(roots, policy), path, language) <==> exists|j: int|
            0 <= j < roots.len() && defines(#[trigger] roots[j], path, language),
        merged_all(roots, policy).find(path) is Some <==> exists|j: int|
            0 <= j < roots.len() && (#[trigger] roots[j]).find(path) is Some,
    decreases roots.len(),
{
    if roots.len() == 0 {
        assert(path.len() > 0 ==> merged_all(roots, policy).node_at(path) is None);
    } else {
        let front = roots.drop_last();
        let last = roots.len() - 1;
        lemma_mergeable_step(roots, policy);
        lemma_merged_all_find(roots, policy, path);
        lemma_merge_keeps_what_sources_define(front, policy, path, language);
        assert forall|j: int| 0 <= j < front.len() implies front[j] == roots[j] by {}
        if defines(merged_all(front, policy), path, language) {
            let j = choose|j: int| 0 <= j < front.len() && defines(#[trigger] front[j], path, language);
            assert(defines(roots[j], path, language));
        }
        if merged_all(front, policy).find(path) is Some {
            let j = choose|j: int| 0 <= j < front.len() && (#[trigger] front[j]).find(path) is Some;
            assert(roots[j].find(path) is Some);
        }
        if defines(roots[last], path, language) {
            assert(defines(merged_all(roots, policy), path, language));
        }
        if exists|j: int| 0 <= j < roots.len() && defines(#[trigger] roots[j], path, language) {
            let j = choose|j: int| 0 <= j < roots.len() && defines(#[trigger] roots[j], path, language);
            if j < last {
                assert(defines(front[j], path, language));
            }
        }
        if exists|j: int| 0 <= j < roots.len() && (#[trigger] roots[j]).find(path) is Some {
            let j = choose|j: int| 0 <= j < roots.len() && (#[trigger] roots[j]).find(path) is Some;
            if j < last {
                assert(front[j].find(path) is Some);
            }
        }
    }
}

/// Two sources that are merged give, at a path where both have a message,
/// a message with every language of either. Under `Overwrite` it has the
/// second source's rendering wherever the second defines the language and
/// the first source's elsewhere; under `Ignore` it has the first source's
/// rendering wherever the first defines the language and the second's
/// elsewhere. Merging them the other way round swaps the two roles, so the
/// order of the sources decides the outcome.
pub proof fn lemma_merge_order_decides(
    a: NodeModel,
    b: NodeModel,
    policy: TranslationOverlap,
    path: Seq<Seq<char>>,
)
    requires
        mergeable(seq![a, b], policy),
        a.find(path) is Some,
        b.find(path) is Some,
    ensures
        mergeable(seq![b, a], policy),
        merged_all(seq![a, b], policy).find(path) == Some(
            merged_object(a.find(path)->0, b.find(path)->0, policy),
        ),
        merged_all(seq![b, a], policy).find(path) == Some(
            merged_object(b.find(path)->0, a.find(path)->0, policy),
        ),
        forall|language: crate::misc::language::Language|
            #![trigger merged_object(a.find(path)->0, b.find(path)->0, policy)[language]]
            {
                let first = a.find(path)->0;
                let second = b.find(path)->0;
                let both = merged_object(first, second, policy);
                &&& both.contains_key(language) <==> first.contains_key(language)
                    || second.contains_key(language)
                &&& policy == TranslationOverlap::Overwrite && second.contains_key(language)
                    ==> both[language] == second[language]
                &&& policy == TranslationOverlap::Overwrite && !second.contains_key(language)
                    && first.contains_key(language) ==> both[language] == first[language]
                &&& policy == TranslationOverlap::Ignore && first.contains_key(language)
                    ==> both[language] == first[language]
                &&& policy == TranslationOverlap::Ignore && !first.contains_key(language)
                    && second.contains_key(language) ==> both[language] == second[language]
            },
{
    let empty = NodeModel::Branch(Map::empty());
    let ab = seq![a, b];
    let ba = seq![b, a];
    assert(ab.take(0) =~= Seq::<NodeModel>::empty());
    assert(ab.take(1) =~= seq![a]);
    assert(seq![a].drop_last() =~= Seq::<NodeModel>::empty());
    assert(ab.drop_last() =~= seq![a]);
    assert(compatible(merged_all(ab.take(0), policy), ab[0]));
    assert(compatible(merged_all(ab.take(1), policy), ab[1]));
    assert(!is_conflict(empty, a, Seq::<Seq<char>>::empty()));
    assert(!is_conflict(merged_all(seq![a], policy), b, Seq::<Seq<char>>::empty()));
    assert(a is Branch);
    lemma_merge_into_empty(a->Branch_0, policy);
    assert(merged_all(seq![a], policy) == a);
    assert(b is Branch);
    lemma_merge_into_empty(b->Branch_0, policy);
    assert(ba.take(0) =~= Seq::<NodeModel>::empty());
    assert(ba.take(1) =~= seq![b]);
    assert(seq![b].drop_last() =~= Seq::<NodeModel>::empty());
    assert(ba.drop_last() =~= seq![b]);
    assert(merged_all(seq![b], policy) == b);
    lemma_compatible_symmetric(a, b);
    assert forall|k: int| 0 <= k < ba.len() implies compatible(
        merged_all(#[trigger] ba.take(k), policy),
        ba[k],
    ) by {
        if k == 0 {
            assert(ba.take(0) =~= Seq::<NodeModel>::empty());
        } else {
            assert(ba.take(1) =~= seq![b]);
        }
    }
    lemma_merged_find(a, b, policy, path);
    lemma_merged_find(b, a, policy, path);
}

/// A node that the merged sources have below the root comes from one of
/// them: some source has a node at the same path.
pub proof fn lemma_merged_node_has_source(
    roots: Seq<NodeModel>,
    policy: TranslationOverlap,
    path: Seq<Seq<char>>,
)
    requires
        mergeable(roots, policy),
        path.len() > 0,
        merged_all(roots, policy).node_at(path) is Some,
    ensures
        exists|j: int| 0 <= j < roots.len() && (#[trigger] roots[j]).node_at(path) is Some,
    decreases roots.len(),
{
    if roots.len() > 0 {
        let front = roots.drop_last();
        lemma_mergeable_step(roots, policy);
        crate::translations::node::lemma_merged_node_at(
            merged_all(front, policy),
            roots.last(),
            policy,
            path,
        );
        if roots.last().node_at(path) is Some {
            assert(roots[roots.len() - 1].node_at(path) is Some);
        } else {
            lemma_merged_node_has_source(front, policy, path);
            let j = choose|j: int| 0 <= j < front.len() && (#[trigger] front[j]).node_at(path) is Some;
            assert(roots[j] == front[j]);
        }
    }
}

/// A failed merge names the earlier source whenever the clash lies below
/// the root. At the root itself there is an earlier source to name unless
/// the very first source clashes.
pub proof fn lemma_failure_names_a_source(
    sources: Seq<SourceModel>,
    policy: TranslationOverlap,
    error: MergeError,
)
    requires
        describes_failure(sources, policy, error),
        error.path@.len() > 0 || error.incoming_index > 0,
    ensures
        error.existing_index is Some,
        error.existing_source is Some,
{
    let roots = roots_of(sources);
    let k = error.incoming_index as int;
    let path = texts(error.path@);
    let front = roots.take(k);
    if error.path@.len() > 0 {
        lemma_merged_node_has_source(front, policy, path);
        let j = choose|j: int| 0 <= j < front.len() && (#[trigger] front[j]).node_at(path) is Some;
        assert(roots[j] == front[j]);
    } else {
        assert(roots[0].node_at(path) is Some);
    }
}

} // verus!
