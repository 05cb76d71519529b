//! Translation paths: the `a::b::c` keys that name a message.
//!
//! This has nothing to do with file system paths.

use proc_macro2::Span;
use vstd::prelude::*;
use vstd::std_specs::cmp::PartialEqSpecImpl;
use crate::misc::text::{join_with, joined, texts};

verus! {

/// `proc_macro2::Span`, a region of source code. Contracts see nothing
/// inside it: a span is only carried along.
#[verifier::external_type_specification]
#[verifier::external_body]
pub struct ExSpan(Span);

/// `Span::call_site` gives the span of the current macro invocation, or a
/// placeholder span outside of one. Nothing is claimed of the value.
pub assume_specification[ Span::call_site ]() -> Span;

/// `Span::join` gives a span that covers both, or `None`: always `None` on
/// a stable compiler inside a macro, and when the two lie in different
/// files. Nothing is claimed of the value.
pub assume_specification[ Span::join ](first: &Span, second: Span) -> Option<Span>;

/// What contracts say of a path: its segments and whether it is absolute.
pub struct PathModel {
    /// The key segments, outermost first.
    pub segments: Seq<Seq<char>>,
    /// Whether the path was written with a leading `::`.
    pub is_glob: bool,
}

/// The separator between the segments of a displayed path.
pub open spec fn separator() -> Seq<char> {
    seq![':', ':']
}

/// How a path is displayed: its segments joined by `::`, behind a leading
/// `::` when the path is absolute.
pub open spec fn displayed(path: PathModel) -> Seq<char> {
    if path.is_glob {
        separator() + joined(path.segments, separator())
    } else {
        joined(path.segments, separator())
    }
}

/// A key that locates a message in the translation tree.
///
/// The span says where the path was written and serves diagnostics only:
/// it takes no part in equality.
#[derive(Debug)]
pub struct TranslationPath {
    segments: Vec<String>,
    span: Span,
    is_glob: bool,
}

impl View for TranslationPath {
    type V = PathModel;

    closed spec fn view(&self) -> PathModel {
        PathModel { segments: texts(self.segments@), is_glob: self.is_glob }
    }
}

fn copy_segments(segments: &Vec<String>) -> (r: Vec<String>)
    ensures
        texts(r@) == texts(segments@),
{
    let mut out: Vec<String> = Vec::new();
    let mut i: usize = 0;
    while i < segments.len()
        invariant
            i <= segments.len(),
            texts(out@) == texts(segments@).take(i as int),
        decreases segments.len() - i,
    {
        let ghost before = texts(out@);
        let segment = segments[i].clone();
        out.push(segment);
        assert(texts(out@) =~= before.push(segment@));
        assert(texts(segments@).take(i + 1) =~= before.push(segment@));
        i = i + 1;
    }
    assert(texts(segments@).take(i as int) =~= texts(segments@));
    out
}

impl Clone for TranslationPath {
    /// A copy with the same segments, flag and span.
    fn clone(&self) -> (r: TranslationPath)
        ensures
            r@ == self@,
            r.span_of() == self.span_of(),
    {
        TranslationPath {
            segments: copy_segments(&self.segments),
            span: self.span,
            is_glob: self.is_glob,
        }
    }
}

impl TranslationPath {
    /// The span the path carries.
    pub closed spec fn span_of(self) -> Span {
        self.span
    }

    /// A path of the given segments. `is_glob` says whether it was written
    /// with a leading `::`.
    pub fn new(segments: Vec<String>, span: Span, is_glob: bool) -> (r: TranslationPath)
        ensures
            r@.segments == texts(segments@),
            r@.is_glob == is_glob,
            r.span_of() == span,
    {
        TranslationPath { segments, span, is_glob }
    }

    /// The segments of `self` followed by those of `other`. The result is
    /// absolute exactly when `self` is; whether `other` is does not matter.
    /// It carries the span that covers both where there is one, and the
    /// call-site span otherwise.
    pub fn merge(&self, other: &TranslationPath) -> (r: TranslationPath)
        ensures
            r@.segments == self@.segments + other@.segments,
            r@.is_glob == self@.is_glob,
    {
        let mut segments = copy_segments(&self.segments);
        let mut j: usize = 0;
        assert(texts(other.segments@).take(0) =~= Seq::<Seq<char>>::empty());
        assert(texts(segments@) =~= texts(self.segments@) + texts(other.segments@).take(0));
        while j < other.segments.len()
            invariant
                j <= other.segments.len(),
                texts(segments@) == texts(self.segments@) + texts(other.segments@).take(j as int),
            decreases other.segments.len() - j,
        {
            let ghost before = texts(segments@);
            let segment = other.segments[j].clone();
            segments.push(segment);
            assert(texts(segments@) =~= before.push(segment@));
            assert(texts(self.segments@) + texts(other.segments@).take(j + 1) =~= before.push(
                segment@,
            ));
            j = j + 1;
        }
        assert(texts(other.segments@).take(j as int) =~= texts(other.segments@));
        let span = match self.span.join(other.span) {
            Some(joined) => joined,
            None => Span::call_site(),
        };
        TranslationPath { segments, span, is_glob: self.is_glob }
    }

    /// The segments, outermost first.
    pub fn segments(&self) -> (r: &Vec<String>)
        ensures
            texts(r@) == self@.segments,
    {
        &self.segments
    }

    /// The span the path carries.
    pub fn span(&self) -> (r: Span)
        ensures
            r == self.span_of(),
    {
        self.span
    }

    /// Whether the path was written with a leading `::`.
    pub fn is_glob(&self) -> (r: bool)
        ensures
            r == self@.is_glob,
    {
        self.is_glob
    }

    /// The path as text: `a::b` for a relative path, `::a::b` for an
    /// absolute one.
    pub fn static_display(&self) -> (r: String)
        ensures
            r@ == displayed(self@),
    {
        proof {
            reveal_strlit("::");
            assert("::"@ =~= separator());
        }
        let body = join_with(&self.segments, "::");
        if self.is_glob {
            let mut out = "::".to_owned();
            out.append(body.as_str());
            out
        } else {
            body
        }
    }
}

/// One segment of a path as it was written: its name, and whether generic
/// arguments follow it.
#[derive(Clone, Debug)]
pub struct WrittenSegment {
    /// The identifier of the segment.
    pub name: String,
    /// Whether the segment carries generic arguments, as in `a<T>`.
    pub has_arguments: bool,
}

/// Why a written path is no translation path.
#[derive(Clone, Copy, Debug, PartialEq, Eq, Structural)]
pub enum PathError {
    /// The segment at this position carries generic arguments.
    GenericArguments(usize),
}

impl PathError {
    /// What to tell the author of the path.
    pub fn message(&self) -> (r: &'static str)
        ensures
            r@ == "A translation path can't contain generic arguments."@,
    {
        "A translation path can't contain generic arguments."
    }
}

/// The names of the written segments, in order.
pub open spec fn names_of(written: Seq<WrittenSegment>) -> Seq<Seq<char>> {
    Seq::new(written.len(), |i: int| written[i].name@)
}

/// Whether `i` is the position of the first segment with generic
/// arguments.
pub open spec fn is_first_with_arguments(written: Seq<WrittenSegment>, i: int) -> bool {
    &&& 0 <= i < written.len()
    &&& written[i].has_arguments
    &&& forall|j: int| 0 <= j < i ==> !(#[trigger] written[j]).has_arguments
}

impl TranslationPath {
    /// The translation path that a written path stands for. A path is
    /// accepted when none of its segments carries generic arguments; its
    /// segments are then the names as written. Otherwise the first segment
    /// that carries arguments is reported.
    pub fn from_written(leading_colon: bool, written: Vec<WrittenSegment>, span: Span) -> (r: Result<
        TranslationPath,
        PathError,
    >)
        ensures
            match r {
                Ok(path) => {
                    &&& forall|i: int|
                        0 <= i < written@.len() ==> !(#[trigger] written@[i]).has_arguments
                    &&& path@.segments == names_of(written@)
                    &&& path@.is_glob == leading_colon
                    &&& path.span_of() == span
                },
                Err(PathError::GenericArguments(i)) => is_first_with_arguments(written@, i as int),
            },
    {
        let ghost given = written@;
        let mut segments: Vec<String> = Vec::new();
        for segment in it: written
            invariant
                it.seq() == given,
                given == written@,
                texts(segments@) == names_of(given).take(it.index()),
                forall|j: int| 0 <= j < it.index() ==> !(#[trigger] given[j]).has_arguments,
        {
            let ghost before = texts(segments@);
            let ghost index = it.index();
            assert(segment == given[index]);
            assert(segments@.len() == before.len());
            if segment.has_arguments {
                return Err(PathError::GenericArguments(segments.len()));
            }
            let name = segment.name;
            segments.push(name);
            proof {
                assert(texts(segments@) =~= before.push(name@));
                assert(names_of(given).take(index + 1) =~= before.push(name@));
            }
        }
        assert(names_of(given).take(given.len() as int) =~= names_of(given));
        Ok(TranslationPath { segments, span, is_glob: leading_colon })
    }

    /// Whether the two paths have the same segments and are both absolute
    /// or both relative. Spans are not compared.
    pub fn same_as(&self, other: &TranslationPath) -> (r: bool)
        ensures
            r == (self@ == other@),
    {
        if self.is_glob != other.is_glob || self.segments.len() != other.segments.len() {
            assert(texts(self.segments@).len() != texts(other.segments@).len() || self.is_glob
                != other.is_glob);
            return false;
        }
        let mut i: usize = 0;
        while i < self.segments.len()
            invariant
                i <= self.segments.len(),
                self.segments.len() == other.segments.len(),
                self.is_glob == other.is_glob,
                forall|j: int|
                    0 <= j < i ==> texts(self.segments@)[j] == texts(other.segments@)[j],
            decreases self.segments.len() - i,
        {
            if self.segments[i] != other.segments[i] {
                assert(texts(self.segments@)[i as int] != texts(other.segments@)[i as int]);
                return false;
            }
            i = i + 1;
        }
        assert(texts(self.segments@) =~= texts(other.segments@));
        true
    }
}

impl PartialEq for TranslationPath {
    /// Paths are equal when their segments and their flags are; spans are
    /// not compared.
    fn eq(&self, other: &TranslationPath) -> (r: bool) {
        self.same_as(other)
    }
}

impl PartialEqSpecImpl for TranslationPath {
    open spec fn obeys_eq_spec() -> bool {
        true
    }

    open spec fn eq_spec(&self, other: &TranslationPath) -> bool {
        self@ == other@
    }
}

impl std::ops::Deref for TranslationPath {
    type Target = Vec<String>;

    /// A path can stand where its segments are wanted.
    fn deref(&self) -> (r: &Vec<String>)
        ensures
            texts(r@) == self@.segments,
    {
        &self.segments
    }
}

impl Default for TranslationPath {
    /// The root path: no segment, relative, with the call-site span.
    fn default() -> (r: TranslationPath)
        ensures
            r@.segments == Seq::<Seq<char>>::empty(),
            !r@.is_glob,
    {
        let r = TranslationPath { segments: Vec::new(), span: Span::call_site(), is_glob: false };
        assert(r@.segments =~= Seq::<Seq<char>>::empty());
        r
    }
}

/// A path of two segments `a` and `b` is displayed as `::a::b` when it is
/// absolute and as `a::b` when it is relative.
pub proof fn lemma_display_of_two_segments(first: Seq<char>, second: Seq<char>, is_glob: bool)
    ensures
        displayed(PathModel { segments: seq![first, second], is_glob }) == if is_glob {
            separator() + first + separator() + second
        } else {
            first + separator() + second
        },
{
    let both = seq![first, second];
    assert(both.drop_last() =~= seq![first]);
    assert(joined(seq![first], separator()) == first);
    assert(joined(both, separator()) == first + separator() + second);
    assert(separator() + (first + separator() + second) =~= separator() + first + separator()
        + second);
}

/// One more segment at the end of a path shows as `::` and the segment at
/// the end of what is displayed.
pub proof fn lemma_display_grows(path: PathModel, segment: Seq<char>)
    requires
        path.segments.len() > 0,
    ensures
        displayed(PathModel { segments: path.segments.push(segment), is_glob: path.is_glob })
            == displayed(path) + separator() + segment,
{
    let longer = path.segments.push(segment);
    assert(longer.drop_last() =~= path.segments);
    assert(joined(longer, separator()) == joined(path.segments, separator()) + separator()
        + segment);
    assert(separator() + (joined(path.segments, separator()) + separator() + segment)
        =~= separator() + joined(path.segments, separator()) + separator() + segment);
}

} // verus!
