//! Translation contexts: a struct whose fields each name one message.
//!
//! A context may carry a base path. Each field may carry a path of its
//! own; a field without one is looked up under its name. The path of a
//! field is the base path followed by the field's own path.

use proc_macro2::Span;
use vstd::prelude::*;
use crate::macro_input::translation_path::{displayed, PathModel, TranslationPath};
use crate::misc::text::texts;
use crate::translations::collection::TranslationNodeCollection;
use crate::translations::node::{NodeModel, TranslationObject};

verus! {

/// What contracts say of a context field.
pub struct FieldModel {
    /// The base path of the context, if it has one.
    pub base_path: Option<PathModel>,
    /// The path written on the field, if there is one.
    pub path: Option<PathModel>,
    /// The name of the field.
    pub name: Seq<char>,
}

/// What contracts say of an optional path.
pub open spec fn path_model(path: Option<TranslationPath>) -> Option<PathModel> {
    match path {
        Some(path) => Some(path@),
        None => None,
    }
}

/// The path of a field below the base path: the one written on it, or the
/// relative path that consists of the field's name.
pub open spec fn own_path(field: FieldModel) -> PathModel {
    match field.path {
        Some(path) => path,
        None => PathModel { segments: seq![field.name], is_glob: false },
    }
}

/// The path under which a field is looked up: the base path followed by
/// the field's own path, absolute exactly when the base path is; without a
/// base path, the field's own path.
pub open spec fn field_path(field: FieldModel) -> PathModel {
    match field.base_path {
        Some(base) => PathModel {
            segments: base.segments + own_path(field).segments,
            is_glob: base.is_glob,
        },
        None => own_path(field),
    }
}

/// One field of a translation context.
#[derive(Debug)]
pub struct ContextMacroField {
    base_path: Option<TranslationPath>,
    path: Option<TranslationPath>,
    name: String,
    span: Span,
}

impl View for ContextMacroField {
    type V = FieldModel;

    closed spec fn view(&self) -> FieldModel {
        FieldModel {
            base_path: path_model(self.base_path),
            path: path_model(self.path),
            name: self.name@,
        }
    }
}

impl ContextMacroField {
    /// The span of the field's name.
    pub closed spec fn span_of(self) -> Span {
        self.span
    }

    /// A field of the given name, written at `span`, in a context with the
    /// given base path.
    pub fn new(
        base_path: Option<TranslationPath>,
        path: Option<TranslationPath>,
        name: String,
        span: Span,
    ) -> (r: ContextMacroField)
        ensures
            r@ == (FieldModel {
                base_path: path_model(base_path),
                path: path_model(path),
                name: name@,
            }),
            r.span_of() == span,
    {
        ContextMacroField { base_path, path, name, span }
    }

    /// The path under which the field is looked up.
    pub fn path(&self) -> (r: TranslationPath)
        ensures
            r@ == field_path(self@),
    {
        let own = match &self.path {
            Some(path) => path.clone(),
            None => {
                let mut segments: Vec<String> = Vec::new();
                segments.push(self.name.clone());
                assert(texts(segments@) =~= seq![self.name@]);
                TranslationPath::new(segments, self.span, false)
            },
        };
        match &self.base_path {
            Some(base) => base.merge(&own),
            None => own,
        }
    }

    /// The name of the field.
    pub fn name(&self) -> (r: &str)
        ensures
            r@ == self@.name,
    {
        self.name.as_str()
    }

    /// The span of the field's name.
    pub fn span(&self) -> (r: Span)
        ensures
            r == self.span_of(),
    {
        self.span
    }
}

/// The type that a field is declared with.
#[derive(Clone, Copy, Debug, PartialEq, Eq, Structural)]
pub enum FieldType {
    /// `String`.
    Text,
    /// `_`, to be inferred.
    Inferred,
    /// Anything else.
    Other,
}

/// The path attribute of a field as it was written.
#[derive(Clone, Debug)]
pub enum WrittenPath {
    /// The field has no path attribute.
    Absent,
    /// The field has a path attribute that holds this path.
    Valid(TranslationPath),
    /// The field has a path attribute that holds no translation path.
    Invalid,
}

/// A field of the struct as it was written, before any check.
#[derive(Debug)]
pub struct WrittenField {
    /// The declared type.
    pub ty: FieldType,
    /// The path attribute.
    pub path: WrittenPath,
    /// The name, if the field has one.
    pub name: Option<String>,
    /// Where the field was written.
    pub span: Span,
}

/// What is wrong with a written field.
#[derive(Clone, Copy, Debug, PartialEq, Eq, Structural)]
pub enum FieldProblem {
    /// The type is neither `String` nor `_`.
    TypeNotAllowed,
    /// The path attribute holds no translation path.
    InvalidPath,
    /// The field has no name.
    Unnamed,
}

impl FieldProblem {
    /// What to tell the author of the field. For an invalid path the
    /// message comes from reading the path, not from here.
    pub fn message(&self) -> (r: &'static str)
        ensures
            r@ == match self {
                FieldProblem::TypeNotAllowed => "The type must be a String or inferred as '_'."@,
                FieldProblem::InvalidPath => "The path attribute must hold a translation path."@,
                FieldProblem::Unnamed => "The field must be named."@,
            },
    {
        match self {
            FieldProblem::TypeNotAllowed => "The type must be a String or inferred as '_'.",
            FieldProblem::InvalidPath => "The path attribute must hold a translation path.",
            FieldProblem::Unnamed => "The field must be named.",
        }
    }
}

/// A problem, and the position of the field that has it.
#[derive(Clone, Copy, Debug, PartialEq, Eq, Structural)]
pub struct FieldIssue {
    /// The position of the field in the struct.
    pub index: usize,
    /// What is wrong with it.
    pub problem: FieldProblem,
}

/// What is wrong with a written field, if anything. The type is checked
/// first, then the path attribute, then the name.
pub open spec fn problem_of(field: WrittenField) -> Option<FieldProblem> {
    if field.ty == FieldType::Other {
        Some(FieldProblem::TypeNotAllowed)
    } else if field.path is Invalid {
        Some(FieldProblem::InvalidPath)
    } else if field.name is None {
        Some(FieldProblem::Unnamed)
    } else {
        None
    }
}

/// The field that a written field without a problem stands for.
pub open spec fn checked_field(base_path: Option<PathModel>, field: WrittenField) -> FieldModel {
    FieldModel {
        base_path,
        path: match field.path {
            WrittenPath::Valid(path) => Some(path@),
            _ => None,
        },
        name: field.name->0@,
    }
}

/// The problems of the written fields, in the order of the fields.
pub open spec fn issues_of(fields: Seq<WrittenField>) -> Seq<FieldIssue>
    decreases fields.len(),
{
    if fields.len() == 0 {
        Seq::empty()
    } else {
        let before = issues_of(fields.drop_last());
        match problem_of(fields.last()) {
            Some(problem) => before.push(
                FieldIssue { index: (fields.len() - 1) as usize, problem },
            ),
            None => before,
        }
    }
}

/// What contracts say of a list of fields.
pub open spec fn field_models(fields: Seq<ContextMacroField>) -> Seq<FieldModel> {
    Seq::new(fields.len(), |i: int| fields[i]@)
}

/// There is an issue exactly when some field has a problem.
pub proof fn lemma_issues_of(fields: Seq<WrittenField>)
    requires
        fields.len() <= usize::MAX,
    ensures
        issues_of(fields).len() == 0 <==> forall|i: int|
            0 <= i < fields.len() ==> problem_of(#[trigger] fields[i]) is None,
        forall|k: int|
            0 <= k < issues_of(fields).len() ==> {
                let issue = #[trigger] issues_of(fields)[k];
                0 <= issue.index < fields.len() && problem_of(fields[issue.index as int]) == Some(
                    issue.problem,
                )
            },
    decreases fields.len(),
{
    if fields.len() > 0 {
        let front = fields.drop_last();
        lemma_issues_of(front);
        assert forall|i: int| 0 <= i < front.len() implies front[i] == fields[i] by {}
        if issues_of(fields).len() == 0 {
            assert forall|i: int| 0 <= i < fields.len() implies problem_of(#[trigger] fields[i])
                is None by {
                if i < front.len() {
                    assert(problem_of(front[i]) is None);
                }
            }
        }
        if forall|i: int| 0 <= i < fields.len() ==> problem_of(#[trigger] fields[i]) is None {
            assert(problem_of(fields[fields.len() - 1]) is None);
            assert forall|i: int| 0 <= i < front.len() implies problem_of(#[trigger] front[i])
                is None by {
                assert(problem_of(fields[i]) is None);
            }
        }
        assert forall|k: int| 0 <= k < issues_of(fields).len() implies {
            let issue = #[trigger] issues_of(fields)[k];
            0 <= issue.index < fields.len() && problem_of(fields[issue.index as int]) == Some(
                issue.problem,
            )
        } by {
            if k < issues_of(front).len() {
                let issue = issues_of(front)[k];
                assert(issues_of(fields)[k] == issue);
                assert(front[issue.index as int] == fields[issue.index as int]);
            }
        }
    }
}

fn check_field(base_path: &Option<TranslationPath>, field: WrittenField) -> (r: Result<
    ContextMacroField,
    FieldProblem,
>)
    ensures
        match r {
            Ok(checked) => problem_of(field) is None && checked@ == checked_field(
                path_model(*base_path),
                field,
            ) && checked.span_of() == field.span,
            Err(problem) => problem_of(field) == Some(problem),
        },
{
    match field.ty {
        FieldType::Other => {
            return Err(FieldProblem::TypeNotAllowed);
        },
        _ => {},
    }
    let path = match field.path {
        WrittenPath::Absent => None,
        WrittenPath::Valid(path) => Some(path),
        WrittenPath::Invalid => {
            return Err(FieldProblem::InvalidPath);
        },
    };
    let name = match field.name {
        Some(name) => name,
        None => {
            return Err(FieldProblem::Unnamed);
        },
    };
    let base = match base_path {
        Some(base) => Some(base.clone()),
        None => None,
    };
    Ok(ContextMacroField::new(base, path, name, field.span))
}

/// A translation context: the struct's name and its fields.
#[derive(Debug)]
pub struct ContextMacroInput {
    ident: String,
    span: Span,
    fields: Vec<ContextMacroField>,
}

/// What contracts say of a context.
pub struct ContextModel {
    /// The name of the struct.
    pub ident: Seq<char>,
    /// The fields, in the order they were written.
    pub fields: Seq<FieldModel>,
}

impl View for ContextMacroInput {
    type V = ContextModel;

    closed spec fn view(&self) -> ContextModel {
        ContextModel { ident: self.ident@, fields: field_models(self.fields@) }
    }
}

/// Why the messages of a context could not be found.
#[derive(Clone, Debug)]
pub enum ContextError {
    /// The collection has no message at the path of a field; the path is
    /// given as it is displayed.
    TranslationNotFound(String),
}

/// Whether `i` is the position of the first field whose path leads to no
/// message.
pub open spec fn is_first_unresolved(collection: NodeModel, fields: Seq<FieldModel>, i: int) -> bool {
    &&& 0 <= i < fields.len()
    &&& collection.find(field_path(fields[i]).segments) is None
    &&& forall|j: int|
        0 <= j < i ==> collection.find(field_path(#[trigger] fields[j]).segments) is Some
}

impl ContextMacroInput {
    /// The span of the struct's name.
    pub closed spec fn span_of(self) -> Span {
        self.span
    }

    /// A context of the given fields.
    pub fn new(ident: String, span: Span, fields: Vec<ContextMacroField>) -> (r: ContextMacroInput)
        ensures
            r@ == (ContextModel { ident: ident@, fields: field_models(fields@) }),
            r.span_of() == span,
    {
        ContextMacroInput { ident, span, fields }
    }

    /// Checks the fields of a struct as they were written and builds the
    /// context. Every field is checked, and all problems are reported, in
    /// the order of the fields. A field must be declared as `String` or
    /// `_`, its path attribute must hold a translation path if it has one,
    /// and it must be named.
    pub fn from_written(
        ident: String,
        span: Span,
        base_path: Option<TranslationPath>,
        written: Vec<WrittenField>,
    ) -> (r: Result<ContextMacroInput, Vec<FieldIssue>>)
        ensures
            match r {
                Ok(input) => {
                    &&& issues_of(written@).len() == 0
                    &&& input@.ident == ident@
                    &&& input.span_of() == span
                    &&& input@.fields.len() == written@.len()
                    &&& forall|i: int|
                        0 <= i < written@.len() ==> #[trigger] input@.fields[i] == checked_field(
                            path_model(base_path),
                            written@[i],
                        )
                },
                Err(issues) => issues@.len() > 0 && issues@ == issues_of(written@),
            },
    {
        let ghost given = written@;
        let total = written.len();
        let mut fields: Vec<ContextMacroField> = Vec::new();
        let mut issues: Vec<FieldIssue> = Vec::new();
        let mut index: usize = 0;
        assert(given.take(0) =~= Seq::<WrittenField>::empty());
        for field in it: written
            invariant
                it.seq() == given,
                given == written@,
                given.len() == total,
                index == it.index(),
                issues@ == issues_of(given.take(it.index())),
                issues@.len() == 0 ==> fields@.len() == it.index(),
                issues@.len() == 0 ==> forall|i: int|
                    0 <= i < it.index() ==> #[trigger] field_models(fields@)[i] == checked_field(
                        path_model(base_path),
                        given[i],
                    ),
        {
            let ghost done = it.index();
            let ghost models = field_models(fields@);
            proof {
                assert(given.take(done + 1).drop_last() =~= given.take(done));
                assert(given.take(done + 1).last() == field);
            }
            match check_field(&base_path, field) {
                Ok(checked) => {
                    fields.push(checked);
                    proof {
                        assert(field_models(fields@) =~= models.push(checked@));
                    }
                },
                Err(problem) => {
                    issues.push(FieldIssue { index, problem });
                },
            }
            proof {
                assert(index < given.len());
            }
            index = index + 1;
        }
        assert(given.take(given.len() as int) =~= given);
        if issues.len() > 0 {
            Err(issues)
        } else {
            Ok(ContextMacroInput { ident, span, fields })
        }
    }

    /// The name of the struct.
    pub fn ident(&self) -> (r: &str)
        ensures
            r@ == self@.ident,
    {
        self.ident.as_str()
    }

    /// The span of the struct's name.
    pub fn span(&self) -> (r: Span)
        ensures
            r == self.span_of(),
    {
        self.span
    }

    /// The fields, in the order they were written.
    pub fn fields(&self) -> (r: &[ContextMacroField])
        ensures
            field_models(r@) == self@.fields,
    {
        self.fields.as_slice()
    }

    /// The message of each field, in the order of the fields. Fails at the
    /// first field whose path leads to no message, with that path as it is
    /// displayed.
    pub fn translations<'r>(&self, translations: &'r TranslationNodeCollection) -> (r: Result<
        Vec<&'r TranslationObject>,
        ContextError,
    >)
        ensures
            match r {
                Ok(objects) => {
                    &&& objects@.len() == self@.fields.len()
                    &&& forall|i: int|
                        0 <= i < objects@.len() ==> translations@.find(
                            field_path(self@.fields[i]).segments,
                        ) == Some((#[trigger] objects@[i])@)
                },
                Err(ContextError::TranslationNotFound(path)) => exists|i: int|
                    is_first_unresolved(translations@, self@.fields, i) && path@ == displayed(
                        field_path(#[trigger] self@.fields[i]),
                    ),
            },
    {
        let mut objects: Vec<&'r TranslationObject> = Vec::new();
        let mut i: usize = 0;
        while i < self.fields.len()
            invariant
                i <= self.fields.len(),
                objects@.len() == i,
                forall|j: int|
                    0 <= j < i ==> translations@.find(field_path(self@.fields[j]).segments)
                        == Some((#[trigger] objects@[j])@),
            decreases self.fields.len() - i,
        {
            let path = self.fields[i].path();
            assert(self@.fields[i as int] == self.fields@[i as int]@);
            match translations.find_path(path.segments()) {
                Some(object) => {
                    objects.push(object);
                },
                None => {
                    let shown = path.static_display();
                    proof {
                        assert forall|j: int| 0 <= j < i implies translations@.find(
                            field_path(#[trigger] self@.fields[j]).segments,
                        ) is Some by {
                            assert(translations@.find(field_path(self@.fields[j]).segments)
                                == Some(objects@[j]@));
                        }
                        assert(is_first_unresolved(translations@, self@.fields, i as int));
                    }
                    return Err(ContextError::TranslationNotFound(shown));
                },
            }
            i = i + 1;
        }
        Ok(objects)
    }
}

} // verus!
