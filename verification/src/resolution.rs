//! Resolution: from a path, a language and replacement values to the
//! rendered message or a precise error.
//!
//! A request is resolved in three steps. The path is looked up in the
//! collection. Then a rendering is selected: when a fallback language is
//! configured, the message must be written in it, whether or not the
//! requested language is there too; the requested language is taken where
//! the message has it, and the fallback otherwise. Last, the selected
//! template is rendered with the replacement values.
//!
//! The steps are also offered one by one, so that a caller who knows the
//! path or the language early can do the first steps once and keep what
//! they gave.

use vstd::prelude::*;
use crate::macro_input::translation_path::{displayed, separator, TranslationPath};
use crate::misc::language::Language;
use crate::misc::replacements::Replacements;
use crate::misc::templating::{rendered, FormatString, Piece, TemplateError};
use crate::misc::text::{join_with, joined, texts};
use crate::translations::collection::TranslationNodeCollection;
use crate::translations::node::{NodeModel, ObjectModel, TranslationObject};

verus! {

/// Why a request could not be resolved.
#[derive(Clone, Debug)]
pub enum ResolutionError {
    /// The collection has no message at the path, given here as text.
    PathNotFound(String),
    /// The message at the path is not written in the requested language,
    /// and no fallback language is configured.
    LanguageNotAvailable(Language, String),
    /// A fallback language is configured, and the message at the path is
    /// not written in it.
    FallbackNotAvailable(Language, String),
    /// The selected template has a placeholder of this name, and the
    /// replacement values have no entry for it.
    MissingPlaceholder(String),
}

/// What contracts say of an error.
pub enum ErrorModel {
    /// No message at the path.
    PathNotFound(Seq<char>),
    /// The requested language is missing at the path.
    LanguageNotAvailable(Language, Seq<char>),
    /// The fallback language is missing at the path.
    FallbackNotAvailable(Language, Seq<char>),
    /// No value for the placeholder.
    MissingPlaceholder(Seq<char>),
}

impl View for ResolutionError {
    type V = ErrorModel;

    open spec fn view(&self) -> ErrorModel {
        match self {
            ResolutionError::PathNotFound(path) => ErrorModel::PathNotFound(path@),
            ResolutionError::LanguageNotAvailable(language, path) => {
                ErrorModel::LanguageNotAvailable(*language, path@)
            },
            ResolutionError::FallbackNotAvailable(language, path) => {
                ErrorModel::FallbackNotAvailable(*language, path@)
            },
            ResolutionError::MissingPlaceholder(name) => ErrorModel::MissingPlaceholder(name@),
        }
    }
}

/// The rendering of the fallback language, where one is configured: `Ok`
/// with the rendering, or with nothing when no fallback is configured, and
/// `Err` with the fallback language when the message is not written in it.
pub open spec fn fallback_of(object: ObjectModel, fallback: Option<Language>) -> Result<
    Option<Seq<Piece>>,
    Language,
> {
    match fallback {
        Some(language) => if object.contains_key(language) {
            Ok(Some(object[language]))
        } else {
            Err(language)
        },
        None => Ok(None),
    }
}

/// The rendering to use: that of the requested language where the message
/// has it, else the fallback rendering, else none.
pub open spec fn chosen(object: ObjectModel, language: Language, fallback: Option<Seq<Piece>>)
    -> Option<Seq<Piece>> {
    if object.contains_key(language) {
        Some(object[language])
    } else {
        fallback
    }
}

/// The template that a message gives for a language under a fallback
/// setting, or the error, with `path` as the text that names the message.
pub open spec fn selected(
    object: ObjectModel,
    language: Language,
    fallback: Option<Language>,
    path: Seq<char>,
) -> Result<Seq<Piece>, ErrorModel> {
    match fallback_of(object, fallback) {
        Err(missing) => Err(ErrorModel::FallbackNotAvailable(missing, path)),
        Ok(rendering) => match chosen(object, language, rendering) {
            Some(pieces) => Ok(pieces),
            None => Err(ErrorModel::LanguageNotAvailable(language, path)),
        },
    }
}

/// The text that a template renders to, or the error that names the
/// placeholder without a value.
pub open spec fn filled_in(pieces: Seq<Piece>, values: Map<Seq<char>, Seq<char>>) -> Result<
    Seq<char>,
    ErrorModel,
> {
    match rendered(pieces, values) {
        Ok(text) => Ok(text),
        Err(name) => Err(ErrorModel::MissingPlaceholder(name)),
    }
}

/// What resolving a request gives. `display` is the text that names the
/// path in errors.
pub open spec fn resolved(
    collection: NodeModel,
    path: Seq<Seq<char>>,
    display: Seq<char>,
    language: Language,
    fallback: Option<Language>,
    values: Map<Seq<char>, Seq<char>>,
) -> Result<Seq<char>, ErrorModel> {
    match collection.find(path) {
        None => Err(ErrorModel::PathNotFound(display)),
        Some(object) => match selected(object, language, fallback, display) {
            Err(error) => Err(error),
            Ok(pieces) => filled_in(pieces, values),
        },
    }
}

/// Whether an outcome of the library is the outcome that a contract names:
/// the same text on success, the same error on failure.
pub open spec fn same_outcome(got: Result<String, ResolutionError>, want: Result<Seq<char>, ErrorModel>)
    -> bool {
    match got {
        Ok(text) => want == Ok::<Seq<char>, ErrorModel>(text@),
        Err(error) => want == Err::<Seq<char>, ErrorModel>(error@),
    }
}

/// The message at a path, or `PathNotFound` with the path as it is
/// displayed.
pub fn get_translation_object<'r>(
    translations: &'r TranslationNodeCollection,
    path: &TranslationPath,
) -> (r: Result<&'r TranslationObject, ResolutionError>)
    ensures
        match r {
            Ok(object) => translations@.find(path@.segments) == Some(object@),
            Err(error) => translations@.find(path@.segments) is None && error@
                == ErrorModel::PathNotFound(displayed(path@)),
        },
{
    match translations.find_path(path.segments()) {
        Some(object) => Ok(object),
        None => Err(ResolutionError::PathNotFound(path.static_display())),
    }
}

/// The rendering in the fallback language. Without a configured fallback
/// there is nothing to find and nothing wrong. With one, the message must
/// be written in it: else the result is `FallbackNotAvailable` with the
/// fallback language and the path as it is displayed.
pub fn get_fallback_translation<'r>(
    original_path: &TranslationPath,
    translation: &'r TranslationObject,
    fallback_language: Option<Language>,
) -> (r: Result<Option<&'r FormatString>, ResolutionError>)
    ensures
        match r {
            Ok(Some(text)) => fallback_of(translation@, fallback_language) == Ok::<
                Option<Seq<Piece>>,
                Language,
            >(Some(text@)),
            Ok(None) => fallback_of(translation@, fallback_language) == Ok::<
                Option<Seq<Piece>>,
                Language,
            >(None),
            Err(error) => fallback_of(translation@, fallback_language) is Err && error@
                == ErrorModel::FallbackNotAvailable(
                fallback_of(translation@, fallback_language)->Err_0,
                displayed(original_path@),
            ),
        },
{
    match fallback_language {
        Some(language) => match translation.get(&language) {
            Some(text) => Ok(Some(text)),
            None => Err(
                ResolutionError::FallbackNotAvailable(language, original_path.static_display()),
            ),
        },
        None => Ok(None),
    }
}

/// The template to render when both the path and the language are known:
/// the message is looked up, the fallback is checked, and the rendering of
/// the requested language is taken, or that of the fallback.
pub fn select_translation<'r>(
    translations: &'r TranslationNodeCollection,
    fallback_language: Option<Language>,
    language: Language,
    path: &TranslationPath,
) -> (r: Result<&'r FormatString, ResolutionError>)
    ensures
        match r {
            Ok(text) => translations@.find(path@.segments) is Some && selected(
                translations@.find(path@.segments)->0,
                language,
                fallback_language,
                displayed(path@),
            ) == Ok::<Seq<Piece>, ErrorModel>(text@),
            Err(error) => match translations@.find(path@.segments) {
                None => error@ == ErrorModel::PathNotFound(displayed(path@)),
                Some(object) => selected(object, language, fallback_language, displayed(path@))
                    == Err::<Seq<Piece>, ErrorModel>(error@),
            },
        },
{
    let object = match get_translation_object(translations, path) {
        Ok(object) => object,
        Err(error) => {
            return Err(error);
        },
    };
    let fallback = match get_fallback_translation(path, object, fallback_language) {
        Ok(fallback) => fallback,
        Err(error) => {
            return Err(error);
        },
    };
    match object.get(&language) {
        Some(text) => Ok(text),
        None => match fallback {
            Some(text) => Ok(text),
            None => Err(ResolutionError::LanguageNotAvailable(language, path.static_display())),
        },
    }
}

/// What is settled when the path is known and the language is not yet:
/// the message at the path, and its fallback rendering where a fallback is
/// configured.
pub fn select_object<'r>(
    translations: &'r TranslationNodeCollection,
    fallback_language: Option<Language>,
    path: &TranslationPath,
) -> (r: Result<(&'r TranslationObject, Option<&'r FormatString>), ResolutionError>)
    ensures
        match r {
            Ok((object, fallback)) => {
                &&& translations@.find(path@.segments) == Some(object@)
                &&& fallback_of(object@, fallback_language) == Ok::<Option<Seq<Piece>>, Language>(
                    match fallback {
                        Some(text) => Some(text@),
                        None => None,
                    },
                )
            },
            Err(error) => match translations@.find(path@.segments) {
                None => error@ == ErrorModel::PathNotFound(displayed(path@)),
                Some(object) => fallback_of(object, fallback_language) is Err && error@
                    == ErrorModel::FallbackNotAvailable(
                    fallback_of(object, fallback_language)->Err_0,
                    displayed(path@),
                ),
            },
        },
{
    let object = match get_translation_object(translations, path) {
        Ok(object) => object,
        Err(error) => {
            return Err(error);
        },
    };
    match get_fallback_translation(path, object, fallback_language) {
        Ok(fallback) => Ok((object, fallback)),
        Err(error) => Err(error),
    }
}

/// Renders a template with the replacement values.
pub fn render(text: &FormatString, replacements: &Replacements) -> (r: Result<
    String,
    ResolutionError,
>)
    ensures
        same_outcome(r, filled_in(text@, replacements@)),
{
    match text.replace_with(replacements) {
        Ok(out) => Ok(out),
        Err(TemplateError::MissingPlaceholder(name)) => Err(
            ResolutionError::MissingPlaceholder(name),
        ),
    }
}

/// Finishes a request whose path was settled before: takes the rendering
/// of `language` where the message has it, else the fallback rendering
/// found earlier, and renders it. Without either, the result is
/// `LanguageNotAvailable` with `path` as the text that names the message.
pub fn resolve_in_object(
    object: &TranslationObject,
    language: Language,
    fallback: Option<&FormatString>,
    path: &str,
    replacements: &Replacements,
) -> (r: Result<String, ResolutionError>)
    ensures
        same_outcome(
            r,
            match chosen(
                object@,
                language,
                match fallback {
                    Some(text) => Some(text@),
                    None => None,
                },
            ) {
                Some(pieces) => filled_in(pieces, replacements@),
                None => Err(ErrorModel::LanguageNotAvailable(language, path@)),
            },
        ),
{
    let text = match object.get(&language) {
        Some(text) => text,
        None => match fallback {
            Some(text) => text,
            None => {
                return Err(ResolutionError::LanguageNotAvailable(language, path.to_owned()));
            },
        },
    };
    render(text, replacements)
}

/// Resolves a request: looks up the message at `path`, selects the
/// rendering for `language` under the configured fallback, and renders it
/// with `replacements`. In errors the path is named by its segments joined
/// with `::`.
pub fn resolve(
    translations: &TranslationNodeCollection,
    path: &Vec<String>,
    language: Language,
    fallback_language: Option<Language>,
    replacements: &Replacements,
) -> (r: Result<String, ResolutionError>)
    ensures
        same_outcome(
            r,
            resolved(
                translations@,
                texts(path@),
                joined(texts(path@), separator()),
                language,
                fallback_language,
                replacements@,
            ),
        ),
{
    proof {
        reveal_strlit("::");
        assert("::"@ =~= separator());
    }
    let object = match translations.find_path(path) {
        Some(object) => object,
        None => {
            return Err(ResolutionError::PathNotFound(join_with(path, "::")));
        },
    };
    let fallback = match fallback_language {
        Some(fallback) => match object.get(&fallback) {
            Some(text) => Some(text),
            None => {
                return Err(
                    ResolutionError::FallbackNotAvailable(fallback, join_with(path, "::")),
                );
            },
        },
        None => None,
    };
    let text = match object.get(&language) {
        Some(text) => text,
        None => match fallback {
            Some(text) => text,
            None => {
                return Err(
                    ResolutionError::LanguageNotAvailable(language, join_with(path, "::")),
                );
            },
        },
    };
    render(text, replacements)
}

/// How much of a request is settled before the final call.
#[derive(Clone, Copy, Debug, PartialEq, Eq, Structural)]
pub enum ResolutionMode {
    /// Path and language are both known: the template is selected once.
    AllStatic,
    /// Only the path is known: the message is looked up and its fallback
    /// checked once, and the language is chosen per call.
    PathStatic,
    /// The path is known only per call: everything happens per call.
    AllDynamic,
}

impl ResolutionMode {
    /// The mode for a request, from what is known of it ahead of time. A
    /// language known early helps only when the path is known early too.
    pub fn select(language_is_static: bool, path_is_static: bool) -> (r: ResolutionMode)
        ensures
            r == if path_is_static {
                if language_is_static {
                    ResolutionMode::AllStatic
                } else {
                    ResolutionMode::PathStatic
                }
            } else {
                ResolutionMode::AllDynamic
            },
    {
        if language_is_static && path_is_static {
            ResolutionMode::AllStatic
        } else if path_is_static {
            ResolutionMode::PathStatic
        } else {
            ResolutionMode::AllDynamic
        }
    }
}

/// Resolving in one step gives what the steps give one after the other:
/// selecting the template of a known path and language and rendering it
/// later is the same as resolving at the time of the call.
pub proof fn lemma_modes_agree(
    collection: NodeModel,
    path: Seq<Seq<char>>,
    display: Seq<char>,
    language: Language,
    fallback: Option<Language>,
    values: Map<Seq<char>, Seq<char>>,
)
    ensures
        resolved(collection, path, display, language, fallback, values) == match collection.find(
            path,
        ) {
            None => Err(ErrorModel::PathNotFound(display)),
            Some(object) => match fallback_of(object, fallback) {
                Err(missing) => Err(ErrorModel::FallbackNotAvailable(missing, display)),
                Ok(rendering) => match chosen(object, language, rendering) {
                    Some(pieces) => filled_in(pieces, values),
                    None => Err(ErrorModel::LanguageNotAvailable(language, display)),
                },
            },
        },
{
}

/// The fallback rule. Where the message lacks the requested language and
/// has the fallback, the request succeeds with the fallback's rendering.
/// Where a fallback is configured and the message lacks it, the request
/// fails with `FallbackNotAvailable`, even if the requested language is
/// there. Where no fallback is configured and the message lacks the
/// requested language, the request fails with `LanguageNotAvailable`.
pub proof fn lemma_fallback_rule(
    collection: NodeModel,
    path: Seq<Seq<char>>,
    display: Seq<char>,
    language: Language,
    fallback: Option<Language>,
    values: Map<Seq<char>, Seq<char>>,
)
    requires
        collection.find(path) is Some,
    ensures
        ({
            let object = collection.find(path)->0;
            let outcome = resolved(collection, path, display, language, fallback, values);
            &&& (fallback is Some && !object.contains_key(language) && object.contains_key(
                fallback->0,
            )) ==> outcome == filled_in(object[fallback->0], values)
            &&& (fallback is Some && !object.contains_key(fallback->0)) ==> outcome == Err::<
                Seq<char>,
                ErrorModel,
            >(ErrorModel::FallbackNotAvailable(fallback->0, display))
            &&& (fallback is None && !object.contains_key(language)) ==> outcome == Err::<
                Seq<char>,
                ErrorModel,
            >(ErrorModel::LanguageNotAvailable(language, display))
            &&& (object.contains_key(language) && (fallback is Some ==> object.contains_key(
                fallback->0,
            ))) ==> outcome == filled_in(object[language], values)
        }),
{
}

} // verus!
