//! Message templates: literal text interleaved with `{name}` placeholders.
//!
//! A placeholder is an opening brace, an identifier and a closing brace,
//! with nothing else between the braces. An identifier is an ASCII letter or
//! underscore followed by ASCII letters, digits and underscores. Any brace
//! that is not part of such a group is ordinary text, so every string is a
//! template and parsing never fails.
//!
//! Rendering fails on the first placeholder, in reading order, that the
//! replacement table has no entry for.

use vstd::prelude::*;
use crate::misc::replacements::Replacements;
use crate::misc::text::chars_of;

verus! {

/// One part of a template, as contracts see it.
pub enum Piece {
    /// Text that is copied to the output as it stands.
    Literal(Seq<char>),
    /// The name of a value to be filled in.
    Placeholder(Seq<char>),
}

/// Whether an identifier may begin with `c`.
pub open spec fn is_ident_start(c: char) -> bool {
    ('a' <= c && c <= 'z') || ('A' <= c && c <= 'Z') || c == '_'
}

/// Whether an identifier may go on with `c`.
pub open spec fn is_ident_part(c: char) -> bool {
    is_ident_start(c) || ('0' <= c && c <= '9')
}

/// Whether `s` is an identifier.
pub open spec fn is_identifier(s: Seq<char>) -> bool {
    &&& s.len() > 0
    &&& is_ident_start(s[0])
    &&& forall|i: int| 0 <= i < s.len() ==> is_ident_part(#[trigger] s[i])
}

/// The first position at or after `from` that holds no identifier
/// character; the length of `s` when there is none.
pub open spec fn ident_end(s: Seq<char>, from: int) -> int
    decreases s.len() - from,
{
    if 0 <= from < s.len() && is_ident_part(s[from]) {
        ident_end(s, from + 1)
    } else {
        from
    }
}

/// Whether a placeholder begins at position `i` of `s`. It then runs up to
/// and including the closing brace at `ident_end(s, i + 1)`.
pub open spec fn placeholder_at(s: Seq<char>, i: int) -> bool {
    &&& 0 <= i
    &&& i + 1 < s.len()
    &&& s[i] == '{'
    &&& is_ident_start(s[i + 1])
    &&& i + 1 < ident_end(s, i + 1)
    &&& ident_end(s, i + 1) < s.len()
    &&& s[ident_end(s, i + 1)] == '}'
}

/// The text between two positions as a literal piece; nothing when the
/// range is empty.
pub open spec fn literal_between(s: Seq<char>, start: int, end: int) -> Seq<Piece> {
    if start < end {
        seq![Piece::Literal(s.subrange(start, end))]
    } else {
        Seq::empty()
    }
}

/// The pieces of `s` from `start` on, where the text from `start` up to `i`
/// is already known to hold no placeholder.
pub open spec fn scan(s: Seq<char>, start: int, i: int) -> Seq<Piece>
    decreases s.len() - i,
{
    if i >= s.len() {
        literal_between(s, start, s.len() as int)
    } else if placeholder_at(s, i) {
        let end = ident_end(s, i + 1);
        literal_between(s, start, i) + seq![Piece::Placeholder(s.subrange(i + 1, end))] + scan(
            s,
            end + 1,
            end + 1,
        )
    } else {
        scan(s, start, i + 1)
    }
}

/// The pieces that a template consists of, read from left to right.
pub open spec fn parse_template(s: Seq<char>) -> Seq<Piece> {
    scan(s, 0, 0)
}

/// A piece as it is written in a template.
pub open spec fn piece_source(p: Piece) -> Seq<char> {
    match p {
        Piece::Literal(text) => text,
        Piece::Placeholder(name) => seq!['{'] + name + seq!['}'],
    }
}

/// A piece as it is written in the output: a literal as it stands, a
/// placeholder as the value that `values` has for it.
pub open spec fn piece_value(p: Piece, values: Map<Seq<char>, Seq<char>>) -> Seq<char> {
    match p {
        Piece::Literal(text) => text,
        Piece::Placeholder(name) => values[name],
    }
}

/// Whether `p` is a placeholder that `values` has no entry for.
pub open spec fn is_missing(p: Piece, values: Map<Seq<char>, Seq<char>>) -> bool {
    p matches Piece::Placeholder(name) && !values.contains_key(name)
}

/// The template that the pieces were read from.
pub open spec fn template_of(pieces: Seq<Piece>) -> Seq<char> {
    pieces.map_values(|p: Piece| piece_source(p)).flatten()
}

/// The pieces written out with every placeholder filled in.
pub open spec fn filled(pieces: Seq<Piece>, values: Map<Seq<char>, Seq<char>>) -> Seq<char> {
    pieces.map_values(|p: Piece| piece_value(p, values)).flatten()
}

/// Whether `values` has an entry for every placeholder among the pieces.
pub open spec fn covers(pieces: Seq<Piece>, values: Map<Seq<char>, Seq<char>>) -> bool {
    forall|i: int| 0 <= i < pieces.len() ==> !is_missing(#[trigger] pieces[i], values)
}

/// Whether `i` is the position of the first placeholder without a value.
pub open spec fn is_first_missing(
    pieces: Seq<Piece>,
    values: Map<Seq<char>, Seq<char>>,
    i: int,
) -> bool {
    &&& 0 <= i < pieces.len()
    &&& is_missing(pieces[i], values)
    &&& forall|j: int| 0 <= j < i ==> !is_missing(#[trigger] pieces[j], values)
}

/// What rendering gives: the filled-in text when every placeholder has a
/// value, else the name of the first placeholder that has none.
pub open spec fn rendered(pieces: Seq<Piece>, values: Map<Seq<char>, Seq<char>>) -> Result<
    Seq<char>,
    Seq<char>,
> {
    if covers(pieces, values) {
        Ok(filled(pieces, values))
    } else {
        let i = choose|i: int| is_first_missing(pieces, values, i);
        Err(pieces[i]->Placeholder_0)
    }
}

/// Whether the pieces could have come from a template: no literal is empty
/// and every placeholder name is an identifier.
pub open spec fn pieces_valid(pieces: Seq<Piece>) -> bool {
    forall|i: int|
        0 <= i < pieces.len() ==> match #[trigger] pieces[i] {
            Piece::Literal(text) => text.len() > 0,
            Piece::Placeholder(name) => is_identifier(name),
        }
}

/// The run of identifier characters that starts at `from` ends at
/// `ident_end`, and holds identifier characters only.
pub proof fn lemma_ident_end(s: Seq<char>, from: int)
    requires
        0 <= from <= s.len(),
    ensures
        from <= ident_end(s, from) <= s.len(),
        forall|k: int| from <= k < ident_end(s, from) ==> is_ident_part(#[trigger] s[k]),
        ident_end(s, from) < s.len() ==> !is_ident_part(s[ident_end(s, from)]),
    decreases s.len() - from,
{
    if from < s.len() && is_ident_part(s[from]) {
        lemma_ident_end(s, from + 1);
    }
}

/// A placeholder begins at `i` exactly when an opening brace stands at
/// `i`, a closing brace stands somewhere behind it, and what lies between
/// the two is an identifier.
pub proof fn lemma_placeholder_is_braced_identifier(s: Seq<char>, i: int)
    requires
        0 <= i < s.len(),
    ensures
        placeholder_at(s, i) <==> exists|j: int|
            i < j < s.len() && s[i] == '{' && s[j] == '}' && is_identifier(
                #[trigger] s.subrange(i + 1, j),
            ),
{
    lemma_ident_end(s, i + 1);
    let end = ident_end(s, i + 1);
    if placeholder_at(s, i) {
        lemma_placeholder_name(s, i);
        assert(is_identifier(s.subrange(i + 1, end)));
    }
    if exists|j: int|
        i < j < s.len() && s[i] == '{' && s[j] == '}' && is_identifier(
            #[trigger] s.subrange(i + 1, j),
        ) {
        let j = choose|j: int|
            i < j < s.len() && s[i] == '{' && s[j] == '}' && is_identifier(
                #[trigger] s.subrange(i + 1, j),
            );
        let name = s.subrange(i + 1, j);
        assert(name.len() > 0);
        assert(name[0] == s[i + 1]);
        if end < j {
            assert(name[end - i - 1] == s[end]);
            assert(is_ident_part(name[end - i - 1]));
        }
        if end > j {
            assert(is_ident_part(s[j]));
        }
        assert(end == j);
    }
}

/// Writing out two runs of pieces one after the other writes out their
/// concatenation.
pub proof fn lemma_template_of_concat(a: Seq<Piece>, b: Seq<Piece>)
    ensures
        template_of(a + b) == template_of(a) + template_of(b),
{
    let f = |p: Piece| piece_source(p);
    assert((a + b).map_values(f) =~= a.map_values(f) + b.map_values(f));
    vstd::seq_lib::lemma_flatten_concat(a.map_values(f), b.map_values(f));
}

proof fn lemma_template_of_one(p: Piece)
    ensures
        template_of(seq![p]) == piece_source(p),
{
    let f = |p: Piece| piece_source(p);
    let one = seq![p].map_values(f);
    assert(one =~= seq![piece_source(p)]);
    one.lemma_flatten_one_element();
    assert(one.first() == piece_source(p));
}

proof fn lemma_template_of_literal_between(s: Seq<char>, start: int, end: int)
    requires
        0 <= start <= end <= s.len(),
    ensures
        template_of(literal_between(s, start, end)) == s.subrange(start, end),
        pieces_valid(literal_between(s, start, end)),
{
    if start < end {
        lemma_template_of_one(Piece::Literal(s.subrange(start, end)));
    } else {
        let f = |p: Piece| piece_source(p);
        assert(Seq::<Piece>::empty().map_values(f) =~= Seq::<Seq<char>>::empty());
        assert(s.subrange(start, end) =~= Seq::<char>::empty());
    }
}

proof fn lemma_pieces_valid_concat(a: Seq<Piece>, b: Seq<Piece>)
    requires
        pieces_valid(a),
        pieces_valid(b),
    ensures
        pieces_valid(a + b),
{
    assert forall|i: int| 0 <= i < (a + b).len() implies match #[trigger] (a + b)[i] {
        Piece::Literal(text) => text.len() > 0,
        Piece::Placeholder(name) => is_identifier(name),
    } by {
        if i < a.len() {
            assert((a + b)[i] == a[i]);
        } else {
            assert((a + b)[i] == b[i - a.len()]);
        }
    }
}

proof fn lemma_placeholder_name(s: Seq<char>, i: int)
    requires
        placeholder_at(s, i),
    ensures
        is_identifier(s.subrange(i + 1, ident_end(s, i + 1))),
        piece_source(Piece::Placeholder(s.subrange(i + 1, ident_end(s, i + 1)))) == s.subrange(
            i,
            ident_end(s, i + 1) + 1,
        ),
{
    let end = ident_end(s, i + 1);
    lemma_ident_end(s, i + 1);
    let name = s.subrange(i + 1, end);
    assert forall|k: int| 0 <= k < name.len() implies is_ident_part(#[trigger] name[k]) by {
        assert(name[k] == s[i + 1 + k]);
    }
    assert(seq!['{'] + name + seq!['}'] =~= s.subrange(i, end + 1));
}

proof fn lemma_scan(s: Seq<char>, start: int, i: int)
    requires
        0 <= start <= i <= s.len(),
    ensures
        template_of(scan(s, start, i)) == s.subrange(start, s.len() as int),
        pieces_valid(scan(s, start, i)),
    decreases s.len() - i,
{
    if i >= s.len() {
        lemma_template_of_literal_between(s, start, s.len() as int);
    } else if placeholder_at(s, i) {
        let end = ident_end(s, i + 1);
        let head = literal_between(s, start, i);
        let name = Piece::Placeholder(s.subrange(i + 1, end));
        let rest = scan(s, end + 1, end + 1);
        lemma_scan(s, end + 1, end + 1);
        lemma_template_of_literal_between(s, start, i);
        lemma_placeholder_name(s, i);
        lemma_template_of_one(name);
        lemma_template_of_concat(head, seq![name]);
        lemma_template_of_concat(head + seq![name], rest);
        assert(s.subrange(start, i) + s.subrange(i, end + 1) + s.subrange(end + 1, s.len() as int)
            =~= s.subrange(start, s.len() as int));
        assert(pieces_valid(seq![name]));
        lemma_pieces_valid_concat(head, seq![name]);
        lemma_pieces_valid_concat(head + seq![name], rest);
    } else {
        lemma_scan(s, start, i + 1);
    }
}

/// Writing the pieces of a template out again gives the template back,
/// character for character.
pub proof fn lemma_template_round_trip(template: Seq<char>)
    ensures
        template_of(parse_template(template)) == template,
{
    lemma_scan(template, 0, 0);
    assert(template.subrange(0, template.len() as int) =~= template);
}

/// The pieces of a template never hold an empty literal, and every
/// placeholder among them is named by an identifier.
pub proof fn lemma_parse_gives_valid_pieces(template: Seq<char>)
    ensures
        pieces_valid(parse_template(template)),
{
    lemma_scan(template, 0, 0);
}

/// Rendering a template with a value for each of its placeholders succeeds.
/// The output and the template are made of the same pieces in the same
/// order: a literal piece stands in both unchanged, and where the template
/// has `{name}` the output has the value of `name`.
pub proof fn lemma_render_replaces_every_placeholder(
    template: Seq<char>,
    values: Map<Seq<char>, Seq<char>>,
)
    requires
        covers(parse_template(template), values),
    ensures
        rendered(parse_template(template), values) == Ok::<Seq<char>, Seq<char>>(
            parse_template(template).map_values(|p: Piece| piece_value(p, values)).flatten(),
        ),
        template == parse_template(template).map_values(|p: Piece| piece_source(p)).flatten(),
        forall|i: int|
            0 <= i < parse_template(template).len() ==> match #[trigger] parse_template(template)[i] {
                Piece::Literal(text) => piece_value(parse_template(template)[i], values) == text
                    && piece_source(parse_template(template)[i]) == text,
                Piece::Placeholder(name) => piece_value(parse_template(template)[i], values)
                    == values[name] && piece_source(parse_template(template)[i]) == seq!['{'] + name
                    + seq!['}'],
            },
{
    lemma_template_round_trip(template);
}

/// A template without placeholders renders as itself, whatever the values.
pub proof fn lemma_plain_text_renders_unchanged(
    template: Seq<char>,
    values: Map<Seq<char>, Seq<char>>,
)
    requires
        forall|i: int| 0 <= i < template.len() ==> !placeholder_at(template, i),
    ensures
        rendered(parse_template(template), values) == Ok::<Seq<char>, Seq<char>>(template),
{
    lemma_scan_plain(template, 0, 0);
    let pieces = parse_template(template);
    assert(pieces == literal_between(template, 0, template.len() as int));
    assert(covers(pieces, values));
    let f = |p: Piece| piece_value(p, values);
    if template.len() > 0 {
        let one = pieces.map_values(f);
        assert(template.subrange(0, template.len() as int) =~= template);
        assert(one =~= seq![template]);
        one.lemma_flatten_one_element();
        assert(one.first() == template);
    } else {
        assert(pieces.map_values(f) =~= Seq::<Seq<char>>::empty());
        assert(template =~= Seq::<char>::empty());
    }
}

proof fn lemma_scan_plain(s: Seq<char>, start: int, i: int)
    requires
        0 <= start <= i <= s.len(),
        forall|k: int| 0 <= k < s.len() ==> !placeholder_at(s, k),
    ensures
        scan(s, start, i) == literal_between(s, start, s.len() as int),
    decreases s.len() - i,
{
    if i < s.len() {
        lemma_scan_plain(s, start, i + 1);
    }
}

/// One part of a parsed template.
#[derive(Debug)]
enum Segment {
    Literal(String),
    Placeholder(String),
}

impl Segment {
    spec fn piece(self) -> Piece {
        match self {
            Segment::Literal(text) => Piece::Literal(text@),
            Segment::Placeholder(name) => Piece::Placeholder(name@),
        }
    }

    fn duplicate(&self) -> (r: Segment)
        ensures
            r.piece() == self.piece(),
    {
        match self {
            Segment::Literal(text) => Segment::Literal(text.clone()),
            Segment::Placeholder(name) => Segment::Placeholder(name.clone()),
        }
    }
}

spec fn pieces_of(segments: Seq<Segment>) -> Seq<Piece> {
    segments.map_values(|s: Segment| s.piece())
}

/// Why a template could not be rendered.
#[derive(Clone, Debug)]
pub enum TemplateError {
    /// The replacement table has no entry for the placeholder of this name.
    MissingPlaceholder(String),
}

/// A parsed message template.
#[derive(Debug)]
pub struct FormatString {
    segments: Vec<Segment>,
}

impl View for FormatString {
    type V = Seq<Piece>;

    closed spec fn view(&self) -> Seq<Piece> {
        pieces_of(self.segments@)
    }
}

impl Clone for FormatString {
    /// A copy that holds the same pieces.
    fn clone(&self) -> (r: FormatString)
        ensures
            r@ == self@,
    {
        proof {
            use_type_invariant(self);
        }
        let mut segments: Vec<Segment> = Vec::new();
        let mut i: usize = 0;
        while i < self.segments.len()
            invariant
                i <= self.segments.len(),
                pieces_of(segments@) == pieces_of(self.segments@).take(i as int),
            decreases self.segments.len() - i,
        {
            let ghost before = pieces_of(segments@);
            let copy = self.segments[i].duplicate();
            segments.push(copy);
            assert(pieces_of(segments@) =~= before.push(copy.piece()));
            assert(pieces_of(self.segments@).take(i + 1) =~= before.push(copy.piece()));
            i = i + 1;
        }
        assert(pieces_of(self.segments@).take(i as int) =~= pieces_of(self.segments@));
        FormatString { segments }
    }
}

fn ident_start(c: char) -> (r: bool)
    ensures
        r == is_ident_start(c),
{
    ('a' <= c && c <= 'z') || ('A' <= c && c <= 'Z') || c == '_'
}

fn ident_part(c: char) -> (r: bool)
    ensures
        r == is_ident_part(c),
{
    ident_start(c) || ('0' <= c && c <= '9')
}

impl FormatString {
    #[verifier::type_invariant]
    spec fn valid(self) -> bool {
        pieces_valid(pieces_of(self.segments@))
    }

    /// Reads a template. Every string is a template: a `{name}` group with
    /// an identifier between the braces is a placeholder, everything else
    /// is literal text.
    pub fn parse(template: &str) -> (r: FormatString)
        ensures
            r@ == parse_template(template@),
            pieces_valid(r@),
    {
        let chars = chars_of(template);
        let n = chars.len();
        let ghost s = template@;
        let mut segments: Vec<Segment> = Vec::new();
        let mut start: usize = 0;
        let mut i: usize = 0;
        assert(pieces_of(segments@) + scan(s, 0, 0) =~= scan(s, 0, 0));
        while i < n
            invariant
                s == template@,
                chars@ == s,
                n == chars.len(),
                start <= i <= n,
                parse_template(s) == pieces_of(segments@) + scan(s, start as int, i as int),
                pieces_valid(pieces_of(segments@)),
            decreases n - i,
        {
            let mut end: usize = i + 1;
            let mut is_placeholder = false;
            if chars[i] == '{' && i + 1 < n && ident_start(chars[i + 1]) {
                while end < n && ident_part(chars[end])
                    invariant
                        chars@ == s,
                        n == chars.len(),
                        i + 1 <= end <= n,
                        ident_end(s, i + 1) == ident_end(s, end as int),
                    decreases n - end,
                {
                    end = end + 1;
                }
                is_placeholder = end < n && chars[end] == '}';
                assert(ident_end(s, i + 1) == end);
                assert(is_placeholder == placeholder_at(s, i as int));
            }
            if is_placeholder {
                let ghost before = pieces_of(segments@);
                let ghost head = literal_between(s, start as int, i as int);
                let ghost name = Piece::Placeholder(s.subrange(i + 1, end as int));
                if start < i {
                    let text = template.substring_char(start, i).to_owned();
                    segments.push(Segment::Literal(text));
                }
                assert(pieces_of(segments@) =~= before + head);
                let name_text = template.substring_char(i + 1, end).to_owned();
                segments.push(Segment::Placeholder(name_text));
                proof {
                    assert(pieces_of(segments@) =~= before + head + seq![name]);
                    assert(before + (head + seq![name] + scan(s, end + 1, end + 1)) =~= before
                        + head + seq![name] + scan(s, end + 1, end + 1));
                    lemma_placeholder_name(s, i as int);
                    lemma_template_of_literal_between(s, start as int, i as int);
                    assert(pieces_valid(seq![name]));
                    lemma_pieces_valid_concat(before, head);
                    lemma_pieces_valid_concat(before + head, seq![name]);
                }
                start = end + 1;
                i = end + 1;
            } else {
                i = i + 1;
            }
        }
        let ghost before = pieces_of(segments@);
        if start < n {
            let text = template.substring_char(start, n).to_owned();
            segments.push(Segment::Literal(text));
        }
        proof {
            assert(pieces_of(segments@) =~= before + literal_between(s, start as int, n as int));
            lemma_template_of_literal_between(s, start as int, n as int);
            lemma_pieces_valid_concat(before, literal_between(s, start as int, n as int));
        }
        FormatString { segments }
    }

    /// The template this format string was read from.
    pub fn template(&self) -> (out: String)
        ensures
            out@ == template_of(self@),
    {
        let ghost f = |p: Piece| piece_source(p);
        let ghost sources = self@.map_values(f);
        let mut out = String::new();
        let mut i: usize = 0;
        assert(sources.take(0) =~= Seq::<Seq<char>>::empty());
        while i < self.segments.len()
            invariant
                i <= self.segments.len(),
                sources == self@.map_values(f),
                f == (|p: Piece| piece_source(p)),
                out@ == sources.take(i as int).flatten(),
            decreases self.segments.len() - i,
        {
            proof {
                assert(sources.take(i + 1) =~= sources.take(i as int).push(sources[i as int]));
                sources.take(i as int).lemma_flatten_push(sources[i as int]);
                assert(sources[i as int] == piece_source(self.segments@[i as int].piece()));
            }
            match &self.segments[i] {
                Segment::Literal(text) => {
                    out.append(text.as_str());
                },
                Segment::Placeholder(name) => {
                    let ghost start = out@;
                    out.append("{");
                    out.append(name.as_str());
                    out.append("}");
                    proof {
                        reveal_strlit("{");
                        reveal_strlit("}");
                        assert("{"@ =~= seq!['{']);
                        assert("}"@ =~= seq!['}']);
                        assert(out@ =~= start + (seq!['{'] + name@ + seq!['}']));
                    }
                },
            }
            i = i + 1;
        }
        assert(sources.take(i as int) =~= sources);
        out
    }

    /// Writes the template out with each placeholder replaced by its value.
    /// Fails on the first placeholder, in reading order, that
    /// `replacements` has no entry for, and names it.
    pub fn replace_with(&self, replacements: &Replacements) -> (r: Result<String, TemplateError>)
        ensures
            match r {
                Ok(text) => rendered(self@, replacements@) == Ok::<Seq<char>, Seq<char>>(text@),
                Err(TemplateError::MissingPlaceholder(name)) => rendered(self@, replacements@)
                    == Err::<Seq<char>, Seq<char>>(name@),
            },
    {
        let ghost values = replacements@;
        let ghost f = |p: Piece| piece_value(p, values);
        let ghost outputs = self@.map_values(f);
        let mut out = String::new();
        let mut i: usize = 0;
        assert(outputs.take(0) =~= Seq::<Seq<char>>::empty());
        while i < self.segments.len()
            invariant
                i <= self.segments.len(),
                values == replacements@,
                outputs == self@.map_values(f),
                f == (|p: Piece| piece_value(p, values)),
                out@ == outputs.take(i as int).flatten(),
                forall|j: int| 0 <= j < i ==> !is_missing(#[trigger] self@[j], values),
            decreases self.segments.len() - i,
        {
            proof {
                assert(outputs.take(i + 1) =~= outputs.take(i as int).push(outputs[i as int]));
                outputs.take(i as int).lemma_flatten_push(outputs[i as int]);
                assert(self@[i as int] == self.segments@[i as int].piece());
            }
            match &self.segments[i] {
                Segment::Literal(text) => {
                    out.append(text.as_str());
                },
                Segment::Placeholder(name) => {
                    match replacements.get(name.as_str()) {
                        Some(value) => {
                            out.append(value.as_str());
                        },
                        None => {
                            proof {
                                assert(is_first_missing(self@, values, i as int));
                                assert(!covers(self@, values));
                                let k = choose|k: int| is_first_missing(self@, values, k);
                                assert(k == i);
                            }
                            return Err(TemplateError::MissingPlaceholder(name.clone()));
                        },
                    }
                },
            }
            i = i + 1;
        }
        assert(outputs.take(i as int) =~= outputs);
        Ok(out)
    }
}

} // verus!
