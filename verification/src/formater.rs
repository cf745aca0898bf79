//! How the text of a message is prepared for display: cleaned up, and cut
//! into spans of one style each.

use crate::text::{chars_of, replace, replaced, string_of, trim, trimmed};
use regex::Regex;
use vstd::prelude::*;

verus! {

/// `regex::Regex`, a compiled regular expression.
#[verifier::external_type_specification]
#[verifier::external_body]
pub struct ExRegex(regex::Regex);

/// What `Regex::new` makes of a pattern: the compiled expression, or nothing
/// where the pattern is not accepted.
pub uninterp spec fn regex_compiled(pattern: Seq<char>) -> Option<Regex>;

/// What `Regex::replace_all` makes of a text: the text in which every match
/// of the expression, taken from the left and without overlap, is replaced by
/// the replacement.
pub uninterp spec fn regex_replaced(re: Regex, text: Seq<char>, replacement: Seq<char>) -> Seq<
    char,
>;

/// Calls `Regex::new`. It parses and compiles the pattern with the default
/// configuration, so the outcome depends on the pattern alone; it is what
/// `regex_compiled` names. An error becomes `None`.
#[verifier::external_body]
fn regex_new(pattern: &str) -> (re: Option<Regex>)
    ensures
        re == regex_compiled(pattern@),
{
    Regex::new(pattern).ok()
}

/// Calls `Regex::replace_all` and copies the result. The result depends on
/// the expression, the text and the replacement alone; it is what
/// `regex_replaced` names.
#[verifier::external_body]
fn regex_replace_all(re: &Regex, text: &str, replacement: &str) -> (r: String)
    ensures
        r@ == regex_replaced(*re, text@, replacement@),
{
    re.replace_all(text, replacement).into_owned()
}

/// The style of a span.
#[derive(Clone, Copy, Debug, PartialEq, Eq, Structural)]
pub enum StringType {
    /// Plain text.
    Normal,
    /// Text between two `*`.
    Strong,
    /// Text between quotation marks.
    Quote,
    /// Text between quotation marks inside text between two `*`, or the
    /// other way round.
    StrongQuote,
}

impl StringType {
    /// Whether the style is one of text between quotation marks.
    pub open spec fn quoted(self) -> bool {
        self == StringType::Quote || self == StringType::StrongQuote
    }

    /// The style after a `*`.
    pub open spec fn star(self) -> StringType {
        match self {
            StringType::Normal => StringType::Strong,
            StringType::Strong => StringType::Normal,
            StringType::Quote => StringType::StrongQuote,
            StringType::StrongQuote => StringType::Quote,
        }
    }

    /// The style after a quotation mark.
    pub open spec fn quote(self) -> StringType {
        match self {
            StringType::Normal => StringType::Quote,
            StringType::Quote => StringType::Normal,
            StringType::Strong => StringType::StrongQuote,
            StringType::StrongQuote => StringType::Strong,
        }
    }

    /// The style after a `*`.
    pub fn after_star(self) -> (next: StringType)
        ensures
            next == self.star(),
    {
        match self {
            StringType::Normal => StringType::Strong,
            StringType::Strong => StringType::Normal,
            StringType::Quote => StringType::StrongQuote,
            StringType::StrongQuote => StringType::Quote,
        }
    }

    /// The style after a quotation mark.
    pub fn after_quote(self) -> (next: StringType)
        ensures
            next == self.quote(),
    {
        match self {
            StringType::Normal => StringType::Quote,
            StringType::Quote => StringType::Normal,
            StringType::Strong => StringType::StrongQuote,
            StringType::StrongQuote => StringType::Strong,
        }
    }

    /// Whether the style is one of text between quotation marks.
    pub fn is_quoted(self) -> (b: bool)
        ensures
            b == self.quoted(),
    {
        match self {
            StringType::Quote => true,
            StringType::StrongQuote => true,
            _ => false,
        }
    }
}

/// A piece of text in one style.
#[derive(Debug)]
pub struct Span {
    pub kind: StringType,
    pub text: String,
}

/// A span as a mathematical value.
pub struct SpanView {
    pub kind: StringType,
    pub text: Seq<char>,
}

impl View for Span {
    type V = SpanView;

    open spec fn view(&self) -> SpanView {
        SpanView { kind: self.kind, text: self.text@ }
    }
}

/// The values of a list of spans, one for one.
pub open spec fn span_views(spans: Seq<Span>) -> Seq<SpanView> {
    Seq::new(spans.len(), |i: int| spans[i]@)
}

/// Whether `c` is a quotation mark: the straight one or one of the two
/// curly ones.
pub open spec fn is_quote_mark(c: char) -> bool {
    c == '"' || c == '\u{201C}' || c == '\u{201D}'
}

/// The spans of `chars`, read from a point where the style is `kind` and the
/// span under way holds `current`.
///
/// A `*` ends the span under way and switches strong text on or off; the
/// `*` itself is dropped. A quotation mark outside quoted text ends the span
/// under way and opens a quoted span that starts with the mark; inside quoted
/// text it closes the span, which ends with the mark. Every other character
/// joins the span under way. At the end of the text the span under way is
/// closed; spans may be empty.
pub open spec fn spans_from(chars: Seq<char>, kind: StringType, current: Seq<char>) -> Seq<
    SpanView,
>
    decreases chars.len(),
{
    if chars.len() == 0 {
        seq![SpanView { kind, text: current }]
    } else {
        let c = chars[0];
        let rest = chars.drop_first();
        if c == '*' {
            seq![SpanView { kind, text: current }] + spans_from(rest, kind.star(), Seq::empty())
        } else if is_quote_mark(c) {
            if kind.quoted() {
                seq![SpanView { kind, text: current.push(c) }] + spans_from(
                    rest,
                    kind.quote(),
                    Seq::empty(),
                )
            } else {
                seq![SpanView { kind, text: current }] + spans_from(rest, kind.quote(), seq![c])
            }
        } else {
            spans_from(rest, kind, current.push(c))
        }
    }
}

/// The spans of a text: it is read from the start in the plain style.
pub open spec fn spans_of(text: Seq<char>) -> Seq<SpanView> {
    spans_from(text, StringType::Normal, Seq::empty())
}

/// The pattern of an image in markdown: `![..](..)`.
pub open spec fn image_pattern() -> Seq<char> {
    "!\\[[^\\]]*\\]\\([^)]*\\)"@
}

/// The pattern of three or more line feeds in a row.
pub open spec fn line_feeds_pattern() -> Seq<char> {
    "\\n{3,}"@
}

/// `text` made ready for display with the two compiled expressions: images
/// are taken out, each carriage return with line feed becomes a line feed,
/// three or more line feeds in a row become two, and the whitespace at both
/// ends is cut off.
pub open spec fn cleaned_with(images: Regex, line_feeds: Regex, text: Seq<char>) -> Seq<char> {
    let no_images = regex_replaced(images, text, ""@);
    let no_returns = replaced(no_images, "\r\n"@, "\n"@);
    trimmed(regex_replaced(line_feeds, no_returns, "\n\n"@))
}

/// `text` made ready for display, or nothing where one of the two patterns
/// is not accepted as a regular expression.
pub open spec fn cleaned(text: Seq<char>) -> Option<Seq<char>> {
    match (regex_compiled(image_pattern()), regex_compiled(line_feeds_pattern())) {
        (Some(images), Some(line_feeds)) => Some(cleaned_with(images, line_feeds, text)),
        _ => None,
    }
}

/// Prepares the text of a message for display.
pub struct Formater {}

impl Formater {
    /// `text` made ready for display: images are taken out, line ends are
    /// brought to one form, runs of empty lines are shortened to one, and
    /// the whitespace at both ends is cut off. Nothing where one of the
    /// patterns is not accepted as a regular expression.
    pub fn clean(text: &str) -> (r: Option<String>)
        ensures
            match r {
                Some(s) => cleaned(text@) == Some(s@),
                None => cleaned(text@) is None,
            },
    {
        let image_re = match regex_new("!\\[[^\\]]*\\]\\([^)]*\\)") {
            Some(re) => re,
            None => {
                return None;
            },
        };
        let re_newlines = match regex_new("\\n{3,}") {
            Some(re) => re,
            None => {
                return None;
            },
        };
        let no_images = regex_replace_all(&image_re, text, "");
        let no_backr = replace(no_images.as_str(), "\r\n", "\n");
        let few_linebreaks = regex_replace_all(&re_newlines, no_backr.as_str(), "\n\n");
        Some(trim(few_linebreaks.as_str()))
    }

    /// The spans of a text that is ready for display.
    pub fn spans(text: &str) -> (spans: Vec<Span>)
        ensures
            span_views(spans@) == spans_of(text@),
    {
        let v = chars_of(text);
        let mut spans: Vec<Span> = Vec::new();
        let mut current_type = StringType::Normal;
        let mut current: Vec<char> = Vec::new();
        let mut i: usize = 0;
        assert(v@.skip(0) =~= v@);
        assert(span_views(spans@) + spans_of(v@) =~= spans_of(v@));
        while i < v.len()
            invariant
                i <= v.len(),
                span_views(spans@) + spans_from(v@.skip(i as int), current_type, current@)
                    == spans_of(v@),
            decreases v.len() - i,
        {
            let c = v[i];
            let ghost rest = v@.skip(i as int);
            let ghost done = span_views(spans@);
            let ghost kind = current_type;
            let ghost text_before = current@;
            assert(rest.drop_first() =~= v@.skip(i + 1));
            assert(rest[0] == c);
            if c == '*' {
                spans.push(Span { kind: current_type, text: string_of(&current) });
                current_type = current_type.after_star();
                current = Vec::new();
                proof {
                    let closed = SpanView { kind, text: text_before };
                    assert(span_views(spans@) =~= done.push(closed));
                    assert(done.push(closed) + spans_from(v@.skip(i + 1), kind.star(), Seq::empty())
                        =~= done + (seq![closed] + spans_from(
                        v@.skip(i + 1),
                        kind.star(),
                        Seq::empty(),
                    )));
                }
            } else if c == '"' || c == '\u{201C}' || c == '\u{201D}' {
                if current_type.is_quoted() {
                    current.push(c);
                    spans.push(Span { kind: current_type, text: string_of(&current) });
                    current_type = current_type.after_quote();
                    current = Vec::new();
                    proof {
                        let closed = SpanView { kind, text: text_before.push(c) };
                        assert(span_views(spans@) =~= done.push(closed));
                        assert(done.push(closed) + spans_from(
                            v@.skip(i + 1),
                            kind.quote(),
                            Seq::empty(),
                        ) =~= done + (seq![closed] + spans_from(
                            v@.skip(i + 1),
                            kind.quote(),
                            Seq::empty(),
                        )));
                    }
                } else {
                    spans.push(Span { kind: current_type, text: string_of(&current) });
                    current_type = current_type.after_quote();
                    current = Vec::new();
                    current.push(c);
                    proof {
                        let closed = SpanView { kind, text: text_before };
                        assert(current@ =~= seq![c]);
                        assert(span_views(spans@) =~= done.push(closed));
                        assert(done.push(closed) + spans_from(v@.skip(i + 1), kind.quote(), seq![c])
                            =~= done + (seq![closed] + spans_from(
                            v@.skip(i + 1),
                            kind.quote(),
                            seq![c],
                        )));
                    }
                }
            } else {
                current.push(c);
            }
            i = i + 1;
        }
        let ghost done = span_views(spans@);
        let ghost last = SpanView { kind: current_type, text: current@ };
        assert(v@.skip(i as int) =~= Seq::<char>::empty());
        spans.push(Span { kind: current_type, text: string_of(&current) });
        assert(span_views(spans@) =~= done + seq![last]);
        spans
    }

    /// The spans in which a text is displayed: the spans of the text made
    /// ready for display. Nothing where the text could not be made ready.
    pub fn rich_text(text: &str) -> (spans: Option<Vec<Span>>)
        ensures
            match spans {
                Some(list) => cleaned(text@) matches Some(ready) && span_views(list@) == spans_of(
                    ready,
                ),
                None => cleaned(text@) is None,
            },
    {
        match Self::clean(text) {
            Some(ready) => Some(Self::spans(ready.as_str())),
            None => None,
        }
    }
}

} // verus!
