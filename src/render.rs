use crate::text::{
    is_ascii_punctuation, join_words_lowercase, lemma_slug_words_shape, slug_words,
    well_formed_slug,
};
use vstd::prelude::*;

verus! {

/// A text with every Unicode punctuation and symbol character removed, as
/// the pattern `[\p{P}\p{S}]` of the `regex` crate finds them.
pub uninterp spec fn without_punctuation(s: Seq<char>) -> Seq<char>;

/// The HTML that `pulldown_cmark` renders from a Markdown text with tables,
/// footnotes, strikethrough, task lists, smart punctuation and heading
/// attributes switched on.
pub uninterp spec fn markdown_html(s: Seq<char>) -> Seq<char>;

/// Relies on `regex::Regex::replace_all` with the pattern `[\p{P}\p{S}]` and
/// an empty replacement; a text without characters stays without, and no
/// ASCII punctuation character (each of which is in category P or S) is
/// left.
#[verifier::external_body]
fn strip_punctuation(s: &str) -> (r: String)
    ensures
        r@ == without_punctuation(s@),
        s@.len() == 0 ==> r@.len() == 0,
        forall|i: int| 0 <= i < r@.len() ==> !is_ascii_punctuation(#[trigger] r@[i]),
{
    let pattern = regex::Regex::new(r"(?m)[\p{P}\p{S}]").expect("the pattern is valid");
    pattern.replace_all(s, "").into_owned()
}

/// Relies on `pulldown_cmark::Parser::new_ext` and
/// `pulldown_cmark::html::push_html` to render Markdown as HTML.
#[verifier::external_body]
fn render_markdown(s: &str) -> (r: String)
    ensures
        r@ == markdown_html(s@),
{
    let mut options = pulldown_cmark::Options::empty();
    options.insert(pulldown_cmark::Options::ENABLE_FOOTNOTES);
    options.insert(pulldown_cmark::Options::ENABLE_TASKLISTS);
    options.insert(pulldown_cmark::Options::ENABLE_HEADING_ATTRIBUTES);
    options.insert(pulldown_cmark::Options::ENABLE_SMART_PUNCTUATION);
    options.insert(pulldown_cmark::Options::ENABLE_TABLES);
    options.insert(pulldown_cmark::Options::ENABLE_STRIKETHROUGH);
    let mut html = String::new();
    pulldown_cmark::html::push_html(&mut html, pulldown_cmark::Parser::new_ext(s, options));
    html
}

/// The slug of a title: punctuation and symbols dropped, ASCII letters
/// lowercased, words joined by `-`.
pub open spec fn slug_of(title: Seq<char>) -> Seq<char> {
    slug_words(without_punctuation(title))
}

/// Derives the URL slug of a title.
pub fn slugify(title: &str) -> (r: String)
    ensures
        r@ == slug_of(title@),
        well_formed_slug(r@),
{
    let stripped = strip_punctuation(title);
    proof {
        assert forall|i: int| 0 <= i < stripped@.len() implies stripped@[i] != '-' by {
            assert(!is_ascii_punctuation(stripped@[i]));
        }
        lemma_slug_words_shape(stripped@);
    }
    join_words_lowercase(stripped.as_str())
}

/// Renders a question's or an answer's Markdown source as HTML.
pub fn convert_markdown_to_html(text: &str) -> (r: String)
    ensures
        r@ == markdown_html(text@),
{
    render_markdown(text)
}

} // verus!
