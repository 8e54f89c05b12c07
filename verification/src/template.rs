use vstd::prelude::*;
use vstd::string::*;

use crate::encode::{enc_of, encode_component};
use crate::meta::{MetaSpec, WorkError, WorkMetadata};
use crate::text::{dec_str, u64_to_dec};
use crate::EmbedRequest;

verus! {

/// A label wrapped in double quotes.
pub open spec fn quoted(s: Seq<char>) -> Seq<char> {
    "\""@ + s + "\""@
}

/// The items each wrapped in double quotes and joined by `, `, in order.
pub open spec fn join_sep(items: Seq<Seq<char>>) -> Seq<char>
    decreases items.len(),
{
    if items.len() == 0 {
        Seq::empty()
    } else if items.len() == 1 {
        quoted(items[0])
    } else {
        join_sep(items.drop_last()) + ", "@ + quoted(items.last())
    }
}

/// Joins label texts, each quoted, with `, `, exactly as `join_sep`
/// describes.
pub fn join_quoted(strings: Vec<String>) -> (r: String)
    ensures
        r@ == join_sep(strings.deep_view()),
{
    let mut acc = String::new();
    let n: usize = strings.len();
    let mut i: usize = 0;
    while i < n
        invariant
            n == strings@.len(),
            0 <= i <= n,
            acc@ == join_sep(strings.deep_view().take(i as int)),
        decreases n - i,
    {
        if i > 0 {
            acc.append(", ");
        }
        acc.append("\"");
        acc.append(strings[i].as_str());
        acc.append("\"");
        proof {
            let d = strings.deep_view();
            assert(d.take(i + 1).drop_last() =~= d.take(i as int));
            assert(d.take(i + 1).last() == d[i as int]);
            assert(d[i as int] == strings@[i as int]@);
            assert(acc@ =~= join_sep(d.take(i + 1)));
        }
        i = i + 1;
    }
    proof {
        assert(strings.deep_view().take(n as int) =~= strings.deep_view());
    }
    acc
}

/// The preview description: the quoted warning labels, the quoted character
/// labels, and the quoted free-form tags, each group joined with `, `, the
/// groups separated by line breaks.
pub open spec fn description_spec(m: MetaSpec) -> Seq<char> {
    join_sep(m.warnings) + "\n"@ + join_sep(m.characters) + "\n"@ + join_sep(m.tags)
}

/// The text put in the embed URL for the total chapter count: the count in
/// decimal, or `?` for a still-updating work.
pub open spec fn total_chapters_text(tc: Option<u16>) -> Seq<char> {
    match tc {
        Some(n) => dec_str(n as nat),
        None => "?"@,
    }
}

/// The query string of an embed descriptor URL: the six fields in a fixed
/// order, each value percent-encoded where it may need it.
pub open spec fn embed_query_of(
    id: u64,
    author: Seq<char>,
    words: u64,
    chapters: u16,
    total: Seq<char>,
    date: Seq<char>,
) -> Seq<char> {
    "id="@ + dec_str(id as nat) + "&author="@ + enc_of(author) + "&words="@ + dec_str(
        words as nat,
    ) + "&chapters="@ + dec_str(chapters as nat) + "&total_chapters="@ + enc_of(total) + "&date="@
        + enc_of(date)
}

/// Builds an embed descriptor query string, exactly as `embed_query_of`
/// describes.
pub fn embed_query(req: &EmbedRequest) -> (r: String)
    ensures
        r@ == embed_query_of(
            req.id,
            req.author@,
            req.words,
            req.chapters,
            req.total_chapters@,
            req.date@,
        ),
{
    let mut s = String::new();
    s.append("id=");
    s.append(u64_to_dec(req.id).as_str());
    s.append("&author=");
    s.append(encode_component(req.author.as_str()).as_str());
    s.append("&words=");
    s.append(u64_to_dec(req.words).as_str());
    s.append("&chapters=");
    s.append(u64_to_dec(req.chapters as u64).as_str());
    s.append("&total_chapters=");
    s.append(encode_component(req.total_chapters.as_str()).as_str());
    s.append("&date=");
    s.append(encode_component(req.date.as_str()).as_str());
    proof {
        assert(s@ =~= embed_query_of(
            req.id,
            req.author@,
            req.words,
            req.chapters,
            req.total_chapters@,
            req.date@,
        ));
    }
    s
}

/// The record a preview document is rendered from.
#[derive(Debug, Clone, PartialEq)]
pub struct WorkTemplate {
    pub id: u64,
    pub redirect_url: String,
    pub author_url: String,
    pub title: String,
    pub author: String,
    pub description: String,
    pub embed_url: String,
}

/// The mathematical shadow of `WorkTemplate`.
pub struct TemplateSpec {
    pub id: u64,
    pub redirect_url: Seq<char>,
    pub author_url: Seq<char>,
    pub title: Seq<char>,
    pub author: Seq<char>,
    pub description: Seq<char>,
    pub embed_url: Seq<char>,
}

impl View for WorkTemplate {
    type V = TemplateSpec;

    open spec fn view(&self) -> TemplateSpec {
        TemplateSpec {
            id: self.id,
            redirect_url: self.redirect_url@,
            author_url: self.author_url@,
            title: self.title@,
            author: self.author@,
            description: self.description@,
            embed_url: self.embed_url@,
        }
    }
}

/// What composing a template from metadata yields: the scalar fields carried
/// over, the description composed from the label groups, and the embed URL
/// built on the given host.
pub open spec fn template_spec(m: MetaSpec, host: Seq<char>) -> TemplateSpec {
    TemplateSpec {
        id: m.id,
        redirect_url: m.redirect_url,
        author_url: m.author_url,
        title: m.title,
        author: m.author,
        description: description_spec(m),
        embed_url: host + "/oembed?"@ + embed_query_of(
            m.id,
            m.author,
            m.words,
            m.chapter,
            total_chapters_text(m.total_chapters),
            m.published_date,
        ),
    }
}

impl WorkTemplate {
    /// Composes the preview template record from a work's metadata and the
    /// host the embed URL should point at, exactly as `template_spec`
    /// describes.
    pub fn from_work(work: WorkMetadata, host: &str) -> (r: WorkTemplate)
        ensures
            r@ == template_spec(work@, host@),
    {
        let total_chapters: String = match work.total_chapters {
            Some(n) => u64_to_dec(n as u64),
            None => String::from_str("?"),
        };
        let embed_request = EmbedRequest {
            id: work.id,
            author: work.author.clone(),
            words: work.words,
            chapters: work.chapter,
            total_chapters,
            date: work.published_date.clone(),
        };
        let query = embed_query(&embed_request);
        let mut embed_url = String::from_str(host);
        embed_url.append("/oembed?");
        embed_url.append(query.as_str());
        let warnings = join_quoted(work.warnings);
        let characters = join_quoted(work.characters);
        let tags = join_quoted(work.tags);
        let mut description = warnings;
        description.append("\n");
        description.append(characters.as_str());
        description.append("\n");
        description.append(tags.as_str());
        let r = WorkTemplate {
            id: work.id,
            redirect_url: work.redirect_url,
            author_url: work.author_url,
            title: work.title,
            author: work.author,
            description,
            embed_url,
        };
        proof {
            assert(r.embed_url@ =~= template_spec(work@, host@).embed_url);
            assert(r.description@ =~= description_spec(work@));
        }
        r
    }
}

/// The minifier's output on given bytes.
pub uninterp spec fn minified_of(bytes: Seq<u8>) -> Seq<u8>;

/// Relies on minify_html::minify with the default configuration (doctype
/// left alone, attribute quoting kept spec-compliant, spaces between
/// attributes kept): a pure function of the input bytes.
#[verifier::external_body]
fn minify_bytes(src: Vec<u8>) -> (r: Vec<u8>)
    ensures
        r@ == minified_of(src@),
{
    minify_html::minify(&src, &minify_html::Cfg::new())
}

/// Relies on String::from_utf8: succeeds exactly on valid UTF-8 input and
/// returns the text those bytes encode.
#[verifier::external_body]
fn string_from_utf8(bytes: Vec<u8>) -> (r: Option<String>)
    ensures
        (match r {
            Some(s) => vstd::utf8::valid_utf8(bytes@) && s@ == vstd::utf8::decode_utf8(bytes@),
            None => !vstd::utf8::valid_utf8(bytes@),
        }),
{
    String::from_utf8(bytes).ok()
}

/// Minifies rendered preview markup and checks that the minified bytes are
/// still valid text; the only failure is `Minify`, exactly when they are not.
pub fn minify_markup(html: &str) -> (r: Result<String, WorkError>)
    ensures
        (match r {
            Ok(t) => vstd::utf8::valid_utf8(minified_of(vstd::utf8::encode_utf8(html@))) && t@
                == vstd::utf8::decode_utf8(minified_of(vstd::utf8::encode_utf8(html@))),
            Err(e) => e == WorkError::Minify && !vstd::utf8::valid_utf8(
                minified_of(vstd::utf8::encode_utf8(html@)),
            ),
        }),
{
    let bytes = html.as_bytes_vec();
    let minified = minify_bytes(bytes);
    match string_from_utf8(minified) {
        Some(t) => Ok(t),
        None => Err(WorkError::Minify),
    }
}

} // verus!
