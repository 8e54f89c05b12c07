use vstd::prelude::*;

use crate::encode::{enc_of, encode_component, is_unreserved};
use crate::meta::{WorkError, WorkMetadata};
use crate::template::minify_markup;
use crate::text::{dec_str, is_digit_char, lemma_dec_str_digits, u64_to_dec};
use crate::EmbedRequest;

verus! {

/// The canonical origin that every redirect points back at.
pub open spec fn origin() -> Seq<char> {
    "https://archiveofourown.org"@
}

pub open spec fn opt_string_view(o: Option<String>) -> Option<Seq<char>> {
    match o {
        Some(s) => Some(s@),
        None => None,
    }
}

/// The origin URL of a work: its id and whatever trailing path the request
/// carried (none becomes an empty trailing segment).
pub open spec fn work_url_spec(id: u64, path: Option<Seq<char>>) -> Seq<char> {
    origin() + "/works/"@ + dec_str(id as nat) + "/"@ + (match path {
        Some(p) => p,
        None => Seq::<char>::empty(),
    })
}

/// Builds the origin URL of a work, exactly as `work_url_spec` describes.
pub fn work_redirect_url(id: u64, path: &Option<String>) -> (r: String)
    ensures
        r@ == work_url_spec(id, opt_string_view(*path)),
{
    let mut s = String::from_str("https://archiveofourown.org");
    s.append("/works/");
    s.append(u64_to_dec(id).as_str());
    s.append("/");
    match path {
        Some(p) => {
            s.append(p.as_str());
        },
        None => {},
    }
    proof {
        assert(s@ =~= work_url_spec(id, opt_string_view(*path)));
    }
    s
}

/// Rewrites only scheme and authority: any unrecognized request is answered
/// with the same path and query on the origin.
pub fn fallback_redirect_url(path_and_query: &str) -> (r: String)
    ensures
        r@ == origin() + path_and_query@,
{
    let mut s = String::from_str("https://archiveofourown.org");
    s.append(path_and_query);
    s
}

/// Whether the default signature list classifies a user agent as a bot.
pub uninterp spec fn is_bot_of(ua: Seq<char>) -> bool;

/// Relies on isbot::Bots::is_bot with the default signature list: a pure
/// function of the user-agent string.
#[verifier::external_body]
fn is_bot_exec(user_agent: &str) -> (r: bool)
    ensures
        r == is_bot_of(user_agent@),
{
    isbot::Bots::default().is_bot(user_agent)
}

/// Classifies a caller by its user-agent string: true for a bot-like
/// caller, false for a human-like one.
pub fn classify_bot(user_agent: &str) -> (r: bool)
    ensures
        r == is_bot_of(user_agent@),
{
    is_bot_exec(user_agent)
}

/// What the request gate decides for a view-work request before anything is
/// rendered.
#[derive(Debug, PartialEq)]
pub enum WorkPlan {
    /// Answer with a redirect to this URL.
    Redirect(String),
    /// Serve a preview of this work; the flag says whether the metadata was
    /// freshly fetched and should be put in the cache.
    Serve(WorkMetadata, bool),
}

/// The final answer of a view-work request.
#[derive(Debug, PartialEq)]
pub enum WorkOutcome {
    /// The minified preview document.
    Preview(String),
    /// A redirect to this URL.
    Redirect(String),
}

/// Whether a view-work request is served a preview rather than redirected:
/// exactly when a bot-classified caller has metadata in hand, from the cache
/// or from a successful fetch-and-extract.
pub open spec fn serves_preview(
    is_bot: bool,
    cached: Option<WorkMetadata>,
    fetched: Option<Result<WorkMetadata, WorkError>>,
) -> bool {
    is_bot && (cached is Some || fetched matches Some(Ok(_)))
}

/// Decides a view-work request from the caller's classification, the cache
/// outcome and, on a miss, the fetch-and-extract outcome.
///
/// A human-classified caller is always redirected to the work's origin URL,
/// whatever the cache holds. A bot-classified caller is served the cached
/// metadata unchanged on a hit (nothing is fetched then), the fetched
/// metadata on a successful miss (to be cached), and the same redirect when
/// the fetch or the extraction failed.
pub fn work_response_plan(
    id: u64,
    path: &Option<String>,
    is_bot: bool,
    cached: Option<WorkMetadata>,
    fetched: Option<Result<WorkMetadata, WorkError>>,
) -> (r: WorkPlan)
    requires
        is_bot ==> ((cached is None) <==> (fetched is Some)),
    ensures
        (r is Serve) == serves_preview(is_bot, cached, fetched),
        (r is Redirect) == !serves_preview(is_bot, cached, fetched),
        r matches WorkPlan::Redirect(u) ==> u@ == work_url_spec(id, opt_string_view(*path)),
        !is_bot ==> (r matches WorkPlan::Redirect(u) && u@ == work_url_spec(
            id,
            opt_string_view(*path),
        )),
        is_bot ==> (cached matches Some(w) ==> (r matches WorkPlan::Serve(sw, fresh) && sw == w
            && fresh == false)),
        (is_bot && cached is None) ==> (fetched matches Some(Ok(w)) ==> (r
            matches WorkPlan::Serve(sw, fresh) && sw == w && fresh == true)),
        (is_bot && cached is None) ==> (fetched matches Some(Err(_)) ==> (r
            matches WorkPlan::Redirect(u) && u@ == work_url_spec(id, opt_string_view(*path)))),
{
    if !is_bot {
        return WorkPlan::Redirect(work_redirect_url(id, path));
    }
    match cached {
        Some(w) => WorkPlan::Serve(w, false),
        None => {
            match fetched {
                Some(Ok(w)) => WorkPlan::Serve(w, true),
                Some(Err(_)) => WorkPlan::Redirect(work_redirect_url(id, path)),
                None => {
                    proof {
                        assert(false);
                    }
                    WorkPlan::Redirect(work_redirect_url(id, path))
                },
            }
        },
    }
}

/// Finishes a view-work request once a preview was rendered (or failed to
/// render): a successful render is minified and served, and any failure
/// before or during minification degrades to the same redirect.
pub fn work_response_finish(id: u64, path: &Option<String>, rendered: Result<String, WorkError>)
    -> (r: WorkOutcome)
    ensures
        (r is Preview) == (rendered matches Ok(h) && vstd::utf8::valid_utf8(
            crate::template::minified_of(vstd::utf8::encode_utf8(h@)),
        )),
        r matches WorkOutcome::Redirect(u) ==> u@ == work_url_spec(id, opt_string_view(*path)),
        (match rendered {
            Ok(h) => {
                if vstd::utf8::valid_utf8(
                    crate::template::minified_of(vstd::utf8::encode_utf8(h@)),
                ) {
                    r matches WorkOutcome::Preview(t) && t@ == vstd::utf8::decode_utf8(
                        crate::template::minified_of(vstd::utf8::encode_utf8(h@)),
                    )
                } else {
                    r matches WorkOutcome::Redirect(u) && u@ == work_url_spec(
                        id,
                        opt_string_view(*path),
                    )
                }
            },
            Err(_) => r matches WorkOutcome::Redirect(u) && u@ == work_url_spec(
                id,
                opt_string_view(*path),
            ),
        }),
{
    match rendered {
        Ok(h) => {
            match minify_markup(h.as_str()) {
                Ok(t) => WorkOutcome::Preview(t),
                Err(_) => WorkOutcome::Redirect(work_redirect_url(id, path)),
            }
        },
        Err(_) => WorkOutcome::Redirect(work_redirect_url(id, path)),
    }
}

/// The fixed-shape embed descriptor, an oEmbed-style record.
#[derive(Debug, PartialEq)]
pub struct EmbedResponse {
    pub version: String,
    pub embed_type: String,
    pub author_name: String,
    pub author_url: String,
    pub provider_name: String,
    pub provider_url: String,
}

/// The human-readable summary line of an embed descriptor: word count,
/// current and total chapters, and the publication date.
pub open spec fn embed_summary_spec(
    words: u64,
    chapters: u16,
    total_chapters: Seq<char>,
    date: Seq<char>,
) -> Seq<char> {
    dec_str(words as nat) + " \u{270F}\u{FE0F} "@ + dec_str(chapters as nat) + " / "@
        + total_chapters + " \u{1F4DA} "@ + date + " \u{1F552}"@
}

/// Builds the embed descriptor for an embed request: fixed provider fields,
/// the summary line, the work's origin URL, and the author's profile URL
/// with the author's name percent-encoded.
pub fn embed_response(req: &EmbedRequest) -> (r: EmbedResponse)
    ensures
        r.version@ == "1.0"@,
        r.embed_type@ == "rich"@,
        r.author_name@ == embed_summary_spec(req.words, req.chapters, req.total_chapters@, req.date@),
        r.author_url@ == origin() + "/works/"@ + dec_str(req.id as nat),
        r.provider_name@ == req.author@,
        r.provider_url@ == origin() + "/users/"@ + enc_of(req.author@),
{
    let mut author_name = u64_to_dec(req.words);
    author_name.append(" \u{270F}\u{FE0F} ");
    author_name.append(u64_to_dec(req.chapters as u64).as_str());
    author_name.append(" / ");
    author_name.append(req.total_chapters.as_str());
    author_name.append(" \u{1F4DA} ");
    author_name.append(req.date.as_str());
    author_name.append(" \u{1F552}");
    let id_text = u64_to_dec(req.id);
    proof {
        lemma_dec_str_digits(req.id as nat);
        assert forall|i: int| 0 <= i < id_text@.len() implies is_unreserved(
            #[trigger] id_text@[i],
        ) by {
            assert(is_digit_char(id_text@[i]));
        }
    }
    let id_enc = encode_component(id_text.as_str());
    let mut author_url = String::from_str("https://archiveofourown.org");
    author_url.append("/works/");
    author_url.append(id_enc.as_str());
    let mut provider_url = String::from_str("https://archiveofourown.org");
    provider_url.append("/users/");
    provider_url.append(encode_component(req.author.as_str()).as_str());
    let r = EmbedResponse {
        version: String::from_str("1.0"),
        embed_type: String::from_str("rich"),
        author_name,
        author_url,
        provider_name: req.author.clone(),
        provider_url,
    };
    proof {
        assert(r.author_name@ =~= embed_summary_spec(
            req.words,
            req.chapters,
            req.total_chapters@,
            req.date@,
        ));
        assert(r.author_url@ =~= origin() + "/works/"@ + dec_str(req.id as nat));
        assert(r.provider_url@ =~= origin() + "/users/"@ + enc_of(req.author@));
    }
    r
}

} // verus!
