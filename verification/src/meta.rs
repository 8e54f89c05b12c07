use vstd::prelude::*;

use crate::chapters::{chapters, chapters_in_range, chapters_spec};
use crate::markup::{attr_val, pat_of, sel_in, texts_of, Elem};
use crate::text::{parse_u64_commas, parse_u64_spec, strip_commas};

verus! {

/// A work's public metadata, as one extraction saw it.
#[derive(Debug, Clone, PartialEq)]
pub struct WorkMetadata {
    pub id: u64,
    pub redirect_url: String,
    pub title: String,
    pub author: String,
    pub author_url: String,
    pub published_date: String,
    pub fandoms: Vec<String>,
    pub warnings: Vec<String>,
    pub relationships: Vec<String>,
    pub characters: Vec<String>,
    pub tags: Vec<String>,
    pub words: u64,
    pub chapter: u16,
    pub total_chapters: Option<u16>,
}

/// The mathematical shadow of `WorkMetadata`: every text as a sequence of
/// characters.
pub struct MetaSpec {
    pub id: u64,
    pub redirect_url: Seq<char>,
    pub title: Seq<char>,
    pub author: Seq<char>,
    pub author_url: Seq<char>,
    pub published_date: Seq<char>,
    pub fandoms: Seq<Seq<char>>,
    pub warnings: Seq<Seq<char>>,
    pub relationships: Seq<Seq<char>>,
    pub characters: Seq<Seq<char>>,
    pub tags: Seq<Seq<char>>,
    pub words: u64,
    pub chapter: u16,
    pub total_chapters: Option<u16>,
}

impl View for WorkMetadata {
    type V = MetaSpec;

    open spec fn view(&self) -> MetaSpec {
        MetaSpec {
            id: self.id,
            redirect_url: self.redirect_url@,
            title: self.title@,
            author: self.author@,
            author_url: self.author_url@,
            published_date: self.published_date@,
            fandoms: self.fandoms.deep_view(),
            warnings: self.warnings.deep_view(),
            relationships: self.relationships.deep_view(),
            characters: self.characters.deep_view(),
            tags: self.tags.deep_view(),
            words: self.words,
            chapter: self.chapter,
            total_chapters: self.total_chapters,
        }
    }
}

/// Why serving a work's preview failed.
#[derive(Debug, Clone, Copy, PartialEq, Eq, Structural)]
pub enum WorkError {
    /// A mandatory part of the document was not found.
    WorkError,
    /// The chapters token was rejected by the grammar, or its pair broke
    /// the chapter invariant.
    ParsingError,
    /// The document could not be fetched.
    RequestError,
    /// The preview document could not be rendered.
    TemplatingError,
    /// The minified preview was not valid text.
    Minify,
    /// A numeric field did not parse.
    IntError,
}

/// What extraction yields on a given document, step for step: each mandatory
/// structural query is tried in a fixed order, and the first one that fails
/// decides the error; otherwise every field is read from its fixed query.
///
/// The two schema variants share this definition and differ only in their
/// structural markers: the pattern of the metadata block and of the title.
pub open spec fn extract_spec(
    id: u64,
    redirect_url: Seq<char>,
    doc: Elem,
    block_tag: &str,
    block_class: &str,
    title_tag: &str,
    title_class: &str,
) -> Result<MetaSpec, WorkError> {
    let metas = sel_in(doc, pat_of(block_tag, Some(block_class), None));
    let titles = sel_in(doc, pat_of(title_tag, Some(title_class), None));
    let authors = sel_in(doc, pat_of("a", None, Some(("rel", "author"))));
    if metas.len() == 0 {
        Err(WorkError::WorkError)
    } else {
        let meta = metas[0];
        let statss = sel_in(meta, pat_of("dl", Some("stats"), None));
        if statss.len() == 0 {
            Err(WorkError::WorkError)
        } else if titles.len() == 0 {
            Err(WorkError::WorkError)
        } else if authors.len() == 0 {
            Err(WorkError::WorkError)
        } else if attr_val(authors[0].attrs@, "href"@) is None {
            Err(WorkError::WorkError)
        } else {
            let stats = statss[0];
            let rating_dds = sel_in(meta, pat_of("dd", Some("rating"), None));
            let warning_dds = sel_in(meta, pat_of("dd", Some("warning"), None));
            let category_dds = sel_in(meta, pat_of("dd", Some("category"), None));
            let fandom_dds = sel_in(meta, pat_of("dd", Some("fandom"), None));
            let relationship_dds = sel_in(meta, pat_of("dd", Some("relationship"), None));
            let character_dds = sel_in(meta, pat_of("dd", Some("character"), None));
            let freeform_dds = sel_in(meta, pat_of("dd", Some("freeform"), None));
            if rating_dds.len() == 0 {
                Err(WorkError::WorkError)
            } else if sel_in(rating_dds[0], pat_of("a", Some("tag"), None)).len() == 0 {
                Err(WorkError::WorkError)
            } else if warning_dds.len() == 0 {
                Err(WorkError::WorkError)
            } else if category_dds.len() == 0 {
                Err(WorkError::WorkError)
            } else if sel_in(category_dds[0], pat_of("a", Some("tag"), None)).len() == 0 {
                Err(WorkError::WorkError)
            } else if fandom_dds.len() == 0 {
                Err(WorkError::WorkError)
            } else if relationship_dds.len() == 0 {
                Err(WorkError::WorkError)
            } else if character_dds.len() == 0 {
                Err(WorkError::WorkError)
            } else if freeform_dds.len() == 0 {
                Err(WorkError::WorkError)
            } else {
                let published_dds = sel_in(stats, pat_of("dd", Some("published"), None));
                let words_dds = sel_in(stats, pat_of("dd", Some("words"), None));
                let chapters_dds = sel_in(stats, pat_of("dd", Some("chapters"), None));
                if published_dds.len() == 0 {
                    Err(WorkError::WorkError)
                } else if words_dds.len() == 0 {
                    Err(WorkError::WorkError)
                } else if parse_u64_spec(strip_commas(words_dds[0].text@)) is None {
                    Err(WorkError::IntError)
                } else if chapters_dds.len() == 0 {
                    Err(WorkError::WorkError)
                } else if chapters_spec(chapters_dds[0].text@) is None {
                    Err(WorkError::ParsingError)
                } else if !chapters_in_range(chapters_spec(chapters_dds[0].text@)->Some_0) {
                    Err(WorkError::ParsingError)
                } else {
                    let ch = chapters_spec(chapters_dds[0].text@)->Some_0;
                    Ok(
                        MetaSpec {
                            id: id,
                            redirect_url: redirect_url,
                            title: titles[0].text@,
                            author: authors[0].text@,
                            author_url: attr_val(authors[0].attrs@, "href"@)->Some_0,
                            published_date: published_dds[0].text@,
                            fandoms: texts_of(
                                sel_in(fandom_dds[0], pat_of("a", Some("tag"), None)),
                            ),
                            warnings: texts_of(
                                sel_in(warning_dds[0], pat_of("a", Some("tag"), None)),
                            ),
                            relationships: texts_of(
                                sel_in(relationship_dds[0], pat_of("a", Some("tag"), None)),
                            ),
                            characters: texts_of(
                                sel_in(character_dds[0], pat_of("a", Some("tag"), None)),
                            ),
                            tags: texts_of(
                                sel_in(freeform_dds[0], pat_of("a", Some("tag"), None)),
                            ),
                            words: parse_u64_spec(strip_commas(words_dds[0].text@))->Some_0,
                            chapter: ch.0,
                            total_chapters: ch.1,
                        },
                    )
                }
            }
        }
    }
}

/// Whether every mandatory structural field of the single-work schema is
/// present in the document.
pub open spec fn mandatory_present(
    doc: Elem,
    block_tag: &str,
    block_class: &str,
    title_tag: &str,
    title_class: &str,
) -> bool {
    let metas = sel_in(doc, pat_of(block_tag, Some(block_class), None));
    metas.len() > 0 && {
        let meta = metas[0];
        let statss = sel_in(meta, pat_of("dl", Some("stats"), None));
        let authors = sel_in(doc, pat_of("a", None, Some(("rel", "author"))));
        let rating_dds = sel_in(meta, pat_of("dd", Some("rating"), None));
        let category_dds = sel_in(meta, pat_of("dd", Some("category"), None));
        statss.len() > 0 && sel_in(doc, pat_of(title_tag, Some(title_class), None)).len() > 0
            && authors.len() > 0 && attr_val(authors[0].attrs@, "href"@) is Some
            && rating_dds.len() > 0 && sel_in(rating_dds[0], pat_of("a", Some("tag"), None)).len()
            > 0 && sel_in(meta, pat_of("dd", Some("warning"), None)).len() > 0
            && category_dds.len() > 0 && sel_in(
            category_dds[0],
            pat_of("a", Some("tag"), None),
        ).len() > 0 && sel_in(meta, pat_of("dd", Some("fandom"), None)).len() > 0 && sel_in(
            meta,
            pat_of("dd", Some("relationship"), None),
        ).len() > 0 && sel_in(meta, pat_of("dd", Some("character"), None)).len() > 0 && sel_in(
            meta,
            pat_of("dd", Some("freeform"), None),
        ).len() > 0 && {
            let stats = statss[0];
            sel_in(stats, pat_of("dd", Some("published"), None)).len() > 0 && sel_in(
                stats,
                pat_of("dd", Some("words"), None),
            ).len() > 0 && sel_in(stats, pat_of("dd", Some("chapters"), None)).len() > 0
        }
    }
}

/// Whether every numeric field that the document offers to extraction
/// parses: the word count after separator stripping, and the chapters token
/// under its grammar with its chapter invariant kept. Fields whose blocks
/// are absent put no demand here.
pub open spec fn numbers_parse(doc: Elem, block_tag: &str, block_class: &str) -> bool {
    let metas = sel_in(doc, pat_of(block_tag, Some(block_class), None));
    metas.len() == 0 || {
        let statss = sel_in(metas[0], pat_of("dl", Some("stats"), None));
        statss.len() == 0 || {
            let words_dds = sel_in(statss[0], pat_of("dd", Some("words"), None));
            let chapters_dds = sel_in(statss[0], pat_of("dd", Some("chapters"), None));
            (words_dds.len() == 0 || parse_u64_spec(strip_commas(words_dds[0].text@)) is Some) && (
            chapters_dds.len() == 0 || (chapters_spec(chapters_dds[0].text@) matches Some(c)
                && chapters_in_range(c)))
        }
    }
}

/// Extraction is all-or-nothing: a document missing any one mandatory field
/// is rejected with the not-found error, regardless of how many other
/// fields are present and well-formed.
pub proof fn lemma_extract_all_or_nothing(
    id: u64,
    redirect_url: Seq<char>,
    doc: Elem,
    block_tag: &str,
    block_class: &str,
    title_tag: &str,
    title_class: &str,
)
    requires
        !mandatory_present(doc, block_tag, block_class, title_tag, title_class),
        numbers_parse(doc, block_tag, block_class),
    ensures
        extract_spec(id, redirect_url, doc, block_tag, block_class, title_tag, title_class)
            == Err::<MetaSpec, WorkError>(WorkError::WorkError),
{
}

/// Extraction succeeds exactly when every mandatory field is present and
/// every numeric field parses (the chapters pair keeping its invariant).
pub proof fn lemma_extract_ok_iff(
    id: u64,
    redirect_url: Seq<char>,
    doc: Elem,
    block_tag: &str,
    block_class: &str,
    title_tag: &str,
    title_class: &str,
)
    ensures
        (extract_spec(id, redirect_url, doc, block_tag, block_class, title_tag, title_class)
            is Ok) <==> (mandatory_present(doc, block_tag, block_class, title_tag, title_class)
            && numbers_parse(doc, block_tag, block_class)),
{
}

/// A constructed record keeps the chapter invariant: the current chapter
/// number never exceeds the total chapter count when one is present
/// (extraction rejects a token that would break it).
pub proof fn lemma_chapter_within_total(
    id: u64,
    redirect_url: Seq<char>,
    doc: Elem,
    m: MetaSpec,
    block_tag: &str,
    block_class: &str,
    title_tag: &str,
    title_class: &str,
)
    requires
        extract_spec(id, redirect_url, doc, block_tag, block_class, title_tag, title_class)
            == Ok::<MetaSpec, WorkError>(m),
    ensures
        m.total_chapters matches Some(total) ==> m.chapter <= total,
{
}

/// The texts of the `a.tag` elements under the first `dd` of the given
/// class inside the document's metadata block, in document order.
pub open spec fn list_tag_texts(doc: Elem, block_tag: &str, block_class: &str, class: &str)
    -> Seq<Seq<char>> {
    let meta = sel_in(doc, pat_of(block_tag, Some(block_class), None))[0];
    let dds = sel_in(meta, pat_of("dd", Some(class), None));
    texts_of(sel_in(dds[0], pat_of("a", Some("tag"), None)))
}

/// List fields preserve document order: a successful extraction's list
/// fields are exactly the texts of the matching tags, in the order the
/// document holds them, never reordered.
pub proof fn lemma_list_fields_document_order(
    id: u64,
    redirect_url: Seq<char>,
    doc: Elem,
    m: MetaSpec,
    block_tag: &str,
    block_class: &str,
    title_tag: &str,
    title_class: &str,
)
    requires
        extract_spec(id, redirect_url, doc, block_tag, block_class, title_tag, title_class)
            == Ok::<MetaSpec, WorkError>(m),
    ensures
        m.fandoms == list_tag_texts(doc, block_tag, block_class, "fandom"),
        m.warnings == list_tag_texts(doc, block_tag, block_class, "warning"),
        m.relationships == list_tag_texts(doc, block_tag, block_class, "relationship"),
        m.characters == list_tag_texts(doc, block_tag, block_class, "character"),
        m.tags == list_tag_texts(doc, block_tag, block_class, "freeform"),
{
}

impl WorkMetadata {
    /// Applies one schema variant to a parsed document: all-or-nothing
    /// extraction of every field, exactly as `extract_spec` describes for
    /// the given structural markers.
    pub fn extract_entry(
        id: u64,
        redirect_url: &str,
        doc: &Elem,
        block_tag: &str,
        block_class: &str,
        title_tag: &str,
        title_class: &str,
    ) -> (r: Result<WorkMetadata, WorkError>)
        ensures
            (match r {
                Ok(m) => extract_spec(
                    id,
                    redirect_url@,
                    *doc,
                    block_tag,
                    block_class,
                    title_tag,
                    title_class,
                ) == Ok::<MetaSpec, WorkError>(m@),
                Err(e) => extract_spec(
                    id,
                    redirect_url@,
                    *doc,
                    block_tag,
                    block_class,
                    title_tag,
                    title_class,
                ) == Err::<MetaSpec, WorkError>(e),
            }),
    {
        let meta = match crate::markup::select_first(doc, block_tag, Some(block_class), None) {
            Some(x) => x,
            None => {
                return Err(WorkError::WorkError);
            },
        };
        let stats = match crate::markup::select_first(meta, "dl", Some("stats"), None) {
            Some(x) => x,
            None => {
                return Err(WorkError::WorkError);
            },
        };
        let title_el = match crate::markup::select_first(doc, title_tag, Some(title_class), None) {
            Some(x) => x,
            None => {
                return Err(WorkError::WorkError);
            },
        };
        let author_el = match crate::markup::select_first(doc, "a", None, Some(("rel", "author"))) {
            Some(x) => x,
            None => {
                return Err(WorkError::WorkError);
            },
        };
        let author_url = match crate::markup::attr_value(author_el, "href") {
            Some(v) => v.clone(),
            None => {
                return Err(WorkError::WorkError);
            },
        };
        let rating_dd = match crate::markup::select_first(meta, "dd", Some("rating"), None) {
            Some(x) => x,
            None => {
                return Err(WorkError::WorkError);
            },
        };
        match crate::markup::select_first(rating_dd, "a", Some("tag"), None) {
            Some(_) => {},
            None => {
                return Err(WorkError::WorkError);
            },
        };
        let warning_dd = match crate::markup::select_first(meta, "dd", Some("warning"), None) {
            Some(x) => x,
            None => {
                return Err(WorkError::WorkError);
            },
        };
        let warnings = crate::markup::select_texts(warning_dd, "a", Some("tag"), None);
        let category_dd = match crate::markup::select_first(meta, "dd", Some("category"), None) {
            Some(x) => x,
            None => {
                return Err(WorkError::WorkError);
            },
        };
        match crate::markup::select_first(category_dd, "a", Some("tag"), None) {
            Some(_) => {},
            None => {
                return Err(WorkError::WorkError);
            },
        };
        let fandom_dd = match crate::markup::select_first(meta, "dd", Some("fandom"), None) {
            Some(x) => x,
            None => {
                return Err(WorkError::WorkError);
            },
        };
        let fandoms = crate::markup::select_texts(fandom_dd, "a", Some("tag"), None);
        let relationship_dd = match crate::markup::select_first(
            meta,
            "dd",
            Some("relationship"),
            None,
        ) {
            Some(x) => x,
            None => {
                return Err(WorkError::WorkError);
            },
        };
        let relationships = crate::markup::select_texts(relationship_dd, "a", Some("tag"), None);
        let character_dd = match crate::markup::select_first(meta, "dd", Some("character"), None) {
            Some(x) => x,
            None => {
                return Err(WorkError::WorkError);
            },
        };
        let characters = crate::markup::select_texts(character_dd, "a", Some("tag"), None);
        let freeform_dd = match crate::markup::select_first(meta, "dd", Some("freeform"), None) {
            Some(x) => x,
            None => {
                return Err(WorkError::WorkError);
            },
        };
        let freeforms = crate::markup::select_texts(freeform_dd, "a", Some("tag"), None);
        let published_dd = match crate::markup::select_first(stats, "dd", Some("published"), None) {
            Some(x) => x,
            None => {
                return Err(WorkError::WorkError);
            },
        };
        let words_dd = match crate::markup::select_first(stats, "dd", Some("words"), None) {
            Some(x) => x,
            None => {
                return Err(WorkError::WorkError);
            },
        };
        let words = match parse_u64_commas(words_dd.text.as_str()) {
            Some(w) => w,
            None => {
                return Err(WorkError::IntError);
            },
        };
        let chapters_dd = match crate::markup::select_first(stats, "dd", Some("chapters"), None) {
            Some(x) => x,
            None => {
                return Err(WorkError::WorkError);
            },
        };
        let (chapter, total_chapters) = match chapters(chapters_dd.text.as_str()) {
            Some(c) => c,
            None => {
                return Err(WorkError::ParsingError);
            },
        };
        if let Some(total) = total_chapters {
            if chapter > total {
                return Err(WorkError::ParsingError);
            }
        }
        Ok(
            WorkMetadata {
                id,
                redirect_url: String::from_str(redirect_url),
                title: title_el.text.clone(),
                author: author_el.text.clone(),
                author_url,
                published_date: published_dd.text.clone(),
                fandoms,
                warnings,
                relationships,
                characters,
                tags: freeforms,
                words,
                chapter,
                total_chapters,
            },
        )
    }

    /// Applies the single-work view schema: the metadata block is the
    /// work's description list and the title its level-two heading.
    pub fn work_from_doc(id: u64, redirect_url: &str, doc: &Elem) -> (r: Result<
        WorkMetadata,
        WorkError,
    >)
        ensures
            (match r {
                Ok(m) => extract_spec(id, redirect_url@, *doc, "dl", "work", "h2", "title")
                    == Ok::<MetaSpec, WorkError>(m@),
                Err(e) => extract_spec(id, redirect_url@, *doc, "dl", "work", "h2", "title")
                    == Err::<MetaSpec, WorkError>(e),
            }),
    {
        WorkMetadata::extract_entry(id, redirect_url, doc, "dl", "work", "h2", "title")
    }

    /// Applies the listing-entry view schema: the same fields, keyed off a
    /// listing item's markers instead (a list entry block, a level-four
    /// heading for the title).
    pub fn work_from_listing(id: u64, redirect_url: &str, doc: &Elem) -> (r: Result<
        WorkMetadata,
        WorkError,
    >)
        ensures
            (match r {
                Ok(m) => extract_spec(id, redirect_url@, *doc, "li", "work", "h4", "heading")
                    == Ok::<MetaSpec, WorkError>(m@),
                Err(e) => extract_spec(id, redirect_url@, *doc, "li", "work", "h4", "heading")
                    == Err::<MetaSpec, WorkError>(e),
            }),
    {
        WorkMetadata::extract_entry(id, redirect_url, doc, "li", "work", "h4", "heading")
    }
}

} // verus!
