use ao3_embed::markup::{attr_value, select_first, select_texts, Attr, Elem};
use ao3_embed::meta::{WorkError, WorkMetadata};

fn el(tag: &str, classes: &[&str], text: &str, children: Vec<Elem>) -> Elem {
    Elem {
        tag: tag.to_string(),
        classes: classes.iter().map(|c| c.to_string()).collect(),
        attrs: Vec::new(),
        text: text.to_string(),
        children,
    }
}

fn tag_link(text: &str) -> Elem {
    el("a", &["tag"], text, Vec::new())
}

fn dd(class: &str, text: &str, children: Vec<Elem>) -> Elem {
    el("dd", &[class], text, children)
}

fn author_link() -> Elem {
    let mut e = el("a", &[], "Jane", Vec::new());
    e.attrs.push(Attr { name: "rel".to_string(), value: "author".to_string() });
    e.attrs.push(Attr { name: "href".to_string(), value: "/users/jane".to_string() });
    e
}

/// Builds the sample work document, leaving out the one piece named by
/// `skip` (an empty `skip` leaves nothing out).
fn sample_doc_without(skip: &str) -> Elem {
    let mut meta_children: Vec<Elem> = Vec::new();
    if skip != "rating" {
        meta_children.push(dd("rating", "", vec![tag_link("General Audiences")]));
    }
    if skip != "warning" {
        meta_children.push(dd("warning", "", vec![tag_link("W1"), tag_link("W2")]));
    }
    if skip != "category" {
        meta_children.push(dd("category", "", vec![tag_link("Gen")]));
    }
    if skip != "fandom" {
        meta_children.push(dd("fandom", "", vec![tag_link("A"), tag_link("B"), tag_link("C")]));
    }
    if skip != "relationship" {
        meta_children.push(dd("relationship", "", vec![tag_link("X/Y")]));
    }
    if skip != "character" {
        meta_children.push(dd("character", "", vec![tag_link("Alice"), tag_link("Bob")]));
    }
    if skip != "freeform" {
        meta_children.push(dd("freeform", "", vec![tag_link("Fluff")]));
    }
    let mut stats_children: Vec<Elem> = Vec::new();
    if skip != "published" {
        stats_children.push(dd("published", "2024-01-01", Vec::new()));
    }
    if skip != "words" {
        stats_children.push(dd(
            "words",
            if skip == "words_malformed" { "12x45" } else { "12,345" },
            Vec::new(),
        ));
    }
    if skip != "chapters" {
        let chapters_text = if skip == "chapters_malformed" {
            "3of7"
        } else if skip == "chapters_out_of_range" {
            "9/3"
        } else {
            "3/7"
        };
        stats_children.push(dd("chapters", chapters_text, Vec::new()));
    }
    if skip != "stats" {
        meta_children.push(el("dl", &["stats"], "", stats_children));
    }
    let mut root_children: Vec<Elem> = Vec::new();
    if skip != "title" {
        root_children.push(el("h2", &["title"], "Test Work", Vec::new()));
    }
    if skip != "author" {
        let mut author = author_link();
        if skip == "author_href" {
            author.attrs.retain(|a| a.name != "href");
        }
        root_children.push(author);
    }
    if skip != "meta" {
        root_children.push(el("dl", &["work"], "", meta_children));
    }
    el("html", &[], "", root_children)
}

#[test]
fn extract_full_document() {
    let doc = sample_doc_without("");
    let m = WorkMetadata::work_from_doc(42, "https://example.test/works/42/", &doc).unwrap();
    assert_eq!(m.id, 42);
    assert_eq!(m.redirect_url, "https://example.test/works/42/");
    assert_eq!(m.title, "Test Work");
    assert_eq!(m.author, "Jane");
    assert_eq!(m.author_url, "/users/jane");
    assert_eq!(m.published_date, "2024-01-01");
    assert_eq!(m.words, 12345);
    assert_eq!(m.chapter, 3);
    assert_eq!(m.total_chapters, Some(7));
    assert_eq!(m.warnings, vec!["W1".to_string(), "W2".to_string()]);
    assert_eq!(m.relationships, vec!["X/Y".to_string()]);
    assert_eq!(m.characters, vec!["Alice".to_string(), "Bob".to_string()]);
    assert_eq!(m.tags, vec!["Fluff".to_string()]);
}

#[test]
fn extract_keeps_fandoms_in_document_order() {
    let doc = sample_doc_without("");
    let m = WorkMetadata::work_from_doc(1, "u", &doc).unwrap();
    assert_eq!(m.fandoms, vec!["A".to_string(), "B".to_string(), "C".to_string()]);
}

#[test]
fn extract_missing_meta_block_fails() {
    let doc = sample_doc_without("meta");
    assert_eq!(WorkMetadata::work_from_doc(1, "u", &doc), Err(WorkError::WorkError));
}

#[test]
fn extract_missing_stats_block_fails() {
    let doc = sample_doc_without("stats");
    assert_eq!(WorkMetadata::work_from_doc(1, "u", &doc), Err(WorkError::WorkError));
}

#[test]
fn extract_missing_title_fails() {
    let doc = sample_doc_without("title");
    assert_eq!(WorkMetadata::work_from_doc(1, "u", &doc), Err(WorkError::WorkError));
}

#[test]
fn extract_missing_author_fails() {
    let doc = sample_doc_without("author");
    assert_eq!(WorkMetadata::work_from_doc(1, "u", &doc), Err(WorkError::WorkError));
}

#[test]
fn extract_missing_author_href_fails() {
    let doc = sample_doc_without("author_href");
    assert_eq!(WorkMetadata::work_from_doc(1, "u", &doc), Err(WorkError::WorkError));
}

#[test]
fn extract_missing_rating_fails() {
    let doc = sample_doc_without("rating");
    assert_eq!(WorkMetadata::work_from_doc(1, "u", &doc), Err(WorkError::WorkError));
}

#[test]
fn extract_missing_fandom_block_fails() {
    let doc = sample_doc_without("fandom");
    assert_eq!(WorkMetadata::work_from_doc(1, "u", &doc), Err(WorkError::WorkError));
}

#[test]
fn extract_missing_words_block_fails() {
    let doc = sample_doc_without("words");
    assert_eq!(WorkMetadata::work_from_doc(1, "u", &doc), Err(WorkError::WorkError));
}

#[test]
fn extract_malformed_words_fails() {
    let doc = sample_doc_without("words_malformed");
    assert_eq!(WorkMetadata::work_from_doc(1, "u", &doc), Err(WorkError::IntError));
}

#[test]
fn extract_malformed_chapters_fails() {
    let doc = sample_doc_without("chapters_malformed");
    assert_eq!(WorkMetadata::work_from_doc(1, "u", &doc), Err(WorkError::ParsingError));
}

#[test]
fn extract_rejects_chapter_beyond_total() {
    // the record invariant: the chapter number never exceeds a given total
    let doc = sample_doc_without("chapters_out_of_range");
    assert_eq!(WorkMetadata::work_from_doc(1, "u", &doc), Err(WorkError::ParsingError));
}

#[test]
fn extract_accepts_empty_list_fields() {
    let mut doc = sample_doc_without("fandom");
    // a present but empty fandom block is valid and yields an empty list
    let meta = doc
        .children
        .iter_mut()
        .find(|c| c.classes.iter().any(|cl| cl == "work"))
        .unwrap();
    meta.children.push(dd("fandom", "", Vec::new()));
    let m = WorkMetadata::work_from_doc(1, "u", &doc).unwrap();
    assert_eq!(m.fandoms, Vec::<String>::new());
}

#[test]
fn extract_listing_entry_schema() {
    let mut entry_children: Vec<Elem> = Vec::new();
    entry_children.push(el("h4", &["heading"], "Listed Work", Vec::new()));
    entry_children.push(dd("rating", "", vec![tag_link("General Audiences")]));
    entry_children.push(dd("warning", "", vec![tag_link("W1")]));
    entry_children.push(dd("category", "", vec![tag_link("Gen")]));
    entry_children.push(dd("fandom", "", vec![tag_link("A"), tag_link("B")]));
    entry_children.push(dd("relationship", "", Vec::new()));
    entry_children.push(dd("character", "", Vec::new()));
    entry_children.push(dd("freeform", "", vec![tag_link("Fluff")]));
    entry_children.push(el(
        "dl",
        &["stats"],
        "",
        vec![
            dd("published", "2023-05-05", Vec::new()),
            dd("words", "2,000", Vec::new()),
            dd("chapters", "1/1", Vec::new()),
        ],
    ));
    let doc = el(
        "html",
        &[],
        "",
        vec![author_link(), el("li", &["work"], "", entry_children)],
    );
    let m = WorkMetadata::work_from_listing(9, "u", &doc).unwrap();
    assert_eq!(m.title, "Listed Work");
    assert_eq!(m.words, 2000);
    assert_eq!(m.chapter, 1);
    assert_eq!(m.total_chapters, Some(1));
    assert_eq!(m.fandoms, vec!["A".to_string(), "B".to_string()]);
    // the single-work schema does not match a listing document
    assert_eq!(WorkMetadata::work_from_doc(9, "u", &doc), Err(WorkError::WorkError));
}

#[test]
fn select_first_takes_document_order() {
    let doc = el(
        "html",
        &[],
        "",
        vec![
            el("div", &[], "", vec![el("p", &["x"], "first", Vec::new())]),
            el("p", &["x"], "second", Vec::new()),
        ],
    );
    let found = select_first(&doc, "p", Some("x"), None).unwrap();
    assert_eq!(found.text, "first");
}

#[test]
fn select_texts_walks_depth_first() {
    let doc = el(
        "html",
        &[],
        "",
        vec![
            el(
                "div",
                &[],
                "",
                vec![el("p", &["x"], "one", vec![el("p", &["x"], "two", Vec::new())])],
            ),
            el("p", &["x"], "three", Vec::new()),
        ],
    );
    let texts = select_texts(&doc, "p", Some("x"), None);
    assert_eq!(texts, vec!["one".to_string(), "two".to_string(), "three".to_string()]);
}

#[test]
fn attr_value_finds_first_attribute() {
    let author = author_link();
    assert_eq!(attr_value(&author, "href").map(|s| s.as_str()), Some("/users/jane"));
    assert_eq!(attr_value(&author, "missing"), None);
}
