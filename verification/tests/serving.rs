use ao3_embed::cache::WorkCache;
use ao3_embed::meta::{WorkError, WorkMetadata};
use ao3_embed::routes::{
    classify_bot, embed_response, fallback_redirect_url, work_redirect_url, work_response_finish,
    work_response_plan, WorkOutcome, WorkPlan,
};
use ao3_embed::template::{join_quoted, minify_markup, WorkTemplate};
use ao3_embed::EmbedRequest;

fn sample_meta(id: u64) -> WorkMetadata {
    WorkMetadata {
        id,
        redirect_url: format!("https://archiveofourown.org/works/{}/", id),
        title: "Test Work".to_string(),
        author: "Jane".to_string(),
        author_url: "/users/jane".to_string(),
        published_date: "2024-01-01".to_string(),
        fandoms: vec!["A".to_string()],
        warnings: vec!["W1".to_string(), "W2".to_string()],
        relationships: vec!["X/Y".to_string()],
        characters: vec!["Alice".to_string()],
        tags: vec!["Fluff".to_string()],
        words: 1000,
        chapter: 2,
        total_chapters: Some(5),
    }
}

#[test]
fn join_quoted_quotes_and_intersperses_commas() {
    assert_eq!(join_quoted(Vec::new()), "");
    assert_eq!(join_quoted(vec!["a".to_string()]), "\"a\"");
    assert_eq!(
        join_quoted(vec!["a".to_string(), "b".to_string(), "c".to_string()]),
        "\"a\", \"b\", \"c\""
    );
}

#[test]
fn template_composes_description_and_embed_url() {
    let t = WorkTemplate::from_work(sample_meta(42), "http://localhost:3000");
    assert_eq!(t.id, 42);
    assert_eq!(t.title, "Test Work");
    assert_eq!(t.author, "Jane");
    assert_eq!(t.description, "\"W1\", \"W2\"\n\"Alice\"\n\"Fluff\"");
    assert_eq!(
        t.embed_url,
        "http://localhost:3000/oembed?id=42&author=Jane&words=1000&chapters=2&total_chapters=5&date=2024-01-01"
    );
}

#[test]
fn template_marks_open_ended_totals() {
    let mut m = sample_meta(7);
    m.total_chapters = None;
    let t = WorkTemplate::from_work(m, "http://localhost:3000");
    assert!(t.embed_url.contains("&total_chapters=%3F&"));
}

#[test]
fn template_percent_encodes_the_author() {
    let mut m = sample_meta(7);
    m.author = "Jane Doe".to_string();
    let t = WorkTemplate::from_work(m, "http://localhost:3000");
    assert!(t.embed_url.contains("&author=Jane%20Doe&"));
}

#[test]
fn embed_response_carries_the_request() {
    let req = EmbedRequest {
        id: 42,
        author: "Jane".to_string(),
        words: 1000,
        chapters: 2,
        total_chapters: "5".to_string(),
        date: "2024-01-01".to_string(),
    };
    let r = embed_response(&req);
    assert_eq!(r.version, "1.0");
    assert_eq!(r.embed_type, "rich");
    assert!(r.author_name.contains("1000"));
    assert!(r.author_name.contains("2"));
    assert!(r.author_name.contains("5"));
    assert!(r.author_name.contains("2024-01-01"));
    assert_eq!(r.author_url, "https://archiveofourown.org/works/42");
    assert_eq!(r.provider_name, "Jane");
    assert_eq!(r.provider_url, "https://archiveofourown.org/users/Jane");
}

#[test]
fn embed_response_percent_encodes_the_profile_url() {
    let req = EmbedRequest {
        id: 1,
        author: "Jane Doe".to_string(),
        words: 1,
        chapters: 1,
        total_chapters: "?".to_string(),
        date: "d".to_string(),
    };
    let r = embed_response(&req);
    assert_eq!(r.provider_url, "https://archiveofourown.org/users/Jane%20Doe");
    assert_eq!(r.provider_name, "Jane Doe");
}

#[test]
fn work_redirect_url_keeps_the_trailing_path() {
    assert_eq!(
        work_redirect_url(77, &Some("chapters/99".to_string())),
        "https://archiveofourown.org/works/77/chapters/99"
    );
    assert_eq!(work_redirect_url(77, &None), "https://archiveofourown.org/works/77/");
}

#[test]
fn fallback_preserves_path_and_query_verbatim() {
    assert_eq!(
        fallback_redirect_url("/some/path?x=1&y=2"),
        "https://archiveofourown.org/some/path?x=1&y=2"
    );
    assert_eq!(fallback_redirect_url("/"), "https://archiveofourown.org/");
}

#[test]
fn human_callers_are_always_redirected() {
    let path = Some("chapters/99".to_string());
    // even with a cache hit in hand, a human-classified caller is redirected
    let plan = work_response_plan(77, &path, false, Some(sample_meta(77)), None);
    match plan {
        WorkPlan::Redirect(u) => {
            assert_eq!(u, "https://archiveofourown.org/works/77/chapters/99")
        },
        WorkPlan::Serve(_, _) => panic!("a human caller must not be served a preview"),
    }
}

#[test]
fn bot_callers_are_served_from_the_cache() {
    let plan = work_response_plan(5, &None, true, Some(sample_meta(5)), None);
    match plan {
        WorkPlan::Serve(m, fresh) => {
            assert_eq!(m, sample_meta(5));
            assert!(!fresh);
        },
        WorkPlan::Redirect(_) => panic!("a cache hit must be served"),
    }
}

#[test]
fn bot_callers_get_fresh_fetches_cached() {
    let plan = work_response_plan(5, &None, true, None, Some(Ok(sample_meta(5))));
    match plan {
        WorkPlan::Serve(m, fresh) => {
            assert_eq!(m, sample_meta(5));
            assert!(fresh);
        },
        WorkPlan::Redirect(_) => panic!("a successful fetch must be served"),
    }
}

#[test]
fn bot_callers_fall_back_to_redirect_on_failure() {
    let plan = work_response_plan(5, &None, true, None, Some(Err(WorkError::RequestError)));
    match plan {
        WorkPlan::Redirect(u) => assert_eq!(u, "https://archiveofourown.org/works/5/"),
        WorkPlan::Serve(_, _) => panic!("a failed fetch must redirect"),
    }
}

#[test]
fn render_failures_degrade_to_redirect() {
    let outcome = work_response_finish(5, &None, Err(WorkError::TemplatingError));
    match outcome {
        WorkOutcome::Redirect(u) => assert_eq!(u, "https://archiveofourown.org/works/5/"),
        WorkOutcome::Preview(_) => panic!("a failed render must redirect"),
    }
}

#[test]
fn successful_renders_are_minified() {
    let html = "<html><head></head><body><p>hello   world</p>   </body></html>";
    let outcome = work_response_finish(5, &None, Ok(html.to_string()));
    match outcome {
        WorkOutcome::Preview(t) => {
            assert!(t.contains("hello"));
            assert_ne!(t, html);
            assert!(t.len() < html.len());
        },
        WorkOutcome::Redirect(_) => panic!("a good render must be served"),
    }
}

#[test]
fn minify_markup_shrinks_markup() {
    let out = minify_markup("<html><head></head><body><p>x</p>   </body></html>").unwrap();
    assert!(out.contains("x"));
    assert!(out.len() < "<html><head></head><body><p>x</p>   </body></html>".len());
}

#[test]
fn classify_bot_tells_crawlers_from_browsers() {
    assert!(classify_bot("Googlebot/2.1 (+http://www.google.com/bot.html)"));
    assert!(!classify_bot(
        "Mozilla/5.0 (Windows NT 10.0; Win64; x64) AppleWebKit/537.36 (KHTML, like Gecko) Chrome/120.0 Safari/537.36"
    ));
}

#[test]
fn cache_returns_what_was_stored() {
    let mut cache = WorkCache::new(100);
    assert_eq!(cache.get(42), None);
    let m = sample_meta(42);
    cache.insert(42, &m);
    assert_eq!(cache.get(42), Some(sample_meta(42)));
    assert_eq!(cache.get(43), None);
}

#[test]
fn cache_get_or_fetch_is_idempotent() {
    let mut cache = WorkCache::new(100);
    let id: u64 = 9;
    let mut fetches: u32 = 0;
    // first request: miss, fetch, cache
    let cached = cache.get(id);
    assert_eq!(cached, None);
    fetches += 1;
    let fetched = Some(Ok(sample_meta(id)));
    let first = work_response_plan(id, &None, true, cached, fetched);
    let first_meta = match first {
        WorkPlan::Serve(m, fresh) => {
            assert!(fresh);
            cache.insert(id, &m);
            m
        },
        WorkPlan::Redirect(_) => panic!("first lookup must serve"),
    };
    // second request: hit, no fetch
    let cached = cache.get(id);
    assert!(cached.is_some());
    let second = work_response_plan(id, &None, true, cached, None);
    match second {
        WorkPlan::Serve(m, fresh) => {
            assert!(!fresh);
            assert_eq!(m, first_meta);
        },
        WorkPlan::Redirect(_) => panic!("second lookup must serve"),
    }
    assert_eq!(fetches, 1);
}
