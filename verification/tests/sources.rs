use research_bot::json::Json;
use research_bot::models::{ReferenceStyle, ResearchSource};
use research_bot::rendering::{
    build_source_matrix_section, derive_citation_key, fallback_references, fallback_whatsapp_brief,
    normalize_whatsapp_answer, render_source_dossier, render_whatsapp_source_packets,
};
use research_bot::sources::{
    dedupe_sources, gutendex_search_url, gutendex_sources, merge_sources, openlibrary_search_url,
    openlibrary_sources, preferred_gutendex_download_url, reddit_search_url, reddit_sources,
    tavily_request, tavily_sources, youtube_search_url, youtube_source, youtube_transcript,
    youtube_transcript_url, youtube_videos, VideoInfo,
};

fn text(t: &str) -> Json {
    Json::Text(t.to_string())
}

fn object(entries: Vec<(&str, Json)>) -> Json {
    Json::Object(entries.into_iter().map(|(k, v)| (k.to_string(), v)).collect())
}

fn source(kind: &str, title: &str, author: &str, year: Option<i32>, url: &str) -> ResearchSource {
    ResearchSource {
        source_type: kind.to_string(),
        title: title.to_string(),
        author_or_channel: author.to_string(),
        year_hint: year,
        url: url.to_string(),
        summary: format!("About {title}"),
        citation_hint: format!("{author}. {title}."),
    }
}

#[test]
fn youtube_searches_encode_the_topic() {
    assert_eq!(youtube_search_url("", "topic", 5), None);
    assert_eq!(
        youtube_search_url("KEY", "AI & é", 5).unwrap(),
        "https://www.googleapis.com/youtube/v3/search?part=snippet&type=video&q=AI%20%26%20%C3%A9&maxResults=5&key=KEY"
    );
}

#[test]
fn url_encoding_is_that_of_the_crate() {
    for t in ["", "plain-_.~", "a b/c?d", "日本 🙂", "%"] {
        assert_eq!(
            gutendex_search_url(t),
            format!("https://gutendex.com/books?search={}", urlencoding::encode(t))
        );
    }
    assert_eq!(
        reddit_search_url("a b"),
        "https://www.reddit.com/search.json?q=a%20b&sort=relevance&limit=5&t=year"
    );
    assert_eq!(
        openlibrary_search_url("a+b"),
        "https://openlibrary.org/search.json?q=a%2Bb&limit=5"
    );
}

#[test]
fn youtube_replies_are_read() {
    let reply = object(vec![(
        "items",
        Json::Array(vec![
            object(vec![
                ("id", object(vec![("videoId", text("v1"))])),
                (
                    "snippet",
                    object(vec![("title", text("Talk 2021")), ("channelTitle", text("Ch"))]),
                ),
            ]),
            object(vec![("id", object(vec![("channelId", text("c"))]))]),
            object(vec![("id", object(vec![("videoId", text("v2"))]))]),
        ]),
    )]);
    let videos = youtube_videos(200, &reply).unwrap();
    assert_eq!(videos.len(), 2);
    assert_eq!(videos[0].title, "Talk 2021");
    assert_eq!(videos[0].channel, "Ch");
    assert_eq!(videos[0].description, "");
    assert_eq!(videos[1].title, "Untitled");
    assert_eq!(videos[1].channel, "Unknown");
    assert!(youtube_videos(200, &Json::Null).unwrap().is_empty());
    let error = object(vec![("error", object(vec![("message", text("bad key"))]))]);
    assert_eq!(
        youtube_videos(403, &error).err().unwrap(),
        "YouTube API error (403 Forbidden): bad key"
    );
    assert_eq!(
        youtube_videos(599, &Json::Null).err().unwrap(),
        "YouTube API error (599 <unknown status code>): Unknown error"
    );
}

#[test]
fn youtube_sources_prefer_captions() {
    let video = VideoInfo {
        video_id: "id1".to_string(),
        title: "Talk".to_string(),
        channel: "Channel".to_string(),
        description: "Recorded in 2020".to_string(),
    };
    assert_eq!(
        youtube_transcript_url(&video),
        "https://www.youtube.com/api/timedtext?v=id1&lang=en&fmt=srv3"
    );
    let captions = format!("<transcript>{}</transcript>", "<text>word</text>".repeat(20));
    assert_eq!(
        youtube_transcript(&Some(captions), &video),
        "word ".repeat(20).trim()
    );
    assert_eq!(
        youtube_transcript(&Some("<text>short</text>".to_string()), &video),
        "Recorded in 2020"
    );
    assert_eq!(youtube_transcript(&None, &video), "Recorded in 2020");
    let s = youtube_source(&video, "");
    assert_eq!(s.source_type, "youtube");
    assert_eq!(s.year_hint, Some(2020));
    assert_eq!(s.url, "https://youtube.com/watch?v=id1");
    assert_eq!(s.summary, "Transcript unavailable; relying on the video description.");
    assert_eq!(s.citation_hint, "Channel. (2020). Talk [YouTube video]. YouTube.");
    assert_eq!(youtube_source(&video, "said").summary, "said");
}

#[test]
fn web_search_is_asked_and_read() {
    assert!(tavily_request("", "topic").is_none());
    let body = tavily_request("key", "topic").unwrap();
    assert_eq!(
        body.get("query").and_then(|v| v.as_text()).unwrap(),
        "topic academic research scholarly"
    );
    assert_eq!(body.get("max_results").and_then(|v| v.as_integer()), Some(10));
    let reply = object(vec![(
        "results",
        Json::Array(vec![
            object(vec![
                ("title", text("T")),
                ("url", text("https://www.nature.com/x")),
                ("content", text("Published 1999.")),
            ]),
            Json::Null,
        ]),
    )]);
    let sources = tavily_sources(200, &reply);
    assert_eq!(sources.len(), 2);
    assert_eq!(sources[0].author_or_channel, "nature.com");
    assert_eq!(sources[0].citation_hint, "nature.com. (1999). T. https://www.nature.com/x");
    assert_eq!(sources[1].title, "Untitled");
    assert_eq!(sources[1].citation_hint, ". (n.d.). Untitled. ");
    assert!(tavily_sources(500, &reply).is_empty());
    assert!(tavily_sources(200, &Json::Null).is_empty());
}

#[test]
fn discussions_are_read() {
    let child = |entries: Vec<(&str, Json)>| object(vec![("data", object(entries))]);
    let reply = object(vec![(
        "data",
        object(vec![(
            "children",
            Json::Array(vec![
                child(vec![
                    ("title", text("Q")),
                    ("subreddit_name_prefixed", text("r/rust")),
                    ("permalink", text("/r/rust/1")),
                    ("selftext", text("  ")),
                ]),
                child(vec![("subreddit", text("ai")), ("selftext", text("Body"))]),
            ]),
        )]),
    )]);
    let sources = reddit_sources(299, &reply);
    assert_eq!(sources[0].url, "https://www.reddit.com/r/rust/1");
    assert_eq!(
        sources[0].summary,
        "Relevant public Reddit discussion from r/rust. The post title suggests community interest in this topic."
    );
    assert_eq!(sources[0].citation_hint, "r/rust. (n.d.). Q. Reddit.");
    assert_eq!(sources[1].author_or_channel, "ai");
    assert_eq!(sources[1].url, "");
    assert_eq!(sources[1].summary, "Body");
    assert!(reddit_sources(300, &reply).is_empty());
}

#[test]
fn catalog_books_are_read() {
    let doc = object(vec![
        ("title", text("Book")),
        ("author_name", Json::Array(vec![text("A. Author"), text("B")])),
        ("first_publish_year", Json::Integer(1984)),
        ("key", text("/works/1")),
        ("edition_count", Json::Integer(3)),
        (
            "subject",
            Json::Array(vec![text("a"), Json::Null, text("b"), text("c"), text("d"), text("e")]),
        ),
    ]);
    let reply = object(vec![(
        "docs",
        Json::Array(vec![doc, Json::Null, Json::Null, Json::Null, Json::Null, Json::Null]),
    )]);
    let sources = openlibrary_sources(200, &reply);
    assert_eq!(sources.len(), 5);
    assert_eq!(
        sources[0].summary,
        "Catalog book result covering: a, b, c, d. Open Library lists 3 edition(s)."
    );
    assert_eq!(sources[0].citation_hint, "A. Author. (1984). Book. Open Library.");
    assert_eq!(sources[0].url, "https://openlibrary.org/works/1");
    assert_eq!(
        sources[1].summary,
        "Catalog book result with 0 known edition(s) in Open Library."
    );
    assert_eq!(sources[1].author_or_channel, "Unknown author");
}

#[test]
fn public_domain_books_are_read() {
    let formats = vec![
        ("application/pdf".to_string(), text("u.pdf")),
        ("text/html".to_string(), text("u.html")),
    ];
    assert_eq!(preferred_gutendex_download_url(&formats), "u.pdf");
    let other = vec![
        ("application/pdf".to_string(), Json::Null),
        ("image/jpeg".to_string(), text("u.jpg")),
    ];
    assert_eq!(preferred_gutendex_download_url(&other), "u.jpg");
    assert_eq!(preferred_gutendex_download_url(&Vec::new()), "");
    let book = object(vec![
        ("title", text("Old Book")),
        (
            "authors",
            Json::Array(vec![object(vec![
                ("name", text("Old Author")),
                ("birth_year", Json::Integer(-70)),
            ])]),
        ),
        ("formats", Json::Object(formats)),
        ("download_count", Json::Integer(12)),
    ]);
    let reply = object(vec![(
        "results",
        Json::Array(vec![book, Json::Null, Json::Null, Json::Null]),
    )]);
    let sources = gutendex_sources(200, &reply);
    assert_eq!(sources.len(), 3);
    assert_eq!(sources[0].year_hint, Some(-70));
    assert_eq!(sources[0].url, "u.pdf");
    assert_eq!(
        sources[0].summary,
        "Public-domain book with 12 recorded downloads. Direct legal download available."
    );
    assert_eq!(
        sources[0].citation_hint,
        "Old Author. (-70). Old Book. Project Gutenberg / Gutendex."
    );
    assert_eq!(sources[1].title, "Untitled public-domain book");
}

#[test]
fn alike_sources_are_kept_once() {
    let list = vec![
        source("web", "A", "x", None, " HTTPS://Site/A "),
        source("web", "B", "x", None, "https://site/a"),
        source("reddit", "Title", "Author", None, ""),
        source("reddit", "TITLE", "author", None, "  "),
        source("book", "Title", "Author", None, ""),
    ];
    let kept = dedupe_sources(list);
    let titles: Vec<&str> = kept.iter().map(|s| s.title.as_str()).collect();
    assert_eq!(titles, vec!["A", "Title", "Title"]);
    assert_eq!(kept[2].source_type, "book");
    assert_eq!(dedupe_sources(kept).len(), 3);
}

#[test]
fn sources_are_merged_in_order() {
    let one = |t: &str| vec![source("web", t, "x", None, t)];
    let merged = merge_sources(one("y"), one("t"), one("Y"), one("o"), one("g"));
    let titles: Vec<&str> = merged.iter().map(|s| s.title.as_str()).collect();
    assert_eq!(titles, vec!["y", "t", "o", "g"]);
}

#[test]
fn citation_keys_name_publishers() {
    let key = |author: &str, year| derive_citation_key(&source("web", "t", author, year, ""));
    assert_eq!(key("pmc.ncbi.nlm.nih.gov", Some(2021)), "pmc.ncbi.nlm.nih.gov, 2021");
    assert_eq!(key(" pmc.ncbi.nlm.nih.gov ", None), "pmc.ncbi.nlm.nih.gov, n.d.");
    assert_eq!(key("ncbi.nlm.nih.gov", Some(2021)), "National Institutes of Health, 2021");
    assert_eq!(key("www.nih.gov", Some(2019)), "National Institutes of Health, 2019");
    assert_eq!(key(" news.bbc.co.uk ", Some(2023)), "BBC News, 2023");
    assert_eq!(key("www.tandfonline.com", None), "Taylor & Francis, n.d.");
    assert_eq!(key("example.org", None), "example.org, n.d.");
    assert_eq!(key("Dr. A. Writer", Some(1999)), "Dr. A. Writer, 1999");
    assert_eq!(key("Plain Channel", None), "Plain Channel, n.d.");
}

#[test]
fn dossiers_and_appendices_list_the_sources() {
    assert!(render_source_dossier(&Vec::new()).starts_with("No live sources were retrieved."));
    let list = vec![source("web", "T", "who.int", Some(2020), "")];
    let dossier = render_source_dossier(&list);
    assert!(dossier.contains("  [1] (World Health Organization, 2020)\n\nSOURCE EVIDENCE DOSSIER:\n"));
    assert!(dossier.ends_with(
        "Source 1 — cite as (World Health Organization, 2020)\nTitle: T\nURL: N/A\nYear: 2020\nEvidence summary: About T\n\n"
    ));
    assert_eq!(
        build_source_matrix_section(&list),
        "## Appendix A - Source Matrix\n\nMaterial 1: T (2020)\nType: web\nLocator: No URL captured\nEvidence note: About T\nSuggested citation: World Health Organization, 2020\n\n"
    );
    assert_eq!(
        fallback_references(&list, &ReferenceStyle::Apa),
        "## References\n\nwho.int. T."
    );
    assert_eq!(
        fallback_references(&Vec::new(), &ReferenceStyle::Mla),
        "## Works Cited\n\nRetrieved live sources were unavailable, so no source-specific references could be compiled."
    );
}

#[test]
fn briefs_fall_back_on_the_sources() {
    let list = vec![
        source("web", "T", "a", None, "u1"),
        source("book", "B", "Author", None, ""),
        source("public_domain_book", "P", "Old", None, "u3"),
    ];
    let brief = fallback_whatsapp_brief("topic", &list);
    assert_eq!(
        brief,
        "Research brief: topic\n\nI pulled what I could from web search, YouTube, public discussion, and legal book sources. The strongest immediate signal is below.\n\nWhat stands out:\n- T: About T\n- B: About B\n- P: About P\n\nSources to open:\n- T — u1\n- B (book)\n- P — u3\n\nBooks:\n- B by Author\n- P by Old — u3"
    );
    assert!(fallback_whatsapp_brief("topic", &Vec::new()).ends_with("treated cautiously."));
    assert_eq!(normalize_whatsapp_answer("``` ```", "topic", &list), brief);
    assert_eq!(normalize_whatsapp_answer(" answer ", "topic", &list), "answer");
    let long = "word ".repeat(1000);
    let cut = normalize_whatsapp_answer(&long, "topic", &list);
    assert!(cut.len() <= 3403 && cut.ends_with("word..."));
}

#[test]
fn packets_hold_one_source_to_a_line() {
    let mut s = source("web", "T", "a", None, "");
    s.summary = "two\nlines".to_string();
    assert_eq!(
        render_whatsapp_source_packets(&vec![s]),
        "[1] type=web | title=T | source=a | url=N/A | summary=two lines\n"
    );
    let many: Vec<ResearchSource> =
        (0..20).map(|i| source("web", &i.to_string(), "a", None, "u")).collect();
    assert_eq!(render_whatsapp_source_packets(&many).lines().count(), 14);
    assert!(render_whatsapp_source_packets(&Vec::new()).starts_with("No live sources were available."));
}

#[test]
fn letters_of_all_scripts_are_lowered() {
    let list = vec![
        source("web", "A", "x", None, "https://site/ÉΣ"),
        source("web", "B", "x", None, "https://site/éς"),
        source("web", "C", "x", None, "https://site/e"),
    ];
    assert_eq!(dedupe_sources(list).len(), 2);
}
