//! Research sources: where they are searched for, how the replies are read, and how sources from
//! several places become one list.

use crate::bytes;
use crate::chars;
use crate::excerpt;
use crate::json;
use crate::json::Json;
use crate::models;
use crate::models::{ResearchSource, SourceView};
use crate::numbers;
use crate::outside;
use crate::pieces;
use crate::text;
use crate::trim;
use vstd::prelude::*;

verus! {

broadcast use {text::lemma_views_push, models::lemma_source_views_push};

/// Whether a status code reports success.
pub open spec fn is_success(status: int) -> bool {
    200 <= status < 300
}

/// Whether a status code reports success.
pub fn succeeded(status: u16) -> (r: bool)
    ensures
        r == is_success(status as int),
{
    200 <= status && status < 300
}

/// A year, or that there is none.
pub open spec fn year_label(year: Option<int>) -> Seq<char> {
    match year {
        Some(y) => numbers::decimal_int(y),
        None => "n.d."@,
    }
}

/// A year, or that there is none.
pub fn year_text(year: Option<i32>) -> (r: String)
    ensures
        r@ == year_label(models::year_view(year)),
{
    match year {
        Some(y) => numbers::decimal_int_text(y as i64),
        None => text::copy("n.d."),
    }
}

/// The first texts of a JSON array, with commas between them.
pub open spec fn first_texts(value: Json, max: int) -> Seq<char> {
    match value.items() {
        Some(items) => pieces::join(at_most(texts(items), max), ", "@),
        None => seq![],
    }
}

pub open spec fn at_most<A>(s: Seq<A>, max: int) -> Seq<A> {
    if s.len() > max {
        s.take(max)
    } else {
        s
    }
}

/// The strings among JSON values.
pub open spec fn texts(items: Seq<Json>) -> Seq<Seq<char>>
    decreases items.len(),
{
    if items.len() == 0 {
        seq![]
    } else {
        match items.last().text() {
            Some(t) => texts(items.drop_last()).push(t),
            None => texts(items.drop_last()),
        }
    }
}

fn join_first_texts(value: &Json, max: usize) -> (r: String)
    ensures
        r@ == first_texts(*value, max as int),
{
    let mut list: Vec<String> = Vec::new();
    match value.as_items() {
        Some(items) => {
            let mut i: usize = 0;
            assert(items@.take(0) =~= seq![]);
            assert(text::views(list@) =~= texts(items@.take(0)));
            while i < items.len() && list.len() < max
                invariant
                    i <= items@.len(),
                    list@.len() <= max,
                    text::views(list@) == texts(items@.take(i as int)),
                decreases items@.len() - i,
            {
                assert(items@.take(i + 1).drop_last() == items@.take(i as int));
                assert(items@.take(i + 1).last() == items@[i as int]);
                match items[i].as_text() {
                    Some(t) => {
                        list.push(text::copy(t.as_str()));
                    },
                    None => {},
                }
                i += 1;
            }
            proof {
                lemma_texts_grow(items@, i as int);
                if i == items@.len() {
                    assert(items@.take(i as int) == items@);
                }
                assert(text::views(list@).len() == list@.len());
                if texts(items@).len() > max {
                    assert(texts(items@).take(max as int) =~= text::views(list@));
                } else {
                    assert(texts(items@) =~= text::views(list@));
                }
            }
            pieces::joined(&list, ", ")
        },
        None => {
            let r = String::new();
            assert(r@ =~= seq![]);
            r
        },
    }
}

/// The strings of a beginning are the first strings of the whole.
proof fn lemma_texts_grow(items: Seq<Json>, i: int)
    requires
        0 <= i <= items.len(),
    ensures
        texts(items.take(i)).len() <= texts(items).len(),
        texts(items).take(texts(items.take(i)).len() as int) == texts(items.take(i)),
    decreases items.len(),
{
    if i < items.len() {
        assert(items.drop_last().take(i) == items.take(i));
        lemma_texts_grow(items.drop_last(), i);
        let n = texts(items.take(i)).len() as int;
        assert(texts(items).take(n) =~= texts(items.drop_last()).take(n));
    } else {
        assert(items.take(i) == items);
        assert(texts(items).take(texts(items).len() as int) =~= texts(items));
    }
}

/// The message of an error reply.
pub open spec fn error_message(reply: Json) -> Seq<char> {
    json::or(reply.member("error"@).member("message"@).text(), "Unknown error"@)
}

/// The message of an error reply.
pub fn message_of_error(reply: &Json) -> (r: String)
    ensures
        r@ == error_message(*reply),
{
    reply.at("error").at("message").text_or("Unknown error")
}

// YouTube

/// A video that a search found.
#[derive(Debug)]
pub struct VideoInfo {
    pub video_id: String,
    pub title: String,
    pub channel: String,
    pub description: String,
}

pub struct VideoView {
    pub video_id: Seq<char>,
    pub title: Seq<char>,
    pub channel: Seq<char>,
    pub description: Seq<char>,
}

impl View for VideoInfo {
    type V = VideoView;

    open spec fn view(&self) -> VideoView {
        VideoView {
            video_id: self.video_id@,
            title: self.title@,
            channel: self.channel@,
            description: self.description@,
        }
    }
}

/// The contents of a list of videos.
pub open spec fn video_views(list: Seq<VideoInfo>) -> Seq<VideoView> {
    Seq::new(list.len(), |i: int| list[i]@)
}

/// Where videos on a topic are searched for; nowhere without a key.
pub fn youtube_search_url(api_key: &str, query: &str, max_results: u32) -> (r: Option<String>)
    ensures
        r is None <==> api_key@.len() == 0,
        r matches Some(url) ==> url@
            == "https://www.googleapis.com/youtube/v3/search?part=snippet&type=video&q="@
            + outside::url_encoded(query@) + "&maxResults="@ + numbers::decimal(max_results as nat)
            + "&key="@ + api_key@,
{
    if api_key.is_empty() {
        return None;
    }
    let mut url = text::copy(
        "https://www.googleapis.com/youtube/v3/search?part=snippet&type=video&q=",
    );
    let encoded = outside::url_encode(query);
    url.append(encoded.as_str());
    url.append("&maxResults=");
    numbers::push_decimal(&mut url, max_results as u64);
    url.append("&key=");
    url.append(api_key);
    Some(url)
}

/// The video that an item of a search reply describes, where it names one.
pub open spec fn video_of(item: Json) -> Option<VideoView> {
    match item.member("id"@).member("videoId"@).text() {
        Some(video_id) => Some(
            VideoView {
                video_id,
                title: json::or(item.member("snippet"@).member("title"@).text(), "Untitled"@),
                channel: json::or(
                    item.member("snippet"@).member("channelTitle"@).text(),
                    "Unknown"@,
                ),
                description: json::or(item.member("snippet"@).member("description"@).text(), ""@),
            },
        ),
        None => None,
    }
}

pub open spec fn videos_of(items: Seq<Json>) -> Seq<VideoView>
    decreases items.len(),
{
    if items.len() == 0 {
        seq![]
    } else {
        match video_of(items.last()) {
            Some(v) => videos_of(items.drop_last()).push(v),
            None => videos_of(items.drop_last()),
        }
    }
}

/// What a reply to a search for videos holds: its videos, or an error.
pub open spec fn videos_in(status: int, reply: Json) -> Result<Seq<VideoView>, Seq<char>> {
    if !is_success(status) {
        Err("YouTube API error ("@ + outside::status_line(status) + "): "@ + error_message(reply))
    } else {
        match reply.member("items"@).items() {
            Some(items) => Ok(videos_of(items)),
            None => Ok(seq![]),
        }
    }
}

fn read_video(item: &Json) -> (r: Option<VideoInfo>)
    ensures
        r is Some <==> video_of(*item) is Some,
        r matches Some(v) ==> video_of(*item) == Some(v@),
{
    match item.at("id").at("videoId").as_text() {
        Some(id) => {
            let snippet = item.at("snippet");
            Some(
                VideoInfo {
                    video_id: text::copy(id.as_str()),
                    title: snippet.at("title").text_or("Untitled"),
                    channel: snippet.at("channelTitle").text_or("Unknown"),
                    description: snippet.at("description").text_or(""),
                },
            )
        },
        None => None,
    }
}

/// Reads the reply to a search for videos.
pub fn youtube_videos(status: u16, reply: &Json) -> (r: Result<Vec<VideoInfo>, String>)
    requires
        100 <= status <= 999,
    ensures
        match r {
            Ok(list) => videos_in(status as int, *reply) == Ok::<Seq<VideoView>, Seq<char>>(
                video_views(list@),
            ),
            Err(e) => videos_in(status as int, *reply) == Err::<Seq<VideoView>, Seq<char>>(e@),
        },
{
    if !succeeded(status) {
        let mut e = text::copy("YouTube API error (");
        let line = outside::status_text(status);
        e.append(line.as_str());
        e.append("): ");
        let message = message_of_error(reply);
        e.append(message.as_str());
        return Err(e);
    }
    let mut videos: Vec<VideoInfo> = Vec::new();
    assert(video_views(videos@) =~= seq![]);
    match reply.at("items").as_items() {
        Some(items) => {
            let mut i: usize = 0;
            assert(items@.take(0) =~= seq![]);
            while i < items.len()
                invariant
                    i <= items@.len(),
                    video_views(videos@) == videos_of(items@.take(i as int)),
                decreases items@.len() - i,
            {
                assert(items@.take(i + 1).drop_last() == items@.take(i as int));
                assert(items@.take(i + 1).last() == items@[i as int]);
                let ghost before = video_views(videos@);
                match read_video(&items[i]) {
                    Some(v) => {
                        videos.push(v);
                        assert(video_views(videos@) =~= before.push(v@));
                    },
                    None => {},
                }
                i += 1;
            }
            assert(items@.take(i as int) == items@);
        },
        None => {},
    }
    Ok(videos)
}

/// Where the captions of a video are.
pub fn youtube_transcript_url(video: &VideoInfo) -> (r: String)
    ensures
        r@ == "https://www.youtube.com/api/timedtext?v="@ + video@.video_id + "&lang=en&fmt=srv3"@,
{
    let mut url = text::copy("https://www.youtube.com/api/timedtext?v=");
    url.append(video.video_id.as_str());
    url.append("&lang=en&fmt=srv3");
    url
}

/// What is known of a video: the beginning of its captions, or else of its description.
pub open spec fn video_summary(captions: Option<Seq<char>>, description: Seq<char>) -> Seq<char> {
    match captions {
        Some(body) => if bytes::byte_len(body) > 100 && text::contains(body, "<text"@)
            && excerpt::transcript(body).len() > 0 {
            excerpt::truncated(excerpt::transcript(body), 1_200)
        } else {
            excerpt::truncated(description, 900)
        },
        None => excerpt::truncated(description, 900),
    }
}

/// What is known of a video, given the document with its captions where it could be had.
pub fn youtube_transcript(captions: &Option<String>, video: &VideoInfo) -> (r: String)
    ensures
        r@ == video_summary(text::opt_view(*captions), video@.description),
{
    match captions {
        Some(body) => {
            if bytes::byte_length(body.as_str()) > 100 && text::has(body.as_str(), "<text") {
                let transcript = excerpt::extract_text_from_xml(body.as_str());
                if !transcript.as_str().is_empty() {
                    return excerpt::truncate(transcript.as_str(), 1_200);
                }
            }
        },
        None => {},
    }
    excerpt::truncate(video.description.as_str(), 900)
}

/// The source that a video is.
pub open spec fn video_source(video: VideoView, transcript: Seq<char>) -> SourceView {
    let year = excerpt::year_named(video.title + " "@ + video.description);
    SourceView {
        source_type: "youtube"@,
        title: video.title,
        author_or_channel: video.channel,
        year_hint: year,
        url: "https://youtube.com/watch?v="@ + video.video_id,
        summary: if transcript.len() == 0 {
            "Transcript unavailable; relying on the video description."@
        } else {
            transcript
        },
        citation_hint: video.channel + ". ("@ + year_label(year) + "). "@ + video.title
            + " [YouTube video]. YouTube."@,
    }
}

/// The source that a video is, given what is known of it.
pub fn youtube_source(video: &VideoInfo, transcript: &str) -> (r: ResearchSource)
    ensures
        r@ == video_source(video@, transcript@),
{
    let mut searched = text::copy(video.title.as_str());
    searched.append(" ");
    searched.append(video.description.as_str());
    let year_hint = excerpt::find_year_hint(searched.as_str());
    let label = year_text(year_hint);
    let mut url = text::copy("https://youtube.com/watch?v=");
    url.append(video.video_id.as_str());
    let mut hint = text::copy(video.channel.as_str());
    hint.append(". (");
    hint.append(label.as_str());
    hint.append("). ");
    hint.append(video.title.as_str());
    hint.append(" [YouTube video]. YouTube.");
    ResearchSource {
        source_type: text::copy("youtube"),
        title: text::copy(video.title.as_str()),
        author_or_channel: text::copy(video.channel.as_str()),
        year_hint,
        url,
        summary: if transcript.is_empty() {
            text::copy("Transcript unavailable; relying on the video description.")
        } else {
            text::copy(transcript)
        },
        citation_hint: hint,
    }
}

// Tavily

/// What is asked of the web search; nothing without a key.
pub fn tavily_request(tavily_key: &str, topic: &str) -> (r: Option<Json>)
    ensures
        r is None <==> tavily_key@.len() == 0,
        r matches Some(body) ==> {
            &&& body.size() == 5
            &&& body.key_at(0) == "query"@
            &&& body.value_at(0).text() == Some(topic@ + " academic research scholarly"@)
            &&& body.key_at(1) == "search_depth"@
            &&& body.value_at(1).text() == Some("advanced"@)
            &&& body.key_at(2) == "max_results"@
            &&& body.value_at(2).integer() == Some(10int)
            &&& body.key_at(3) == "include_answer"@
            &&& body.value_at(3).truth() == Some(false)
            &&& body.key_at(4) == "include_raw_content"@
            &&& body.value_at(4).truth() == Some(false)
        },
{
    if tavily_key.is_empty() {
        return None;
    }
    let mut query = text::copy(topic);
    query.append(" academic research scholarly");
    Some(
        Json::Object(
            vec![
                json::pair("query", Json::Text(query)),
                json::pair("search_depth", json::string("advanced")),
                json::pair("max_results", Json::Integer(10)),
                json::pair("include_answer", Json::Bool(false)),
                json::pair("include_raw_content", Json::Bool(false)),
            ],
        ),
    )
}

/// The source that a result of the web search is.
pub open spec fn web_source(result: Json) -> SourceView {
    let title = json::or(result.member("title"@).text(), "Untitled"@);
    let url = json::or(result.member("url"@).text(), ""@);
    let content = json::or(result.member("content"@).text(), ""@);
    let year = excerpt::year_named(title + " "@ + content);
    SourceView {
        source_type: "web"@,
        title,
        author_or_channel: excerpt::domain(url),
        year_hint: year,
        url,
        summary: excerpt::truncated(content, 900),
        citation_hint: excerpt::domain(url) + ". ("@ + year_label(year) + "). "@ + title + ". "@
            + url,
    }
}

fn read_web_source(result: &Json) -> (r: ResearchSource)
    ensures
        r@ == web_source(*result),
{
    let title = result.at("title").text_or("Untitled");
    let url = result.at("url").text_or("");
    let content = result.at("content").text_or("");
    let domain = excerpt::domain_label(url.as_str());
    let mut searched = text::copy(title.as_str());
    searched.append(" ");
    searched.append(content.as_str());
    let year_hint = excerpt::find_year_hint(searched.as_str());
    let label = year_text(year_hint);
    let mut hint = text::copy(domain.as_str());
    hint.append(". (");
    hint.append(label.as_str());
    hint.append("). ");
    hint.append(title.as_str());
    hint.append(". ");
    hint.append(url.as_str());
    ResearchSource {
        source_type: text::copy("web"),
        title,
        author_or_channel: domain,
        year_hint,
        url,
        summary: excerpt::truncate(content.as_str(), 900),
        citation_hint: hint,
    }
}

/// The sources in a reply of the web search; none where it reports an error.
pub open spec fn web_sources(status: int, reply: Json) -> Seq<SourceView> {
    match reply.member("results"@).items() {
        Some(items) if is_success(status) => Seq::new(items.len(), |i: int| web_source(items[i])),
        _ => seq![],
    }
}

/// Reads a reply of the web search.
pub fn tavily_sources(status: u16, reply: &Json) -> (r: Vec<ResearchSource>)
    ensures
        models::source_views(r@) == web_sources(status as int, *reply),
{
    let mut sources: Vec<ResearchSource> = Vec::new();
    let ghost expected = web_sources(status as int, *reply);
    assert(models::source_views(sources@) =~= expected.take(0));
    if succeeded(status) {
        match reply.at("results").as_items() {
            Some(items) => {
                let mut i: usize = 0;
                while i < items.len()
                    invariant
                        i <= items@.len(),
                        expected == Seq::new(items@.len(), |j: int| web_source(items@[j])),
                        models::source_views(sources@) == expected.take(i as int),
                    decreases items@.len() - i,
                {
                    let source = read_web_source(&items[i]);
                    assert(expected.take(i + 1) =~= expected.take(i as int).push(source@));
                    sources.push(source);
                    i += 1;
                }
                assert(expected.take(i as int) =~= expected);
                return sources;
            },
            None => {},
        }
    }
    assert(expected.take(0) =~= expected);
    sources
}

// Reddit

/// Where public discussions of a topic are searched for.
pub fn reddit_search_url(topic: &str) -> (r: String)
    ensures
        r@ == "https://www.reddit.com/search.json?q="@ + outside::url_encoded(topic@)
            + "&sort=relevance&limit=5&t=year"@,
{
    let mut url = text::copy("https://www.reddit.com/search.json?q=");
    let encoded = outside::url_encode(topic);
    url.append(encoded.as_str());
    url.append("&sort=relevance&limit=5&t=year");
    url
}

/// The source that a discussion is.
pub open spec fn discussion_source(child: Json) -> SourceView {
    let data = child.member("data"@);
    let title = json::or(data.member("title"@).text(), "Untitled discussion"@);
    let subreddit = match data.member("subreddit_name_prefixed"@).text() {
        Some(t) => t,
        None => json::or(data.member("subreddit"@).text(), "Reddit"@),
    };
    let post = json::or(data.member("selftext"@).text(), ""@);
    let permalink = json::or(data.member("permalink"@).text(), ""@);
    SourceView {
        source_type: "reddit"@,
        title,
        author_or_channel: subreddit,
        year_hint: None,
        url: if permalink.len() == 0 {
            seq![]
        } else {
            "https://www.reddit.com"@ + permalink
        },
        summary: if trim::trim(post).len() == 0 {
            "Relevant public Reddit discussion from "@ + subreddit
                + ". The post title suggests community interest in this topic."@
        } else {
            excerpt::truncated(post, 900)
        },
        citation_hint: subreddit + ". (n.d.). "@ + title + ". Reddit."@,
    }
}

fn read_discussion_source(child: &Json) -> (r: ResearchSource)
    ensures
        r@ == discussion_source(*child),
{
    let data = child.at("data");
    let title = data.at("title").text_or("Untitled discussion");
    let subreddit = match data.at("subreddit_name_prefixed").as_text() {
        Some(t) => text::copy(t.as_str()),
        None => data.at("subreddit").text_or("Reddit"),
    };
    let post = data.at("selftext").text_or("");
    let permalink = data.at("permalink").text_or("");
    let mut url = String::new();
    assert(url@ =~= seq![]);
    if !permalink.as_str().is_empty() {
        url = text::copy("https://www.reddit.com");
        url.append(permalink.as_str());
    }
    let trimmed = trim::trimmed(post.as_str());
    let summary = if trimmed.as_str().is_empty() {
        let mut s = text::copy("Relevant public Reddit discussion from ");
        s.append(subreddit.as_str());
        s.append(". The post title suggests community interest in this topic.");
        s
    } else {
        excerpt::truncate(post.as_str(), 900)
    };
    let mut hint = text::copy(subreddit.as_str());
    hint.append(". (n.d.). ");
    hint.append(title.as_str());
    hint.append(". Reddit.");
    ResearchSource {
        source_type: text::copy("reddit"),
        title,
        author_or_channel: subreddit,
        year_hint: None,
        url,
        summary,
        citation_hint: hint,
    }
}

/// The sources in a reply of the search for discussions; none where it reports an error.
pub open spec fn discussion_sources(status: int, reply: Json) -> Seq<SourceView> {
    match reply.member("data"@).member("children"@).items() {
        Some(items) if is_success(status) => Seq::new(
            items.len(),
            |i: int| discussion_source(items[i]),
        ),
        _ => seq![],
    }
}

/// Reads a reply of the search for discussions.
pub fn reddit_sources(status: u16, reply: &Json) -> (r: Vec<ResearchSource>)
    ensures
        models::source_views(r@) == discussion_sources(status as int, *reply),
{
    let mut sources: Vec<ResearchSource> = Vec::new();
    let ghost expected = discussion_sources(status as int, *reply);
    assert(models::source_views(sources@) =~= expected.take(0));
    if succeeded(status) {
        match reply.at("data").at("children").as_items() {
            Some(items) => {
                let mut i: usize = 0;
                while i < items.len()
                    invariant
                        i <= items@.len(),
                        expected == Seq::new(items@.len(), |j: int| discussion_source(items@[j])),
                        models::source_views(sources@) == expected.take(i as int),
                    decreases items@.len() - i,
                {
                    let source = read_discussion_source(&items[i]);
                    assert(expected.take(i + 1) =~= expected.take(i as int).push(source@));
                    sources.push(source);
                    i += 1;
                }
                assert(expected.take(i as int) =~= expected);
                return sources;
            },
            None => {},
        }
    }
    assert(expected.take(0) =~= expected);
    sources
}

// Open Library

/// Where books on a topic are searched for.
pub fn openlibrary_search_url(topic: &str) -> (r: String)
    ensures
        r@ == "https://openlibrary.org/search.json?q="@ + outside::url_encoded(topic@)
            + "&limit=5"@,
{
    let mut url = text::copy("https://openlibrary.org/search.json?q=");
    let encoded = outside::url_encode(topic);
    url.append(encoded.as_str());
    url.append("&limit=5");
    url
}

/// The first element of a JSON array; null where there is none.
pub open spec fn first_item(value: Json) -> Json {
    match value.items() {
        Some(items) => if items.len() > 0 {
            items[0]
        } else {
            Json::Null
        },
        None => Json::Null,
    }
}

pub(crate) fn first_of(value: &Json) -> (r: &Json)
    ensures
        *r == first_item(*value),
{
    match value.as_items() {
        Some(items) => if items.len() > 0 {
            &items[0]
        } else {
            &Json::Null
        },
        None => &Json::Null,
    }
}

/// A JSON integer as a year, where it fits.
pub open spec fn as_year(value: Json) -> Option<int> {
    match value.integer() {
        Some(n) => if i32::MIN <= n <= i32::MAX {
            Some(n)
        } else {
            None
        },
        None => None,
    }
}

fn read_year(value: &Json) -> (r: Option<i32>)
    ensures
        models::year_view(r) == as_year(*value),
{
    match value.as_integer() {
        Some(n) => if i32::MIN as i64 <= n && n <= i32::MAX as i64 {
            Some(n as i32)
        } else {
            None
        },
        None => None,
    }
}

/// A JSON integer, nought where there is none.
pub open spec fn count_or_none(value: Json) -> int {
    match value.integer() {
        Some(n) => n,
        None => 0,
    }
}

fn read_count(value: &Json) -> (r: i64)
    ensures
        r == count_or_none(*value),
{
    match value.as_integer() {
        Some(n) => n,
        None => 0,
    }
}

/// The source that a book of the catalog is.
pub open spec fn catalog_source(doc: Json) -> SourceView {
    let title = json::or(doc.member("title"@).text(), "Untitled book"@);
    let author = json::or(first_item(doc.member("author_name"@)).text(), "Unknown author"@);
    let year = as_year(doc.member("first_publish_year"@));
    let key = json::or(doc.member("key"@).text(), ""@);
    let editions = numbers::decimal_int(count_or_none(doc.member("edition_count"@)));
    let subject = first_texts(doc.member("subject"@), 4);
    SourceView {
        source_type: "book"@,
        title,
        author_or_channel: author,
        year_hint: year,
        url: if key.len() == 0 {
            seq![]
        } else {
            "https://openlibrary.org"@ + key
        },
        summary: if subject.len() == 0 {
            "Catalog book result with "@ + editions + " known edition(s) in Open Library."@
        } else {
            "Catalog book result covering: "@ + subject + ". Open Library lists "@ + editions
                + " edition(s)."@
        },
        citation_hint: author + ". ("@ + year_label(year) + "). "@ + title + ". Open Library."@,
    }
}

fn read_catalog_source(doc: &Json) -> (r: ResearchSource)
    ensures
        r@ == catalog_source(*doc),
{
    let title = doc.at("title").text_or("Untitled book");
    let author = first_of(doc.at("author_name")).text_or("Unknown author");
    let year_hint = read_year(doc.at("first_publish_year"));
    let key = doc.at("key").text_or("");
    let editions = numbers::decimal_int_text(read_count(doc.at("edition_count")));
    let subject = join_first_texts(doc.at("subject"), 4);
    let mut url = String::new();
    assert(url@ =~= seq![]);
    if !key.as_str().is_empty() {
        url = text::copy("https://openlibrary.org");
        url.append(key.as_str());
    }
    let summary = if subject.as_str().is_empty() {
        let mut s = text::copy("Catalog book result with ");
        s.append(editions.as_str());
        s.append(" known edition(s) in Open Library.");
        s
    } else {
        let mut s = text::copy("Catalog book result covering: ");
        s.append(subject.as_str());
        s.append(". Open Library lists ");
        s.append(editions.as_str());
        s.append(" edition(s).");
        s
    };
    let label = year_text(year_hint);
    let mut hint = text::copy(author.as_str());
    hint.append(". (");
    hint.append(label.as_str());
    hint.append("). ");
    hint.append(title.as_str());
    hint.append(". Open Library.");
    ResearchSource {
        source_type: text::copy("book"),
        title,
        author_or_channel: author,
        year_hint,
        url,
        summary,
        citation_hint: hint,
    }
}

/// The sources in a reply of the catalog, at most five; none where it reports an error.
pub open spec fn catalog_sources(status: int, reply: Json) -> Seq<SourceView> {
    match reply.member("docs"@).items() {
        Some(items) if is_success(status) => Seq::new(
            at_most(items, 5).len(),
            |i: int| catalog_source(items[i]),
        ),
        _ => seq![],
    }
}

/// Reads a reply of the catalog.
pub fn openlibrary_sources(status: u16, reply: &Json) -> (r: Vec<ResearchSource>)
    ensures
        models::source_views(r@) == catalog_sources(status as int, *reply),
{
    let mut sources: Vec<ResearchSource> = Vec::new();
    let ghost expected = catalog_sources(status as int, *reply);
    assert(models::source_views(sources@) =~= expected.take(0));
    if succeeded(status) {
        match reply.at("docs").as_items() {
            Some(items) => {
                let mut i: usize = 0;
                while i < items.len() && i < 5
                    invariant
                        i <= items@.len(),
                        i <= 5,
                        expected == Seq::new(
                            at_most(items@, 5).len(),
                            |j: int| catalog_source(items@[j]),
                        ),
                        models::source_views(sources@) == expected.take(i as int),
                    decreases items@.len() - i,
                {
                    let source = read_catalog_source(&items[i]);
                    assert(expected.take(i + 1) =~= expected.take(i as int).push(source@));
                    sources.push(source);
                    i += 1;
                }
                assert(expected.take(i as int) =~= expected);
                return sources;
            },
            None => {},
        }
    }
    assert(expected.take(0) =~= expected);
    sources
}

// Gutendex

/// Where public-domain books on a topic are searched for.
pub fn gutendex_search_url(topic: &str) -> (r: String)
    ensures
        r@ == "https://gutendex.com/books?search="@ + outside::url_encoded(topic@),
{
    let mut url = text::copy("https://gutendex.com/books?search=");
    let encoded = outside::url_encode(topic);
    url.append(encoded.as_str());
    url
}

/// The formats of a book that are preferred, the best first.
pub open spec fn preferred_formats() -> Seq<Seq<char>> {
    seq![
        "text/plain; charset=utf-8"@,
        "application/epub+zip"@,
        "application/pdf"@,
        "text/html; charset=utf-8"@,
        "text/plain"@,
    ]
}

/// The text of an entry with a name.
pub open spec fn entry_text(formats: Seq<(String, Json)>, key: Seq<char>) -> Option<Seq<char>> {
    match json::entry(formats, key) {
        Some(v) => v.text(),
        None => None,
    }
}

/// The first of the given entries that holds a text.
pub open spec fn first_entry_text(
    formats: Seq<(String, Json)>,
    keys: Seq<Seq<char>>,
) -> Option<Seq<char>>
    decreases keys.len(),
{
    if keys.len() == 0 {
        None
    } else {
        match entry_text(formats, keys[0]) {
            Some(t) => Some(t),
            None => first_entry_text(formats, keys.skip(1)),
        }
    }
}

/// The first text of any entry.
pub open spec fn any_entry_text(formats: Seq<(String, Json)>) -> Seq<char>
    decreases formats.len(),
{
    if formats.len() == 0 {
        seq![]
    } else {
        match formats[0].1.text() {
            Some(t) => t,
            None => any_entry_text(formats.skip(1)),
        }
    }
}

/// Where a book is downloaded from: in the best format that there is.
pub open spec fn download_url(formats: Seq<(String, Json)>) -> Seq<char> {
    match first_entry_text(formats, preferred_formats()) {
        Some(t) => t,
        None => any_entry_text(formats),
    }
}

/// Where a book is downloaded from: in the best format that there is.
pub fn preferred_gutendex_download_url(formats: &Vec<(String, Json)>) -> (r: String)
    ensures
        r@ == download_url(formats@),
{
    let keys = vec![
        "text/plain; charset=utf-8",
        "application/epub+zip",
        "application/pdf",
        "text/html; charset=utf-8",
        "text/plain",
    ];
    let ghost all = preferred_formats();
    assert(text::str_views(keys@) =~= all);
    let mut k: usize = 0;
    assert(all.skip(0) == all);
    while k < keys.len()
        invariant
            k <= keys@.len(),
            text::str_views(keys@) == all,
            all == preferred_formats(),
            first_entry_text(formats@, all) == first_entry_text(formats@, all.skip(k as int)),
        decreases keys@.len() - k,
    {
        assert(all.skip(k as int)[0] == keys@[k as int]@);
        match json::lookup(formats, keys[k]) {
            Some(v) => match v.as_text() {
                Some(t) => {
                    return text::copy(t.as_str());
                },
                None => {},
            },
            None => {},
        }
        assert(all.skip(k as int).skip(1) == all.skip(k + 1));
        k += 1;
    }
    assert(first_entry_text(formats@, all) is None);
    let mut i: usize = 0;
    assert(formats@.skip(0) == formats@);
    while i < formats.len()
        invariant
            i <= formats@.len(),
            first_entry_text(formats@, preferred_formats()) is None,
            any_entry_text(formats@) == any_entry_text(formats@.skip(i as int)),
        decreases formats@.len() - i,
    {
        match formats[i].1.as_text() {
            Some(t) => {
                return text::copy(t.as_str());
            },
            None => {},
        }
        assert(formats@.skip(i as int).skip(1) == formats@.skip(i + 1));
        i += 1;
    }
    let r = String::new();
    assert(r@ =~= seq![]);
    r
}

/// The members of a JSON object; none for any other value.
pub open spec fn members(value: Json) -> Seq<(String, Json)> {
    match value {
        Json::Object(entries) => entries@,
        _ => seq![],
    }
}

/// The source that a public-domain book is.
pub open spec fn book_source(result: Json) -> SourceView {
    let title = json::or(result.member("title"@).text(), "Untitled public-domain book"@);
    let first_author = first_item(result.member("authors"@));
    let author = json::or(first_author.member("name"@).text(), "Unknown author"@);
    let year = as_year(first_author.member("birth_year"@));
    let downloads = numbers::decimal_int(count_or_none(result.member("download_count"@)));
    let subjects = first_texts(result.member("subjects"@), 4);
    SourceView {
        source_type: "public_domain_book"@,
        title,
        author_or_channel: author,
        year_hint: year,
        url: download_url(members(result.member("formats"@))),
        summary: if subjects.len() == 0 {
            "Public-domain book with "@ + downloads
                + " recorded downloads. Direct legal download available."@
        } else {
            "Public-domain book covering "@ + subjects + ". About "@ + downloads
                + " recorded downloads. Direct legal download available."@
        },
        citation_hint: author + ". ("@ + year_label(year) + "). "@ + title
            + ". Project Gutenberg / Gutendex."@,
    }
}

fn read_book_source(result: &Json) -> (r: ResearchSource)
    ensures
        r@ == book_source(*result),
{
    let title = result.at("title").text_or("Untitled public-domain book");
    let first_author = first_of(result.at("authors"));
    let author = first_author.at("name").text_or("Unknown author");
    let year_hint = read_year(first_author.at("birth_year"));
    let url = match result.at("formats") {
        Json::Object(entries) => preferred_gutendex_download_url(entries),
        _ => {
            let none: Vec<(String, Json)> = Vec::new();
            assert(none@ =~= seq![]);
            preferred_gutendex_download_url(&none)
        },
    };
    let downloads = numbers::decimal_int_text(read_count(result.at("download_count")));
    let subjects = join_first_texts(result.at("subjects"), 4);
    let summary = if subjects.as_str().is_empty() {
        let mut s = text::copy("Public-domain book with ");
        s.append(downloads.as_str());
        s.append(" recorded downloads. Direct legal download available.");
        s
    } else {
        let mut s = text::copy("Public-domain book covering ");
        s.append(subjects.as_str());
        s.append(". About ");
        s.append(downloads.as_str());
        s.append(" recorded downloads. Direct legal download available.");
        s
    };
    let label = year_text(year_hint);
    let mut hint = text::copy(author.as_str());
    hint.append(". (");
    hint.append(label.as_str());
    hint.append("). ");
    hint.append(title.as_str());
    hint.append(". Project Gutenberg / Gutendex.");
    ResearchSource {
        source_type: text::copy("public_domain_book"),
        title,
        author_or_channel: author,
        year_hint,
        url,
        summary,
        citation_hint: hint,
    }
}

/// The sources in a reply of the public-domain library, at most three; none where it reports an
/// error.
pub open spec fn book_sources(status: int, reply: Json) -> Seq<SourceView> {
    match reply.member("results"@).items() {
        Some(items) if is_success(status) => Seq::new(
            at_most(items, 3).len(),
            |i: int| book_source(items[i]),
        ),
        _ => seq![],
    }
}

/// Reads a reply of the public-domain library.
pub fn gutendex_sources(status: u16, reply: &Json) -> (r: Vec<ResearchSource>)
    ensures
        models::source_views(r@) == book_sources(status as int, *reply),
{
    let mut sources: Vec<ResearchSource> = Vec::new();
    let ghost expected = book_sources(status as int, *reply);
    assert(models::source_views(sources@) =~= expected.take(0));
    if succeeded(status) {
        match reply.at("results").as_items() {
            Some(items) => {
                let mut i: usize = 0;
                while i < items.len() && i < 3
                    invariant
                        i <= items@.len(),
                        i <= 3,
                        expected == Seq::new(
                            at_most(items@, 3).len(),
                            |j: int| book_source(items@[j]),
                        ),
                        models::source_views(sources@) == expected.take(i as int),
                    decreases items@.len() - i,
                {
                    let source = read_book_source(&items[i]);
                    assert(expected.take(i + 1) =~= expected.take(i as int).push(source@));
                    sources.push(source);
                    i += 1;
                }
                assert(expected.take(i as int) =~= expected);
                return sources;
            },
            None => {},
        }
    }
    assert(expected.take(0) =~= expected);
    sources
}

// One list

/// What makes a source the same as another: its URL, or else its kind, author and title.
pub open spec fn identity(s: SourceView) -> Seq<char> {
    if trim::trim(s.url).len() > 0 {
        chars::lowercase(trim::trim(s.url))
    } else {
        s.source_type + "::"@ + chars::lowercase(s.author_or_channel) + "::"@ + chars::lowercase(
            s.title,
        )
    }
}

fn identity_of(s: &ResearchSource) -> (r: String)
    ensures
        r@ == identity(s@),
{
    let url = trim::trimmed(s.url.as_str());
    if !url.as_str().is_empty() {
        return chars::to_lowercase(url.as_str());
    }
    let mut r = text::copy(s.source_type.as_str());
    r.append("::");
    let author = chars::to_lowercase(s.author_or_channel.as_str());
    r.append(author.as_str());
    r.append("::");
    let title = chars::to_lowercase(s.title.as_str());
    r.append(title.as_str());
    r
}

/// Whether a source like this one is in a list.
pub open spec fn is_known(list: Seq<SourceView>, s: SourceView) -> bool {
    exists|i: int| 0 <= i < list.len() && identity(#[trigger] list[i]) == identity(s)
}

/// The sources of a list, each only where it stands first.
pub open spec fn deduped(list: Seq<SourceView>) -> Seq<SourceView>
    decreases list.len(),
{
    if list.len() == 0 {
        seq![]
    } else if is_known(list.drop_last(), list.last()) {
        deduped(list.drop_last())
    } else {
        deduped(list.drop_last()).push(list.last())
    }
}

/// Drops every source that is like an earlier one.
pub fn dedupe_sources(sources: Vec<ResearchSource>) -> (r: Vec<ResearchSource>)
    ensures
        models::source_views(r@) == deduped(models::source_views(sources@)),
{
    let ghost all = models::source_views(sources@);
    let mut seen: Vec<String> = Vec::new();
    let mut kept: Vec<ResearchSource> = Vec::new();
    let mut i: usize = 0;
    assert(models::source_views(kept@) =~= deduped(all.take(0)));
    while i < sources.len()
        invariant
            i <= sources@.len(),
            all == models::source_views(sources@),
            seen@.len() == i,
            forall|j: int| 0 <= j < i ==> (#[trigger] seen@[j])@ == identity(all[j]),
            models::source_views(kept@) == deduped(all.take(i as int)),
        decreases sources@.len() - i,
    {
        let ghost before = all.take(i as int);
        assert(all.take(i + 1).drop_last() == before);
        assert(all.take(i + 1).last() == sources@[i as int]@);
        let id = identity_of(&sources[i]);
        let mut known = false;
        let mut j: usize = 0;
        while j < seen.len()
            invariant
                j <= seen@.len(),
                known == exists|k: int| 0 <= k < j && (#[trigger] seen@[k])@ == id@,
            decreases seen@.len() - j,
        {
            if text::same(seen[j].as_str(), id.as_str()) {
                known = true;
            }
            j += 1;
        }
        proof {
            if known {
                let k = choose|k: int| 0 <= k < j && (#[trigger] seen@[k])@ == id@;
                assert(identity(before[k]) == id@);
            } else if is_known(before, all[i as int]) {
                let k = choose|k: int|
                    0 <= k < before.len() && identity(#[trigger] before[k]) == identity(
                        all[i as int],
                    );
                assert(seen@[k]@ == id@);
            }
        }
        seen.push(id);
        if !known {
            kept.push(sources[i].clone());
        }
        i += 1;
    }
    assert(all.take(i as int) == all);
    kept
}

proof fn lemma_deduped(list: Seq<SourceView>)
    ensures
        forall|i: int|
            0 <= i < deduped(list).len() ==> list.contains(#[trigger] deduped(list)[i]),
        forall|s: SourceView| #[trigger] is_known(list, s) ==> is_known(deduped(list), s),
        forall|i: int, j: int|
            0 <= i < j < deduped(list).len() ==> identity(#[trigger] deduped(list)[i]) != identity(
                #[trigger] deduped(list)[j],
            ),
    decreases list.len(),
{
    if list.len() > 0 {
        let front = list.drop_last();
        let less = deduped(front);
        let kept = deduped(list);
        lemma_deduped(front);
        assert forall|i: int| 0 <= i < kept.len() implies list.contains(#[trigger] kept[i]) by {
            if i < less.len() {
                assert(kept[i] == less[i]);
                let k = choose|k: int| 0 <= k < front.len() && front[k] == less[i];
                assert(list[k] == less[i]);
            } else {
                assert(list[list.len() - 1] == kept[i]);
            }
        }
        assert forall|s: SourceView| #[trigger] is_known(list, s) implies is_known(kept, s) by {
            let k = choose|k: int|
                0 <= k < list.len() && identity(#[trigger] list[k]) == identity(s);
            if k < front.len() {
                assert(front[k] == list[k]);
                assert(is_known(front, s));
                let n = choose|n: int|
                    0 <= n < less.len() && identity(#[trigger] less[n]) == identity(s);
                assert(kept[n] == less[n]);
            } else if is_known(front, list.last()) {
                assert(is_known(less, list.last()));
                let n = choose|n: int|
                    0 <= n < less.len() && identity(#[trigger] less[n]) == identity(list.last());
                assert(kept[n] == less[n]);
            } else {
                assert(kept[kept.len() - 1] == list.last());
            }
        }
        assert forall|i: int, j: int| 0 <= i < j < kept.len() implies identity(
            #[trigger] kept[i],
        ) != identity(#[trigger] kept[j]) by {
            assert(kept[i] == less[i]);
            if j < less.len() {
                assert(kept[j] == less[j]);
            } else {
                assert(front.contains(less[i]));
                let k = choose|k: int| 0 <= k < front.len() && front[k] == less[i];
                assert(identity(front[k]) == identity(less[i]));
            }
        }
    }
}

proof fn lemma_distinct_stay(list: Seq<SourceView>)
    requires
        forall|i: int, j: int|
            0 <= i < j < list.len() ==> identity(#[trigger] list[i]) != identity(
                #[trigger] list[j],
            ),
    ensures
        deduped(list) == list,
    decreases list.len(),
{
    if list.len() > 0 {
        let front = list.drop_last();
        assert forall|i: int, j: int| 0 <= i < j < front.len() implies identity(
            #[trigger] front[i],
        ) != identity(#[trigger] front[j]) by {
            assert(front[i] == list[i] && front[j] == list[j]);
        }
        lemma_distinct_stay(front);
        if is_known(front, list.last()) {
            let k = choose|k: int|
                0 <= k < front.len() && identity(#[trigger] front[k]) == identity(list.last());
            assert(list[k] == front[k]);
            assert(list[list.len() - 1] == list.last());
        }
        assert(front.push(list.last()) =~= list);
    }
}

/// Whether no source like the one at a place of a list stands before it.
pub open spec fn is_first(list: Seq<SourceView>, place: int) -> bool {
    !is_known(list.take(place), list[place])
}

/// The places from which sources are kept.
proof fn lemma_kept_places(list: Seq<SourceView>) -> (places: Seq<int>)
    ensures
        pieces::picks(list, places, deduped(list)),
        forall|i: int| 0 <= i < places.len() ==> is_first(list, #[trigger] places[i]),
    decreases list.len(),
{
    if list.len() == 0 {
        Seq::empty()
    } else {
        let front = list.drop_last();
        let fewer = lemma_kept_places(front);
        let places = if is_known(front, list.last()) {
            fewer
        } else {
            fewer.push(list.len() - 1)
        };
        assert forall|i: int| 0 <= i < places.len() implies is_first(list, #[trigger] places[i]) by {
            if i < fewer.len() {
                assert(is_first(front, fewer[i]));
                assert(list.take(fewer[i]) == front.take(fewer[i]));
            } else {
                assert(list.take(list.len() - 1) == front);
            }
        }
        places
    }
}

/// Of the sources that are alike exactly one is kept, the first of them in the list; the kept
/// sources keep their order, and dropping again drops nothing.
pub proof fn law_deduped(list: Seq<SourceView>)
    ensures
        exists|places: Seq<int>| #[trigger]
            pieces::picks(list, places, deduped(list)) && forall|i: int|
                0 <= i < places.len() ==> is_first(list, #[trigger] places[i]),
        forall|s: SourceView| #[trigger] is_known(list, s) ==> is_known(deduped(list), s),
        forall|i: int, j: int|
            0 <= i < j < deduped(list).len() ==> identity(#[trigger] deduped(list)[i]) != identity(
                #[trigger] deduped(list)[j],
            ),
        deduped(deduped(list)) == deduped(list),
{
    lemma_deduped(list);
    lemma_distinct_stay(deduped(list));
    let places = lemma_kept_places(list);
    assert(pieces::picks(list, places, deduped(list)));
}

fn append_sources(all: &mut Vec<ResearchSource>, more: Vec<ResearchSource>)
    ensures
        models::source_views(final(all)@) == models::source_views(old(all)@)
            + models::source_views(more@),
{
    let ghost start = models::source_views(all@);
    let ghost added = models::source_views(more@);
    let mut i: usize = 0;
    assert(start + added.take(0) =~= start);
    while i < more.len()
        invariant
            i <= more@.len(),
            added == models::source_views(more@),
            models::source_views(all@) == start + added.take(i as int),
        decreases more@.len() - i,
    {
        let source = more[i].clone();
        assert((start + added.take(i as int)).push(source@) =~= start + added.take(i + 1));
        all.push(source);
        i += 1;
    }
    assert(added.take(i as int) =~= added);
}

/// One list of the sources from all places: videos first, then the web, discussions, the catalog
/// and public-domain books; of sources that are alike only the first.
pub fn merge_sources(
    youtube: Vec<ResearchSource>,
    tavily: Vec<ResearchSource>,
    reddit: Vec<ResearchSource>,
    openlibrary: Vec<ResearchSource>,
    gutendex: Vec<ResearchSource>,
) -> (r: Vec<ResearchSource>)
    ensures
        models::source_views(r@) == deduped(
            models::source_views(youtube@) + models::source_views(tavily@) + models::source_views(
                reddit@,
            ) + models::source_views(openlibrary@) + models::source_views(gutendex@),
        ),
{
    let mut all = youtube;
    append_sources(&mut all, tavily);
    append_sources(&mut all, reddit);
    append_sources(&mut all, openlibrary);
    append_sources(&mut all, gutendex);
    dedupe_sources(all)
}

} // verus!
