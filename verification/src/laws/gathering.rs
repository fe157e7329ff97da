//! Gathering sources: what a service says of a source is what the source holds, and none is lost.

use crate::bytes;
use crate::excerpt;
use crate::json::Json;
use crate::laws::finding;
use crate::models::SourceView;
use crate::numbers;
use crate::outside;
use crate::sources;
use crate::sources::VideoView;
use crate::text;
use crate::trim;
use vstd::prelude::*;

verus! {

broadcast use finding::group_holds;

/// Whether `s` is `t` where it has at most `max` bytes, and else the beginning of it that fits, with
/// dots behind, which is at most three bytes longer.
pub open spec fn is_beginning(s: Seq<char>, t: Seq<char>, max: int) -> bool {
    &&& bytes::byte_len(t) <= max ==> s == t
    &&& bytes::byte_len(t) > max ==> bytes::byte_len(s) <= max + 3 && exists|n: int|
        0 <= n <= t.len() && s == #[trigger] t.take(n) + "..."@
    &&& s == excerpt::truncated(t, max)
}

/// The text of a member, or what stands in its place where it is no text.
pub open spec fn is_member_text(t: Seq<char>, value: Json, key: Seq<char>, other: Seq<char>) -> bool {
    match value.member(key) {
        Json::Text(s) => t == s@,
        _ => t == other,
    }
}

/// The year as it is shown, or that there is none.
pub open spec fn shown_year(year: Option<int>) -> Seq<char> {
    match year {
        Some(y) => numbers::decimal_int(y),
        None => "n.d."@,
    }
}

/// Whether a source is what a web search says of a page, given the text of the page.
pub open spec fn tells_page(s: SourceView, result: Json, content: Seq<char>) -> bool {
    &&& is_member_text(content, result, "content"@, ""@)
    &&& is_beginning(s.summary, content, 900)
    &&& is_member_text(s.title, result, "title"@, "Untitled"@)
    &&& is_member_text(s.url, result, "url"@, ""@)
    &&& s.source_type == "web"@
    &&& s.author_or_channel == excerpt::domain(s.url)
    &&& s.year_hint == excerpt::year_named(s.title + " "@ + content)
    &&& s.citation_hint == s.author_or_channel + ". ("@ + shown_year(s.year_hint) + "). "@ + s.title
        + ". "@ + s.url
}

/// Every result of a successful web search is a source, in order: with its title, its address, the
/// host of that address as its author, what the page says as its summary, and the first year that
/// its title or its text names.
pub proof fn law_web_results_become_sources(
    status: int,
    reply: Json,
    items: Seq<Json>,
    i: int,
)
    requires
        reply.member("results"@).items() == Some(items),
        0 <= i < items.len(),
    ensures
        !(200 <= status < 300) ==> sources::web_sources(status, reply).len() == 0,
        200 <= status < 300 ==> sources::web_sources(status, reply).len() == items.len()
            && exists|content: Seq<char>| #[trigger]
            tells_page(sources::web_sources(status, reply)[i], items[i], content),
{
    if 200 <= status < 300 {
        let s = sources::web_sources(status, reply)[i];
        let content = crate::json::or(items[i].member("content"@).text(), ""@);
        excerpt::law_truncated(content, 900);
        assert(tells_page(s, items[i], content));
    }
}

/// Whether a source is what is said of a discussion, given the post itself.
pub open spec fn tells_discussion(s: SourceView, data: Json, post: Seq<char>) -> bool {
    &&& is_member_text(post, data, "selftext"@, ""@)
    &&& trim::trim(post).len() > 0 ==> is_beginning(s.summary, post, 900)
    &&& trim::trim(post).len() == 0 ==> text::contains(
        s.summary,
        "Relevant public Reddit discussion from "@ + s.author_or_channel,
    )
    &&& is_member_text(s.title, data, "title"@, "Untitled discussion"@)
    &&& match data.member("subreddit_name_prefixed"@) {
        Json::Text(name) => s.author_or_channel == name@,
        _ => is_member_text(s.author_or_channel, data, "subreddit"@, "Reddit"@),
    }
    &&& match data.member("permalink"@) {
        Json::Text(link) => link@.len() > 0 ==> s.url == "https://www.reddit.com"@ + link@,
        _ => s.url.len() == 0,
    }
    &&& s.source_type == "reddit"@
    &&& s.year_hint is None
    &&& s.citation_hint == s.author_or_channel + ". (n.d.). "@ + s.title + ". Reddit."@
}

/// Every discussion that is found is a source, in order: with its title, where it took place, its
/// address, and what was said as its summary, or else that there is such a discussion.
pub proof fn law_discussions_become_sources(
    status: int,
    reply: Json,
    items: Seq<Json>,
    i: int,
)
    requires
        reply.member("data"@).member("children"@).items() == Some(items),
        0 <= i < items.len(),
    ensures
        !(200 <= status < 300) ==> sources::discussion_sources(status, reply).len() == 0,
        200 <= status < 300 ==> sources::discussion_sources(status, reply).len() == items.len()
            && exists|post: Seq<char>| #[trigger]
            tells_discussion(sources::discussion_sources(status, reply)[i], items[i].member("data"@), post),
{
    if 200 <= status < 300 {
        let s = sources::discussion_sources(status, reply)[i];
        let data = items[i].member("data"@);
        let post = crate::json::or(data.member("selftext"@).text(), ""@);
        excerpt::law_truncated(post, 900);
        reveal_strlit("");
        assert(tells_discussion(s, data, post));
    }
}

/// The first of the authors in a list, where it is a text.
pub open spec fn is_first_author(t: Seq<char>, value: Json) -> bool {
    match value.items() {
        Some(list) => if list.len() > 0 && list[0] is Text {
            t == list[0]->Text_0@
        } else {
            t == "Unknown author"@
        },
        None => t == "Unknown author"@,
    }
}

/// The first five books of the catalog are sources, in order: with title, first author, year of first
/// publication and address; the summary tells the editions and the first subjects.
#[verifier::rlimit(40)]
pub proof fn law_catalog_books_become_sources(status: int, reply: Json, items: Seq<Json>)
    requires
        reply.member("docs"@).items() == Some(items),
    ensures
        !(200 <= status < 300) ==> sources::catalog_sources(status, reply).len() == 0,
        200 <= status < 300 ==> sources::catalog_sources(status, reply).len() == (if items.len()
            > 5 {
            5
        } else {
            items.len()
        }) && forall|i: int|
            0 <= i < sources::catalog_sources(status, reply).len() ==> {
                let s = #[trigger] sources::catalog_sources(status, reply)[i];
                let doc = items[i];
                &&& s.source_type == "book"@
                &&& is_member_text(s.title, doc, "title"@, "Untitled book"@)
                &&& is_first_author(s.author_or_channel, doc.member("author_name"@))
                &&& doc.member("first_publish_year"@) matches Json::Integer(y) ==> i32::MIN <= y
                    <= i32::MAX ==> s.year_hint == Some(y as int)
                &&& doc.member("first_publish_year"@) !is Integer ==> s.year_hint is None
                &&& doc.member("key"@) matches Json::Text(key) ==> key@.len() > 0 ==> s.url
                    == "https://openlibrary.org"@ + key@
                &&& doc.member("edition_count"@) matches Json::Integer(n) ==> i64::MIN <= n
                    <= i64::MAX ==> text::contains(s.summary, numbers::decimal_int(n as int))
                &&& text::contains(s.summary, sources::first_texts(doc.member("subject"@), 4))
                &&& s.citation_hint == s.author_or_channel + ". ("@ + shown_year(s.year_hint)
                    + "). "@ + s.title + ". Open Library."@
            },
{
    let all = sources::catalog_sources(status, reply);
    if 200 <= status < 300 {
        assert forall|i: int| 0 <= i < all.len() implies text::contains(
            (#[trigger] all[i]).summary,
            sources::first_texts(items[i].member("subject"@), 4),
        ) by {
            let subject = sources::first_texts(items[i].member("subject"@), 4);
            if subject.len() == 0 {
                assert(all[i].summary.subrange(0, 0) =~= subject);
                assert(text::occurs_at(all[i].summary, subject, 0));
            }
        }
    }
}

/// The first three public-domain books are sources, in order: with title, first author, the year in
/// which the author was born, and where they are downloaded; the summary tells the downloads and the
/// first subjects.
#[verifier::rlimit(40)]
pub proof fn law_public_domain_books_become_sources(status: int, reply: Json, items: Seq<Json>)
    requires
        reply.member("results"@).items() == Some(items),
    ensures
        !(200 <= status < 300) ==> sources::book_sources(status, reply).len() == 0,
        200 <= status < 300 ==> sources::book_sources(status, reply).len() == (if items.len() > 3 {
            3
        } else {
            items.len()
        }) && forall|i: int|
            0 <= i < sources::book_sources(status, reply).len() ==> {
                let s = #[trigger] sources::book_sources(status, reply)[i];
                let book = items[i];
                &&& s.source_type == "public_domain_book"@
                &&& is_member_text(s.title, book, "title"@, "Untitled public-domain book"@)
                &&& book.member("authors"@).items() matches Some(authors) ==> authors.len() > 0
                    ==> is_member_text(
                    s.author_or_channel,
                    authors[0],
                    "name"@,
                    "Unknown author"@,
                ) && (authors[0].member("birth_year"@) matches Json::Integer(y) ==> i32::MIN <= y
                    <= i32::MAX ==> s.year_hint == Some(y as int))
                &&& book.member("formats"@) matches Json::Object(entries) ==> s.url
                    == sources::download_url(entries@)
                &&& book.member("download_count"@) matches Json::Integer(n) ==> i64::MIN <= n
                    <= i64::MAX ==> text::contains(s.summary, numbers::decimal_int(n as int))
                &&& text::contains(s.summary, sources::first_texts(book.member("subjects"@), 4))
                &&& s.citation_hint == s.author_or_channel + ". ("@ + shown_year(s.year_hint)
                    + "). "@ + s.title + ". Project Gutenberg / Gutendex."@
            },
{
    let all = sources::book_sources(status, reply);
    if 200 <= status < 300 {
        assert forall|i: int| 0 <= i < all.len() implies text::contains(
            (#[trigger] all[i]).summary,
            sources::first_texts(items[i].member("subjects"@), 4),
        ) by {
            let subject = sources::first_texts(items[i].member("subjects"@), 4);
            if subject.len() == 0 {
                assert(all[i].summary.subrange(0, 0) =~= subject);
                assert(text::occurs_at(all[i].summary, subject, 0));
            }
        }
    }
}

/// Subjects are told in order: of a list of texts the first ones, as many as asked for.
pub proof fn law_first_subjects_are_told(value: Json, items: Seq<Json>, max: nat)
    requires
        value.items() == Some(items),
        forall|i: int| 0 <= i < items.len() ==> #[trigger] items[i] is Text,
    ensures
        finding::stand_in_order(
            sources::first_texts(value, max as int),
            Seq::new(
                if items.len() > max {
                    max
                } else {
                    items.len()
                },
                |i: int| items[i]->Text_0@,
            ),
        ),
{
    lemma_texts(items);
    let told = Seq::new(
        if items.len() > max {
            max
        } else {
            items.len()
        },
        |i: int| items[i]->Text_0@,
    );
    assert(sources::at_most(sources::texts(items), max as int) =~= told);
    finding::lemma_order_of_join(told, ", "@);
}

proof fn lemma_texts(items: Seq<Json>)
    requires
        forall|i: int| 0 <= i < items.len() ==> #[trigger] items[i] is Text,
    ensures
        sources::texts(items) == Seq::new(items.len(), |i: int| items[i]->Text_0@),
    decreases items.len(),
{
    if items.len() > 0 {
        let front = items.drop_last();
        assert forall|i: int| 0 <= i < front.len() implies #[trigger] front[i] is Text by {
            assert(front[i] == items[i]);
        }
        lemma_texts(front);
        assert(items.last() == items[items.len() - 1]);
        assert(sources::texts(items) =~= Seq::new(items.len(), |i: int| items[i]->Text_0@));
    } else {
        assert(sources::texts(items) =~= Seq::new(items.len(), |i: int| items[i]->Text_0@));
    }
}

/// A book is downloaded in the best format that it has: no better one holds an address.
pub proof fn law_best_format(formats: Seq<(String, Json)>, k: int)
    requires
        0 <= k < sources::preferred_formats().len(),
        sources::entry_text(formats, sources::preferred_formats()[k]) is Some,
        forall|j: int|
            0 <= j < k ==> sources::entry_text(formats, #[trigger] sources::preferred_formats()[j])
                is None,
    ensures
        Some(sources::download_url(formats)) == sources::entry_text(
            formats,
            sources::preferred_formats()[k],
        ),
        sources::preferred_formats()[0] == "text/plain; charset=utf-8"@,
        sources::preferred_formats()[1] == "application/epub+zip"@,
        sources::preferred_formats()[2] == "application/pdf"@,
{
    lemma_first_entry(formats, sources::preferred_formats(), k);
}

proof fn lemma_first_entry(formats: Seq<(String, Json)>, keys: Seq<Seq<char>>, k: int)
    requires
        0 <= k < keys.len(),
        sources::entry_text(formats, keys[k]) is Some,
        forall|j: int| 0 <= j < k ==> sources::entry_text(formats, #[trigger] keys[j]) is None,
    ensures
        sources::first_entry_text(formats, keys) == sources::entry_text(formats, keys[k]),
    decreases k,
{
    if k > 0 {
        let rest = keys.skip(1);
        assert(rest[k - 1] == keys[k]);
        assert forall|j: int| 0 <= j < k - 1 implies sources::entry_text(
            formats,
            #[trigger] rest[j],
        ) is None by {
            assert(rest[j] == keys[j + 1]);
        }
        assert(sources::entry_text(formats, keys[0]) is None);
        lemma_first_entry(formats, rest, k - 1);
    }
}

/// Every item of a search for videos that names a video is one, in order and as the item describes
/// it; an answer that reports an error is told with its message.
pub proof fn law_videos_are_found(status: int, reply: Json, items: Seq<Json>)
    requires
        reply.member("items"@).items() == Some(items),
        forall|i: int|
            0 <= i < items.len() ==> (#[trigger] items[i]).member("id"@).member(
                "videoId"@,
            ) is Text,
    ensures
        200 <= status < 300 ==> (sources::videos_in(status, reply) matches Ok(list) && list.len()
            == items.len() && forall|i: int|
            0 <= i < items.len() ==> (#[trigger] list[i]).video_id == items[i].member("id"@).member(
                "videoId"@,
            )->Text_0@ && is_member_text(
                list[i].title,
                items[i].member("snippet"@),
                "title"@,
                "Untitled"@,
            ) && is_member_text(
                list[i].channel,
                items[i].member("snippet"@),
                "channelTitle"@,
                "Unknown"@,
            ) && is_member_text(
                list[i].description,
                items[i].member("snippet"@),
                "description"@,
                ""@,
            )),
        !(200 <= status < 300) ==> (sources::videos_in(status, reply) matches Err(e)
            && text::contains(e, outside::status_line(status)) && (reply.member("error"@).member(
            "message"@,
        ) matches Json::Text(m) ==> text::contains(e, m@))),
{
    lemma_videos(items);
}

proof fn lemma_videos(items: Seq<Json>)
    requires
        forall|i: int|
            0 <= i < items.len() ==> (#[trigger] items[i]).member("id"@).member(
                "videoId"@,
            ) is Text,
    ensures
        sources::videos_of(items).len() == items.len(),
        forall|i: int|
            0 <= i < items.len() ==> sources::video_of(items[i]) == Some(
                #[trigger] sources::videos_of(items)[i],
            ),
    decreases items.len(),
{
    if items.len() > 0 {
        let front = items.drop_last();
        assert forall|i: int| 0 <= i < front.len() implies (#[trigger] front[i]).member(
            "id"@,
        ).member("videoId"@) is Text by {
            assert(front[i] == items[i]);
        }
        lemma_videos(front);
        assert(items.last() == items[items.len() - 1]);
        assert forall|i: int| 0 <= i < items.len() implies sources::video_of(items[i]) == Some(
            #[trigger] sources::videos_of(items)[i],
        ) by {
            if i < front.len() {
                assert(front[i] == items[i]);
                assert(sources::videos_of(items)[i] == sources::videos_of(front)[i]);
            }
        }
    }
}

/// An item that names no video is passed over, and a reply without results gives no source.
pub proof fn law_what_is_not_found(status: int, reply: Json, items: Seq<Json>, item: Json)
    ensures
        item.member("id"@).member("videoId"@) !is Text ==> sources::videos_of(items.push(item))
            == sources::videos_of(items),
        reply.member("items"@).items() is None && 200 <= status < 300 ==> (sources::videos_in(
            status,
            reply,
        ) matches Ok(list) && list.len() == 0),
        reply.member("results"@).items() is None ==> sources::web_sources(status, reply).len() == 0
            && sources::book_sources(status, reply).len() == 0,
        reply.member("docs"@).items() is None ==> sources::catalog_sources(status, reply).len() == 0,
        reply.member("data"@).member("children"@).items() is None ==> sources::discussion_sources(
            status,
            reply,
        ).len() == 0,
{
    assert(items.push(item).drop_last() =~= items);
}

/// A video is a source with its own title, channel and address; what it says is the beginning of its
/// captions where there are any, and else of its description.
pub proof fn law_videos_become_sources(v: VideoView, captions: Option<Seq<char>>)
    ensures
        ({
            let said = sources::video_summary(captions, v.description);
            let s = sources::video_source(v, said);
            &&& captions is None ==> is_beginning(said, v.description, 900)
            &&& captions matches Some(doc) ==> {
                let spoken = excerpt::transcript(doc);
                if bytes::byte_len(doc) > 100 && text::contains(doc, "<text"@) && spoken.len() > 0 {
                    is_beginning(said, spoken, 1_200)
                } else {
                    is_beginning(said, v.description, 900)
                }
            }
            &&& said.len() > 0 ==> s.summary == said
            &&& s.source_type == "youtube"@
            &&& s.title == v.title
            &&& s.author_or_channel == v.channel
            &&& s.url == "https://youtube.com/watch?v="@ + v.video_id
            &&& s.year_hint == excerpt::year_named(v.title + " "@ + v.description)
            &&& s.citation_hint == v.channel + ". ("@ + shown_year(s.year_hint) + "). "@ + v.title
                + " [YouTube video]. YouTube."@
        }),
{
    excerpt::law_truncated(v.description, 900);
    match captions {
        Some(doc) => {
            excerpt::law_truncated(excerpt::transcript(doc), 1_200);
        },
        None => {},
    }
}

/// Sources are alike where their addresses are the same but for white space at the ends and the case
/// of letters; without an address, where they are of one kind and their authors and titles are the
/// same but for the case of letters.
pub proof fn law_alike(a: SourceView, b: SourceView)
    ensures
        trim::trim(a.url).len() > 0 && trim::trim(b.url) == trim::trim(a.url) ==> sources::identity(
            a,
        ) == sources::identity(b),
        trim::trim(a.url).len() == 0 && trim::trim(b.url).len() == 0 && a.source_type
            == b.source_type && a.author_or_channel == b.author_or_channel && a.title == b.title
            ==> sources::identity(a) == sources::identity(b),
        trim::trim(a.url).len() > 0 && trim::trim(b.url).len() > 0 && crate::chars::lowercase(
            trim::trim(a.url),
        ) != crate::chars::lowercase(trim::trim(b.url)) ==> sources::identity(a)
            != sources::identity(b),
        trim::trim(a.url).len() == 0 && trim::trim(b.url).len() == 0 && a.source_type
            == b.source_type && crate::chars::lowercase(a.author_or_channel)
            == crate::chars::lowercase(b.author_or_channel) && crate::chars::lowercase(a.title)
            != crate::chars::lowercase(b.title) ==> sources::identity(a) != sources::identity(b),
{
    let x = sources::identity(a);
    let y = sources::identity(b);
    let front = a.source_type + "::"@ + crate::chars::lowercase(a.author_or_channel) + "::"@;
    if trim::trim(a.url).len() == 0 && trim::trim(b.url).len() == 0 && a.source_type
        == b.source_type && crate::chars::lowercase(a.author_or_channel) == crate::chars::lowercase(
        b.author_or_channel,
    ) && x == y {
        let n = front.len() as int;
        assert(x =~= front + crate::chars::lowercase(a.title));
        assert(y =~= front + crate::chars::lowercase(b.title));
        assert(x.skip(n) =~= crate::chars::lowercase(a.title));
        assert(y.skip(n) =~= crate::chars::lowercase(b.title));
    }
}

} // verus!
