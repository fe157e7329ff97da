//! Feedback of users: counting it, telling a model of it, and the files that hold it.

use crate::calendar;
use crate::json;
use crate::models;
use crate::models::{FeedbackRating, FeedbackView, UserFeedback};
use crate::numbers;
use crate::outline;
use crate::outside;
use crate::pieces;
use crate::sources;
use crate::text;
use vstd::prelude::*;

verus! {

broadcast use text::lemma_views_push;

/// How many entries are read at the start.
pub const STARTUP_FEEDBACK: usize = 50;

// Counting

pub open spec fn rating_test(rating: FeedbackRating) -> spec_fn(FeedbackView) -> bool {
    |f: FeedbackView| f.rating == rating
}

/// The number of entries with a rating.
pub open spec fn rated(list: Seq<FeedbackView>, rating: FeedbackRating) -> int {
    list.filter(rating_test(rating)).len() as int
}

/// The number of entries, and of those with each rating.
#[derive(Debug, Clone, Copy, PartialEq, Eq, Structural)]
pub struct FeedbackCounts {
    pub total: usize,
    pub excellent: usize,
    pub good: usize,
    pub needs_work: usize,
    pub poor: usize,
}

/// The counts of a list.
pub open spec fn are_counts(c: FeedbackCounts, list: Seq<FeedbackView>) -> bool {
    &&& c.total == list.len()
    &&& c.excellent == rated(list, FeedbackRating::Excellent)
    &&& c.good == rated(list, FeedbackRating::Good)
    &&& c.needs_work == rated(list, FeedbackRating::NeedsWork)
    &&& c.poor == rated(list, FeedbackRating::Poor)
}

/// Counts the entries of a list.
pub fn count_feedback(list: &Vec<UserFeedback>) -> (r: FeedbackCounts)
    ensures
        are_counts(r, models::feedback_views(list@)),
{
    let ghost all = models::feedback_views(list@);
    let mut excellent: usize = 0;
    let mut good: usize = 0;
    let mut needs_work: usize = 0;
    let mut poor: usize = 0;
    let mut i: usize = 0;
    proof {
        pieces::lemma_filter_ends(all, rating_test(FeedbackRating::Excellent));
        pieces::lemma_filter_ends(all, rating_test(FeedbackRating::Good));
        pieces::lemma_filter_ends(all, rating_test(FeedbackRating::NeedsWork));
        pieces::lemma_filter_ends(all, rating_test(FeedbackRating::Poor));
    }
    while i < list.len()
        invariant
            i <= list@.len(),
            all == models::feedback_views(list@),
            excellent <= i,
            good <= i,
            needs_work <= i,
            poor <= i,
            excellent == rated(all.take(i as int), FeedbackRating::Excellent),
            good == rated(all.take(i as int), FeedbackRating::Good),
            needs_work == rated(all.take(i as int), FeedbackRating::NeedsWork),
            poor == rated(all.take(i as int), FeedbackRating::Poor),
        decreases list@.len() - i,
    {
        proof {
            pieces::lemma_filter_step(all, rating_test(FeedbackRating::Excellent), i as int);
            pieces::lemma_filter_step(all, rating_test(FeedbackRating::Good), i as int);
            pieces::lemma_filter_step(all, rating_test(FeedbackRating::NeedsWork), i as int);
            pieces::lemma_filter_step(all, rating_test(FeedbackRating::Poor), i as int);
        }
        match list[i].rating {
            FeedbackRating::Excellent => {
                excellent += 1;
            },
            FeedbackRating::Good => {
                good += 1;
            },
            FeedbackRating::NeedsWork => {
                needs_work += 1;
            },
            FeedbackRating::Poor => {
                poor += 1;
            },
        }
        i += 1;
    }
    assert(all.take(i as int) =~= all);
    FeedbackCounts { total: list.len(), excellent, good, needs_work, poor }
}

/// Every entry is counted under exactly one rating.
pub proof fn law_counts_add_up(list: Seq<FeedbackView>)
    ensures
        rated(list, FeedbackRating::Excellent) + rated(list, FeedbackRating::Good) + rated(
            list,
            FeedbackRating::NeedsWork,
        ) + rated(list, FeedbackRating::Poor) == list.len(),
    decreases list.len(),
{
    reveal(Seq::filter);
    if list.len() > 0 {
        law_counts_add_up(list.drop_last());
    }
}

/// Whether a key admits to the feedback.
pub fn is_admin(key: &Option<String>, admin_api_key: &str) -> (r: bool)
    ensures
        r == (json::or(text::opt_view(*key), ""@) == admin_api_key@),
{
    match key {
        Some(k) => text::same(k.as_str(), admin_api_key),
        None => text::same("", admin_api_key),
    }
}

// Telling a model

/// The comments of a list with their ratings.
pub open spec fn comment_lines(list: Seq<FeedbackView>) -> Seq<Seq<char>>
    decreases list.len(),
{
    if list.len() == 0 {
        seq![]
    } else {
        match list.last().comment {
            Some(c) => comment_lines(list.drop_last()).push(
                "- ["@ + list.last().rating.name() + "] "@ + c,
            ),
            None => comment_lines(list.drop_last()),
        }
    }
}

/// Lines of a text, each ended by a line feed.
pub open spec fn ended(lines: Seq<Seq<char>>) -> Seq<Seq<char>> {
    Seq::new(lines.len(), |i: int| lines[i] + "\n"@)
}

/// The prompt with what users said of earlier reports: the counts, the first ten comments and,
/// where more than a third of the ratings are bad, a warning.
pub open spec fn informed_prompt(base: Seq<char>, list: Seq<FeedbackView>) -> Seq<char> {
    if list.len() == 0 {
        base
    } else {
        let comments = sources::at_most(comment_lines(list), 10);
        let bad = rated(list, FeedbackRating::NeedsWork) + rated(list, FeedbackRating::Poor);
        let counts = base + "\n\n--- USER FEEDBACK INTELLIGENCE ---\n"@ + "Based on "@
            + numbers::decimal(list.len()) + " user evaluations: "@ + numbers::decimal(
            rated(list, FeedbackRating::Excellent) as nat,
        ) + " excellent, "@ + numbers::decimal(rated(list, FeedbackRating::Good) as nat)
            + " good, "@ + numbers::decimal(rated(list, FeedbackRating::NeedsWork) as nat)
            + " needs work, "@ + numbers::decimal(rated(list, FeedbackRating::Poor) as nat)
            + " poor.\n"@;
        let told = if comments.len() > 0 {
            counts + "\nRecent user comments on generated reports:\n"@ + pieces::join(
                ended(comments),
                ""@,
            )
        } else {
            counts
        };
        let warned = if bad > list.len() as int / 3 {
            told
                + "\nIMPORTANT: A significant portion of users found reports lacking. Focus on depth, accuracy, proper citations, and avoiding generic filler.\n"@
        } else {
            told
        };
        warned + "Apply these insights to improve the quality of all future reports.\n"@
            + "--- END FEEDBACK INTELLIGENCE ---\n"@
    }
}

/// The comments of a beginning come first among all comments.
proof fn lemma_comments_grow(list: Seq<FeedbackView>, i: int)
    requires
        0 <= i <= list.len(),
    ensures
        comment_lines(list.take(i)).len() <= comment_lines(list).len(),
        comment_lines(list).take(comment_lines(list.take(i)).len() as int) == comment_lines(
            list.take(i),
        ),
    decreases list.len(),
{
    if i < list.len() {
        assert(list.drop_last().take(i) == list.take(i));
        lemma_comments_grow(list.drop_last(), i);
        let n = comment_lines(list.take(i)).len() as int;
        assert(comment_lines(list).take(n) =~= comment_lines(list.drop_last()).take(n));
    } else {
        assert(list.take(i) == list);
        assert(comment_lines(list).take(comment_lines(list).len() as int) =~= comment_lines(list));
    }
}

fn first_comments(list: &Vec<UserFeedback>) -> (r: Vec<String>)
    ensures
        text::views(r@) == ended(
            sources::at_most(comment_lines(models::feedback_views(list@)), 10),
        ),
{
    let ghost all = models::feedback_views(list@);
    let mut lines: Vec<String> = Vec::new();
    let mut i: usize = 0;
    assert(all.take(0) =~= seq![]);
    assert(text::views(lines@) =~= ended(comment_lines(all.take(0))));
    while i < list.len() && lines.len() < 10
        invariant
            i <= list@.len(),
            lines@.len() <= 10,
            all == models::feedback_views(list@),
            text::views(lines@) == ended(comment_lines(all.take(i as int))),
        decreases list@.len() - i,
    {
        let ghost before = comment_lines(all.take(i as int));
        assert(all.take(i + 1).drop_last() == all.take(i as int));
        assert(all.take(i + 1).last() == list@[i as int]@);
        match &list[i].comment {
            Some(c) => {
                let mut line = text::copy("- [");
                line.append(list[i].rating.label());
                line.append("] ");
                line.append(c.as_str());
                let ghost bare = line@;
                line.append("\n");
                assert(ended(before.push(bare)) =~= ended(before).push(line@));
                lines.push(line);
            },
            None => {},
        }
        i += 1;
    }
    proof {
        lemma_comments_grow(all, i as int);
        if i == list@.len() {
            assert(all.take(i as int) == all);
        }
        assert(text::views(lines@).len() == lines@.len());
        let every = comment_lines(all);
        let found = comment_lines(all.take(i as int));
        assert(ended(found).len() == found.len());
        if every.len() > 10 {
            assert(every.take(10) =~= found);
        } else {
            assert(every =~= found);
        }
    }
    lines
}

/// The prompt with what users said of earlier reports.
pub fn build_feedback_aware_prompt(base_prompt: &str, feedback: &Vec<UserFeedback>) -> (r: String)
    ensures
        r@ == informed_prompt(base_prompt@, models::feedback_views(feedback@)),
{
    let mut r = text::copy(base_prompt);
    if feedback.len() == 0 {
        return r;
    }
    let ghost all = models::feedback_views(feedback@);
    let c = count_feedback(feedback);
    let comments = first_comments(feedback);
    proof {
        law_counts_add_up(all);
        assert(text::views(comments@).len() == comments@.len());
        assert(ended(sources::at_most(comment_lines(all), 10)).len() == sources::at_most(
            comment_lines(all),
            10,
        ).len());
    }
    r.append("\n\n--- USER FEEDBACK INTELLIGENCE ---\n");
    r.append("Based on ");
    numbers::push_decimal(&mut r, c.total as u64);
    r.append(" user evaluations: ");
    numbers::push_decimal(&mut r, c.excellent as u64);
    r.append(" excellent, ");
    numbers::push_decimal(&mut r, c.good as u64);
    r.append(" good, ");
    numbers::push_decimal(&mut r, c.needs_work as u64);
    r.append(" needs work, ");
    numbers::push_decimal(&mut r, c.poor as u64);
    r.append(" poor.\n");
    if comments.len() > 0 {
        r.append("\nRecent user comments on generated reports:\n");
        let block = pieces::joined(&comments, "");
        r.append(block.as_str());
    }
    if c.needs_work + c.poor > c.total / 3 {
        r.append(
            "\nIMPORTANT: A significant portion of users found reports lacking. Focus on depth, accuracy, proper citations, and avoiding generic filler.\n",
        );
    }
    r.append("Apply these insights to improve the quality of all future reports.\n");
    r.append("--- END FEEDBACK INTELLIGENCE ---\n");
    r
}

// Files

/// The name of the file of an entry, without its directory.
pub open spec fn entry_name(stamp: Seq<char>, chat_id: int) -> Seq<char> {
    stamp + ("-"@ + numbers::decimal_int(chat_id) + ".json"@)
}

/// The file that an entry is saved in; none where its time is out of range.
pub open spec fn file_of(dir: Seq<char>, f: FeedbackView) -> Option<Seq<char>> {
    match outside::compact_time(f.timestamp.secs as int, f.timestamp.nanos as int) {
        Some(stamp) => Some(dir + "/"@ + entry_name(stamp, f.chat_id)),
        None => None,
    }
}

/// The file that an entry is saved in.
pub fn feedback_file_name(feedback_dir: &str, feedback: &UserFeedback) -> (r: Option<String>)
    ensures
        r is Some <==> file_of(feedback_dir@, feedback@) is Some,
        r matches Some(s) ==> file_of(feedback_dir@, feedback@) == Some(s@),
        calendar::is_common(feedback.timestamp) ==> (r matches Some(s) && exists|stamp: Seq<char>|
            #[trigger] calendar::is_stamp(stamp, feedback.timestamp.secs as int) && s@
                == feedback_dir@ + "/"@ + entry_name(stamp, feedback.chat_id as int)),
{
    match outside::compact_stamp(feedback.timestamp) {
        Some(stamp) => Some(stamped_file_name(feedback_dir, stamp.as_str(), feedback.chat_id)),
        None => None,
    }
}

/// The file of an entry, given its time as it is written.
pub fn stamped_file_name(feedback_dir: &str, stamp: &str, chat_id: i64) -> (r: String)
    ensures
        r@ == feedback_dir@ + "/"@ + entry_name(stamp@, chat_id as int),
{
    let mut r = text::copy(feedback_dir);
    r.append("/");
    r.append(stamp);
    r.append("-");
    let id = numbers::decimal_int_text(chat_id);
    r.append(id.as_str());
    r.append(".json");
    assert(r@ =~= feedback_dir@ + "/"@ + entry_name(stamp@, chat_id as int));
    r
}

/// The file of a later entry sorts above that of an earlier one, whatever the chats.
pub proof fn law_later_entries_sort_above(
    earlier: FeedbackView,
    later: FeedbackView,
    s: Seq<char>,
    t: Seq<char>,
)
    requires
        calendar::is_stamp(s, earlier.timestamp.secs as int),
        calendar::is_stamp(t, later.timestamp.secs as int),
        earlier.timestamp.secs < later.timestamp.secs,
    ensures
        outline::precedes(entry_name(s, earlier.chat_id), entry_name(t, later.chat_id)),
{
    calendar::law_stamps_sort(
        s,
        earlier.timestamp.secs as int,
        t,
        later.timestamp.secs as int,
        "-"@ + numbers::decimal_int(earlier.chat_id) + ".json"@,
        "-"@ + numbers::decimal_int(later.chat_id) + ".json"@,
    );
}

/// Whether a file name ends in `.json` behind some other character.
pub open spec fn is_json_name(name: Seq<char>) -> bool {
    match text::last_index(name, '.') {
        Some(k) => k > 0 && name.skip(k + 1) == "json"@,
        None => false,
    }
}

pub open spec fn json_name_test() -> spec_fn(Seq<char>) -> bool {
    |name: Seq<char>| is_json_name(name)
}

fn has_json_name(name: &str) -> (r: bool)
    ensures
        r == is_json_name(name@),
{
    let x = text::chars_of(name);
    assert(x@.take(x@.len() as int) == x@);
    match text::position_of_last(&x, '.', x.len()) {
        Some(k) => {
            let extension = text::text_between(&x, k + 1, x.len());
            assert(extension@ == name@.skip(k + 1));
            k > 0 && text::same(extension.as_str(), "json")
        },
        None => false,
    }
}

/// A descending list with one more name in its place.
pub open spec fn placed(list: Seq<Seq<char>>, name: Seq<char>) -> Seq<Seq<char>>
    decreases list.len(),
{
    if list.len() == 0 {
        seq![name]
    } else if outline::precedes(list[0], name) {
        seq![name] + list
    } else {
        seq![list[0]] + placed(list.skip(1), name)
    }
}

/// Names in descending order: the newest first, since they begin with the time.
pub open spec fn newest_first(names: Seq<Seq<char>>) -> Seq<Seq<char>>
    decreases names.len(),
{
    if names.len() == 0 {
        seq![]
    } else {
        placed(newest_first(names.drop_last()), names.last())
    }
}

/// The names of the newest entries among files.
pub open spec fn newest(names: Seq<Seq<char>>, limit: int) -> Seq<Seq<char>> {
    sources::at_most(newest_first(names.filter(json_name_test())), limit)
}

fn place(list: &mut Vec<String>, name: String)
    ensures
        text::views(final(list)@) == placed(text::views(old(list)@), name@),
{
    let ghost all = text::views(list@);
    let ghost start = list@;
    let mut i: usize = 0;
    assert(all.skip(0) == all);
    assert(all.take(0) + placed(all.skip(0), name@) == placed(all, name@));
    while i < list.len()
        invariant
            i <= list@.len(),
            list@ == start,
            old(list)@ == start,
            all == text::views(list@),
            placed(all, name@) == all.take(i as int) + placed(all.skip(i as int), name@),
        decreases list@.len() - i,
    {
        let ghost rest = all.skip(i as int);
        if outline::is_before(list[i].as_str(), name.as_str()) {
            let ghost added = name@;
            list.insert(i, name);
            assert(text::views(list@) =~= all.take(i as int) + (seq![added] + rest));
            return ;
        }
        assert(rest.skip(1) == all.skip(i + 1));
        assert(all.take(i as int) + (seq![rest[0]] + placed(all.skip(i + 1), name@)) =~= all.take(
            i + 1,
        ) + placed(all.skip(i + 1), name@));
        i += 1;
    }
    let ghost added = name@;
    list.push(name);
    assert(all.skip(i as int) =~= seq![]);
    assert(text::views(list@) =~= all.take(i as int) + seq![added]);
}

/// The names of all entries among the files of a directory, the newest first.
pub fn all_feedback_files(names: &Vec<String>) -> (r: Vec<String>)
    ensures
        text::views(r@) == newest_first(text::views(names@).filter(json_name_test())),
{
    let ghost all = text::views(names@);
    let mut sorted: Vec<String> = Vec::new();
    let mut i: usize = 0;
    proof {
        pieces::lemma_filter_ends(all, json_name_test());
    }
    assert(text::views(sorted@) =~= newest_first(all.take(0).filter(json_name_test())));
    while i < names.len()
        invariant
            i <= names@.len(),
            all == text::views(names@),
            text::views(sorted@) == newest_first(all.take(i as int).filter(json_name_test())),
        decreases names@.len() - i,
    {
        proof {
            pieces::lemma_filter_step(all, json_name_test(), i as int);
        }
        if has_json_name(names[i].as_str()) {
            let ghost before = all.take(i as int).filter(json_name_test());
            assert(before.push(all[i as int]).drop_last() =~= before);
            place(&mut sorted, text::copy(names[i].as_str()));
        }
        i += 1;
    }
    proof {
        pieces::lemma_filter_ends(all, json_name_test());
    }
    sorted
}

/// The names of the newest entries among the files of a directory, the newest first.
pub fn recent_feedback_files(names: &Vec<String>, limit: usize) -> (r: Vec<String>)
    ensures
        text::views(r@) == newest(text::views(names@), limit as int),
{
    let mut sorted = all_feedback_files(names);
    let ghost every = sorted@;
    assert(text::views(every).len() == every.len());
    sorted.truncate(limit);
    proof {
        if every.len() > limit {
            assert(text::views(sorted@) =~= text::views(every).take(limit as int));
        } else {
            assert(text::views(sorted@) =~= text::views(every));
        }
    }
    sorted
}

/// No name stands behind one that it should stand before.
pub open spec fn descending(list: Seq<Seq<char>>) -> bool {
    forall|i: int, j: int|
        0 <= i < j < list.len() ==> !#[trigger] outline::precedes(list[i], list[j])
}

proof fn lemma_placed(list: Seq<Seq<char>>, name: Seq<char>)
    requires
        descending(list),
    ensures
        descending(placed(list, name)),
        placed(list, name).to_multiset() == list.to_multiset().insert(name),
        forall|t: Seq<char>|
            #[trigger] placed(list, name).contains(t) ==> t == name || list.contains(t),
        placed(list, name).len() == list.len() + 1,
    decreases list.len(),
{
    broadcast use vstd::seq_lib::group_to_multiset_ensures;

    let r = placed(list, name);
    if list.len() == 0 {
        assert(r =~= list.push(name));
    } else if outline::precedes(list[0], name) {
        assert(r =~= list.insert(0, name));
        assert(list.insert(0, name).to_multiset() == list.to_multiset().insert(name));
        assert forall|i: int, j: int| 0 <= i < j < r.len() implies !#[trigger] outline::precedes(
            r[i],
            r[j],
        ) by {
            if i > 0 {
                assert(r[i] == list[i - 1] && r[j] == list[j - 1]);
            } else {
                assert(r[j] == list[j - 1]);
                lemma_not_above(list, name, j - 1);
            }
        }
        assert forall|t: Seq<char>| #[trigger] r.contains(t) implies t == name || list.contains(
            t,
        ) by {
            let i = choose|i: int| 0 <= i < r.len() && r[i] == t;
            if i > 0 {
                assert(list[i - 1] == t);
            }
        }
    } else {
        let rest = list.skip(1);
        let more = placed(rest, name);
        assert forall|i: int, j: int| 0 <= i < j < rest.len() implies !#[trigger] outline::precedes(
            rest[i],
            rest[j],
        ) by {
            assert(rest[i] == list[i + 1] && rest[j] == list[j + 1]);
        }
        lemma_placed(rest, name);
        assert(r =~= more.insert(0, list[0]));
        assert(list =~= rest.insert(0, list[0]));
        assert(more.insert(0, list[0]).to_multiset() == more.to_multiset().insert(list[0]));
        assert(rest.insert(0, list[0]).to_multiset() == rest.to_multiset().insert(list[0]));
        assert(r.to_multiset() =~= list.to_multiset().insert(name));
        assert forall|i: int, j: int| 0 <= i < j < r.len() implies !#[trigger] outline::precedes(
            r[i],
            r[j],
        ) by {
            if i > 0 {
                assert(r[i] == more[i - 1] && r[j] == more[j - 1]);
            } else {
                assert(r[j] == more[j - 1]);
                assert(more.contains(r[j]));
                if r[j] != name {
                    let k = choose|k: int| 0 <= k < rest.len() && rest[k] == r[j];
                    assert(list[k + 1] == r[j]);
                }
            }
        }
        assert forall|t: Seq<char>| #[trigger] r.contains(t) implies t == name || list.contains(
            t,
        ) by {
            let i = choose|i: int| 0 <= i < r.len() && r[i] == t;
            if i > 0 {
                assert(more[i - 1] == t);
                assert(more.contains(t));
                if t != name {
                    let k = choose|k: int| 0 <= k < rest.len() && rest[k] == t;
                    assert(list[k + 1] == t);
                }
            } else {
                assert(list[0] == t);
            }
        }
    }
}

/// A name above the first of a descending list is above each of them.
proof fn lemma_not_above(list: Seq<Seq<char>>, name: Seq<char>, k: int)
    requires
        descending(list),
        0 <= k < list.len(),
        outline::precedes(list[0], name),
    ensures
        !outline::precedes(name, list[k]),
{
    if outline::precedes(name, list[k]) {
        outline::lemma_precedes_transitive(list[0], name, list[k]);
        if k == 0 {
            outline::lemma_precedes_total(list[0], list[0]);
        }
    }
}

/// The names come in descending order, and they are those that were given: none is left out.
pub proof fn law_newest_first(names: Seq<Seq<char>>)
    ensures
        descending(newest_first(names)),
        newest_first(names).to_multiset() == names.to_multiset(),
        newest_first(names).len() == names.len(),
    decreases names.len(),
{
    broadcast use vstd::seq_lib::group_to_multiset_ensures;

    if names.len() > 0 {
        law_newest_first(names.drop_last());
        lemma_placed(newest_first(names.drop_last()), names.last());
        assert(names =~= names.drop_last().push(names.last()));
    }
}

} // verus!
