//! What is recognised: lists, drafting notes, publishers, senders, requests and files.

use crate::bridge;
use crate::bridge::BridgeView;
use crate::bytes;
use crate::chars;
use crate::excerpt;
use crate::feedback;
use crate::laws::texts;
use crate::models::SourceView;
use crate::numbers;
use crate::outline;
use crate::pieces;
use crate::rendering;
use crate::requests;
use crate::sources;
use crate::state::StateView;
use crate::text;
use crate::trim;
use vstd::prelude::*;

verus! {

// Lists and notes

/// Whether a text begins with a number, a full stop and a space.
pub open spec fn opens_with_number(t: Seq<char>) -> bool {
    exists|k: int| #[trigger] number_ends_at(t, k)
}

pub open spec fn number_ends_at(t: Seq<char>, k: int) -> bool {
    &&& 0 < k
    &&& k + 1 < t.len()
    &&& forall|i: int| 0 <= i < k ==> chars::is_digit(#[trigger] t[i])
    &&& t[k] == '.'
    &&& t[k + 1] == ' '
}

/// A line belongs to a list where it begins, behind white space, with a dash, a star or a dot and a
/// space, or with a number, a full stop and a space; and that is what is taken off it.
pub proof fn law_lists_are_seen(line: Seq<char>)
    ensures
        ({
            let t = trim::trim_start(line);
            let marked = t.len() >= 2 && (t[0] == '-' || t[0] == '*' || t[0] == '•') && t[1] == ' ';
            &&& outline::is_bullet(line) <==> marked || opens_with_number(t)
            &&& marked ==> outline::without_bullet(line) == t.skip(2)
            &&& !marked ==> forall|k: int| #[trigger]
                number_ends_at(t, k) ==> outline::without_bullet(line) == t.skip(k + 2)
            &&& !marked && !opens_with_number(t) ==> outline::without_bullet(line) == t
        }),
{
    let t = trim::trim_start(line);
    lemma_mark(t, "- "@, '-');
    lemma_mark(t, "* "@, '*');
    lemma_mark(t, "• "@, '•');
    let n = numbers::digits_before(t);
    numbers::lemma_digits_before(t);
    assert forall|k: int| #[trigger] number_ends_at(t, k) implies k == n by {
        assert(!chars::is_digit('.'));
        if n < k {
            assert(chars::is_digit(t[n]));
        } else if n > k {
            assert(chars::is_digit(t[k]));
        }
    }
    if outline::is_numbered(t) {
        assert(number_ends_at(t, n));
    }
}

proof fn lemma_mark(t: Seq<char>, mark: Seq<char>, c: char)
    requires
        mark == "- "@ && c == '-' || mark == "* "@ && c == '*' || mark == "• "@ && c == '•',
    ensures
        mark.is_prefix_of(t) <==> t.len() >= 2 && t[0] == c && t[1] == ' ',
{
    reveal_strlit("- ");
    reveal_strlit("* ");
    reveal_strlit("• ");
    assert(mark.len() == 2 && mark[0] == c && mark[1] == ' ');
    if mark.is_prefix_of(t) {
        assert(t.subrange(0, 2)[0] == mark[0] && t.subrange(0, 2)[1] == mark[1]);
    } else if t.len() >= 2 && t[0] == c && t[1] == ' ' {
        assert(t.subrange(0, 2) =~= mark);
    }
}

/// The openings of drafting notes.
pub open spec fn is_note(m: Seq<char>) -> bool {
    ||| m == "drafting:"@
    ||| m == "paragraph 1:"@
    ||| m == "paragraph 2:"@
    ||| m == "paragraph 3:"@
    ||| m == "word count check:"@
    ||| m == "tone check:"@
    ||| m == "citation check:"@
    ||| m == "self-correction during drafting"@
    ||| m == "requirements:"@
    ||| m == "context:"@
    ||| m == "objective:"@
    ||| m == "findings:"@
}

/// A text is not prose where a line of it begins as a drafting note does, in any case of letters; and
/// the note is told.
pub proof fn law_notes_are_seen(t: Seq<char>, i: int, m: Seq<char>)
    requires
        0 <= i < pieces::lines(t).len(),
        is_note(m),
        m.is_prefix_of(chars::lowercase(trim::trim(pieces::lines(t)[i]))),
    ensures
        outline::hits(t).contains(m),
        !outline::is_prose(t),
{
    let ms = outline::markers();
    assert(ms[0] == "drafting:"@ && ms[1] == "paragraph 1:"@ && ms[2] == "paragraph 2:"@ && ms[3]
        == "paragraph 3:"@ && ms[4] == "word count check:"@ && ms[5] == "tone check:"@ && ms[6]
        == "citation check:"@ && ms[7] == "self-correction during drafting"@ && ms[8]
        == "requirements:"@ && ms[9] == "context:"@ && ms[10] == "objective:"@ && ms[11]
        == "findings:"@);
    assert(ms.contains(m));
    outline::law_hits_are_what_the_lines_hold(t);
    assert(outline::line_holds(pieces::lines(t)[i], m));
}

/// A line that opens as an outline does is told by its first two words.
pub proof fn law_outlines_are_seen(t: Seq<char>, i: int)
    requires
        0 <= i < pieces::lines(t).len(),
    ensures
        ({
            let low = chars::lowercase(trim::trim(pieces::lines(t)[i]));
            let ws = pieces::words(low);
            ("paragraph "@.is_prefix_of(low) || "theme "@.is_prefix_of(low)
                || "fragment "@.is_prefix_of(low) || "source "@.is_prefix_of(low)
                || "drafting p"@.is_prefix_of(low) || "intro:"@.is_prefix_of(low)
                || "conclusion:"@.is_prefix_of(low)) ==> {
                &&& ws.len() >= 2 ==> outline::hits(t).contains(ws[0] + " "@ + ws[1])
                &&& ws.len() == 1 ==> outline::hits(t).contains(ws[0])
                &&& !outline::is_prose(t)
            }
        }),
{
    let low = chars::lowercase(trim::trim(pieces::lines(t)[i]));
    let ws = pieces::words(low);
    if outline::has_outline_opening(low) {
        let h = outline::two_words(low);
        outline::law_hits_are_what_the_lines_hold(t);
        assert(outline::line_holds(pieces::lines(t)[i], h));
        assert(outline::hits(t).contains(h));
        if ws.len() >= 2 {
            let two = ws.take(2);
            assert(two.drop_last() =~= seq![ws[0]]);
            reveal_with_fuel(pieces::join, 2);
            assert(h =~= ws[0] + " "@ + ws[1]);
        } else if ws.len() == 1 {
            assert(ws.take(1) =~= ws);
            assert(h == ws[0]);
        }
    }
}

/// Which labels are dropped from a line, and which lines are remarks that are dropped whole.
pub proof fn law_labels_and_remarks(t: Seq<char>)
    ensures
        outline::is_outline_label(t) <==> {
            ||| "paragraph "@.is_prefix_of(t)
            ||| "theme "@.is_prefix_of(t)
            ||| "fragment "@.is_prefix_of(t)
            ||| "source "@.is_prefix_of(t)
            ||| "section "@.is_prefix_of(t)
            ||| "subsection "@.is_prefix_of(t)
            ||| "sentence "@.is_prefix_of(t)
            ||| "drafting "@.is_prefix_of(t)
            ||| "wait"@.is_prefix_of(t)
            ||| t == "intro"@
            ||| t == "conclusion"@
            ||| t == "drafting thought"@
            ||| t == "self-correction"@
            ||| t == "self correction"@
            ||| t == "correction"@
            ||| t == "actually"@
            ||| t == "word count check"@
        },
        outline::is_remark(t) <==> {
            ||| "word count"@.is_prefix_of(t)
            ||| "citation count"@.is_prefix_of(t)
            ||| "tone check"@.is_prefix_of(t)
            ||| "draft ready"@.is_prefix_of(t)
            ||| text::contains(t, "drafting thought:"@)
            ||| text::contains(t, "self-correction"@)
            ||| text::contains(t, "self correction"@)
            ||| text::contains(t, "wait, "@)
            ||| text::contains(t, "wait:"@)
        },
{
}

/// A label that is dropped stands before the first colon of a line; what stands behind it stays. Any
/// other line stays whole.
pub proof fn law_labels_are_dropped(label: Seq<char>, rest: Seq<char>)
    requires
        label.len() > 0,
        trim::is_trimmed(label),
        label[0] != '*',
        !label.contains(':'),
        rest.len() > 0,
        trim::is_trimmed(rest),
        rest[0] != '*',
        outline::marker_of(label + (":"@ + rest)) is None,
        chars::lowercase(label).len() > 0,
        chars::lowercase(label).last() != '*',
    ensures
        outline::is_outline_label(chars::lowercase(label)) ==> outline::without_label(
            label + (":"@ + rest),
        ) == rest,
        !outline::is_outline_label(chars::lowercase(label)) ==> outline::without_label(
            label + (":"@ + rest),
        ) == label + (":"@ + rest),
{
    reveal_strlit(":");
    let t = label + (":"@ + rest);
    assert(t[0] == label[0] && t.last() == rest.last());
    trim::lemma_trimmed_is_fixed(t);
    trim::lemma_trimmed_is_fixed(label);
    trim::lemma_trimmed_is_fixed(rest);
    let k = label.len() as int;
    assert(t.subrange(k, k + 1) =~= ":"@);
    assert(text::occurs_at(t, ":"@, k));
    text::lemma_find_from(t, ":"@, 0);
    match text::find(t, ":"@) {
        Some(i) => {
            if i < k {
                assert(t.subrange(i, i + 1)[0] == ":"@[0]);
                assert(label[i] == ':');
            }
            assert(i == k);
            assert(t.take(k) =~= label);
            assert(t.skip(k + 1) =~= rest);
        },
        None => {},
    }
}

// Publishers

/// A source of a host that holds the mark of a publisher is cited by the publisher, the first one
/// whose mark it holds.
pub proof fn law_publishers_are_named(s: SourceView, k: int)
    requires
        ({
            let a = trim::trim(s.author_or_channel);
            &&& text::contains(a, "."@)
            &&& !text::contains(a, " "@)
            &&& a != "pmc.ncbi.nlm.nih.gov"@
            &&& 0 <= k < rendering::publishers().len()
            &&& text::contains(a, rendering::publishers()[k].0)
            &&& forall|j: int|
                0 <= j < k ==> !text::contains(a, (#[trigger] rendering::publishers()[j]).0)
        }),
    ensures
        rendering::citation_key(s) == rendering::publishers()[k].1 + ", "@ + sources::year_label(
            s.year_hint,
        ),
{
    lemma_named(rendering::publishers(), trim::trim(s.author_or_channel), k);
}

proof fn lemma_named(list: Seq<(Seq<char>, Seq<char>)>, host: Seq<char>, k: int)
    requires
        0 <= k < list.len(),
        text::contains(host, list[k].0),
        forall|j: int| 0 <= j < k ==> !text::contains(host, (#[trigger] list[j]).0),
    ensures
        rendering::named_publisher(list, host) == list[k].1,
    decreases k,
{
    if k > 0 {
        let rest = list.skip(1);
        assert(!text::contains(host, list[0].0));
        assert(rest[k - 1] == list[k]);
        assert forall|j: int| 0 <= j < k - 1 implies !text::contains(
            host,
            (#[trigger] rest[j]).0,
        ) by {
            assert(rest[j] == list[j + 1]);
        }
        lemma_named(rest, host, k - 1);
    }
}

// Messages

/// A message that is too long breaks at the last line break of what fits, else at its last space,
/// else where it ends to fit; the rest follows without white space in front.
pub proof fn law_messages_break_at_line_ends(t: Seq<char>, max: int, fit: int)
    requires
        0 < max < bytes::byte_len(t),
        0 <= fit <= t.len(),
        bytes::byte_len(t.take(fit)) == max,
    ensures
        ({
            let seen = t.take(fit);
            let cut = excerpt::cut_of(t, max);
            &&& cut is Some
            &&& 0 <= cut->0 <= fit
            &&& forall|i: int| cut->0 < i < fit ==> #[trigger] t[i] != '\n'
            &&& seen.contains('\n') ==> t[cut->0] == '\n'
            &&& !seen.contains('\n') && seen.contains(' ') ==> t[cut->0] == ' ' && forall|i: int|
                cut->0 < i < fit ==> #[trigger] t[i] != ' '
            &&& !seen.contains('\n') && !seen.contains(' ') ==> cut->0 == fit
            &&& trim::trim_start(t.skip(cut->0)).len() < t.len() ==> excerpt::messages(t, max)
                == seq![t.take(cut->0)] + excerpt::parts_of(
                trim::trim_start(t.skip(cut->0)),
                max,
            )
        }),
{
    lemma_fit(t, max, fit);
    let seen = t.take(fit);
    text::lemma_last_index(seen, '\n');
    text::lemma_last_index(seen, ' ');
    match text::last_index(seen, '\n') {
        Some(i) => {
            assert(seen[i] == '\n');
            assert forall|j: int| i < j < fit implies #[trigger] t[j] != '\n' by {
                assert(seen[j] == t[j]);
            }
        },
        None => {
            assert forall|j: int| 0 <= j < fit implies #[trigger] t[j] != '\n' by {
                assert(seen[j] == t[j]);
            }
            match text::last_index(seen, ' ') {
                Some(i) => {
                    assert(seen[i] == ' ');
                    assert(seen.contains(' '));
                    assert forall|j: int| i < j < fit implies #[trigger] t[j] != ' ' by {
                        assert(seen[j] == t[j]);
                    }
                },
                None => {},
            }
        },
    }
}

proof fn lemma_fit(t: Seq<char>, max: int, fit: int)
    requires
        0 <= max,
        0 <= fit <= t.len(),
        bytes::byte_len(t.take(fit)) == max,
    ensures
        bytes::chars_before(t, max) == Some(fit),
    decreases fit,
{
    if fit == 0 {
        assert(t.take(0).len() == 0);
    } else {
        let s = t.take(fit);
        assert(s[0] == t[0]);
        assert(s.skip(1) =~= t.skip(1).take(fit - 1));
        lemma_fit(t.skip(1), max - bytes::width(t[0]), fit - 1);
    }
}

/// Plain text takes a byte for each character.
pub proof fn law_plain_text_is_counted_by_characters(t: Seq<char>)
    requires
        forall|i: int| 0 <= i < t.len() ==> (#[trigger] t[i] as u32) < 128,
    ensures
        bytes::byte_len(t) == t.len(),
    decreases t.len(),
{
    if t.len() > 0 {
        let rest = t.skip(1);
        assert forall|i: int| 0 <= i < rest.len() implies (#[trigger] rest[i] as u32) < 128 by {
            assert(rest[i] == t[i + 1]);
        }
        law_plain_text_is_counted_by_characters(rest);
        assert((t[0] as u32) < 128);
    }
}

// Senders and requests

/// A sender is known by the digits of the address, whatever else stands in it.
pub proof fn law_senders_are_known_by_their_digits(sender: Seq<char>, n: nat)
    requires
        sender.filter(|c: char| chars::is_digit(c)) == numbers::decimal(n),
        n <= i64::MAX,
    ensures
        bridge::key_of(sender) == n,
{
    assert(bridge::digits_test() =~= (|c: char| chars::is_digit(c)));
    texts::law_numbers_read_back(n);
    let d = numbers::decimal(n);
    assert(chars::is_digit(d[0]));
    assert(d[0] != '-' && d[0] != '+');
}

/// A text that begins with none of the marks of a report asks for none.
pub proof fn law_other_questions_are_briefs(t: Seq<char>)
    ensures
        ({
            let low = chars::lowercase(trim::trim(t));
            !"report:"@.is_prefix_of(low) && !"full report:"@.is_prefix_of(low)
                && !"pdf:"@.is_prefix_of(low) && !"/report "@.is_prefix_of(low)
                ==> bridge::report_topic(t) is None
        }),
{
    let marks = bridge::report_marks();
    let s = trim::trim(t);
    reveal_with_fuel(bridge::first_after_mark, 5);
    assert(marks.skip(1)[0] == "full report:"@);
    assert(marks.skip(1).skip(1)[0] == "pdf:"@);
    assert(marks.skip(1).skip(1).skip(1)[0] == "/report "@);
    assert(marks.skip(1).skip(1).skip(1).skip(1).len() == 0);
}

/// Short greetings are greetings, and a longer text is none, whatever it begins with.
pub proof fn law_long_texts_are_no_greetings(t: Seq<char>)
    ensures
        bytes::byte_len(t) > 15 ==> !bridge::is_greeting(t),
        bytes::byte_len(t) < 15 && ("hi "@.is_prefix_of(t) || "hello "@.is_prefix_of(t)
            || "hey "@.is_prefix_of(t)) ==> bridge::is_greeting(t),
        t == "hi"@ || t == "hello"@ || t == "hey"@ || t == "help"@ || t == "/help"@ || t == "menu"@
            || t == "start"@ || t == "/start"@ || t == "hi professor"@ || t == "hello professor"@
            ==> bridge::is_greeting(t),
{
    if bytes::byte_len(t) > 15 {
        lemma_short("help"@);
        reveal_strlit("help");
        reveal_strlit("/help");
        reveal_strlit("start");
        reveal_strlit("/start");
        reveal_strlit("menu");
        reveal_strlit("hi");
        reveal_strlit("hello");
        reveal_strlit("hey");
        reveal_strlit("hi professor");
        reveal_strlit("hello professor");
        lemma_short("/help"@);
        lemma_short("start"@);
        lemma_short("/start"@);
        lemma_short("menu"@);
        lemma_short("hi"@);
        lemma_short("hello"@);
        lemma_short("hey"@);
        lemma_short("hi professor"@);
        lemma_short("hello professor"@);
    }
}

proof fn lemma_short(t: Seq<char>)
    ensures
        (forall|i: int| 0 <= i < t.len() ==> (#[trigger] t[i] as u32) < 128) ==> bytes::byte_len(t)
            == t.len(),
{
    if forall|i: int| 0 <= i < t.len() ==> (#[trigger] t[i] as u32) < 128 {
        law_plain_text_is_counted_by_characters(t);
    }
}

/// A voice note is answered like a message, by the same rule on who is let in, and changes nothing.
pub proof fn law_voice_notes_are_answered(s: StateView, auth: Seq<char>, sender: Seq<char>)
    ensures
        ({
            let let_in = auth == s.config.bridge_secret && match s.config.allowed_users {
                Some(list) => list.contains(bridge::key_of(sender)),
                None => true,
            };
            &&& let_in ==> bridge::audio_outcome(s, auth, sender) is Reply
            &&& !let_in ==> bridge::audio_outcome(s, auth, sender) is Unauthorized
        }),
{
}

// Files

/// A name with something before `.json` at its end is one of a feedback file, and no other name is.
pub proof fn law_feedback_files_are_known(front: Seq<char>)
    ensures
        front.len() > 0 ==> feedback::is_json_name(front + ".json"@),
        !feedback::is_json_name(".json"@),
        !front.contains('.') ==> !feedback::is_json_name(front),
        feedback::is_json_name(front) ==> ".json"@.is_suffix_of(front),
{
    reveal_strlit(".json");
    reveal_strlit("json");
    let name = front + ".json"@;
    let k = front.len() as int;
    text::lemma_last_index(name, '.');
    assert(name[k] == '.');
    match text::last_index(name, '.') {
        Some(i) => {
            if i > k {
                assert(name[i] == ".json"@[i - k]);
            }
            assert(name.skip(k + 1) =~= "json"@);
        },
        None => {},
    }
    let bare = ".json"@;
    text::lemma_last_index(bare, '.');
    assert(bare[0] == '.');
    text::lemma_last_index(front, '.');
    match text::last_index(front, '.') {
        Some(i) => {
            assert(front.contains(front[i]));
            if feedback::is_json_name(front) {
                let n = front.len() as int;
                assert(front.skip(i + 1).len() == 4);
                assert forall|j: int| 0 <= j < 5 implies #[trigger] front.subrange(n - 5, n)[j]
                    == ".json"@[j] by {
                    if j > 0 {
                        assert(front.skip(i + 1)[j - 1] == "json"@[j - 1]);
                    }
                }
                assert(front.subrange(n - 5, n) =~= ".json"@);
            }
        },
        None => {},
    }
}

/// The newest feedback files are the first of all of them, newest first, up to a limit.
pub proof fn law_newest_files(names: Seq<Seq<char>>, limit: nat)
    ensures
        ({
            let all = feedback::newest_first(names.filter(|n: Seq<char>| feedback::is_json_name(n)));
            let newest = feedback::newest(names, limit as int);
            &&& newest.len() == if all.len() < limit {
                all.len()
            } else {
                limit
            }
            &&& forall|i: int| 0 <= i < newest.len() ==> #[trigger] newest[i] == all[i]
        }),
{
    assert(feedback::json_name_test() =~= (|n: Seq<char>| feedback::is_json_name(n)));
}

/// The files of a report stand in its directory under the name that they share.
pub proof fn law_artifacts_stand_together(dir: Seq<char>, base: Seq<char>)
    requires
        dir.len() > 0,
        dir.last() != '/',
    ensures
        ({
            let a = requests::artifacts_in(dir, base);
            &&& a.markdown_path == Some(dir + "/"@ + base + ".md"@)
            &&& a.json_path == Some(dir + "/"@ + base + ".json"@)
            &&& a.pdf_path == Some(dir + "/"@ + base + ".pdf"@)
        }),
{
    assert(dir + "/"@ + (base + ".md"@) =~= dir + "/"@ + base + ".md"@);
    assert(dir + "/"@ + (base + ".json"@) =~= dir + "/"@ + base + ".json"@);
    assert(dir + "/"@ + (base + ".pdf"@) =~= dir + "/"@ + base + ".pdf"@);
}

} // verus!
