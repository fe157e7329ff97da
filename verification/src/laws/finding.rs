//! Where texts stand in other texts: one of them somewhere, or several in their order.

use crate::pieces;
use crate::text;
use vstd::prelude::*;

verus! {

/// A text stands in itself.
pub broadcast proof fn lemma_holds_itself(s: Seq<char>)
    ensures
        #[trigger] text::contains(s, s),
{
    assert(s.subrange(0, s.len() as int) =~= s);
    assert(text::occurs_at(s, s, 0));
}

/// What stands in the front of a text stands in the text.
pub broadcast proof fn lemma_holds_front(s: Seq<char>, t: Seq<char>, pat: Seq<char>)
    ensures
        text::contains(s, pat) ==> #[trigger] text::contains(s + t, pat),
{
    if text::contains(s, pat) {
        let i = choose|i: int| text::occurs_at(s, pat, i);
        assert((s + t).subrange(i, i + pat.len()) =~= s.subrange(i, i + pat.len()));
        assert(text::occurs_at(s + t, pat, i));
    }
}

/// What stands in the back of a text stands in the text.
pub broadcast proof fn lemma_holds_back(s: Seq<char>, t: Seq<char>, pat: Seq<char>)
    ensures
        text::contains(t, pat) ==> #[trigger] text::contains(s + t, pat),
{
    if text::contains(t, pat) {
        let i = choose|i: int| text::occurs_at(t, pat, i);
        let k = s.len() + i;
        assert((s + t).subrange(k, k + pat.len()) =~= t.subrange(i, i + pat.len()));
        assert(text::occurs_at(s + t, pat, k));
    }
}

/// Two texts that come one behind the other stand in the text together.
pub broadcast proof fn lemma_holds_pair(s: Seq<char>, a: Seq<char>, b: Seq<char>)
    ensures
        #[trigger] text::contains((s + a) + b, a + b),
{
    let k = s.len() as int;
    assert(((s + a) + b).subrange(k, k + (a + b).len()) =~= a + b);
    assert(text::occurs_at((s + a) + b, a + b, k));
}

pub broadcast group group_holds {
    lemma_holds_itself,
    lemma_holds_front,
    lemma_holds_back,
    lemma_holds_pair,
}

/// What stands in a text that stands in another stands in the other.
pub proof fn lemma_holds_through(s: Seq<char>, t: Seq<char>, pat: Seq<char>)
    requires
        text::contains(s, t),
        text::contains(t, pat),
    ensures
        text::contains(s, pat),
{
    let i = choose|i: int| text::occurs_at(s, t, i);
    let j = choose|j: int| text::occurs_at(t, pat, j);
    let found = s.subrange(i + j, i + j + pat.len());
    assert forall|k: int| 0 <= k < pat.len() implies #[trigger] found[k] == pat[k] by {
        assert(s.subrange(i, i + t.len())[j + k] == t[j + k]);
        assert(t.subrange(j, j + pat.len())[k] == pat[k]);
    }
    assert(found =~= pat);
    assert(text::occurs_at(s, pat, i + j));
}

/// The parts stand in a text at these places, each behind the end of the one before it.
pub open spec fn stand_at(t: Seq<char>, parts: Seq<Seq<char>>, places: Seq<int>) -> bool {
    &&& places.len() == parts.len()
    &&& forall|i: int| 0 <= i < parts.len() ==> text::occurs_at(t, parts[i], #[trigger] places[i])
    &&& forall|i: int, j: int|
        0 <= i < j < places.len() ==> #[trigger] places[i] + parts[i].len() <= #[trigger] places[j]
}

/// The parts stand in a text in their order, and none reaches into the next.
pub open spec fn stand_in_order(t: Seq<char>, parts: Seq<Seq<char>>) -> bool {
    exists|places: Seq<int>| stand_at(t, parts, places)
}

/// No part stands in any text.
pub proof fn lemma_none_in_order(t: Seq<char>)
    ensures
        stand_in_order(t, Seq::empty()),
{
    assert(stand_at(t, Seq::empty(), Seq::empty()));
}

/// One part that is held stands in order.
pub proof fn lemma_one_in_order(t: Seq<char>, part: Seq<char>)
    requires
        text::contains(t, part),
    ensures
        stand_in_order(t, seq![part]),
{
    let i = choose|i: int| text::occurs_at(t, part, i);
    assert(stand_at(t, seq![part], seq![i]));
}

/// What stands in order in two texts stands in order in both together.
pub proof fn lemma_order_concat(
    t: Seq<char>,
    parts: Seq<Seq<char>>,
    u: Seq<char>,
    more: Seq<Seq<char>>,
)
    requires
        stand_in_order(t, parts),
        stand_in_order(u, more),
    ensures
        stand_in_order(t + u, parts + more),
{
    let a = choose|places: Seq<int>| stand_at(t, parts, places);
    let b = choose|places: Seq<int>| stand_at(u, more, places);
    let n = t.len() as int;
    let c = Seq::new(b.len(), |i: int| n + b[i]);
    let all = parts + more;
    let places = a + c;
    assert forall|i: int| 0 <= i < all.len() implies text::occurs_at(
        t + u,
        all[i],
        #[trigger] places[i],
    ) by {
        if i < parts.len() {
            assert(text::occurs_at(t, parts[i], a[i]));
            assert((t + u).subrange(a[i], a[i] + parts[i].len()) =~= t.subrange(
                a[i],
                a[i] + parts[i].len(),
            ));
        } else {
            let k = i - parts.len();
            assert(text::occurs_at(u, more[k], b[k]));
            assert((t + u).subrange(n + b[k], n + b[k] + more[k].len()) =~= u.subrange(
                b[k],
                b[k] + more[k].len(),
            ));
        }
    }
    assert forall|i: int, j: int| 0 <= i < j < places.len() implies #[trigger] places[i]
        + all[i].len() <= #[trigger] places[j] by {
        if j < parts.len() {
            assert(a[i] + parts[i].len() <= a[j]);
        } else if i >= parts.len() {
            let k = i - parts.len();
            let m = j - parts.len();
            assert(b[k] + more[k].len() <= b[m]);
        } else {
            assert(text::occurs_at(t, parts[i], a[i]));
            assert(text::occurs_at(u, more[j - parts.len()], b[j - parts.len()]));
        }
    }
    assert(stand_at(t + u, all, places));
}

/// More text behind changes no order.
pub proof fn lemma_order_grows(t: Seq<char>, parts: Seq<Seq<char>>, u: Seq<char>)
    requires
        stand_in_order(t, parts),
    ensures
        stand_in_order(t + u, parts),
{
    lemma_none_in_order(u);
    lemma_order_concat(t, parts, u, Seq::empty());
    assert(parts + Seq::<Seq<char>>::empty() =~= parts);
}

/// More text before changes no order.
pub proof fn lemma_order_shifts(u: Seq<char>, t: Seq<char>, parts: Seq<Seq<char>>)
    requires
        stand_in_order(t, parts),
    ensures
        stand_in_order(u + t, parts),
{
    lemma_none_in_order(u);
    lemma_order_concat(u, Seq::empty(), t, parts);
    assert(Seq::<Seq<char>>::empty() + parts =~= parts);
}

/// A text that is put behind stands behind.
pub proof fn lemma_order_push(t: Seq<char>, parts: Seq<Seq<char>>, p: Seq<char>)
    requires
        stand_in_order(t, parts),
    ensures
        stand_in_order(t + p, parts.push(p)),
{
    lemma_holds_itself(p);
    lemma_one_in_order(p, p);
    lemma_order_concat(t, parts, p, seq![p]);
    assert(parts + seq![p] =~= parts.push(p));
}

/// Texts that are joined stand in their order.
pub proof fn lemma_order_of_join(list: Seq<Seq<char>>, sep: Seq<char>)
    ensures
        stand_in_order(pieces::join(list, sep), list),
    decreases list.len(),
{
    if list.len() == 0 {
        lemma_none_in_order(pieces::join(list, sep));
        assert(list =~= Seq::empty());
    } else if list.len() == 1 {
        lemma_holds_itself(list[0]);
        lemma_one_in_order(list[0], list[0]);
        assert(list =~= seq![list[0]]);
    } else {
        let front = list.drop_last();
        lemma_order_of_join(front, sep);
        lemma_order_grows(pieces::join(front, sep), front, sep);
        lemma_order_push(pieces::join(front, sep) + sep, front, list.last());
        assert(front.push(list.last()) =~= list);
    }
}

/// Where each part holds another text, the other texts stand in the same order.
pub proof fn lemma_order_inside(t: Seq<char>, parts: Seq<Seq<char>>, inner: Seq<Seq<char>>)
    requires
        stand_in_order(t, parts),
        inner.len() == parts.len(),
        forall|i: int| 0 <= i < parts.len() ==> text::contains(#[trigger] parts[i], inner[i]),
    ensures
        stand_in_order(t, inner),
{
    let a = choose|places: Seq<int>| stand_at(t, parts, places);
    let b = Seq::new(parts.len(), |i: int| choose|k: int| text::occurs_at(parts[i], inner[i], k));
    let places = Seq::new(parts.len(), |i: int| a[i] + b[i]);
    assert forall|i: int| 0 <= i < parts.len() implies text::occurs_at(
        parts[i],
        inner[i],
        #[trigger] b[i],
    ) by {
        assert(text::contains(parts[i], inner[i]));
    }
    assert forall|i: int| 0 <= i < inner.len() implies text::occurs_at(
        t,
        inner[i],
        #[trigger] places[i],
    ) by {
        assert(text::occurs_at(t, parts[i], a[i]));
        assert(text::occurs_at(parts[i], inner[i], b[i]));
        let found = t.subrange(places[i], places[i] + inner[i].len());
        assert forall|k: int| 0 <= k < inner[i].len() implies #[trigger] found[k] == inner[i][k] by {
            assert(t.subrange(a[i], a[i] + parts[i].len())[b[i] + k] == parts[i][b[i] + k]);
            assert(parts[i].subrange(b[i], b[i] + inner[i].len())[k] == inner[i][k]);
        }
        assert(found =~= inner[i]);
    }
    assert forall|i: int, j: int| 0 <= i < j < places.len() implies #[trigger] places[i]
        + inner[i].len() <= #[trigger] places[j] by {
        assert(text::occurs_at(parts[i], inner[i], b[i]));
        assert(text::occurs_at(parts[j], inner[j], b[j]));
        assert(a[i] + parts[i].len() <= a[j]);
    }
    assert(stand_at(t, inner, places));
}

/// What stands in order in a text stands in order in every text that holds it.
pub proof fn lemma_order_within(s: Seq<char>, t: Seq<char>, parts: Seq<Seq<char>>)
    requires
        text::contains(s, t),
        stand_in_order(t, parts),
    ensures
        stand_in_order(s, parts),
{
    let k = choose|k: int| text::occurs_at(s, t, k);
    let front = s.subrange(0, k);
    let back = s.subrange(k + t.len(), s.len() as int);
    lemma_order_shifts(front, t, parts);
    lemma_order_grows(front + t, parts, back);
    assert(s.subrange(k, k + t.len()) == t);
    assert(s =~= front + s.subrange(k, k + t.len()) + back);
}

/// A part of what stands in order is held.
pub proof fn lemma_held_in_order(t: Seq<char>, parts: Seq<Seq<char>>, i: int)
    requires
        stand_in_order(t, parts),
        0 <= i < parts.len(),
    ensures
        text::contains(t, parts[i]),
{
    let places = choose|places: Seq<int>| stand_at(t, parts, places);
    assert(text::occurs_at(t, parts[i], places[i]));
}

} // verus!
