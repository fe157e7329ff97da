//! Tiers and styles: what is bought, what it holds, and how it is cited.

use crate::blueprint;
use crate::blueprint::BlueprintView;
use crate::models::{ReferenceStyle, ResearchTier};
use vstd::prelude::*;

verus! {

/// The headings of an outline.
pub open spec fn headings(list: Seq<BlueprintView>) -> Seq<Seq<char>> {
    Seq::new(list.len(), |i: int| list[i].heading)
}

/// The report of a tier is what the tier delivers, has the length that it promises and the sections of
/// its kind, and an appendix of its sources only where it is complete.
pub proof fn law_documents_keep_the_promise(tier: ResearchTier)
    ensures
        ({
            let d = blueprint::document_of(tier);
            &&& d.deliverable == tier.deliverable()
            &&& d.minimum_words == tier.least_words()
            &&& d.include_source_matrix <==> tier is Complete
            &&& tier is Preview ==> headings(d.sections) == seq![
                "Executive Summary"@,
                "Background and Context"@,
                "Key Findings and Analysis"@,
                "Recommendations"@,
            ]
            &&& tier is Starter || tier is Standard ==> headings(d.sections) == seq![
                "Abstract"@,
                "Introduction"@,
                "Literature Review"@,
                "Methodology"@,
                "Discussion"@,
                "Conclusion & Recommendations"@,
            ]
            &&& tier is Complete ==> headings(d.sections) == seq![
                "Abstract"@,
                "Introduction"@,
                "Literature Review"@,
                "Methodology"@,
                "Discussion"@,
                "Conclusion"@,
            ]
        }),
{
    let d = blueprint::document_of(tier);
    assert(tier is Preview ==> headings(d.sections) =~= seq![
        "Executive Summary"@,
        "Background and Context"@,
        "Key Findings and Analysis"@,
        "Recommendations"@,
    ]);
    assert(tier is Starter || tier is Standard ==> headings(d.sections) =~= seq![
        "Abstract"@,
        "Introduction"@,
        "Literature Review"@,
        "Methodology"@,
        "Discussion"@,
        "Conclusion & Recommendations"@,
    ]);
    assert(tier is Complete ==> headings(d.sections) =~= seq![
        "Abstract"@,
        "Introduction"@,
        "Literature Review"@,
        "Methodology"@,
        "Discussion"@,
        "Conclusion"@,
    ]);
}

/// What an amount buys: nothing buys the preview, up to ₦2,000 the starter tier, up to ₦7,000 the
/// standard tier, and more the complete one.
pub proof fn law_amounts_buy_tiers(naira: nat)
    ensures
        ({
            let bought = ResearchTier::bought_with(100 * naira as int);
            &&& naira == 0 <==> bought is Preview
            &&& 0 < naira <= 2_000 <==> bought is Starter
            &&& 2_000 < naira <= 7_000 <==> bought is Standard
            &&& naira > 7_000 <==> bought is Complete
        }),
{
}

/// What a tier costs and what it promises, its words and its citations.
pub proof fn law_promises_of_tiers(tier: ResearchTier)
    ensures
        tier is Preview ==> tier.price() == 0 && tier.least_words() == 500 && tier.citations() == 3,
        tier is Starter ==> tier.price() == 150_000 && tier.least_words() == 2_000
            && tier.citations() == 5,
        tier is Standard ==> tier.price() == 500_000 && tier.least_words() == 5_000
            && tier.citations() == 10,
        tier is Complete ==> tier.price() == 1_000_000 && tier.least_words() == 9_000
            && tier.citations() == 25,
{
}

/// The bibliography of each style has the heading that the style asks for.
pub proof fn law_headings_of_styles(style: ReferenceStyle)
    ensures
        style is Mla <==> style.heading() == "Works Cited"@,
        style is Chicago <==> style.heading() == "Bibliography"@,
        style is Apa || style is Harvard <==> style.heading() == "References"@,
{
    reveal_strlit("Works Cited");
    reveal_strlit("Bibliography");
    reveal_strlit("References");
    assert("Works Cited"@.len() == 11 && "Bibliography"@.len() == 12 && "References"@.len() == 10);
}

/// The floors of sections and parts are a fifth and three tenths of their length, and their budgets
/// two tokens for each word, within bounds.
pub proof fn law_floors_and_budgets(target: nat)
    ensures
        5 * blueprint::section_floor(target as int) <= target < 5 * (blueprint::section_floor(
            target as int,
        ) + 1),
        10 * blueprint::part_floor(target as int) <= 3 * target < 10 * (blueprint::part_floor(
            target as int,
        ) + 1),
        target <= 4096 ==> blueprint::section_tokens(target as int) == 2 * target,
        target > 4096 ==> blueprint::section_tokens(target as int) == 8192,
        target < 384 ==> blueprint::part_tokens(target as int) == 768,
        384 <= target <= 2048 ==> blueprint::part_tokens(target as int) == 2 * target,
        target > 2048 ==> blueprint::part_tokens(target as int) == 4096,
{
}

} // verus!
