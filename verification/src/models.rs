//! The data of the assistant: messages, payments, tiers, styles, feedback and reports.

use crate::chars;
use crate::json::Json;
use crate::text;
use crate::trim;
use vstd::prelude::*;
use vstd::utf8;

verus! {

// Telegram updates

#[derive(Debug)]
pub struct TelegramUpdate {
    pub update_id: u64,
    pub message: Option<TelegramMessage>,
    pub callback_query: Option<TelegramCallbackQuery>,
}

#[derive(Debug)]
pub struct TelegramMessage {
    pub _message_id: u64,
    pub from: Option<TelegramUser>,
    pub chat: TelegramChat,
    pub text: Option<String>,
}

#[derive(Debug)]
pub struct TelegramUser {
    pub id: u64,
    pub first_name: String,
    pub username: Option<String>,
}

#[derive(Debug)]
pub struct TelegramChat {
    pub id: i64,
}

#[derive(Debug)]
pub struct TelegramCallbackQuery {
    pub id: String,
    pub from: TelegramUser,
    pub message: Option<TelegramCallbackMessage>,
    pub data: Option<String>,
}

#[derive(Debug)]
pub struct TelegramCallbackMessage {
    pub chat: TelegramChat,
    pub _message_id: u64,
}

// Payments

#[derive(Debug)]
pub struct PaystackWebhookPayload {
    pub event: String,
    pub data: PaystackData,
}

#[derive(Debug)]
pub struct PaystackData {
    pub _reference: Option<String>,
    pub amount: Option<u64>,
    pub _currency: Option<String>,
    pub _status: Option<String>,
    pub _customer: Option<PaystackCustomer>,
    pub metadata: Option<Json>,
}

#[derive(Debug)]
pub struct PaystackCustomer {
    pub _email: Option<String>,
    pub _phone: Option<String>,
}

// Tiers

/// The tiers of the research service. Each unlocks more sections of the same report, and what was
/// paid for one counts towards the next: from Starter (₦1,500) to Standard costs only ₦3,500.
#[derive(Debug, Clone, Copy, PartialEq, Eq, Structural)]
pub enum ResearchTier {
    /// Free: abstract and table of contents.
    Preview,
    /// ₦1,500: introduction and literature review too.
    Starter,
    /// ₦5,000: methodology and findings too.
    Standard,
    /// ₦10,000: the full paper with references and PDF.
    Complete,
}

impl ResearchTier {
    /// The price in kobo.
    pub open spec fn price(self) -> int {
        match self {
            ResearchTier::Preview => 0,
            ResearchTier::Starter => 150_000,
            ResearchTier::Standard => 500_000,
            ResearchTier::Complete => 1_000_000,
        }
    }

    /// What moving to this tier from another costs in kobo: what was paid counts.
    pub open spec fn upgrade_price(self, current: ResearchTier) -> int {
        if self.price() > current.price() {
            self.price() - current.price()
        } else {
            0
        }
    }

    /// The tier that an amount in kobo buys: up to ₦2,000 Starter, up to ₦7,000 Standard.
    pub open spec fn bought_with(amount: int) -> ResearchTier {
        if amount <= 0 {
            ResearchTier::Preview
        } else if amount <= 200_000 {
            ResearchTier::Starter
        } else if amount <= 700_000 {
            ResearchTier::Standard
        } else {
            ResearchTier::Complete
        }
    }

    pub open spec fn citations(self) -> int {
        match self {
            ResearchTier::Preview => 3,
            ResearchTier::Starter => 5,
            ResearchTier::Standard => 10,
            ResearchTier::Complete => 25,
        }
    }

    pub open spec fn least_words(self) -> int {
        match self {
            ResearchTier::Preview => 500,
            ResearchTier::Starter => 2_000,
            ResearchTier::Standard => 5_000,
            ResearchTier::Complete => 9_000,
        }
    }

    pub open spec fn name(self) -> Seq<char> {
        match self {
            ResearchTier::Preview => "Preview (Free)"@,
            ResearchTier::Starter => "Starter"@,
            ResearchTier::Standard => "Standard"@,
            ResearchTier::Complete => "Complete"@,
        }
    }

    pub open spec fn deliverable(self) -> Seq<char> {
        match self {
            ResearchTier::Preview => "abstract and table of contents"@,
            ResearchTier::Starter => "abstract, TOC, introduction, and literature review"@,
            ResearchTier::Standard => "abstract through methodology and findings"@,
            ResearchTier::Complete => "full academic paper"@,
        }
    }

    /// The headings that a tier adds to those of the tier before it.
    pub open spec fn added_sections(self) -> Seq<Seq<char>> {
        match self {
            ResearchTier::Preview => seq!["Abstract"@, "Table of Contents"@],
            ResearchTier::Starter => seq!["Introduction"@, "Literature Review"@],
            ResearchTier::Standard => seq!["Methodology"@, "Discussion"@],
            ResearchTier::Complete => seq!["Conclusion & Recommendations"@, "References"@],
        }
    }

    /// The headings that a tier unlocks: its own after those of every tier before it.
    pub open spec fn unlocked(self) -> Seq<Seq<char>> {
        match self {
            ResearchTier::Preview => ResearchTier::Preview.added_sections(),
            ResearchTier::Starter => ResearchTier::Preview.added_sections()
                + ResearchTier::Starter.added_sections(),
            ResearchTier::Standard => ResearchTier::Preview.added_sections()
                + ResearchTier::Starter.added_sections()
                + ResearchTier::Standard.added_sections(),
            ResearchTier::Complete => ResearchTier::Preview.added_sections()
                + ResearchTier::Starter.added_sections()
                + ResearchTier::Standard.added_sections()
                + ResearchTier::Complete.added_sections(),
        }
    }

    pub open spec fn symbol(self) -> Seq<char> {
        match self {
            ResearchTier::Preview => "📋"@,
            ResearchTier::Starter => "📝"@,
            ResearchTier::Standard => "📊"@,
            ResearchTier::Complete => "📚"@,
        }
    }

    /// The tier above.
    pub open spec fn above(self) -> Option<ResearchTier> {
        match self {
            ResearchTier::Preview => Some(ResearchTier::Starter),
            ResearchTier::Starter => Some(ResearchTier::Standard),
            ResearchTier::Standard => Some(ResearchTier::Complete),
            ResearchTier::Complete => None,
        }
    }

    /// The tier that a request names, Complete where it names none.
    pub open spec fn named(lowered: Seq<char>) -> ResearchTier {
        if lowered == "preview"@ {
            ResearchTier::Preview
        } else if lowered == "starter"@ {
            ResearchTier::Starter
        } else if lowered == "standard"@ {
            ResearchTier::Standard
        } else {
            ResearchTier::Complete
        }
    }

    /// The tier that an amount in kobo buys.
    pub fn from_amount_kobo(amount: u64) -> (r: Self)
        ensures
            r == ResearchTier::bought_with(amount as int),
    {
        if amount == 0 {
            ResearchTier::Preview
        } else if amount <= 200_000 {
            ResearchTier::Starter
        } else if amount <= 700_000 {
            ResearchTier::Standard
        } else {
            ResearchTier::Complete
        }
    }

    /// The price in kobo.
    pub fn price_kobo(&self) -> (r: u64)
        ensures
            r == self.price(),
    {
        match self {
            ResearchTier::Preview => 0,
            ResearchTier::Starter => 150_000,
            ResearchTier::Standard => 500_000,
            ResearchTier::Complete => 1_000_000,
        }
    }

    /// The price in naira.
    pub fn price_naira(&self) -> (r: u64)
        ensures
            r == self.price() / 100,
    {
        self.price_kobo() / 100
    }

    /// What moving to this tier from `current` costs in kobo; moving down costs nothing.
    pub fn upgrade_cost_from(&self, current: &ResearchTier) -> (r: u64)
        ensures
            r == self.upgrade_price(*current),
    {
        let target_price = self.price_kobo();
        let current_price = current.price_kobo();
        if target_price > current_price {
            target_price - current_price
        } else {
            0
        }
    }

    /// The number of citations that a report of this tier should reach.
    pub fn citation_target(&self) -> (r: usize)
        ensures
            r == self.citations(),
    {
        match self {
            ResearchTier::Preview => 3,
            ResearchTier::Starter => 5,
            ResearchTier::Standard => 10,
            ResearchTier::Complete => 25,
        }
    }

    /// The name that users see.
    pub fn label(&self) -> (r: &'static str)
        ensures
            r@ == self.name(),
    {
        match self {
            ResearchTier::Preview => "Preview (Free)",
            ResearchTier::Starter => "Starter",
            ResearchTier::Standard => "Standard",
            ResearchTier::Complete => "Complete",
        }
    }

    /// What the tier delivers, in words.
    pub fn deliverable_name(&self) -> (r: &'static str)
        ensures
            r@ == self.deliverable(),
    {
        match self {
            ResearchTier::Preview => "abstract and table of contents",
            ResearchTier::Starter => "abstract, TOC, introduction, and literature review",
            ResearchTier::Standard => "abstract through methodology and findings",
            ResearchTier::Complete => "full academic paper",
        }
    }

    /// The number of words that the tier promises.
    pub fn minimum_word_count(&self) -> (r: usize)
        ensures
            r == self.least_words(),
    {
        match self {
            ResearchTier::Preview => 500,
            ResearchTier::Starter => 2_000,
            ResearchTier::Standard => 5_000,
            ResearchTier::Complete => 9_000,
        }
    }

    /// The section headings that this tier unlocks.
    pub fn unlocked_sections(&self) -> (r: Vec<&'static str>)
        ensures
            text::str_views(r@) == self.unlocked(),
    {
        let r = match self {
            ResearchTier::Preview => vec!["Abstract", "Table of Contents"],
            ResearchTier::Starter => vec![
                "Abstract",
                "Table of Contents",
                "Introduction",
                "Literature Review",
            ],
            ResearchTier::Standard => vec![
                "Abstract",
                "Table of Contents",
                "Introduction",
                "Literature Review",
                "Methodology",
                "Discussion",
            ],
            ResearchTier::Complete => vec![
                "Abstract",
                "Table of Contents",
                "Introduction",
                "Literature Review",
                "Methodology",
                "Discussion",
                "Conclusion & Recommendations",
                "References",
            ],
        };
        assert(text::str_views(r@) =~= self.unlocked());
        r
    }

    /// The symbol that stands beside the name.
    pub fn emoji(&self) -> (r: &'static str)
        ensures
            r@ == self.symbol(),
    {
        match self {
            ResearchTier::Preview => "📋",
            ResearchTier::Starter => "📝",
            ResearchTier::Standard => "📊",
            ResearchTier::Complete => "📚",
        }
    }

    /// All tiers in upgrade order.
    pub fn all() -> (r: Vec<ResearchTier>)
        ensures
            r@ == seq![
                ResearchTier::Preview,
                ResearchTier::Starter,
                ResearchTier::Standard,
                ResearchTier::Complete,
            ],
    {
        let r = vec![
            ResearchTier::Preview,
            ResearchTier::Starter,
            ResearchTier::Standard,
            ResearchTier::Complete,
        ];
        assert(r@ =~= seq![
            ResearchTier::Preview,
            ResearchTier::Starter,
            ResearchTier::Standard,
            ResearchTier::Complete,
        ]);
        r
    }

    /// The tier above, where there is one.
    pub fn next_tier(&self) -> (r: Option<ResearchTier>)
        ensures
            r == self.above(),
    {
        match self {
            ResearchTier::Preview => Some(ResearchTier::Starter),
            ResearchTier::Starter => Some(ResearchTier::Standard),
            ResearchTier::Standard => Some(ResearchTier::Complete),
            ResearchTier::Complete => None,
        }
    }

    /// The tier that a request names in any case of letters, Complete where it names none.
    pub fn from_request(tier: &str) -> (r: Self)
        ensures
            r == ResearchTier::named(chars::lowercase(tier@)),
    {
        let lower = chars::to_lowercase(tier);
        if text::same(lower.as_str(), "preview") {
            ResearchTier::Preview
        } else if text::same(lower.as_str(), "starter") {
            ResearchTier::Starter
        } else if text::same(lower.as_str(), "standard") {
            ResearchTier::Standard
        } else {
            ResearchTier::Complete
        }
    }
}

/// Paying the price of a tier buys that tier.
pub proof fn law_price_buys_the_tier(tier: ResearchTier)
    ensures
        ResearchTier::bought_with(tier.price()) == tier,
{
}

/// A larger amount never buys a tier with a lower price.
pub proof fn law_paying_more_never_buys_less(a: int, b: int)
    requires
        a <= b,
    ensures
        ResearchTier::bought_with(a).price() <= ResearchTier::bought_with(b).price(),
{
}

/// The tier above costs more, promises more words and citations, and keeps every heading of the
/// tier below, in order, before those that it adds.
pub proof fn law_next_tier_extends(tier: ResearchTier)
    ensures
        tier.above() matches Some(next) ==> tier.price() < next.price() && tier.least_words()
            < next.least_words() && tier.citations() < next.citations()
            && tier.unlocked().is_prefix_of(next.unlocked()) && next.unlocked()
            == tier.unlocked() + next.added_sections(),
{
    if tier.above() is Some {
        let next = tier.above()->0;
        assert(tier.unlocked().is_prefix_of(tier.unlocked() + next.added_sections()));
    }
}

/// What was paid counts towards an upgrade: with its cost it makes up the price of the new tier.
/// Upgrading in steps costs what upgrading at once costs, and moving down is free.
pub proof fn law_upgrade_credit(low: ResearchTier, mid: ResearchTier, high: ResearchTier)
    requires
        low.price() <= mid.price() <= high.price(),
    ensures
        low.price() + high.upgrade_price(low) == high.price(),
        mid.upgrade_price(low) + high.upgrade_price(mid) == high.upgrade_price(low),
        low.upgrade_price(high) == 0,
{
}

// Reference styles

#[derive(Debug, Clone, Copy, PartialEq, Eq, Structural)]
pub enum ReferenceStyle {
    Apa,
    Mla,
    Chicago,
    Harvard,
}

impl Default for ReferenceStyle {
    fn default() -> (r: Self)
        ensures
            r == ReferenceStyle::Apa,
    {
        ReferenceStyle::Apa
    }
}

impl ReferenceStyle {
    pub open spec fn name(self) -> Seq<char> {
        match self {
            ReferenceStyle::Apa => "APA 7th edition"@,
            ReferenceStyle::Mla => "MLA 9th edition"@,
            ReferenceStyle::Chicago => "Chicago author-date"@,
            ReferenceStyle::Harvard => "Harvard style"@,
        }
    }

    pub open spec fn heading(self) -> Seq<char> {
        match self {
            ReferenceStyle::Mla => "Works Cited"@,
            ReferenceStyle::Chicago => "Bibliography"@,
            ReferenceStyle::Apa | ReferenceStyle::Harvard => "References"@,
        }
    }

    /// The style that a trimmed text in lower case names.
    pub open spec fn named(t: Seq<char>) -> Option<ReferenceStyle> {
        if t == "apa"@ || t == "apa7"@ || t == "apa 7"@ || t == "apa7th"@ || t == "apa 7th"@ || t
            == "apa 7th edition"@ {
            Some(ReferenceStyle::Apa)
        } else if t == "mla"@ || t == "mla9"@ || t == "mla 9"@ || t == "mla9th"@ || t == "mla 9th"@ || t
            == "mla 9th edition"@ {
            Some(ReferenceStyle::Mla)
        } else if t == "chicago"@ || t == "chicago author-date"@ || t == "chicago author date"@ {
            Some(ReferenceStyle::Chicago)
        } else if t == "harvard"@ || t == "harvard style"@ {
            Some(ReferenceStyle::Harvard)
        } else {
            None
        }
    }

    /// The style that a user's text names.
    pub open spec fn asked_for(input: Seq<char>) -> Option<ReferenceStyle> {
        ReferenceStyle::named(chars::lowercase(trim::trim(input)))
    }

    /// The style that a user's text names, whatever the case of its letters and the space around it.
    pub fn from_user_input(input: &str) -> (r: Option<Self>)
        ensures
            r == ReferenceStyle::asked_for(input@),
    {
        let trimmed = trim::trimmed(input);
        let normalized = chars::to_lowercase(trimmed.as_str());
        let t = normalized.as_str();
        if text::same(t, "apa") || text::same(t, "apa7") || text::same(t, "apa 7") || text::same(
            t,
            "apa7th",
        ) || text::same(t, "apa 7th") || text::same(t, "apa 7th edition") {
            Some(ReferenceStyle::Apa)
        } else if text::same(t, "mla") || text::same(t, "mla9") || text::same(t, "mla 9")
            || text::same(t, "mla9th") || text::same(t, "mla 9th") || text::same(
            t,
            "mla 9th edition",
        ) {
            Some(ReferenceStyle::Mla)
        } else if text::same(t, "chicago") || text::same(t, "chicago author-date") || text::same(
            t,
            "chicago author date",
        ) {
            Some(ReferenceStyle::Chicago)
        } else if text::same(t, "harvard") || text::same(t, "harvard style") {
            Some(ReferenceStyle::Harvard)
        } else {
            None
        }
    }

    /// The name that users see.
    pub fn label(&self) -> (r: &'static str)
        ensures
            r@ == self.name(),
    {
        match self {
            ReferenceStyle::Apa => "APA 7th edition",
            ReferenceStyle::Mla => "MLA 9th edition",
            ReferenceStyle::Chicago => "Chicago author-date",
            ReferenceStyle::Harvard => "Harvard style",
        }
    }

    /// The heading of the list of references.
    pub fn bibliography_heading(&self) -> (r: &'static str)
        ensures
            r@ == self.heading(),
    {
        match self {
            ReferenceStyle::Mla => "Works Cited",
            ReferenceStyle::Chicago => "Bibliography",
            ReferenceStyle::Apa | ReferenceStyle::Harvard => "References",
        }
    }
}

/// The name that users see names the style.
pub proof fn law_style_name_reads_back(style: ReferenceStyle)
    ensures
        ReferenceStyle::asked_for(style.name()) == Some(style),
{
    reveal_strlit("APA 7th edition");
    reveal_strlit("apa 7th edition");
    reveal_strlit("MLA 9th edition");
    reveal_strlit("mla 9th edition");
    reveal_strlit("Chicago author-date");
    reveal_strlit("chicago author-date");
    reveal_strlit("Harvard style");
    reveal_strlit("harvard style");
    reveal_strlit("apa");
    reveal_strlit("apa7");
    reveal_strlit("apa 7");
    reveal_strlit("apa7th");
    reveal_strlit("apa 7th");
    reveal_strlit("mla");
    reveal_strlit("mla9");
    reveal_strlit("mla 9");
    reveal_strlit("mla9th");
    reveal_strlit("mla 9th");
    reveal_strlit("chicago");
    reveal_strlit("chicago author date");
    let n = style.name();
    assert(trim::is_trimmed(n));
    trim::lemma_trimmed_is_fixed(n);
    assert(utf8::is_ascii_chars(n));
    let low = chars::lowercase(n);
    match style {
        ReferenceStyle::Apa => {
            assert(low =~= "apa 7th edition"@);
        },
        ReferenceStyle::Mla => {
            assert(low =~= "mla 9th edition"@);
            assert(low[0] == 'm');
        },
        ReferenceStyle::Chicago => {
            assert(low =~= "chicago author-date"@);
            assert(low[0] == 'c');
        },
        ReferenceStyle::Harvard => {
            assert(low =~= "harvard style"@);
            assert(low[0] == 'h');
        },
    }
}

// Feedback

#[derive(Debug, Clone, Copy, PartialEq, Eq, Structural)]
pub enum FeedbackRating {
    Excellent,
    Good,
    NeedsWork,
    Poor,
}

impl FeedbackRating {
    pub open spec fn name(self) -> Seq<char> {
        match self {
            FeedbackRating::Excellent => "⭐ Excellent"@,
            FeedbackRating::Good => "👍 Good"@,
            FeedbackRating::NeedsWork => "🔧 Needs Work"@,
            FeedbackRating::Poor => "👎 Poor"@,
        }
    }

    pub open spec fn data(self) -> Seq<char> {
        match self {
            FeedbackRating::Excellent => "rate_excellent"@,
            FeedbackRating::Good => "rate_good"@,
            FeedbackRating::NeedsWork => "rate_needs_work"@,
            FeedbackRating::Poor => "rate_poor"@,
        }
    }

    /// The rating that a button's data stands for.
    pub open spec fn named(data: Seq<char>) -> Option<FeedbackRating> {
        if data == FeedbackRating::Excellent.data() {
            Some(FeedbackRating::Excellent)
        } else if data == FeedbackRating::Good.data() {
            Some(FeedbackRating::Good)
        } else if data == FeedbackRating::NeedsWork.data() {
            Some(FeedbackRating::NeedsWork)
        } else if data == FeedbackRating::Poor.data() {
            Some(FeedbackRating::Poor)
        } else {
            None
        }
    }

    /// The rating that a button's data stands for.
    pub fn from_callback_data(data: &str) -> (r: Option<Self>)
        ensures
            r == FeedbackRating::named(data@),
    {
        if text::same(data, "rate_excellent") {
            Some(FeedbackRating::Excellent)
        } else if text::same(data, "rate_good") {
            Some(FeedbackRating::Good)
        } else if text::same(data, "rate_needs_work") {
            Some(FeedbackRating::NeedsWork)
        } else if text::same(data, "rate_poor") {
            Some(FeedbackRating::Poor)
        } else {
            None
        }
    }

    /// The name that users see.
    pub fn label(&self) -> (r: &'static str)
        ensures
            r@ == self.name(),
    {
        match self {
            FeedbackRating::Excellent => "⭐ Excellent",
            FeedbackRating::Good => "👍 Good",
            FeedbackRating::NeedsWork => "🔧 Needs Work",
            FeedbackRating::Poor => "👎 Poor",
        }
    }

    /// The data of the button for this rating.
    pub fn callback_data(&self) -> (r: &'static str)
        ensures
            r@ == self.data(),
    {
        match self {
            FeedbackRating::Excellent => "rate_excellent",
            FeedbackRating::Good => "rate_good",
            FeedbackRating::NeedsWork => "rate_needs_work",
            FeedbackRating::Poor => "rate_poor",
        }
    }
}

/// The data of a rating's button stands for that rating.
pub proof fn law_callback_data_reads_back(rating: FeedbackRating)
    ensures
        FeedbackRating::named(rating.data()) == Some(rating),
{
    reveal_strlit("rate_excellent");
    reveal_strlit("rate_good");
    reveal_strlit("rate_needs_work");
    reveal_strlit("rate_poor");
    assert("rate_excellent"@[5] == 'e');
    assert("rate_good"@[5] == 'g');
    assert("rate_needs_work"@[5] == 'n');
    assert("rate_poor"@[5] == 'p');
}

/// A point in time: seconds since the start of 1970 in UTC, and nanoseconds within the second.
#[derive(Debug, Clone, Copy, PartialEq, Eq, Structural)]
pub struct Timestamp {
    pub secs: i64,
    pub nanos: u32,
}

#[derive(Debug)]
pub struct UserFeedback {
    pub chat_id: i64,
    pub username: Option<String>,
    pub topic: String,
    pub rating: FeedbackRating,
    pub comment: Option<String>,
    pub timestamp: Timestamp,
}

pub struct FeedbackView {
    pub chat_id: int,
    pub username: Option<Seq<char>>,
    pub topic: Seq<char>,
    pub rating: FeedbackRating,
    pub comment: Option<Seq<char>>,
    pub timestamp: Timestamp,
}

impl View for UserFeedback {
    type V = FeedbackView;

    open spec fn view(&self) -> FeedbackView {
        FeedbackView {
            chat_id: self.chat_id as int,
            username: text::opt_view(self.username),
            topic: self.topic@,
            rating: self.rating,
            comment: text::opt_view(self.comment),
            timestamp: self.timestamp,
        }
    }
}

impl Clone for UserFeedback {
    fn clone(&self) -> (r: Self)
        ensures
            r@ == self@,
    {
        UserFeedback {
            chat_id: self.chat_id,
            username: text::copy_opt(&self.username),
            topic: text::copy(self.topic.as_str()),
            rating: self.rating,
            comment: text::copy_opt(&self.comment),
            timestamp: self.timestamp,
        }
    }
}

/// The contents of a list of feedback.
pub open spec fn feedback_views(list: Seq<UserFeedback>) -> Seq<FeedbackView> {
    Seq::new(list.len(), |i: int| list[i]@)
}

pub broadcast proof fn lemma_feedback_views_push(list: Seq<UserFeedback>, x: UserFeedback)
    ensures
        #[trigger] feedback_views(list.push(x)) == feedback_views(list).push(x@),
{
    assert(feedback_views(list.push(x)) =~= feedback_views(list).push(x@));
}

// Conversations

#[derive(Debug)]
pub enum ConversationState {
    /// Waiting for a research topic.
    Idle,
    /// Research is in progress for this topic.
    Researching { topic: String },
    /// The report was delivered; a rating is awaited.
    AwaitingFeedback { topic: String },
    /// The rating was received; a comment may follow.
    AwaitingComment { topic: String, rating: FeedbackRating },
}

pub enum ConversationView {
    Idle,
    Researching { topic: Seq<char> },
    AwaitingFeedback { topic: Seq<char> },
    AwaitingComment { topic: Seq<char>, rating: FeedbackRating },
}

impl View for ConversationState {
    type V = ConversationView;

    open spec fn view(&self) -> ConversationView {
        match self {
            ConversationState::Idle => ConversationView::Idle,
            ConversationState::Researching { topic } => ConversationView::Researching {
                topic: topic@,
            },
            ConversationState::AwaitingFeedback { topic } => ConversationView::AwaitingFeedback {
                topic: topic@,
            },
            ConversationState::AwaitingComment {
                topic,
                rating,
            } => ConversationView::AwaitingComment { topic: topic@, rating: *rating },
        }
    }
}

impl Clone for ConversationState {
    fn clone(&self) -> (r: Self)
        ensures
            r@ == self@,
    {
        match self {
            ConversationState::Idle => ConversationState::Idle,
            ConversationState::Researching { topic } => ConversationState::Researching {
                topic: text::copy(topic.as_str()),
            },
            ConversationState::AwaitingFeedback { topic } => ConversationState::AwaitingFeedback {
                topic: text::copy(topic.as_str()),
            },
            ConversationState::AwaitingComment {
                topic,
                rating,
            } => ConversationState::AwaitingComment {
                topic: text::copy(topic.as_str()),
                rating: *rating,
            },
        }
    }
}

// Reports

#[derive(Debug)]
pub struct ResearchSource {
    pub source_type: String,
    pub title: String,
    pub author_or_channel: String,
    pub year_hint: Option<i32>,
    pub url: String,
    pub summary: String,
    pub citation_hint: String,
}

pub struct SourceView {
    pub source_type: Seq<char>,
    pub title: Seq<char>,
    pub author_or_channel: Seq<char>,
    pub year_hint: Option<int>,
    pub url: Seq<char>,
    pub summary: Seq<char>,
    pub citation_hint: Seq<char>,
}

/// The value of an optional year.
pub open spec fn year_view(year: Option<i32>) -> Option<int> {
    match year {
        Some(y) => Some(y as int),
        None => None,
    }
}

impl View for ResearchSource {
    type V = SourceView;

    open spec fn view(&self) -> SourceView {
        SourceView {
            source_type: self.source_type@,
            title: self.title@,
            author_or_channel: self.author_or_channel@,
            year_hint: year_view(self.year_hint),
            url: self.url@,
            summary: self.summary@,
            citation_hint: self.citation_hint@,
        }
    }
}

impl Clone for ResearchSource {
    fn clone(&self) -> (r: Self)
        ensures
            r@ == self@,
    {
        ResearchSource {
            source_type: text::copy(self.source_type.as_str()),
            title: text::copy(self.title.as_str()),
            author_or_channel: text::copy(self.author_or_channel.as_str()),
            year_hint: self.year_hint,
            url: text::copy(self.url.as_str()),
            summary: text::copy(self.summary.as_str()),
            citation_hint: text::copy(self.citation_hint.as_str()),
        }
    }
}

/// The contents of a list of sources.
pub open spec fn source_views(list: Seq<ResearchSource>) -> Seq<SourceView> {
    Seq::new(list.len(), |i: int| list[i]@)
}

pub broadcast proof fn lemma_source_views_push(list: Seq<ResearchSource>, x: ResearchSource)
    ensures
        #[trigger] source_views(list.push(x)) == source_views(list).push(x@),
{
    assert(source_views(list.push(x)) =~= source_views(list).push(x@));
}

#[derive(Debug)]
pub struct ResearchPlan {
    pub title: String,
    pub thesis: String,
    pub methodology: String,
    pub research_questions: Vec<String>,
    pub keywords: Vec<String>,
    pub writing_guidance: String,
}

pub struct PlanView {
    pub title: Seq<char>,
    pub thesis: Seq<char>,
    pub methodology: Seq<char>,
    pub research_questions: Seq<Seq<char>>,
    pub keywords: Seq<Seq<char>>,
    pub writing_guidance: Seq<char>,
}

impl View for ResearchPlan {
    type V = PlanView;

    open spec fn view(&self) -> PlanView {
        PlanView {
            title: self.title@,
            thesis: self.thesis@,
            methodology: self.methodology@,
            research_questions: text::views(self.research_questions@),
            keywords: text::views(self.keywords@),
            writing_guidance: self.writing_guidance@,
        }
    }
}

#[derive(Debug)]
pub struct ResearchSection {
    pub heading: String,
    pub target_words: usize,
    pub actual_words: usize,
    pub content: String,
}

pub struct SectionView {
    pub heading: Seq<char>,
    pub target_words: int,
    pub actual_words: int,
    pub content: Seq<char>,
}

impl View for ResearchSection {
    type V = SectionView;

    open spec fn view(&self) -> SectionView {
        SectionView {
            heading: self.heading@,
            target_words: self.target_words as int,
            actual_words: self.actual_words as int,
            content: self.content@,
        }
    }
}

impl Clone for ResearchSection {
    fn clone(&self) -> (r: Self)
        ensures
            r@ == self@,
    {
        ResearchSection {
            heading: text::copy(self.heading.as_str()),
            target_words: self.target_words,
            actual_words: self.actual_words,
            content: text::copy(self.content.as_str()),
        }
    }
}

/// The contents of a list of sections.
pub open spec fn section_views(list: Seq<ResearchSection>) -> Seq<SectionView> {
    Seq::new(list.len(), |i: int| list[i]@)
}

pub broadcast proof fn lemma_section_views_push(list: Seq<ResearchSection>, x: ResearchSection)
    ensures
        #[trigger] section_views(list.push(x)) == section_views(list).push(x@),
{
    assert(section_views(list.push(x)) =~= section_views(list).push(x@));
}

#[derive(Debug)]
pub struct ResearchQualityReport {
    pub required_headings_present: bool,
    pub references_present: bool,
    pub bullet_free: bool,
    pub prose_only: bool,
    pub minimum_word_count_met: bool,
    pub citation_target_met: bool,
    pub actual_word_count: usize,
    pub minimum_word_count: usize,
    pub citation_mentions: usize,
    pub citation_target: usize,
    pub missing_headings: Vec<String>,
    pub banned_phrase_hits: Vec<String>,
}

pub struct QualityView {
    pub required_headings_present: bool,
    pub references_present: bool,
    pub bullet_free: bool,
    pub prose_only: bool,
    pub minimum_word_count_met: bool,
    pub citation_target_met: bool,
    pub actual_word_count: int,
    pub minimum_word_count: int,
    pub citation_mentions: int,
    pub citation_target: int,
    pub missing_headings: Seq<Seq<char>>,
    pub banned_phrase_hits: Seq<Seq<char>>,
}

impl View for ResearchQualityReport {
    type V = QualityView;

    open spec fn view(&self) -> QualityView {
        QualityView {
            required_headings_present: self.required_headings_present,
            references_present: self.references_present,
            bullet_free: self.bullet_free,
            prose_only: self.prose_only,
            minimum_word_count_met: self.minimum_word_count_met,
            citation_target_met: self.citation_target_met,
            actual_word_count: self.actual_word_count as int,
            minimum_word_count: self.minimum_word_count as int,
            citation_mentions: self.citation_mentions as int,
            citation_target: self.citation_target as int,
            missing_headings: text::views(self.missing_headings@),
            banned_phrase_hits: text::views(self.banned_phrase_hits@),
        }
    }
}

#[derive(Debug)]
pub struct ResearchArtifacts {
    pub markdown_path: Option<String>,
    pub json_path: Option<String>,
    pub pdf_path: Option<String>,
}

pub struct ArtifactsView {
    pub markdown_path: Option<Seq<char>>,
    pub json_path: Option<Seq<char>>,
    pub pdf_path: Option<Seq<char>>,
}

impl View for ResearchArtifacts {
    type V = ArtifactsView;

    open spec fn view(&self) -> ArtifactsView {
        ArtifactsView {
            markdown_path: text::opt_view(self.markdown_path),
            json_path: text::opt_view(self.json_path),
            pdf_path: text::opt_view(self.pdf_path),
        }
    }
}

#[derive(Debug)]
pub struct ResearchReport {
    pub topic: String,
    pub tier: String,
    pub deliverable: String,
    pub reference_style: String,
    pub title: String,
    pub citations_target: usize,
    pub total_word_count: usize,
    pub estimated_page_count: usize,
    pub abstract_preview: Option<String>,
    pub plan: ResearchPlan,
    pub sections: Vec<ResearchSection>,
    pub sources: Vec<ResearchSource>,
    pub references: String,
    pub markdown: String,
    pub quality: ResearchQualityReport,
    pub artifacts: Option<ResearchArtifacts>,
}

pub struct ReportView {
    pub topic: Seq<char>,
    pub tier: Seq<char>,
    pub deliverable: Seq<char>,
    pub reference_style: Seq<char>,
    pub title: Seq<char>,
    pub citations_target: int,
    pub total_word_count: int,
    pub estimated_page_count: int,
    pub abstract_preview: Option<Seq<char>>,
    pub plan: PlanView,
    pub sections: Seq<SectionView>,
    pub sources: Seq<SourceView>,
    pub references: Seq<char>,
    pub markdown: Seq<char>,
    pub quality: QualityView,
    pub artifacts: Option<ArtifactsView>,
}

impl View for ResearchReport {
    type V = ReportView;

    open spec fn view(&self) -> ReportView {
        ReportView {
            topic: self.topic@,
            tier: self.tier@,
            deliverable: self.deliverable@,
            reference_style: self.reference_style@,
            title: self.title@,
            citations_target: self.citations_target as int,
            total_word_count: self.total_word_count as int,
            estimated_page_count: self.estimated_page_count as int,
            abstract_preview: text::opt_view(self.abstract_preview),
            plan: self.plan@,
            sections: section_views(self.sections@),
            sources: source_views(self.sources@),
            references: self.references@,
            markdown: self.markdown@,
            quality: self.quality@,
            artifacts: match self.artifacts {
                Some(a) => Some(a@),
                None => None,
            },
        }
    }
}

/// A request to try the research engine without a chat.
#[derive(Debug)]
pub struct SimulateRequest {
    pub topic: String,
    pub tier: String,
    pub reference_style: Option<String>,
}

/// The tier of a request that names none.
pub fn default_tier() -> (r: String)
    ensures
        r@ == "complete"@,
{
    text::copy("complete")
}

// The WhatsApp bridge

#[derive(Debug)]
pub struct WhatsAppBridgeMessage {
    pub sender: String,
    pub body: String,
    pub push_name: String,
    pub message_id: String,
}

#[derive(Debug)]
pub struct WhatsAppBridgeAudio {
    pub sender: String,
    pub push_name: String,
    pub audio_base64: String,
}

#[derive(Debug)]
pub struct WhatsAppBridgeResponse {
    pub reply: Option<String>,
    pub document_base64: Option<String>,
    pub document_filename: Option<String>,
    pub document_caption: Option<String>,
}

#[derive(Debug)]
pub struct WhatsAppResearchBrief {
    pub topic: String,
    pub answer: String,
    pub sources: Vec<ResearchSource>,
}

/// The query of the administrator's page.
#[derive(Debug)]
pub struct AdminQuery {
    pub key: Option<String>,
}

} // verus!
