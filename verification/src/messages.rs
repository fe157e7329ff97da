//! Fixed texts that users see.

use vstd::prelude::*;

verus! {

/// What a chat is greeted with.
pub const GREETING_MESSAGE: &'static str = "\
    🎓 *Welcome to Professor AI — Your Academic Research Assistant*\n\n\
    I write full, citation-backed academic papers on any topic.\n\
    Here's what I can produce:\n\n\
    📋 *Preview (Free)*      → Abstract + Table of Contents\n\
    📝 *Starter (₦1,500)*    → + Introduction + Literature Review\n\
    📊 *Standard (₦5,000)*   → + Methodology + Findings\n\
    📚 *Complete (₦10,000)*  → Full paper with References + PDF\n\n\
    🧪 *BETA TESTING PHASE*\n\
    For the next 2 weeks, ALL tiers are *FREE*.\n\
    Your feedback helps me improve.\n\n\
    Simply send me your research topic to begin.\n\n\
    Type /help for all commands\n\
    Type /terms to read our Terms of Use";

/// The commands.
pub const HELP_MESSAGE: &'static str = "\
    📖 *Professor AI — Commands*\n\n\
    /start — Show welcome message\n\
    /help — Show this help text\n\
    /terms — Terms of Use\n\
    /status — Check your current research status\n\
    /feedback — Rate your last report\n\n\
    *How to use:*\n\
    Just send me a research topic and I'll get to work!\n\n\
    Optional: add a new line like\n\
    `Reference style: MLA` or `Reference style: Chicago`";

/// The terms of use.
pub const TERMS_MESSAGE: &'static str = "\
    📜 *Terms of Use — Professor AI*\n\n\
    *1. Academic Integrity*\n\
    Reports are research aids, not submissions. You are responsible for proper use per your institution's policies.\n\n\
    *2. No Guarantees*\n\
    AI-generated content may contain errors. Always verify citations and facts.\n\n\
    *3. Privacy*\n\
    We store your chat ID and topics for service delivery only. We do not share data with third parties.\n\n\
    *4. Fair Use*\n\
    During beta testing, abuse (spam, automated requests, reselling) will result in a block.\n\n\
    *5. Pricing*\n\
    Current beta pricing is FREE. Paid tiers activate after the testing period. Prices may change.\n\n\
    By using this bot, you agree to these terms.";

/// What a chat is told while its research is in progress.
pub const RESEARCH_IN_PROGRESS_MESSAGE: &'static str = "\
    ⏳ Your previous research is still in progress. Please wait for it to complete before submitting a new topic.";

/// What a chat is told that asks too often.
pub const RATE_LIMIT_MESSAGE: &'static str = "\
    🚫 You've reached the limit of 3 research requests per hour during beta testing. Please try again later.";

/// What a WhatsApp user is greeted with.
pub const WHATSAPP_HELP_MESSAGE: &'static str = "\
    👋 Hello! I am Professor AI, an autonomous academic research assistant.\n\n\
    I can investigate topics, synthesize data from YouTube, web searches, public forums, and books, and draft formal reports.\n\n\
    *How to use me:*\n\n\
    1️⃣ *Quick Briefs:*\n\
    Just chat with me! Send any topic (e.g., _\"How does AI affect logistics?\"_) and I'll send back a fast, conversational research summary.\n\n\
    2️⃣ *Full Research Papers:*\n\
    Type `report:` followed by your topic. I will spend a few minutes compiling an extensive PDF research paper complete with APA 7th citations and a formal methodology.\n\
    _Example: `report: impact of blockchain on pharmaceutical supply chains`_\n\n\
    Send a topic whenever you're ready!";

} // verus!
