//! The configuration, read from environment variables.

use crate::json;
use crate::numbers;
use crate::pieces;
use crate::text;
use crate::trim;
use vstd::prelude::*;

verus! {

#[derive(Debug)]
pub struct AppConfig {
    /// The AI model to use.
    pub ai_model: String,
    /// The port of the server.
    pub port: u16,
    /// The key for the AI model.
    pub google_api_key: String,
    /// The key for the YouTube Data API.
    pub youtube_api_key: String,
    /// The key for the web search.
    pub tavily_api_key: String,
    /// The token of the Telegram bot.
    pub telegram_bot_token: String,
    /// The secret key for payments.
    pub _paystack_secret_key: String,
    /// The URL of the database.
    pub _supabase_url: String,
    /// The key for the database.
    pub _supabase_key: String,
    /// Where Telegram sends updates; without it they are polled.
    pub webhook_url: Option<String>,
    /// The directory for feedback.
    pub feedback_dir: String,
    /// The key for protected endpoints.
    pub admin_api_key: String,
    /// Whether the bot is being tested, with all tiers free.
    pub testing_mode: bool,
    /// How many requests a chat may make in an hour.
    pub max_requests_per_hour: usize,
    /// The secret that the bridge shows.
    pub bridge_secret: String,
    /// The users that are admitted on WhatsApp; everyone without it.
    pub allowed_users: Option<Vec<i64>>,
}

pub struct ConfigView {
    pub ai_model: Seq<char>,
    pub port: int,
    pub google_api_key: Seq<char>,
    pub youtube_api_key: Seq<char>,
    pub tavily_api_key: Seq<char>,
    pub telegram_bot_token: Seq<char>,
    pub paystack_secret_key: Seq<char>,
    pub supabase_url: Seq<char>,
    pub supabase_key: Seq<char>,
    pub webhook_url: Option<Seq<char>>,
    pub feedback_dir: Seq<char>,
    pub admin_api_key: Seq<char>,
    pub testing_mode: bool,
    pub max_requests_per_hour: int,
    pub bridge_secret: Seq<char>,
    pub allowed_users: Option<Seq<i64>>,
}

impl View for AppConfig {
    type V = ConfigView;

    open spec fn view(&self) -> ConfigView {
        ConfigView {
            ai_model: self.ai_model@,
            port: self.port as int,
            google_api_key: self.google_api_key@,
            youtube_api_key: self.youtube_api_key@,
            tavily_api_key: self.tavily_api_key@,
            telegram_bot_token: self.telegram_bot_token@,
            paystack_secret_key: self._paystack_secret_key@,
            supabase_url: self._supabase_url@,
            supabase_key: self._supabase_key@,
            webhook_url: text::opt_view(self.webhook_url),
            feedback_dir: self.feedback_dir@,
            admin_api_key: self.admin_api_key@,
            testing_mode: self.testing_mode,
            max_requests_per_hour: self.max_requests_per_hour as int,
            bridge_secret: self.bridge_secret@,
            allowed_users: match self.allowed_users {
                Some(list) => Some(list@),
                None => None,
            },
        }
    }
}

/// The value of a variable, where it is set.
pub open spec fn variable(vars: Seq<(String, String)>, name: Seq<char>) -> Option<Seq<char>>
    decreases vars.len(),
{
    if vars.len() == 0 {
        None
    } else if vars[0].0@ == name {
        Some(vars[0].1@)
    } else {
        variable(vars.skip(1), name)
    }
}

fn find_variable<'a>(vars: &'a Vec<(String, String)>, name: &str) -> (r: Option<&'a str>)
    ensures
        r is Some <==> variable(vars@, name@) is Some,
        r matches Some(v) ==> variable(vars@, name@) == Some(v@),
{
    let mut i: usize = 0;
    assert(vars@.skip(0) == vars@);
    while i < vars.len()
        invariant
            i <= vars@.len(),
            variable(vars@, name@) == variable(vars@.skip(i as int), name@),
        decreases vars@.len() - i,
    {
        if text::same(vars[i].0.as_str(), name) {
            return Some(vars[i].1.as_str());
        }
        assert(vars@.skip(i as int).skip(1) == vars@.skip(i + 1));
        i += 1;
    }
    None
}

fn variable_or(vars: &Vec<(String, String)>, name: &str, default: &str) -> (r: String)
    ensures
        r@ == json::or(variable(vars@, name@), default@),
{
    match find_variable(vars, name) {
        Some(v) => text::copy(v),
        None => text::copy(default),
    }
}

/// A number that a variable holds, or else a default.
pub open spec fn number_or(value: Option<Seq<char>>, high: int, default: int) -> int {
    match value {
        Some(v) => match numbers::parse_between(v, 0, high) {
            Some(n) => n,
            None => default,
        },
        None => default,
    }
}

/// The numbers in a list with commas; what is no number is left out.
pub open spec fn users(items: Seq<Seq<char>>) -> Seq<i64>
    decreases items.len(),
{
    if items.len() == 0 {
        seq![]
    } else {
        match numbers::parse_between(
            trim::trim(items.last()),
            i64::MIN as int,
            i64::MAX as int,
        ) {
            Some(n) => users(items.drop_last()).push(n as i64),
            None => users(items.drop_last()),
        }
    }
}

/// The configuration that variables describe.
pub open spec fn configured(vars: Seq<(String, String)>) -> ConfigView {
    ConfigView {
        ai_model: json::or(variable(vars, "AI_MODEL"@), "gemma-4-31b-it"@),
        port: number_or(variable(vars, "PORT"@), u16::MAX as int, 3000),
        google_api_key: json::or(variable(vars, "GOOGLE_API_KEY"@), ""@),
        youtube_api_key: json::or(variable(vars, "YOUTUBE_API_KEY"@), ""@),
        tavily_api_key: json::or(variable(vars, "TAVILY_API_KEY"@), ""@),
        telegram_bot_token: json::or(variable(vars, "TELEGRAM_BOT_TOKEN"@), ""@),
        paystack_secret_key: json::or(variable(vars, "PAYSTACK_SECRET_KEY"@), ""@),
        supabase_url: json::or(variable(vars, "SUPABASE_URL"@), ""@),
        supabase_key: json::or(variable(vars, "SUPABASE_KEY"@), ""@),
        webhook_url: match variable(vars, "WEBHOOK_URL"@) {
            Some(v) => if v.len() > 0 {
                Some(v)
            } else {
                None
            },
            None => None,
        },
        feedback_dir: json::or(variable(vars, "FEEDBACK_DIR"@), "./feedback"@),
        admin_api_key: json::or(variable(vars, "ADMIN_API_KEY"@), "professor-ai-admin-2026"@),
        testing_mode: match variable(vars, "TESTING_MODE"@) {
            Some(v) => v != "false"@ && v != "0"@,
            None => true,
        },
        max_requests_per_hour: number_or(
            variable(vars, "MAX_REQUESTS_PER_HOUR"@),
            usize::MAX as int,
            3,
        ),
        bridge_secret: json::or(variable(vars, "BRIDGE_SECRET"@), "local_dev_secret_123"@),
        allowed_users: match variable(vars, "ALLOWED_USERS"@) {
            Some(v) => if v.len() > 0 {
                Some(users(pieces::split(v, ',')))
            } else {
                None
            },
            None => None,
        },
    }
}

fn read_users(value: &str) -> (r: Vec<i64>)
    ensures
        r@ == users(pieces::split(value@, ',')),
{
    let items = pieces::split_at(value, ',');
    let ghost all = pieces::split(value@, ',');
    let mut list: Vec<i64> = Vec::new();
    let mut i: usize = 0;
    assert(all.take(0) =~= seq![]);
    while i < items.len()
        invariant
            i <= items@.len(),
            all == text::views(items@),
            list@ == users(all.take(i as int)),
        decreases items@.len() - i,
    {
        assert(all.take(i + 1).drop_last() == all.take(i as int));
        assert(all.take(i + 1).last() == items@[i as int]@);
        let item = trim::trimmed(items[i].as_str());
        match numbers::parse_number(item.as_str(), i64::MIN, i64::MAX as u64) {
            Some(n) => {
                list.push(n as i64);
            },
            None => {},
        }
        i += 1;
    }
    assert(all.take(i as int) == all);
    list
}

impl AppConfig {
    /// The configuration that environment variables describe.
    pub fn from_env(vars: &Vec<(String, String)>) -> (r: Self)
        ensures
            r@ == configured(vars@),
    {
        let port: u16 = match find_variable(vars, "PORT") {
            Some(v) => match numbers::parse_number(v, 0, u16::MAX as u64) {
                Some(n) => n as u16,
                None => 3000,
            },
            None => 3000,
        };
        let max_requests_per_hour: usize = match find_variable(vars, "MAX_REQUESTS_PER_HOUR") {
            Some(v) => match numbers::parse_number(v, 0, usize::MAX as u64) {
                Some(n) => n as usize,
                None => 3,
            },
            None => 3,
        };
        let webhook_url = match find_variable(vars, "WEBHOOK_URL") {
            Some(v) => if v.is_empty() {
                None
            } else {
                Some(text::copy(v))
            },
            None => None,
        };
        let testing_mode = match find_variable(vars, "TESTING_MODE") {
            Some(v) => !text::same(v, "false") && !text::same(v, "0"),
            None => true,
        };
        let allowed_users = match find_variable(vars, "ALLOWED_USERS") {
            Some(v) => if v.is_empty() {
                None
            } else {
                Some(read_users(v))
            },
            None => None,
        };
        AppConfig {
            ai_model: variable_or(vars, "AI_MODEL", "gemma-4-31b-it"),
            port,
            google_api_key: variable_or(vars, "GOOGLE_API_KEY", ""),
            youtube_api_key: variable_or(vars, "YOUTUBE_API_KEY", ""),
            tavily_api_key: variable_or(vars, "TAVILY_API_KEY", ""),
            telegram_bot_token: variable_or(vars, "TELEGRAM_BOT_TOKEN", ""),
            _paystack_secret_key: variable_or(vars, "PAYSTACK_SECRET_KEY", ""),
            _supabase_url: variable_or(vars, "SUPABASE_URL", ""),
            _supabase_key: variable_or(vars, "SUPABASE_KEY", ""),
            webhook_url,
            feedback_dir: variable_or(vars, "FEEDBACK_DIR", "./feedback"),
            admin_api_key: variable_or(vars, "ADMIN_API_KEY", "professor-ai-admin-2026"),
            testing_mode,
            max_requests_per_hour,
            bridge_secret: variable_or(vars, "BRIDGE_SECRET", "local_dev_secret_123"),
            allowed_users,
        }
    }
}

} // verus!
