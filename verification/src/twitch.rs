//! The chat side of the game: which command a chat message is, what the bot
//! answers, and what is shown on screen when a share is bought or sold.
use vstd::prelude::*;
use vstd::string::*;
use crate::portfolio::ShareholderInfo;
use crate::text::{push_signed, signed_decimal, str_eq, trim, trimmed};

verus! {

/// Seconds that must pass before `!info` or `!commands` is answered again.
pub const INFORMATION_COOLDOWN: u64 = 15;

/// A purchase or a sale, as the window shows it rising from the price box.
#[derive(Clone, Copy, Debug, PartialEq, Eq, Structural)]
pub struct InvestmentAction {
    /// A purchase, as opposed to a sale.
    pub is_buy: bool,
    pub value: i32,
}

/// The chat commands of the game.
#[derive(Clone, Copy, Debug, PartialEq, Eq, Structural)]
pub enum Command {
    Value,
    Money,
    Buy,
    Sell,
    Info,
    Commands,
    Github,
    Unknown,
}

/// The Unicode lowercase of a string, as `str::to_lowercase` computes it.
pub uninterp spec fn lowercase(s: Seq<char>) -> Seq<char>;

/// `str::to_lowercase` from std: the string mapped to lowercase by the
/// Unicode tables of std. The contract only names the result.
#[verifier::external_body]
fn to_lowercase(s: &str) -> (r: String)
    ensures
        r@ == lowercase(s@),
{
    s.to_lowercase()
}

/// The command that a lowercased, trimmed message is.
pub open spec fn command_of(m: Seq<char>) -> Command {
    if m == "!value"@ {
        Command::Value
    } else if m == "!money"@ {
        Command::Money
    } else if m == "!buy"@ {
        Command::Buy
    } else if m == "!sell"@ {
        Command::Sell
    } else if m == "!info"@ {
        Command::Info
    } else if m == "!commands"@ {
        Command::Commands
    } else if m == "!github"@ {
        Command::Github
    } else {
        Command::Unknown
    }
}

/// The command that an already lowercased and trimmed message is.
pub fn command_from(m: &str) -> (c: Command)
    ensures
        c == command_of(m@),
{
    if str_eq(m, "!value") {
        Command::Value
    } else if str_eq(m, "!money") {
        Command::Money
    } else if str_eq(m, "!buy") {
        Command::Buy
    } else if str_eq(m, "!sell") {
        Command::Sell
    } else if str_eq(m, "!info") {
        Command::Info
    } else if str_eq(m, "!commands") {
        Command::Commands
    } else if str_eq(m, "!github") {
        Command::Github
    } else {
        Command::Unknown
    }
}

/// The command that a chat message is, compared lowercased and trimmed.
pub fn parse_command(message_text: &str) -> (c: Command)
    ensures
        c == command_of(trimmed(lowercase(message_text@))),
{
    let lower = to_lowercase(message_text);
    let m = trim(lower.as_str());
    command_from(m.as_str())
}

/// What the bot does with a chat message.
pub enum Reaction {
    /// Answer with this text.
    Reply(String),
    /// Answer with the overview text, and restart the overview's cooldown.
    InfoReply(String),
    /// Answer with the command list, and restart the list's cooldown.
    CommandsReply(String),
    /// Look the sender up and answer with `money_reply`.
    ReportMoney,
    /// Buy a share for the sender at the current value (then `bought`).
    Buy,
    /// Sell the sender's share at the current value (then `sold`).
    Sell,
    /// Say nothing.
    Nothing,
}

pub open spec fn value_text(value: i32) -> Seq<char> {
    "Current value: "@ + signed_decimal(value as int)
}

pub open spec fn info_text() -> Seq<char> {
    "Kart Stocks is an interactive stock-trading game with live Mario Kart World gameplay. Just !buy a share of the current race for the current !value (also on screen) and !sell it later. The value is determined by how good the run is: screenshots are analyzed to determine placement, items, and coin count, which is fed into an equation for a single cost value. Buy low, sell high, and good luck!"@
}

pub open spec fn commands_text() -> Seq<char> {
    "!buy: purchase a share at current cost ; !sell: exchange share for current value ; !money: check your current captial potential ; !value: check the current investment cost ; !info: brief overview of game ; !github: code repository link ; !commands: this!"@
}

pub open spec fn github_text() -> Seq<char> {
    "https://github.com/BenjaminMassey/kart-stocks"@
}

/// What the bot does with a message, given the current stock value and the
/// seconds since the overview and the command list were last given.
pub fn react(message_text: &str, value: i32, info_elapsed: u64, commands_elapsed: u64) -> (r:
    Reaction)
    ensures
        match command_of(trimmed(lowercase(message_text@))) {
            Command::Value => r matches Reaction::Reply(t) && t@ == value_text(value),
            Command::Money => r is ReportMoney,
            Command::Buy => r is Buy,
            Command::Sell => r is Sell,
            Command::Info => if info_elapsed > INFORMATION_COOLDOWN {
                r matches Reaction::InfoReply(t) && t@ == info_text()
            } else {
                r is Nothing
            },
            Command::Commands => if commands_elapsed > INFORMATION_COOLDOWN {
                r matches Reaction::CommandsReply(t) && t@ == commands_text()
            } else {
                r is Nothing
            },
            Command::Github => r matches Reaction::Reply(t) && t@ == github_text(),
            Command::Unknown => r is Nothing,
        },
{
    match parse_command(message_text) {
        Command::Value => {
            let mut t = String::from_str("Current value: ");
            push_signed(&mut t, value as i64);
            Reaction::Reply(t)
        },
        Command::Money => Reaction::ReportMoney,
        Command::Buy => Reaction::Buy,
        Command::Sell => Reaction::Sell,
        Command::Info => {
            if info_elapsed > INFORMATION_COOLDOWN {
                Reaction::InfoReply(String::from_str("Kart Stocks is an interactive stock-trading game with live Mario Kart World gameplay. Just !buy a share of the current race for the current !value (also on screen) and !sell it later. The value is determined by how good the run is: screenshots are analyzed to determine placement, items, and coin count, which is fed into an equation for a single cost value. Buy low, sell high, and good luck!"))
            } else {
                Reaction::Nothing
            }
        },
        Command::Commands => {
            if commands_elapsed > INFORMATION_COOLDOWN {
                Reaction::CommandsReply(String::from_str("!buy: purchase a share at current cost ; !sell: exchange share for current value ; !money: check your current captial potential ; !value: check the current investment cost ; !info: brief overview of game ; !github: code repository link ; !commands: this!"))
            } else {
                Reaction::Nothing
            }
        },
        Command::Github => Reaction::Reply(String::from_str("https://github.com/BenjaminMassey/kart-stocks")),
        Command::Unknown => Reaction::Nothing,
    }
}

/// The answer to `!money`: the shareholder's money, and the price paid when
/// a share is held.
pub open spec fn money_text(info: ShareholderInfo) -> Seq<char> {
    if info.invested {
        "@"@ + info.username@ + ": you have $"@ + signed_decimal(info.money as int)
            + " (invested at $"@ + signed_decimal(info.price as int) + ")."@
    } else {
        "@"@ + info.username@ + ": you have $"@ + signed_decimal(info.money as int) + "."@
    }
}

/// The answer to `!money` gives the sender's money, and adds the price paid
/// exactly when a share is held: without a share the answer is the same
/// whatever price the row still keeps.
pub proof fn lemma_money_reply_mentions_price_only_when_invested(info: ShareholderInfo)
    ensures
        !info.invested ==> money_text(info) == "@"@ + info.username@ + ": you have $"@
            + signed_decimal(info.money as int) + "."@,
        info.invested ==> money_text(info) == "@"@ + info.username@ + ": you have $"@
            + signed_decimal(info.money as int) + " (invested at $"@ + signed_decimal(
            info.price as int,
        ) + ")."@,
        forall|other: ShareholderInfo|
            !info.invested && !other.invested && other.username == info.username && other.money
                == info.money ==> #[trigger] money_text(other) == money_text(info),
{
}

/// The answer to `!money` for a shareholder.
pub fn money_reply(info: &ShareholderInfo) -> (t: String)
    ensures
        t@ == money_text(*info),
        !info.invested ==> t@ == "@"@ + info.username@ + ": you have $"@ + signed_decimal(
            info.money as int,
        ) + "."@,
        info.invested ==> t@ == "@"@ + info.username@ + ": you have $"@ + signed_decimal(
            info.money as int,
        ) + " (invested at $"@ + signed_decimal(info.price as int) + ")."@,
{
    proof {
        lemma_money_reply_mentions_price_only_when_invested(*info);
    }
    let mut t = String::from_str("@");
    t.append(info.username.as_str());
    t.append(": you have $");
    push_signed(&mut t, info.money as i64);
    if info.invested {
        t.append(" (invested at $");
        push_signed(&mut t, info.price as i64);
        t.append(").");
    } else {
        t.append(".");
    }
    t
}

/// After a purchase at `value`: the action for the window and the answer.
pub fn bought(username: &str, value: i32) -> (r: (InvestmentAction, String))
    ensures
        r.0 == (InvestmentAction { is_buy: true, value }),
        r.1@ == "@"@ + username@ + ": bought in for $"@ + signed_decimal(value as int) + "."@,
{
    let mut t = String::from_str("@");
    t.append(username);
    t.append(": bought in for $");
    push_signed(&mut t, value as i64);
    t.append(".");
    (InvestmentAction { is_buy: true, value }, t)
}

/// After a sale at `value` of a share bought at `price`: the action for the
/// window (the gain, which is negative for a loss) and the answer.
pub fn sold(username: &str, value: i32, price: i32) -> (r: (InvestmentAction, String))
    requires
        i32::MIN <= value - price <= i32::MAX,
    ensures
        r.0 == (InvestmentAction { is_buy: false, value: (value - price) as i32 }),
        r.1@ == "@"@ + username@ + ": sold for $"@ + signed_decimal(value as int) + "."@,
{
    let mut t = String::from_str("@");
    t.append(username);
    t.append(": sold for $");
    push_signed(&mut t, value as i64);
    t.append(".");
    (InvestmentAction { is_buy: false, value: value - price }, t)
}

} // verus!
