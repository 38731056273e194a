use kart_stocks::portfolio::ShareholderInfo;
use kart_stocks::twitch::{
    bought, money_reply, parse_command, react, sold, Command, InvestmentAction, Reaction,
    INFORMATION_COOLDOWN,
};

#[test]
fn commands_are_read_lowercased_and_trimmed() {
    assert_eq!(parse_command("!value"), Command::Value);
    assert_eq!(parse_command("  !VALUE \n"), Command::Value);
    assert_eq!(parse_command("!Money"), Command::Money);
    assert_eq!(parse_command("!buy"), Command::Buy);
    assert_eq!(parse_command("!sell"), Command::Sell);
    assert_eq!(parse_command("!info"), Command::Info);
    assert_eq!(parse_command("!COMMANDS"), Command::Commands);
    assert_eq!(parse_command("!github"), Command::Github);
    assert_eq!(parse_command("!join"), Command::Unknown);
    assert_eq!(parse_command("! buy"), Command::Unknown);
    assert_eq!(parse_command("hello !buy"), Command::Unknown);
}

fn reply_text(r: Reaction) -> Option<String> {
    match r {
        Reaction::Reply(t) | Reaction::InfoReply(t) | Reaction::CommandsReply(t) => Some(t),
        _ => None,
    }
}

#[test]
fn value_and_github_replies() {
    assert_eq!(reply_text(react("!value", 42, 0, 0)), Some("Current value: 42".to_string()));
    assert_eq!(reply_text(react("!value", -3, 0, 0)), Some("Current value: -3".to_string()));
    assert_eq!(
        reply_text(react("!github", 1, 0, 0)),
        Some("https://github.com/BenjaminMassey/kart-stocks".to_string())
    );
}

#[test]
fn ledger_commands_are_handed_on() {
    assert!(matches!(react("!money", 1, 0, 0), Reaction::ReportMoney));
    assert!(matches!(react("!buy", 1, 0, 0), Reaction::Buy));
    assert!(matches!(react("!sell", 1, 0, 0), Reaction::Sell));
    assert!(matches!(react("whatever", 1, 100, 100), Reaction::Nothing));
}

#[test]
fn info_and_commands_have_a_cooldown() {
    assert!(matches!(react("!info", 1, INFORMATION_COOLDOWN, 100), Reaction::Nothing));
    match react("!info", 1, INFORMATION_COOLDOWN + 1, 0) {
        Reaction::InfoReply(t) => assert!(t.starts_with("Kart Stocks is an interactive")),
        _ => panic!("expected the overview"),
    }
    assert!(matches!(react("!commands", 1, 100, 15), Reaction::Nothing));
    match react("!commands", 1, 0, 16) {
        Reaction::CommandsReply(t) => {
            assert!(t.starts_with("!buy: purchase a share at current cost ; "));
            assert!(t.ends_with("!commands: this!"));
        }
        _ => panic!("expected the command list"),
    }
}

#[test]
fn money_replies() {
    let mut info = ShareholderInfo { username: "cat".into(), money: 70, invested: false, price: 0 };
    assert_eq!(money_reply(&info), "@cat: you have $70.");
    info.invested = true;
    info.price = 30;
    assert_eq!(money_reply(&info), "@cat: you have $70 (invested at $30).");
}

#[test]
fn trade_replies_and_actions() {
    let (a, t) = bought("cat", 30);
    assert_eq!(a, InvestmentAction { is_buy: true, value: 30 });
    assert_eq!(t, "@cat: bought in for $30.");
    let (a, t) = sold("cat", 25, 30);
    assert_eq!(a, InvestmentAction { is_buy: false, value: -5 });
    assert_eq!(t, "@cat: sold for $25.");
}
