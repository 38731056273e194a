use kart_stocks::portfolio::{
    add_shareholder, get_shareholder, invest, sell, Holding, PortfolioError, Purchase,
    ShareholderInfo, Stake, STARTING_MONEY,
};

#[test]
fn joining() {
    let info = add_shareholder("alice", 0).unwrap();
    assert_eq!(info.username, "alice");
    assert_eq!(info.money, STARTING_MONEY);
    assert_eq!(info.money, 100);
    assert!(!info.invested);
    assert_eq!(info.price, 0);
    assert_eq!(add_shareholder("alice", 1), Err(PortfolioError::AlreadyJoined));
}

#[test]
fn looking_up() {
    let info = ShareholderInfo { username: "bob".into(), money: 3, invested: true, price: 9 };
    assert_eq!(get_shareholder(Some(info.clone())), Ok(info));
    assert_eq!(get_shareholder(None), Err(PortfolioError::NotJoined));
}

#[test]
fn buying() {
    assert_eq!(invest(None, 10), Err(PortfolioError::NotJoined));
    assert_eq!(
        invest(Some(Holding { money: 100, invested: 1 }), 10),
        Err(PortfolioError::AlreadyInvested)
    );
    assert_eq!(
        invest(Some(Holding { money: 5, invested: 0 }), 10),
        Err(PortfolioError::CannotAfford)
    );
    assert_eq!(
        invest(Some(Holding { money: 100, invested: 0 }), 40),
        Ok(Purchase { money: 60, price: 40 })
    );
    assert_eq!(
        invest(Some(Holding { money: 40, invested: 0 }), 40),
        Ok(Purchase { money: 0, price: 40 })
    );
}

#[test]
fn selling() {
    assert_eq!(sell(None, 10), Err(PortfolioError::NotJoined));
    assert_eq!(sell(Some(Stake { money: 60, invested: 0 }), 10), Err(PortfolioError::NotInvested));
    assert_eq!(sell(Some(Stake { money: 60, invested: 1 }), 55), Ok(115));
}

#[test]
fn buy_then_sell_changes_money_by_the_difference() {
    let start = Holding { money: 100, invested: 0 };
    let p = invest(Some(start), 30).unwrap();
    let after = sell(Some(Stake { money: p.money, invested: 1 }), 45).unwrap();
    assert_eq!(after, 100 - 30 + 45);
    assert_eq!(
        invest(Some(Holding { money: p.money as i32, invested: 1 }), 1),
        Err(PortfolioError::AlreadyInvested)
    );
    assert_eq!(sell(Some(Stake { money: after, invested: 0 }), 45), Err(PortfolioError::NotInvested));
}

#[test]
fn refusal_messages() {
    assert_eq!(PortfolioError::AlreadyJoined.message("al"), "@al: you have already joined.");
    assert_eq!(PortfolioError::NotJoined.message("al"), "@al has not done !join yet.");
    assert_eq!(PortfolioError::AlreadyInvested.message("al"), "@al: you are already invested.");
    assert_eq!(PortfolioError::CannotAfford.message("al"), "@al: you cannot afford to buy.");
    assert_eq!(
        PortfolioError::NotInvested.message("al"),
        "@al cannot sell because you are not invested."
    );
}

#[test]
fn selling_without_a_share_is_refused_whatever_the_money() {
    assert_eq!(
        sell(Some(Stake { money: i64::MAX, invested: 0 }), 10),
        Err(PortfolioError::NotInvested)
    );
}
