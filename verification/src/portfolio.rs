//! The shareholder ledger's rules: joining, buying a share at the current
//! value and selling it later. The rows themselves live in a database that
//! the caller reads and writes; these functions decide, from what was read,
//! whether a request is refused and what is written.
use vstd::prelude::*;
use vstd::string::*;

verus! {

/// The money a viewer holds when joining.
pub const STARTING_MONEY: i32 = 100;

/// A shareholder's row as read back: name, money, whether a share is held
/// and the price it was bought at.
#[derive(Clone, Debug, PartialEq, Eq)]
pub struct ShareholderInfo {
    pub username: String,
    pub money: i32,
    pub invested: bool,
    pub price: i32,
}

/// The two columns that a purchase reads: money and the invested flag
/// (stored as an integer, 0 meaning no share is held).
#[derive(Clone, Copy, Debug, PartialEq, Eq, Structural)]
pub struct Holding {
    pub money: i32,
    pub invested: i32,
}

/// What a purchase writes: the money left, the flag set, and the price paid.
#[derive(Clone, Copy, Debug, PartialEq, Eq, Structural)]
pub struct Purchase {
    pub money: i64,
    pub price: i32,
}

/// What a sale reads: the money as stored (a 64-bit integer column) and the
/// invested flag.
#[derive(Clone, Copy, Debug, PartialEq, Eq, Structural)]
pub struct Stake {
    pub money: i64,
    pub invested: i32,
}

/// Why a request on the ledger is refused.
#[derive(Clone, Copy, Debug, PartialEq, Eq, Structural)]
pub enum PortfolioError {
    AlreadyJoined,
    NotJoined,
    AlreadyInvested,
    CannotAfford,
    NotInvested,
}

/// The row that joining creates.
pub open spec fn new_shareholder(username: Seq<char>) -> (Seq<char>, i32, bool, i32) {
    (username, STARTING_MONEY, false, 0)
}

/// Joining is refused when the name already has a row.
pub fn add_shareholder(username: &str, existing_count: i64) -> (r: Result<
    ShareholderInfo,
    PortfolioError,
>)
    ensures
        existing_count > 0 ==> r == Err::<ShareholderInfo, PortfolioError>(
            PortfolioError::AlreadyJoined,
        ),
        existing_count <= 0 ==> (r matches Ok(info) && (info.username@, info.money,
            info.invested, info.price) == new_shareholder(username@)),
{
    if existing_count > 0 {
        return Err(PortfolioError::AlreadyJoined);
    }
    Ok(ShareholderInfo {
        username: String::from_str(username),
        money: STARTING_MONEY,
        invested: false,
        price: 0,
    })
}

/// Looking a shareholder up is refused when the name has no row.
pub fn get_shareholder(row: Option<ShareholderInfo>) -> (r: Result<ShareholderInfo, PortfolioError>)
    ensures
        r == match row {
            Some(info) => Ok(info),
            None => Err(PortfolioError::NotJoined),
        },
{
    match row {
        Some(info) => Ok(info),
        None => Err(PortfolioError::NotJoined),
    }
}

/// The outcome of buying a share at `value` for a viewer whose row reads
/// `holding` (`None`: no row).
pub open spec fn invest_outcome(holding: Option<Holding>, value: i32) -> Result<
    Purchase,
    PortfolioError,
> {
    match holding {
        None => Err(PortfolioError::NotJoined),
        Some(h) => if h.invested != 0 {
            Err(PortfolioError::AlreadyInvested)
        } else if h.money < value {
            Err(PortfolioError::CannotAfford)
        } else {
            Ok(Purchase { money: (h.money - value) as i64, price: value })
        },
    }
}

/// Buying a share at `value`: refused without a row, when a share is already
/// held, or when the money does not reach the value; otherwise the value is
/// paid and becomes the share's price.
pub fn invest(holding: Option<Holding>, value: i32) -> (r: Result<Purchase, PortfolioError>)
    ensures
        r == invest_outcome(holding, value),
{
    match holding {
        None => Err(PortfolioError::NotJoined),
        Some(h) => {
            if h.invested != 0 {
                Err(PortfolioError::AlreadyInvested)
            } else if h.money < value {
                Err(PortfolioError::CannotAfford)
            } else {
                Ok(Purchase { money: h.money as i64 - value as i64, price: value })
            }
        },
    }
}

/// The outcome of selling the held share at `value` for a viewer whose row
/// reads `stake` (`None`: no row): the money after the sale.
pub open spec fn sell_outcome(stake: Option<Stake>, value: i32) -> Result<i64, PortfolioError> {
    match stake {
        None => Err(PortfolioError::NotJoined),
        Some(s) => if s.invested == 0 {
            Err(PortfolioError::NotInvested)
        } else {
            Ok((s.money + value) as i64)
        },
    }
}

/// Selling the held share at `value`: refused without a row or without a
/// share; otherwise the value is paid out and the share is gone.
pub fn sell(stake: Option<Stake>, value: i32) -> (r: Result<i64, PortfolioError>)
    requires
        stake matches Some(s) ==> (s.invested != 0 ==> i64::MIN <= s.money + value <= i64::MAX),
    ensures
        r == sell_outcome(stake, value),
{
    match stake {
        None => Err(PortfolioError::NotJoined),
        Some(s) => {
            if s.invested == 0 {
                Err(PortfolioError::NotInvested)
            } else {
                Ok(s.money + value as i64)
            }
        },
    }
}

/// The text of a refusal, addressed to `username`.
pub open spec fn refusal_text(e: PortfolioError, username: Seq<char>) -> Seq<char> {
    match e {
        PortfolioError::AlreadyJoined => "@"@ + username + ": you have already joined."@,
        PortfolioError::NotJoined => "@"@ + username + " has not done !join yet."@,
        PortfolioError::AlreadyInvested => "@"@ + username + ": you are already invested."@,
        PortfolioError::CannotAfford => "@"@ + username + ": you cannot afford to buy."@,
        PortfolioError::NotInvested => "@"@ + username
            + " cannot sell because you are not invested."@,
    }
}

impl PortfolioError {
    /// The text of this refusal, addressed to `username`.
    pub fn message(&self, username: &str) -> (s: String)
        ensures
            s@ == refusal_text(*self, username@),
    {
        let mut s = String::from_str("@");
        s.append(username);
        match self {
            PortfolioError::AlreadyJoined => s.append(": you have already joined."),
            PortfolioError::NotJoined => s.append(" has not done !join yet."),
            PortfolioError::AlreadyInvested => s.append(": you are already invested."),
            PortfolioError::CannotAfford => s.append(": you cannot afford to buy."),
            PortfolioError::NotInvested => s.append(" cannot sell because you are not invested."),
        }
        s
    }
}

/// Buying at `v` and later selling at `w` changes a shareholder's money by
/// `w - v`, and leaves no share held.
pub proof fn lemma_buy_then_sell(h: Holding, v: i32, w: i32)
    requires
        h.invested == 0,
        h.money >= v,
    ensures
        invest_outcome(Some(h), v) matches Ok(p) && p.price == v && sell_outcome(
            Some(Stake { money: p.money, invested: 1 }),
            w,
        ) == Ok::<i64, PortfolioError>((h.money - v + w) as i64),
{
}

/// A successful purchase takes exactly the value from the money, and never
/// leaves it below zero.
pub proof fn lemma_purchase_bounds(holding: Option<Holding>, value: i32)
    ensures
        invest_outcome(holding, value) matches Ok(p) ==> (holding matches Some(h) && 0
            <= p.money && p.money == h.money - value),
{
}

/// A share cannot be bought twice: after a purchase the next one is refused.
pub proof fn lemma_no_second_purchase(h: Holding, v: i32, v2: i32)
    requires
        invest_outcome(Some(h), v) is Ok,
    ensures
        invest_outcome(
            Some(Holding { money: invest_outcome(Some(h), v)->Ok_0.money as i32, invested: 1 }),
            v2,
        ) == Err::<Purchase, PortfolioError>(PortfolioError::AlreadyInvested),
{
}

/// After a sale the share is gone, so selling again is refused.
pub proof fn lemma_no_second_sale(s: Stake, w: i32, w2: i32)
    requires
        sell_outcome(Some(s), w) is Ok,
    ensures
        sell_outcome(Some(Stake { money: sell_outcome(Some(s), w)->Ok_0, invested: 0 }), w2)
            == Err::<i64, PortfolioError>(PortfolioError::NotInvested),
{
}

} // verus!
