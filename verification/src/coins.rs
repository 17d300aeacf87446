//! Naming United States coins and printing their value.

use vstd::prelude::*;
use vstd::string::*;
use crate::text::str_eq;

verus! {

/// A United States coin, or an unrecognized one.
#[derive(Debug, Clone, Copy, PartialEq, Eq, Structural)]
pub enum Coin {
    Penny,
    Nickel,
    Dime,
    Quarter,
    Unknown,
}

/// The dollar text for each coin.
pub open spec fn cents_text(coin: Coin) -> Seq<char> {
    match coin {
        Coin::Penny => "$0.01"@,
        Coin::Nickel => "$0.05"@,
        Coin::Dime => "$0.10"@,
        Coin::Quarter => "$0.25"@,
        Coin::Unknown => "$0.00"@,
    }
}

/// Prints a coin's value as dollar text.
pub fn value_in_cents(coin: Coin) -> (r: String)
    ensures
        r@ == cents_text(coin),
{
    match coin {
        Coin::Penny => String::from_str("$0.01"),
        Coin::Nickel => String::from_str("$0.05"),
        Coin::Dime => String::from_str("$0.10"),
        Coin::Quarter => String::from_str("$0.25"),
        Coin::Unknown => String::from_str("$0.00"),
    }
}

/// The coin a lower-case name denotes; anything else is unknown.
pub open spec fn coin_of(s: Seq<char>) -> Coin {
    if s == "penny"@ {
        Coin::Penny
    } else if s == "nickel"@ {
        Coin::Nickel
    } else if s == "dime"@ {
        Coin::Dime
    } else if s == "quarter"@ {
        Coin::Quarter
    } else {
        Coin::Unknown
    }
}

/// Parses a coin name.
pub fn coin_from_string(string: &str) -> (r: Coin)
    ensures
        r == coin_of(string@),
{
    if str_eq(string, "penny") {
        Coin::Penny
    } else if str_eq(string, "nickel") {
        Coin::Nickel
    } else if str_eq(string, "dime") {
        Coin::Dime
    } else if str_eq(string, "quarter") {
        Coin::Quarter
    } else {
        Coin::Unknown
    }
}

} // verus!
