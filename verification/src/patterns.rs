//! Match-based control flow over coins with state quarters and options.

use vstd::prelude::*;

verus! {

/// A state whose quarter carries its design.
#[derive(Debug, Clone, Copy, PartialEq, Eq, Structural)]
pub enum USState {
    Alabama,
    Alaska,
    Arkansas,
    Florida,
    Georgia,
}

/// A coin; quarters carry the state they celebrate.
#[derive(Debug, Clone, Copy)]
pub enum Coin {
    Penny,
    Nickel,
    Dime,
    Quarter(USState),
}

/// The face value of each coin, in cents.
pub open spec fn cents_of(coin: Coin) -> u8 {
    match coin {
        Coin::Penny => 1,
        Coin::Nickel => 5,
        Coin::Dime => 10,
        Coin::Quarter(_) => 25,
    }
}

/// A coin's face value in cents.
pub fn value_in_cents(coin: Coin) -> (r: u8)
    ensures
        r == cents_of(coin),
{
    match coin {
        Coin::Penny => 1,
        Coin::Nickel => 5,
        Coin::Dime => 10,
        Coin::Quarter(_) => 25,
    }
}

/// Adds one where there is a number; `None` stays `None`.
pub fn plus_one(x: Option<i32>) -> (r: Option<i32>)
    requires
        x matches Some(i) ==> i < i32::MAX,
    ensures
        r == match x {
            Option::None => Option::<i32>::None,
            Option::Some(i) => Option::Some((i + 1) as i32),
        },
{
    match x {
        None => None,
        Some(i) => Some(i + 1),
    }
}

pub fn add_fancy_aht() {
}

pub fn remove_fancy_hat() {
}

pub fn move_player() {
}

pub fn reroll() {
}

} // verus!
