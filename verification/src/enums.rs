//! Coins and options, matched over.

use vstd::prelude::*;

verus! {

#[derive(Debug, Clone, Copy, PartialEq, Eq, Structural)]
pub enum UsState {
    Alabana,
    Alaska,
}

#[derive(Debug, Clone, Copy, PartialEq, Eq, Structural)]
pub enum Coin {
    Penny,
    Nickel,
    Dime,
    Quarter(UsState),
}

pub fn value_in_cents(coin: Coin) -> (r: u8)
    ensures
        coin is Penny ==> r == 1,
        coin is Nickel ==> r == 5,
        coin is Dime ==> r == 10,
        coin is Quarter ==> r == 25,
{
    match coin {
        Coin::Penny => 1,
        Coin::Nickel => 5,
        Coin::Dime => 10,
        Coin::Quarter(_state) => 25,
    }
}

pub fn do_i_like_coin(coin: Coin) -> (r: bool)
    ensures
        r == (coin is Dime),
{
    match coin {
        Coin::Dime => true,
        _ => false,
    }
}

pub fn plus_one(x: Option<i32>) -> (r: Option<i32>)
    requires
        x matches Some(n) ==> n < i32::MAX,
    ensures
        x matches Some(n) ==> r == Some((n + 1) as i32),
        x is None ==> r is None,
{
    match x {
        Some(num) => Some(num + 1),
        None => None,
    }
}

pub fn one_if_some<T>(x: Option<T>) -> (r: i32)
    ensures
        r == if x is Some { 1int } else { 0int },
{
    match x {
        None => 0,
        Some(_) => 1,
    }
}

} // verus!
