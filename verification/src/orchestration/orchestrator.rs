//! Which coins a query has compiled.

use crate::domain::primitives::Coin;
use vstd::prelude::*;

verus! {

/// The coins to compile for a query: the coin asked for, or, where none is, the
/// coins that the account has fills in within the window.
pub fn coins_to_compile(coin: Option<&Coin>, traded: Vec<Coin>) -> (r: Vec<Coin>)
    ensures
        match coin {
            Some(c) => r@ == seq![*c],
            None => r == traded,
        },
{
    match coin {
        Some(c) => {
            let mut one: Vec<Coin> = Vec::new();
            one.push(c.clone());
            assert(one@ =~= seq![*c]);
            one
        },
        None => traded,
    }
}

} // verus!
