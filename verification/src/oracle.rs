//! A stand-in for a price oracle that knows two feeds and answers each with
//! a fixed price.

use vstd::prelude::*;

verus! {

/// The name of a price feed.
#[derive(Clone, Copy, Debug)]
pub struct PriceIdentifier(pub [u8; 32]);

/// A price of `price` times ten to the power of `expo`, give or take
/// `conf`, as published at `publish_time`.
#[derive(Clone, Copy, Debug, PartialEq, Eq, Structural)]
pub struct Price {
    pub price: i64,
    pub conf: u64,
    pub expo: i32,
    pub publish_time: i64,
}

/// The two feeds that the oracle knows.
#[derive(Clone, Copy, Debug)]
pub struct Feeds {
    pub near_usd: [u8; 32],
    pub eth_usd: [u8; 32],
}

/// The oracle. It holds no state.
#[derive(Clone, Copy, Debug, Default)]
pub struct Contract {}

/// The price answered for NEAR in US dollars.
pub open spec fn near_usd_price() -> Price {
    Price { price: 718120242, conf: 420242, expo: -8i32, publish_time: 1712830518 }
}

/// The price answered for ether in US dollars.
pub open spec fn eth_usd_price() -> Price {
    Price { price: 357262000000, conf: 135000000, expo: -8i32, publish_time: 1712830748 }
}

/// The price of a feed: that of NEAR for the first feed, that of ether for
/// the second, none for any other.
pub open spec fn price_of(id: Seq<u8>, feeds: Feeds) -> Option<Price> {
    if id == feeds.near_usd@ {
        Some(near_usd_price())
    } else if id == feeds.eth_usd@ {
        Some(eth_usd_price())
    } else {
        None
    }
}

fn same_feed(a: &[u8; 32], b: &[u8; 32]) -> (r: bool)
    ensures
        r == (a@ == b@),
{
    let mut i: usize = 0;
    while i < 32
        invariant
            i <= 32,
            forall|j: int| 0 <= j < i ==> a@[j] == b@[j],
        decreases 32 - i,
    {
        if a[i] != b[i] {
            return false;
        }
        i += 1;
    }
    assert(a@ =~= b@);
    true
}

impl Contract {
    /// The price of a feed, if the oracle knows the feed.
    pub fn get_price(&self, price_identifier: PriceIdentifier, feeds: &Feeds) -> (r: Option<Price>)
        ensures
            r == price_of(price_identifier.0@, *feeds),
    {
        if same_feed(&price_identifier.0, &feeds.near_usd) {
            Some(Price { price: 718120242, conf: 420242, expo: -8, publish_time: 1712830518 })
        } else if same_feed(&price_identifier.0, &feeds.eth_usd) {
            Some(Price { price: 357262000000, conf: 135000000, expo: -8, publish_time: 1712830748 })
        } else {
            None
        }
    }
}

} // verus!
