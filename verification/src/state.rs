//! The escrow state: the three entity kinds, their keys, and the whole
//! marketplace with its well-formedness invariant.

use vstd::prelude::*;

use crate::fixed::FixedPointAmount;
use crate::order::{KeyView, StoreKey};
use crate::store::Store;

verus! {

/// The identity that receives the platform's cut of every settlement.
pub const PLATFORM_FEE_RECEIVER: &'static str = "sei1904lsj3d3rtm903dqt4ljxx0dpugtmngf4tgal";

/// A seller's standing offer to sell one escrowed asset at a fixed price.
#[derive(Debug)]
pub struct NftListing {
    pub lister: String,
    pub price: FixedPointAmount,
    pub nft_contract_address: String,
    pub token_id: String,
}

/// The mathematical value of a listing.
pub struct ListingView {
    pub lister: Seq<char>,
    pub price: u128,
    pub nft_contract_address: Seq<char>,
    pub token_id: Seq<char>,
}

impl View for NftListing {
    type V = ListingView;

    open spec fn view(&self) -> ListingView {
        ListingView {
            lister: self.lister@,
            price: self.price@,
            nft_contract_address: self.nft_contract_address@,
            token_id: self.token_id@,
        }
    }
}

/// A buyer's standing, funded offer to buy one specific asset.
#[derive(Debug)]
pub struct NftBid {
    pub bidder: String,
    pub price: FixedPointAmount,
    pub nft_contract_address: String,
    pub token_id: String,
}

/// The mathematical value of a bid.
pub struct BidView {
    pub bidder: Seq<char>,
    pub price: u128,
    pub nft_contract_address: Seq<char>,
    pub token_id: Seq<char>,
}

impl View for NftBid {
    type V = BidView;

    open spec fn view(&self) -> BidView {
        BidView {
            bidder: self.bidder@,
            price: self.price@,
            nft_contract_address: self.nft_contract_address@,
            token_id: self.token_id@,
        }
    }
}

/// A buyer's set of standing offers against any asset of one collection.
#[derive(Debug)]
pub struct NftCollectionBid {
    pub bidder: String,
    pub nft_contract_address: String,
    pub bids_prices: Vec<FixedPointAmount>,
}

/// The mathematical value of a collection bid group.
pub struct CollectionBidView {
    pub bidder: Seq<char>,
    pub nft_contract_address: Seq<char>,
    pub bids_prices: Seq<u128>,
}

/// The atomic-unit values of a sequence of amounts.
pub open spec fn amounts_view(s: Seq<FixedPointAmount>) -> Seq<u128> {
    s.map_values(|p: FixedPointAmount| p@)
}

impl View for NftCollectionBid {
    type V = CollectionBidView;

    open spec fn view(&self) -> CollectionBidView {
        CollectionBidView {
            bidder: self.bidder@,
            nft_contract_address: self.nft_contract_address@,
            bids_prices: amounts_view(self.bids_prices@),
        }
    }
}

impl NftListing {
    /// Copies the listing.
    pub fn duplicate(&self) -> (r: NftListing)
        ensures
            r@ == self@,
    {
        NftListing {
            lister: self.lister.clone(),
            price: self.price,
            nft_contract_address: self.nft_contract_address.clone(),
            token_id: self.token_id.clone(),
        }
    }
}

impl NftBid {
    /// Copies the bid.
    pub fn duplicate(&self) -> (r: NftBid)
        ensures
            r@ == self@,
    {
        NftBid {
            bidder: self.bidder.clone(),
            price: self.price,
            nft_contract_address: self.nft_contract_address.clone(),
            token_id: self.token_id.clone(),
        }
    }
}

impl NftCollectionBid {
    /// Copies the group.
    pub fn duplicate(&self) -> (r: NftCollectionBid)
        ensures
            r@ == self@,
    {
        NftCollectionBid {
            bidder: self.bidder.clone(),
            nft_contract_address: self.nft_contract_address.clone(),
            bids_prices: copy_prices(&self.bids_prices),
        }
    }
}

/// The key of a listing: collection and asset.
pub open spec fn listing_key(collection: Seq<char>, token: Seq<char>) -> KeyView {
    (collection, token, Seq::<char>::empty())
}

/// The key of a bid: collection, asset and bidder.
pub open spec fn bid_key(collection: Seq<char>, token: Seq<char>, bidder: Seq<char>) -> KeyView {
    (collection, token, bidder)
}

/// The key of a collection bid group: collection and bidder.
pub open spec fn group_key(collection: Seq<char>, bidder: Seq<char>) -> KeyView {
    (collection, bidder, Seq::<char>::empty())
}

/// Builds the store key of a listing.
pub fn make_listing_key(collection: &String, token: &String) -> (r: StoreKey)
    ensures
        r@ == listing_key(collection@, token@),
{
    StoreKey::new(collection.clone(), token.clone(), String::new())
}

/// Builds the store key of a bid.
pub fn make_bid_key(collection: &String, token: &String, bidder: &String) -> (r: StoreKey)
    ensures
        r@ == bid_key(collection@, token@, bidder@),
{
    StoreKey::new(collection.clone(), token.clone(), bidder.clone())
}

/// Builds the store key of a collection bid group.
pub fn make_group_key(collection: &String, bidder: &String) -> (r: StoreKey)
    ensures
        r@ == group_key(collection@, bidder@),
{
    StoreKey::new(collection.clone(), bidder.clone(), String::new())
}

/// The sum of a group's standing prices, in atomic units.
pub open spec fn sum_prices(s: Seq<u128>) -> int
    decreases s.len(),
{
    if s.len() == 0 {
        0
    } else {
        sum_prices(s.drop_last()) + s.last()
    }
}

/// Prefixes of a price sequence never sum to more than the whole.
pub proof fn lemma_sum_take(s: Seq<u128>, j: int)
    requires
        0 <= j <= s.len(),
    ensures
        sum_prices(s.take(j)) <= sum_prices(s),
        sum_prices(s) >= 0,
    decreases s.len(),
{
    if s.len() == 0 {
        assert(s.take(j) =~= s);
    } else if j == s.len() {
        assert(s.take(j) =~= s);
        lemma_sum_take(s.drop_last(), s.len() - 1);
    } else {
        lemma_sum_take(s.drop_last(), j);
        assert(s.drop_last().take(j) =~= s.take(j));
    }
}

/// Removing one price lowers the sum by exactly that price.
pub proof fn lemma_sum_remove(s: Seq<u128>, i: int)
    requires
        0 <= i < s.len(),
    ensures
        sum_prices(s.remove(i)) == sum_prices(s) - s[i],
    decreases s.len(),
{
    if i == s.len() - 1 {
        assert(s.remove(i) =~= s.drop_last());
    } else {
        lemma_sum_remove(s.drop_last(), i);
        assert(s.remove(i).drop_last() =~= s.drop_last().remove(i));
        assert(s.remove(i).last() == s.last());
    }
}

/// Copies a price vector.
pub fn copy_prices(v: &Vec<FixedPointAmount>) -> (r: Vec<FixedPointAmount>)
    ensures
        r@ == v@,
{
    let mut r: Vec<FixedPointAmount> = Vec::new();
    let n = v.len();
    let mut i: usize = 0;
    while i < n
        invariant
            i <= n,
            n == v@.len(),
            r@ == v@.take(i as int),
        decreases n - i,
    {
        r.push(v[i]);
        proof {
            assert(r@ =~= v@.take(i as int + 1));
        }
        i += 1;
    }
    proof {
        assert(v@.take(n as int) =~= v@);
    }
    r
}

/// Sums a price vector; `None` where the sum exceeds `u128::MAX`.
pub fn checked_total(v: &Vec<FixedPointAmount>) -> (r: Option<FixedPointAmount>)
    ensures
        match r {
            Some(t) => t@ == sum_prices(amounts_view(v@)),
            None => sum_prices(amounts_view(v@)) > u128::MAX,
        },
{
    let ghost s = amounts_view(v@);
    let n = v.len();
    let mut acc: u128 = 0;
    let mut i: usize = 0;
    while i < n
        invariant
            i <= n,
            n == s.len(),
            s == amounts_view(v@),
            acc == sum_prices(s.take(i as int)),
        decreases n - i,
    {
        let p = v[i];
        proof {
            assert(s.take(i as int + 1).drop_last() =~= s.take(i as int));
            assert(s.take(i as int + 1).last() == s[i as int]);
            assert(s[i as int] == p@);
        }
        if acc > u128::MAX - p.atomics {
            proof {
                lemma_sum_take(s, i as int + 1);
            }
            return None;
        }
        acc = acc + p.atomics;
        i += 1;
    }
    proof {
        assert(s.take(n as int) =~= s);
    }
    Some(FixedPointAmount { atomics: acc })
}

/// A listing entry agrees with the key it is stored under.
pub open spec fn listing_entry_ok(k: KeyView, v: ListingView) -> bool {
    &&& v.nft_contract_address == k.0
    &&& v.token_id == k.1
    &&& k.2 == Seq::<char>::empty()
}

/// A bid entry agrees with the key it is stored under.
pub open spec fn bid_entry_ok(k: KeyView, v: BidView) -> bool {
    &&& v.nft_contract_address == k.0
    &&& v.token_id == k.1
    &&& v.bidder == k.2
}

/// A group entry agrees with its key, keeps strictly fewer than one hundred
/// standing prices, and their sum stays a representable amount.
pub open spec fn group_entry_ok(k: KeyView, v: CollectionBidView) -> bool {
    &&& v.nft_contract_address == k.0
    &&& v.bidder == k.1
    &&& k.2 == Seq::<char>::empty()
    &&& v.bids_prices.len() < 100
    &&& sum_prices(v.bids_prices) <= u128::MAX
}

/// The mathematical value of the whole marketplace: one map per entity kind.
pub struct MarketView {
    pub listings: Map<KeyView, ListingView>,
    pub bids: Map<KeyView, BidView>,
    pub collection_bids: Map<KeyView, CollectionBidView>,
}

/// The whole escrow state: listings, bids and collection bid groups, each
/// keyed uniquely.
pub struct Marketplace {
    pub listings: Store<NftListing>,
    pub bids: Store<NftBid>,
    pub collection_bids: Store<NftCollectionBid>,
}

impl View for Marketplace {
    type V = MarketView;

    open spec fn view(&self) -> MarketView {
        MarketView {
            listings: self.listings@,
            bids: self.bids@,
            collection_bids: self.collection_bids@,
        }
    }
}

impl Marketplace {
    /// Well-formedness: every store is sorted (so every key is live at most
    /// once), every entry agrees with its key, and every group is bounded.
    pub open spec fn wf(&self) -> bool {
        &&& self.listings.inv()
        &&& self.bids.inv()
        &&& self.collection_bids.inv()
        &&& forall|k: KeyView| #[trigger]
            self@.listings.contains_key(k) ==> listing_entry_ok(k, self@.listings[k])
        &&& forall|k: KeyView| #[trigger]
            self@.bids.contains_key(k) ==> bid_entry_ok(k, self@.bids[k])
        &&& forall|k: KeyView| #[trigger]
            self@.collection_bids.contains_key(k) ==> group_entry_ok(k, self@.collection_bids[k])
    }

    /// An empty marketplace.
    pub fn new() -> (r: Marketplace)
        ensures
            r.wf(),
            r@.listings == Map::<KeyView, ListingView>::empty(),
            r@.bids == Map::<KeyView, BidView>::empty(),
            r@.collection_bids == Map::<KeyView, CollectionBidView>::empty(),
    {
        Marketplace { listings: Store::new(), bids: Store::new(), collection_bids: Store::new() }
    }
}

} // verus!
