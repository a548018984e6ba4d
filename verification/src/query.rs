//! Read-only queries: point lookups and the three ordered, paginated range
//! scans.

use vstd::prelude::*;

use crate::error::ContractError;
use crate::msg::{
    GetNftBidResponse, GetNftCollectionBidResponse, GetNftListingResponse,
    GetPaginatedBidsResponse, GetPaginatedCollectionBidsResponse, GetPaginatedListingsResponse,
};
use crate::order::{key_lt, lemma_key_lt_trichotomy, seq_lt, KeyView};
use crate::state::{
    bid_key, group_key, listing_key, make_bid_key, make_group_key, make_listing_key, Marketplace,
};
use crate::store::{opt_str_view, scan_matches};
use crate::utils::opt_string_view;

verus! {

/// The default page size of a range scan.
pub const DEFAULT_QUERY_LIMIT: u32 = 10;

/// Reads the live listing at (collection, asset).
pub fn get_nft_listing(
    market: &Marketplace,
    nft_contract_address: Option<String>,
    token_id: &String,
) -> (r: Result<GetNftListingResponse, ContractError>)
    requires
        market.wf(),
    ensures
        match r {
            Ok(resp) => (opt_string_view(nft_contract_address) matches Some(a)
                && market@.listings.contains_key(listing_key(a, token_id@)) && resp.nft_listing@
                == market@.listings[listing_key(a, token_id@)]),
            Err(e) => {
                if opt_string_view(nft_contract_address) is None {
                    e == ContractError::InvalidNftContractAddress
                } else {
                    e == ContractError::NftListingNotFound && !market@.listings.contains_key(
                        listing_key(opt_string_view(nft_contract_address)->0, token_id@),
                    )
                }
            },
        },
{
    let addr = match nft_contract_address {
        Some(a) => a,
        None => {
            return Err(ContractError::InvalidNftContractAddress);
        },
    };
    let key = make_listing_key(&addr, token_id);
    match market.listings.get(&key) {
        Some(l) => Ok(GetNftListingResponse { nft_listing: l.duplicate() }),
        None => Err(ContractError::NftListingNotFound),
    }
}

/// Reads the live bid at (collection, asset, bidder).
pub fn get_nft_bid(
    market: &Marketplace,
    nft_contract_address: Option<String>,
    token_id: &String,
    bidder: Option<String>,
) -> (r: Result<GetNftBidResponse, ContractError>)
    requires
        market.wf(),
    ensures
        match r {
            Ok(resp) => (opt_string_view(nft_contract_address) matches Some(a) && (opt_string_view(
                bidder,
            ) matches Some(b) && market@.bids.contains_key(bid_key(a, token_id@, b))
                && resp.nft_bid@ == market@.bids[bid_key(a, token_id@, b)])),
            Err(e) => {
                if opt_string_view(nft_contract_address) is None {
                    e == ContractError::InvalidNftContractAddress
                } else if opt_string_view(bidder) is None {
                    e == ContractError::InvalidBidder
                } else {
                    e == ContractError::NftBidNotFound && !market@.bids.contains_key(
                        bid_key(
                            opt_string_view(nft_contract_address)->0,
                            token_id@,
                            opt_string_view(bidder)->0,
                        ),
                    )
                }
            },
        },
{
    let addr = match nft_contract_address {
        Some(a) => a,
        None => {
            return Err(ContractError::InvalidNftContractAddress);
        },
    };
    let bidder_id = match bidder {
        Some(b) => b,
        None => {
            return Err(ContractError::InvalidBidder);
        },
    };
    let key = make_bid_key(&addr, token_id, &bidder_id);
    match market.bids.get(&key) {
        Some(b) => Ok(GetNftBidResponse { nft_bid: b.duplicate() }),
        None => Err(ContractError::NftBidNotFound),
    }
}

/// Reads the live collection bid group at (collection, bidder).
pub fn get_nft_collection_bid(
    market: &Marketplace,
    nft_contract_address: Option<String>,
    bidder: Option<String>,
) -> (r: Result<GetNftCollectionBidResponse, ContractError>)
    requires
        market.wf(),
    ensures
        match r {
            Ok(resp) => (opt_string_view(nft_contract_address) matches Some(a) && (opt_string_view(
                bidder,
            ) matches Some(b) && market@.collection_bids.contains_key(group_key(a, b))
                && resp.nft_collection_bid@ == market@.collection_bids[group_key(a, b)])),
            Err(e) => {
                if opt_string_view(nft_contract_address) is None {
                    e == ContractError::InvalidNftContractAddress
                } else if opt_string_view(bidder) is None {
                    e == ContractError::InvalidCollectionBidder
                } else {
                    e == ContractError::NftCollectionBidNotFound
                        && !market@.collection_bids.contains_key(
                        group_key(
                            opt_string_view(nft_contract_address)->0,
                            opt_string_view(bidder)->0,
                        ),
                    )
                }
            },
        },
{
    let addr = match nft_contract_address {
        Some(a) => a,
        None => {
            return Err(ContractError::InvalidNftContractAddress);
        },
    };
    let bidder_id = match bidder {
        Some(b) => b,
        None => {
            return Err(ContractError::InvalidCollectionBidder);
        },
    };
    let key = make_group_key(&addr, &bidder_id);
    match market.collection_bids.get(&key) {
        Some(g) => Ok(GetNftCollectionBidResponse { nft_collection_bid: g.duplicate() }),
        None => Err(ContractError::NftCollectionBidNotFound),
    }
}

/// The values of one page of listings.
pub open spec fn listing_page_view(v: Seq<(String, crate::state::NftListing)>) -> Seq<
    (Seq<char>, crate::state::ListingView),
> {
    v.map_values(|p: (String, crate::state::NftListing)| (p.0@, p.1@))
}

/// The values of one page of bids.
pub open spec fn bid_page_view(v: Seq<(String, crate::state::NftBid)>) -> Seq<
    (Seq<char>, crate::state::BidView),
> {
    v.map_values(|p: (String, crate::state::NftBid)| (p.0@, p.1@))
}

/// The values of one page of collection bid groups.
pub open spec fn group_page_view(v: Seq<(String, crate::state::NftCollectionBid)>) -> Seq<
    (Seq<char>, crate::state::CollectionBidView),
> {
    v.map_values(|p: (String, crate::state::NftCollectionBid)| (p.0@, p.1@))
}

proof fn lemma_live_listing_ok(market: &Marketplace, j: int)
    requires
        market.wf(),
        0 <= j < market.listings.entry_seq().len(),
    ensures
        crate::state::listing_entry_ok(
            market.listings.entry_seq()[j].0,
            market.listings.entry_seq()[j].1,
        ),
{
    let s = market.listings.entry_seq();
    crate::store::lemma_store_view(&market.listings);
    crate::store::lemma_key_index(s, j);
    assert(market@.listings.contains_key(s[j].0));
    assert(market@.listings[s[j].0] == s[j].1);
}

proof fn lemma_live_bid_ok(market: &Marketplace, j: int)
    requires
        market.wf(),
        0 <= j < market.bids.entry_seq().len(),
    ensures
        crate::state::bid_entry_ok(market.bids.entry_seq()[j].0, market.bids.entry_seq()[j].1),
{
    let s = market.bids.entry_seq();
    crate::store::lemma_store_view(&market.bids);
    crate::store::lemma_key_index(s, j);
    assert(market@.bids.contains_key(s[j].0));
    assert(market@.bids[s[j].0] == s[j].1);
}

proof fn lemma_live_group_ok(market: &Marketplace, j: int)
    requires
        market.wf(),
        0 <= j < market.collection_bids.entry_seq().len(),
    ensures
        crate::state::group_entry_ok(
            market.collection_bids.entry_seq()[j].0,
            market.collection_bids.entry_seq()[j].1,
        ),
{
    let s = market.collection_bids.entry_seq();
    crate::store::lemma_store_view(&market.collection_bids);
    crate::store::lemma_key_index(s, j);
    assert(market@.collection_bids.contains_key(s[j].0));
    assert(market@.collection_bids[s[j].0] == s[j].1);
}

proof fn lemma_key_lt_same_first(x: KeyView, y: KeyView)
    requires
        key_lt(x, y),
        x.0 == y.0,
    ensures
        seq_lt(x.1, y.1) || (x.1 == y.1 && seq_lt(x.2, y.2)),
{
    lemma_key_lt_trichotomy(x, y);
    crate::order::lemma_seq_lt_trichotomy(x.0, y.0);
}

/// A page of listings is sound and complete: each returned pair is live in the
/// scanned range, pairs come in strictly ascending cursor order, and every
/// live key of the range either appears or lies beyond a full page.
pub open spec fn listing_page_ok(
    m: Map<KeyView, crate::state::ListingView>,
    page: Seq<(Seq<char>, crate::state::ListingView)>,
    a: Seq<char>,
    start: Option<Seq<char>>,
    limit: int,
) -> bool {
    &&& page.len() <= limit
    &&& (forall|n: int|
        #![trigger page[n]]
        0 <= n < page.len() ==> m.contains_key(listing_key(a, page[n].0)) && m[listing_key(a, page[n].0)] == page[n].1 && (
        start matches Some(st) ==> seq_lt(st, page[n].0)))
    &&& (forall|n: int, m2: int|
        0 <= n < m2 < page.len() ==> seq_lt(#[trigger] page[n].0, #[trigger] page[m2].0))
    &&& (forall|k: KeyView|
        #![trigger m.contains_key(k)]
        m.contains_key(k) && k.0 == a && k.2 == Seq::<char>::empty() && (start matches Some(st) ==> seq_lt(st, k.1))
            ==> (exists|n: int| 0 <= n < page.len() && (#[trigger] page[n].0) == k.1) || (
        page.len() == limit && forall|n: int|
            0 <= n < page.len() ==> seq_lt(#[trigger] page[n].0, k.1)))
}

proof fn lemma_assemble_listing_page(
    market: &Marketplace,
    idxs: Seq<usize>,
    page: Seq<(Seq<char>, crate::state::ListingView)>,
    a: Seq<char>,
    start: Option<Seq<char>>,
    limit: int,
)
    requires
        market.wf(),
        page.len() == idxs.len(),
        idxs.len() <= limit,
        forall|p: int|
            0 <= p < idxs.len() ==> #[trigger] idxs[p] < market.listings.entry_seq().len()
                && scan_matches(
                market.listings.entry_seq()[idxs[p] as int].0,
                a,
                None::<Seq<char>>,
                start,
            ),
        forall|p: int, q: int| 0 <= p < q < idxs.len() ==> #[trigger] idxs[p] < #[trigger] idxs[q],
        forall|j: int|
            0 <= j < market.listings.entry_seq().len() && scan_matches(
                (#[trigger] market.listings.entry_seq()[j]).0,
                a,
                None::<Seq<char>>,
                start,
            ) ==> (exists|p: int| 0 <= p < idxs.len() && idxs[p] == j) || (idxs.len() == limit
                && forall|p: int| 0 <= p < idxs.len() ==> #[trigger] idxs[p] < j),
        forall|p: int|
            0 <= p < page.len() ==> (#[trigger] page[p]).0
                == market.listings.entry_seq()[idxs[p] as int].0.1 && page[p].1
                == market.listings.entry_seq()[idxs[p] as int].1,
    ensures
        listing_page_ok(market@.listings, page, a, start, limit),
{
    let entries = market.listings.entry_seq();
    let m = market@.listings;
    crate::store::lemma_store_view(&market.listings);
    assert forall|n2: int| #![trigger page[n2]] 0 <= n2 < page.len() implies m.contains_key(
        listing_key(a, page[n2].0),
    ) && m[listing_key(a, page[n2].0)] == page[n2].1 && (start matches Some(st) ==> seq_lt(st, page[n2].0)) by {
        let j = idxs[n2] as int;
        lemma_live_listing_ok(market, j);
        crate::store::lemma_key_index(entries, j);
        assert(entries[j].0 == listing_key(a, page[n2].0));
    }
    assert forall|n2: int, m2: int| 0 <= n2 < m2 < page.len() implies seq_lt(
        #[trigger] page[n2].0,
        #[trigger] page[m2].0,
    ) by {
        let jp = idxs[n2] as int;
        let jq = idxs[m2] as int;
        lemma_live_listing_ok(market, jp);
        lemma_live_listing_ok(market, jq);
        assert(key_lt(entries[jp].0, entries[jq].0));
        lemma_key_lt_same_first(entries[jp].0, entries[jq].0);
        crate::order::lemma_seq_lt_trichotomy(entries[jp].0.1, entries[jq].0.1);
        crate::order::lemma_seq_lt_trichotomy(entries[jp].0.2, entries[jq].0.2);
    }
    assert forall|k: KeyView|
        #![trigger m.contains_key(k)]
        m.contains_key(k) && k.0 == a && k.2 == Seq::<char>::empty() && (start matches Some(st) ==> seq_lt(st, k.1))
        implies (exists|n2: int| 0 <= n2 < page.len() && (#[trigger] page[n2].0) == k.1) || (
    page.len() == limit && forall|n2: int|
        0 <= n2 < page.len() ==> seq_lt(#[trigger] page[n2].0, k.1)) by {
        assert(crate::store::has_key(entries, k));
        let j = choose|j: int| 0 <= j < entries.len() && (#[trigger] entries[j]).0 == k;
        lemma_live_listing_ok(market, j);
        assert(scan_matches(entries[j].0, a, None::<Seq<char>>, start));
        if exists|p: int| 0 <= p < idxs.len() && idxs[p] == j {
            let p = choose|p: int| 0 <= p < idxs.len() && idxs[p] == j;
            assert(page[p].0 == k.1);
        } else {
            assert forall|n2: int| 0 <= n2 < page.len() implies seq_lt(
                #[trigger] page[n2].0,
                k.1,
            ) by {
                let jp = idxs[n2] as int;
                assert(jp < j);
                lemma_live_listing_ok(market, jp);
                assert(key_lt(entries[jp].0, entries[j].0));
                lemma_key_lt_same_first(entries[jp].0, entries[j].0);
                crate::order::lemma_seq_lt_trichotomy(entries[jp].0.1, entries[j].0.1);
                crate::order::lemma_seq_lt_trichotomy(entries[jp].0.2, entries[j].0.2);
            }
        }
    }
}

/// Reads one page of a collection's listings, keyed by asset, at most `limit` (ten by default) of them, in
/// ascending asset order, starting strictly after `start_after`.
pub fn query_paginated_listings(
    market: &Marketplace,
    nft_contract_address: &String,
    start_after: Option<&String>,
    limit: Option<u32>,
) -> (r: GetPaginatedListingsResponse)
    requires
        market.wf(),
    ensures
        listing_page_ok(
            market@.listings,
            listing_page_view(r.listings@),
            nft_contract_address@,
            opt_str_view(start_after),
            (match limit {
                Some(l) => l,
                None => DEFAULT_QUERY_LIMIT,
            }) as int,
        ),
{
    let lim: usize = match limit {
        Some(l) => l as usize,
        None => DEFAULT_QUERY_LIMIT as usize,
    };
    let idxs = market.listings.scan(nft_contract_address, None, start_after, lim);
    let ghost s = market.listings.entry_seq();
    let mut out: Vec<(String, crate::state::NftListing)> = Vec::new();
    let n = idxs.len();
    let mut i: usize = 0;
    while i < n
        invariant
            i <= n,
            market.wf(),
            s == market.listings.entry_seq(),
            n == idxs@.len(),
            out@.len() == i,
            idxs@.len() <= lim,
            forall|p: int|
                0 <= p < n ==> #[trigger] idxs@[p] < s.len() && scan_matches(
                    s[idxs@[p] as int].0,
                    nft_contract_address@,
                    opt_str_view(None::<&String>),
                    opt_str_view(start_after),
                ),
            forall|p: int, q: int| 0 <= p < q < n ==> #[trigger] idxs@[p] < #[trigger] idxs@[q],
            forall|j: int|
                0 <= j < s.len() && scan_matches(
                    (#[trigger] s[j]).0,
                    nft_contract_address@,
                    opt_str_view(None::<&String>),
                    opt_str_view(start_after),
                ) ==> (exists|p: int| 0 <= p < n && idxs@[p] == j) || (n == lim && forall|p: int|
                    0 <= p < n ==> #[trigger] idxs@[p] < j),
            forall|p: int|
                0 <= p < i ==> (#[trigger] out@[p]).0@ == s[idxs@[p] as int].0.1 && out@[p].1@
                    == s[idxs@[p] as int].1,
        decreases n - i,
    {
        let idx = idxs[i];
        let (key, entity) = market.listings.entry_at(idx);
        out.push((key.b.clone(), entity.duplicate()));
        i += 1;
    }
    let r = GetPaginatedListingsResponse { listings: out };
    proof {
        let page = listing_page_view(r.listings@);
        assert(forall|p: int|
            0 <= p < page.len() ==> (#[trigger] page[p]).0 == out@[p].0@ && page[p].1
                == out@[p].1@);
        assert(opt_str_view(None::<&String>) == None::<Seq<char>>);
        lemma_assemble_listing_page(
            market,
            idxs@,
            page,
            nft_contract_address@,
            opt_str_view(start_after),
            (match limit {
                Some(l) => l,
                None => DEFAULT_QUERY_LIMIT,
            }) as int,
        );
    }
    r
}

/// A page of bids is sound and complete: each returned pair is live in the
/// scanned range, pairs come in strictly ascending cursor order, and every
/// live key of the range either appears or lies beyond a full page.
pub open spec fn bid_page_ok(
    m: Map<KeyView, crate::state::BidView>,
    page: Seq<(Seq<char>, crate::state::BidView)>,
    a: Seq<char>,
    b: Seq<char>,
    start: Option<Seq<char>>,
    limit: int,
) -> bool {
    &&& page.len() <= limit
    &&& (forall|n: int|
        #![trigger page[n]]
        0 <= n < page.len() ==> m.contains_key(bid_key(a, b, page[n].0)) && m[bid_key(a, b, page[n].0)] == page[n].1 && (
        start matches Some(st) ==> seq_lt(st, page[n].0)))
    &&& (forall|n: int, m2: int|
        0 <= n < m2 < page.len() ==> seq_lt(#[trigger] page[n].0, #[trigger] page[m2].0))
    &&& (forall|k: KeyView|
        #![trigger m.contains_key(k)]
        m.contains_key(k) && k.0 == a && k.1 == b && (start matches Some(st) ==> seq_lt(st, k.2))
            ==> (exists|n: int| 0 <= n < page.len() && (#[trigger] page[n].0) == k.2) || (
        page.len() == limit && forall|n: int|
            0 <= n < page.len() ==> seq_lt(#[trigger] page[n].0, k.2)))
}

proof fn lemma_assemble_bid_page(
    market: &Marketplace,
    idxs: Seq<usize>,
    page: Seq<(Seq<char>, crate::state::BidView)>,
    a: Seq<char>,
    b: Seq<char>,
    start: Option<Seq<char>>,
    limit: int,
)
    requires
        market.wf(),
        page.len() == idxs.len(),
        idxs.len() <= limit,
        forall|p: int|
            0 <= p < idxs.len() ==> #[trigger] idxs[p] < market.bids.entry_seq().len()
                && scan_matches(
                market.bids.entry_seq()[idxs[p] as int].0,
                a,
                Some(b),
                start,
            ),
        forall|p: int, q: int| 0 <= p < q < idxs.len() ==> #[trigger] idxs[p] < #[trigger] idxs[q],
        forall|j: int|
            0 <= j < market.bids.entry_seq().len() && scan_matches(
                (#[trigger] market.bids.entry_seq()[j]).0,
                a,
                Some(b),
                start,
            ) ==> (exists|p: int| 0 <= p < idxs.len() && idxs[p] == j) || (idxs.len() == limit
                && forall|p: int| 0 <= p < idxs.len() ==> #[trigger] idxs[p] < j),
        forall|p: int|
            0 <= p < page.len() ==> (#[trigger] page[p]).0
                == market.bids.entry_seq()[idxs[p] as int].0.2 && page[p].1
                == market.bids.entry_seq()[idxs[p] as int].1,
    ensures
        bid_page_ok(market@.bids, page, a, b, start, limit),
{
    let entries = market.bids.entry_seq();
    let m = market@.bids;
    crate::store::lemma_store_view(&market.bids);
    assert forall|n2: int| #![trigger page[n2]] 0 <= n2 < page.len() implies m.contains_key(
        bid_key(a, b, page[n2].0),
    ) && m[bid_key(a, b, page[n2].0)] == page[n2].1 && (start matches Some(st) ==> seq_lt(st, page[n2].0)) by {
        let j = idxs[n2] as int;
        lemma_live_bid_ok(market, j);
        crate::store::lemma_key_index(entries, j);
        assert(entries[j].0 == bid_key(a, b, page[n2].0));
    }
    assert forall|n2: int, m2: int| 0 <= n2 < m2 < page.len() implies seq_lt(
        #[trigger] page[n2].0,
        #[trigger] page[m2].0,
    ) by {
        let jp = idxs[n2] as int;
        let jq = idxs[m2] as int;
        lemma_live_bid_ok(market, jp);
        lemma_live_bid_ok(market, jq);
        assert(key_lt(entries[jp].0, entries[jq].0));
        lemma_key_lt_same_first(entries[jp].0, entries[jq].0);
        crate::order::lemma_seq_lt_trichotomy(entries[jp].0.1, entries[jq].0.1);
        crate::order::lemma_seq_lt_trichotomy(entries[jp].0.2, entries[jq].0.2);
    }
    assert forall|k: KeyView|
        #![trigger m.contains_key(k)]
        m.contains_key(k) && k.0 == a && k.1 == b && (start matches Some(st) ==> seq_lt(st, k.2))
        implies (exists|n2: int| 0 <= n2 < page.len() && (#[trigger] page[n2].0) == k.2) || (
    page.len() == limit && forall|n2: int|
        0 <= n2 < page.len() ==> seq_lt(#[trigger] page[n2].0, k.2)) by {
        assert(crate::store::has_key(entries, k));
        let j = choose|j: int| 0 <= j < entries.len() && (#[trigger] entries[j]).0 == k;
        lemma_live_bid_ok(market, j);
        assert(scan_matches(entries[j].0, a, Some(b), start));
        if exists|p: int| 0 <= p < idxs.len() && idxs[p] == j {
            let p = choose|p: int| 0 <= p < idxs.len() && idxs[p] == j;
            assert(page[p].0 == k.2);
        } else {
            assert forall|n2: int| 0 <= n2 < page.len() implies seq_lt(
                #[trigger] page[n2].0,
                k.2,
            ) by {
                let jp = idxs[n2] as int;
                assert(jp < j);
                lemma_live_bid_ok(market, jp);
                assert(key_lt(entries[jp].0, entries[j].0));
                lemma_key_lt_same_first(entries[jp].0, entries[j].0);
                crate::order::lemma_seq_lt_trichotomy(entries[jp].0.1, entries[j].0.1);
                crate::order::lemma_seq_lt_trichotomy(entries[jp].0.2, entries[j].0.2);
            }
        }
    }
}

/// Reads one page of an asset's bids, keyed by bidder, at most `limit` (ten by default) of them, in
/// ascending bidder order, starting strictly after `start_after`.
pub fn query_paginated_bids(
    market: &Marketplace,
    nft_contract_address: &String,
    token_id: &String,
    start_after: Option<&String>,
    limit: Option<u32>,
) -> (r: GetPaginatedBidsResponse)
    requires
        market.wf(),
    ensures
        bid_page_ok(
            market@.bids,
            bid_page_view(r.bids@),
            nft_contract_address@,
            token_id@,
            opt_str_view(start_after),
            (match limit {
                Some(l) => l,
                None => DEFAULT_QUERY_LIMIT,
            }) as int,
        ),
{
    let lim: usize = match limit {
        Some(l) => l as usize,
        None => DEFAULT_QUERY_LIMIT as usize,
    };
    let idxs = market.bids.scan(nft_contract_address, Some(token_id), start_after, lim);
    let ghost s = market.bids.entry_seq();
    let mut out: Vec<(String, crate::state::NftBid)> = Vec::new();
    let n = idxs.len();
    let mut i: usize = 0;
    while i < n
        invariant
            i <= n,
            market.wf(),
            s == market.bids.entry_seq(),
            n == idxs@.len(),
            out@.len() == i,
            idxs@.len() <= lim,
            forall|p: int|
                0 <= p < n ==> #[trigger] idxs@[p] < s.len() && scan_matches(
                    s[idxs@[p] as int].0,
                    nft_contract_address@,
                    opt_str_view(Some(token_id)),
                    opt_str_view(start_after),
                ),
            forall|p: int, q: int| 0 <= p < q < n ==> #[trigger] idxs@[p] < #[trigger] idxs@[q],
            forall|j: int|
                0 <= j < s.len() && scan_matches(
                    (#[trigger] s[j]).0,
                    nft_contract_address@,
                    opt_str_view(Some(token_id)),
                    opt_str_view(start_after),
                ) ==> (exists|p: int| 0 <= p < n && idxs@[p] == j) || (n == lim && forall|p: int|
                    0 <= p < n ==> #[trigger] idxs@[p] < j),
            forall|p: int|
                0 <= p < i ==> (#[trigger] out@[p]).0@ == s[idxs@[p] as int].0.2 && out@[p].1@
                    == s[idxs@[p] as int].1,
        decreases n - i,
    {
        let idx = idxs[i];
        let (key, entity) = market.bids.entry_at(idx);
        out.push((key.c.clone(), entity.duplicate()));
        i += 1;
    }
    let r = GetPaginatedBidsResponse { bids: out };
    proof {
        let page = bid_page_view(r.bids@);
        assert(forall|p: int|
            0 <= p < page.len() ==> (#[trigger] page[p]).0 == out@[p].0@ && page[p].1
                == out@[p].1@);
        assert(opt_str_view(Some(token_id)) == Some(token_id@));
        lemma_assemble_bid_page(
            market,
            idxs@,
            page,
            nft_contract_address@,
            token_id@,
            opt_str_view(start_after),
            (match limit {
                Some(l) => l,
                None => DEFAULT_QUERY_LIMIT,
            }) as int,
        );
    }
    r
}

/// A page of collection bid groups is sound and complete: each returned pair is live in the
/// scanned range, pairs come in strictly ascending cursor order, and every
/// live key of the range either appears or lies beyond a full page.
pub open spec fn group_page_ok(
    m: Map<KeyView, crate::state::CollectionBidView>,
    page: Seq<(Seq<char>, crate::state::CollectionBidView)>,
    a: Seq<char>,
    start: Option<Seq<char>>,
    limit: int,
) -> bool {
    &&& page.len() <= limit
    &&& (forall|n: int|
        #![trigger page[n]]
        0 <= n < page.len() ==> m.contains_key(group_key(a, page[n].0)) && m[group_key(a, page[n].0)] == page[n].1 && (
        start matches Some(st) ==> seq_lt(st, page[n].0)))
    &&& (forall|n: int, m2: int|
        0 <= n < m2 < page.len() ==> seq_lt(#[trigger] page[n].0, #[trigger] page[m2].0))
    &&& (forall|k: KeyView|
        #![trigger m.contains_key(k)]
        m.contains_key(k) && k.0 == a && k.2 == Seq::<char>::empty() && (start matches Some(st) ==> seq_lt(st, k.1))
            ==> (exists|n: int| 0 <= n < page.len() && (#[trigger] page[n].0) == k.1) || (
        page.len() == limit && forall|n: int|
            0 <= n < page.len() ==> seq_lt(#[trigger] page[n].0, k.1)))
}

proof fn lemma_assemble_group_page(
    market: &Marketplace,
    idxs: Seq<usize>,
    page: Seq<(Seq<char>, crate::state::CollectionBidView)>,
    a: Seq<char>,
    start: Option<Seq<char>>,
    limit: int,
)
    requires
        market.wf(),
        page.len() == idxs.len(),
        idxs.len() <= limit,
        forall|p: int|
            0 <= p < idxs.len() ==> #[trigger] idxs[p] < market.collection_bids.entry_seq().len()
                && scan_matches(
                market.collection_bids.entry_seq()[idxs[p] as int].0,
                a,
                None::<Seq<char>>,
                start,
            ),
        forall|p: int, q: int| 0 <= p < q < idxs.len() ==> #[trigger] idxs[p] < #[trigger] idxs[q],
        forall|j: int|
            0 <= j < market.collection_bids.entry_seq().len() && scan_matches(
                (#[trigger] market.collection_bids.entry_seq()[j]).0,
                a,
                None::<Seq<char>>,
                start,
            ) ==> (exists|p: int| 0 <= p < idxs.len() && idxs[p] == j) || (idxs.len() == limit
                && forall|p: int| 0 <= p < idxs.len() ==> #[trigger] idxs[p] < j),
        forall|p: int|
            0 <= p < page.len() ==> (#[trigger] page[p]).0
                == market.collection_bids.entry_seq()[idxs[p] as int].0.1 && page[p].1
                == market.collection_bids.entry_seq()[idxs[p] as int].1,
    ensures
        group_page_ok(market@.collection_bids, page, a, start, limit),
{
    let entries = market.collection_bids.entry_seq();
    let m = market@.collection_bids;
    crate::store::lemma_store_view(&market.collection_bids);
    assert forall|n2: int| #![trigger page[n2]] 0 <= n2 < page.len() implies m.contains_key(
        group_key(a, page[n2].0),
    ) && m[group_key(a, page[n2].0)] == page[n2].1 && (start matches Some(st) ==> seq_lt(st, page[n2].0)) by {
        let j = idxs[n2] as int;
        lemma_live_group_ok(market, j);
        crate::store::lemma_key_index(entries, j);
        assert(entries[j].0 == group_key(a, page[n2].0));
    }
    assert forall|n2: int, m2: int| 0 <= n2 < m2 < page.len() implies seq_lt(
        #[trigger] page[n2].0,
        #[trigger] page[m2].0,
    ) by {
        let jp = idxs[n2] as int;
        let jq = idxs[m2] as int;
        lemma_live_group_ok(market, jp);
        lemma_live_group_ok(market, jq);
        assert(key_lt(entries[jp].0, entries[jq].0));
        lemma_key_lt_same_first(entries[jp].0, entries[jq].0);
        crate::order::lemma_seq_lt_trichotomy(entries[jp].0.1, entries[jq].0.1);
        crate::order::lemma_seq_lt_trichotomy(entries[jp].0.2, entries[jq].0.2);
    }
    assert forall|k: KeyView|
        #![trigger m.contains_key(k)]
        m.contains_key(k) && k.0 == a && k.2 == Seq::<char>::empty() && (start matches Some(st) ==> seq_lt(st, k.1))
        implies (exists|n2: int| 0 <= n2 < page.len() && (#[trigger] page[n2].0) == k.1) || (
    page.len() == limit && forall|n2: int|
        0 <= n2 < page.len() ==> seq_lt(#[trigger] page[n2].0, k.1)) by {
        assert(crate::store::has_key(entries, k));
        let j = choose|j: int| 0 <= j < entries.len() && (#[trigger] entries[j]).0 == k;
        lemma_live_group_ok(market, j);
        assert(scan_matches(entries[j].0, a, None::<Seq<char>>, start));
        if exists|p: int| 0 <= p < idxs.len() && idxs[p] == j {
            let p = choose|p: int| 0 <= p < idxs.len() && idxs[p] == j;
            assert(page[p].0 == k.1);
        } else {
            assert forall|n2: int| 0 <= n2 < page.len() implies seq_lt(
                #[trigger] page[n2].0,
                k.1,
            ) by {
                let jp = idxs[n2] as int;
                assert(jp < j);
                lemma_live_group_ok(market, jp);
                assert(key_lt(entries[jp].0, entries[j].0));
                lemma_key_lt_same_first(entries[jp].0, entries[j].0);
                crate::order::lemma_seq_lt_trichotomy(entries[jp].0.1, entries[j].0.1);
                crate::order::lemma_seq_lt_trichotomy(entries[jp].0.2, entries[j].0.2);
            }
        }
    }
}

/// Reads one page of a collection's bid groups, keyed by bidder, at most `limit` (ten by default) of them, in
/// ascending bidder order, starting strictly after `start_after`.
pub fn query_paginated_collection_bids(
    market: &Marketplace,
    nft_contract_address: &String,
    start_after: Option<&String>,
    limit: Option<u32>,
) -> (r: GetPaginatedCollectionBidsResponse)
    requires
        market.wf(),
    ensures
        group_page_ok(
            market@.collection_bids,
            group_page_view(r.collection_bids@),
            nft_contract_address@,
            opt_str_view(start_after),
            (match limit {
                Some(l) => l,
                None => DEFAULT_QUERY_LIMIT,
            }) as int,
        ),
{
    let lim: usize = match limit {
        Some(l) => l as usize,
        None => DEFAULT_QUERY_LIMIT as usize,
    };
    let idxs = market.collection_bids.scan(nft_contract_address, None, start_after, lim);
    let ghost s = market.collection_bids.entry_seq();
    let mut out: Vec<(String, crate::state::NftCollectionBid)> = Vec::new();
    let n = idxs.len();
    let mut i: usize = 0;
    while i < n
        invariant
            i <= n,
            market.wf(),
            s == market.collection_bids.entry_seq(),
            n == idxs@.len(),
            out@.len() == i,
            idxs@.len() <= lim,
            forall|p: int|
                0 <= p < n ==> #[trigger] idxs@[p] < s.len() && scan_matches(
                    s[idxs@[p] as int].0,
                    nft_contract_address@,
                    opt_str_view(None::<&String>),
                    opt_str_view(start_after),
                ),
            forall|p: int, q: int| 0 <= p < q < n ==> #[trigger] idxs@[p] < #[trigger] idxs@[q],
            forall|j: int|
                0 <= j < s.len() && scan_matches(
                    (#[trigger] s[j]).0,
                    nft_contract_address@,
                    opt_str_view(None::<&String>),
                    opt_str_view(start_after),
                ) ==> (exists|p: int| 0 <= p < n && idxs@[p] == j) || (n == lim && forall|p: int|
                    0 <= p < n ==> #[trigger] idxs@[p] < j),
            forall|p: int|
                0 <= p < i ==> (#[trigger] out@[p]).0@ == s[idxs@[p] as int].0.1 && out@[p].1@
                    == s[idxs@[p] as int].1,
        decreases n - i,
    {
        let idx = idxs[i];
        let (key, entity) = market.collection_bids.entry_at(idx);
        out.push((key.b.clone(), entity.duplicate()));
        i += 1;
    }
    let r = GetPaginatedCollectionBidsResponse { collection_bids: out };
    proof {
        let page = group_page_view(r.collection_bids@);
        assert(forall|p: int|
            0 <= p < page.len() ==> (#[trigger] page[p]).0 == out@[p].0@ && page[p].1
                == out@[p].1@);
        assert(opt_str_view(None::<&String>) == None::<Seq<char>>);
        lemma_assemble_group_page(
            market,
            idxs@,
            page,
            nft_contract_address@,
            opt_str_view(start_after),
            (match limit {
                Some(l) => l,
                None => DEFAULT_QUERY_LIMIT,
            }) as int,
        );
    }
    r
}

} // verus!
