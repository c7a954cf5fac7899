//! Address-keyed lookup tables.
//!
//! Custody records, resolved prices and derived borrow rates are kept as
//! immutable association lists built once per scan.  Lookups return the
//! first entry whose key equals the queried byte string; the spec-level
//! `tab_index` pins that "first match wins" rule exactly.

use vstd::prelude::*;
use crate::model::{CustodyQuote, MintPrice, RateEntry, Custody};

verus! {

/// Index of the first entry of `tab` whose key equals `key`.
pub open spec fn tab_index<T>(tab: Seq<(Seq<u8>, T)>, key: Seq<u8>) -> Option<int>
    decreases tab.len(),
{
    if tab.len() == 0 {
        None
    } else if tab[0].0 == key {
        Some(0int)
    } else {
        match tab_index(tab.skip(1), key) {
            None => None,
            Some(i) => Some(i + 1),
        }
    }
}

/// Value of the first entry of `tab` whose key equals `key`.
pub open spec fn tab_lookup<T>(tab: Seq<(Seq<u8>, T)>, key: Seq<u8>) -> Option<T> {
    match tab_index(tab, key) {
        None => None,
        Some(i) => Some(tab[i].1),
    }
}

/// Splitting off a matchless prefix shifts the found index.
pub proof fn lemma_tab_index_skip<T>(tab: Seq<(Seq<u8>, T)>, key: Seq<u8>, n: int)
    requires
        0 <= n <= tab.len(),
        forall|j: int| 0 <= j < n ==> tab[j].0 != key,
    ensures
        tab_index(tab, key) == match tab_index(tab.skip(n), key) {
            None => None::<int>,
            Some(i) => Some(i + n),
        },
    decreases n,
{
    if n == 0 {
        assert(tab.skip(0) =~= tab);
    } else {
        assert(tab.skip(1).skip(n - 1) =~= tab.skip(n));
        assert forall|j: int| 0 <= j < n - 1 implies tab.skip(1)[j].0 != key by {
            assert(tab.skip(1)[j] == tab[j + 1]);
        }
        lemma_tab_index_skip(tab.skip(1), key, n - 1);
    }
}

/// The custody table seen as an association list from address to record.
pub open spec fn quotes_view(s: Seq<CustodyQuote>) -> Seq<(Seq<u8>, Custody)> {
    Seq::new(s.len(), |i: int| (s[i].address@, s[i].custody))
}

/// The price table seen as an association list from mint to price.
pub open spec fn prices_view(s: Seq<MintPrice>) -> Seq<(Seq<u8>, u64)> {
    Seq::new(s.len(), |i: int| (s[i].mint@, s[i].price))
}

/// The rate table seen as an association list from address to rate.
pub open spec fn rates_view(s: Seq<RateEntry>) -> Seq<(Seq<u8>, u128)> {
    Seq::new(s.len(), |i: int| (s[i].address@, s[i].rate))
}

/// Copy a byte string.
pub fn clone_bytes(v: &Vec<u8>) -> (r: Vec<u8>)
    ensures
        r@ == v@,
{
    let n: usize = v.len();
    let mut r: Vec<u8> = Vec::new();
    let mut i: usize = 0;
    while i < n
        invariant
            i <= n,
            n == v@.len(),
            r@ =~= v@.subrange(0, i as int),
        decreases n - i,
    {
        r.push(v[i]);
        i = i + 1;
    }
    proof {
        assert(r@ =~= v@);
    }
    r
}

/// Byte-string equality.
pub fn bytes_eq(a: &Vec<u8>, b: &Vec<u8>) -> (r: bool)
    ensures
        r == (a@ == b@),
{
    if a.len() != b.len() {
        return false;
    }
    let n: usize = a.len();
    let mut i: usize = 0;
    while i < n
        invariant
            i <= n,
            n == a@.len(),
            n == b@.len(),
            forall|j: int| 0 <= j < i ==> a@[j] == b@[j],
        decreases n - i,
    {
        if a[i] != b[i] {
            return false;
        }
        i = i + 1;
    }
    proof {
        assert(a@ =~= b@);
    }
    true
}

/// Index of the first custody quote at the given address.
pub fn find_custody(quotes: &Vec<CustodyQuote>, key: &Vec<u8>) -> (r: Option<usize>)
    ensures
        match r {
            Some(i) => i < quotes@.len() && tab_index(quotes_view(quotes@), key@) == Some(i as int),
            None => tab_index(quotes_view(quotes@), key@) is None,
        },
{
    let ghost tab: Seq<(Seq<u8>, Custody)> = quotes_view(quotes@);
    let n: usize = quotes.len();
    let mut i: usize = 0;
    while i < n
        invariant
            i <= n,
            n == quotes@.len(),
            tab == quotes_view(quotes@),
            forall|j: int| 0 <= j < i ==> tab[j].0 != key@,
        decreases n - i,
    {
        if bytes_eq(&quotes[i].address, key) {
            proof {
                lemma_tab_index_skip(tab, key@, i as int);
                assert(tab.skip(i as int)[0] == tab[i as int]);
            }
            return Some(i);
        }
        i = i + 1;
    }
    proof {
        lemma_tab_index_skip(tab, key@, n as int);
        assert(tab.skip(n as int) =~= Seq::<(Seq<u8>, Custody)>::empty());
    }
    None
}

/// Index of the first price entry for the given mint.
pub fn find_price(prices: &Vec<MintPrice>, key: &Vec<u8>) -> (r: Option<usize>)
    ensures
        match r {
            Some(i) => i < prices@.len() && tab_index(prices_view(prices@), key@) == Some(i as int),
            None => tab_index(prices_view(prices@), key@) is None,
        },
{
    let ghost tab: Seq<(Seq<u8>, u64)> = prices_view(prices@);
    let n: usize = prices.len();
    let mut i: usize = 0;
    while i < n
        invariant
            i <= n,
            n == prices@.len(),
            tab == prices_view(prices@),
            forall|j: int| 0 <= j < i ==> tab[j].0 != key@,
        decreases n - i,
    {
        if bytes_eq(&prices[i].mint, key) {
            proof {
                lemma_tab_index_skip(tab, key@, i as int);
                assert(tab.skip(i as int)[0] == tab[i as int]);
            }
            return Some(i);
        }
        i = i + 1;
    }
    proof {
        lemma_tab_index_skip(tab, key@, n as int);
        assert(tab.skip(n as int) =~= Seq::<(Seq<u8>, u64)>::empty());
    }
    None
}

/// Index of the first rate entry at the given address.
pub fn find_rate(rates: &Vec<RateEntry>, key: &Vec<u8>) -> (r: Option<usize>)
    ensures
        match r {
            Some(i) => i < rates@.len() && tab_index(rates_view(rates@), key@) == Some(i as int),
            None => tab_index(rates_view(rates@), key@) is None,
        },
{
    let ghost tab: Seq<(Seq<u8>, u128)> = rates_view(rates@);
    let n: usize = rates.len();
    let mut i: usize = 0;
    while i < n
        invariant
            i <= n,
            n == rates@.len(),
            tab == rates_view(rates@),
            forall|j: int| 0 <= j < i ==> tab[j].0 != key@,
        decreases n - i,
    {
        if bytes_eq(&rates[i].address, key) {
            proof {
                lemma_tab_index_skip(tab, key@, i as int);
                assert(tab.skip(i as int)[0] == tab[i as int]);
            }
            return Some(i);
        }
        i = i + 1;
    }
    proof {
        lemma_tab_index_skip(tab, key@, n as int);
        assert(tab.skip(n as int) =~= Seq::<(Seq<u8>, u128)>::empty());
    }
    None
}

} // verus!
