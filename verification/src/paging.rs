//! Fetching every page of a search: which page to ask for next, and how the
//! pages add up to the whole result.
use vstd::prelude::*;

use crate::json::{elems_view, Json, JsonV};

verus! {

/// The most records one request asks for.
pub const PAGE_SIZE: u64 = 300;

/// The smaller of two integers.
pub open spec fn min_int(a: int, b: int) -> int {
    if a <= b {
        a
    } else {
        b
    }
}

/// The last page came back with fewer records than it asked for.
pub open spec fn short_page(last: Option<(nat, nat)>) -> bool {
    match last {
        Some(page) => page.1 < page.0,
        None => false,
    }
}

/// The next request of a search that starts at `offset` and wants at most
/// `limit` records (all of them where there is no limit), after `fetched`
/// records have come back and the last page asked for `last.0` records and
/// got `last.1`. A short page ends the search, and so does reaching the
/// limit; otherwise the next page starts after the records so far and asks
/// for at most `PAGE_SIZE` of the records still wanted.
pub open spec fn next_request(limit: Option<u64>, offset: u64, fetched: nat, last: Option<(nat, nat)>) -> Option<
    (int, int),
> {
    if short_page(last) {
        None
    } else {
        match limit {
            Some(l) => if fetched >= l {
                None
            } else {
                Some((offset + fetched, min_int(PAGE_SIZE as int, l - fetched)))
            },
            None => Some((offset + fetched, PAGE_SIZE as int)),
        }
    }
}

/// Decides the next page of a search: its offset and its size, or `None`
/// when every wanted record has come back.
pub fn next_page(limit: Option<u64>, offset: u64, fetched: u64, last: Option<(u64, u64)>) -> (r: Option<
    (u64, u64),
>)
    requires
        offset + fetched <= u64::MAX,
    ensures
        match next_request(
            limit,
            offset,
            fetched as nat,
            match last {
                Some((a, g)) => Some((a as nat, g as nat)),
                None => None,
            },
        ) {
            None => r is None,
            Some((o, n)) => r matches Some((ro, rn)) && ro == o && rn == n,
        },
{
    match last {
        Some((asked, got)) => {
            if got < asked {
                return None;
            }
        },
        None => {},
    }
    match limit {
        Some(l) => {
            if fetched >= l {
                None
            } else {
                let remaining = l - fetched;
                let size = if remaining < PAGE_SIZE {
                    remaining
                } else {
                    PAGE_SIZE
                };
                Some((offset + fetched, size))
            }
        },
        None => Some((offset + fetched, PAGE_SIZE)),
    }
}

/// The records a server holding `all` (in the search's order) returns for a
/// page at `off` of `size` records.
pub open spec fn page_of<A>(all: Seq<A>, off: int, size: int) -> Seq<A> {
    all.subrange(min_int(off, all.len() as int), min_int(off + size, all.len() as int))
}

/// What is left to fetch, as a termination measure.
pub open spec fn left_to_fetch(len: nat, offset: u64, fetched: nat) -> nat {
    if offset + fetched < len {
        (len - offset - fetched) as nat
    } else {
        0
    }
}

/// Whether the last page was full (or there was none yet).
pub open spec fn open_page(last: Option<(nat, nat)>) -> nat {
    if short_page(last) {
        0
    } else {
        1
    }
}

/// The records a paginated search collects from a server holding `all`:
/// each page as `next_request` asks for it, in order, until it stops.
pub open spec fn fetch_all<A>(
    all: Seq<A>,
    limit: Option<u64>,
    offset: u64,
    fetched: nat,
    last: Option<(nat, nat)>,
) -> Seq<A>
    decreases left_to_fetch(all.len(), offset, fetched), open_page(last),
{
    match next_request(limit, offset, fetched, last) {
        None => Seq::empty(),
        Some((o, n)) => {
            let p = page_of(all, o, n);
            p + fetch_all(all, limit, offset, fetched + p.len(), Some((n as nat, p.len())))
        },
    }
}

/// The records a search that starts at `offset` and wants at most `limit`
/// records is owed: those from `offset` on, at most `limit` of them.
pub open spec fn wanted<A>(all: Seq<A>, limit: Option<u64>, offset: u64) -> Seq<A> {
    let len = all.len() as int;
    all.subrange(
        min_int(offset as int, len),
        match limit {
            Some(l) => min_int(offset + l, len),
            None => len,
        },
    )
}

proof fn lemma_fetch_rest<A>(
    all: Seq<A>,
    limit: Option<u64>,
    offset: u64,
    fetched: nat,
    last: Option<(nat, nat)>,
)
    requires
        (last is None && fetched == 0) || (last is Some && !short_page(last) && offset + fetched
            <= all.len()),
        limit matches Some(l) ==> fetched <= l,
    ensures
        fetch_all(all, limit, offset, fetched, last) == all.subrange(
            min_int(offset + fetched, all.len() as int),
            match limit {
                Some(l) => min_int(offset + l, all.len() as int),
                None => all.len() as int,
            },
        ),
    decreases left_to_fetch(all.len(), offset, fetched), open_page(last),
{
    let len = all.len() as int;
    let end = match limit {
        Some(l) => min_int(offset + l, len),
        None => len,
    };
    match next_request(limit, offset, fetched, last) {
        None => {
            assert(all.subrange(min_int(offset + fetched, len), end) =~= Seq::<A>::empty());
        },
        Some((o, n)) => {
            let p = page_of(all, o, n);
            let next = Some((n as nat, p.len()));
            if p.len() == n {
                lemma_fetch_rest(all, limit, offset, fetched + p.len(), next);
                assert(all.subrange(min_int(offset + fetched, len), end) =~= p + all.subrange(
                    min_int(offset + fetched + p.len(), len),
                    end,
                ));
            } else {
                assert(next_request(limit, offset, fetched + p.len(), next) is None);
                assert(fetch_all(all, limit, offset, fetched + p.len(), next) =~= Seq::<A>::empty());
                assert(p + Seq::<A>::empty() =~= p);
                assert(p =~= all.subrange(min_int(offset + fetched, len), end));
            }
        },
    }
}

/// Together the pages give every record the search is owed, in order: the
/// records from `offset` on, at most `limit` of them (all where no limit is
/// given); and no request asks for more than `PAGE_SIZE` records.
pub proof fn law_pages_give_every_record<A>(
    all: Seq<A>,
    limit: Option<u64>,
    offset: u64,
    fetched: nat,
    last: Option<(nat, nat)>,
)
    ensures
        fetch_all(all, limit, offset, 0, None) == wanted(all, limit, offset),
        next_request(limit, offset, fetched, last) matches Some((o, n)) ==> 1 <= n <= PAGE_SIZE
            && o == offset + fetched,
{
    lemma_fetch_rest(all, limit, offset, 0, None);
}

/// Adds the records of a page to those fetched so far and gives their
/// number; a reply that is not an array is handed back, and the records
/// stay as they are.
pub fn add_page(records: &mut Vec<Json>, page: Json) -> (r: Result<u64, Json>)
    ensures
        match page@ {
            JsonV::Array(items) => r == Ok::<u64, Json>(items.len() as u64) && elems_view(
                final(records)@,
            ) == elems_view(old(records)@) + items,
            _ => (r matches Err(p) && p@ == page@) && final(records)@ == old(records)@,
        },
{
    match page {
        Json::Array(items) => {
            proof {
                crate::json::lemma_array_view(items);
            }
            let n = items.len();
            let ghost before = elems_view(records@);
            let ghost added = elems_view(items@);
            let mut items = items;
            records.append(&mut items);
            proof {
                assert(elems_view(records@) =~= before + added);
            }
            Ok(n as u64)
        },
        other => Err(other),
    }
}

} // verus!
