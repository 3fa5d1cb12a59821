//! The cursor-following retrieval strategy: pages are fetched one after
//! another until the stopping logic fires. `MultiPage::retrieve` runs the
//! whole crawl against a sequence of already fetched-and-parsed pages (the
//! model of a source serving pages in fetch order); a caller that has to
//! interleave real fetches drives `CrawlState::crawl_step` itself and
//! reaches the same states.

use vstd::prelude::*;
use crate::dates::{date_lt, Date};
use crate::dto::Breach;
use super::{
    keep_recent, overlap_hit, page_continues, page_inc, CrawlState, PageIncrementer,
    RetrieverOptions,
};

verus! {

/// Every record of every page, in fetch order.
pub open spec fn all_records(pages: Seq<(Vec<Breach>, Option<String>)>) -> Seq<Breach>
    decreases pages.len(),
{
    if pages.len() == 0 {
        Seq::<Breach>::empty()
    } else {
        pages[0].0@ + all_records(pages.skip(1))
    }
}

/// What a whole cursor-following crawl collects, page by page: the
/// functional mirror of `CrawlState::crawl_step` run to the stopping
/// point. `collected` and `had_token` carry the crawl so far.
pub open spec fn spec_crawl(
    pages: Seq<(Vec<Breach>, Option<String>)>,
    cutoff: Date,
    collected: Seq<Breach>,
    had_token: bool,
) -> Seq<Breach>
    decreases pages.len(),
{
    if pages.len() == 0 {
        collected
    } else {
        let recs = pages[0].0@;
        let tok = pages[0].1;
        if overlap_hit(collected, recs) {
            collected
        } else {
            let collected1 = collected + keep_recent(recs, cutoff);
            let exhausted = tok is None && had_token;
            if !page_continues(recs, cutoff) || exhausted {
                collected1
            } else {
                spec_crawl(pages.skip(1), cutoff, collected1, had_token || tok is Some)
            }
        }
    }
}

/// Retrieval strategy for sources that paginate.
pub struct MultiPage {}

impl MultiPage {
    /// Runs the crawl over the pages a source serves, in fetch order,
    /// and collects the records more recent than the cutoff until the
    /// stopping logic fires.
    pub fn retrieve(
        &self,
        pages: Vec<(Vec<Breach>, Option<String>)>,
        options: &RetrieverOptions,
        incrementer: &PageIncrementer,
    ) -> (r: Vec<Breach>)
        requires
            pages@.len() <= 1000000,
        ensures
            r@ == spec_crawl(pages@, options.collect_until, Seq::<Breach>::empty(), false),
    {
        let ghost all = pages@;
        let ghost cutoff = options.collect_until;
        let mut rest = pages;
        let mut st = CrawlState::new();
        let total: usize = rest.len();
        let mut fetched: usize = 0;
        proof {
            assert(all.skip(0) =~= all);
        }
        while !st.done && fetched < total
            invariant
                cutoff == options.collect_until,
                total == all.len() <= 1000000,
                fetched <= total,
                rest@ == all.skip(fetched as int),
                0 <= st.page <= 30 * fetched,
                !st.done ==> spec_crawl(all, cutoff, Seq::<Breach>::empty(), false) == spec_crawl(
                    all.skip(fetched as int),
                    cutoff,
                    st.collected@,
                    st.token is Some,
                ),
                st.done ==> spec_crawl(all, cutoff, Seq::<Breach>::empty(), false)
                    == st.collected@,
            decreases total - fetched,
        {
            let (records, token) = rest.remove(0);
            let ghost recs = records@;
            let ghost tok_in = token;
            let ghost pre = st;
            proof {
                assert(all.skip(fetched as int)[0] == all[fetched as int]);
                assert(rest@ =~= all.skip(fetched as int).skip(1));
                assert(all.skip(fetched as int).skip(1) =~= all.skip(fetched + 1 as int));
            }
            st.crawl_step(records, token, options, incrementer);
            proof {
                let ov = overlap_hit(pre.collected@, recs);
                let cont = page_continues(recs, cutoff);
                let exhausted = tok_in is None && pre.token is Some;
                if ov {
                    assert(spec_crawl(
                        all.skip(fetched as int),
                        cutoff,
                        pre.collected@,
                        pre.token is Some,
                    ) == pre.collected@);
                } else if !cont || exhausted {
                    assert(spec_crawl(
                        all.skip(fetched as int),
                        cutoff,
                        pre.collected@,
                        pre.token is Some,
                    ) == pre.collected@ + keep_recent(recs, cutoff));
                } else {
                    assert(spec_crawl(
                        all.skip(fetched as int),
                        cutoff,
                        pre.collected@,
                        pre.token is Some,
                    ) == spec_crawl(
                        all.skip(fetched + 1 as int),
                        cutoff,
                        pre.collected@ + keep_recent(recs, cutoff),
                        pre.token is Some || tok_in is Some,
                    ));
                    assert(st.token is Some <==> (pre.token is Some || tok_in is Some));
                }
            }
            fetched = fetched + 1;
        }
        proof {
            if !st.done {
                assert(all.skip(fetched as int).len() == 0);
                assert(spec_crawl(
                    all.skip(fetched as int),
                    cutoff,
                    st.collected@,
                    st.token is Some,
                ) == st.collected@);
            }
        }
        st.collected
    }
}

/// Records are globally ordered from most to least recent.
pub open spec fn strictly_decreasing(rs: Seq<Breach>) -> bool {
    forall|i: int, j: int|
        0 <= i < j < rs.len() ==> date_lt(
            (#[trigger] rs[j]).date_reported,
            (#[trigger] rs[i]).date_reported,
        )
}

/// Filtering by cutoff distributes over concatenation.
proof fn lemma_keep_concat(a: Seq<Breach>, b: Seq<Breach>, cutoff: Date)
    ensures
        keep_recent(a + b, cutoff) == keep_recent(a, cutoff) + keep_recent(b, cutoff),
    decreases b.len(),
{
    if b.len() == 0 {
        assert(a + b =~= a);
        assert(keep_recent(b, cutoff) == Seq::<Breach>::empty());
        assert(keep_recent(a, cutoff) + keep_recent(b, cutoff) =~= keep_recent(a, cutoff));
    } else {
        lemma_keep_concat(a, b.drop_last(), cutoff);
        assert((a + b).drop_last() =~= a + b.drop_last());
        assert((a + b).last() == b.last());
        if date_lt(cutoff, b.last().date_reported) {
            assert(keep_recent(a + b, cutoff) == (keep_recent(a, cutoff) + keep_recent(
                b.drop_last(),
                cutoff,
            )).push(b.last()));
            assert((keep_recent(a, cutoff) + keep_recent(b.drop_last(), cutoff)).push(b.last())
                =~= keep_recent(a, cutoff) + keep_recent(b.drop_last(), cutoff).push(b.last()));
        }
    }
}

/// A sequence of records none of which is after the cutoff filters to
/// nothing.
proof fn lemma_keep_all_old(rs: Seq<Breach>, cutoff: Date)
    requires
        forall|i: int|
            0 <= i < rs.len() ==> !date_lt(cutoff, (#[trigger] rs[i]).date_reported),
    ensures
        keep_recent(rs, cutoff) == Seq::<Breach>::empty(),
    decreases rs.len(),
{
    if rs.len() > 0 {
        assert(forall|i: int|
            0 <= i < rs.drop_last().len() ==> #[trigger] rs.drop_last()[i] == rs[i]);
        lemma_keep_all_old(rs.drop_last(), cutoff);
    }
}

/// A sequence of records all after the cutoff filters to itself.
proof fn lemma_keep_all_new(rs: Seq<Breach>, cutoff: Date)
    requires
        forall|i: int| 0 <= i < rs.len() ==> date_lt(cutoff, (#[trigger] rs[i]).date_reported),
    ensures
        keep_recent(rs, cutoff) == rs,
    decreases rs.len(),
{
    if rs.len() > 0 {
        assert(forall|i: int|
            0 <= i < rs.drop_last().len() ==> #[trigger] rs.drop_last()[i] == rs[i]);
        lemma_keep_all_new(rs.drop_last(), cutoff);
        assert(keep_recent(rs, cutoff) == rs.drop_last().push(rs.last()));
        assert(rs.drop_last().push(rs.last()) =~= rs);
    }
}

/// Everything the filter keeps was in the sequence.
proof fn lemma_keep_subset(rs: Seq<Breach>, cutoff: Date)
    ensures
        forall|k: int|
            0 <= k < keep_recent(rs, cutoff).len() ==> rs.contains(
                #[trigger] keep_recent(rs, cutoff)[k],
            ),
    decreases rs.len(),
{
    if rs.len() > 0 {
        lemma_keep_subset(rs.drop_last(), cutoff);
        let prev = keep_recent(rs.drop_last(), cutoff);
        assert forall|k: int|
            0 <= k < keep_recent(rs, cutoff).len() implies rs.contains(
            #[trigger] keep_recent(rs, cutoff)[k],
        ) by {
            if k < prev.len() {
                assert(rs.drop_last().contains(prev[k]));
                let w = choose|w: int| 0 <= w < rs.drop_last().len() && rs.drop_last()[w] == prev[k];
                assert(rs[w] == prev[k]);
            } else {
                assert(keep_recent(rs, cutoff)[k] == rs.last());
                assert(rs[rs.len() - 1] == rs.last());
            }
        }
    }
}

/// Pagination cutoff: over a source whose pages carry strictly
/// decreasing reported dates — tokens either always present or never,
/// and only a terminal page empty — the crawl collects exactly the
/// records more recent than the cutoff, however the pages are cut.
/// `collected` and `had_token` carry a crawl prefix whose records are all
/// more recent than everything still to come.
pub proof fn lemma_crawl_cutoff(
    pages: Seq<(Vec<Breach>, Option<String>)>,
    cutoff: Date,
    collected: Seq<Breach>,
    had_token: bool,
)
    requires
        strictly_decreasing(all_records(pages)),
        collected.len() > 0 ==> forall|i: int|
            0 <= i < all_records(pages).len() ==> date_lt(
                (#[trigger] all_records(pages)[i]).date_reported,
                collected.last().date_reported,
            ),
        (forall|i: int| 0 <= i < pages.len() ==> (#[trigger] pages[i]).1 is Some) || (!had_token
            && forall|i: int| 0 <= i < pages.len() ==> (#[trigger] pages[i]).1 is None),
        forall|i: int| 0 <= i < pages.len() - 1 ==> (#[trigger] pages[i]).0@.len() > 0,
    ensures
        spec_crawl(pages, cutoff, collected, had_token) == collected + keep_recent(
            all_records(pages),
            cutoff,
        ),
    decreases pages.len(),
{
    if pages.len() == 0 {
        assert(keep_recent(all_records(pages), cutoff) == Seq::<Breach>::empty());
        assert(collected + keep_recent(all_records(pages), cutoff) =~= collected);
    } else {
        let recs = pages[0].0@;
        let tok = pages[0].1;
        let rest = all_records(pages.skip(1));
        let all = all_records(pages);
        assert(all == recs + rest);
        assert(forall|i: int| 0 <= i < recs.len() ==> all[i] == #[trigger] recs[i]);
        assert(forall|j: int| 0 <= j < rest.len() ==> all[recs.len() + j] == #[trigger] rest[j]);
        lemma_keep_concat(recs, rest, cutoff);
        // The stall guard cannot fire: the last collected record is
        // strictly more recent than anything on this page.
        if overlap_hit(collected, recs) {
            assert(date_lt(all[recs.len() - 1].date_reported, collected.last().date_reported));
            assert(recs.last() == all[recs.len() - 1]);
            assert(false);
        }
        let collected1 = collected + keep_recent(recs, cutoff);
        let exhausted = tok is None && had_token;
        if had_token {
            assert(pages[0].1 is Some);
        }
        assert(!exhausted);
        if !page_continues(recs, cutoff) {
            if recs.len() == 0 {
                assert(pages.len() == 1);
                assert(pages.skip(1).len() == 0);
                assert(rest.len() == 0);
                assert(keep_recent(rest, cutoff) == Seq::<Breach>::empty());
            } else {
                assert(!date_lt(cutoff, recs.last().date_reported));
                assert forall|j: int| 0 <= j < rest.len() implies !date_lt(
                    cutoff,
                    (#[trigger] rest[j]).date_reported,
                ) by {
                    assert(all[recs.len() - 1] == recs.last());
                    assert(all[recs.len() + j] == rest[j]);
                    assert(date_lt(rest[j].date_reported, recs.last().date_reported));
                }
                lemma_keep_all_old(rest, cutoff);
            }
            assert(keep_recent(all, cutoff) =~= keep_recent(recs, cutoff));
        } else {
            // Recurse over the remaining pages.
            assert(recs.len() > 0);
            assert(keep_recent(recs, cutoff).len() > 0) by {
                assert(date_lt(cutoff, recs.last().date_reported));
                if recs.len() == 1 {
                    assert(keep_recent(recs, cutoff) == keep_recent(recs.drop_last(), cutoff).push(
                        recs.last(),
                    ));
                } else {
                    assert(keep_recent(recs, cutoff) == keep_recent(recs.drop_last(), cutoff).push(
                        recs.last(),
                    ));
                }
            }
            assert(strictly_decreasing(rest)) by {
                assert forall|i: int, j: int| 0 <= i < j < rest.len() implies date_lt(
                    (#[trigger] rest[j]).date_reported,
                    (#[trigger] rest[i]).date_reported,
                ) by {
                    assert(all[recs.len() + i] == rest[i]);
                    assert(all[recs.len() + j] == rest[j]);
                }
            }
            lemma_keep_subset(recs, cutoff);
            let lastk = keep_recent(recs, cutoff).last();
            assert(recs.contains(lastk));
            let w = choose|w: int| 0 <= w < recs.len() && recs[w] == lastk;
            assert(collected1.last() == lastk);
            assert forall|j: int| 0 <= j < rest.len() implies date_lt(
                (#[trigger] rest[j]).date_reported,
                collected1.last().date_reported,
            ) by {
                assert(all[w] == recs[w]);
                assert(all[recs.len() + j] == rest[j]);
            }
            assert(forall|i: int|
                0 <= i < pages.skip(1).len() ==> #[trigger] pages.skip(1)[i] == pages[i + 1]);
            lemma_crawl_cutoff(pages.skip(1), cutoff, collected1, had_token || tok is Some);
            assert(spec_crawl(pages, cutoff, collected, had_token) == collected1 + keep_recent(
                rest,
                cutoff,
            ));
            assert(collected1 + keep_recent(rest, cutoff) =~= collected + (keep_recent(
                recs,
                cutoff,
            ) + keep_recent(rest, cutoff)));
        }
    }
}

/// Pagination cutoff for a whole crawl from its start: the result is
/// exactly the records more recent than the cutoff.
pub proof fn lemma_pagination_cutoff(pages: Seq<(Vec<Breach>, Option<String>)>, cutoff: Date)
    requires
        strictly_decreasing(all_records(pages)),
        (forall|i: int| 0 <= i < pages.len() ==> (#[trigger] pages[i]).1 is Some) || (forall|i: int|
            0 <= i < pages.len() ==> (#[trigger] pages[i]).1 is None),
        forall|i: int| 0 <= i < pages.len() - 1 ==> (#[trigger] pages[i]).0@.len() > 0,
    ensures
        spec_crawl(pages, cutoff, Seq::<Breach>::empty(), false) == keep_recent(
            all_records(pages),
            cutoff,
        ),
{
    lemma_crawl_cutoff(pages, cutoff, Seq::<Breach>::empty(), false);
    assert(Seq::<Breach>::empty() + keep_recent(all_records(pages), cutoff) =~= keep_recent(
        all_records(pages),
        cutoff,
    ));
}

/// Overlap safety net: a source that serves the same terminal page twice
/// in a row produces exactly one copy of that page's records — the stall
/// guard stops the crawl before the repeat is appended.
pub proof fn lemma_overlap_safety(p: (Vec<Breach>, Option<String>), cutoff: Date)
    requires
        p.0@.len() > 0,
        forall|i: int| 0 <= i < p.0@.len() ==> date_lt(cutoff, (#[trigger] p.0@[i]).date_reported),
    ensures
        spec_crawl(seq![p, p], cutoff, Seq::<Breach>::empty(), false) == p.0@,
{
    let pages = seq![p, p];
    let recs = p.0@;
    assert(pages[0] == p);
    assert(!overlap_hit(Seq::<Breach>::empty(), recs));
    lemma_keep_all_new(recs, cutoff);
    let collected1 = Seq::<Breach>::empty() + keep_recent(recs, cutoff);
    assert(collected1 =~= recs);
    assert(page_continues(recs, cutoff)) by {
        assert(date_lt(cutoff, recs[recs.len() - 1].date_reported));
    }
    assert(pages.skip(1) =~= seq![p]);
    assert(seq![p][0] == p);
    assert(overlap_hit(recs, recs));
    assert(spec_crawl(seq![p], cutoff, collected1, p.1 is Some) == collected1);
    assert(spec_crawl(pages, cutoff, Seq::<Breach>::empty(), false) == spec_crawl(
        pages.skip(1),
        cutoff,
        collected1,
        p.1 is Some,
    ));
}

} // verus!
