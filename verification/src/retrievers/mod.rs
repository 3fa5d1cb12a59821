//! The pagination controller. A retrieval strategy decides how many pages
//! to fetch from a source and when to stop; the fetching itself is outside
//! work, so the controller is a state machine: the caller fetches and
//! parses one page at a time and hands the result to `CrawlState::crawl_step`,
//! which accumulates records and decides whether another page is wanted.

pub mod multi_page;
pub mod single_page;
pub mod ca;
pub mod or;

use vstd::prelude::*;
use vstd::string::StringExecFns;
use crate::dates::{date_lt, Date};
use crate::dto::{opt_str_view, Breach, State};
use crate::text::{chars_to_string, dec_digits, int_to_chars, to_chars};

verus! {

/// How a source is asked for a page.
#[derive(Clone, Copy, PartialEq, Eq, Structural, Debug)]
pub enum WebRequestType {
    Post,
    Get,
}

/// One source's crawl configuration.
pub struct RetrieverOptions {
    /// Stop once a page's oldest record is not after this date.
    pub collect_until: Date,
    /// The URL every page request is derived from.
    pub base_url: String,
    /// Plain header name/value pairs the source wants.
    pub headers: Vec<(String, String)>,
    /// The jurisdiction being crawled.
    pub state: State,
    /// GET or POST.
    pub request_type: WebRequestType,
}

/// How the numeric page index advances between fetches.
#[derive(Clone, Copy, PartialEq, Eq, Structural, Debug)]
pub enum PageIncrementer {
    /// The next page index, one at a time.
    ByOne,
    /// Always page zero: the source has a single page.
    ToZero,
    /// Thirty rows per page, addressed by row offset.
    ByThirty,
}

/// The page index after one more fetch.
pub open spec fn page_inc(inc: PageIncrementer, page: int) -> int {
    match inc {
        PageIncrementer::ByOne => page + 1,
        PageIncrementer::ToZero => 0,
        PageIncrementer::ByThirty => page + 30,
    }
}

impl PageIncrementer {
    /// Advances the page index.
    pub fn increment(&self, page: i32) -> (r: i32)
        requires
            0 <= page <= i32::MAX - 30,
        ensures
            r as int == page_inc(*self, page as int),
    {
        match self {
            PageIncrementer::ByOne => page + 1,
            PageIncrementer::ToZero => 0,
            PageIncrementer::ByThirty => page + 30,
        }
    }
}

/// How a page request URL is derived from the base URL and the page part.
#[derive(Clone, Copy, PartialEq, Eq, Structural, Debug)]
pub enum UrlGenerator {
    /// The page part is appended to the base URL.
    AppendPage,
    /// The base URL alone, whatever the page part.
    BaseOnly,
    /// The page part is appended unless it is the first page.
    AppendPageSkipZero,
}

/// The URL text a generator produces.
pub open spec fn gen_url(g: UrlGenerator, base: Seq<char>, page: Seq<char>) -> Seq<char> {
    match g {
        UrlGenerator::AppendPage => base + page,
        UrlGenerator::BaseOnly => base,
        UrlGenerator::AppendPageSkipZero => {
            if page == "0"@ {
                base
            } else {
                base + page
            }
        },
    }
}

impl UrlGenerator {
    /// Builds the URL for one page request.
    pub fn generate(&self, base_url: &str, page: &str) -> (r: String)
        ensures
            r@ == gen_url(*self, base_url@, page@),
    {
        match self {
            UrlGenerator::AppendPage => {
                let mut url = String::from_str(base_url);
                url.append(page);
                url
            },
            UrlGenerator::BaseOnly => String::from_str(base_url),
            UrlGenerator::AppendPageSkipZero => {
                let zero = to_chars("0");
                let pg = to_chars(page);
                if crate::text::chars_eq(&pg, &zero) {
                    String::from_str(base_url)
                } else {
                    let mut url = String::from_str(base_url);
                    url.append(page);
                    url
                }
            },
        }
    }
}

/// The records of `rs` more recent than the cutoff, in order.
pub open spec fn keep_recent(rs: Seq<Breach>, cutoff: Date) -> Seq<Breach>
    decreases rs.len(),
{
    if rs.len() == 0 {
        Seq::<Breach>::empty()
    } else {
        let rest = keep_recent(rs.drop_last(), cutoff);
        if date_lt(cutoff, rs.last().date_reported) {
            rest.push(rs.last())
        } else {
            rest
        }
    }
}

/// The stall guard: the page just parsed ends in the record the crawl
/// collected last, compared by organization, reported date and link.
pub open spec fn overlap_hit(collected: Seq<Breach>, recs: Seq<Breach>) -> bool {
    collected.len() > 0 && recs.len() > 0 && {
        let a = collected.last();
        let b = recs.last();
        a.organization_name@ == b.organization_name@ && a.date_reported == b.date_reported
            && opt_str_view(a.link) == opt_str_view(b.link)
    }
}

/// Another page is worth fetching: this one had records and even its
/// oldest (last) record is more recent than the cutoff.
pub open spec fn page_continues(recs: Seq<Breach>, cutoff: Date) -> bool {
    recs.len() > 0 && date_lt(cutoff, recs.last().date_reported)
}

/// The crawl of one source: what was collected so far, the numeric page
/// index, the continuation token the source handed back last, and whether
/// the stopping logic has fired.
pub struct CrawlState {
    pub collected: Vec<Breach>,
    pub page: i32,
    pub token: Option<String>,
    pub done: bool,
}

impl CrawlState {
    /// The crawl before the first fetch.
    pub fn new() -> (r: CrawlState)
        ensures
            r.collected@ == Seq::<Breach>::empty(),
            r.page == 0,
            r.token is None,
            !r.done,
    {
        CrawlState { collected: Vec::new(), page: 0, token: None, done: false }
    }

    /// Feeds one fetched and parsed page into the crawl: keeps the page's
    /// records that are more recent than the cutoff, advances the page
    /// index and token, and decides whether to stop. The crawl stops when
    /// the page had no records, when its oldest record is not after the
    /// cutoff, when the page repeats the last collected record (a stalled
    /// source), or when a source that had been handing out continuation
    /// tokens stops doing so.
    pub fn crawl_step(
        &mut self,
        records: Vec<Breach>,
        token: Option<String>,
        options: &RetrieverOptions,
        incrementer: &PageIncrementer,
    )
        requires
            !old(self).done,
            0 <= old(self).page <= i32::MAX - 30,
        ensures
            ({
                let recs = records@;
                let ov = overlap_hit(old(self).collected@, recs);
                let cont = page_continues(recs, options.collect_until);
                let exhausted = token is None && old(self).token is Some;
                &&& (ov ==> final(self).collected@ == old(self).collected@ && final(self).done
                    && final(self).page == old(self).page && final(self).token == old(self).token)
                &&& (!ov ==> final(self).collected@ == old(self).collected@ + keep_recent(
                    recs,
                    options.collect_until,
                ) && final(self).done == (!cont || exhausted) && final(self).page as int
                    == page_inc(*incrementer, old(self).page as int) && (final(self).token is Some
                    <==> (old(self).token is Some || token is Some)) && opt_str_view(
                    final(self).token,
                ) == (if token is Some {
                    opt_str_view(token)
                } else {
                    opt_str_view(old(self).token)
                }))
            }),
    {
        let ghost recs = records@;
        let ghost cutoff = options.collect_until;
        let cont = records.len() > 0 && options.collect_until.lt(
            &records[records.len() - 1].date_reported,
        );
        let mut overlap = false;
        if self.collected.len() > 0 && records.len() > 0 {
            let a = &self.collected[self.collected.len() - 1];
            let b = &records[records.len() - 1];
            if a.organization_name.eq(&b.organization_name) && a.date_reported == b.date_reported
                && crate::dto::opt_str_eq(&a.link, &b.link) {
                overlap = true;
            }
        }
        if overlap {
            self.done = true;
            return ;
        }
        let n: usize = records.len();
        let mut rest = records;
        let mut k: usize = 0;
        proof {
            assert(recs.take(0) =~= Seq::<Breach>::empty());
            assert(keep_recent(recs.take(0), cutoff) =~= Seq::<Breach>::empty());
            assert(self.collected@ + keep_recent(recs.take(0), cutoff) =~= self.collected@);
        }
        while k < n
            invariant
                n == recs.len(),
                k <= n,
                rest@ == recs.skip(k as int),
                cutoff == options.collect_until,
                self.collected@ == old(self).collected@ + keep_recent(recs.take(k as int), cutoff),
                self.page == old(self).page,
                self.token == old(self).token,
                self.done == old(self).done,
            decreases n - k,
        {
            let b = rest.remove(0);
            proof {
                assert(rest@ =~= recs.skip(k as int).skip(1));
                assert(recs.skip(k as int).skip(1) =~= recs.skip(k + 1 as int));
                assert(recs.skip(k as int)[0] == recs[k as int]);
                let t1 = recs.take(k + 1 as int);
                assert(t1.drop_last() =~= recs.take(k as int));
                assert(t1.last() == recs[k as int]);
            }
            let keep = options.collect_until.lt(&b.date_reported);
            let ghost prior = self.collected@;
            if keep {
                self.collected.push(b);
                proof {
                    assert(self.collected@ =~= prior.push(recs[k as int]));
                    assert(keep_recent(recs.take(k + 1 as int), cutoff) =~= keep_recent(
                        recs.take(k as int),
                        cutoff,
                    ).push(recs[k as int]));
                    assert(self.collected@ =~= old(self).collected@ + keep_recent(
                        recs.take(k + 1 as int),
                        cutoff,
                    ));
                }
            } else {
                proof {
                    assert(keep_recent(recs.take(k + 1 as int), cutoff) == keep_recent(
                        recs.take(k as int),
                        cutoff,
                    ));
                }
            }
            k = k + 1;
        }
        proof {
            assert(recs.take(n as int) =~= recs);
        }
        self.page = incrementer.increment(self.page);
        let had_token = self.token.is_some();
        let exhausted = token.is_none() && had_token;
        match token {
            Some(part) => {
                self.token = Some(part);
            },
            None => {},
        }
        if !cont || exhausted {
            self.done = true;
        }
    }

    /// The URL of the next page to fetch, or nothing when the crawl is
    /// done: the continuation token when the source handed one back, else
    /// the numeric page index, run through the source's URL generator.
    pub fn next_url(&self, options: &RetrieverOptions, generator: &UrlGenerator) -> (r: Option<
        String,
    >)
        requires
            self.page >= 0,
        ensures
            r is Some <==> !self.done,
            r matches Some(u) ==> u@ == gen_url(
                *generator,
                options.base_url@,
                match self.token {
                    Some(t) => t@,
                    None => dec_digits(self.page as nat),
                },
            ),
    {
        if self.done {
            return None;
        }
        match &self.token {
            Some(part) => {
                let p = part.clone();
                Some(generator.generate(options.base_url.as_str(), p.as_str()))
            },
            None => {
                let digits = int_to_chars(self.page);
                let page_str = chars_to_string(&digits);
                Some(generator.generate(options.base_url.as_str(), page_str.as_str()))
            },
        }
    }
}

} // verus!
