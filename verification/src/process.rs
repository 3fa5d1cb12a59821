//! The per-run orchestration logic: each source's crawl configuration,
//! the dispatch from jurisdiction to URL scheme, page increment and
//! retrieval strategy, and the storage pass that feeds retrieved records
//! to the persistence engine and advances the per-jurisdiction watermark.

use vstd::prelude::*;
use vstd::string::StringExecFns;
use crate::data::{stepped, LastRetrieved, NewLastRetrieved, Store, StoreModel, WmRowV};
use crate::dates::{date_le, date_lt, prev_day, spec_prev_day, valid_date, Date};
use crate::dto::{breach_v, wf_breach, Breach, State};
use crate::parsers::ca_parser::{ca_page_breaches, CaParser};
use crate::parsers::hi_parser::{hi_page_breaches, HiParser};
use crate::parsers::md_parser::{md_page, MdParser};
use crate::parsers::or_parser::{or_page_breaches, OrParser};
use crate::parsers::wa_parser::{wa_page_breaches, WaParser};
use crate::parsers::ParseFailure;
use crate::retrievers::multi_page::MultiPage;
use crate::retrievers::single_page::SinglePage;
use crate::retrievers::{PageIncrementer, RetrieverOptions, UrlGenerator, WebRequestType};

verus! {

/// The header pairs a source's requests carry: every source gets the
/// same accept and user-agent headers; the Maryland endpoint wants an
/// explicit zero content length on its POST.
pub fn create_headers(state: State) -> (r: Vec<(String, String)>)
    ensures
        r@.len() == (if state is MD {
            3int
        } else {
            2int
        }),
        r@[0].0@ == "accept"@ && r@[0].1@ == "*/*"@,
        r@[1].0@ == "user-agent"@ && r@[1].1@ == "breach_tracker"@,
        state is MD ==> r@[2].0@ == "content-length"@ && r@[2].1@ == "0"@,
{
    let mut headers: Vec<(String, String)> = Vec::new();
    headers.push((String::from_str("accept"), String::from_str("*/*")));
    headers.push((String::from_str("user-agent"), String::from_str("breach_tracker")));
    match state {
        State::MD => {
            headers.push((String::from_str("content-length"), String::from_str("0")));
        },
        _ => {},
    }
    headers
}

/// How each jurisdiction's page URL is built from the base URL and the
/// page part.
pub fn get_url_generator(state: &State) -> (r: UrlGenerator)
    ensures
        r == (match state {
            State::WA => UrlGenerator::AppendPage,
            State::CA => UrlGenerator::BaseOnly,
            State::OR => UrlGenerator::BaseOnly,
            State::HI => UrlGenerator::BaseOnly,
            State::MD => UrlGenerator::AppendPageSkipZero,
        }),
{
    match state {
        State::WA => UrlGenerator::AppendPage,
        State::CA => UrlGenerator::BaseOnly,
        State::OR => UrlGenerator::BaseOnly,
        State::HI => UrlGenerator::BaseOnly,
        State::MD => UrlGenerator::AppendPageSkipZero,
    }
}

/// How each jurisdiction's numeric page index advances between fetches.
pub fn get_page_incrementer(state: &State) -> (r: PageIncrementer)
    ensures
        r == (match state {
            State::WA => PageIncrementer::ByOne,
            State::CA => PageIncrementer::ToZero,
            State::OR => PageIncrementer::ToZero,
            State::HI => PageIncrementer::ToZero,
            State::MD => PageIncrementer::ByThirty,
        }),
{
    match state {
        State::WA => PageIncrementer::ByOne,
        State::CA => PageIncrementer::ToZero,
        State::OR => PageIncrementer::ToZero,
        State::HI => PageIncrementer::ToZero,
        State::MD => PageIncrementer::ByThirty,
    }
}

/// Which retrieval strategy a jurisdiction uses.
pub enum RetrieverChoice {
    Single(SinglePage),
    Multi(MultiPage),
}

/// The retrieval strategy of each jurisdiction: Washington and Maryland
/// paginate, the others publish a single page.
pub fn get_retriever(state: &State) -> (r: RetrieverChoice)
    ensures
        r is Multi <==> (state is WA || state is MD),
{
    match state {
        State::WA => RetrieverChoice::Multi(MultiPage {}),
        State::CA => RetrieverChoice::Single(SinglePage {}),
        State::OR => RetrieverChoice::Single(SinglePage {}),
        State::HI => RetrieverChoice::Single(SinglePage {}),
        State::MD => RetrieverChoice::Multi(MultiPage {}),
    }
}

/// A run's cutoff: one day before the watermark, as a safety margin for
/// sources that re-report within a day, or the given epoch sentinel when
/// no watermark exists yet.
pub open spec fn spec_cutoff(last: Option<Date>, epoch: Date) -> Date {
    match last {
        Some(d) => spec_prev_day(d),
        None => epoch,
    }
}

/// A watermark date that the cutoff computation accepts: a real day that
/// still has a predecessor.
pub open spec fn usable_watermark(last: Option<Date>) -> bool {
    last matches Some(d) ==> valid_date(d) && !(d.year == i32::MIN && d.month == 1 && d.day == 1)
}

fn compute_cutoff(last: Option<Date>, epoch: Date) -> (r: Date)
    requires
        usable_watermark(last),
    ensures
        r == spec_cutoff(last, epoch),
{
    match last {
        Some(d) => prev_day(&d),
        None => epoch,
    }
}

/// The Washington crawl configuration.
pub fn get_wa_options(last: Option<Date>) -> (r: RetrieverOptions)
    requires
        usable_watermark(last),
    ensures
        r.collect_until == spec_cutoff(last, Date { year: 1970, month: 1, day: 1 }),
        r.state is WA,
        r.request_type is Get,
        r.headers@.len() == 2,
        r.headers@[0].0@ == "accept"@ && r.headers@[0].1@ == "*/*"@,
        r.headers@[1].0@ == "user-agent"@ && r.headers@[1].1@ == "breach_tracker"@,
        r.base_url@ == "https://www.atg.wa.gov/data-breach-notifications?page="@,
{
    RetrieverOptions {
        collect_until: compute_cutoff(last, Date { year: 1970, month: 1, day: 1 }),
        base_url: String::from_str("https://www.atg.wa.gov/data-breach-notifications?page="),
        headers: create_headers(State::WA),
        state: State::WA,
        request_type: WebRequestType::Get,
    }
}

/// The California crawl configuration.
pub fn get_ca_options(last: Option<Date>) -> (r: RetrieverOptions)
    requires
        usable_watermark(last),
    ensures
        r.collect_until == spec_cutoff(last, Date { year: 1970, month: 1, day: 1 }),
        r.state is CA,
        r.request_type is Get,
        r.headers@.len() == 2,
        r.headers@[0].0@ == "accept"@ && r.headers@[0].1@ == "*/*"@,
        r.headers@[1].0@ == "user-agent"@ && r.headers@[1].1@ == "breach_tracker"@,
        r.base_url@ == "https://oag.ca.gov/privacy/databreach/list"@,
{
    RetrieverOptions {
        collect_until: compute_cutoff(last, Date { year: 1970, month: 1, day: 1 }),
        base_url: String::from_str("https://oag.ca.gov/privacy/databreach/list"),
        headers: create_headers(State::CA),
        state: State::CA,
        request_type: WebRequestType::Get,
    }
}

/// The Oregon crawl configuration.
pub fn get_or_options(last: Option<Date>) -> (r: RetrieverOptions)
    requires
        usable_watermark(last),
    ensures
        r.collect_until == spec_cutoff(last, Date { year: 1970, month: 1, day: 1 }),
        r.state is OR,
        r.request_type is Get,
        r.headers@.len() == 2,
        r.headers@[0].0@ == "accept"@ && r.headers@[0].1@ == "*/*"@,
        r.headers@[1].0@ == "user-agent"@ && r.headers@[1].1@ == "breach_tracker"@,
        r.base_url@ == "https://justice.oregon.gov/consumer/databreach/"@,
{
    RetrieverOptions {
        collect_until: compute_cutoff(last, Date { year: 1970, month: 1, day: 1 }),
        base_url: String::from_str("https://justice.oregon.gov/consumer/databreach/"),
        headers: create_headers(State::OR),
        state: State::OR,
        request_type: WebRequestType::Get,
    }
}

/// The Hawaii crawl configuration.
pub fn get_hi_options(last: Option<Date>) -> (r: RetrieverOptions)
    requires
        usable_watermark(last),
    ensures
        r.collect_until == spec_cutoff(last, Date { year: 1970, month: 1, day: 1 }),
        r.state is HI,
        r.request_type is Get,
        r.headers@.len() == 2,
        r.headers@[0].0@ == "accept"@ && r.headers@[0].1@ == "*/*"@,
        r.headers@[1].0@ == "user-agent"@ && r.headers@[1].1@ == "breach_tracker"@,
        r.base_url@ == "https://cca.hawaii.gov/ocp/notices/security-breach/"@,
{
    RetrieverOptions {
        collect_until: compute_cutoff(last, Date { year: 1970, month: 1, day: 1 }),
        base_url: String::from_str("https://cca.hawaii.gov/ocp/notices/security-breach/"),
        headers: create_headers(State::HI),
        state: State::HI,
        request_type: WebRequestType::Get,
    }
}

/// The year-group selector of the `i`-th Maryland configuration: the
/// current listing first, then one archived year group each.
pub open spec fn md_group_text(i: int) -> Seq<char> {
    if i == 0 {
        "%3B%23%3B%23"@
    } else if i == 1 {
        "%3B%232020%3B%23"@
    } else if i == 2 {
        "%3B%232021%3B%23"@
    } else {
        "%3B%232022%3B%23"@
    }
}

/// The four Maryland crawl configurations: the current listing and one
/// archived year group each, all POSTed against the same list endpoint.
pub fn get_md_options(last: Option<Date>) -> (r: Vec<RetrieverOptions>)
    requires
        usable_watermark(last),
    ensures
        r@.len() == 4,
        forall|i: int|
            0 <= i < 4 ==> (#[trigger] r@[i]).collect_until == spec_cutoff(
                last,
                Date { year: -1i32, month: 1, day: 1 },
            ) && r@[i].state is MD && r@[i].request_type is Post,
        forall|i: int|
            0 <= i < 4 ==> (#[trigger] r@[i]).base_url@
                == "https://www.marylandattorneygeneral.gov/_layouts/15/inplview.aspx?List=%7B04EBF6F4-B351-492F-B96D-167E2DE39C85%7D&View=%7BAC628F51-0774-4B71-A77E-77D6B9909F7E%7D&ViewCount=23&IsXslView=TRUE&IsCSR=TRUE&ListViewPageUrl=https%3A%2F%2Fwww.marylandattorneygeneral.gov%2Fpages%2Fidentitytheft%2Fbreachnotices.aspx&GroupString="@
                + md_group_text(i)
                + "&IsGroupRender=TRUE&WebPartID={AC628F51-0774-4B71-A77E-77D6B9909F7E}"@,
        forall|i: int|
            0 <= i < 4 ==> (#[trigger] r@[i]).headers@.len() == 3 && r@[i].headers@[0].0@
                == "accept"@ && r@[i].headers@[0].1@ == "*/*"@ && r@[i].headers@[1].0@
                == "user-agent"@ && r@[i].headers@[1].1@ == "breach_tracker"@
                && r@[i].headers@[2].0@ == "content-length"@ && r@[i].headers@[2].1@ == "0"@,
{
    let mut opts: Vec<RetrieverOptions> = Vec::new();
    let mut i: usize = 0;
    while i < 4
        invariant
            opts@.len() == i,
            i <= 4,
            usable_watermark(last),
            forall|k: int|
                0 <= k < i ==> (#[trigger] opts@[k]).collect_until == spec_cutoff(
                    last,
                    Date { year: -1i32, month: 1, day: 1 },
                ) && opts@[k].state is MD && opts@[k].request_type is Post,
            forall|k: int|
                0 <= k < i ==> (#[trigger] opts@[k]).base_url@
                    == "https://www.marylandattorneygeneral.gov/_layouts/15/inplview.aspx?List=%7B04EBF6F4-B351-492F-B96D-167E2DE39C85%7D&View=%7BAC628F51-0774-4B71-A77E-77D6B9909F7E%7D&ViewCount=23&IsXslView=TRUE&IsCSR=TRUE&ListViewPageUrl=https%3A%2F%2Fwww.marylandattorneygeneral.gov%2Fpages%2Fidentitytheft%2Fbreachnotices.aspx&GroupString="@
                    + md_group_text(k)
                    + "&IsGroupRender=TRUE&WebPartID={AC628F51-0774-4B71-A77E-77D6B9909F7E}"@,
            forall|k: int|
                0 <= k < i ==> (#[trigger] opts@[k]).headers@.len() == 3 && opts@[k].headers@[0].0@
                    == "accept"@ && opts@[k].headers@[0].1@ == "*/*"@ && opts@[k].headers@[1].0@
                    == "user-agent"@ && opts@[k].headers@[1].1@ == "breach_tracker"@
                    && opts@[k].headers@[2].0@ == "content-length"@ && opts@[k].headers@[2].1@
                    == "0"@,
        decreases 4 - i,
    {
        let group: &str = if i == 0 {
            "%3B%23%3B%23"
        } else if i == 1 {
            "%3B%232020%3B%23"
        } else if i == 2 {
            "%3B%232021%3B%23"
        } else {
            "%3B%232022%3B%23"
        };
        proof {
            assert(group@ == md_group_text(i as int));
        }
        let mut base = String::from_str(
            "https://www.marylandattorneygeneral.gov/_layouts/15/inplview.aspx?List=%7B04EBF6F4-B351-492F-B96D-167E2DE39C85%7D&View=%7BAC628F51-0774-4B71-A77E-77D6B9909F7E%7D&ViewCount=23&IsXslView=TRUE&IsCSR=TRUE&ListViewPageUrl=https%3A%2F%2Fwww.marylandattorneygeneral.gov%2Fpages%2Fidentitytheft%2Fbreachnotices.aspx&GroupString=",
        );
        base.append(group);
        base.append("&IsGroupRender=TRUE&WebPartID={AC628F51-0774-4B71-A77E-77D6B9909F7E}");
        opts.push(
            RetrieverOptions {
                collect_until: compute_cutoff(last, Date { year: -1i32, month: 1, day: 1 }),
                base_url: base,
                headers: create_headers(State::MD),
                state: State::MD,
                request_type: WebRequestType::Post,
            },
        );
        i = i + 1;
    }
    opts
}

/// A configured run over one or more sources.
pub struct Processor {
    to_process: Vec<RetrieverOptions>,
}

impl Processor {
    /// The source configurations of this run, in order.
    pub closed spec fn plan(&self) -> Seq<RetrieverOptions> {
        self.to_process@
    }

    /// The source configurations of this run, in order.
    pub fn options(&self) -> (r: &Vec<RetrieverOptions>)
        ensures
            r@ == self.plan(),
    {
        &self.to_process
    }
}

/// Accumulates the source configurations of a run.
pub struct ProcessorBuilder {
    to_process: Vec<RetrieverOptions>,
}

impl ProcessorBuilder {
    /// The source configurations accumulated so far.
    pub closed spec fn pending(&self) -> Seq<RetrieverOptions> {
        self.to_process@
    }

    /// An empty builder.
    pub fn new() -> (r: ProcessorBuilder)
        ensures
            r.pending() == Seq::<RetrieverOptions>::empty(),
    {
        ProcessorBuilder { to_process: Vec::new() }
    }

    /// Adds one source configuration.
    pub fn process_option(self, option: RetrieverOptions) -> (r: ProcessorBuilder)
        ensures
            r.pending() == self.pending().push(option),
    {
        let mut b = self;
        b.to_process.push(option);
        b
    }

    /// Adds several source configurations, in order.
    pub fn process_options(self, options: Vec<RetrieverOptions>) -> (r: ProcessorBuilder)
        ensures
            r.pending() == self.pending() + options@,
    {
        let ghost init = self.to_process@;
        let mut b = self;
        let mut rest = options;
        let ghost all = rest@;
        let total: usize = rest.len();
        let mut taken: usize = 0;
        proof {
            assert(b.to_process@ + all.take(0) =~= b.to_process@);
        }
        while rest.len() > 0
            invariant
                total == all.len(),
                taken <= total,
                taken + rest@.len() == all.len(),
                rest@ == all.skip(taken as int),
                b.to_process@ == init + all.take(taken as int),
            decreases rest@.len(),
        {
            let opt = rest.remove(0);
            proof {
                assert(all.skip(taken as int)[0] == all[taken as int]);
                assert(rest@ =~= all.skip(taken + 1 as int));
                assert((init + all.take(taken as int)).push(all[taken as int]) =~= init + all.take(
                    taken + 1 as int,
                ));
            }
            b.to_process.push(opt);
            taken = taken + 1;
        }
        proof {
            assert(all.take(taken as int) =~= all);
        }
        b
    }

    /// Seals the run configuration; a run without any source is rejected.
    pub fn build(self) -> (r: Result<Processor, String>)
        ensures
            r is Err <==> self.pending().len() == 0,
            r matches Ok(p) ==> p.plan() == self.pending(),
    {
        if self.to_process.len() == 0 {
            return Err(String::from_str("Cannot create processor without any options"));
        }
        Ok(Processor { to_process: self.to_process })
    }
}

/// The more recent of two optional dates; an absent date never wins.
pub open spec fn newer_of(a: Option<Date>, b: Option<Date>) -> Option<Date> {
    match (a, b) {
        (None, x) => x,
        (x, None) => x,
        (Some(d1), Some(d2)) => {
            if date_lt(d1, d2) {
                Some(d2)
            } else {
                Some(d1)
            }
        },
    }
}

/// One run's storage pass over a record list: each record goes through
/// the persistence engine in order (a record the identifier space cannot
/// hold is skipped, as a rejected insert). Yields the store model after
/// the pass, how many disclosures were newly inserted, and the most
/// recent reported date among the newly inserted records.
pub open spec fn run_model(m: StoreModel, rs: Seq<Breach>) -> (StoreModel, int, Option<Date>)
    decreases rs.len(),
{
    if rs.len() == 0 {
        (m, 0, None)
    } else {
        let fits = m.next + 1 + rs[0].leaked_info@.len() <= i32::MAX;
        let m1 = if fits {
            stepped(m, rs[0]).0
        } else {
            m
        };
        let ins0: int = if fits {
            stepped(m, rs[0]).1
        } else {
            0
        };
        let rest = run_model(m1, rs.skip(1));
        (
            rest.0,
            ins0 + rest.1,
            newer_of(
                if ins0 == 1 {
                    Some(rs[0].date_reported)
                } else {
                    None
                },
                rest.2,
            ),
        )
    }
}

/// Appending one record to a pass applies its step at the end.
proof fn lemma_run_model_snoc(m: StoreModel, rs: Seq<Breach>, x: Breach)
    ensures
        ({
            let prior = run_model(m, rs);
            let fits = prior.0.next + 1 + x.leaked_info@.len() <= i32::MAX;
            let mx = if fits {
                stepped(prior.0, x).0
            } else {
                prior.0
            };
            let insx: int = if fits {
                stepped(prior.0, x).1
            } else {
                0
            };
            run_model(m, rs.push(x)) == (
                mx,
                prior.1 + insx,
                newer_of(
                    prior.2,
                    if insx == 1 {
                        Some(x.date_reported)
                    } else {
                        None
                    },
                ),
            )
        }),
    decreases rs.len(),
{
    if rs.len() == 0 {
        assert(rs.push(x)[0] == x);
        assert(rs.push(x).skip(1) =~= Seq::<Breach>::empty());
        assert(run_model(m, rs) == (m, 0int, None::<Date>));
        let fits = m.next + 1 + x.leaked_info@.len() <= i32::MAX;
        let cx: Option<Date> = if (if fits {
            stepped(m, x).1
        } else {
            0
        }) == 1 {
            Some(x.date_reported)
        } else {
            None
        };
        assert(newer_of(cx, None) == cx);
        assert(newer_of(None, cx) == cx);
        let m1x = if fits {
            stepped(m, x).0
        } else {
            m
        };
        assert(run_model(m1x, rs.push(x).skip(1)) == (m1x, 0int, None::<Date>));
    } else {
        assert(rs.push(x)[0] == rs[0]);
        assert(rs.push(x).skip(1) =~= rs.skip(1).push(x));
        let fits0 = m.next + 1 + rs[0].leaked_info@.len() <= i32::MAX;
        let m1 = if fits0 {
            stepped(m, rs[0]).0
        } else {
            m
        };
        lemma_run_model_snoc(m1, rs.skip(1), x);
        let c0: Option<Date> = if (if fits0 {
            stepped(m, rs[0]).1
        } else {
            0
        }) == 1 {
            Some(rs[0].date_reported)
        } else {
            None
        };
        let sub = run_model(m1, rs.skip(1));
        let fits = sub.0.next + 1 + x.leaked_info@.len() <= i32::MAX;
        let cx: Option<Date> = if (if fits {
            stepped(sub.0, x).1
        } else {
            0
        }) == 1 {
            Some(x.date_reported)
        } else {
            None
        };
        assert(newer_of(c0, newer_of(sub.2, cx)) == newer_of(newer_of(c0, sub.2), cx));
    }
}

/// A storage pass never touches the watermark table.
pub proof fn lemma_run_model_watermarks(m: StoreModel, rs: Seq<Breach>)
    ensures
        run_model(m, rs).0.watermarks == m.watermarks,
    decreases rs.len(),
{
    if rs.len() > 0 {
        let fits = m.next + 1 + rs[0].leaked_info@.len() <= i32::MAX;
        let m1 = if fits {
            stepped(m, rs[0]).0
        } else {
            m
        };
        lemma_run_model_watermarks(m1, rs.skip(1));
    }
}

/// A storage pass notes a most recent date exactly when it inserted at
/// least one disclosure, and that date is the reported date of one of
/// the run's records.
pub proof fn lemma_run_model_newest(m: StoreModel, rs: Seq<Breach>)
    ensures
        run_model(m, rs).2 is None <==> run_model(m, rs).1 == 0,
        run_model(m, rs).1 >= 0,
        run_model(m, rs).2 matches Some(d) ==> exists|k: int|
            0 <= k < rs.len() && (#[trigger] rs[k]).date_reported == d,
    decreases rs.len(),
{
    if rs.len() > 0 {
        let fits = m.next + 1 + rs[0].leaked_info@.len() <= i32::MAX;
        let m1 = if fits {
            stepped(m, rs[0]).0
        } else {
            m
        };
        lemma_run_model_newest(m1, rs.skip(1));
        match run_model(m1, rs.skip(1)).2 {
            Some(d) => {
                let k = choose|k: int|
                    0 <= k < rs.skip(1).len() && (#[trigger] rs.skip(1)[k]).date_reported == d;
                assert(rs[k + 1] == rs.skip(1)[k]);
                assert(rs[k + 1].date_reported == d);
            },
            None => {},
        }
        match run_model(m, rs).2 {
            Some(d) => {
                if run_model(m1, rs.skip(1)).2 != Some(d) {
                    assert(rs[0].date_reported == d);
                }
            },
            None => {},
        }
    }
}

/// The watermark row written after a pass that inserted something.
pub open spec fn watermark_after(run: (StoreModel, int, Option<Date>), state: State) -> StoreModel {
    StoreModel {
        breaches: run.0.breaches,
        classes: run.0.classes,
        watermarks: run.0.watermarks.push(
            WmRowV {
                id: run.0.next,
                loc: state,
                retrieved_date: run.2->Some_0,
            },
        ),
        next: run.0.next + 1,
    }
}

/// Stores one run's retrieved records for a jurisdiction, in order, and
/// advances the jurisdiction's watermark — but only when at least one
/// disclosure was newly inserted, and then to the reported date of the
/// most recent newly inserted record, never the wall clock. A failure to
/// record the watermark leaves the previous watermark in effect; a run
/// that inserts nothing never writes one.
pub fn process_breaches(store: &mut Store, state: State, breaches: &Vec<Breach>) -> (r: usize)
    requires
        old(store).wf(),
    ensures
        final(store).wf(),
        ({
            let run = run_model(old(store).model(), breaches@);
            &&& r as int == run.1
            &&& (r == 0 ==> final(store).model() == run.0 && final(store).watermark_rows() == old(
                store,
            ).watermark_rows())
            &&& (r > 0 ==> run.2 is Some && (if run.0.next + 1 <= i32::MAX {
                final(store).model() == watermark_after(run, state)
            } else {
                final(store).model() == run.0
            }))
        }),
{
    let ghost pre = *store;
    let n: usize = breaches.len();
    let mut inserted: usize = 0;
    let mut newest: Option<Date> = None;
    let mut i: usize = 0;
    proof {
        assert(breaches@.take(0) =~= Seq::<Breach>::empty());
    }
    while i < n
        invariant
            n == breaches@.len(),
            i <= n,
            store.wf(),
            inserted <= i,
            run_model(pre.model(), breaches@.take(i as int)) == (
                store.model(),
                inserted as int,
                newest,
            ),
        decreases n - i,
    {
        let ghost mid = store.model();
        let ghost taken = breaches@.take(i as int);
        let b = &breaches[i];
        proof {
            lemma_run_model_snoc(pre.model(), taken, breaches@[i as int]);
            assert(taken.push(breaches@[i as int]) =~= breaches@.take(i + 1 as int));
        }
        let res = store.create_breach_data(b);
        match res {
            Ok((ins, _cls)) => {
                inserted = inserted + ins;
                if ins == 1 {
                    let d = b.date_reported;
                    newest = match newest {
                        None => Some(d),
                        Some(p) => {
                            if p.lt(&d) {
                                Some(d)
                            } else {
                                Some(p)
                            }
                        },
                    };
                }
            },
            Err(_) => {},
        }
        i = i + 1;
    }
    proof {
        assert(breaches@.take(n as int) =~= breaches@);
        lemma_run_model_newest(pre.model(), breaches@);
    }
    if inserted > 0 {
        match newest {
            Some(d) => {
                let _ = store.insert_last_retrieved(
                    NewLastRetrieved { loc: state, retrieved_date: d },
                );
            },
            None => {},
        }
    } else {
        proof {
            lemma_run_model_watermarks(pre.model(), breaches@);
            assert(store.model().watermarks =~~= store.watermark_rows().map_values(
                |w: LastRetrieved| crate::data::wm_row_v(w),
            ));
            assert(pre.model().watermarks == pre.watermark_rows().map_values(
                |w: LastRetrieved| crate::data::wm_row_v(w),
            ));
            assert(store.watermark_rows() =~= pre.watermark_rows()) by {
                assert(store.model().watermarks == pre.model().watermarks);
                assert(store.model().watermarks.len() == pre.model().watermarks.len());
                assert forall|k: int|
                    0 <= k < store.watermark_rows().len() implies store.watermark_rows()[k]
                    == pre.watermark_rows()[k] by {
                    assert(store.model().watermarks[k] == pre.model().watermarks[k]);
                    assert(crate::data::wm_row_v(store.watermark_rows()[k]) == crate::data::wm_row_v(
                        pre.watermark_rows()[k],
                    ));
                }
            }
        }
    }
    inserted
}

/// The page adapter of each jurisdiction.
pub enum ParserKind {
    Wa(WaParser),
    Ca(CaParser),
    Or(OrParser),
    Hi(HiParser),
    Md(MdParser),
}

/// The page adapter a jurisdiction's pages go through.
pub fn get_parser(state: &State) -> (r: ParserKind)
    ensures
        state is WA <==> r is Wa,
        state is CA <==> r is Ca,
        state is OR <==> r is Or,
        state is HI <==> r is Hi,
        state is MD <==> r is Md,
{
    match state {
        State::WA => ParserKind::Wa(WaParser {}),
        State::CA => ParserKind::Ca(CaParser {}),
        State::OR => ParserKind::Or(OrParser {}),
        State::HI => ParserKind::Hi(HiParser {}),
        State::MD => ParserKind::Md(MdParser {}),
    }
}

impl ParserKind {
    /// Parses one raw page with this jurisdiction's adapter. Every record
    /// of an accepted page is well formed; for the HTML listings the
    /// records are exactly what the jurisdiction's page grammar names,
    /// and no continuation token is produced.
    pub fn parse_page(&self, page: &str) -> (r: Result<
        (Vec<Breach>, Option<String>),
        ParseFailure,
    >)
        ensures
            r matches Ok((bs, tok)) ==> forall|i: int|
                0 <= i < bs@.len() ==> wf_breach(#[trigger] bs@[i]),
            self is Wa ==> (r matches Ok((bs, tok)) ==> wa_page_breaches(page@) == Some(
                bs@.map_values(|b: Breach| breach_v(b)),
            ) && tok is None),
            self is Wa ==> (r is Err <==> wa_page_breaches(page@) is None),
            self is Ca ==> (r matches Ok((bs, tok)) ==> ca_page_breaches(page@) == Some(
                bs@.map_values(|b: Breach| breach_v(b)),
            ) && tok is None),
            self is Ca ==> (r is Err <==> ca_page_breaches(page@) is None),
            self is Or ==> (r matches Ok((bs, tok)) ==> or_page_breaches(page@) == Some(
                bs@.map_values(|b: Breach| breach_v(b)),
            ) && tok is None),
            self is Or ==> (r is Err <==> or_page_breaches(page@) is None),
            self is Hi ==> (r matches Ok((bs, tok)) ==> hi_page_breaches(page@) == Some(
                bs@.map_values(|b: Breach| breach_v(b)),
            ) && tok is None),
            self is Hi ==> (r is Err <==> hi_page_breaches(page@) is None),
            self is Md ==> (r matches Ok((bs, tok)) ==> md_page(page@) == Some(
                (bs@.map_values(|b: Breach| breach_v(b)), crate::dto::opt_str_view(tok)),
            ) && (forall|i: int| 0 <= i < bs@.len() ==> (#[trigger] bs@[i]).loc is MD)),
            self is Md ==> (r is Err <==> md_page(page@) is None),
    {
        match self {
            ParserKind::Wa(_) => {
                match WaParser::parse_body(page) {
                    Ok(bs) => Ok((bs, None)),
                    Err(e) => Err(e),
                }
            },
            ParserKind::Ca(_) => {
                match CaParser::parse_body(page) {
                    Ok(bs) => Ok((bs, None)),
                    Err(e) => Err(e),
                }
            },
            ParserKind::Or(_) => {
                match OrParser::parse_body(page) {
                    Ok(bs) => Ok((bs, None)),
                    Err(e) => Err(e),
                }
            },
            ParserKind::Hi(_) => {
                match HiParser::parse_body(page) {
                    Ok(bs) => Ok((bs, None)),
                    Err(e) => Err(e),
                }
            },
            ParserKind::Md(_) => MdParser::parse_body(page),
        }
    }
}

/// The store model one record's step leaves behind, skipping a record
/// the identifier space cannot hold.
pub open spec fn step_of(m: StoreModel, r: Breach) -> StoreModel {
    if m.next + 1 + r.leaked_info@.len() <= i32::MAX {
        stepped(m, r).0
    } else {
        m
    }
}

/// Whether one record's step inserts a disclosure row.
pub open spec fn ins_of(m: StoreModel, r: Breach) -> int {
    if m.next + 1 + r.leaked_info@.len() <= i32::MAX {
        stepped(m, r).1
    } else {
        0
    }
}

/// The store model a pass reaches just before its `k`-th record.
pub open spec fn run_mid(m: StoreModel, rs: Seq<Breach>, k: int) -> StoreModel
    decreases rs.len(),
{
    if k <= 0 || rs.len() == 0 {
        m
    } else {
        run_mid(step_of(m, rs[0]), rs.skip(1), k - 1)
    }
}

/// The `k`-th record of a pass is newly inserted.
pub open spec fn inserted_at(m: StoreModel, rs: Seq<Breach>, k: int) -> bool {
    0 <= k < rs.len() && ins_of(run_mid(m, rs, k), rs[k]) == 1
}

/// The date a pass notes is the most recent one: it is at least the
/// reported date of every record the pass newly inserted.
pub proof fn lemma_run_model_newest_is_max(m: StoreModel, rs: Seq<Breach>, k: int)
    requires
        inserted_at(m, rs, k),
    ensures
        run_model(m, rs).2 matches Some(d) && date_le(rs[k].date_reported, d),
    decreases rs.len(),
{
    let fits = m.next + 1 + rs[0].leaked_info@.len() <= i32::MAX;
    let m1 = if fits {
        stepped(m, rs[0]).0
    } else {
        m
    };
    let ins0: int = if fits {
        stepped(m, rs[0]).1
    } else {
        0
    };
    assert(m1 == step_of(m, rs[0]));
    assert(ins0 == ins_of(m, rs[0]));
    let rest = run_model(m1, rs.skip(1));
    if k == 0 {
        assert(run_mid(m, rs, 0) == m);
        assert(ins0 == 1);
        match rest.2 {
            None => {
                assert(run_model(m, rs).2 == Some(rs[0].date_reported));
            },
            Some(d2) => {
                assert(run_model(m, rs).2 == newer_of(Some(rs[0].date_reported), Some(d2)));
            },
        }
    } else {
        assert(run_mid(m, rs, k) == run_mid(m1, rs.skip(1), k - 1));
        assert(rs.skip(1)[k - 1] == rs[k]);
        assert(inserted_at(m1, rs.skip(1), k - 1));
        lemma_run_model_newest_is_max(m1, rs.skip(1), k - 1);
        let d1 = rest.2->Some_0;
        let c0: Option<Date> = if ins0 == 1 {
            Some(rs[0].date_reported)
        } else {
            None
        };
        assert(run_model(m, rs).2 == newer_of(c0, Some(d1)));
        match newer_of(c0, Some(d1)) {
            Some(d) => {
                assert(date_le(d1, d));
                assert(date_le(rs[k].date_reported, d));
            },
            None => {
                assert(false);
            },
        }
    }
}

} // verus!
