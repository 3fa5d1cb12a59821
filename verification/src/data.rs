//! The idempotent persistence and dedup engine, modeled as relational
//! tables of plain rows. A disclosure is stored at most once per identity
//! triple (reported date, organization, jurisdiction); classification rows
//! are deduplicated per disclosure by category alone; watermark rows are
//! only ever appended.

use vstd::prelude::*;
use crate::dates::{date_lt, Date};
use crate::dto::{
    class_code, class_raw, class_view, classes_view, opt_str_clone, opt_str_view, same_identity,
    wf_class, Breach, BreachType, ClassificationType, State,
};

verus! {

/// One stored disclosure row.
#[derive(Debug)]
pub struct BreachData {
    pub id: i32,
    pub date_reported: Date,
    pub organization_name: String,
    pub date_of_breach: Option<Date>,
    pub affected_count: Option<i32>,
    pub loc: State,
    pub link: Option<String>,
    pub breach_type: BreachType,
    pub affected_count_local: Option<i32>,
}

/// One stored classification row; `classification_type` is the category
/// code, and `content` preserves raw text for the unknown category.
#[derive(Debug)]
pub struct Classification {
    pub id: i32,
    pub breach_data_id: i32,
    pub content: String,
    pub classification_type: i32,
}

/// One stored watermark row.
#[derive(Clone, Copy, PartialEq, Eq, Structural, Debug)]
pub struct LastRetrieved {
    pub id: i32,
    pub loc: State,
    pub retrieved_date: Date,
}

/// A watermark row to be stored.
#[derive(Clone, Copy, PartialEq, Eq, Structural, Debug)]
pub struct NewLastRetrieved {
    pub loc: State,
    pub retrieved_date: Date,
}

/// The store rejected an operation: its row identifier space is exhausted.
#[derive(Clone, Copy, PartialEq, Eq, Structural, Debug)]
pub struct PersistenceFailure;

/// A stored disclosure row carries the identity triple of record `r`.
pub open spec fn row_matches(row: BreachData, r: Breach) -> bool {
    row.date_reported == r.date_reported && row.organization_name@ == r.organization_name@
        && row.loc == r.loc
}

/// Index of the first stored row with the identity triple of `r`, if any.
pub open spec fn spec_find_breach(bs: Seq<BreachData>, r: Breach) -> Option<int>
    decreases bs.len(),
{
    if bs.len() == 0 {
        None
    } else if row_matches(bs[0], r) {
        Some(0)
    } else {
        match spec_find_breach(bs.skip(1), r) {
            Some(i) => Some(i + 1),
            None => None,
        }
    }
}

/// `spec_find_breach` returns exactly the first matching row.
pub proof fn lemma_find_breach_props(bs: Seq<BreachData>, r: Breach)
    ensures
        spec_find_breach(bs, r) is None ==> forall|k: int|
            0 <= k < bs.len() ==> !row_matches(#[trigger] bs[k], r),
        spec_find_breach(bs, r) matches Some(i) ==> 0 <= i < bs.len() && row_matches(bs[i], r) && (
        forall|k: int| 0 <= k < i ==> !row_matches(#[trigger] bs[k], r)),
    decreases bs.len(),
{
    if bs.len() == 0 {
    } else if row_matches(bs[0], r) {
    } else {
        lemma_find_breach_props(bs.skip(1), r);
        match spec_find_breach(bs.skip(1), r) {
            None => {
                assert forall|k: int| 0 <= k < bs.len() implies !row_matches(
                    #[trigger] bs[k],
                    r,
                ) by {
                    if k > 0 {
                        assert(bs.skip(1)[k - 1] == bs[k]);
                        assert(!row_matches(bs.skip(1)[k - 1], r));
                    }
                }
            },
            Some(i) => {
                assert(bs.skip(1)[i] == bs[i + 1]);
                assert(row_matches(bs[i + 1], r));
                assert forall|k: int| 0 <= k < i + 1 implies !row_matches(#[trigger] bs[k], r) by {
                    if k > 0 {
                        assert(bs.skip(1)[k - 1] == bs[k]);
                        assert(!row_matches(bs.skip(1)[k - 1], r));
                    }
                }
            },
        }
    }
}

/// Some stored disclosure row carries identifier `bid`.
pub open spec fn has_breach_id(bs: Seq<BreachData>, bid: int) -> bool {
    exists|j: int| 0 <= j < bs.len() && (#[trigger] bs[j]).id == bid
}

/// The codes already stored for disclosure `bid`.
pub open spec fn stored_codes(cs: Seq<Classification>, bid: int) -> Set<int> {
    Set::new(
        |code: int|
            exists|i: int|
                0 <= i < cs.len() && (#[trigger] cs[i]).breach_data_id == bid
                    && cs[i].classification_type == code,
    )
}

/// The classification candidates that will actually be inserted: the
/// items whose category is neither already stored nor carried by an
/// earlier candidate, in first-occurrence order.
pub open spec fn filter_candidates(li: Seq<ClassificationType>, existing: Set<int>) -> Seq<
    ClassificationType,
>
    decreases li.len(),
{
    if li.len() == 0 {
        Seq::<ClassificationType>::empty()
    } else if existing.contains(class_code(li[0])) {
        filter_candidates(li.skip(1), existing)
    } else {
        seq![li[0]] + filter_candidates(li.skip(1), existing.insert(class_code(li[0])))
    }
}

/// The verified in-memory relational store: disclosures, classifications
/// and watermarks, with one shared row-identifier counter.
pub struct Store {
    breaches: Vec<BreachData>,
    classifications: Vec<Classification>,
    watermarks: Vec<LastRetrieved>,
    next_id: i32,
}

impl Store {
    /// The stored disclosure rows, in insertion order.
    pub closed spec fn breach_rows(&self) -> Seq<BreachData> {
        self.breaches@
    }

    /// The stored classification rows, in insertion order.
    pub closed spec fn class_rows(&self) -> Seq<Classification> {
        self.classifications@
    }

    /// The stored watermark rows, in insertion order.
    pub closed spec fn watermark_rows(&self) -> Seq<LastRetrieved> {
        self.watermarks@
    }

    /// The next free row identifier.
    pub closed spec fn next_row_id(&self) -> int {
        self.next_id as int
    }

    /// Well-formedness: identifiers are positive, unique and below the
    /// counter; every classification row belongs to a stored disclosure;
    /// category codes lie in the taxonomy.
    pub open spec fn wf(&self) -> bool {
        &&& 1 <= self.next_row_id() <= i32::MAX
        &&& forall|i: int, j: int|
            0 <= i < j < self.breach_rows().len() ==> (#[trigger] self.breach_rows()[i]).id != (
            #[trigger] self.breach_rows()[j]).id
        &&& forall|i: int|
            0 <= i < self.breach_rows().len() ==> 1 <= (#[trigger] self.breach_rows()[i]).id
                < self.next_row_id()
        &&& forall|i: int|
            0 <= i < self.class_rows().len() ==> has_breach_id(
                self.breach_rows(),
                (#[trigger] self.class_rows()[i]).breach_data_id as int,
            )
        &&& forall|i: int|
            0 <= i < self.class_rows().len() ==> 0 <= (
            #[trigger] self.class_rows()[i]).classification_type <= 21
        &&& forall|i: int|
            0 <= i < self.class_rows().len() ==> 1 <= (#[trigger] self.class_rows()[i]).id
                < self.next_row_id()
    }

    /// An empty store.
    pub fn new() -> (r: Store)
        ensures
            r.wf(),
            r.breach_rows() == Seq::<BreachData>::empty(),
            r.class_rows() == Seq::<Classification>::empty(),
            r.watermark_rows() == Seq::<LastRetrieved>::empty(),
            r.next_row_id() == 1,
    {
        Store { breaches: Vec::new(), classifications: Vec::new(), watermarks: Vec::new(), next_id: 1 }
    }
}

/// The disclosure identifier that record `r` is stored under: the one of
/// the first row with its identity triple, or the next free identifier
/// when no such row exists.
pub open spec fn target_bid(pre: Store, r: Breach) -> int {
    match spec_find_breach(pre.breach_rows(), r) {
        Some(i) => pre.breach_rows()[i].id as int,
        None => pre.next_row_id(),
    }
}

/// The candidates actually inserted for record `r` against store `pre`.
pub open spec fn new_classes(pre: Store, r: Breach) -> Seq<ClassificationType> {
    filter_candidates(r.leaked_info@, stored_codes(pre.class_rows(), target_bid(pre, r)))
}

/// The complete effect of one successful `create_breach_data` call:
/// `post` and the returned pair `(breach_inserted, classifications
/// inserted)` are determined by `pre` and `r`.
pub open spec fn store_step(pre: Store, post: Store, r: Breach, res: (usize, usize)) -> bool {
    let bid = target_bid(pre, r);
    let newcls = new_classes(pre, r);
    let base = pre.class_rows().len() as int;
    let id_base = pre.next_row_id() + res.0;
    &&& (match spec_find_breach(pre.breach_rows(), r) {
        None => {
            &&& res.0 == 1
            &&& post.breach_rows().len() == pre.breach_rows().len() + 1
            &&& post.breach_rows().subrange(0, pre.breach_rows().len() as int)
                == pre.breach_rows()
            &&& {
                let row = post.breach_rows().last();
                &&& row.id as int == pre.next_row_id()
                &&& row.date_reported == r.date_reported
                &&& row.organization_name@ == r.organization_name@
                &&& row.date_of_breach == r.date_of_breach
                &&& row.affected_count == r.affected_count
                &&& row.affected_count_local == r.affected_count_local
                &&& row.loc == r.loc
                &&& opt_str_view(row.link) == opt_str_view(r.link)
                &&& row.breach_type == r.breach_type
            }
        },
        Some(_) => {
            &&& res.0 == 0
            &&& post.breach_rows() == pre.breach_rows()
        },
    })
    &&& res.1 == newcls.len()
    &&& post.class_rows().len() == pre.class_rows().len() + newcls.len()
    &&& post.class_rows().subrange(0, base) == pre.class_rows()
    &&& forall|k: int|
        0 <= k < newcls.len() ==> {
            let row = #[trigger] post.class_rows()[base + k];
            &&& row.breach_data_id as int == bid
            &&& row.classification_type as int == class_code(newcls[k])
            &&& row.content@ == class_raw(newcls[k])
            &&& row.id as int == id_base + k
        }
    &&& post.watermark_rows() == pre.watermark_rows()
    &&& post.next_row_id() == id_base + newcls.len()
}

/// Appending a classification row for `bid` adds exactly its code to the
/// stored codes of `bid`, and changes no other disclosure's codes.
pub proof fn lemma_stored_codes_push(cs: Seq<Classification>, row: Classification, bid: int)
    ensures
        row.breach_data_id == bid ==> stored_codes(cs.push(row), bid) == stored_codes(
            cs,
            bid,
        ).insert(row.classification_type as int),
        row.breach_data_id != bid ==> stored_codes(cs.push(row), bid) == stored_codes(cs, bid),
{
    let cs1 = cs.push(row);
    if row.breach_data_id == bid {
        assert forall|code: int|
            stored_codes(cs1, bid).contains(code) <==> stored_codes(cs, bid).insert(
                row.classification_type as int,
            ).contains(code) by {
            if stored_codes(cs1, bid).contains(code) {
                let i = choose|i: int|
                    0 <= i < cs1.len() && (#[trigger] cs1[i]).breach_data_id == bid
                        && cs1[i].classification_type == code;
                if i < cs.len() {
                    assert(cs[i].breach_data_id == bid && cs[i].classification_type == code);
                } else {
                    assert(cs1[i] == row);
                }
            }
            if stored_codes(cs, bid).contains(code) {
                let i = choose|i: int|
                    0 <= i < cs.len() && (#[trigger] cs[i]).breach_data_id == bid
                        && cs[i].classification_type == code;
                assert(cs1[i] == cs[i]);
            }
            if code == row.classification_type as int {
                assert(cs1[cs.len() as int] == row);
            }
        }
        assert(stored_codes(cs1, bid) =~= stored_codes(cs, bid).insert(
            row.classification_type as int,
        ));
    } else {
        assert forall|code: int|
            stored_codes(cs1, bid).contains(code) <==> stored_codes(cs, bid).contains(code) by {
            if stored_codes(cs1, bid).contains(code) {
                let i = choose|i: int|
                    0 <= i < cs1.len() && (#[trigger] cs1[i]).breach_data_id == bid
                        && cs1[i].classification_type == code;
                assert(i < cs.len());
                assert(cs[i].breach_data_id == bid && cs[i].classification_type == code);
            }
            if stored_codes(cs, bid).contains(code) {
                let i = choose|i: int|
                    0 <= i < cs.len() && (#[trigger] cs[i]).breach_data_id == bid
                        && cs[i].classification_type == code;
                assert(cs1[i] == cs[i]);
            }
        }
        assert(stored_codes(cs1, bid) =~= stored_codes(cs, bid));
    }
}

/// If the first matching row is at `i`, `spec_find_breach` returns `i`.
proof fn lemma_find_breach_unique(bs: Seq<BreachData>, r: Breach, i: int)
    requires
        0 <= i < bs.len(),
        row_matches(bs[i], r),
        forall|k: int| 0 <= k < i ==> !row_matches(#[trigger] bs[k], r),
    ensures
        spec_find_breach(bs, r) == Some(i),
{
    lemma_find_breach_props(bs, r);
    match spec_find_breach(bs, r) {
        None => {
            assert(!row_matches(bs[i], r));
        },
        Some(j) => {
            if j < i {
                assert(!row_matches(bs[j], r));
            }
            if i < j {
                assert(!row_matches(bs[i], r));
            }
        },
    }
}

impl Store {
    /// Is a classification of category `code` already stored for
    /// disclosure `bid`?
    fn has_class(&self, bid: i32, code: i32) -> (r: bool)
        ensures
            r == stored_codes(self.class_rows(), bid as int).contains(code as int),
    {
        let n: usize = self.classifications.len();
        let mut i: usize = 0;
        while i < n
            invariant
                n == self.class_rows().len(),
                i <= n,
                forall|k: int|
                    0 <= k < i ==> !((#[trigger] self.class_rows()[k]).breach_data_id == bid
                        && self.class_rows()[k].classification_type == code),
            decreases n - i,
        {
            let c = &self.classifications[i];
            if c.breach_data_id == bid && c.classification_type == code {
                return true;
            }
            i = i + 1;
        }
        false
    }

    /// Stores one disclosure record: at most one disclosure row per
    /// identity triple, and one classification row per category per
    /// disclosure. Returns how many disclosure rows (0 or 1) and how many
    /// classification rows were inserted; calling it again with the same
    /// record inserts nothing. Fails only when the row identifier space
    /// cannot hold the record.
    #[verifier::rlimit(100)]
    pub fn create_breach_data(&mut self, data: &Breach) -> (r: Result<
        (usize, usize),
        PersistenceFailure,
    >)
        requires
            old(self).wf(),
        ensures
            final(self).wf(),
            r matches Ok(res) ==> store_step(*old(self), *final(self), *data, res) && res.0 <= 1,
            r matches Ok(res) ==> final(self).model() == stepped(old(self).model(), *data).0
                && res.0 as int == stepped(old(self).model(), *data).1 && res.1 as int == stepped(
                old(self).model(),
                *data,
            ).2,
            r is Err ==> *final(self) == *old(self),
            r is Err <==> old(self).next_row_id() + 1 + data.leaked_info@.len() > i32::MAX,
    {
        let ghost pre = *self;
        let margin: u64 = 2147483647u64 - (self.next_id as u64);
        if margin == 0 {
            return Err(PersistenceFailure);
        }
        if (data.leaked_info.len() as u64) > margin - 1 {
            return Err(PersistenceFailure);
        }
        proof {
            assert(pre.next_row_id() + 1 + data.leaked_info@.len() <= i32::MAX);
        }
        // Look for a stored disclosure with the same identity triple.
        let n: usize = self.breaches.len();
        let mut found: Option<usize> = None;
        let mut i: usize = 0;
        while found.is_none() && i < n
            invariant
                n == self.breach_rows().len(),
                i <= n,
                forall|k: int| 0 <= k < i ==> !row_matches(#[trigger] self.breach_rows()[k], *data),
                found matches Some(fi) ==> fi == i && i < n && row_matches(
                    self.breach_rows()[fi as int],
                    *data,
                ),
            decreases n - i + (if found.is_none() {
                1int
            } else {
                0int
            }),
        {
            let row = &self.breaches[i];
            if row.date_reported == data.date_reported && row.organization_name.eq(
                &data.organization_name,
            ) && row.loc == data.loc {
                found = Some(i);
            } else {
                i = i + 1;
            }
        }
        proof {
            match found {
                Some(fi) => {
                    lemma_find_breach_unique(self.breach_rows(), *data, fi as int);
                },
                None => {
                    lemma_find_breach_props(self.breach_rows(), *data);
                    match spec_find_breach(self.breach_rows(), *data) {
                        Some(j) => {
                            assert(row_matches(self.breach_rows()[j], *data));
                        },
                        None => {},
                    }
                },
            }
        }
        let bid: i32;
        let breach_inserted: usize;
        match found {
            Some(fi) => {
                bid = self.breaches[fi].id;
                breach_inserted = 0;
                proof {
                    assert(self.breach_rows()[fi as int].id == bid);
                }
            },
            None => {
                bid = self.next_id;
                let row = BreachData {
                    id: bid,
                    date_reported: data.date_reported,
                    organization_name: data.organization_name.clone(),
                    date_of_breach: data.date_of_breach,
                    affected_count: data.affected_count,
                    loc: data.loc,
                    link: opt_str_clone(&data.link),
                    breach_type: data.breach_type,
                    affected_count_local: data.affected_count_local,
                };
                self.breaches.push(row);
                self.next_id = self.next_id + 1;
                breach_inserted = 1;
                proof {
                    assert(self.breach_rows().len() == pre.breach_rows().len() + 1);
                    assert(self.breach_rows()[n as int].id == bid);
                    assert(self.breach_rows().subrange(0, n as int) =~= pre.breach_rows());
                    assert forall|a: int, b: int|
                        0 <= a < b < self.breach_rows().len() implies (
                    #[trigger] self.breach_rows()[a]).id != (
                    #[trigger] self.breach_rows()[b]).id by {
                        assert(self.breach_rows()[a] == pre.breach_rows()[a]);
                        if b < n {
                            assert(self.breach_rows()[b] == pre.breach_rows()[b]);
                        } else {
                            assert(pre.breach_rows()[a].id < pre.next_row_id());
                        }
                    }
                    assert(pre.wf());
                    assert(self.class_rows() == pre.class_rows());
                    assert forall|j: int|
                        0 <= j < self.class_rows().len() implies has_breach_id(
                            self.breach_rows(),
                            (#[trigger] self.class_rows()[j]).breach_data_id as int,
                        ) by {
                        assert(has_breach_id(
                            pre.breach_rows(),
                            (pre.class_rows()[j]).breach_data_id as int,
                        ));
                        let b0 = choose|b: int|
                            0 <= b < pre.breach_rows().len() && (#[trigger] pre.breach_rows()[b]).id
                                == pre.class_rows()[j].breach_data_id;
                        assert(self.breach_rows()[b0] == pre.breach_rows()[b0]);
                        assert(self.breach_rows()[b0].id == self.class_rows()[j].breach_data_id);
                    }
                }
            },
        }
        proof {
            assert(bid as int == target_bid(pre, *data));
            assert(self.wf());
        }
        let ghost mid = *self;
        let ghost li = data.leaked_info@;
        let ghost cand_full = filter_candidates(li, stored_codes(pre.class_rows(), bid as int));
        proof {
            assert(mid.class_rows() == pre.class_rows());
            assert(li.skip(0) =~= li);
        }
        let m: usize = data.leaked_info.len();
        let mut inserted: usize = 0;
        let ghost mut taken: Seq<ClassificationType> = Seq::empty();
        let mut k: usize = 0;
        while k < m
            invariant
                pre.wf(),
                m == li.len(),
                li == data.leaked_info@,
                k <= m,
                bid as int == target_bid(pre, *data),
                1 <= bid,
                mid.wf(),
                mid.breach_rows() == self.breach_rows(),
                mid.watermark_rows() == self.watermark_rows(),
                mid.class_rows() == pre.class_rows(),
                mid.next_row_id() == pre.next_row_id() + breach_inserted,
                breach_inserted <= 1,
                pre.next_row_id() + 1 + li.len() <= i32::MAX,
                has_breach_id(self.breach_rows(), bid as int),
                cand_full == filter_candidates(li, stored_codes(pre.class_rows(), bid as int)),
                cand_full == taken + filter_candidates(
                    li.skip(k as int),
                    stored_codes(self.class_rows(), bid as int),
                ),
                inserted == taken.len(),
                taken.len() <= k,
                self.class_rows().len() == mid.class_rows().len() + taken.len(),
                self.class_rows().subrange(0, mid.class_rows().len() as int) == mid.class_rows(),
                forall|j: int|
                    0 <= j < taken.len() ==> {
                        let row = #[trigger] self.class_rows()[mid.class_rows().len() + j];
                        &&& row.breach_data_id as int == bid
                        &&& row.classification_type as int == class_code(taken[j])
                        &&& row.content@ == class_raw(taken[j])
                        &&& row.id as int == mid.next_row_id() + j
                    },
                self.next_row_id() == mid.next_row_id() + taken.len(),
                forall|j: int|
                    0 <= j < self.class_rows().len() ==> 0 <= (
                    #[trigger] self.class_rows()[j]).classification_type <= 21,
                forall|j: int|
                    0 <= j < self.class_rows().len() ==> 1 <= (#[trigger] self.class_rows()[j]).id
                        < self.next_row_id(),
                forall|j: int|
                    0 <= j < self.class_rows().len() ==> has_breach_id(
                        self.breach_rows(),
                        (#[trigger] self.class_rows()[j]).breach_data_id as int,
                    ),
            decreases m - k,
        {
            let item = &data.leaked_info[k];
            let code = item.code();
            proof {
                assert(li.skip(k as int)[0] == li[k as int]);
                assert(li.skip(k as int).skip(1) =~= li.skip(k + 1 as int));
            }
            let already = self.has_class(bid, code);
            if already {
                proof {
                    assert(filter_candidates(
                        li.skip(k as int),
                        stored_codes(self.class_rows(), bid as int),
                    ) == filter_candidates(
                        li.skip(k + 1 as int),
                        stored_codes(self.class_rows(), bid as int),
                    ));
                }
            } else {
                let row = Classification {
                    id: self.next_id,
                    breach_data_id: bid,
                    content: item.raw_text(),
                    classification_type: code,
                };
                let ghost old_rows = self.class_rows();
                let ghost old_codes = stored_codes(old_rows, bid as int);
                proof {
                    lemma_stored_codes_push(old_rows, row, bid as int);
                    assert(filter_candidates(li.skip(k as int), old_codes) == seq![li[k as int]]
                        + filter_candidates(li.skip(k + 1 as int), old_codes.insert(code as int)));
                }
                self.classifications.push(row);
                self.next_id = self.next_id + 1;
                inserted = inserted + 1;
                proof {
                    taken = taken.push(li[k as int]);
                    assert(self.class_rows() =~= old_rows.push(row));
                    assert(cand_full =~= taken + filter_candidates(
                        li.skip(k + 1 as int),
                        stored_codes(self.class_rows(), bid as int),
                    ));
                    assert(self.class_rows().subrange(0, mid.class_rows().len() as int)
                        =~= mid.class_rows());
                }
            }
            k = k + 1;
        }
        proof {
            assert(li.skip(m as int).len() == 0);
            assert(filter_candidates(
                li.skip(m as int),
                stored_codes(self.class_rows(), bid as int),
            ) =~= Seq::<ClassificationType>::empty());
            assert(cand_full =~= taken);
            assert(store_step(pre, *self, *data, (breach_inserted, inserted)));
            lemma_store_step_model(pre, *self, *data, (breach_inserted, inserted));
        }
        Ok((breach_inserted, inserted))
    }
}

/// The most recent watermark for a jurisdiction: the first row attaining
/// the greatest retrieved date among the jurisdiction's rows.
pub open spec fn spec_latest(ws: Seq<LastRetrieved>, loc: State) -> Option<LastRetrieved>
    decreases ws.len(),
{
    if ws.len() == 0 {
        None
    } else {
        let prev = spec_latest(ws.drop_last(), loc);
        let w = ws.last();
        if w.loc != loc {
            prev
        } else {
            match prev {
                None => Some(w),
                Some(p) => {
                    if date_lt(p.retrieved_date, w.retrieved_date) {
                        Some(w)
                    } else {
                        Some(p)
                    }
                },
            }
        }
    }
}

impl Store {
    /// Appends a watermark row; earlier rows are never updated in place.
    pub fn insert_last_retrieved(&mut self, last_retrieved: NewLastRetrieved) -> (r: Result<
        (),
        PersistenceFailure,
    >)
        requires
            old(self).wf(),
        ensures
            final(self).wf(),
            r is Ok ==> final(self).watermark_rows() == old(self).watermark_rows().push(
                LastRetrieved {
                    id: old(self).next_row_id() as i32,
                    loc: last_retrieved.loc,
                    retrieved_date: last_retrieved.retrieved_date,
                },
            ) && final(self).breach_rows() == old(self).breach_rows() && final(self).class_rows()
                == old(self).class_rows() && final(self).next_row_id() == old(self).next_row_id()
                + 1,
            r is Ok ==> final(self).model() == (StoreModel {
                breaches: old(self).model().breaches,
                classes: old(self).model().classes,
                watermarks: old(self).model().watermarks.push(
                    WmRowV {
                        id: old(self).next_row_id(),
                        loc: last_retrieved.loc,
                        retrieved_date: last_retrieved.retrieved_date,
                    },
                ),
                next: old(self).next_row_id() + 1,
            }),
            r is Err ==> *final(self) == *old(self),
            r is Err <==> old(self).next_row_id() + 1 > i32::MAX,
    {
        let ghost pre = *self;
        if self.next_id == 2147483647 {
            return Err(PersistenceFailure);
        }
        let row = LastRetrieved {
            id: self.next_id,
            loc: last_retrieved.loc,
            retrieved_date: last_retrieved.retrieved_date,
        };
        self.watermarks.push(row);
        self.next_id = self.next_id + 1;
        proof {
            assert(self.breach_rows() == pre.breach_rows());
            assert(self.class_rows() == pre.class_rows());
            assert(pre.wf());
            assert forall|i: int|
                0 <= i < self.class_rows().len() implies has_breach_id(
                    self.breach_rows(),
                    (#[trigger] self.class_rows()[i]).breach_data_id as int,
                ) by {
                assert(has_breach_id(
                    pre.breach_rows(),
                    (pre.class_rows()[i]).breach_data_id as int,
                ));
            }
            assert(self.model().watermarks =~= pre.model().watermarks.push(
                WmRowV {
                    id: pre.next_row_id(),
                    loc: last_retrieved.loc,
                    retrieved_date: last_retrieved.retrieved_date,
                },
            ));
            assert(self.model().breaches =~= pre.model().breaches);
            assert(self.model().classes =~= pre.model().classes);
        }
        Ok(())
    }

    /// The current watermark of a jurisdiction, if one was ever recorded:
    /// the row with the most recent retrieved date.
    pub fn get_last_retrieved(&self, location: State) -> (r: Option<LastRetrieved>)
        ensures
            r == spec_latest(self.watermark_rows(), location),
    {
        let n: usize = self.watermarks.len();
        let mut best: Option<LastRetrieved> = None;
        let mut i: usize = 0;
        while i < n
            invariant
                n == self.watermark_rows().len(),
                i <= n,
                best == spec_latest(self.watermark_rows().take(i as int), location),
            decreases n - i,
        {
            let w = self.watermarks[i];
            proof {
                let t1 = self.watermark_rows().take(i + 1 as int);
                assert(t1.drop_last() =~= self.watermark_rows().take(i as int));
                assert(t1.last() == self.watermark_rows()[i as int]);
            }
            if w.loc == location {
                match best {
                    None => {
                        best = Some(w);
                    },
                    Some(p) => {
                        if p.retrieved_date.lt(&w.retrieved_date) {
                            best = Some(w);
                        }
                    },
                }
            }
            i = i + 1;
        }
        proof {
            assert(self.watermark_rows().take(n as int) =~= self.watermark_rows());
        }
        best
    }
}

/// The set of category codes carried by a record's classification list.
pub open spec fn codes_of(li: Seq<ClassificationType>) -> Set<int> {
    Set::new(|code: int| exists|k: int| 0 <= k < li.len() && class_code(#[trigger] li[k]) == code)
}

/// The candidates kept by `filter_candidates` carry exactly the codes of
/// the list that were not already present.
pub proof fn lemma_filter_candidates_codes(li: Seq<ClassificationType>, existing: Set<int>)
    ensures
        codes_of(filter_candidates(li, existing)) =~= codes_of(li).difference(existing),
    decreases li.len(),
{
    if li.len() == 0 {
        assert(codes_of(li) =~= Set::<int>::empty());
        assert(codes_of(filter_candidates(li, existing)) =~= Set::<int>::empty());
    } else {
        let code0 = class_code(li[0]);
        let rest = li.skip(1);
        assert forall|c: int| codes_of(li).contains(c) implies c == code0 || codes_of(
            rest,
        ).contains(c) by {
            let k = choose|k: int| 0 <= k < li.len() && class_code(#[trigger] li[k]) == c;
            if k > 0 {
                assert(rest[k - 1] == li[k]);
                assert(class_code(rest[k - 1]) == c);
            }
        }
        assert forall|c: int| codes_of(rest).contains(c) implies codes_of(li).contains(c) by {
            let k = choose|k: int| 0 <= k < rest.len() && class_code(#[trigger] rest[k]) == c;
            assert(rest[k] == li[k + 1]);
            assert(class_code(li[k + 1]) == c);
        }
        assert(codes_of(li).contains(code0));
        if existing.contains(code0) {
            lemma_filter_candidates_codes(rest, existing);
            assert(codes_of(filter_candidates(li, existing)) =~= codes_of(li).difference(
                existing,
            ));
        } else {
            lemma_filter_candidates_codes(rest, existing.insert(code0));
            let f = filter_candidates(li, existing);
            let frest = filter_candidates(rest, existing.insert(code0));
            assert(f == seq![li[0]] + frest);
            assert forall|c: int| codes_of(f).contains(c) implies c == code0 || codes_of(
                frest,
            ).contains(c) by {
                let k = choose|k: int| 0 <= k < f.len() && class_code(#[trigger] f[k]) == c;
                if k > 0 {
                    assert(frest[k - 1] == f[k]);
                    assert(class_code(frest[k - 1]) == c);
                }
            }
            assert forall|c: int| codes_of(frest).contains(c) implies codes_of(f).contains(c) by {
                let k = choose|k: int| 0 <= k < frest.len() && class_code(#[trigger] frest[k]) == c;
                assert(frest[k] == f[k + 1]);
                assert(class_code(f[k + 1]) == c);
            }
            assert(f[0] == li[0]);
            assert(codes_of(f).contains(code0));
            assert(codes_of(f) =~= codes_of(li).difference(existing));
        }
    }
}

/// If every code of the list is already present, nothing is kept.
pub proof fn lemma_filter_candidates_empty(li: Seq<ClassificationType>, existing: Set<int>)
    requires
        forall|k: int| 0 <= k < li.len() ==> existing.contains(class_code(#[trigger] li[k])),
    ensures
        filter_candidates(li, existing) == Seq::<ClassificationType>::empty(),
    decreases li.len(),
{
    if li.len() > 0 {
        assert(existing.contains(class_code(li[0])));
        assert(forall|k: int|
            0 <= k < li.skip(1).len() ==> #[trigger] li.skip(1)[k] == li[k + 1]);
        lemma_filter_candidates_empty(li.skip(1), existing);
    }
}

/// After one successful store of `r`, the codes stored for its
/// disclosure are the previously stored codes together with every code
/// the record carries.
pub proof fn lemma_store_step_codes(pre: Store, post: Store, r: Breach, res: (usize, usize))
    requires
        store_step(pre, post, r, res),
    ensures
        stored_codes(post.class_rows(), target_bid(pre, r)) =~= stored_codes(
            pre.class_rows(),
            target_bid(pre, r),
        ).union(codes_of(r.leaked_info@)),
{
    let bid = target_bid(pre, r);
    let pre_codes = stored_codes(pre.class_rows(), bid);
    let newcls = new_classes(pre, r);
    let base = pre.class_rows().len() as int;
    lemma_filter_candidates_codes(r.leaked_info@, pre_codes);
    assert forall|c: int|
        stored_codes(post.class_rows(), bid).contains(c) implies pre_codes.contains(c) || codes_of(
        r.leaked_info@,
    ).contains(c) by {
        let i = choose|i: int|
            0 <= i < post.class_rows().len() && (#[trigger] post.class_rows()[i]).breach_data_id
                == bid && post.class_rows()[i].classification_type == c;
        if i < base {
            assert(post.class_rows().subrange(0, base)[i] == post.class_rows()[i]);
            assert(pre.class_rows()[i].breach_data_id == bid
                && pre.class_rows()[i].classification_type == c);
        } else {
            assert(post.class_rows()[base + (i - base)].classification_type as int == class_code(
                newcls[i - base],
            ));
            assert(codes_of(newcls).contains(c));
        }
    }
    assert forall|c: int| pre_codes.contains(c) implies stored_codes(
        post.class_rows(),
        bid,
    ).contains(c) by {
        let i = choose|i: int|
            0 <= i < pre.class_rows().len() && (#[trigger] pre.class_rows()[i]).breach_data_id
                == bid && pre.class_rows()[i].classification_type == c;
        assert(post.class_rows().subrange(0, base)[i] == pre.class_rows()[i]);
        assert(post.class_rows()[i].breach_data_id == bid
            && post.class_rows()[i].classification_type == c);
    }
    assert forall|c: int| codes_of(r.leaked_info@).contains(c) implies stored_codes(
        post.class_rows(),
        bid,
    ).contains(c) by {
        if codes_of(newcls).contains(c) {
            let k = choose|k: int| 0 <= k < newcls.len() && class_code(#[trigger] newcls[k]) == c;
            assert(post.class_rows()[base + k].breach_data_id == bid);
            assert(post.class_rows()[base + k].classification_type as int == c);
        } else {
            assert(codes_of(newcls) =~= codes_of(r.leaked_info@).difference(pre_codes));
            assert(pre_codes.contains(c));
            let i = choose|i: int|
                0 <= i < pre.class_rows().len() && (#[trigger] pre.class_rows()[i]).breach_data_id
                    == bid && pre.class_rows()[i].classification_type == c;
            assert(post.class_rows().subrange(0, base)[i] == pre.class_rows()[i]);
            assert(post.class_rows()[i].breach_data_id == bid
                && post.class_rows()[i].classification_type == c);
        }
    }
}

/// Which disclosure row matches depends only on the identity triple.
pub proof fn lemma_find_same_identity(bs: Seq<BreachData>, r1: Breach, r2: Breach)
    requires
        same_identity(r1, r2),
    ensures
        spec_find_breach(bs, r1) == spec_find_breach(bs, r2),
    decreases bs.len(),
{
    if bs.len() > 0 {
        lemma_find_same_identity(bs.skip(1), r1, r2);
    }
}

/// Idempotent storage: a record already stored by the previous call
/// inserts nothing at all — no disclosure row, no classification row —
/// and leaves every table unchanged. When the record was new to the
/// store, the first call inserted its disclosure row.
pub proof fn lemma_store_idempotent(
    s0: Store,
    s1: Store,
    s2: Store,
    r: Breach,
    res1: (usize, usize),
    res2: (usize, usize),
)
    requires
        s0.wf(),
        store_step(s0, s1, r, res1),
        store_step(s1, s2, r, res2),
    ensures
        spec_find_breach(s0.breach_rows(), r) is None ==> res1.0 == 1,
        res2.0 == 0,
        res2.1 == 0,
        s2.breach_rows() == s1.breach_rows(),
        s2.class_rows() == s1.class_rows(),
        s2.watermark_rows() == s1.watermark_rows(),
{
    let bid = target_bid(s0, r);
    let li = r.leaked_info@;
    match spec_find_breach(s0.breach_rows(), r) {
        None => {
            let len0 = s0.breach_rows().len() as int;
            lemma_find_breach_props(s0.breach_rows(), r);
            assert forall|k: int| 0 <= k < len0 implies !row_matches(
                #[trigger] s1.breach_rows()[k],
                r,
            ) by {
                assert(s1.breach_rows().subrange(0, len0)[k] == s1.breach_rows()[k]);
                assert(s1.breach_rows()[k] == s0.breach_rows()[k]);
            }
            assert(row_matches(s1.breach_rows()[len0], r));
            lemma_find_breach_unique(s1.breach_rows(), r, len0);
            assert(target_bid(s1, r) == s1.breach_rows()[len0].id as int);
            assert(target_bid(s1, r) == bid);
        },
        Some(i) => {
            assert(s1.breach_rows() == s0.breach_rows());
            assert(target_bid(s1, r) == bid);
        },
    }
    lemma_store_step_codes(s0, s1, r, res1);
    assert forall|k: int| 0 <= k < li.len() implies stored_codes(
        s1.class_rows(),
        bid,
    ).contains(class_code(#[trigger] li[k])) by {
        assert(codes_of(li).contains(class_code(li[k])));
    }
    lemma_filter_candidates_empty(li, stored_codes(s1.class_rows(), bid));
    assert(new_classes(s1, r) == Seq::<ClassificationType>::empty());
    assert(res2.1 == 0);
    assert(s2.class_rows().subrange(0, s1.class_rows().len() as int) == s1.class_rows());
    assert(s2.class_rows() =~= s2.class_rows().subrange(0, s2.class_rows().len() as int));
    assert(s2.class_rows() == s1.class_rows());
}

/// Category-scoped enrichment: storing a second record with the same
/// identity triple never creates a second disclosure row; its
/// classifications attach to the already stored disclosure, and the codes
/// stored for it afterwards are exactly the previous ones together with
/// the record's categories — a repeated category is never stored twice.
pub proof fn lemma_store_enriches(
    s0: Store,
    s1: Store,
    s2: Store,
    r1: Breach,
    r2: Breach,
    res1: (usize, usize),
    res2: (usize, usize),
)
    requires
        s0.wf(),
        same_identity(r1, r2),
        store_step(s0, s1, r1, res1),
        store_step(s1, s2, r2, res2),
    ensures
        res2.0 == 0,
        target_bid(s1, r2) == target_bid(s0, r1),
        stored_codes(s2.class_rows(), target_bid(s0, r1)) == stored_codes(
            s1.class_rows(),
            target_bid(s0, r1),
        ).union(codes_of(r2.leaked_info@)),
{
    let bid = target_bid(s0, r1);
    match spec_find_breach(s0.breach_rows(), r1) {
        None => {
            let len0 = s0.breach_rows().len() as int;
            lemma_find_breach_props(s0.breach_rows(), r1);
            assert forall|k: int| 0 <= k < len0 implies !row_matches(
                #[trigger] s1.breach_rows()[k],
                r2,
            ) by {
                assert(s1.breach_rows().subrange(0, len0)[k] == s1.breach_rows()[k]);
                assert(s1.breach_rows()[k] == s0.breach_rows()[k]);
                assert(!row_matches(s0.breach_rows()[k], r1));
            }
            assert(row_matches(s1.breach_rows()[len0], r1));
            assert(row_matches(s1.breach_rows()[len0], r2));
            lemma_find_breach_unique(s1.breach_rows(), r2, len0);
            assert(target_bid(s1, r2) == bid);
        },
        Some(i) => {
            assert(s1.breach_rows() == s0.breach_rows());
            lemma_find_same_identity(s1.breach_rows(), r1, r2);
            assert(target_bid(s1, r2) == bid);
        },
    }
    lemma_store_step_codes(s1, s2, r2, res2);
    assert(stored_codes(s2.class_rows(), bid) =~= stored_codes(s1.class_rows(), bid).union(
        codes_of(r2.leaked_info@),
    ));
}

/// The classification rows stored for disclosure `bid`, in insertion
/// order.
pub open spec fn rows_for(cs: Seq<Classification>, bid: int) -> Seq<Classification>
    decreases cs.len(),
{
    if cs.len() == 0 {
        Seq::<Classification>::empty()
    } else {
        let rest = rows_for(cs.drop_last(), bid);
        if cs.last().breach_data_id == bid {
            rest.push(cs.last())
        } else {
            rest
        }
    }
}

/// What identifies a stored classification row: its category code and,
/// for the unknown category, the preserved raw text.
pub open spec fn class_row_view(c: Classification) -> (int, Seq<char>) {
    (
        c.classification_type as int,
        if c.classification_type == 0 {
            c.content@
        } else {
            Seq::<char>::empty()
        },
    )
}

impl Store {
    /// Reads every stored disclosure back as a record, each carrying the
    /// classifications stored for it.
    pub fn get_breaches(&self) -> (r: Vec<Breach>)
        requires
            self.wf(),
        ensures
            r@.len() == self.breach_rows().len(),
            forall|i: int|
                0 <= i < r@.len() ==> {
                    let row = self.breach_rows()[i];
                    let b = #[trigger] r@[i];
                    &&& b.id == row.id
                    &&& b.date_reported == row.date_reported
                    &&& b.organization_name@ == row.organization_name@
                    &&& b.date_of_breach == row.date_of_breach
                    &&& b.affected_count == row.affected_count
                    &&& b.affected_count_local == row.affected_count_local
                    &&& b.loc == row.loc
                    &&& opt_str_view(b.link) == opt_str_view(row.link)
                    &&& b.breach_type == row.breach_type
                    &&& classes_view(b.leaked_info@) == rows_for(
                        self.class_rows(),
                        row.id as int,
                    ).map_values(|c: Classification| class_row_view(c))
                    &&& forall|j: int|
                        0 <= j < b.leaked_info@.len() ==> wf_class(#[trigger] b.leaked_info@[j])
                },
    {
        let n: usize = self.breaches.len();
        let m: usize = self.classifications.len();
        let mut out: Vec<Breach> = Vec::new();
        let mut i: usize = 0;
        while i < n
            invariant
                self.wf(),
                n == self.breach_rows().len(),
                m == self.class_rows().len(),
                i <= n,
                out@.len() == i,
                forall|p: int|
                    0 <= p < i ==> {
                        let row = self.breach_rows()[p];
                        let b = #[trigger] out@[p];
                        &&& b.id == row.id
                        &&& b.date_reported == row.date_reported
                        &&& b.organization_name@ == row.organization_name@
                        &&& b.date_of_breach == row.date_of_breach
                        &&& b.affected_count == row.affected_count
                        &&& b.affected_count_local == row.affected_count_local
                        &&& b.loc == row.loc
                        &&& opt_str_view(b.link) == opt_str_view(row.link)
                        &&& b.breach_type == row.breach_type
                        &&& classes_view(b.leaked_info@) == rows_for(
                            self.class_rows(),
                            row.id as int,
                        ).map_values(|c: Classification| class_row_view(c))
                        &&& forall|j: int|
                            0 <= j < b.leaked_info@.len() ==> wf_class(#[trigger] b.leaked_info@[j])
                    },
            decreases n - i,
        {
            let row = &self.breaches[i];
            let bid = row.id;
            let mut leaked: Vec<ClassificationType> = Vec::new();
            proof {
                assert(self.class_rows().take(0) =~= Seq::<Classification>::empty());
                assert(classes_view(leaked@) =~= Seq::<(int, Seq<char>)>::empty());
                assert(rows_for(Seq::<Classification>::empty(), bid as int).map_values(
                    |c: Classification| class_row_view(c),
                ) =~= Seq::<(int, Seq<char>)>::empty());
            }
            let mut j: usize = 0;
            while j < m
                invariant
                    self.wf(),
                    m == self.class_rows().len(),
                    j <= m,
                    classes_view(leaked@) == rows_for(
                        self.class_rows().take(j as int),
                        bid as int,
                    ).map_values(|c: Classification| class_row_view(c)),
                    forall|q: int|
                        0 <= q < leaked@.len() ==> wf_class(#[trigger] leaked@[q]),
                decreases m - j,
            {
                let c = &self.classifications[j];
                proof {
                    let t1 = self.class_rows().take(j + 1 as int);
                    assert(t1.drop_last() =~= self.class_rows().take(j as int));
                    assert(t1.last() == self.class_rows()[j as int]);
                }
                if c.breach_data_id == bid {
                    let ghost prior = leaked@;
                    match ClassificationType::from_parts(c.classification_type, c.content.clone()) {
                        Some(cl) => {
                            proof {
                                assert(class_view(cl) == class_row_view(
                                    self.class_rows()[j as int],
                                ));
                            }
                            leaked.push(cl);
                            proof {
                                assert(classes_view(leaked@) =~= classes_view(prior).push(
                                    class_view(leaked@.last()),
                                ));
                                assert(rows_for(
                                    self.class_rows().take(j + 1 as int),
                                    bid as int,
                                ).map_values(|cc: Classification| class_row_view(cc))
                                    =~= classes_view(leaked@));
                            }
                        },
                        None => {
                            proof {
                                assert(0 <= self.class_rows()[j as int].classification_type <= 21);
                                assert(false);
                            }
                        },
                    }
                } else {
                    proof {
                        assert(rows_for(self.class_rows().take(j + 1 as int), bid as int)
                            == rows_for(self.class_rows().take(j as int), bid as int));
                    }
                }
                j = j + 1;
            }
            proof {
                assert(self.class_rows().take(m as int) =~= self.class_rows());
            }
            let b = Breach {
                id: bid,
                date_reported: row.date_reported,
                organization_name: row.organization_name.clone(),
                date_of_breach: row.date_of_breach,
                affected_count: row.affected_count,
                affected_count_local: row.affected_count_local,
                loc: row.loc,
                breach_type: row.breach_type,
                link: opt_str_clone(&row.link),
                leaked_info: leaked,
            };
            out.push(b);
            i = i + 1;
        }
        out
    }
}

/// View of a stored disclosure row as plain values.
pub struct BreachRowV {
    pub id: int,
    pub date_reported: Date,
    pub organization_name: Seq<char>,
    pub date_of_breach: Option<Date>,
    pub affected_count: Option<i32>,
    pub loc: State,
    pub link: Option<Seq<char>>,
    pub breach_type: BreachType,
    pub affected_count_local: Option<i32>,
}

/// View of a stored classification row as plain values.
pub struct ClassRowV {
    pub id: int,
    pub breach_data_id: int,
    pub content: Seq<char>,
    pub classification_type: int,
}

/// View of a stored watermark row as plain values.
pub struct WmRowV {
    pub id: int,
    pub loc: State,
    pub retrieved_date: Date,
}

/// The whole store as plain values.
pub struct StoreModel {
    pub breaches: Seq<BreachRowV>,
    pub classes: Seq<ClassRowV>,
    pub watermarks: Seq<WmRowV>,
    pub next: int,
}

pub open spec fn breach_row_v(row: BreachData) -> BreachRowV {
    BreachRowV {
        id: row.id as int,
        date_reported: row.date_reported,
        organization_name: row.organization_name@,
        date_of_breach: row.date_of_breach,
        affected_count: row.affected_count,
        loc: row.loc,
        link: opt_str_view(row.link),
        breach_type: row.breach_type,
        affected_count_local: row.affected_count_local,
    }
}

pub open spec fn class_row_v(row: Classification) -> ClassRowV {
    ClassRowV {
        id: row.id as int,
        breach_data_id: row.breach_data_id as int,
        content: row.content@,
        classification_type: row.classification_type as int,
    }
}

pub open spec fn wm_row_v(row: LastRetrieved) -> WmRowV {
    WmRowV { id: row.id as int, loc: row.loc, retrieved_date: row.retrieved_date }
}

impl Store {
    /// The store as plain values.
    pub open spec fn model(&self) -> StoreModel {
        StoreModel {
            breaches: self.breach_rows().map_values(|r: BreachData| breach_row_v(r)),
            classes: self.class_rows().map_values(|r: Classification| class_row_v(r)),
            watermarks: self.watermark_rows().map_values(|r: LastRetrieved| wm_row_v(r)),
            next: self.next_row_id(),
        }
    }
}

/// A disclosure row view carries the identity triple of record `r`.
pub open spec fn row_matches_v(row: BreachRowV, r: Breach) -> bool {
    row.date_reported == r.date_reported && row.organization_name == r.organization_name@
        && row.loc == r.loc
}

/// Index of the first row view with the identity triple of `r`, if any.
pub open spec fn spec_find_breach_v(bs: Seq<BreachRowV>, r: Breach) -> Option<int>
    decreases bs.len(),
{
    if bs.len() == 0 {
        None
    } else if row_matches_v(bs[0], r) {
        Some(0)
    } else {
        match spec_find_breach_v(bs.skip(1), r) {
            Some(i) => Some(i + 1),
            None => None,
        }
    }
}

proof fn lemma_find_breach_v_agrees(bs: Seq<BreachData>, r: Breach)
    ensures
        spec_find_breach_v(bs.map_values(|x: BreachData| breach_row_v(x)), r) == spec_find_breach(
            bs,
            r,
        ),
    decreases bs.len(),
{
    let m = bs.map_values(|x: BreachData| breach_row_v(x));
    if bs.len() == 0 {
    } else {
        lemma_find_breach_v_agrees(bs.skip(1), r);
        assert(bs.skip(1).map_values(|x: BreachData| breach_row_v(x)) =~= m.skip(1));
        assert(m[0] == breach_row_v(bs[0]));
    }
}

/// The codes already stored for disclosure `bid`, at view level.
pub open spec fn stored_codes_v(cs: Seq<ClassRowV>, bid: int) -> Set<int> {
    Set::new(
        |code: int|
            exists|i: int|
                0 <= i < cs.len() && (#[trigger] cs[i]).breach_data_id == bid
                    && cs[i].classification_type == code,
    )
}

proof fn lemma_stored_codes_v_agrees(cs: Seq<Classification>, bid: int)
    ensures
        stored_codes_v(cs.map_values(|x: Classification| class_row_v(x)), bid) == stored_codes(
            cs,
            bid,
        ),
{
    let m = cs.map_values(|x: Classification| class_row_v(x));
    assert forall|code: int|
        stored_codes_v(m, bid).contains(code) <==> stored_codes(cs, bid).contains(code) by {
        if stored_codes_v(m, bid).contains(code) {
            let i = choose|i: int|
                0 <= i < m.len() && (#[trigger] m[i]).breach_data_id == bid
                    && m[i].classification_type == code;
            assert(m[i] == class_row_v(cs[i]));
            assert(cs[i].breach_data_id == bid && cs[i].classification_type == code);
        }
        if stored_codes(cs, bid).contains(code) {
            let i = choose|i: int|
                0 <= i < cs.len() && (#[trigger] cs[i]).breach_data_id == bid
                    && cs[i].classification_type == code;
            assert(m[i] == class_row_v(cs[i]));
        }
    }
    assert(stored_codes_v(m, bid) =~= stored_codes(cs, bid));
}

/// The row view a newly inserted disclosure gets.
pub open spec fn breach_row_of(next: int, r: Breach) -> BreachRowV {
    BreachRowV {
        id: next,
        date_reported: r.date_reported,
        organization_name: r.organization_name@,
        date_of_breach: r.date_of_breach,
        affected_count: r.affected_count,
        loc: r.loc,
        link: opt_str_view(r.link),
        breach_type: r.breach_type,
        affected_count_local: r.affected_count_local,
    }
}

/// The row views the kept classification candidates get.
pub open spec fn class_rows_of(newcls: Seq<ClassificationType>, bid: int, id_base: int) -> Seq<
    ClassRowV,
> {
    Seq::new(
        newcls.len(),
        |k: int|
            ClassRowV {
                id: id_base + k,
                breach_data_id: bid,
                content: class_raw(newcls[k]),
                classification_type: class_code(newcls[k]),
            },
    )
}

/// The store model after one record is stored, with how many disclosure
/// rows (0 or 1) and classification rows that inserts: the constructive
/// mirror of `create_breach_data`.
pub open spec fn stepped(m: StoreModel, r: Breach) -> (StoreModel, int, int) {
    let found = spec_find_breach_v(m.breaches, r);
    let bid = match found {
        Some(i) => m.breaches[i].id,
        None => m.next,
    };
    let ins: int = if found is None {
        1
    } else {
        0
    };
    let breaches1 = if found is None {
        m.breaches.push(breach_row_of(m.next, r))
    } else {
        m.breaches
    };
    let id_base = m.next + ins;
    let newcls = filter_candidates(r.leaked_info@, stored_codes_v(m.classes, bid));
    (
        StoreModel {
            breaches: breaches1,
            classes: m.classes + class_rows_of(newcls, bid, id_base),
            watermarks: m.watermarks,
            next: id_base + newcls.len(),
        },
        ins,
        newcls.len() as int,
    )
}

/// One successful `create_breach_data` call takes the store model through
/// `stepped`.
pub proof fn lemma_store_step_model(pre: Store, post: Store, r: Breach, res: (usize, usize))
    requires
        store_step(pre, post, r, res),
    ensures
        post.model() == stepped(pre.model(), r).0,
        res.0 as int == stepped(pre.model(), r).1,
        res.1 as int == stepped(pre.model(), r).2,
{
    let m = pre.model();
    lemma_find_breach_props(pre.breach_rows(), r);
    lemma_find_breach_v_agrees(pre.breach_rows(), r);
    lemma_stored_codes_v_agrees(pre.class_rows(), target_bid(pre, r));
    let found = spec_find_breach_v(m.breaches, r);
    let bid = target_bid(pre, r);
    assert(match found {
        Some(i) => m.breaches[i].id == bid,
        None => m.next == bid,
    }) by {
        match spec_find_breach(pre.breach_rows(), r) {
            Some(i) => {
                assert(m.breaches[i] == breach_row_v(pre.breach_rows()[i]));
            },
            None => {},
        }
    }
    let newcls = new_classes(pre, r);
    assert(filter_candidates(r.leaked_info@, stored_codes_v(m.classes, bid)) == newcls);
    let base = pre.class_rows().len() as int;
    let id_base = pre.next_row_id() + res.0;
    // Disclosure table.
    match spec_find_breach(pre.breach_rows(), r) {
        None => {
            assert(post.model().breaches =~= m.breaches.push(breach_row_of(m.next, r))) by {
                assert forall|i: int| 0 <= i < post.breach_rows().len() implies post.model().breaches[i]
                    == m.breaches.push(breach_row_of(m.next, r))[i] by {
                    if i < pre.breach_rows().len() {
                        assert(post.breach_rows().subrange(0, pre.breach_rows().len() as int)[i]
                            == post.breach_rows()[i]);
                        assert(post.breach_rows()[i] == pre.breach_rows()[i]);
                    } else {
                        assert(post.model().breaches[i] == breach_row_v(post.breach_rows().last()));
                    }
                }
            }
        },
        Some(_) => {
            assert(post.model().breaches =~= m.breaches);
        },
    }
    // Classification table.
    assert(post.model().classes =~= m.classes + class_rows_of(newcls, bid, id_base)) by {
        assert forall|i: int| 0 <= i < post.class_rows().len() implies post.model().classes[i] == (
        m.classes + class_rows_of(newcls, bid, id_base))[i] by {
            if i < base {
                assert(post.class_rows().subrange(0, base)[i] == post.class_rows()[i]);
                assert(post.class_rows()[i] == pre.class_rows()[i]);
            } else {
                assert(post.model().classes[i] == class_row_v(post.class_rows()[base + (i - base)]));
            }
        }
    }
    // Watermark table.
    assert(post.model().watermarks =~= m.watermarks);
    assert(post.model() == stepped(m, r).0);
}

} // verus!
