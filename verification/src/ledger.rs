//! The progress ledger: it owns the per-(owner, document) reading-progress
//! records and applies the last-writer-by-progress-then-time merge rule.
//!
//! A write wins against the stored record when it reports more progress, or
//! equal progress with a later client timestamp. An exact tie (equal progress
//! and equal client timestamp) also wins, so that re-sending a write is
//! harmless: the fields are replaced — with their own values when the write
//! is an identical re-send — and the stored server timestamp is kept. A
//! losing write changes nothing and still succeeds, carrying the
//! authoritative stored record back to the caller.

use vstd::prelude::*;

use crate::PERCENT_SCALE;
use crate::valid_percentage;

verus! {

/// A single user's latest known position in a single document.
#[derive(Debug)]
pub struct ProgressRecord {
    pub owner: String,
    pub document: String,
    pub location: String,
    pub percentage: u32,
    pub device: String,
    pub device_id: String,
    pub client_timestamp: u64,
    pub updated_at: u64,
}

/// The mathematical image of a [`ProgressRecord`].
pub ghost struct ProgressView {
    pub owner: Seq<char>,
    pub document: Seq<char>,
    pub location: Seq<char>,
    pub percentage: u32,
    pub device: Seq<char>,
    pub device_id: Seq<char>,
    pub client_timestamp: u64,
    pub updated_at: u64,
}

impl View for ProgressRecord {
    type V = ProgressView;

    open spec fn view(&self) -> ProgressView {
        ProgressView {
            owner: self.owner@,
            document: self.document@,
            location: self.location@,
            percentage: self.percentage,
            device: self.device@,
            device_id: self.device_id@,
            client_timestamp: self.client_timestamp,
            updated_at: self.updated_at,
        }
    }
}

impl ProgressRecord {
    /// An equal copy of the record.
    pub fn duplicate(&self) -> (r: Self)
        ensures
            r@ == self@,
    {
        ProgressRecord {
            owner: self.owner.clone(),
            document: self.document.clone(),
            location: self.location.clone(),
            percentage: self.percentage,
            device: self.device.clone(),
            device_id: self.device_id.clone(),
            client_timestamp: self.client_timestamp,
            updated_at: self.updated_at,
        }
    }
}

/// One incoming progress write, without its owner: the gateway supplies the
/// authenticated username as the owner.
pub struct UpsertRequest {
    pub document: String,
    pub location: String,
    pub percentage: u32,
    pub device: String,
    pub device_id: String,
    pub client_timestamp: u64,
}

/// The mathematical image of an [`UpsertRequest`].
pub ghost struct UpsertRequestV {
    pub document: Seq<char>,
    pub location: Seq<char>,
    pub percentage: u32,
    pub device: Seq<char>,
    pub device_id: Seq<char>,
    pub client_timestamp: u64,
}

impl View for UpsertRequest {
    type V = UpsertRequestV;

    open spec fn view(&self) -> UpsertRequestV {
        UpsertRequestV {
            document: self.document@,
            location: self.location@,
            percentage: self.percentage,
            device: self.device@,
            device_id: self.device_id@,
            client_timestamp: self.client_timestamp,
        }
    }
}

/// Outcome of a progress write.
#[derive(Debug)]
pub enum UpsertOutcome {
    /// The merge was applied (or the write lost and was a no-op); the carried
    /// record is the authoritative stored record after the call.
    Accepted(ProgressRecord),
    /// Invalid input — empty owner or document, or percentage out of range;
    /// nothing was written.
    Rejected,
}

/// Outcome of a progress read.
#[derive(Debug)]
pub enum FetchOutcome {
    /// A record is stored for the pair; the carried record equals it.
    Found(ProgressRecord),
    /// Nothing has been synced yet for the pair.
    NotFound,
}

/// The primary key of a stored record.
pub open spec fn rec_key(r: ProgressView) -> (Seq<char>, Seq<char>) {
    (r.owner, r.document)
}

/// A stored record is valid: non-empty owner and document, percentage in
/// range.
pub open spec fn valid_stored(r: ProgressView) -> bool {
    &&& r.owner.len() > 0
    &&& r.document.len() > 0
    &&& valid_percentage(r.percentage)
}

/// An incoming write is valid: non-empty owner and document, percentage in
/// range.
pub open spec fn valid_upsert(owner: Seq<char>, req: UpsertRequestV) -> bool {
    &&& owner.len() > 0
    &&& req.document.len() > 0
    &&& valid_percentage(req.percentage)
}

/// The ledger's contents, as a map from (owner, document) to the stored
/// record.
pub open spec fn progress_map(s: Seq<ProgressRecord>) -> Map<
    (Seq<char>, Seq<char>),
    ProgressView,
>
    decreases s.len(),
{
    if s.len() == 0 {
        Map::empty()
    } else {
        progress_map(s.drop_last()).insert(rec_key(s.last()@), s.last()@)
    }
}

/// The record stored for (owner, document), if any.
pub open spec fn ledger_lookup(
    m: Map<(Seq<char>, Seq<char>), ProgressView>,
    owner: Seq<char>,
    document: Seq<char>,
) -> Option<ProgressView> {
    if m.contains_key((owner, document)) {
        Some(m[(owner, document)])
    } else {
        None
    }
}

/// The record an accepted write stores when nothing was stored before, or
/// when it wins the merge: all fields come from the write, the server
/// timestamp is `stamp`.
pub open spec fn fresh_record(owner: Seq<char>, req: UpsertRequestV, stamp: u64) -> ProgressView {
    ProgressView {
        owner,
        document: req.document,
        location: req.location,
        percentage: req.percentage,
        device: req.device,
        device_id: req.device_id,
        client_timestamp: req.client_timestamp,
        updated_at: stamp,
    }
}

/// The incoming write reports strictly newer progress than the stored record:
/// higher percentage, or equal percentage with a later client timestamp.
pub open spec fn incoming_newer(req: UpsertRequestV, cur: ProgressView) -> bool {
    ||| req.percentage > cur.percentage
    ||| (req.percentage == cur.percentage && req.client_timestamp > cur.client_timestamp)
}

/// The incoming write ties the stored record exactly: equal percentage and
/// equal client timestamp.
pub open spec fn incoming_ties(req: UpsertRequestV, cur: ProgressView) -> bool {
    req.percentage == cur.percentage && req.client_timestamp == cur.client_timestamp
}

/// The server timestamp a winning write records: the current time, clamped so
/// that `updated_at` never decreases.
pub open spec fn stamp_after(cur: ProgressView, now: u64) -> u64 {
    if now >= cur.updated_at {
        now
    } else {
        cur.updated_at
    }
}

/// The merge rule: what is stored for (owner, document) after an accepted
/// write, given what was stored before. A first write creates the record with
/// the server's current time. A strictly newer write replaces every field and
/// stamps the clamped server time. An exact tie replaces the fields but keeps
/// the stored server timestamp, so an identical re-send changes nothing. A
/// losing write changes nothing.
pub open spec fn merged(
    cur: Option<ProgressView>,
    owner: Seq<char>,
    req: UpsertRequestV,
    now: u64,
) -> ProgressView {
    match cur {
        None => fresh_record(owner, req, now),
        Some(c) => if incoming_newer(req, c) {
            fresh_record(owner, req, stamp_after(c, now))
        } else if incoming_ties(req, c) {
            fresh_record(owner, req, c.updated_at)
        } else {
            c
        },
    }
}

proof fn lemma_progress_map_contains(s: Seq<ProgressRecord>, k: (Seq<char>, Seq<char>))
    ensures
        progress_map(s).contains_key(k) <==> exists|i: int|
            0 <= i < s.len() && rec_key(s[i]@) == k,
    decreases s.len(),
{
    if s.len() > 0 {
        lemma_progress_map_contains(s.drop_last(), k);
        if rec_key(s.last()@) == k {
            assert(rec_key(s[s.len() - 1]@) == k);
        } else {
            if progress_map(s).contains_key(k) {
                let i = choose|i: int|
                    0 <= i < s.drop_last().len() && rec_key(s.drop_last()[i]@) == k;
                assert(rec_key(s[i]@) == k);
            }
            if exists|i: int| 0 <= i < s.len() && rec_key(s[i]@) == k {
                let i = choose|i: int| 0 <= i < s.len() && rec_key(s[i]@) == k;
                assert(i < s.len() - 1);
                assert(rec_key(s.drop_last()[i]@) == k);
            }
        }
    }
}

proof fn lemma_progress_map_get(s: Seq<ProgressRecord>, i: int)
    requires
        forall|p: int, q: int|
            0 <= p < q < s.len() ==> rec_key(s[p]@) != rec_key(s[q]@),
        0 <= i < s.len(),
    ensures
        progress_map(s).contains_key(rec_key(s[i]@)),
        progress_map(s)[rec_key(s[i]@)] == s[i]@,
    decreases s.len(),
{
    if i == s.len() - 1 {
        assert(s.last() == s[i]);
    } else {
        assert(forall|p: int, q: int|
            0 <= p < q < s.drop_last().len()
                ==> rec_key(s.drop_last()[p]@) != rec_key(s.drop_last()[q]@));
        lemma_progress_map_get(s.drop_last(), i);
        assert(s.drop_last()[i] == s[i]);
        assert(rec_key(s.last()@) != rec_key(s[i]@));
    }
}

proof fn lemma_progress_map_push(s: Seq<ProgressRecord>, rec: ProgressRecord)
    ensures
        progress_map(s.push(rec)) == progress_map(s).insert(rec_key(rec@), rec@),
{
    assert(s.push(rec).drop_last() =~= s);
    assert(s.push(rec).last() == rec);
}

proof fn lemma_progress_map_update(s: Seq<ProgressRecord>, i: int, rec: ProgressRecord)
    requires
        forall|p: int, q: int|
            0 <= p < q < s.len() ==> rec_key(s[p]@) != rec_key(s[q]@),
        0 <= i < s.len(),
        rec_key(rec@) == rec_key(s[i]@),
    ensures
        progress_map(s.update(i, rec)) == progress_map(s).insert(rec_key(rec@), rec@),
    decreases s.len(),
{
    let t = s.update(i, rec);
    if i == s.len() - 1 {
        assert(t.drop_last() =~= s.drop_last());
        assert(t.last() == rec);
        assert(progress_map(s).insert(rec_key(rec@), rec@) =~= progress_map(
            s.drop_last(),
        ).insert(rec_key(rec@), rec@));
    } else {
        assert(t.drop_last() =~= s.drop_last().update(i, rec));
        assert(t.last() == s.last());
        assert(forall|p: int, q: int|
            0 <= p < q < s.drop_last().len()
                ==> rec_key(s.drop_last()[p]@) != rec_key(s.drop_last()[q]@));
        assert(s.drop_last()[i] == s[i]);
        lemma_progress_map_update(s.drop_last(), i, rec);
        assert(rec_key(s.last()@) != rec_key(rec@));
        assert(progress_map(t) =~= progress_map(s).insert(rec_key(rec@), rec@));
    }
}

/// The progress ledger. It is the only owner of progress records; at most one
/// record is stored per (owner, document) pair.
pub struct ProgressLedger {
    records: Vec<ProgressRecord>,
}

impl View for ProgressLedger {
    type V = Map<(Seq<char>, Seq<char>), ProgressView>;

    closed spec fn view(&self) -> Map<(Seq<char>, Seq<char>), ProgressView> {
        progress_map(self.records@)
    }
}

impl ProgressLedger {
    /// Keys are pairwise distinct and every stored record is valid.
    pub closed spec fn wf(&self) -> bool {
        &&& forall|p: int, q: int|
            0 <= p < q < self.records@.len()
                ==> rec_key(self.records@[p]@) != rec_key(self.records@[q]@)
        &&& forall|i: int| 0 <= i < self.records@.len() ==> valid_stored(self.records@[i]@)
    }

    /// An empty ledger: nothing synced yet.
    pub fn new() -> (r: Self)
        ensures
            r.wf(),
            r@ == Map::<(Seq<char>, Seq<char>), ProgressView>::empty(),
    {
        ProgressLedger { records: Vec::new() }
    }

    /// The index of the record for (owner, document), if one is stored.
    fn find(&self, owner: &String, document: &String) -> (r: Option<usize>)
        requires
            self.wf(),
        ensures
            match r {
                Some(i) => {
                    &&& i < self.records@.len()
                    &&& rec_key(self.records@[i as int]@) == (owner@, document@)
                    &&& self@.contains_key((owner@, document@))
                    &&& self@[(owner@, document@)] == self.records@[i as int]@
                },
                None => !self@.contains_key((owner@, document@)),
            },
    {
        let mut i: usize = 0;
        while i < self.records.len()
            invariant
                self.wf(),
                i <= self.records@.len(),
                forall|j: int|
                    0 <= j < i ==> rec_key(self.records@[j]@) != (owner@, document@),
            decreases self.records@.len() - i,
        {
            if self.records[i].owner == *owner && self.records[i].document == *document {
                proof {
                    lemma_progress_map_get(self.records@, i as int);
                }
                return Some(i);
            }
            i += 1;
        }
        proof {
            lemma_progress_map_contains(self.records@, (owner@, document@));
        }
        None
    }

    /// Pure read of the record stored for (owner, document). `Found` carries
    /// an equal copy of the stored record if and only if one exists.
    pub fn fetch(&self, owner: &String, document: &String) -> (r: FetchOutcome)
        requires
            self.wf(),
        ensures
            match r {
                FetchOutcome::Found(rec) => self@.contains_key((owner@, document@)) && rec@
                    == self@[(owner@, document@)],
                FetchOutcome::NotFound => !self@.contains_key((owner@, document@)),
            },
    {
        match self.find(owner, document) {
            Some(i) => FetchOutcome::Found(self.records[i].duplicate()),
            None => FetchOutcome::NotFound,
        }
    }

    /// Apply one progress write under the merge rule. An invalid write is
    /// rejected with no change; every valid write is accepted and leaves the
    /// stored record for (owner, document) at exactly `merged(...)` of what
    /// was stored before, carrying that record back to the caller. Records of
    /// every other (owner, document) pair are untouched.
    pub fn upsert(&mut self, owner: &String, req: &UpsertRequest, now: u64) -> (r: UpsertOutcome)
        requires
            old(self).wf(),
        ensures
            final(self).wf(),
            !valid_upsert(owner@, req@) ==> r is Rejected && final(self)@ == old(self)@,
            valid_upsert(owner@, req@) ==> final(self)@ == old(self)@.insert(
                (owner@, req@.document),
                merged(ledger_lookup(old(self)@, owner@, req@.document), owner@, req@, now),
            ),
            valid_upsert(owner@, req@) ==> (r matches UpsertOutcome::Accepted(rec) && rec@
                == merged(ledger_lookup(old(self)@, owner@, req@.document), owner@, req@, now)),
    {
        if owner.as_str().is_empty() || req.document.as_str().is_empty() || req.percentage
            > PERCENT_SCALE {
            return UpsertOutcome::Rejected;
        }
        match self.find(owner, &req.document) {
            None => {
                let rec = ProgressRecord {
                    owner: owner.clone(),
                    document: req.document.clone(),
                    location: req.location.clone(),
                    percentage: req.percentage,
                    device: req.device.clone(),
                    device_id: req.device_id.clone(),
                    client_timestamp: req.client_timestamp,
                    updated_at: now,
                };
                let out = rec.duplicate();
                proof {
                    lemma_progress_map_push(self.records@, rec);
                    assert forall|p: int, q: int|
                        0 <= p < q < self.records@.push(rec).len() implies rec_key(
                        self.records@.push(rec)[p]@,
                    ) != rec_key(self.records@.push(rec)[q]@) by {
                        if q == self.records@.len() {
                            assert(self.records@.push(rec)[p] == self.records@[p]);
                            lemma_progress_map_get(self.records@, p);
                        }
                    }
                }
                self.records.push(rec);
                UpsertOutcome::Accepted(out)
            },
            Some(i) => {
                let cur_pct = self.records[i].percentage;
                let cur_ts = self.records[i].client_timestamp;
                let cur_upd = self.records[i].updated_at;
                if req.percentage > cur_pct || (req.percentage == cur_pct && req.client_timestamp
                    > cur_ts) {
                    let stamp = if now >= cur_upd {
                        now
                    } else {
                        cur_upd
                    };
                    let rec = ProgressRecord {
                        owner: owner.clone(),
                        document: req.document.clone(),
                        location: req.location.clone(),
                        percentage: req.percentage,
                        device: req.device.clone(),
                        device_id: req.device_id.clone(),
                        client_timestamp: req.client_timestamp,
                        updated_at: stamp,
                    };
                    let out = rec.duplicate();
                    proof {
                        lemma_progress_map_update(self.records@, i as int, rec);
                    }
                    self.records[i] = rec;
                    UpsertOutcome::Accepted(out)
                } else if req.percentage == cur_pct && req.client_timestamp == cur_ts {
                    let rec = ProgressRecord {
                        owner: owner.clone(),
                        document: req.document.clone(),
                        location: req.location.clone(),
                        percentage: req.percentage,
                        device: req.device.clone(),
                        device_id: req.device_id.clone(),
                        client_timestamp: req.client_timestamp,
                        updated_at: cur_upd,
                    };
                    let out = rec.duplicate();
                    proof {
                        lemma_progress_map_update(self.records@, i as int, rec);
                    }
                    self.records[i] = rec;
                    UpsertOutcome::Accepted(out)
                } else {
                    let out = self.records[i].duplicate();
                    proof {
                        assert(old(self)@.insert(
                            (owner@, req@.document),
                            self.records@[i as int]@,
                        ) =~= old(self)@);
                    }
                    UpsertOutcome::Accepted(out)
                }
            },
        }
    }
}

/// Merge monotonicity: a write with strictly higher percentage than the
/// stored record always wins, so after it the stored record is exactly the
/// applied write (with the clamped server timestamp).
pub proof fn lemma_merge_monotonic(
    cur: ProgressView,
    owner: Seq<char>,
    req: UpsertRequestV,
    now: u64,
)
    requires
        req.percentage > cur.percentage,
    ensures
        merged(Some(cur), owner, req, now) == fresh_record(owner, req, stamp_after(cur, now)),
        merged(Some(cur), owner, req, now).percentage == req.percentage,
        merged(Some(cur), owner, req, now).location == req.location,
        merged(Some(cur), owner, req, now).client_timestamp == req.client_timestamp,
{
}

/// What is stored after a whole sequence of accepted writes by one owner for
/// one document, all applied at server time `now`.
pub open spec fn merged_all(
    cur: Option<ProgressView>,
    owner: Seq<char>,
    reqs: Seq<UpsertRequestV>,
    now: u64,
) -> Option<ProgressView>
    decreases reqs.len(),
{
    if reqs.len() == 0 {
        cur
    } else {
        Some(merged(merged_all(cur, owner, reqs.drop_last(), now), owner, reqs.last(), now))
    }
}

/// Merge monotonicity over whole sequences: writes with strictly increasing
/// percentages each win, so after every prefix the stored record carries the
/// fields of the most recently applied write — in particular after the whole
/// sequence it carries the last write's fields.
pub proof fn lemma_merge_monotonic_sequence(
    cur: Option<ProgressView>,
    owner: Seq<char>,
    reqs: Seq<UpsertRequestV>,
    now: u64,
)
    requires
        reqs.len() > 0,
        forall|i: int, j: int|
            0 <= i < j < reqs.len() ==> reqs[i].percentage < reqs[j].percentage,
        cur matches Some(c) ==> c.percentage < reqs[0].percentage,
    ensures
        merged_all(cur, owner, reqs, now) matches Some(r) && r.percentage == reqs.last().percentage
            && r.location == reqs.last().location && r.client_timestamp
            == reqs.last().client_timestamp && r.device == reqs.last().device && r.device_id
            == reqs.last().device_id && r.owner == owner && r.document == reqs.last().document,
    decreases reqs.len(),
{
    if reqs.len() == 1 {
    } else {
        assert(forall|i: int, j: int|
            0 <= i < j < reqs.drop_last().len()
                ==> reqs.drop_last()[i].percentage < reqs.drop_last()[j].percentage);
        assert(reqs.drop_last()[0] == reqs[0]);
        lemma_merge_monotonic_sequence(cur, owner, reqs.drop_last(), now);
        let prev = merged_all(cur, owner, reqs.drop_last(), now);
        assert(prev matches Some(p) ==> p.percentage == reqs[reqs.len() - 2].percentage);
        assert(reqs[reqs.len() - 2].percentage < reqs.last().percentage);
    }
}

/// Merge stability: a write with strictly lower percentage than the stored
/// record never changes it — and by `upsert`'s contract the call still
/// succeeds, carrying the unchanged stored record.
pub proof fn lemma_merge_stable(
    cur: ProgressView,
    owner: Seq<char>,
    req: UpsertRequestV,
    now: u64,
)
    requires
        req.percentage < cur.percentage,
    ensures
        merged(Some(cur), owner, req, now) == cur,
{
}

/// Merge idempotence: whatever a first write left stored, re-submitting the
/// identical write — at any later (or earlier) server time — leaves the
/// stored record exactly as it was.
pub proof fn lemma_merge_idempotent(
    cur: Option<ProgressView>,
    owner: Seq<char>,
    req: UpsertRequestV,
    now1: u64,
    now2: u64,
)
    ensures
        merged(Some(merged(cur, owner, req, now1)), owner, req, now2) == merged(
            cur,
            owner,
            req,
            now1,
        ),
{
}

/// Owner isolation: a write stored for one owner never changes what any
/// other owner sees, even for the same document.
pub proof fn lemma_owner_isolation(
    m: Map<(Seq<char>, Seq<char>), ProgressView>,
    owner_a: Seq<char>,
    owner_b: Seq<char>,
    doc_a: Seq<char>,
    doc_b: Seq<char>,
    v: ProgressView,
)
    requires
        owner_a != owner_b,
    ensures
        ledger_lookup(m.insert((owner_b, doc_b), v), owner_a, doc_a) == ledger_lookup(
            m,
            owner_a,
            doc_a,
        ),
{
}

/// The server timestamp never decreases across accepted writes for a pair.
pub proof fn lemma_updated_at_monotonic(
    cur: ProgressView,
    owner: Seq<char>,
    req: UpsertRequestV,
    now: u64,
)
    ensures
        merged(Some(cur), owner, req, now).updated_at >= cur.updated_at,
{
}

} // verus!
