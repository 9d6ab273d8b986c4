//! The record store: URL records keyed by monotonically assigned numeric
//! identifiers, with soft deletion and the resolution and registration
//! operations built on top of it.

use vstd::prelude::*;

use crate::error::Error;

verus! {

/// One stored URL record.
pub struct UrlRecord {
    /// The identifier handed out to the public; unique and never reused.
    pub id: u64,
    /// The long-form URL this record resolves to.
    pub target_url: String,
    /// When the record was inserted (seconds since the epoch).
    pub created_at: i64,
    /// When the record was soft-deleted, if it ever was; a record with a
    /// deletion time is invisible to every read.
    pub deleted_at: Option<i64>,
}

/// The mathematical shadow of one record.
pub struct RecordModel {
    pub id: u64,
    pub target_url: Seq<char>,
    pub created_at: i64,
    pub deleted_at: Option<i64>,
}

impl View for UrlRecord {
    type V = RecordModel;

    open spec fn view(&self) -> RecordModel {
        RecordModel {
            id: self.id,
            target_url: self.target_url@,
            created_at: self.created_at,
            deleted_at: self.deleted_at,
        }
    }
}

/// The first record with the given identifier, if any.
pub open spec fn spec_find(recs: Seq<RecordModel>, id: u64) -> Option<RecordModel>
    decreases recs.len(),
{
    if recs.len() == 0 {
        None
    } else if recs[0].id == id {
        Some(recs[0])
    } else {
        spec_find(recs.skip(1), id)
    }
}

/// What a read of the given identifier yields: the stored target URL if a
/// record with that identifier exists and has not been soft-deleted,
/// nothing otherwise.
pub open spec fn spec_resolve(recs: Seq<RecordModel>, id: u64) -> Option<Seq<char>> {
    match spec_find(recs, id) {
        Some(r) => if r.deleted_at is None {
            Some(r.target_url)
        } else {
            None
        },
        None => None,
    }
}

/// The store after the record with the given identifier (if any) has been
/// marked deleted at time `now`.
pub open spec fn spec_mark_deleted(recs: Seq<RecordModel>, id: u64, now: i64) -> Seq<
    RecordModel,
> {
    recs.map_values(
        |r: RecordModel|
            if r.id == id {
                RecordModel { deleted_at: Some(now), ..r }
            } else {
                r
            },
    )
}

/// The store of URL records. Identifiers start at 1 and grow by one with
/// each successful registration, so no identifier is ever issued twice.
pub struct UrlStore {
    records: Vec<UrlRecord>,
    next_id: u64,
}

impl View for UrlStore {
    type V = Seq<RecordModel>;

    closed spec fn view(&self) -> Seq<RecordModel> {
        self.records@.map_values(|r: UrlRecord| r@)
    }
}

impl UrlStore {
    /// The identifier the next successful registration will be assigned.
    pub closed spec fn spec_next_id(&self) -> u64 {
        self.next_id
    }

    /// Well-formedness: identifiers are at least 1, strictly increasing in
    /// insertion order, and all below the next identifier to be issued.
    pub closed spec fn wf(&self) -> bool {
        &&& 1 <= self.next_id
        &&& forall|i: int, j: int|
            0 <= i < j < self@.len() ==> self@[i].id < self@[j].id
        &&& forall|i: int| 0 <= i < self@.len() ==> 1 <= #[trigger] self@[i].id < self.next_id
    }

    /// An empty store; the first identifier issued will be 1.
    pub fn new() -> (s: UrlStore)
        ensures
            s.wf(),
            s@ == Seq::<RecordModel>::empty(),
            s.spec_next_id() == 1,
    {
        let s = UrlStore { records: Vec::new(), next_id: 1 };
        proof {
            assert(s@ =~= Seq::<RecordModel>::empty());
        }
        s
    }

    /// How many records the store holds, soft-deleted ones included.
    pub fn len(&self) -> (n: usize)
        ensures
            n == self@.len(),
    {
        self.records.len()
    }

    /// Registers a new target URL. An empty URL is rejected as bad input;
    /// otherwise, unless the identifier space is exhausted, the record is
    /// appended with the next fresh identifier, which is returned and is
    /// distinct from the identifier of every record already present.
    pub fn create(&mut self, url: String, now: i64) -> (r: Result<u64, Error>)
        requires
            old(self).wf(),
        ensures
            final(self).wf(),
            r is Ok <==> (url@.len() > 0 && old(self).spec_next_id() < u64::MAX),
            match r {
                Ok(id) => {
                    &&& id == old(self).spec_next_id()
                    &&& final(self)@ == old(self)@.push(
                        RecordModel {
                            id,
                            target_url: url@,
                            created_at: now,
                            deleted_at: None,
                        },
                    )
                    &&& final(self).spec_next_id() == id + 1
                    &&& forall|i: int|
                        0 <= i < old(self)@.len() ==> #[trigger] old(self)@[i].id != id
                },
                Err(e) => {
                    &&& final(self)@ == old(self)@
                    &&& final(self).spec_next_id() == old(self).spec_next_id()
                    &&& (e is BadRequest <==> url@.len() == 0)
                    &&& (e is StorageFailure <==> url@.len() > 0)
                },
            },
    {
        if url.as_str().is_empty() {
            return Err(Error::BadRequest("url must not be empty".to_owned()));
        }
        if self.next_id == u64::MAX {
            return Err(Error::StorageFailure("identifier space exhausted".to_owned()));
        }
        let id = self.next_id;
        let rec = UrlRecord { id, target_url: url, created_at: now, deleted_at: None };
        self.records.push(rec);
        self.next_id = id + 1;
        proof {
            assert(self@ =~= old(self)@.push(
                RecordModel {
                    id,
                    target_url: rec.target_url@,
                    created_at: now,
                    deleted_at: None,
                },
            ));
        }
        Ok(id)
    }

    /// Looks up the live record with the given identifier and returns its
    /// target URL; a missing or soft-deleted record yields `NotFound`.
    pub fn resolve(&self, id: u64) -> (r: Result<String, Error>)
        ensures
            match r {
                Ok(url) => spec_resolve(self@, id) == Some(url@),
                Err(e) => e is NotFound && spec_resolve(self@, id) is None,
            },
    {
        let n = self.records.len();
        let mut i: usize = 0;
        proof {
            assert(self@.skip(0) =~= self@);
        }
        while i < n
            invariant
                n == self@.len(),
                i <= n,
                spec_find(self@, id) == spec_find(self@.skip(i as int), id),
            decreases n - i,
        {
            proof {
                assert(self@.skip(i as int)[0] == self@[i as int]);
                assert(self@.skip(i as int).skip(1) =~= self@.skip(i as int + 1));
            }
            let rec = &self.records[i];
            if rec.id == id {
                match rec.deleted_at {
                    Option::None => {
                        return Ok(rec.target_url.clone());
                    },
                    Option::Some(_) => {
                        return Err(Error::NotFound);
                    },
                }
            }
            i = i + 1;
        }
        proof {
            assert(self@.skip(n as int) =~= Seq::<RecordModel>::empty());
        }
        Err(Error::NotFound)
    }

    /// Looks up the live record with the given identifier and returns the
    /// identifier together with its target URL, as the metadata view
    /// reports them; a missing or soft-deleted record yields `NotFound`.
    pub fn meta(&self, id: u64) -> (r: Result<(u64, String), Error>)
        ensures
            match r {
                Ok(p) => p.0 == id && spec_resolve(self@, id) == Some(p.1@),
                Err(e) => e is NotFound && spec_resolve(self@, id) is None,
            },
    {
        match self.resolve(id) {
            Ok(url) => Ok((id, url)),
            Err(e) => Err(e),
        }
    }

    /// Marks the record with the given identifier deleted at time `now`,
    /// making it invisible to every later read; a missing identifier
    /// yields `NotFound`. Deleting a record again overwrites its deletion
    /// time with `now`.
    pub fn soft_delete(&mut self, id: u64, now: i64) -> (r: Result<(), Error>)
        requires
            old(self).wf(),
        ensures
            final(self).wf(),
            final(self).spec_next_id() == old(self).spec_next_id(),
            r is Ok <==> spec_find(old(self)@, id) is Some,
            match r {
                Ok(_) => final(self)@ == spec_mark_deleted(old(self)@, id, now),
                Err(e) => e is NotFound && final(self)@ == old(self)@,
            },
    {
        let n = self.records.len();
        let mut i: usize = 0;
        proof {
            assert(self@.skip(0) =~= self@);
        }
        while i < n
            invariant
                self@ == old(self)@,
                self.next_id == old(self).next_id,
                old(self).wf(),
                n == self@.len(),
                i <= n,
                spec_find(self@, id) == spec_find(self@.skip(i as int), id),
            decreases n - i,
        {
            proof {
                assert(self@.skip(i as int)[0] == self@[i as int]);
                assert(self@.skip(i as int).skip(1) =~= self@.skip(i as int + 1));
            }
            if self.records[i].id == id {
                let url = self.records[i].target_url.clone();
                let created = self.records[i].created_at;
                self.records.set(
                    i,
                    UrlRecord {
                        id,
                        target_url: url,
                        created_at: created,
                        deleted_at: Some(now),
                    },
                );
                proof {
                    let old_recs = old(self)@;
                    let marked = spec_mark_deleted(old(self)@, id, now);
                    assert(marked.len() == old_recs.len());
                    assert(self@.len() == old_recs.len());
                    assert(old_recs[i as int].id == id);
                    assert forall|k: int|
                        0 <= k < old_recs.len() && k != i as int implies old_recs[k].id
                        != id by {
                        if k < i as int {
                            assert(old_recs[k].id < old_recs[i as int].id);
                        } else {
                            assert(old_recs[i as int].id < old_recs[k].id);
                        }
                    }
                    assert forall|k: int| 0 <= k < self@.len() implies self@[k] == marked[k] by {
                        if k == i as int {
                            assert(self@[k] == self.records@[k]@);
                        } else {
                            assert(self@[k] == old_recs[k]);
                        }
                    }
                    assert(self@ =~= marked);
                    assert forall|k: int| 0 <= k < self@.len() implies 1 <= #[trigger] self@[k].id
                        < self.next_id by {
                        assert(self@[k].id == old_recs[k].id);
                    }
                    assert forall|k: int, j: int|
                        0 <= k < j < self@.len() implies self@[k].id < self@[j].id by {
                        assert(self@[k].id == old_recs[k].id);
                        assert(self@[j].id == old_recs[j].id);
                    }
                }
                return Ok(());
            }
            i = i + 1;
        }
        proof {
            assert(self@.skip(n as int) =~= Seq::<RecordModel>::empty());
        }
        Err(Error::NotFound)
    }
}

/// Round-trip: pushing a fresh, live record onto any store in which its
/// identifier does not yet occur makes that identifier resolve to exactly
/// the record's target URL. Together with the contracts of `create` and
/// `resolve`, a registration followed by a resolution of the returned
/// identifier yields the submitted URL unchanged.
pub proof fn lemma_create_round_trip(recs: Seq<RecordModel>, rec: RecordModel)
    requires
        forall|i: int| 0 <= i < recs.len() ==> #[trigger] recs[i].id != rec.id,
        rec.deleted_at is None,
    ensures
        spec_resolve(recs.push(rec), rec.id) == Some(rec.target_url),
    decreases recs.len(),
{
    if recs.len() == 0 {
        assert(recs.push(rec)[0] == rec);
    } else {
        assert(recs.push(rec)[0] == recs[0]);
        assert(recs.push(rec).skip(1) =~= recs.skip(1).push(rec));
        assert(forall|i: int|
            0 <= i < recs.skip(1).len() ==> #[trigger] recs.skip(1)[i].id != rec.id);
        lemma_create_round_trip(recs.skip(1), rec);
    }
}

/// Idempotent reads: what a resolve or metadata lookup returns is a
/// function of the store contents and the identifier alone, so any two
/// reads against the same contents return the same outcome.
pub proof fn lemma_reads_idempotent(first: Seq<RecordModel>, second: Seq<RecordModel>, id: u64)
    requires
        first == second,
    ensures
        spec_resolve(first, id) == spec_resolve(second, id),
{
}

/// Soft-delete exclusion: once the record with an identifier is marked
/// deleted, that identifier no longer resolves, whatever the store held.
pub proof fn lemma_soft_delete_excludes(recs: Seq<RecordModel>, id: u64, now: i64)
    ensures
        spec_resolve(spec_mark_deleted(recs, id, now), id) is None,
    decreases recs.len(),
{
    let marked = spec_mark_deleted(recs, id, now);
    if recs.len() == 0 {
        assert(marked.len() == 0);
    } else {
        assert(marked[0] == if recs[0].id == id {
            RecordModel { deleted_at: Some(now), ..recs[0] }
        } else {
            recs[0]
        });
        if recs[0].id == id {
            assert(spec_find(marked, id) == Some(marked[0]));
        } else {
            assert(marked.skip(1) =~= spec_mark_deleted(recs.skip(1), id, now));
            lemma_soft_delete_excludes(recs.skip(1), id, now);
        }
    }
}

/// Unknown identifier: an empty store resolves nothing, whatever the
/// identifier asked for.
pub proof fn lemma_empty_store_resolves_nothing(id: u64)
    ensures
        spec_resolve(Seq::<RecordModel>::empty(), id) is None,
{
}

/// What well-formedness guarantees about the identifiers, stated over
/// the public view: every identifier is at least 1, below the next
/// identifier to be issued, and identifiers grow strictly in insertion
/// order -- the premise `lemma_identifiers_distinct` asks for.
pub proof fn lemma_wf_identifiers_ordered(s: &UrlStore)
    requires
        s.wf(),
    ensures
        forall|i: int, j: int| 0 <= i < j < s@.len() ==> s@[i].id < s@[j].id,
        forall|i: int| 0 <= i < s@.len() ==> 1 <= #[trigger] s@[i].id < s.spec_next_id(),
{
}

/// Distinct identifiers: in a store whose identifiers grow strictly in
/// insertion order -- which every well-formed store's contract keeps --
/// no two records share an identifier, so no identifier is issued twice.
pub proof fn lemma_identifiers_distinct(recs: Seq<RecordModel>)
    requires
        forall|i: int, j: int| 0 <= i < j < recs.len() ==> recs[i].id < recs[j].id,
    ensures
        forall|i: int, j: int|
            0 <= i < recs.len() && 0 <= j < recs.len() && i != j ==> recs[i].id != recs[j].id,
{
    assert forall|i: int, j: int|
        0 <= i < recs.len() && 0 <= j < recs.len() && i != j implies recs[i].id != recs[j].id by {
        if i < j {
            assert(recs[i].id < recs[j].id);
        } else {
            assert(recs[j].id < recs[i].id);
        }
    }
}

} // verus!
