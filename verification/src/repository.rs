//! The address repository: symbolic names resolved to addresses.
//!
//! A record ties a name to a byte pattern and a signed offset. Resolving a
//! name scans the host image for the record's pattern, adds the offset to
//! the earliest hit and memoizes the result: a name is scanned for at most
//! once, repeat lookups are answered from the cache, and nothing is ever
//! guessed — a failed scan is reported, never papered over with a stale or
//! fabricated address.
//!
//! The host image is handed in as a byte slice plus the address of its
//! first byte; reading process memory is the embedding program's job.

use vstd::prelude::*;

use crate::error::Error;
use crate::pattern::{first_match, pattern_tokens};
use crate::table::{distinct_names, table_insert, table_lookup, table_map};

verus! {

/// One symbol-table record: a unique name, the pattern that locates it, and
/// the signed offset from the pattern's first hit to the wanted address.
#[derive(Debug)]
pub struct AddressRecord {
    pub name: String,
    pub pattern: String,
    pub offset: i64,
}

impl Clone for AddressRecord {
    fn clone(&self) -> (r: Self)
        ensures
            r == *self,
    {
        AddressRecord {
            name: self.name.clone(),
            pattern: self.pattern.clone(),
            offset: self.offset,
        }
    }
}

/// What one record contributes to the repository's model.
pub ghost struct RecordModel {
    pub pattern: Seq<char>,
    pub offset: i64,
}

/// The repository as its contracts see it: the record table, the cache of
/// resolved addresses, and how many scans have been run.
#[verifier::ext_equal]
pub ghost struct RepositoryModel {
    pub records: Map<Seq<char>, RecordModel>,
    pub cache: Map<Seq<char>, u64>,
    pub scans: u64,
}

/// How one resolution ended.
pub ghost enum ResolveOutcome {
    /// The cache already held the address; nothing was scanned.
    Cached { addr: u64 },
    /// The image was scanned and the address is now cached.
    Scanned { addr: u64 },
    /// The name has no record.
    Unmanaged,
    /// The record's pattern is malformed or matches nowhere.
    Mismatch,
}

/// The map denoted by a list of records.
pub open spec fn records_map(records: Seq<AddressRecord>) -> Map<Seq<char>, RecordModel>
    decreases records.len(),
{
    if records.len() == 0 {
        Map::empty()
    } else {
        records_map(records.drop_last()).insert(
            records.last().name@,
            RecordModel { pattern: records.last().pattern@, offset: records.last().offset },
        )
    }
}

/// Well-formedness: no record name occurs twice.
pub open spec fn distinct_record_names(records: Seq<AddressRecord>) -> bool {
    forall|i: int, j: int| 0 <= i < j < records.len() ==> records[i].name@ != records[j].name@
}

/// Each record of a well-formed table is in its map, with its own data.
proof fn lemma_records_map_index(records: Seq<AddressRecord>, i: int)
    requires
        distinct_record_names(records),
        0 <= i < records.len(),
    ensures
        records_map(records).contains_key(records[i].name@),
        records_map(records)[records[i].name@] == (RecordModel {
            pattern: records[i].pattern@,
            offset: records[i].offset,
        }),
    decreases records.len(),
{
    if i + 1 < records.len() {
        assert(distinct_record_names(records.drop_last()));
        assert(records.drop_last()[i] == records[i]);
        lemma_records_map_index(records.drop_last(), i);
    }
}

/// A name on no record is not in the map.
proof fn lemma_records_map_absent(records: Seq<AddressRecord>, name: Seq<char>)
    requires
        forall|i: int| 0 <= i < records.len() ==> records[i].name@ != name,
    ensures
        !records_map(records).contains_key(name),
    decreases records.len(),
{
    if records.len() > 0 {
        lemma_records_map_absent(records.drop_last(), name);
    }
}

/// Overwriting record `i` with an equally named record updates the map at
/// that name.
proof fn lemma_records_update(records: Seq<AddressRecord>, i: int, rec: AddressRecord)
    requires
        distinct_record_names(records),
        0 <= i < records.len(),
        rec.name@ == records[i].name@,
    ensures
        distinct_record_names(records.update(i, rec)),
        records_map(records.update(i, rec)) == records_map(records).insert(
            rec.name@,
            RecordModel { pattern: rec.pattern@, offset: rec.offset },
        ),
    decreases records.len(),
{
    let updated = records.update(i, rec);
    assert(distinct_record_names(updated));
    if i + 1 == records.len() {
        assert(updated.drop_last() =~= records.drop_last());
        assert(records_map(updated) =~= records_map(records).insert(
            rec.name@,
            RecordModel { pattern: rec.pattern@, offset: rec.offset },
        ));
    } else {
        assert(distinct_record_names(records.drop_last()));
        assert(records.drop_last()[i] == records[i]);
        lemma_records_update(records.drop_last(), i, rec);
        assert(updated.drop_last() =~= records.drop_last().update(i, rec));
        assert(updated.last() == records.last());
        assert(records[i].name@ != records.last().name@);
        assert(records_map(updated) =~= records_map(records).insert(
            rec.name@,
            RecordModel { pattern: rec.pattern@, offset: rec.offset },
        ));
    }
}

/// Bind a record in a table with distinct names. An existing record of the
/// same name is overwritten: the last record wins.
fn records_upsert(records: &mut Vec<AddressRecord>, rec: AddressRecord)
    requires
        distinct_record_names(old(records)@),
    ensures
        distinct_record_names(final(records)@),
        records_map(final(records)@) == records_map(old(records)@).insert(
            rec.name@,
            RecordModel { pattern: rec.pattern@, offset: rec.offset },
        ),
{
    let n = records.len();
    let mut i: usize = 0;
    while i < n
        invariant
            n == records@.len(),
            i <= n,
            distinct_record_names(records@),
            records@ == old(records)@,
            forall|j: int| 0 <= j < i ==> records@[j].name@ != rec.name@,
        decreases n - i,
    {
        if records[i].name == rec.name {
            let ghost before = records@;
            proof {
                lemma_records_update(before, i as int, rec);
            }
            records.set(i, rec);
            return ;
        }
        i += 1;
    }
    let ghost before = records@;
    proof {
        lemma_records_map_absent(before, rec.name@);
    }
    records.push(rec);
    proof {
        assert(records@.drop_last() =~= before);
    }
}

/// The address a scan hit resolves to: the hit's address plus the record's
/// signed offset, wrapping around the 64-bit address space.
pub open spec fn resolved_address(hit: u64, offset: i64) -> u64 {
    vstd::wrapping::u64_specs::wrapping_add_signed(hit, offset)
}

/// One more scan, saturating only at the unreachable top of the counter.
pub open spec fn bump_scans(scans: u64) -> u64 {
    if scans == u64::MAX {
        scans
    } else {
        (scans + 1) as u64
    }
}

/// The whole behaviour of one resolution, as a function of the repository
/// model, the name, and the image window: the successor model and the
/// outcome. `resolve` is specified against this function, so that what two
/// consecutive calls do is itself provable.
pub open spec fn resolve_model(
    m: RepositoryModel,
    name: Seq<char>,
    image: Seq<u8>,
    base: u64,
) -> (RepositoryModel, ResolveOutcome) {
    if m.cache.contains_key(name) {
        (m, ResolveOutcome::Cached { addr: m.cache[name] })
    } else if !m.records.contains_key(name) {
        (m, ResolveOutcome::Unmanaged)
    } else {
        let rec = m.records[name];
        match pattern_tokens(rec.pattern) {
            Option::None => (m, ResolveOutcome::Mismatch),
            Option::Some(toks) => {
                if toks.len() == 0 {
                    (m, ResolveOutcome::Mismatch)
                } else {
                    let scanned = RepositoryModel { scans: bump_scans(m.scans), ..m };
                    match first_match(image, toks) {
                        Option::None => (scanned, ResolveOutcome::Mismatch),
                        Option::Some(i) => {
                            let addr = resolved_address((base + i) as u64, rec.offset);
                            (
                                RepositoryModel {
                                    cache: m.cache.insert(name, addr),
                                    ..scanned
                                },
                                ResolveOutcome::Scanned { addr },
                            )
                        },
                    }
                }
            },
        }
    }
}

/// Resolving a name is idempotent: when a resolution succeeds, resolving
/// the same name again, with no state change in between, returns the very
/// same address out of the cache, runs no scan, and leaves the repository
/// as it was — whatever image window the second call is shown.
pub proof fn lemma_resolve_idempotent(
    m: RepositoryModel,
    name: Seq<char>,
    image: Seq<u8>,
    base: u64,
    image2: Seq<u8>,
    base2: u64,
)
    ensures
        ({
            let (m1, out1) = resolve_model(m, name, image, base);
            let (m2, out2) = resolve_model(m1, name, image2, base2);
            match out1 {
                ResolveOutcome::Cached { addr } => out2 == (ResolveOutcome::Cached { addr }) && m2
                    == m1,
                ResolveOutcome::Scanned { addr } => out2 == (ResolveOutcome::Cached { addr }) && m2
                    == m1,
                ResolveOutcome::Unmanaged => m1 == m,
                ResolveOutcome::Mismatch => true,
            }
        }),
{
}

/// The address repository.
pub struct AddressRepository {
    records: Vec<AddressRecord>,
    cache: Vec<(String, u64)>,
    scan_count: u64,
}

impl View for AddressRepository {
    type V = RepositoryModel;

    closed spec fn view(&self) -> RepositoryModel {
        RepositoryModel {
            records: records_map(self.records@),
            cache: table_map(self.cache@),
            scans: self.scan_count,
        }
    }
}

impl AddressRepository {
    /// Well-formedness: record names and cache names are each distinct.
    pub closed spec fn wf(&self) -> bool {
        &&& distinct_record_names(self.records@)
        &&& distinct_names(self.cache@)
    }

    /// Build the repository over a record list. Reading and decoding the
    /// symbol-table file is the embedding program's job; when two records
    /// carry the same name, the later one wins, as it would in the file's
    /// key-value form.
    pub fn initialize(records: Vec<AddressRecord>) -> (r: AddressRepository)
        ensures
            r.wf(),
            r@.records == records_map(records@),
            r@.cache == Map::<Seq<char>, u64>::empty(),
            r@.scans == 0,
    {
        let mut table: Vec<AddressRecord> = Vec::new();
        let n = records.len();
        let mut k: usize = 0;
        proof {
            assert(records_map(table@) =~= Map::<Seq<char>, RecordModel>::empty());
            assert(records_map(records@.take(0)) =~= Map::<Seq<char>, RecordModel>::empty());
        }
        while k < n
            invariant
                n == records@.len(),
                k <= n,
                distinct_record_names(table@),
                records_map(table@) == records_map(records@.take(k as int)),
            decreases n - k,
        {
            proof {
                assert(records@.take(k + 1).drop_last() =~= records@.take(k as int));
                assert(records@.take(k + 1).last() == records@[k as int]);
            }
            let rec = records[k].clone();
            records_upsert(&mut table, rec);
            k += 1;
        }
        proof {
            assert(records@.take(n as int) =~= records@);
        }
        let r = AddressRepository { records: table, cache: Vec::new(), scan_count: 0 };
        proof {
            assert(table_map(r.cache@) =~= Map::<Seq<char>, u64>::empty());
        }
        r
    }

    /// How many times the image has been scanned so far. A cache hit runs
    /// no scan, which this counter makes observable.
    pub fn scans_performed(&self) -> (n: u64)
        ensures
            n == self@.scans,
    {
        self.scan_count
    }

    /// The index of the record with this name, if any.
    fn find_record(&self, name: &str) -> (r: Option<usize>)
        requires
            self.wf(),
        ensures
            match r {
                Option::Some(i) => {
                    &&& i < self.records@.len()
                    &&& self.records@[i as int].name@ == name@
                    &&& self@.records.contains_key(name@)
                    &&& self@.records[name@] == (RecordModel {
                        pattern: self.records@[i as int].pattern@,
                        offset: self.records@[i as int].offset,
                    })
                },
                Option::None => !self@.records.contains_key(name@),
            },
    {
        let key: String = name.to_owned();
        let n = self.records.len();
        let mut i: usize = 0;
        while i < n
            invariant
                n == self.records@.len(),
                i <= n,
                key@ == name@,
                self.wf(),
                forall|j: int| 0 <= j < i ==> self.records@[j].name@ != name@,
            decreases n - i,
        {
            if self.records[i].name == key {
                proof {
                    lemma_records_map_index(self.records@, i as int);
                }
                return Some(i);
            }
            i += 1;
        }
        proof {
            lemma_records_map_absent(self.records@, name@);
        }
        None
    }

    /// Resolve a name to an address inside the image window.
    ///
    /// A cached name is answered at once, with no scan and no state change.
    /// An unknown name fails with `PatternUnmanaged`. Otherwise the image
    /// is scanned for the record's pattern: a malformed pattern or a
    /// pattern that matches nowhere fails with `PatternMismatch`, and the
    /// earliest hit, shifted by the record's signed offset, is cached and
    /// returned. The whole transition is `resolve_model` of the state
    /// before the call.
    pub fn get_address(&mut self, name: &str, image: &[u8], base: u64) -> (r: Result<u64, Error>)
        requires
            old(self).wf(),
            base + image@.len() <= u64::MAX,
        ensures
            final(self).wf(),
            final(self)@ == resolve_model(old(self)@, name@, image@, base).0,
            ({
                let out = resolve_model(old(self)@, name@, image@, base).1;
                match out {
                    ResolveOutcome::Cached { addr } => r == Result::<u64, Error>::Ok(addr),
                    ResolveOutcome::Scanned { addr } => r == Result::<u64, Error>::Ok(addr),
                    ResolveOutcome::Unmanaged => r is Err && r->Err_0 is PatternUnmanaged
                        && r->Err_0->PatternUnmanaged_0@ == name@,
                    ResolveOutcome::Mismatch => r is Err && r->Err_0 is PatternMismatch
                        && r->Err_0->PatternMismatch_0@ == name@,
                }
            }),
    {
        if let Some(addr) = table_lookup(&self.cache, name) {
            return Ok(addr);
        }
        let idx = match self.find_record(name) {
            Option::None => {
                return Err(Error::PatternUnmanaged(name.to_owned()));
            },
            Option::Some(idx) => idx,
        };
        let toks = match crate::pattern::parse_pattern(self.records[idx].pattern.as_str()) {
            Result::Err(_) => {
                return Err(Error::PatternMismatch(name.to_owned()));
            },
            Result::Ok(toks) => toks,
        };
        if self.scan_count < u64::MAX {
            self.scan_count = self.scan_count + 1;
        }
        let offset = self.records[idx].offset;
        match crate::pattern::scan_first_tokens(image, &toks) {
            Option::None => Err(Error::PatternMismatch(name.to_owned())),
            Option::Some(i) => {
                proof {
                    crate::pattern::lemma_first_match_props(image@, toks@);
                }
                let hit: u64 = base + (i as u64);
                let addr = hit.wrapping_add_signed(offset);
                table_insert(&mut self.cache, name, addr);
                Ok(addr)
            },
        }
    }

    /// Scan the image window for an ad hoc pattern, bypassing the record
    /// table and the cache, and return the earliest hit's address. The scan
    /// is still counted. A malformed or empty pattern, like a pattern that
    /// matches nowhere, yields `None`.
    pub fn pattern_scan(&mut self, pattern_text: &str, image: &[u8], base: u64) -> (r: Option<
        u64,
    >)
        requires
            old(self).wf(),
            base + image@.len() <= u64::MAX,
        ensures
            final(self).wf(),
            final(self)@.records == old(self)@.records,
            final(self)@.cache == old(self)@.cache,
            match pattern_tokens(pattern_text@) {
                Option::None => r is None && final(self)@.scans == old(self)@.scans,
                Option::Some(toks) => {
                    if toks.len() == 0 {
                        r is None && final(self)@.scans == old(self)@.scans
                    } else {
                        final(self)@.scans == bump_scans(old(self)@.scans) && match first_match(
                            image@,
                            toks,
                        ) {
                            Option::None => r is None,
                            Option::Some(i) => r == Some((base + i) as u64),
                        }
                    }
                },
            },
    {
        let toks = match crate::pattern::parse_pattern(pattern_text) {
            Result::Err(_) => {
                return None;
            },
            Result::Ok(toks) => toks,
        };
        if self.scan_count < u64::MAX {
            self.scan_count = self.scan_count + 1;
        }
        match crate::pattern::scan_first_tokens(image, &toks) {
            Option::None => None,
            Option::Some(i) => {
                proof {
                    crate::pattern::lemma_first_match_props(image@, toks@);
                }
                Some(base + (i as u64))
            },
        }
    }
}

} // verus!
