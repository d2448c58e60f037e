//! The storage boundary: what a store reports when it fails, the rule of
//! its compare-and-swap, and an in-memory store that keeps that rule.
//!
//! A caller reads the state of a key together with a concurrency token,
//! decides, and writes the new state under the token it read. The write
//! goes through only while the token is still the key's current one; each
//! write gives the key a new token. The library never retries: a caller
//! that meets a conflict reads and decides again.

use crate::types::{LimiterType, RateLimiterError, Verdict};
use vstd::prelude::*;

verus! {

/// A failure of the store itself (a timeout, an outage, corruption at
/// rest). The library passes it on and never looks inside.
#[derive(Debug)]
pub struct BackendError {
    pub message: String,
}

/// What a store holds: for each key that was written, its bytes and its
/// current token.
pub type Contents = Map<Seq<u8>, (Seq<u8>, u64)>;

/// How a conditional write ends.
pub enum WriteOutcome {
    /// The bytes were stored and the key has a new token.
    Written,
    /// The key's token is no longer the expected one. Nothing was stored.
    Conflict,
    /// The key's token cannot be advanced. Nothing was stored.
    Exhausted,
}

/// The current token of a key: zero for a key that was never written.
pub open spec fn token_of(contents: Contents, key: Seq<u8>) -> u64 {
    if contents.contains_key(key) {
        contents[key].1
    } else {
        0
    }
}

/// How a write under `expected` ends on `contents`.
pub open spec fn write_outcome(contents: Contents, key: Seq<u8>, expected: u64) -> WriteOutcome {
    if token_of(contents, key) != expected {
        WriteOutcome::Conflict
    } else if expected == u64::MAX {
        WriteOutcome::Exhausted
    } else {
        WriteOutcome::Written
    }
}

/// What the store holds after a write of `bytes` under `expected`.
pub open spec fn written(contents: Contents, key: Seq<u8>, expected: u64, bytes: Seq<u8>) -> Contents {
    if write_outcome(contents, key, expected) is Written {
        contents.insert(key, (bytes, (expected + 1) as u64))
    } else {
        contents
    }
}

/// Of two writes to one key under one token, at most one goes through,
/// whatever order they arrive in: where the first is written, the second
/// meets a conflict and leaves the first one's bytes in place; where the
/// first is not written, neither is the second. The first is written
/// exactly where the token is the key's current one and can be advanced.
pub proof fn lemma_one_write_wins(
    contents: Contents,
    key: Seq<u8>,
    token: u64,
    first: Seq<u8>,
    second: Seq<u8>,
)
    ensures
        write_outcome(contents, key, token) is Written <==> token_of(contents, key) == token
            && token < u64::MAX,
        write_outcome(contents, key, token) is Written ==> {
            let after = written(contents, key, token, first);
            &&& write_outcome(after, key, token) is Conflict
            &&& written(after, key, token, second) == after
            &&& after[key] == (first, (token + 1) as u64)
        },
        !(write_outcome(contents, key, token) is Written) ==> {
            let after = written(contents, key, token, first);
            &&& after == contents
            &&& !(write_outcome(after, key, token) is Written)
        },
{
}

/// What a reader finds under a key: its bytes, or nothing for a key that
/// was never written.
pub open spec fn value_of(contents: Contents, key: Seq<u8>) -> Option<Seq<u8>> {
    if contents.contains_key(key) {
        Some(contents[key].0)
    } else {
        None
    }
}

/// Two attempts that read one key at the same moment, and that the limiter
/// both admits, decide on the same bytes, for the answer depends on nothing
/// but what was read, the time and the cost. Of their two writes under the
/// token that both read, the first is stored, once, and the second meets a
/// conflict: no second admission is recorded on a stale read. This holds
/// for every token that can be advanced.
pub proof fn lemma_concurrent_attempts<L: LimiterType>(
    limiter: L,
    contents: Contents,
    key: Seq<u8>,
    now: u64,
    cost: u32,
)
    requires
        token_of(contents, key) < u64::MAX,
    ensures
        limiter.verdict(value_of(contents, key), now, cost) matches Verdict::Admitted(bytes) ==> {
            let token = token_of(contents, key);
            let after = written(contents, key, token, bytes);
            &&& write_outcome(contents, key, token) is Written
            &&& value_of(after, key) == Some(bytes)
            &&& token_of(after, key) == token + 1
            &&& write_outcome(after, key, token) is Conflict
            &&& written(after, key, token, bytes) == after
        },
{
}

/// A write to one key leaves every other key as it was.
pub proof fn lemma_keys_independent(
    contents: Contents,
    key: Seq<u8>,
    token: u64,
    bytes: Seq<u8>,
    other: Seq<u8>,
)
    requires
        other != key,
    ensures
        written(contents, key, token, bytes).contains_key(other) == contents.contains_key(other),
        written(contents, key, token, bytes)[other] == contents[other],
        token_of(written(contents, key, token, bytes), other) == token_of(contents, other),
{
}

/// Whether two byte strings are the same.
pub fn bytes_equal(a: &[u8], b: &[u8]) -> (same: bool)
    ensures
        same == (a@ == b@),
{
    if a.len() != b.len() {
        return false;
    }
    let mut i: usize = 0;
    while i < a.len()
        invariant
            a@.len() == b@.len(),
            i <= a@.len(),
            forall|j: int| 0 <= j < i ==> a@[j] == b@[j],
        decreases a@.len() - i,
    {
        if a[i] != b[i] {
            return false;
        }
        i += 1;
    }
    assert(a@ =~= b@);
    true
}

/// A copy of a byte string.
pub fn copy_bytes(bytes: &[u8]) -> (copy: Vec<u8>)
    ensures
        copy@ == bytes@,
{
    let mut copy: Vec<u8> = Vec::new();
    let mut i: usize = 0;
    while i < bytes.len()
        invariant
            i <= bytes@.len(),
            copy@ == bytes@.subrange(0, i as int),
        decreases bytes@.len() - i,
    {
        copy.push(bytes[i]);
        i += 1;
        assert(copy@ =~= bytes@.subrange(0, i as int));
    }
    assert(copy@ =~= bytes@);
    copy
}

/// One key of a store, with its bytes and its current token.
struct Record {
    key: Vec<u8>,
    value: Vec<u8>,
    token: u64,
}

/// A store in memory: one record for each key that was written.
pub struct MemoryBackend {
    records: Vec<Record>,
}

/// The place of `key` among `records`, where it has one.
spec fn holds_at(records: Seq<Record>, key: Seq<u8>, i: int) -> bool {
    0 <= i < records.len() && records[i].key@ == key
}

/// No key has two records.
spec fn keys_distinct(records: Seq<Record>) -> bool {
    forall|i: int, j: int|
        0 <= i < records.len() && 0 <= j < records.len() && #[trigger] records[i].key@
            == #[trigger] records[j].key@ ==> i == j
}

/// What a list of records holds.
spec fn contents_of(records: Seq<Record>) -> Contents {
    Map::new(
        |key: Seq<u8>| exists|i: int| holds_at(records, key, i),
        |key: Seq<u8>|
            {
                let i = choose|i: int| holds_at(records, key, i);
                (records[i].value@, records[i].token)
            },
    )
}

/// A key that has a record is held with that record's bytes and token.
proof fn lemma_contents_at(records: Seq<Record>, i: int)
    requires
        keys_distinct(records),
        0 <= i < records.len(),
    ensures
        contents_of(records).contains_key(records[i].key@),
        contents_of(records)[records[i].key@] == (records[i].value@, records[i].token),
{
    let key = records[i].key@;
    assert(holds_at(records, key, i));
    let j = choose|j: int| holds_at(records, key, j);
    assert(holds_at(records, key, j));
}

/// A key without a record is not held.
proof fn lemma_contents_absent(records: Seq<Record>, key: Seq<u8>)
    requires
        forall|i: int| 0 <= i < records.len() ==> records[i].key@ != key,
    ensures
        !contents_of(records).contains_key(key),
{
    assert forall|i: int| !holds_at(records, key, i) by {}
}

/// Replacing the record of a key by another record of that key stores the
/// new bytes and token under the key, and changes nothing else.
proof fn lemma_contents_update(records: Seq<Record>, i: int, record: Record)
    requires
        keys_distinct(records),
        0 <= i < records.len(),
        record.key@ == records[i].key@,
    ensures
        keys_distinct(records.update(i, record)),
        contents_of(records.update(i, record)) == contents_of(records).insert(
            record.key@,
            (record.value@, record.token),
        ),
{
    let after = records.update(i, record);
    assert forall|a: int, b: int|
        0 <= a < after.len() && 0 <= b < after.len() && #[trigger] after[a].key@
            == #[trigger] after[b].key@ implies a == b by {
        assert(records[a].key@ == after[a].key@);
        assert(records[b].key@ == after[b].key@);
    }
    let expected = contents_of(records).insert(record.key@, (record.value@, record.token));
    assert forall|key: Seq<u8>| #[trigger]
        contents_of(after).contains_key(key) == expected.contains_key(key) by {
        if contents_of(after).contains_key(key) {
            let a = choose|a: int| holds_at(after, key, a);
            assert(holds_at(records, key, a));
        }
        if contents_of(records).contains_key(key) {
            let a = choose|a: int| holds_at(records, key, a);
            assert(holds_at(after, key, a));
        }
        if key == record.key@ {
            assert(holds_at(after, key, i));
        }
    }
    assert forall|key: Seq<u8>| #[trigger]
        contents_of(after).contains_key(key) implies contents_of(after)[key] == expected[key] by {
        let a = choose|a: int| holds_at(after, key, a);
        assert(holds_at(after, key, a));
        lemma_contents_at(after, a);
        if key != record.key@ {
            assert(records[a].key@ == key);
            lemma_contents_at(records, a);
        } else {
            assert(after[i].key@ == after[a].key@);
        }
    }
    assert(contents_of(after) =~= expected);
}

/// Adding a record for a key that has none stores its bytes and token
/// under the key, and changes nothing else.
proof fn lemma_contents_push(records: Seq<Record>, record: Record)
    requires
        keys_distinct(records),
        forall|i: int| 0 <= i < records.len() ==> records[i].key@ != record.key@,
    ensures
        keys_distinct(records.push(record)),
        contents_of(records.push(record)) == contents_of(records).insert(
            record.key@,
            (record.value@, record.token),
        ),
{
    let after = records.push(record);
    let last = records.len() as int;
    assert forall|a: int, b: int|
        0 <= a < after.len() && 0 <= b < after.len() && #[trigger] after[a].key@
            == #[trigger] after[b].key@ implies a == b by {
        if a < last {
            assert(records[a].key@ == after[a].key@);
        }
        if b < last {
            assert(records[b].key@ == after[b].key@);
        }
    }
    let expected = contents_of(records).insert(record.key@, (record.value@, record.token));
    assert forall|key: Seq<u8>| #[trigger]
        contents_of(after).contains_key(key) == expected.contains_key(key) by {
        if contents_of(after).contains_key(key) {
            let a = choose|a: int| holds_at(after, key, a);
            if a < last {
                assert(holds_at(records, key, a));
            }
        }
        if contents_of(records).contains_key(key) {
            let a = choose|a: int| holds_at(records, key, a);
            assert(holds_at(after, key, a));
        }
        if key == record.key@ {
            assert(holds_at(after, key, last));
        }
    }
    assert forall|key: Seq<u8>| #[trigger]
        contents_of(after).contains_key(key) implies contents_of(after)[key] == expected[key] by {
        let a = choose|a: int| holds_at(after, key, a);
        assert(holds_at(after, key, a));
        lemma_contents_at(after, a);
        if key != record.key@ {
            assert(a < last);
            assert(records[a].key@ == key);
            lemma_contents_at(records, a);
        } else {
            assert(after[last].key@ == after[a].key@);
        }
    }
    assert(contents_of(after) =~= expected);
}

impl MemoryBackend {
    #[verifier::type_invariant]
    spec fn well_formed(self) -> bool {
        keys_distinct(self.records@)
    }

    /// What the store holds.
    pub closed spec fn view(&self) -> Contents {
        contents_of(self.records@)
    }

    /// A store that holds nothing.
    pub fn new() -> (store: Self)
        ensures
            store@ == Map::<Seq<u8>, (Seq<u8>, u64)>::empty(),
    {
        let store = MemoryBackend { records: Vec::new() };
        proof {
            lemma_contents_absent_all(store.records@);
        }
        store
    }

    /// The place of `key` among the records, where it has one.
    fn find(&self, key: &[u8]) -> (found: Option<usize>)
        ensures
            found matches Some(i) ==> i < self.records@.len() && self.records@[i as int].key@
                == key@,
            found is None ==> forall|i: int|
                0 <= i < self.records@.len() ==> self.records@[i].key@ != key@,
    {
        let mut i: usize = 0;
        while i < self.records.len()
            invariant
                i <= self.records@.len(),
                forall|j: int| 0 <= j < i ==> self.records@[j].key@ != key@,
            decreases self.records@.len() - i,
        {
            if bytes_equal(self.records[i].key.as_slice(), key) {
                return Some(i);
            }
            i += 1;
        }
        None
    }

    /// Reads a key: its bytes and its current token, or nothing for a key
    /// that was never written.
    pub fn get(&self, key: &[u8]) -> (r: Option<(Vec<u8>, u64)>)
        ensures
            r is Some <==> self@.contains_key(key@),
            r matches Some(held) ==> self@[key@] == (held.0@, held.1),
    {
        proof {
            use_type_invariant(self);
        }
        match self.find(key) {
            Some(i) => {
                proof {
                    lemma_contents_at(self.records@, i as int);
                }
                Some((copy_bytes(self.records[i].value.as_slice()), self.records[i].token))
            },
            None => {
                proof {
                    lemma_contents_absent(self.records@, key@);
                }
                None
            },
        }
    }

    /// Stores `new_bytes` under `key`, provided that `expected_token` is
    /// still the key's current token (zero for a key that was never
    /// written). The key then has the next token. A stale token is a
    /// `BackendConflict`; a token that cannot be advanced is a
    /// `BackendError`. Either way nothing changes.
    pub fn compare_and_swap(&mut self, key: &[u8], expected_token: u64, new_bytes: Vec<u8>) -> (r:
        Result<(), RateLimiterError>)
        ensures
            final(self)@ == written(old(self)@, key@, expected_token, new_bytes@),
            match write_outcome(old(self)@, key@, expected_token) {
                WriteOutcome::Written => r is Ok,
                WriteOutcome::Conflict => r matches Err(RateLimiterError::BackendConflict),
                WriteOutcome::Exhausted => r matches Err(RateLimiterError::BackendError(_)),
            },
            r matches Err(RateLimiterError::BackendError(e)) ==> e.message@
                == "concurrency token exhausted"@,
    {
        proof {
            use_type_invariant(&*self);
        }
        let found = self.find(key);
        let current: u64 = match found {
            Some(i) => self.records[i].token,
            None => 0,
        };
        proof {
            match found {
                Some(i) => lemma_contents_at(self.records@, i as int),
                None => lemma_contents_absent(self.records@, key@),
            }
        }
        if current != expected_token {
            return Err(RateLimiterError::BackendConflict);
        }
        if expected_token == u64::MAX {
            return Err(
                RateLimiterError::BackendError(
                    BackendError { message: "concurrency token exhausted".to_string() },
                ),
            );
        }
        let record = Record { key: copy_bytes(key), value: new_bytes, token: expected_token + 1 };
        // The records leave the store while they change, so that the store
        // is well-formed at every step.
        let mut records: Vec<Record> = Vec::new();
        proof {
            lemma_contents_absent_all(records@);
        }
        core::mem::swap(&mut self.records, &mut records);
        match found {
            Some(i) => {
                proof {
                    lemma_contents_update(records@, i as int, record);
                }
                records.set(i, record);
            },
            None => {
                proof {
                    lemma_contents_push(records@, record);
                }
                records.push(record);
            },
        }
        self.records = records;
        Ok(())
    }
}

/// A list without records holds nothing.
proof fn lemma_contents_absent_all(records: Seq<Record>)
    requires
        records.len() == 0,
    ensures
        keys_distinct(records),
        contents_of(records) == Map::<Seq<u8>, (Seq<u8>, u64)>::empty(),
{
    assert forall|key: Seq<u8>| !contents_of(records).contains_key(key) by {
        lemma_contents_absent(records, key);
    }
    assert(contents_of(records) =~= Map::<Seq<u8>, (Seq<u8>, u64)>::empty());
}

} // verus!
