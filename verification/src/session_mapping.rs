//! The session identity map: a persisted bridge between remote agent
//! session identifiers and local terminal session names.
//!
//! The table never holds two entries with the same remote identifier:
//! inserting overwrites (last write wins). Several remote identifiers may
//! point to the same local name; the reverse lookup returns the first in
//! table order. Persisting the table to its file is the caller's concern:
//! it mirrors `list` after each change.

use vstd::prelude::*;

use crate::error::TmuxError;
use crate::text::u64_string;

verus! {

/// One entry linking a remote agent session to a local terminal session.
#[derive(Debug, Clone)]
pub struct SessionMapping {
    pub opencode_session_id: String,
    pub tmux_session_name: String,
    pub created_at: String,
}

/// No two entries share a remote identifier.
pub open spec fn mapping_keys_unique(ms: Seq<SessionMapping>) -> bool {
    forall|i: int, j: int|
        0 <= i < j < ms.len() ==> (#[trigger] ms[i]).opencode_session_id@ != (
        #[trigger] ms[j]).opencode_session_id@
}

/// The first entry with remote identifier `id`, if any.
pub open spec fn spec_lookup_remote(ms: Seq<SessionMapping>, id: Seq<char>) -> Option<
    SessionMapping,
>
    decreases ms.len(),
{
    if ms.len() == 0 {
        None
    } else if ms[0].opencode_session_id@ == id {
        Some(ms[0])
    } else {
        spec_lookup_remote(ms.drop_first(), id)
    }
}

/// The first entry with local name `name`, if any.
pub open spec fn spec_lookup_local(ms: Seq<SessionMapping>, name: Seq<char>) -> Option<
    SessionMapping,
>
    decreases ms.len(),
{
    if ms.len() == 0 {
        None
    } else if ms[0].tmux_session_name@ == name {
        Some(ms[0])
    } else {
        spec_lookup_local(ms.drop_first(), name)
    }
}

/// `ms` without any entry whose remote identifier is `id`.
pub open spec fn spec_remove_remote(ms: Seq<SessionMapping>, id: Seq<char>) -> Seq<SessionMapping>
    decreases ms.len(),
{
    if ms.len() == 0 {
        Seq::empty()
    } else if ms[0].opencode_session_id@ == id {
        spec_remove_remote(ms.drop_first(), id)
    } else {
        seq![ms[0]] + spec_remove_remote(ms.drop_first(), id)
    }
}

/// The persisted bidirectional table, keyed by remote identifier.
pub struct SessionMappingStore {
    mappings: Vec<SessionMapping>,
}

impl SessionMappingStore {
    /// The entries of the table, in insertion order.
    pub closed spec fn entries(&self) -> Seq<SessionMapping> {
        self.mappings@
    }

    /// Well-formedness: the table never holds two entries with the same
    /// remote identifier. `new` establishes it and every mutation
    /// preserves it.
    pub open spec fn wf(&self) -> bool {
        mapping_keys_unique(self.entries())
    }

    /// An empty table.
    pub fn new() -> (r: SessionMappingStore)
        ensures
            r.entries().len() == 0,
            r.wf(),
    {
        SessionMappingStore { mappings: Vec::new() }
    }

    /// Upserts the mapping for `opencode_id`: any prior entry for that
    /// remote identifier is overwritten, every other entry is untouched.
    /// The entry is stamped with the current wall-clock time.
    pub fn insert(&mut self, opencode_id: String, tmux_name: String) -> (r: Result<(), TmuxError>)
        requires
            old(self).wf(),
        ensures
            r is Ok,
            final(self).wf(),
            ({
                let found = spec_lookup_remote(final(self).entries(), opencode_id@);
                found matches Some(m) && m.opencode_session_id@ == opencode_id@
                    && m.tmux_session_name@ == tmux_name@
            }),
            forall|id: Seq<char>|
                id != opencode_id@ ==> #[trigger] spec_lookup_remote(final(self).entries(), id)
                    == spec_lookup_remote(old(self).entries(), id),
    {
        let millis = crate::runtime::current_unix_millis();
        let entry = SessionMapping {
            opencode_session_id: opencode_id.clone(),
            tmux_session_name: tmux_name,
            created_at: u64_string(millis),
        };
        let n = self.mappings.len();
        let mut i: usize = 0;
        while i < n
            invariant
                n == self.mappings@.len(),
                self.mappings@ == old(self).mappings@,
                mapping_keys_unique(self.mappings@),
                entry.opencode_session_id@ == opencode_id@,
                entry.tmux_session_name@ == tmux_name@,
                i <= n,
                forall|k: int|
                    0 <= k < i ==> (#[trigger] self.mappings@[k]).opencode_session_id@
                        != opencode_id@,
            decreases n - i,
        {
            if self.mappings[i].opencode_session_id == opencode_id {
                let ghost before = self.mappings@;
                self.mappings.remove(i);
                self.mappings.insert(i, entry);
                proof {
                    assert(self.mappings@ =~= before.update(i as int, entry));
                    lemma_lookup_after_update(before, i as int, entry);
                    assert(mapping_keys_unique(self.mappings@)) by {
                        assert(forall|k: int|
                            0 <= k < self.mappings@.len() && k != i
                                ==> (#[trigger] self.mappings@[k]).opencode_session_id@
                                == before[k].opencode_session_id@);
                    }
                    assert(spec_lookup_remote(self.mappings@, opencode_id@) == Some(entry));
                    assert(entry.tmux_session_name@ == tmux_name@);
                }
                return Ok(());
            }
            i = i + 1;
        }
        let ghost before = self.mappings@;
        self.mappings.push(entry);
        proof {
            lemma_lookup_after_push(before, self.mappings@.last());
            assert(mapping_keys_unique(self.mappings@)) by {
                assert(forall|k: int|
                    0 <= k < before.len() ==> (#[trigger] self.mappings@[k]).opencode_session_id@
                        == before[k].opencode_session_id@);
            }
        }
        Ok(())
    }

    /// The local session name mapped from `opencode_id`, if any.
    pub fn lookup_tmux(&self, opencode_id: &str) -> (r: Option<String>)
        ensures
            (match spec_lookup_remote(self.entries(), opencode_id@) {
                Some(m) => r matches Some(s) && s@ == m.tmux_session_name@,
                None => r is None,
            }),
    {
        let n = self.mappings.len();
        let key = String::from_str(opencode_id);
        let mut i: usize = 0;
        proof {
            assert(self.entries().skip(0) =~= self.entries());
        }
        while i < n
            invariant
                n == self.mappings@.len(),
                key@ == opencode_id@,
                i <= n,
                spec_lookup_remote(self.entries(), opencode_id@) == spec_lookup_remote(
                    self.entries().skip(i as int),
                    opencode_id@,
                ),
                forall|k: int|
                    0 <= k < i ==> (#[trigger] self.mappings@[k]).opencode_session_id@
                        != opencode_id@,
            decreases n - i,
        {
            proof {
                assert(self.entries().skip(i as int)[0] == self.mappings@[i as int]);
                assert(self.entries().skip(i as int).drop_first() =~= self.entries().skip(i + 1));
            }
            if self.mappings[i].opencode_session_id == key {
                return Some(self.mappings[i].tmux_session_name.clone());
            }
            i = i + 1;
        }
        proof {
            assert(self.entries().skip(n as int) =~= Seq::<SessionMapping>::empty());
        }
        None
    }

    /// The remote identifier of the first entry naming `tmux_name`, if
    /// any.
    pub fn lookup_opencode(&self, tmux_name: &str) -> (r: Option<String>)
        ensures
            (match spec_lookup_local(self.entries(), tmux_name@) {
                Some(m) => r matches Some(s) && s@ == m.opencode_session_id@,
                None => r is None,
            }),
    {
        let n = self.mappings.len();
        let key = String::from_str(tmux_name);
        let mut i: usize = 0;
        proof {
            assert(self.entries().skip(0) =~= self.entries());
        }
        while i < n
            invariant
                n == self.mappings@.len(),
                key@ == tmux_name@,
                i <= n,
                spec_lookup_local(self.entries(), tmux_name@) == spec_lookup_local(
                    self.entries().skip(i as int),
                    tmux_name@,
                ),
                forall|k: int|
                    0 <= k < i ==> (#[trigger] self.mappings@[k]).tmux_session_name@ != tmux_name@,
            decreases n - i,
        {
            proof {
                assert(self.entries().skip(i as int)[0] == self.mappings@[i as int]);
                assert(self.entries().skip(i as int).drop_first() =~= self.entries().skip(i + 1));
            }
            if self.mappings[i].tmux_session_name == key {
                return Some(self.mappings[i].opencode_session_id.clone());
            }
            i = i + 1;
        }
        proof {
            assert(self.entries().skip(n as int) =~= Seq::<SessionMapping>::empty());
        }
        None
    }

    /// Drops the mapping for `opencode_id`, if present.
    pub fn remove(&mut self, opencode_id: &str) -> (r: Result<(), TmuxError>)
        requires
            old(self).wf(),
        ensures
            r is Ok,
            final(self).wf(),
            final(self).entries() == spec_remove_remote(old(self).entries(), opencode_id@),
    {
        let n = self.mappings.len();
        let key = String::from_str(opencode_id);
        let mut i: usize = 0;
        while i < n
            invariant
                n == self.mappings@.len(),
                self.mappings@ == old(self).mappings@,
                mapping_keys_unique(self.mappings@),
                key@ == opencode_id@,
                i <= n,
                forall|k: int|
                    0 <= k < i ==> (#[trigger] self.mappings@[k]).opencode_session_id@
                        != opencode_id@,
            decreases n - i,
        {
            if self.mappings[i].opencode_session_id == key {
                let ghost before = self.mappings@;
                self.mappings.remove(i);
                proof {
                    assert(self.mappings@ =~= before.take(i as int) + before.skip(i + 1));
                    lemma_remove_at(before, i as int, opencode_id@);
                    assert(mapping_keys_unique(self.mappings@)) by {
                        assert(forall|k: int|
                            0 <= k < i ==> (#[trigger] self.mappings@[k]).opencode_session_id@
                                == before[k].opencode_session_id@);
                        assert(forall|k: int|
                            i <= k < self.mappings@.len()
                                ==> (#[trigger] self.mappings@[k]).opencode_session_id@ == before[k
                                + 1].opencode_session_id@);
                    }
                }
                return Ok(());
            }
            i = i + 1;
        }
        proof {
            lemma_remove_absent(self.mappings@, opencode_id@);
        }
        Ok(())
    }

    /// A copy of every entry, in table order.
    pub fn list(&self) -> (r: Vec<SessionMapping>)
        ensures
            r@.len() == self.entries().len(),
            forall|i: int|
                0 <= i < r@.len() ==> {
                    let m = self.entries()[i];
                    &&& (#[trigger] r@[i]).opencode_session_id@ == m.opencode_session_id@
                    &&& r@[i].tmux_session_name@ == m.tmux_session_name@
                    &&& r@[i].created_at@ == m.created_at@
                },
    {
        let n = self.mappings.len();
        let mut r: Vec<SessionMapping> = Vec::new();
        let mut i: usize = 0;
        while i < n
            invariant
                n == self.mappings@.len(),
                i <= n,
                r@.len() == i,
                forall|k: int|
                    0 <= k < i ==> {
                        let m = self.entries()[k];
                        &&& (#[trigger] r@[k]).opencode_session_id@ == m.opencode_session_id@
                        &&& r@[k].tmux_session_name@ == m.tmux_session_name@
                        &&& r@[k].created_at@ == m.created_at@
                    },
            decreases n - i,
        {
            r.push(
                SessionMapping {
                    opencode_session_id: self.mappings[i].opencode_session_id.clone(),
                    tmux_session_name: self.mappings[i].tmux_session_name.clone(),
                    created_at: self.mappings[i].created_at.clone(),
                },
            );
            i = i + 1;
        }
        r
    }

    /// Empties the table.
    pub fn clear(&mut self) -> (r: Result<(), TmuxError>)
        ensures
            r is Ok,
            final(self).wf(),
            final(self).entries().len() == 0,
    {
        self.mappings.clear();
        Ok(())
    }
}

// ---------------------------------------------------------------------------
// Lemmas about lookups
// ---------------------------------------------------------------------------

/// Updating the entry that holds a key rebinds that key and leaves every
/// other lookup unchanged.
proof fn lemma_lookup_after_update(ms: Seq<SessionMapping>, i: int, m: SessionMapping)
    requires
        0 <= i < ms.len(),
        ms[i].opencode_session_id@ == m.opencode_session_id@,
        forall|k: int|
            0 <= k < i ==> (#[trigger] ms[k]).opencode_session_id@ != m.opencode_session_id@,
    ensures
        spec_lookup_remote(ms.update(i, m), m.opencode_session_id@) == Some(m),
        forall|id: Seq<char>|
            id != m.opencode_session_id@ ==> #[trigger] spec_lookup_remote(ms.update(i, m), id)
                == spec_lookup_remote(ms, id),
    decreases i,
{
    if i == 0 {
        assert(ms.update(0, m)[0] == m);
        assert(ms.update(0, m).drop_first() =~= ms.drop_first());
        assert forall|id: Seq<char>|
            id != m.opencode_session_id@ implies #[trigger] spec_lookup_remote(ms.update(i, m), id)
            == spec_lookup_remote(ms, id) by {
            assert(spec_lookup_remote(ms.update(0, m), id) == spec_lookup_remote(
                ms.drop_first(),
                id,
            ));
            assert(spec_lookup_remote(ms, id) == spec_lookup_remote(ms.drop_first(), id));
        }
    } else {
        assert(forall|k: int|
            0 <= k < i - 1 ==> (#[trigger] ms.drop_first()[k]).opencode_session_id@ == ms[k
                + 1].opencode_session_id@);
        lemma_lookup_after_update(ms.drop_first(), i - 1, m);
        assert(ms.update(i, m)[0] == ms[0]);
        assert(ms.update(i, m).drop_first() =~= ms.drop_first().update(i - 1, m));
        assert forall|id: Seq<char>|
            id != m.opencode_session_id@ implies #[trigger] spec_lookup_remote(ms.update(i, m), id)
            == spec_lookup_remote(ms, id) by {
            if id != ms[0].opencode_session_id@ {
                assert(spec_lookup_remote(ms.drop_first().update(i - 1, m), id)
                    == spec_lookup_remote(ms.drop_first(), id));
            }
        }
    }
}

/// Appending an entry whose key is absent binds that key and leaves every
/// other lookup unchanged.
proof fn lemma_lookup_after_push(ms: Seq<SessionMapping>, m: SessionMapping)
    requires
        forall|k: int|
            0 <= k < ms.len() ==> (#[trigger] ms[k]).opencode_session_id@
                != m.opencode_session_id@,
    ensures
        spec_lookup_remote(ms.push(m), m.opencode_session_id@) == Some(m),
        forall|id: Seq<char>|
            id != m.opencode_session_id@ ==> #[trigger] spec_lookup_remote(ms.push(m), id)
                == spec_lookup_remote(ms, id),
    decreases ms.len(),
{
    if ms.len() == 0 {
        assert(ms.push(m)[0] == m);
        assert(ms.push(m).drop_first() =~= Seq::<SessionMapping>::empty());
        assert forall|id: Seq<char>|
            id != m.opencode_session_id@ implies #[trigger] spec_lookup_remote(ms.push(m), id)
            == spec_lookup_remote(ms, id) by {
            assert(spec_lookup_remote(ms.push(m), id) == spec_lookup_remote(
                ms.push(m).drop_first(),
                id,
            ));
        }
    } else {
        assert(forall|k: int|
            0 <= k < ms.len() - 1 ==> (#[trigger] ms.drop_first()[k]).opencode_session_id@ == ms[k
                + 1].opencode_session_id@);
        lemma_lookup_after_push(ms.drop_first(), m);
        assert(ms.push(m)[0] == ms[0]);
        assert(ms.push(m).drop_first() =~= ms.drop_first().push(m));
        assert forall|id: Seq<char>|
            id != m.opencode_session_id@ implies #[trigger] spec_lookup_remote(ms.push(m), id)
            == spec_lookup_remote(ms, id) by {
            if id != ms[0].opencode_session_id@ {
                assert(spec_lookup_remote(ms.drop_first().push(m), id) == spec_lookup_remote(
                    ms.drop_first(),
                    id,
                ));
            }
        }
    }
}

/// Removing the only entry that holds a key is exactly dropping its
/// position.
proof fn lemma_remove_at(ms: Seq<SessionMapping>, i: int, id: Seq<char>)
    requires
        0 <= i < ms.len(),
        ms[i].opencode_session_id@ == id,
        forall|k: int| 0 <= k < ms.len() && k != i ==> (#[trigger] ms[k]).opencode_session_id@ != id,
    ensures
        spec_remove_remote(ms, id) == ms.take(i) + ms.skip(i + 1),
    decreases i,
{
    if i == 0 {
        lemma_remove_absent(ms.drop_first(), id);
        assert(forall|k: int|
            0 <= k < ms.len() - 1 ==> (#[trigger] ms.drop_first()[k]).opencode_session_id@ == ms[k
                + 1].opencode_session_id@);
        assert(spec_remove_remote(ms.drop_first(), id) =~= ms.drop_first());
        assert(ms.take(0) + ms.skip(1) =~= ms.drop_first());
    } else {
        assert(forall|k: int|
            0 <= k < ms.len() - 1 ==> (#[trigger] ms.drop_first()[k]).opencode_session_id@ == ms[k
                + 1].opencode_session_id@);
        lemma_remove_at(ms.drop_first(), i - 1, id);
        assert(ms.drop_first().take(i - 1) =~= ms.take(i).drop_first());
        assert(ms.drop_first().skip(i) =~= ms.skip(i + 1));
        assert(spec_remove_remote(ms, id) =~= ms.take(i) + ms.skip(i + 1));
    }
}

/// Removing an absent key changes nothing.
proof fn lemma_remove_absent(ms: Seq<SessionMapping>, id: Seq<char>)
    requires
        forall|k: int| 0 <= k < ms.len() ==> (#[trigger] ms[k]).opencode_session_id@ != id,
    ensures
        spec_remove_remote(ms, id) == ms,
    decreases ms.len(),
{
    if ms.len() > 0 {
        assert(forall|k: int|
            0 <= k < ms.len() - 1 ==> (#[trigger] ms.drop_first()[k]).opencode_session_id@ == ms[k
                + 1].opencode_session_id@);
        lemma_remove_absent(ms.drop_first(), id);
        assert(spec_remove_remote(ms, id) =~= ms);
    }
}

} // verus!
