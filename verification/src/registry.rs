//! The session registry: which connection identifiers are live, and what the
//! embedding application needs to reach each of them.

use vstd::prelude::*;
use crate::error::CoreError;
use crate::session::{actions_for, advance, opening, Session, SessionAction, SessionKind};
use crate::table::Table;

verus! {

/// The bookkeeping for one live connection. `serial` tells the sessions
/// that hold one identifier one after the other apart. `H` is whatever the
/// embedding application needs to reach the session: the sending end of its
/// control queue, its shared transport handle, or both.
pub struct SessionEntry<H> {
    pub id: String,
    pub serial: u64,
    pub kind: SessionKind,
    pub handle: H,
}

/// A registry of live sessions, one entry per connection identifier.
pub struct Registry<H> {
    table: Table<SessionEntry<H>>,
}

impl<H> View for Registry<H> {
    type V = Map<Seq<char>, SessionEntry<H>>;

    closed spec fn view(&self) -> Map<Seq<char>, SessionEntry<H>> {
        self.table@
    }
}

/// What an operation addressed to `id` finds in a registry: the entry, or
/// `NotFound`.
pub open spec fn found<H>(registry: Map<Seq<char>, SessionEntry<H>>, id: Seq<char>) -> Result<
    SessionEntry<H>,
    CoreError,
> {
    if registry.dom().contains(id) {
        Ok(registry[id])
    } else {
        Err(CoreError::NotFound)
    }
}

impl<H> Registry<H> {
    /// The representation is sound: every entry is filed under its own
    /// identifier, and no identifier is filed twice.
    pub closed spec fn wf(&self) -> bool {
        &&& self.table.wf()
        &&& forall|id: Seq<char>| #[trigger]
            self.table@.dom().contains(id) ==> self.table@[id].id@ == id
    }

    /// An empty registry.
    pub fn new() -> (r: Registry<H>)
        ensures
            r.wf(),
            r@ == Map::<Seq<char>, SessionEntry<H>>::empty(),
    {
        Registry { table: Table::new() }
    }

    /// Every entry is filed under its own identifier.
    pub proof fn law_entries_are_filed_by_id(&self, id: Seq<char>)
        requires
            self.wf(),
            self@.dom().contains(id),
        ensures
            self@[id].id@ == id,
    {
    }

    /// The number of live sessions.
    pub fn len(&self) -> (n: usize)
        requires
            self.wf(),
        ensures
            self@.dom().finite(),
            n == self@.dom().len(),
    {
        proof {
            self.table.lemma_len();
        }
        self.table.len()
    }

    /// True where `id` has a live session.
    pub fn contains(&self, id: &str) -> (b: bool)
        requires
            self.wf(),
        ensures
            b == self@.dom().contains(id@),
    {
        self.table.contains_key(id)
    }

    /// The entry of `id`, for an operation addressed to it. An unknown
    /// identifier gives `NotFound`. The registry is only read.
    pub fn lookup(&self, id: &str) -> (r: Result<&SessionEntry<H>, CoreError>)
        requires
            self.wf(),
        ensures
            match r {
                Ok(entry) => found(self@, id@) == Ok::<SessionEntry<H>, CoreError>(*entry),
                Err(e) => found(self@, id@) == Err::<SessionEntry<H>, CoreError>(e),
            },
    {
        match self.table.get(id) {
            Some(entry) => Ok(entry),
            None => Err(CoreError::NotFound),
        }
    }

    /// Files `entry` under its identifier, where that identifier is free.
    /// Where it is taken, nothing changes and the entry is handed back: a
    /// live entry is never replaced. The way to replace one is to take it
    /// out with [`Registry::take_over`] and tear its session down first.
    pub fn insert(&mut self, entry: SessionEntry<H>) -> (r: Result<(), SessionEntry<H>>)
        requires
            old(self).wf(),
        ensures
            final(self).wf(),
            match r {
                Ok(_) => !old(self)@.dom().contains(entry.id@) && final(self)@ == old(self)@.insert(
                    entry.id@,
                    entry,
                ),
                Err(back) => old(self)@.dom().contains(entry.id@) && back == entry && final(self)@
                    == old(self)@,
            },
    {
        if self.table.contains_key(entry.id.as_str()) {
            Err(entry)
        } else {
            let key = entry.id.clone();
            let _ = self.table.insert(key, entry);
            Ok(())
        }
    }

    /// Takes the entry of `id` out of the registry for a session that is
    /// about to start under `id`, and hands it back so that its session is
    /// torn down before the new one opens anything. From this call until
    /// the new session is filed, operations addressed to `id` find
    /// `NotFound`.
    pub fn take_over(&mut self, id: &str) -> (earlier: Option<SessionEntry<H>>)
        requires
            old(self).wf(),
        ensures
            final(self).wf(),
            final(self)@ == old(self)@.remove(id@),
            !final(self)@.dom().contains(id@),
            match earlier {
                Some(entry) => found(old(self)@, id@) == Ok::<SessionEntry<H>, CoreError>(entry),
                None => !old(self)@.dom().contains(id@),
            },
    {
        self.table.remove(id)
    }

    /// Starts `session` under `id`. An entry that is filed under `id` is
    /// taken out and handed back, and the session then starts by retiring
    /// the session of that entry; otherwise it starts by opening its
    /// transport.
    pub fn begin<R>(&mut self, session: &mut Session, id: &str) -> (r: (
        Option<SessionEntry<H>>,
        Vec<SessionAction<R>>,
    ))
        requires
            old(self).wf(),
        ensures
            final(self).wf(),
            final(self)@ == old(self)@.remove(id@),
            match r.0 {
                Some(entry) => found(old(self)@, id@) == Ok::<SessionEntry<H>, CoreError>(entry),
                None => !old(self)@.dom().contains(id@),
            },
            *final(session) == advance(*old(session), opening::<R>(r.0 is Some)),
            r.1@ == actions_for(*old(session), opening::<R>(r.0 is Some)),
    {
        let earlier = self.take_over(id);
        let actions = session.start(earlier.is_some());
        (earlier, actions)
    }

    /// Takes the entry of `id` out of the registry where it is the one with
    /// this serial number, and hands it back. Where `id` has no entry, or
    /// the entry of a later session, nothing changes.
    pub fn release(&mut self, id: &str, serial: u64) -> (own: Option<SessionEntry<H>>)
        requires
            old(self).wf(),
        ensures
            final(self).wf(),
            match own {
                Some(entry) => {
                    &&& found(old(self)@, id@) == Ok::<SessionEntry<H>, CoreError>(entry)
                    &&& entry.serial == serial
                    &&& final(self)@ == old(self)@.remove(id@)
                },
                None => {
                    &&& final(self)@ == old(self)@
                    &&& old(self)@.dom().contains(id@) ==> old(self)@[id@].serial != serial
                },
            },
    {
        let own = match self.table.get(id) {
            Some(entry) => entry.serial == serial,
            None => false,
        };
        if own {
            self.table.remove(id)
        } else {
            None
        }
    }

    /// Takes the entry of `id` out of the registry and hands it back. An
    /// unknown identifier gives `NotFound` and leaves the registry as it was.
    pub fn remove(&mut self, id: &str) -> (r: Result<SessionEntry<H>, CoreError>)
        requires
            old(self).wf(),
        ensures
            final(self).wf(),
            r == found(old(self)@, id@),
            final(self)@ == old(self)@.remove(id@),
            r is Err ==> final(self)@ == old(self)@,
    {
        match self.table.remove(id) {
            Some(entry) => Ok(entry),
            None => {
                assert(old(self)@.remove(id@) =~= old(self)@);
                Err(CoreError::NotFound)
            },
        }
    }
}

/// An operation addressed to an identifier that the registry does not hold
/// finds `NotFound`, and taking that identifier out changes nothing.
pub proof fn law_unknown_id_is_not_found<H>(registry: Map<Seq<char>, SessionEntry<H>>, id: Seq<char>)
    requires
        !registry.dom().contains(id),
    ensures
        found(registry, id) == Err::<SessionEntry<H>, CoreError>(CoreError::NotFound),
        registry.remove(id) == registry,
{
    assert(registry.remove(id) =~= registry);
}

/// Once the entry of an identifier has been taken out, every operation
/// addressed to that identifier finds `NotFound`, until an entry is filed
/// under it again.
pub proof fn law_removed_id_is_not_found<H>(registry: Map<Seq<char>, SessionEntry<H>>, id: Seq<char>)
    ensures
        found(registry.remove(id), id) == Err::<SessionEntry<H>, CoreError>(CoreError::NotFound),
{
}

/// An identifier has one entry at most, and a session that starts under a
/// taken identifier cannot be reached before the earlier one is out of the
/// way: taking over leaves no entry under the identifier, so that every
/// operation addressed to it finds `NotFound`; filing puts the new entry
/// there and touches no other identifier; and the earlier entry is in the
/// registry at no time after the take-over.
pub proof fn law_one_entry_per_id<H>(
    registry: Map<Seq<char>, SessionEntry<H>>,
    later: SessionEntry<H>,
    other: Seq<char>,
)
    requires
        other != later.id@,
    ensures
        ({
            let vacated = registry.remove(later.id@);
            let filed = vacated.insert(later.id@, later);
            &&& found(vacated, later.id@) == Err::<SessionEntry<H>, CoreError>(CoreError::NotFound)
            &&& found(filed, later.id@) == Ok::<SessionEntry<H>, CoreError>(later)
            &&& found(vacated, other) == found(registry, other)
            &&& found(filed, other) == found(registry, other)
        }),
{
}

} // verus!
