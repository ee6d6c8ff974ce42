//! The set of connections that currently take part in the relay.

use vstd::prelude::*;

verus! {

/// The handle of one client connection: an opaque identity by which the
/// transport finds the channel to that client.
pub type ConnId = u64;

/// What one liveness check has found: whether the channel of `connection`
/// can still be used.
#[derive(Debug, Clone, Copy, PartialEq, Eq, Structural)]
pub struct Liveness {
    pub connection: ConnId,
    pub alive: bool,
}

/// The handles that `report` finds dead: those of which at least one of its
/// checks says that the channel is not alive.
pub open spec fn reported_dead(report: Seq<Liveness>) -> Set<ConnId> {
    Set::new(|handle: ConnId| report.contains(Liveness { connection: handle, alive: false }))
}

/// The test that a handle passes when it is not among `dead`.
pub open spec fn survives(dead: Set<ConnId>) -> spec_fn(ConnId) -> bool {
    |handle: ConnId| !dead.contains(handle)
}

/// What is left of `handles` when those among `dead` are taken out: the
/// other handles, in their order and as often as they stood there.
pub open spec fn without_dead(handles: Seq<ConnId>, dead: Set<ConnId>) -> Seq<ConnId> {
    handles.filter(survives(dead))
}

/// Whether `report` finds `handle` dead.
pub fn found_dead(report: &Vec<Liveness>, handle: ConnId) -> (dead: bool)
    ensures
        dead == reported_dead(report@).contains(handle),
{
    let mut i: usize = 0;
    while i < report.len()
        invariant
            i <= report.len(),
            forall|j: int|
                0 <= j < i ==> report@[j] != (Liveness { connection: handle, alive: false }),
        decreases report.len() - i,
    {
        if report[i].connection == handle && !report[i].alive {
            return true;
        }
        i += 1;
    }
    false
}

/// The registered connection handles, oldest registration first.
///
/// The registry owns the sequence and hands out copies only. A change
/// needs the registry for itself (`&mut self`), a snapshot needs it
/// unchanged for the length of the copy: a server that shares one registry
/// among its sessions puts it behind one lock and holds the lock for one
/// call at a time.
pub struct Registry {
    handles: Vec<ConnId>,
}

impl View for Registry {
    type V = Seq<ConnId>;

    closed spec fn view(&self) -> Seq<ConnId> {
        self.handles@
    }
}

impl Registry {
    /// A registry without connections.
    pub fn new() -> (registry: Registry)
        ensures
            registry@ == Seq::<ConnId>::empty(),
    {
        Registry { handles: Vec::new() }
    }

    /// Adds `connection` behind the handles that are registered already.
    ///
    /// A handle that is registered already is added once more: a session
    /// registers exactly once, and the registry does not check it.
    pub fn register(&mut self, connection: ConnId)
        ensures
            final(self)@ == old(self)@.push(connection),
    {
        self.handles.push(connection);
    }

    /// Removes every handle that `report` finds dead, and keeps the others
    /// as they stand. A handle of which the report says nothing stays.
    pub fn deregister_dead(&mut self, report: &Vec<Liveness>)
        ensures
            final(self)@ == without_dead(old(self)@, reported_dead(report@)),
    {
        let ghost dead = reported_dead(report@);
        let mut kept: Vec<ConnId> = Vec::new();
        let mut i: usize = 0;
        proof {
            assert(self.handles@.take(0) =~= Seq::<ConnId>::empty());
            reveal(Seq::filter);
        }
        while i < self.handles.len()
            invariant
                i <= self.handles.len(),
                self.handles@ == old(self)@,
                dead == reported_dead(report@),
                kept@ == without_dead(self.handles@.take(i as int), dead),
            decreases self.handles.len() - i,
        {
            let handle: ConnId = self.handles[i];
            proof {
                let seen = self.handles@.take(i as int);
                assert(self.handles@.take(i + 1) =~= seen.push(handle));
                seen.lemma_filter_push(handle, survives(dead));
            }
            if !found_dead(report, handle) {
                kept.push(handle);
            }
            i += 1;
        }
        proof {
            assert(self.handles@.take(i as int) =~= self.handles@);
        }
        self.handles = kept;
    }

    /// A copy of the registered handles as they stand at this moment. The
    /// copy shares nothing with the registry: what happens to either
    /// afterwards does not show in the other.
    pub fn snapshot(&self) -> (copy: Vec<ConnId>)
        ensures
            copy@ == self@,
    {
        let mut copy: Vec<ConnId> = Vec::new();
        let mut i: usize = 0;
        while i < self.handles.len()
            invariant
                i <= self.handles.len(),
                copy@ == self.handles@.take(i as int),
            decreases self.handles.len() - i,
        {
            copy.push(self.handles[i]);
            proof {
                assert(self.handles@.take(i + 1) =~= self.handles@.take(i as int).push(
                    self.handles@[i as int],
                ));
            }
            i += 1;
        }
        proof {
            assert(self.handles@.take(i as int) =~= self.handles@);
        }
        copy
    }
}

/// Whether `handle` is among the first `issued` handles that an issuer
/// gives out: they are the numbers from 1 to `issued`.
pub open spec fn was_issued(issued: u64, handle: ConnId) -> bool {
    1 <= handle <= issued
}

/// The source of connection handles: it gives every new session a handle
/// that no session has had before.
pub struct HandleIssuer {
    issued: u64,
}

impl View for HandleIssuer {
    type V = u64;

    /// The number of handles given out so far.
    closed spec fn view(&self) -> u64 {
        self.issued
    }
}

impl HandleIssuer {
    /// An issuer that has given out no handle yet.
    pub fn new() -> (issuer: HandleIssuer)
        ensures
            issuer@ == 0,
    {
        HandleIssuer { issued: 0 }
    }

    /// Gives out the next handle, or `None` when every handle has been
    /// given out, which leaves the issuer as it is.
    ///
    /// The handle is one that this issuer has not given out before, and
    /// from now on it counts among those given out.
    pub fn issue(&mut self) -> (handle: Option<ConnId>)
        ensures
            old(self)@ < u64::MAX ==> handle == Some((old(self)@ + 1) as u64) && final(self)@
                == old(self)@ + 1,
            old(self)@ == u64::MAX ==> handle is None && final(self)@ == old(self)@,
            handle matches Some(new) ==> !was_issued(old(self)@, new) && forall|other: ConnId|
                was_issued(final(self)@, other) == (was_issued(old(self)@, other) || other == new),
    {
        if self.issued < u64::MAX {
            self.issued = self.issued + 1;
            Some(self.issued)
        } else {
            None
        }
    }
}

/// A handle fresh from the issuer is not in a registry whose handles all
/// came from that issuer: the session that registers it registers once.
pub proof fn lemma_fresh_handle_is_not_registered(
    handles: Seq<ConnId>,
    issued: u64,
    handle: ConnId,
)
    requires
        forall|i: int| 0 <= i < handles.len() ==> was_issued(issued, #[trigger] handles[i]),
        !was_issued(issued, handle),
    ensures
        !handles.contains(handle),
{
}

/// One change that a caller makes to the registry.
pub enum Change {
    /// A session registers its handle.
    Register(ConnId),
    /// A sweep removes the handles that its liveness report finds dead.
    Sweep(Set<ConnId>),
}

/// The handles after `change`, as [`Registry::register`] and
/// [`Registry::deregister_dead`] make it.
pub open spec fn applied(handles: Seq<ConnId>, change: Change) -> Seq<ConnId> {
    match change {
        Change::Register(connection) => handles.push(connection),
        Change::Sweep(dead) => without_dead(handles, dead),
    }
}

/// The handles of a registry that was empty and has seen `changes`, one
/// after the other.
pub open spec fn replayed(changes: Seq<Change>) -> Seq<ConnId>
    decreases changes.len(),
{
    if changes.len() == 0 {
        Seq::empty()
    } else {
        applied(replayed(changes.drop_last()), changes.last())
    }
}

/// Whether no change of `changes` registers a handle that is in the
/// registry at that moment: every session registers once, and not again
/// before a sweep has removed it.
pub open spec fn registers_once(changes: Seq<Change>) -> bool {
    forall|i: int|
        0 <= i < changes.len() ==> (#[trigger] changes[i] matches Change::Register(connection)
            ==> !replayed(changes.take(i)).contains(connection))
}

/// A handle that the liveness report finds dead is not among the handles
/// after the sweep, and so in no snapshot taken after it.
pub proof fn lemma_dead_handle_is_gone(handles: Seq<ConnId>, dead: Set<ConnId>, handle: ConnId)
    requires
        dead.contains(handle),
    ensures
        !without_dead(handles, dead).contains(handle),
{
    let left = without_dead(handles, dead);
    if left.contains(handle) {
        let i = choose|i: int| 0 <= i < left.len() && left[i] == handle;
        handles.lemma_filter_pred(survives(dead), i);
    }
}

/// A handle that the liveness report does not find dead is among the
/// handles after the sweep if and only if it was among them before.
pub proof fn lemma_live_handle_stays(handles: Seq<ConnId>, dead: Set<ConnId>, handle: ConnId)
    requires
        !dead.contains(handle),
    ensures
        without_dead(handles, dead).contains(handle) == handles.contains(handle),
{
    if handles.contains(handle) {
        let i = choose|i: int| 0 <= i < handles.len() && handles[i] == handle;
        handles.lemma_filter_contains(survives(dead), i);
    }
    if without_dead(handles, dead).contains(handle) {
        handles.lemma_filter_contains_rev(survives(dead), handle);
    }
}

/// A sweep leaves no handle twice where none stood twice before.
pub proof fn lemma_sweep_keeps_entries_distinct(handles: Seq<ConnId>, dead: Set<ConnId>)
    requires
        handles.no_duplicates(),
    ensures
        without_dead(handles, dead).no_duplicates(),
    decreases handles.len(),
{
    reveal(Seq::filter);
    if handles.len() > 0 {
        let front = handles.drop_last();
        let last = handles.last();
        lemma_sweep_keeps_entries_distinct(front, dead);
        if survives(dead)(last) {
            let left = without_dead(front, dead);
            if left.contains(last) {
                front.lemma_filter_contains_rev(survives(dead), last);
                let i = choose|i: int| 0 <= i < front.len() && front[i] == last;
                assert(handles[i] == handles[handles.len() - 1]);
            }
            assert(without_dead(handles, dead) == left.push(last));
        }
    }
}

/// Sessions that register once still do so when only the first `n` changes
/// are looked at.
proof fn lemma_prefix_registers_once(changes: Seq<Change>, n: int)
    requires
        registers_once(changes),
        0 <= n <= changes.len(),
    ensures
        registers_once(changes.take(n)),
{
    let earlier = changes.take(n);
    assert forall|i: int| 0 <= i < earlier.len() implies (#[trigger] earlier[i] matches
        Change::Register(connection) ==> !replayed(earlier.take(i)).contains(connection)) by {
        assert(earlier[i] == changes[i]);
        assert(earlier.take(i) =~= changes.take(i));
    }
}

/// After changes in which every session registers once, no handle stands
/// twice.
proof fn lemma_distinct_after(changes: Seq<Change>)
    requires
        registers_once(changes),
    ensures
        replayed(changes).no_duplicates(),
    decreases changes.len(),
{
    if changes.len() > 0 {
        let earlier = changes.drop_last();
        lemma_prefix_registers_once(changes, changes.len() - 1);
        lemma_distinct_after(earlier);
        let before = replayed(earlier);
        match changes.last() {
            Change::Register(connection) => {
                let n = changes.len() - 1;
                assert(changes[n] == changes.last());
                assert(changes.take(n) =~= earlier);
                assert(!before.contains(connection));
                let after = before.push(connection);
                assert forall|i: int, j: int|
                    0 <= i < after.len() && 0 <= j < after.len() && i != j implies after[i]
                    != after[j] by {
                    if i < before.len() {
                        assert(before.contains(before[i]));
                    }
                    if j < before.len() {
                        assert(before.contains(before[j]));
                    }
                }
            },
            Change::Sweep(dead) => {
                lemma_sweep_keeps_entries_distinct(before, dead);
            },
        }
    }
}

/// Whatever changes the callers of a registry make, and in whatever order
/// their calls take turns, the registry never holds a handle twice, as long
/// as no session registers twice: not at the end, and in no state on the
/// way. Every order in which the calls of several callers can take turns
/// on one lock is one sequence of changes, and the law holds of every
/// sequence.
pub proof fn lemma_entries_stay_distinct(changes: Seq<Change>)
    requires
        registers_once(changes),
    ensures
        forall|n: int|
            0 <= n <= changes.len() ==> #[trigger] replayed(changes.take(n)).no_duplicates(),
        replayed(changes).no_duplicates(),
{
    assert forall|n: int| 0 <= n <= changes.len() implies #[trigger] replayed(
        changes.take(n),
    ).no_duplicates() by {
        lemma_prefix_registers_once(changes, n);
        lemma_distinct_after(changes.take(n));
    }
    lemma_distinct_after(changes);
}

/// Whatever changes the callers of a registry make, every handle in it is
/// one that a caller has registered: no entry comes from anywhere else.
pub proof fn lemma_every_entry_was_registered(changes: Seq<Change>, handle: ConnId)
    requires
        replayed(changes).contains(handle),
    ensures
        exists|i: int| 0 <= i < changes.len() && changes[i] == Change::Register(handle),
    decreases changes.len(),
{
    if changes.len() > 0 {
        let earlier = changes.drop_last();
        let before = replayed(earlier);
        let n = changes.len() - 1;
        match changes.last() {
            Change::Register(connection) => {
                if connection == handle {
                    assert(changes[n] == Change::Register(handle));
                } else {
                    let i = choose|i: int|
                        0 <= i < before.push(connection).len() && before.push(connection)[i]
                            == handle;
                    assert(before[i] == handle);
                    lemma_every_entry_was_registered(earlier, handle);
                    let k = choose|k: int|
                        0 <= k < earlier.len() && earlier[k] == Change::Register(handle);
                    assert(changes[k] == Change::Register(handle));
                }
            },
            Change::Sweep(dead) => {
                before.lemma_filter_contains_rev(survives(dead), handle);
                lemma_every_entry_was_registered(earlier, handle);
                let k = choose|k: int|
                    0 <= k < earlier.len() && earlier[k] == Change::Register(handle);
                assert(changes[k] == Change::Register(handle));
            },
        }
    }
}

} // verus!
