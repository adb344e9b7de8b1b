//! The persistence tier abstraction: a typed get/set/delete dispatcher over
//! three storage classes, keyed by a tagged key. All durable contract records
//! are routed through it.

use vstd::prelude::*;

use crate::collective::{Collective, CollectiveView, Member};

verus! {

/// The storage class a record is placed in. The collective keeps all of its
/// records in the `Permanent` tier; `Instance` holds a second copy of the
/// admin identity.
#[derive(Clone, Copy, PartialEq, Eq, Structural, Debug)]
pub enum Kind {
    Instance,
    Permanent,
    Temporary,
}

/// The typed key addressing one stored record. Keys are never reused across
/// logically distinct records.
#[derive(Clone, Copy, PartialEq, Eq, Structural, Debug)]
pub enum Datakey {
    /// The membership record of one identity.
    Member(u64),
    /// The root collective record.
    Collective,
    /// The privileged admin identity.
    Admin,
    /// The fee charged when a member creates a file token.
    MintFee,
    /// The reward asset's reference; its presence is the launched flag.
    Opus,
}

/// One stored record.
pub enum Val {
    /// An identity or a contract reference.
    Ident(u64),
    /// A fee amount.
    Amount(u32),
    /// The collective root record.
    Record(Collective),
    /// One member's record.
    Entry(Member),
}

/// The mathematical value of a stored record.
#[verifier::ext_equal]
pub enum ValView {
    Ident(u64),
    Amount(u32),
    Record(CollectiveView),
    Entry(Member),
}

impl View for Val {
    type V = ValView;

    open spec fn view(&self) -> ValView {
        match self {
            Val::Ident(a) => ValView::Ident(*a),
            Val::Amount(x) => ValView::Amount(*x),
            Val::Record(c) => ValView::Record(c@),
            Val::Entry(m) => ValView::Entry(*m),
        }
    }
}

impl Clone for Val {
    fn clone(&self) -> (r: Self)
        ensures
            r@ == self@,
    {
        match self {
            Val::Ident(a) => Val::Ident(*a),
            Val::Amount(x) => Val::Amount(*x),
            Val::Record(c) => Val::Record(c.clone()),
            Val::Entry(m) => Val::Entry(*m),
        }
    }
}

/// The record a tier map holds at `key`, if any.
pub open spec fn map_get(m: Map<Datakey, ValView>, key: Datakey) -> Option<ValView> {
    if m.contains_key(key) {
        Some(m[key])
    } else {
        None
    }
}

/// The map a write/delete log denotes: later entries win.
pub open spec fn log_map(s: Seq<(Datakey, Option<Val>)>) -> Map<Datakey, ValView>
    decreases s.len(),
{
    if s.len() == 0 {
        Map::empty()
    } else {
        match s.last().1 {
            Some(v) => log_map(s.drop_last()).insert(s.last().0, v@),
            None => log_map(s.drop_last()).remove(s.last().0),
        }
    }
}

/// One storage tier: a log of writes and deletions, read back last-write-wins.
pub struct Records {
    log: Vec<(Datakey, Option<Val>)>,
}

impl View for Records {
    type V = Map<Datakey, ValView>;

    closed spec fn view(&self) -> Map<Datakey, ValView> {
        log_map(self.log@)
    }
}

/// Reads `key` out of the first `n` log entries, newest first.
fn get_from(log: &Vec<(Datakey, Option<Val>)>, n: usize, key: Datakey) -> (r: Option<Val>)
    requires
        n <= log.len(),
    ensures
        ({
            let m = log_map(log@.take(n as int));
            match r {
                Some(v) => m.contains_key(key) && v@ == m[key],
                None => !m.contains_key(key),
            }
        }),
    decreases n,
{
    if n == 0 {
        None
    } else {
        proof {
            assert(log@.take(n as int).drop_last() =~= log@.take(n as int - 1));
        }
        let entry = &log[n - 1];
        if entry.0 == key {
            match &entry.1 {
                Some(v) => Some(v.clone()),
                None => None,
            }
        } else {
            get_from(log, n - 1, key)
        }
    }
}

impl Records {
    pub fn new() -> (r: Records)
        ensures
            r@ == Map::<Datakey, ValView>::empty(),
    {
        Records { log: Vec::new() }
    }

    pub fn get(&self, key: Datakey) -> (r: Option<Val>)
        ensures
            ({
                match r {
                    Some(v) => self@.contains_key(key) && v@ == self@[key],
                    None => !self@.contains_key(key),
                }
            }),
    {
        proof {
            assert(self.log@.take(self.log@.len() as int) =~= self.log@);
        }
        get_from(&self.log, self.log.len(), key)
    }

    pub fn set(&mut self, key: Datakey, value: Val)
        ensures
            final(self)@ == old(self)@.insert(key, value@),
    {
        self.log.push((key, Some(value)));
        proof {
            assert(self.log@.drop_last() =~= old(self).log@);
        }
    }

    pub fn del(&mut self, key: Datakey)
        ensures
            final(self)@ == old(self)@.remove(key),
    {
        self.log.push((key, None));
        proof {
            assert(self.log@.drop_last() =~= old(self).log@);
        }
    }
}

/// The three storage tiers behind one dispatcher.
pub struct Store {
    instance: Records,
    permanent: Records,
    temporary: Records,
}

impl Store {
    /// The records a tier currently holds.
    pub closed spec fn tier(&self, kind: Kind) -> Map<Datakey, ValView> {
        match kind {
            Kind::Instance => self.instance@,
            Kind::Permanent => self.permanent@,
            Kind::Temporary => self.temporary@,
        }
    }

    pub fn new() -> (r: Store)
        ensures
            forall|k: Kind| r.tier(k) == Map::<Datakey, ValView>::empty(),
    {
        Store { instance: Records::new(), permanent: Records::new(), temporary: Records::new() }
    }
}

/// Reads the record at `key` in the tier `kind` selects; `None` when no such
/// record exists there.
pub fn storage_g(store: &Store, kind: Kind, key: Datakey) -> (r: Option<Val>)
    ensures
        ({
            let m = store.tier(kind);
            match r {
                Some(v) => m.contains_key(key) && v@ == m[key],
                None => !m.contains_key(key),
            }
        }),
{
    match kind {
        Kind::Instance => store.instance.get(key),
        Kind::Permanent => store.permanent.get(key),
        Kind::Temporary => store.temporary.get(key),
    }
}

/// Writes `value` at `key` in the tier `kind` selects; later reads of that
/// tier and key see it, and no other tier changes. The write always takes.
pub fn storage_p(store: &mut Store, value: Val, kind: Kind, key: Datakey) -> (done: bool)
    ensures
        done,
        final(store).tier(kind) == old(store).tier(kind).insert(key, value@),
        forall|k: Kind| k != kind ==> final(store).tier(k) == old(store).tier(k),
{
    match kind {
        Kind::Instance => store.instance.set(key, value),
        Kind::Permanent => store.permanent.set(key, value),
        Kind::Temporary => store.temporary.set(key, value),
    }
    true
}

/// Deletes the record at `key` in the tier `kind` selects; later reads of
/// that tier find nothing at `key`, and no other tier changes.
pub fn storage_d(store: &mut Store, kind: Kind, key: Datakey)
    ensures
        final(store).tier(kind) == old(store).tier(kind).remove(key),
        forall|k: Kind| k != kind ==> final(store).tier(k) == old(store).tier(k),
{
    match kind {
        Kind::Instance => store.instance.del(key),
        Kind::Permanent => store.permanent.del(key),
        Kind::Temporary => store.temporary.del(key),
    }
}

} // verus!
