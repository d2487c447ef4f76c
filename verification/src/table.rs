//! The per-instance table of capability handles.
//!
//! The engine's table stores the host-owned values and hands out 32-bit
//! indices, which it may use again once they are free. The table of this
//! module wraps it and stamps every index it issues with a serial number and
//! with the instance it belongs to, so that a handle is accepted only by the
//! table that issued it and only while the resource it was issued for lives.

use vstd::prelude::*;
use wasmtime::component::{ResourceTable, ResourceTableError};

use crate::level::FooLogger;
use crate::store::{
    table_children, table_delete, table_entries, table_get, table_get_mut, table_new,
    table_parents, table_push,
};

verus! {

/// Identifier of a plugin, unique within one host.
pub type PluginId = usize;

/// Why a table operation was refused.
#[derive(Clone, Copy, Debug, PartialEq, Eq, Structural)]
pub enum TableError {
    /// The handle addresses nothing in this table.
    NotFound,
    /// The handle addresses a value of another kind. The tables of this
    /// crate hold loggers only, so none of their operations fails this way;
    /// the variant stands for the engine's refusal of that name.
    WrongType,
    /// The handle does not own the resource: it is a borrow, or what it
    /// owned has been deleted already.
    NotOwned,
    /// The resource is in use: other entries of the engine's table depend
    /// on it. Exclusive access is guarded by the borrow that `get_mut` hands
    /// out, and the tables of this crate make no dependent entries, so none
    /// of their operations fails this way.
    InUse,
    /// The table cannot take another resource.
    TableFull,
}

impl TableError {
    /// The error of this crate that stands for a refusal of the engine's table.
    pub fn from_engine(e: ResourceTableError) -> (err: TableError)
        ensures
            err == match e {
                ResourceTableError::Full => TableError::TableFull,
                ResourceTableError::NotPresent => TableError::NotFound,
                ResourceTableError::WrongType => TableError::WrongType,
                ResourceTableError::HasChildren => TableError::InUse,
            },
    {
        match e {
            ResourceTableError::Full => TableError::TableFull,
            ResourceTableError::NotPresent => TableError::NotFound,
            ResourceTableError::WrongType => TableError::WrongType,
            ResourceTableError::HasChildren => TableError::InUse,
        }
    }
}

/// A reference to a host-owned resource, as a plugin instance holds it.
#[derive(Clone, Copy, Debug, PartialEq, Eq, Structural)]
pub struct ResourceHandle {
    /// The instance whose table issued the handle.
    pub table: PluginId,
    /// The index of the resource in that table.
    pub rep: u32,
    /// The serial number under which the resource was inserted.
    pub serial: u64,
    /// Whether the handle owns the resource or only borrows it.
    pub owned: bool,
}

impl ResourceHandle {
    /// A borrow of the resource that the handle addresses.
    pub fn borrowed(&self) -> (h: ResourceHandle)
        ensures
            h == (ResourceHandle { owned: false, ..*self }),
    {
        ResourceHandle { table: self.table, rep: self.rep, serial: self.serial, owned: false }
    }
}

/// A live resource: the value and the serial number it was inserted under.
pub struct Slot {
    pub serial: u64,
    pub value: FooLogger,
}

/// What the table remembers of an index that it has issued.
#[derive(Clone, Copy)]
struct Stamp {
    /// The serial number last issued for the index.
    serial: u64,
    /// Whether the resource issued under that serial number still lives.
    live: bool,
}

/// The resources that the host owns on behalf of one plugin instance.
pub struct CapabilityTable {
    owner: PluginId,
    capacity: usize,
    inner: ResourceTable,
    /// For each index that was ever issued, its stamp.
    stamps: Vec<Option<Stamp>>,
    live: usize,
    issued: u64,
}

/// Whether the stamp marks a live resource.
spec fn marks_live(stamp: Option<Stamp>) -> bool {
    stamp matches Some(s) && s.live
}

impl View for CapabilityTable {
    type V = Map<u32, Slot>;

    /// The live resources by index.
    closed spec fn view(&self) -> Map<u32, Slot> {
        Map::new(
            |rep: u32| rep < self.stamps@.len() && marks_live(self.stamps@[rep as int]),
            |rep: u32|
                Slot {
                    serial: self.stamps@[rep as int].unwrap().serial,
                    value: table_entries(self.inner)[rep].unwrap(),
                },
        )
    }
}

/// The values that `slots` holds at the indices below `n`, by increasing
/// index.
pub open spec fn values_below(slots: Map<u32, Slot>, n: nat) -> Seq<FooLogger>
    decreases n,
{
    if n == 0 {
        Seq::empty()
    } else if n <= 0x1_0000_0000 && slots.contains_key((n - 1) as u32) {
        values_below(slots, (n - 1) as nat).push(slots[(n - 1) as u32].value)
    } else {
        values_below(slots, (n - 1) as nat)
    }
}

impl CapabilityTable {
    /// The instance that the table belongs to.
    pub closed spec fn spec_owner(&self) -> PluginId {
        self.owner
    }

    /// The largest number of resources that may live in the table at once.
    pub closed spec fn spec_capacity(&self) -> usize {
        self.capacity
    }

    /// The number of handles that the table has issued since it was made.
    pub closed spec fn spec_issued(&self) -> u64 {
        self.issued
    }

    /// The number of live resources.
    pub closed spec fn spec_len(&self) -> usize {
        self.live
    }

    /// For each index that the table has ever issued, the serial number
    /// that it issued there last.
    pub closed spec fn history(&self) -> Map<u32, u64> {
        Map::new(
            |rep: u32| rep < self.stamps@.len() && self.stamps@[rep as int] is Some,
            |rep: u32| self.stamps@[rep as int].unwrap().serial,
        )
    }

    /// The table's invariant: the stamps describe the engine's table, serial
    /// numbers are below the count of issued handles, and the counters are
    /// exact.
    pub closed spec fn wf(&self) -> bool {
        &&& self.stamps@.len() <= 0x1_0000_0000
        &&& forall|i: int|
            0 <= i < self.stamps@.len() && (#[trigger] self.stamps@[i]) is Some ==> {
                &&& self.stamps@[i].unwrap().serial < self.issued
                &&& self.stamps@[i].unwrap().live ==> {
                    &&& table_entries(self.inner).contains_key(i as u32)
                    &&& table_entries(self.inner)[i as u32] is Some
                }
            }
        &&& table_parents(self.inner) == Set::<u32>::empty()
        &&& table_children(self.inner) == Set::<u32>::empty()
        &&& table_entries(self.inner).dom().finite()
        &&& table_entries(self.inner).dom().len() <= self.issued
        &&& self.issued <= u32::MAX
        &&& self@.dom().finite()
        &&& self.live == self@.dom().len()
        &&& self.live <= self.capacity
    }

    /// Whether the handle addresses a live resource of this table.
    pub open spec fn resolves(&self, h: ResourceHandle) -> bool {
        &&& h.table == self.spec_owner()
        &&& self@.contains_key(h.rep)
        &&& self@[h.rep].serial == h.serial
    }

    /// Whether this table has issued the handle's serial number.
    pub open spec fn issued_here(&self, h: ResourceHandle) -> bool {
        h.table == self.spec_owner() && h.serial < self.spec_issued()
    }

    /// What reading through the handle yields.
    pub open spec fn value_of(&self, h: ResourceHandle) -> Option<FooLogger> {
        if self.resolves(h) {
            Some(self@[h.rep].value)
        } else {
            None
        }
    }

    /// Why deleting through the handle is refused, if it is.
    pub open spec fn delete_refusal(&self, h: ResourceHandle) -> Option<TableError> {
        if !self.issued_here(h) {
            Some(TableError::NotFound)
        } else if !h.owned || !self.resolves(h) {
            Some(TableError::NotOwned)
        } else {
            None
        }
    }

    /// Whether the table can take another resource.
    pub open spec fn has_room(&self) -> bool {
        self.spec_len() < self.spec_capacity() && self.spec_issued() < u32::MAX
    }

    /// Whether `self` agrees with an earlier state of the same table: no
    /// serial number that was issued by then addresses anything now that it
    /// did not address then.
    pub open spec fn follows(&self, earlier: &CapabilityTable) -> bool {
        &&& self.spec_owner() == earlier.spec_owner()
        &&& self.spec_capacity() == earlier.spec_capacity()
        &&& earlier.spec_issued() <= self.spec_issued()
        &&& forall|rep: u32|
            #![trigger self@.contains_key(rep)]
            self@.contains_key(rep) && self@[rep].serial < earlier.spec_issued() ==> {
                &&& earlier@.contains_key(rep)
                &&& earlier@[rep].serial == self@[rep].serial
            }
    }

    /// Whether `self` is `before` with `value` stored under the fresh owned
    /// handle `h`.
    pub open spec fn inserted(
        &self,
        before: &CapabilityTable,
        value: FooLogger,
        h: ResourceHandle,
    ) -> bool {
        &&& h.table == before.spec_owner()
        &&& h.serial == before.spec_issued()
        &&& h.owned
        &&& !before@.contains_key(h.rep)
        &&& self@ == before@.insert(h.rep, Slot { serial: h.serial, value })
        &&& self.history() == before.history().insert(h.rep, h.serial)
        &&& self.spec_issued() == before.spec_issued() + 1
        &&& self.spec_len() == before.spec_len() + 1
    }

    /// Whether `self` is `before` with the resource that `h` owned taken out.
    pub open spec fn deleted(&self, before: &CapabilityTable, h: ResourceHandle) -> bool {
        &&& before.delete_refusal(h) is None
        &&& self@ == before@.remove(h.rep)
        &&& self.history() == before.history()
        &&& self.spec_issued() == before.spec_issued()
        &&& self.spec_len() == before.spec_len() - 1
    }

    /// Whether `self` and `before` hold the same resources and counters.
    pub open spec fn unchanged(&self, before: &CapabilityTable) -> bool {
        &&& self@ == before@
        &&& self.history() == before.history()
        &&& self.spec_issued() == before.spec_issued()
        &&& self.spec_len() == before.spec_len()
    }

    /// The handle that the table issued last for the index `rep`, as an
    /// owned handle or as a borrow, whether its resource still lives or not.
    pub open spec fn last_handle(&self, rep: u32, owned: bool) -> Option<ResourceHandle> {
        if self.history().contains_key(rep) {
            Some(
                ResourceHandle {
                    table: self.spec_owner(),
                    rep,
                    serial: self.history()[rep],
                    owned,
                },
            )
        } else {
            None
        }
    }

    /// The values of the live resources, by increasing index.
    pub open spec fn values(&self) -> Seq<FooLogger> {
        values_below(self@, 0x1_0000_0000)
    }

    /// An empty table for the instance `owner` that holds at most `capacity`
    /// resources at a time.
    pub fn new(owner: PluginId, capacity: usize) -> (table: CapabilityTable)
        ensures
            table.wf(),
            table.spec_owner() == owner,
            table.spec_capacity() == capacity,
            table.spec_issued() == 0,
            table.spec_len() == 0,
            table@.dom() == Set::<u32>::empty(),
            table.history().dom() == Set::<u32>::empty(),
    {
        let table = CapabilityTable {
            owner,
            capacity,
            inner: table_new(),
            stamps: Vec::new(),
            live: 0,
            issued: 0,
        };
        proof {
            assert(table@.dom() =~= Set::<u32>::empty());
            assert(table.history().dom() =~= Set::<u32>::empty());
        }
        table
    }

    #[verifier::when_used_as_spec(spec_owner)]
    pub fn owner(&self) -> (id: PluginId)
        ensures
            id == self.spec_owner(),
    {
        self.owner
    }

    #[verifier::when_used_as_spec(spec_capacity)]
    pub fn capacity(&self) -> (n: usize)
        ensures
            n == self.spec_capacity(),
    {
        self.capacity
    }

    #[verifier::when_used_as_spec(spec_issued)]
    pub fn issued(&self) -> (n: u64)
        ensures
            n == self.spec_issued(),
    {
        self.issued
    }

    #[verifier::when_used_as_spec(spec_len)]
    pub fn len(&self) -> (n: usize)
        ensures
            n == self.spec_len(),
    {
        self.live
    }
}

/// Lengthens `stamps` with empty entries until it covers the index `rep`.
fn cover(stamps: &mut Vec<Option<Stamp>>, rep: u32)
    ensures
        final(stamps)@.len() > rep,
        final(stamps)@.len() >= old(stamps)@.len(),
        final(stamps)@.len() == old(stamps)@.len() || final(stamps)@.len() == rep + 1,
        forall|i: int| 0 <= i < old(stamps)@.len() ==> final(stamps)@[i] == old(stamps)@[i],
        forall|i: int| old(stamps)@.len() <= i < final(stamps)@.len() ==> final(stamps)@[i] is None,
{
    while stamps.len() <= rep as usize
        invariant
            stamps@.len() >= old(stamps)@.len(),
            stamps@.len() == old(stamps)@.len() || stamps@.len() <= rep + 1,
            forall|i: int| 0 <= i < old(stamps)@.len() ==> stamps@[i] == old(stamps)@[i],
            forall|i: int| old(stamps)@.len() <= i < stamps@.len() ==> stamps@[i] is None,
        decreases rep as int + 1 - stamps@.len(),
    {
        stamps.push(None);
    }
}

impl CapabilityTable {
    /// Stores `value` and returns an owned handle to it. The handle carries
    /// the next serial number, so it differs from every handle that the table
    /// issued before. Refused with `TableFull`, and only then, when the table
    /// holds as many resources as its capacity allows or has issued
    /// `u32::MAX` handles.
    pub fn insert(&mut self, value: FooLogger) -> (res: Result<ResourceHandle, TableError>)
        requires
            old(self).wf(),
        ensures
            final(self).wf(),
            final(self).follows(old(self)),
            res is Ok <==> old(self).has_room(),
            match res {
                Ok(h) => final(self).inserted(old(self), value, h),
                Err(e) => e == TableError::TableFull && final(self).unchanged(old(self)),
            },
    {
        if self.live >= self.capacity || self.issued >= u32::MAX as u64 {
            return Err(TableError::TableFull);
        }
        let ghost before = *self;
        match table_push(&mut self.inner, value) {
            Ok(rep) => {
                cover(&mut self.stamps, rep);
                self.stamps.set(rep as usize, Some(Stamp { serial: self.issued, live: true }));
                let handle = ResourceHandle {
                    table: self.owner,
                    rep,
                    serial: self.issued,
                    owned: true,
                };
                self.issued = self.issued + 1;
                self.live = self.live + 1;
                proof {
                    assert(self@ =~= before@.insert(
                        rep,
                        Slot { serial: handle.serial, value },
                    ));
                    assert(self.history() =~= before.history().insert(rep, handle.serial));
                }
                Ok(handle)
            },
            Err(e) => {
                proof {
                    assert(false);
                }
                Err(TableError::from_engine(e))
            },
        }
    }

    /// Reads the resource that the handle addresses. Refused with `NotFound`
    /// unless this table issued the handle and the resource still lives.
    pub fn get(&self, handle: ResourceHandle) -> (res: Result<&FooLogger, TableError>)
        requires
            self.wf(),
        ensures
            match res {
                Ok(value) => self.value_of(handle) == Some(*value),
                Err(e) => self.value_of(handle) is None && e == TableError::NotFound,
            },
    {
        if !self.holds(handle) {
            return Err(TableError::NotFound);
        }
        match table_get(&self.inner, handle.rep) {
            Ok(value) => Ok(value),
            Err(e) => {
                proof {
                    assert(false);
                }
                Err(TableError::from_engine(e))
            },
        }
    }

    /// Decides whether the handle addresses a live resource of this table.
    pub fn holds(&self, handle: ResourceHandle) -> (live: bool)
        requires
            self.wf(),
        ensures
            live == self.resolves(handle),
    {
        if handle.table != self.owner || handle.rep as usize >= self.stamps.len() {
            return false;
        }
        match self.stamps[handle.rep as usize] {
            Some(stamp) => stamp.live && stamp.serial == handle.serial,
            None => false,
        }
    }

    /// Gives exclusive access to the resource that the handle addresses:
    /// what the caller leaves there is what the table holds afterwards.
    /// Refused with `NotFound` unless this table issued the handle and the
    /// resource still lives. While the access lasts the borrow keeps every
    /// other use of the table out, so no second access can meet it.
    pub fn get_mut(&mut self, handle: ResourceHandle) -> (res: Result<&mut FooLogger, TableError>)
        requires
            old(self).wf(),
        ensures
            final(self).wf(),
            final(self).follows(old(self)),
            final(self).spec_issued() == old(self).spec_issued(),
            final(self).spec_len() == old(self).spec_len(),
            final(self).history() == old(self).history(),
            match res {
                Ok(value) => {
                    &&& old(self).value_of(handle) == Some(*value)
                    &&& final(self)@ == old(self)@.insert(
                        handle.rep,
                        (Slot { serial: handle.serial, value: *final(value) }),
                    )
                },
                Err(e) => {
                    &&& old(self).value_of(handle) is None
                    &&& e == TableError::NotFound
                    &&& final(self)@ == old(self)@
                },
            },
    {
        if !self.holds(handle) {
            return Err(TableError::NotFound);
        }
        match table_get_mut(&mut self.inner, handle.rep) {
            Ok(value) => Ok(value),
            Err(e) => {
                proof {
                    assert(false);
                }
                Err(TableError::from_engine(e))
            },
        }
    }

    /// Takes the resource that the handle owns out of the table. Refused
    /// with `NotFound` where this table never issued the handle, and with
    /// `NotOwned` where the handle is a borrow or the resource it owned is
    /// gone; a refusal changes nothing.
    pub fn delete(&mut self, handle: ResourceHandle) -> (res: Result<FooLogger, TableError>)
        requires
            old(self).wf(),
        ensures
            final(self).wf(),
            final(self).follows(old(self)),
            match res {
                Ok(value) => {
                    &&& old(self).value_of(handle) == Some(value)
                    &&& final(self).deleted(old(self), handle)
                },
                Err(e) => {
                    &&& old(self).delete_refusal(handle) == Some(e)
                    &&& final(self).unchanged(old(self))
                },
            },
    {
        if handle.table != self.owner || handle.serial >= self.issued {
            return Err(TableError::NotFound);
        }
        if !handle.owned || !self.holds(handle) {
            return Err(TableError::NotOwned);
        }
        self.take_at(handle.rep)
    }

    /// Takes the live resource at the index `rep` out of both tables.
    fn take_at(&mut self, rep: u32) -> (res: Result<FooLogger, TableError>)
        requires
            old(self).wf(),
            old(self)@.contains_key(rep),
        ensures
            final(self).wf(),
            final(self).follows(old(self)),
            res == Ok::<FooLogger, TableError>(old(self)@[rep].value),
            final(self)@ == old(self)@.remove(rep),
            final(self).issued == old(self).issued,
            final(self).live == old(self).live - 1,
            final(self).history() == old(self).history(),
            final(self).stamps@.len() == old(self).stamps@.len(),
            forall|i: int|
                0 <= i < old(self).stamps@.len() ==> marks_live(#[trigger] final(self).stamps@[i])
                    == (i != rep && marks_live(old(self).stamps@[i])),
    {
        let ghost before = *self;
        let serial = match self.stamps[rep as usize] {
            Some(stamp) => stamp.serial,
            None => 0,
        };
        match table_delete(&mut self.inner, rep) {
            Ok(value) => {
                self.stamps.set(rep as usize, Some(Stamp { serial, live: false }));
                self.live = self.live - 1;
                proof {
                    assert(self@ =~= before@.remove(rep));
                    assert(self.history() =~= before.history());
                    assert(table_parents(self.inner) =~= Set::<u32>::empty());
                    assert(table_children(self.inner) =~= Set::<u32>::empty());
                }
                Ok(value)
            },
            Err(e) => {
                proof {
                    assert(false);
                }
                Err(TableError::from_engine(e))
            },
        }
    }

    /// The handle that the table issued last for the index `rep`, as an
    /// owned handle or as a borrow; `None` where it never issued the index.
    /// The handle is returned whether its resource still lives or not, so
    /// that a holder of the bare index who presents it after a delete is
    /// refused as the holder of the handle would be.
    pub fn handle_at(&self, rep: u32, owned: bool) -> (res: Option<ResourceHandle>)
        requires
            self.wf(),
        ensures
            res == self.last_handle(rep, owned),
    {
        if rep as usize >= self.stamps.len() {
            return None;
        }
        match self.stamps[rep as usize] {
            Some(stamp) => Some(
                ResourceHandle { table: self.owner, rep, serial: stamp.serial, owned },
            ),
            None => None,
        }
    }

    /// Releases every resource that still lives, as the teardown of an
    /// instance requires, and returns the released values by increasing
    /// index. Every handle that the table issued is dead afterwards.
    pub fn release_all(&mut self) -> (released: Vec<FooLogger>)
        requires
            old(self).wf(),
        ensures
            final(self).wf(),
            final(self).follows(old(self)),
            final(self).spec_issued() == old(self).spec_issued(),
            final(self)@.dom() == Set::<u32>::empty(),
            final(self).spec_len() == 0,
            final(self).history() == old(self).history(),
            released@ == old(self).values(),
            released@.len() == old(self).spec_len(),
    {
        let mut released: Vec<FooLogger> = Vec::new();
        let n: usize = self.stamps.len();
        let mut i: usize = 0;
        while i < n
            invariant
                self.wf(),
                self.follows(old(self)),
                self.issued == old(self).issued,
                n == self.stamps@.len(),
                n == old(self).stamps@.len(),
                i <= n,
                self.history() == old(self).history(),
                forall|k: int| 0 <= k < i ==> !marks_live(#[trigger] self.stamps@[k]),
                forall|k: int|
                    i <= k < n ==> marks_live(#[trigger] self.stamps@[k]) == marks_live(
                        old(self).stamps@[k],
                    ),
                forall|rep: u32|
                    #![trigger self@.contains_key(rep)]
                    self@.contains_key(rep) ==> self@[rep] == old(self)@[rep],
                released@ == values_below(old(self)@, i as nat),
                released@.len() + self.live == old(self).live,
            decreases n - i,
        {
            let is_live = match self.stamps[i] {
                Some(stamp) => stamp.live,
                None => false,
            };
            if is_live {
                proof {
                    assert(self@.contains_key(i as u32));
                    assert(old(self)@.contains_key(i as u32));
                }
                match self.take_at(i as u32) {
                    Ok(value) => {
                        released.push(value);
                    },
                    Err(_) => {},
                }
            } else {
                proof {
                    assert(!old(self)@.contains_key(i as u32));
                }
            }
            i = i + 1;
        }
        proof {
            assert(self@.dom() =~= Set::<u32>::empty());
            lemma_values_stop(old(self)@, n as nat, 0x1_0000_0000);
        }
        released
    }
}

/// Indices that hold nothing contribute nothing: where `slots` is empty from
/// the index `n` on, counting up to `m` yields what counting up to `n` does.
pub proof fn lemma_values_stop(slots: Map<u32, Slot>, n: nat, m: nat)
    requires
        n <= m,
        forall|rep: u32| n <= rep ==> !slots.contains_key(rep),
    ensures
        values_below(slots, m) == values_below(slots, n),
    decreases m,
{
    if n < m {
        lemma_values_stop(slots, n, (m - 1) as nat);
    }
}

/// The count of live resources is the number of indices that hold one.
pub proof fn lemma_len_counts_live(table: CapabilityTable)
    requires
        table.wf(),
    ensures
        table@.dom().finite(),
        table.spec_len() == table@.dom().len(),
        table.spec_len() <= table.spec_capacity(),
        forall|rep: u32| #[trigger]
            table@.contains_key(rep) ==> table@[rep].serial < table.spec_issued(),
{
}

/// The table remembers what it issued: every live resource stands under the
/// serial number that was issued last for its index, and every serial
/// number on record was issued by this table.
pub proof fn lemma_history_covers_live(table: CapabilityTable, rep: u32)
    requires
        table.wf(),
    ensures
        table@.contains_key(rep) ==> table.history().contains_key(rep) && table.history()[rep]
            == table@[rep].serial,
        table.history().contains_key(rep) ==> table.history()[rep] < table.spec_issued(),
{
}

/// A handle that an insert has just returned is new to the table, and
/// reading through it yields the inserted value unchanged.
pub proof fn lemma_get_after_insert(
    before: CapabilityTable,
    after: CapabilityTable,
    value: FooLogger,
    h: ResourceHandle,
)
    requires
        after.follows(&before),
        after.inserted(&before, value, h),
    ensures
        !before.issued_here(h),
        after.resolves(h),
        after.value_of(h) == Some(value),
{
}

/// Deleting consumes the handle: once a delete through it has succeeded, a
/// second delete is refused with `NotOwned` and a read with `NotFound`.
pub proof fn lemma_delete_consumes(
    before: CapabilityTable,
    after: CapabilityTable,
    h: ResourceHandle,
)
    requires
        after.follows(&before),
        after.deleted(&before, h),
    ensures
        after.delete_refusal(h) == Some(TableError::NotOwned),
        after.value_of(h) is None,
{
}

/// Instances are isolated: a handle that one table issued addresses nothing
/// in the table of any other instance.
pub proof fn lemma_foreign_handle_is_rejected(
    issuer: CapabilityTable,
    other: CapabilityTable,
    h: ResourceHandle,
)
    requires
        issuer.spec_owner() != other.spec_owner(),
        h.table == issuer.spec_owner(),
    ensures
        !other.resolves(h),
        other.value_of(h) is None,
        other.delete_refusal(h) == Some(TableError::NotFound),
{
}

/// A table's history is ordered: what follows a later state follows every
/// earlier one.
pub proof fn lemma_follows_is_transitive(
    first: CapabilityTable,
    second: CapabilityTable,
    third: CapabilityTable,
)
    requires
        second.follows(&first),
        third.follows(&second),
    ensures
        third.follows(&first),
{
    assert forall|rep: u32|
        #![trigger third@.contains_key(rep)]
        third@.contains_key(rep) && third@[rep].serial < first.spec_issued() implies {
        &&& first@.contains_key(rep)
        &&& first@[rep].serial == third@[rep].serial
    } by {
        assert(second@.contains_key(rep));
    }
}

/// Handles are never reused: a handle that the table has issued and that
/// addresses nothing any more addresses nothing in any later state, whatever
/// was inserted since.
pub proof fn lemma_dead_handles_stay_dead(
    earlier: CapabilityTable,
    later: CapabilityTable,
    h: ResourceHandle,
)
    requires
        later.follows(&earlier),
        earlier.issued_here(h),
        !earlier.resolves(h),
    ensures
        later.issued_here(h),
        !later.resolves(h),
        later.value_of(h) is None,
{
    if later.resolves(h) {
        assert(later@.contains_key(h.rep));
    }
}

} // verus!
