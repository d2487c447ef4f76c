//! The store of one plugin instance and the logging capability that the host
//! offers to it.

use vstd::prelude::*;
use wasmtime_wasi::WasiCtx;

use crate::level::{FooLogger, Level};
use crate::sandbox::sandbox_default;
use crate::table::{CapabilityTable, PluginId, ResourceHandle, Slot, TableError};

verus! {

/// The number of resources that an instance may hold at a time unless the
/// host decides otherwise.
pub const DEFAULT_CAPACITY: usize = 1_000_000;

/// What the host keeps for one plugin instance: its sandbox context and the
/// table of the resources it holds. No two instances share either.
pub struct PluginState {
    pub ctx: WasiCtx,
    table: CapabilityTable,
}

impl PluginState {
    /// The instance's table of resources.
    pub closed spec fn spec_table(&self) -> &CapabilityTable {
        &self.table
    }

    /// The instance's sandbox context.
    pub closed spec fn spec_ctx(&self) -> WasiCtx {
        self.ctx
    }

    /// The state's invariant: that of its table.
    pub open spec fn wf(&self) -> bool {
        self.spec_table().wf()
    }

    /// The resource that the handle addresses, if it addresses one here.
    pub open spec fn logger_of(&self, h: ResourceHandle) -> Option<FooLogger> {
        self.spec_table().value_of(h)
    }

    /// A fresh store for the instance `id`: a sandbox context that grants
    /// nothing and an empty table of the default capacity.
    pub fn for_instance(id: PluginId) -> (state: PluginState)
        ensures
            state.wf(),
            state.spec_table().spec_owner() == id,
            state.spec_table().spec_capacity() == DEFAULT_CAPACITY,
            state.spec_table().spec_issued() == 0,
            state.spec_table().spec_len() == 0,
            state.spec_table()@.dom() == Set::<u32>::empty(),
    {
        PluginState::with_capacity(id, DEFAULT_CAPACITY)
    }

    /// A fresh store for the instance `id` whose table holds at most
    /// `capacity` resources at a time.
    pub fn with_capacity(id: PluginId, capacity: usize) -> (state: PluginState)
        ensures
            state.wf(),
            state.spec_table().spec_owner() == id,
            state.spec_table().spec_capacity() == capacity,
            state.spec_table().spec_issued() == 0,
            state.spec_table().spec_len() == 0,
            state.spec_table()@.dom() == Set::<u32>::empty(),
    {
        PluginState { ctx: sandbox_default(), table: CapabilityTable::new(id, capacity) }
    }

    #[verifier::when_used_as_spec(spec_table)]
    pub fn table(&self) -> (table: &CapabilityTable)
        ensures
            table == self.spec_table(),
    {
        &self.table
    }

    /// Creates a logger with the given filter in the instance's table and
    /// returns the handle that owns it. Refused with `TableFull` exactly
    /// when the table has no room.
    pub fn new(&mut self, max_level: Level) -> (res: Result<ResourceHandle, TableError>)
        requires
            old(self).wf(),
        ensures
            final(self).wf(),
            final(self).spec_ctx() == old(self).spec_ctx(),
            final(self).table().follows(old(self).table()),
            res is Ok <==> old(self).table().has_room(),
            match res {
                Ok(h) => final(self).table().inserted(
                    old(self).table(),
                    (FooLogger { max_level }),
                    h,
                ),
                Err(e) => e == TableError::TableFull && final(self).table().unchanged(
                    old(self).table(),
                ),
            },
    {
        self.table.insert(FooLogger { max_level })
    }

    /// Reads the filter of the logger that the borrowed handle addresses.
    /// Refused with `NotFound` where the handle addresses no live logger of
    /// this instance.
    pub fn get_max_level(&mut self, logger: ResourceHandle) -> (res: Result<Level, TableError>)
        requires
            old(self).wf(),
            !logger.owned,
        ensures
            final(self).wf(),
            final(self).spec_ctx() == old(self).spec_ctx(),
            final(self).table() == old(self).table(),
            match res {
                Ok(level) => old(self).logger_of(logger) == Some(FooLogger { max_level: level }),
                Err(e) => old(self).logger_of(logger) is None && e == TableError::NotFound,
            },
    {
        match self.table.get(logger) {
            Ok(found) => Ok(found.max_level),
            Err(e) => Err(e),
        }
    }

    /// Sets the filter of the logger that the borrowed handle addresses, in
    /// place. Refused with `NotFound`, and nothing changes, where the handle
    /// addresses no live logger of this instance.
    pub fn set_max_level(&mut self, logger: ResourceHandle, level: Level) -> (res: Result<
        (),
        TableError,
    >)
        requires
            old(self).wf(),
            !logger.owned,
        ensures
            final(self).wf(),
            final(self).spec_ctx() == old(self).spec_ctx(),
            final(self).table().follows(old(self).table()),
            final(self).table().spec_issued() == old(self).table().spec_issued(),
            final(self).table().spec_len() == old(self).table().spec_len(),
            final(self).table().history() == old(self).table().history(),
            match res {
                Ok(_) => {
                    &&& old(self).logger_of(logger) is Some
                    &&& final(self).table()@ == old(self).table()@.insert(
                        logger.rep,
                        (Slot { serial: logger.serial, value: FooLogger { max_level: level } }),
                    )
                },
                Err(e) => {
                    &&& old(self).logger_of(logger) is None
                    &&& e == TableError::NotFound
                    &&& final(self).table()@ == old(self).table()@
                },
            },
    {
        match self.table.get_mut(logger) {
            Ok(found) => {
                found.max_level = level;
                Ok(())
            },
            Err(e) => Err(e),
        }
    }

    /// Passes a message of severity `level` through the logger that the
    /// borrowed handle addresses: returns the message where the logger emits
    /// it, for the host to write to its output, and `None` where the logger
    /// drops it. Refused with `NotFound` where the handle addresses no live
    /// logger of this instance. The state stays as it is.
    pub fn log(&mut self, logger: ResourceHandle, level: Level, msg: String) -> (res: Result<
        Option<String>,
        TableError,
    >)
        requires
            old(self).wf(),
            !logger.owned,
        ensures
            final(self).wf(),
            final(self).spec_ctx() == old(self).spec_ctx(),
            final(self).table() == old(self).table(),
            match res {
                Ok(emitted) => {
                    &&& old(self).logger_of(logger) matches Some(found)
                    &&& emitted == if found.passes(level) {
                        Some(msg)
                    } else {
                        None
                    }
                },
                Err(e) => old(self).logger_of(logger) is None && e == TableError::NotFound,
            },
    {
        match self.table.get(logger) {
            Ok(found) => {
                if found.emits(level) {
                    Ok(Some(msg))
                } else {
                    Ok(None)
                }
            },
            Err(e) => Err(e),
        }
    }

    /// Destroys the logger that the handle owns. A borrow, and a second
    /// drop through the same handle, are refused with `NotOwned`; a handle
    /// that this instance's table never issued is refused with `NotFound`.
    /// A refusal changes nothing.
    pub fn drop(&mut self, logger: ResourceHandle) -> (res: Result<(), TableError>)
        requires
            old(self).wf(),
        ensures
            final(self).wf(),
            final(self).spec_ctx() == old(self).spec_ctx(),
            final(self).table().follows(old(self).table()),
            match res {
                Ok(_) => final(self).table().deleted(old(self).table(), logger),
                Err(e) => {
                    &&& old(self).table().delete_refusal(logger) == Some(e)
                    &&& final(self).table().unchanged(old(self).table())
                },
            },
    {
        match self.table.delete(logger) {
            Ok(_) => Ok(()),
            Err(e) => Err(e),
        }
    }

    /// Tears the instance's table down: releases every logger that the
    /// guest left behind and returns them by increasing index.
    pub fn teardown(&mut self) -> (released: Vec<FooLogger>)
        requires
            old(self).wf(),
        ensures
            final(self).wf(),
            final(self).spec_ctx() == old(self).spec_ctx(),
            final(self).table().follows(old(self).table()),
            final(self).table().spec_issued() == old(self).table().spec_issued(),
            final(self).table().history() == old(self).table().history(),
            final(self).table()@.dom() == Set::<u32>::empty(),
            final(self).table().spec_len() == 0,
            released@ == old(self).table().values(),
            released@.len() == old(self).table().spec_len(),
    {
        self.table.release_all()
    }
}

} // verus!
