//! The engine's resource table, as far as the handle table relies on it.
//!
//! Nothing in this file is proved. Each item states what the engine's source
//! shows of one of its functions; the rest of the crate is verified against
//! these statements.

use vstd::prelude::*;
use wasmtime::component::{Resource, ResourceTable, ResourceTableError};

use crate::level::FooLogger;

verus! {

/// The engine's table of host-owned resources.
#[verifier::external_type_specification]
#[verifier::external_body]
pub struct ExResourceTable(ResourceTable);

/// The engine's reasons for refusing a table operation.
#[verifier::external_type_specification]
pub struct ExResourceTableError(ResourceTableError);

/// The occupied indices of a table, each with the logger stored there, or
/// with `None` where the stored value is of another type.
pub uninterp spec fn table_entries(table: ResourceTable) -> Map<u32, Option<FooLogger>>;

/// The occupied indices of a table that have child entries.
pub uninterp spec fn table_parents(table: ResourceTable) -> Set<u32>;

/// The occupied indices of a table whose entry records a parent entry.
pub uninterp spec fn table_children(table: ResourceTable) -> Set<u32>;

/// `ResourceTable::new`: a table without entries.
#[verifier::external_body]
pub(crate) fn table_new() -> (table: ResourceTable)
    ensures
        table_entries(table).dom() == Set::<u32>::empty(),
        table_parents(table) == Set::<u32>::empty(),
        table_children(table) == Set::<u32>::empty(),
{
    ResourceTable::new()
}

/// `ResourceTable::push`: stores the logger, without a parent or children,
/// at an index that was free and returns the index. The call is refused, with `Full`,
/// only when every 32-bit index is occupied, and then changes nothing.
#[verifier::external_body]
pub(crate) fn table_push(table: &mut ResourceTable, logger: FooLogger) -> (res: Result<
    u32,
    ResourceTableError,
>)
    ensures
        table_parents(*final(table)) == table_parents(*old(table)),
        table_children(*final(table)) == table_children(*old(table)),
        match res {
            Ok(rep) => {
                &&& !table_entries(*old(table)).contains_key(rep)
                &&& table_entries(*final(table)) == table_entries(*old(table)).insert(
                    rep,
                    Some(logger),
                )
            },
            Err(e) => {
                &&& e is Full
                &&& table_entries(*old(table)).dom().len() > u32::MAX
                &&& table_entries(*final(table)) == table_entries(*old(table))
            },
        },
{
    table.push(logger).map(|resource| resource.rep())
}

/// `ResourceTable::get` with a borrowed key for a logger: the logger at the
/// index, `NotPresent` where the index is free, `WrongType` where it holds a
/// value of another type.
#[verifier::external_body]
pub(crate) fn table_get(table: &ResourceTable, rep: u32) -> (res: Result<
    &FooLogger,
    ResourceTableError,
>)
    ensures
        match res {
            Ok(logger) => table_entries(*table).contains_key(rep) && table_entries(*table)[rep]
                == Some(*logger),
            Err(e) => if table_entries(*table).contains_key(rep) {
                e is WrongType && table_entries(*table)[rep] is None
            } else {
                e is NotPresent
            },
        },
{
    table.get(&Resource::<FooLogger>::new_borrow(rep))
}

/// `ResourceTable::get_mut` with a borrowed key for a logger: exclusive
/// access to the logger at the index, so that the entry ends up holding what
/// the caller leaves there; refused as `get` is, and then nothing changes.
#[verifier::external_body]
pub(crate) fn table_get_mut(table: &mut ResourceTable, rep: u32) -> (res: Result<
    &mut FooLogger,
    ResourceTableError,
>)
    ensures
        table_parents(*final(table)) == table_parents(*old(table)),
        table_children(*final(table)) == table_children(*old(table)),
        match res {
            Ok(logger) => {
                &&& table_entries(*old(table)).contains_key(rep)
                &&& table_entries(*old(table))[rep] == Some(*logger)
                &&& table_entries(*final(table)) == table_entries(*old(table)).insert(
                    rep,
                    Some(*final(logger)),
                )
            },
            Err(e) => {
                &&& table_entries(*final(table)) == table_entries(*old(table))
                &&& if table_entries(*old(table)).contains_key(rep) {
                    e is WrongType && table_entries(*old(table))[rep] is None
                } else {
                    e is NotPresent
                }
            },
        },
{
    table.get_mut(&Resource::<FooLogger>::new_borrow(rep))
}

/// Whether `after` is `before` with the entry at `rep` taken out: the index
/// is free, or holds a placeholder of another type.
pub open spec fn vacated(
    before: Map<u32, Option<FooLogger>>,
    after: Map<u32, Option<FooLogger>>,
    rep: u32,
) -> bool {
    after == before.remove(rep) || after == before.insert(rep, None)
}

/// `ResourceTable::delete` with an owned key for a logger: takes the logger
/// at the index out of the table. Afterwards the index is free, or, in a
/// build of the engine with debug assertions, holds a placeholder of another
/// type. The call is refused with `NotPresent` where the index is free and
/// with `HasChildren` where the entry has children, and then changes
/// nothing; where the entry is of another type it is destroyed all the same
/// and the call reports `WrongType`. An entry that records a parent is left
/// out: the engine then looks the parent up and panics where it is gone.
#[verifier::external_body]
pub(crate) fn table_delete(table: &mut ResourceTable, rep: u32) -> (res: Result<
    FooLogger,
    ResourceTableError,
>)
    requires
        !table_children(*old(table)).contains(rep),
    ensures
        table_parents(*final(table)).subset_of(table_parents(*old(table))),
        table_children(*final(table)).subset_of(table_children(*old(table))),
        match res {
            Ok(logger) => {
                &&& table_entries(*old(table)).contains_key(rep)
                &&& table_entries(*old(table))[rep] == Some(logger)
                &&& !table_parents(*old(table)).contains(rep)
                &&& vacated(table_entries(*old(table)), table_entries(*final(table)), rep)
            },
            Err(e) => if !table_entries(*old(table)).contains_key(rep) {
                e is NotPresent && table_entries(*final(table)) == table_entries(*old(table))
            } else if table_parents(*old(table)).contains(rep) {
                e is HasChildren && table_entries(*final(table)) == table_entries(*old(table))
            } else {
                &&& e is WrongType
                &&& table_entries(*old(table))[rep] is None
                &&& vacated(table_entries(*old(table)), table_entries(*final(table)), rep)
            },
        },
{
    table.delete(Resource::<FooLogger>::new_own(rep))
}

} // verus!
