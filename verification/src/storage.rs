//! The durable structures under the store, from `ic_stable_structures`.
//!
//! One growable byte space is divided into regions. Region 0 holds the
//! identifier counter, a cell of one `u64`. Region 1 holds the ordered map
//! from identifier to encoded request, whose values are byte strings of at
//! most [`MAX_SIZE`](crate::codec::MAX_SIZE) bytes.
//!
//! Everything in this file but the three constants is trusted: Verus reads
//! the contracts and not the bodies. Each contract says what the source of
//! `ic_stable_structures` shows of the function that the body calls. Two
//! things stand behind all of them and cannot be written as a clause:
//!
//! * a region belongs to the one structure that was opened in it, and a byte
//!   space to the one store that was opened on it, so a write to the counter
//!   leaves the map as it is, and the other way round;
//! * the byte space can still grow. Where it cannot, `MemoryManager::init`,
//!   `Cell::new`, `StableBTreeMap::new` and `StableBTreeMap::insert` abort,
//!   as a `Vec` does when the allocator gives out.
//!
//! `MemoryManager::init`, `Cell::init` and `StableBTreeMap::init` also abort
//! on a space that holds a layout of another version, or a structure of
//! another kind in the region.

use vstd::prelude::*;
use ic_stable_structures::cell::{InitError, ValueError};
use ic_stable_structures::memory_manager::{MemoryId, MemoryManager, VirtualMemory};
use ic_stable_structures::storable::Blob;
use ic_stable_structures::{Cell, DefaultMemoryImpl, Memory, StableBTreeMap};
use crate::codec::MAX_SIZE;

verus! {

/// The region of the identifier counter.
pub const COUNTER_REGION: u8 = 0;

/// The region of the map of requests.
pub const RECORDS_REGION: u8 = 1;

/// The number that no region can have: the allocator marks free space with
/// it.
pub const REGION_LIMIT: u8 = 255;

/// `std::cell::RefCell`, which the byte space is made of. Nothing is said of
/// what it holds.
#[verifier::external_type_specification]
#[verifier::external_body]
#[verifier::reject_recursive_types(T)]
pub struct ExRefCell<T: ?Sized>(core::cell::RefCell<T>);

/// `ic_stable_structures::cell::InitError`: why a cell could not be opened.
#[verifier::external_type_specification]
#[verifier::external_body]
pub struct ExInitError(InitError);

/// `ic_stable_structures::cell::ValueError`: why a cell did not take a
/// value.
#[verifier::external_type_specification]
#[verifier::external_body]
pub struct ExValueError(ValueError);

/// The region allocator, a `MemoryManager` over the byte space.
#[verifier::external_body]
pub(crate) struct RegionAllocator {
    inner: MemoryManager<DefaultMemoryImpl>,
}

/// One region, a `VirtualMemory` of the allocator.
#[verifier::external_body]
pub struct Region {
    inner: VirtualMemory<DefaultMemoryImpl>,
}

/// The identifier counter, a `Cell` of one `u64` in its region.
#[verifier::external_body]
pub struct IdCell {
    inner: Cell<u64, VirtualMemory<DefaultMemoryImpl>>,
}

/// The map of requests, a `StableBTreeMap` from `u64` to `Blob<1024>` in its
/// region.
#[verifier::external_body]
pub struct RecordMap {
    inner: StableBTreeMap<u64, Blob<1024>, VirtualMemory<DefaultMemoryImpl>>,
}

/// The number of a region: the `MemoryId` that the `VirtualMemory` was made
/// with.
pub uninterp spec fn region_number(region: Region) -> u8;

/// The value that a cell holds.
pub uninterp spec fn counter_value(cell: IdCell) -> u64;

/// The number of the region that a cell was opened in.
pub uninterp spec fn cell_region(cell: IdCell) -> u8;

/// The entries that a map holds, each value as its bytes.
pub uninterp spec fn map_contents(map: RecordMap) -> Map<u64, Seq<u8>>;

/// The number of the region that a map was opened in.
pub uninterp spec fn map_region(map: RecordMap) -> u8;

/// A byte space of the default kind.
///
/// Trusted: this calls `DefaultMemoryImpl::default`. Nothing is said of what
/// the space holds: in a canister it is the stable memory, with whatever an
/// earlier run left there.
#[verifier::external_body]
pub(crate) fn default_space() -> (space: DefaultMemoryImpl) {
    DefaultMemoryImpl::default()
}

/// Opens the region allocator on a byte space.
///
/// Trusted: this calls `MemoryManager::init`, which loads the allocator that
/// the space holds, or sets one up in a space that holds none. Nothing is
/// said of the result.
#[verifier::external_body]
pub(crate) fn allocator_init(space: DefaultMemoryImpl) -> (allocator: RegionAllocator) {
    RegionAllocator { inner: MemoryManager::init(space) }
}

/// The region with the given number.
///
/// Trusted: this calls `MemoryId::new`, which refuses 255, and
/// `MemoryManager::get`, which makes the `VirtualMemory` with that number.
#[verifier::external_body]
pub(crate) fn region(allocator: &RegionAllocator, id: u8) -> (made: Region)
    requires
        id < REGION_LIMIT,
    ensures
        region_number(made) == id,
{
    Region { inner: allocator.inner.get(MemoryId::new(id)) }
}

/// The length of a region in pages of 64 KiB. A region that was never
/// written to has none.
///
/// Trusted: this calls `Memory::size` on the `VirtualMemory`. The length
/// depends on what was written before, so nothing is said of the result.
#[verifier::external_body]
pub(crate) fn region_pages(region: &Region) -> (pages: u64) {
    region.inner.size()
}

/// Sets up a counter in a region, over whatever the region holds.
///
/// Trusted: this calls `Cell::new`, which writes the value to the region and
/// returns a cell that holds it, or fails where the region cannot grow. The
/// error is turned into an `InitError` by the crate's own `From`, as
/// `Cell::init` does.
#[verifier::external_body]
pub(crate) fn cell_new(region: Region, value: u64) -> (r: Result<IdCell, InitError>)
    ensures
        r is Ok ==> counter_value(r->Ok_0) == value,
        r is Ok ==> cell_region(r->Ok_0) == region_number(region),
{
    match Cell::new(region.inner, value) {
        Ok(inner) => Ok(IdCell { inner }),
        Err(e) => Err(InitError::from(e)),
    }
}

/// Opens the counter in a region.
///
/// Trusted: this calls `Cell::init`, which loads the value that the region
/// holds, or writes `default` to a region that holds no cell. Which of the
/// two happens, and whether it succeeds, depends on the region, so of the
/// value nothing is said. The cell keeps the region it was given.
#[verifier::external_body]
pub(crate) fn cell_init(region: Region, default: u64) -> (r: Result<IdCell, InitError>)
    ensures
        r is Ok ==> cell_region(r->Ok_0) == region_number(region),
{
    match Cell::init(region.inner, default) {
        Ok(inner) => Ok(IdCell { inner }),
        Err(e) => Err(e),
    }
}

/// Lets go of a counter and opens it again from its own region.
///
/// Trusted: this calls `Cell::into_memory`, which hands the region back, and
/// `Cell::init` on it. A cell writes its header and its value to the region
/// when it is set up and at every `set`, before it takes the value. So the
/// region of a cell always holds a cell of the current layout with the
/// cell's value, and `Cell::init` takes its loading path, which cannot fail,
/// and reads that value back: `u64::from_bytes` undoes `u64::to_bytes`.
#[verifier::external_body]
pub(crate) fn cell_reload(cell: IdCell, default: u64) -> (r: Result<IdCell, InitError>)
    ensures
        r is Ok,
        counter_value(r->Ok_0) == counter_value(cell),
        cell_region(r->Ok_0) == cell_region(cell),
{
    match Cell::init(cell.inner.into_memory(), default) {
        Ok(inner) => Ok(IdCell { inner }),
        Err(e) => Err(e),
    }
}

/// The value of the counter.
///
/// Trusted: this calls `Cell::get`, which returns the value that the cell
/// holds.
#[verifier::external_body]
pub(crate) fn cell_get(cell: &IdCell) -> (value: u64)
    ensures
        value == counter_value(*cell),
{
    *cell.inner.get()
}

/// Writes a value to the counter.
///
/// Trusted: this calls `Cell::set`, which writes the value to the region,
/// takes it, and returns the one before. It fails only where the region has
/// to grow for the value and cannot. The region of a cell has at least one
/// page, since setting the cell up wrote to it and no region shrinks, and
/// the eight bytes of a `u64` with the eight of the header fit in one page:
/// so this write never grows the region, and succeeds.
#[verifier::external_body]
pub(crate) fn cell_set(cell: &mut IdCell, value: u64) -> (r: Result<u64, ValueError>)
    ensures
        r is Ok,
        r->Ok_0 == counter_value(*old(cell)),
        counter_value(*final(cell)) == value,
        cell_region(*final(cell)) == cell_region(*old(cell)),
{
    cell.inner.set(value)
}

/// Sets up an empty map in a region, over whatever the region holds.
///
/// Trusted: this calls `StableBTreeMap::new`, which writes the header of a
/// map without a root to the region and returns that map.
#[verifier::external_body]
pub(crate) fn map_new(region: Region) -> (made: RecordMap)
    ensures
        forall|key: u64| !map_contents(made).contains_key(key),
        map_region(made) == region_number(region),
{
    RecordMap { inner: StableBTreeMap::new(region.inner) }
}

/// Opens the map in a region.
///
/// Trusted: this calls `StableBTreeMap::init`, which loads the map that the
/// region holds, or sets up an empty one in a region that holds none. Which
/// of the two happens depends on the region, so of the entries nothing is
/// said. The map keeps the region it was given.
#[verifier::external_body]
pub(crate) fn map_init(region: Region) -> (opened: RecordMap)
    ensures
        map_region(opened) == region_number(region),
{
    RecordMap { inner: StableBTreeMap::init(region.inner) }
}

/// Lets go of a map and opens it again from its own region.
///
/// Trusted: this calls `StableBTreeMap::into_memory`, which hands the region
/// back, and `StableBTreeMap::init` on it. A map keeps its entries in the
/// nodes in its region, and writes its header, with the root's address, at
/// every change of the root or of the number of entries; its allocator does
/// the same with its own header. So `StableBTreeMap::init` finds the map's
/// header, takes its loading path, and reaches the same nodes from the same
/// root.
#[verifier::external_body]
pub(crate) fn map_reload(map: RecordMap) -> (reloaded: RecordMap)
    ensures
        map_contents(reloaded) == map_contents(map),
        map_region(reloaded) == map_region(map),
{
    RecordMap { inner: StableBTreeMap::init(map.inner.into_memory()) }
}

/// The bytes stored under a key.
///
/// Trusted: this calls `StableBTreeMap::get`, which returns the value under
/// the key, or `None` where the map has no such key. `Blob::as_slice` gives
/// the value's bytes.
#[verifier::external_body]
pub(crate) fn map_get(map: &RecordMap, key: u64) -> (r: Option<Vec<u8>>)
    ensures
        r is Some <==> map_contents(*map).contains_key(key),
        r is Some ==> r->Some_0@ == map_contents(*map)[key],
{
    map.inner.get(&key).map(|blob| blob.as_slice().to_vec())
}

/// Stores bytes under a key, in place of what was there.
///
/// Trusted: this calls `StableBTreeMap::insert`, which writes the value
/// under the key and returns the value that the key had before, if any.
/// `Blob::try_from` takes any slice of at most 1024 bytes, which is
/// [`MAX_SIZE`].
#[verifier::external_body]
pub(crate) fn map_insert(map: &mut RecordMap, key: u64, value: &[u8]) -> (r: Option<Vec<u8>>)
    requires
        value@.len() <= MAX_SIZE,
    ensures
        map_contents(*final(map)) == map_contents(*old(map)).insert(key, value@),
        map_region(*final(map)) == map_region(*old(map)),
        r is Some <==> map_contents(*old(map)).contains_key(key),
        r is Some ==> r->Some_0@ == map_contents(*old(map))[key],
{
    let blob = Blob::<1024>::try_from(value).unwrap();
    map.inner.insert(key, blob).map(|blob| blob.as_slice().to_vec())
}

/// Takes a key out of the map.
///
/// Trusted: this calls `StableBTreeMap::remove`, which deletes the entry
/// under the key and returns its value, or returns `None` and changes
/// nothing where the map has no such key.
#[verifier::external_body]
pub(crate) fn map_remove(map: &mut RecordMap, key: u64) -> (r: Option<Vec<u8>>)
    ensures
        map_contents(*final(map)) == map_contents(*old(map)).remove(key),
        map_region(*final(map)) == map_region(*old(map)),
        r is Some <==> map_contents(*old(map)).contains_key(key),
        r is Some ==> r->Some_0@ == map_contents(*old(map))[key],
{
    map.inner.remove(&key).map(|blob| blob.as_slice().to_vec())
}

/// The greatest key of the map.
///
/// Trusted: this calls `StableBTreeMap::last_key_value`, which returns the
/// entry with the greatest key, or `None` for an empty map.
#[verifier::external_body]
pub(crate) fn map_last_key(map: &RecordMap) -> (r: Option<u64>)
    ensures
        r is None ==> forall|key: u64| !map_contents(*map).contains_key(key),
        r is Some ==> map_contents(*map).contains_key(r->Some_0),
        r is Some ==> forall|key: u64|
            map_contents(*map).contains_key(key) ==> key <= r->Some_0,
{
    map.inner.last_key_value().map(|entry| entry.0)
}

} // verus!
