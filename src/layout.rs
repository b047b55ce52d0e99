//! The memory layout that translated functions follow.
//!
//! Heap, globals and table are all reached through one imported symbol, the
//! base symbol, at small offsets that select the address space: an address is
//! `base(symbol, offset) + displacement`. Direct calls name the callee by its
//! function index, which relocation patching resolves later. Features that the
//! target lacks (memory and table growth and size, atomics) yield a fixed
//! value instead of a computed one.
use vstd::prelude::*;
use crate::module::{global_ir_type, global_type, IrType, PointerWidth, ZkasmModuleInfo};

verus! {

/// The name of an imported symbol: a namespace and an index in it.
#[derive(Clone, Copy, Debug, PartialEq, Eq, Structural)]
pub struct UserName {
    pub namespace: u32,
    pub index: u32,
}

/// The address spaces reached through the base symbol.
#[derive(Clone, Copy, Debug, PartialEq, Eq, Structural)]
pub enum BaseKind {
    Heap,
    Globals,
    Table,
}

/// The offset at which the base symbol selects an address space.
pub open spec fn base_offset_of(kind: BaseKind) -> i64 {
    match kind {
        BaseKind::Heap => 0,
        BaseKind::Globals => 1,
        BaseKind::Table => 2,
    }
}

/// The symbol through which every heap, global and table access goes.
pub fn zkasm_base() -> (r: UserName)
    ensures
        r == (UserName { namespace: 0, index: 100 }),
{
    UserName { namespace: 0, index: 100 }
}

/// The offset at which the base symbol selects the address space `kind`.
pub fn base_offset(kind: BaseKind) -> (r: i64)
    ensures
        r == base_offset_of(kind),
{
    match kind {
        BaseKind::Heap => 0,
        BaseKind::Globals => 1,
        BaseKind::Table => 2,
    }
}

/// The symbol that a direct call of function `func_index` imports.
pub fn direct_call_name(func_index: u32) -> (r: UserName)
    ensures
        r == (UserName { namespace: 0, index: func_index }),
{
    UserName { namespace: 0, index: func_index }
}

/// The displacement of global `index` from the globals base.
pub fn global_offset(index: usize) -> (r: i32)
    requires
        index <= i32::MAX,
    ensures
        r == index,
{
    index as i32
}

/// Where a global variable lives and how it is typed: at displacement
/// `offset` from the address that `base` selects at `base_offset`.
#[derive(Clone, Copy, Debug, PartialEq, Eq, Structural)]
pub struct GlobalVariable {
    pub base: UserName,
    pub base_offset: i64,
    pub offset: i32,
    pub ty: IrType,
}

/// The global variable `index` of `info`: in the globals address space, at
/// its index, with the type its declaration gives.
pub fn make_global(info: &ZkasmModuleInfo, index: usize) -> (r: GlobalVariable)
    requires
        index < info.globals@.len(),
        index <= i32::MAX,
    ensures
        r == (GlobalVariable {
            base: UserName { namespace: 0, index: 100 },
            base_offset: base_offset_of(BaseKind::Globals),
            offset: index as i32,
            ty: global_type(info.globals@[index as int].entity.wasm_ty),
        }),
{
    GlobalVariable {
        base: zkasm_base(),
        base_offset: base_offset(BaseKind::Globals),
        offset: global_offset(index),
        ty: global_ir_type(info.globals[index].entity.wasm_ty),
    }
}

/// How the heap is laid out: a static bound, with a guard region after it,
/// no maximum size and no dynamic growth, indexed by 32-bit addresses.
#[derive(Clone, Copy, Debug, PartialEq, Eq, Structural)]
pub struct HeapLayout {
    pub base_offset: i64,
    pub min_size: u64,
    pub max_size: Option<u64>,
    pub offset_guard_size: u64,
    pub bound: u64,
    pub index_type: IrType,
}

/// The heap's layout.
pub fn heap_layout() -> (r: HeapLayout)
    ensures
        r == (HeapLayout {
            base_offset: base_offset_of(BaseKind::Heap),
            min_size: 0,
            max_size: None,
            offset_guard_size: 0x8000_0000,
            bound: 0x1_0000_0000,
            index_type: IrType::I32,
        }),
{
    HeapLayout {
        base_offset: base_offset(BaseKind::Heap),
        min_size: 0,
        max_size: None,
        offset_guard_size: 0x8000_0000,
        bound: 0x1_0000_0000,
        index_type: IrType::I32,
    }
}

/// How a table is laid out: its current bound is a value of `bound_type`
/// loaded from `bound_offset` past the table base, and its elements are
/// `element_size` bytes each.
#[derive(Clone, Copy, Debug, PartialEq, Eq, Structural)]
pub struct TableLayout {
    pub base_offset: i64,
    pub bound_offset: i32,
    pub bound_type: IrType,
    pub min_size: u64,
    pub element_size: u64,
    pub index_type: IrType,
}

/// The layout of a table on a target whose pointers have width `pw`.
pub fn table_layout(pw: PointerWidth) -> (r: TableLayout)
    ensures
        r == (TableLayout {
            base_offset: base_offset_of(BaseKind::Table),
            bound_offset: 0,
            bound_type: IrType::I32,
            min_size: 0,
            element_size: (2 * pw.spec_bytes()) as u64,
            index_type: IrType::I32,
        }),
{
    TableLayout {
        base_offset: base_offset(BaseKind::Table),
        bound_offset: 0,
        bound_type: IrType::I32,
        min_size: 0,
        element_size: 2 * pw.bytes() as u64,
        index_type: IrType::I32,
    }
}

/// The address of the function pointer of table entry `callee`: the table
/// base plus one pointer width per entry, or `None` when that passes the
/// last address. Neither the entry's signature nor the table's bound is
/// checked.
pub fn indirect_callee_address(table_base: u64, callee: u32, pw: PointerWidth) -> (r: Option<u64>)
    ensures
        r is Some <==> table_base + callee * pw.spec_bytes() <= u64::MAX,
        r matches Some(a) ==> a == table_base + callee * pw.spec_bytes(),
{
    let step = callee as u64 * pw.bytes() as u64;
    if step > u64::MAX - table_base {
        None
    } else {
        Some(table_base + step)
    }
}

/// What memory and table size and growth queries and atomic waits yield:
/// `-1` as a 32-bit value.
pub fn unsupported_result() -> (r: i64)
    ensures
        r == 0xffff_ffff,
{
    0xffff_ffff
}

/// What an atomic notification yields: no waiter was woken.
pub fn atomic_notify_result() -> (r: i64)
    ensures
        r == 0,
{
    0
}

} // verus!
