use zkasm_codegen::layout::{
    atomic_notify_result, base_offset, direct_call_name, global_offset, heap_layout,
    indirect_callee_address, make_global, table_layout, unsupported_result, zkasm_base, BaseKind,
    UserName,
};
use zkasm_codegen::module::{Global, GlobalInit, IrType, PointerWidth, WasmType, ZkasmEnvironment};

#[test]
fn base_symbol_and_offsets() {
    assert_eq!(zkasm_base(), UserName { namespace: 0, index: 100 });
    assert_eq!(base_offset(BaseKind::Heap), 0);
    assert_eq!(base_offset(BaseKind::Globals), 1);
    assert_eq!(base_offset(BaseKind::Table), 2);
    assert_eq!(global_offset(7), 7);
}

#[test]
fn direct_calls_name_the_function_index() {
    assert_eq!(direct_call_name(3), UserName { namespace: 0, index: 3 });
}

#[test]
fn globals_are_typed_by_their_declaration() {
    let mut env = ZkasmEnvironment::new(PointerWidth::Bits32);
    let tys = [
        (WasmType::I32, IrType::I32),
        (WasmType::I64, IrType::I64),
        (WasmType::F32, IrType::F32),
        (WasmType::F64, IrType::F64),
        (WasmType::V128, IrType::I8X16),
        (WasmType::Ref, IrType::R64),
    ];
    for (wasm_ty, _) in tys {
        env.declare_global(Global { wasm_ty, mutable: true }, GlobalInit::I32Const(0));
    }
    for (i, (_, ir)) in tys.iter().enumerate() {
        let g = make_global(&env.info, i);
        assert_eq!(g.ty, *ir);
        assert_eq!(g.offset, i as i32);
        assert_eq!(g.base_offset, 1);
        assert_eq!(g.base, UserName { namespace: 0, index: 100 });
    }
}

#[test]
fn heap_and_table_layout() {
    let h = heap_layout();
    assert_eq!(h.base_offset, 0);
    assert_eq!(h.bound, 0x1_0000_0000);
    assert_eq!(h.offset_guard_size, 0x8000_0000);
    assert_eq!(h.min_size, 0);
    assert_eq!(h.max_size, None);
    assert_eq!(h.index_type, IrType::I32);
    let t = table_layout(PointerWidth::Bits64);
    assert_eq!(t.base_offset, 2);
    assert_eq!(t.bound_offset, 0);
    assert_eq!(t.bound_type, IrType::I32);
    assert_eq!(t.min_size, 0);
    assert_eq!(t.element_size, 16);
    assert_eq!(t.index_type, IrType::I32);
    assert_eq!(table_layout(PointerWidth::Bits32).element_size, 8);
}

#[test]
fn indirect_callee_is_one_pointer_per_entry() {
    assert_eq!(indirect_callee_address(1000, 5, PointerWidth::Bits64), Some(1040));
    assert_eq!(indirect_callee_address(1000, 5, PointerWidth::Bits32), Some(1020));
    assert_eq!(indirect_callee_address(0, 0, PointerWidth::Bits64), Some(0));
    assert_eq!(indirect_callee_address(u64::MAX - 8, 1, PointerWidth::Bits64), Some(u64::MAX));
    assert_eq!(indirect_callee_address(u64::MAX - 7, 1, PointerWidth::Bits64), None);
}

#[test]
fn unsupported_features_yield_fixed_values() {
    assert_eq!(unsupported_result(), (-1i32) as u32 as i64);
    assert_eq!(atomic_notify_result(), 0);
}
