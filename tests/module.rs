use zkasm_codegen::module::{
    CallConv, FuncType, Global, GlobalInit, IrType, Memory, PointerWidth, Table, WasmFeatures,
    WasmType, ZkasmEnvironment,
};

#[test]
fn declarations_are_recorded_in_order() {
    let mut env = ZkasmEnvironment::new(PointerWidth::Bits64);
    env.declare_type_func(FuncType { params: vec![WasmType::I32, WasmType::I32], returns: vec![] });
    env.declare_type_func(FuncType { params: vec![], returns: vec![WasmType::I64] });
    env.declare_func_import(0, "env".to_string(), "assert_eq_i32".to_string());
    env.declare_func_type(1);
    env.declare_func_type(1);
    assert_eq!(env.get_num_func_imports(), 1);
    assert_eq!(env.info.functions.len(), 3);
    assert_eq!(env.get_func_type(0), 0);
    assert_eq!(env.get_func_type(2), 1);
    assert_eq!(env.info.signatures[1].returns, vec![IrType::I64]);
    assert_eq!(env.info.signatures[0].params, vec![IrType::I32, IrType::I32]);
    assert_eq!(env.info.signatures[0].call_conv, CallConv::Fast);

    env.declare_func_export(2, "main".to_string());
    env.declare_func_export(2, "entry".to_string());
    assert_eq!(env.info.functions[2].export_names, vec!["main".to_string(), "entry".to_string()]);
    assert!(env.info.functions[1].export_names.is_empty());

    let g = Global { wasm_ty: WasmType::I64, mutable: false };
    env.declare_global_import(g, "env".to_string(), "g".to_string());
    env.declare_global(g, GlobalInit::I64Const(7));
    assert_eq!(env.info.globals.len(), 2);
    assert_eq!(env.info.global_inits, vec![(1, GlobalInit::I64Const(7))]);
    env.declare_global_export(1, "seven".to_string());
    assert_eq!(env.info.globals[1].export_names, vec!["seven".to_string()]);

    env.declare_table(Table { minimum: 1, maximum: None });
    env.declare_table_export(0, "t".to_string());
    env.declare_memory(Memory { minimum: 1, maximum: Some(2) });
    env.declare_memory_export(0, "memory".to_string());
    assert_eq!(env.info.tables[0].export_names, vec!["t".to_string()]);
    assert_eq!(env.info.memories[0].entity, Memory { minimum: 1, maximum: Some(2) });

    env.declare_data_initialization(0, None, 64, vec![1, 2, 3]);
    assert_eq!(env.info.data_inits, vec![(64, vec![1, 2, 3])]);
    env.declare_start_func(2);
    assert_eq!(env.info.start_func, Some(2));
    assert_eq!(env.define_function_body(12), 1);
    assert_eq!(env.define_function_body(30), 2);
    assert_eq!(env.func_bytecode_sizes, vec![12, 30]);
    env.declare_module_name("m".to_string());
    assert_eq!(env.module_name, Some("m".to_string()));
}

#[test]
fn imports_of_each_kind() {
    let mut env = ZkasmEnvironment::new(PointerWidth::Bits64);
    env.declare_table_import(Table { minimum: 0, maximum: Some(4) }, "a".to_string(), "b".to_string());
    env.declare_memory_import(Memory { minimum: 2, maximum: None }, "c".to_string(), "d".to_string());
    assert_eq!(env.info.imported_tables, vec![("a".to_string(), "b".to_string())]);
    assert_eq!(env.info.imported_memories, vec![("c".to_string(), "d".to_string())]);
    assert_eq!(env.info.tables.len(), 1);
    assert_eq!(env.info.memories.len(), 1);
}

#[test]
fn references_in_signatures_follow_pointer_width() {
    let sig = || FuncType { params: vec![WasmType::Ref, WasmType::V128], returns: vec![WasmType::Ref] };
    let mut narrow = ZkasmEnvironment::new(PointerWidth::Bits32);
    narrow.declare_type_func(sig());
    assert_eq!(narrow.info.signatures[0].params, vec![IrType::R32, IrType::I8X16]);
    assert_eq!(narrow.info.signatures[0].returns, vec![IrType::R32]);
    let mut wide = ZkasmEnvironment::new(PointerWidth::Bits64);
    wide.declare_type_func(sig());
    assert_eq!(wide.info.signatures[0].params, vec![IrType::R64, IrType::I8X16]);
}

#[test]
fn function_names() {
    let mut env = ZkasmEnvironment::new(PointerWidth::Bits64);
    assert_eq!(env.get_func_name(0), None);
    env.declare_func_name(2, "main".to_string());
    assert_eq!(env.get_func_name(2), Some(&"main".to_string()));
    assert_eq!(env.get_func_name(1), None);
    assert_eq!(env.get_func_name(3), None);
    env.declare_func_name(0, "first".to_string());
    env.declare_func_name(2, "renamed".to_string());
    assert_eq!(env.get_func_name(0), Some(&"first".to_string()));
    assert_eq!(env.get_func_name(2), Some(&"renamed".to_string()));
}

#[test]
fn enabled_features() {
    let env = ZkasmEnvironment::new(PointerWidth::Bits64);
    assert_eq!(
        env.wasm_features(),
        WasmFeatures { multi_value: true, simd: true, reference_types: true, bulk_memory: true }
    );
}
