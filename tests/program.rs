use zkasm_codegen::labels::LabelError;
use zkasm_codegen::module::{
    Global, GlobalInit, PointerWidth, WasmType, ZkasmEnvironment, ZkasmModuleInfo,
};
use zkasm_codegen::program::{
    function_text, generate_postamble, generate_preamble, generate_zkasm, CodegenError,
    CompiledFunction,
};
use zkasm_codegen::reloc::{PatchError, RelocTarget, Relocation};

fn text(lines: Vec<Vec<u8>>) -> Vec<String> {
    lines.into_iter().map(|l| String::from_utf8(l).unwrap()).collect()
}

fn body(code: &str, relocs: Vec<Relocation>) -> CompiledFunction {
    CompiledFunction { code: code.as_bytes().to_vec(), relocs }
}

fn global_i32() -> Global {
    Global { wasm_ty: WasmType::I32, mutable: true }
}

fn one_global_one_segment() -> ZkasmEnvironment {
    let mut env = ZkasmEnvironment::new(PointerWidth::Bits64);
    env.declare_func_import(0, "env".to_string(), "assert_eq".to_string());
    env.declare_func_type(0);
    env.declare_global(global_i32(), GlobalInit::I32Const(42));
    env.declare_data_initialization(0, None, 0, vec![0u8; 8]);
    env.declare_start_func(1);
    env
}

#[test]
fn global_and_data_segment_program() {
    let env = one_global_one_segment();
    let bodies = vec![body("  :JMP(RR)", vec![])];
    let program = text(generate_zkasm(&env.info, &bodies).unwrap());
    let expected = vec![
        "VAR GLOBAL global_0",
        "start:",
        "  42 :MSTORE(global_0)",
        "  0 :MSTORE(MEM:0)",
        "  0xffff => SP",
        "  zkPC + 2 => RR",
        "  :JMP(function_1)",
        "  :JMP(finalizeExecution)",
        "function_1:",
        "  :JMP(RR)",
        "finalizeExecution:",
        "  ${beforeLast()}  :JMPN(finalizeExecution)",
        "                   :JMP(start)",
    ];
    assert_eq!(program, expected);
    assert_eq!(program.iter().filter(|l| l.starts_with("VAR GLOBAL")).count(), 1);
    assert_eq!(program.iter().filter(|l| l.contains(":MSTORE(global_")).count(), 1);
    assert_eq!(program.iter().filter(|l| l.contains(":MSTORE(MEM:")).count(), 1);
    // After the start function returns, control reaches the padding loop.
    let jump = program.iter().position(|l| l == "  :JMP(finalizeExecution)").unwrap();
    let loop_at = program.iter().position(|l| l == "finalizeExecution:").unwrap();
    assert!(jump < loop_at);
}

#[test]
fn negative_globals_store_their_bit_pattern() {
    let mut info = ZkasmModuleInfo::new(PointerWidth::Bits64);
    info.globals.push(zkasm_codegen::module::Exportable::new(global_i32()));
    info.globals.push(zkasm_codegen::module::Exportable::new(global_i32()));
    info.global_inits.push((0, GlobalInit::I32Const(-1)));
    info.global_inits.push((1, GlobalInit::I64Const(-2)));
    info.start_func = Some(0);
    let pre = text(generate_preamble(&info).unwrap());
    assert_eq!(pre[3], "  4294967295 :MSTORE(global_0)");
    assert_eq!(pre[4], "  18446744073709551614 :MSTORE(global_1)");
}

#[test]
fn data_segments_are_packed_little_endian() {
    let mut info = ZkasmModuleInfo::new(PointerWidth::Bits64);
    info.data_inits.push((16, vec![1, 2, 3, 4, 5, 6, 7, 8, 9, 1]));
    info.start_func = Some(2);
    let pre = text(generate_preamble(&info).unwrap());
    assert_eq!(
        pre,
        vec![
            "start:",
            "  578437695752307201 :MSTORE(MEM:16)",
            "  265 :MSTORE(MEM:24)",
            "  0xffff => SP",
            "  zkPC + 2 => RR",
            "  :JMP(function_2)",
            "  :JMP(finalizeExecution)",
        ]
    );
}

#[test]
fn postamble_is_the_padding_loop() {
    assert_eq!(
        text(generate_postamble()),
        vec![
            "finalizeExecution:",
            "  ${beforeLast()}  :JMPN(finalizeExecution)",
            "                   :JMP(start)",
        ]
    );
}

#[test]
fn function_text_patches_and_renames() {
    let b = body(
        "  A :JMPZ(label_0)\n  CALL\n  :JMP(label_1)\nlabel_1:\nlabel_0:\n  :JMP(RR)",
        vec![Relocation { offset: 19, target: RelocTarget::Call(4) }],
    );
    let out = text(function_text(0, 2, &b).unwrap());
    assert_eq!(
        out,
        vec![
            "function_2:",
            "  A :JMPZ(label_2_0)",
            "  zkPC + 2 => RR",
            "  :JMP(function_4)",
            "label_2_0:",
            "  :JMP(RR)",
        ]
    );
}

#[test]
fn missing_start_function_is_an_error() {
    let info = ZkasmModuleInfo::new(PointerWidth::Bits64);
    assert_eq!(generate_zkasm(&info, &vec![]), Err(CodegenError::NoStartFunction));
}

#[test]
fn non_constant_global_is_an_error() {
    let mut env = one_global_one_segment();
    env.declare_global(global_i32(), GlobalInit::GetGlobal(0));
    assert_eq!(
        generate_zkasm(&env.info, &vec![]),
        Err(CodegenError::UnsupportedGlobalInit(1))
    );
}

#[test]
fn data_past_the_address_space_is_an_error() {
    let mut env = one_global_one_segment();
    env.declare_data_initialization(0, None, u64::MAX - 3, vec![1u8; 9]);
    assert_eq!(generate_zkasm(&env.info, &vec![]), Err(CodegenError::DataOutOfRange(1)));
}

#[test]
fn unresolved_relocation_is_an_error() {
    let env = one_global_one_segment();
    let bodies = vec![
        body("  :JMP(RR)", vec![]),
        body("  CALL\n", vec![Relocation { offset: 0, target: RelocTarget::Unresolved }]),
    ];
    assert_eq!(
        generate_zkasm(&env.info, &bodies),
        Err(CodegenError::UnresolvedRelocation { func: 1, reloc: 0 })
    );
}

#[test]
fn misplaced_relocation_is_an_error() {
    let env = one_global_one_segment();
    let bodies = vec![body("  CALL", vec![Relocation { offset: 0, target: RelocTarget::Trap }])];
    assert_eq!(
        generate_zkasm(&env.info, &bodies),
        Err(CodegenError::Patch { func: 0, patch: PatchError::MisplacedSite(0) })
    );
}

#[test]
fn malformed_label_is_an_error() {
    let env = one_global_one_segment();
    let bodies = vec![body("label_a:", vec![])];
    assert_eq!(
        generate_zkasm(&env.info, &bodies),
        Err(CodegenError::Label { func: 0, label: LabelError::Malformed(0) })
    );
}

#[test]
fn start_function_without_body_is_an_error() {
    let env = one_global_one_segment();
    assert_eq!(generate_zkasm(&env.info, &vec![]), Err(CodegenError::StartWithoutBody(1)));
    let mut env = one_global_one_segment();
    env.declare_start_func(0);
    let bodies = vec![body("  :JMP(RR)", vec![])];
    assert_eq!(generate_zkasm(&env.info, &bodies), Err(CodegenError::StartWithoutBody(0)));
}

#[test]
fn undefined_label_is_an_error() {
    let env = one_global_one_segment();
    let bodies = vec![body("  :JMP(label_9)", vec![])];
    assert_eq!(
        generate_zkasm(&env.info, &bodies),
        Err(CodegenError::Label { func: 0, label: LabelError::Undefined(0) })
    );
}

#[test]
fn misplaced_relocation_names_the_first() {
    let env = one_global_one_segment();
    let bodies = vec![body(
        "  CALL\n  CALL\n  CALL",
        vec![
            Relocation { offset: 0, target: RelocTarget::Trap },
            Relocation { offset: 7, target: RelocTarget::Trap },
            Relocation { offset: 14, target: RelocTarget::Trap },
        ],
    )];
    assert_eq!(
        generate_zkasm(&env.info, &bodies),
        Err(CodegenError::Patch { func: 0, patch: PatchError::MisplacedSite(2) })
    );
}
