use zkasm_codegen::reloc::{patch_relocations, PatchError, RelocTarget, Relocation};

fn reloc(offset: usize, index: u32) -> Relocation {
    Relocation { offset, target: RelocTarget::from_user_index(index) }
}

#[test]
fn trap_and_call_are_patched() {
    let code = b"  A => B\n  CALL 0\n  CALL 3\n  B => C\n".to_vec();
    let relocs = vec![reloc(9, 0), reloc(18, 3)];
    let out = patch_relocations(&code, &relocs).unwrap();
    assert_eq!(
        String::from_utf8(out).unwrap(),
        "  A => B\n  B :ASSERT\n  zkPC + 2 => RR\n  :JMP(function_3)\n  B => C\n"
    );
}

#[test]
fn later_sites_shift_by_the_length_change() {
    let code = b"x\n  CALL 0\ny\n  CALL 3\nz\n  CALL 12\n".to_vec();
    let relocs = vec![reloc(2, 0), reloc(13, 3), reloc(24, 12)];
    let out = patch_relocations(&code, &relocs).unwrap();
    let trap = "  B :ASSERT";
    let call3 = "  zkPC + 2 => RR\n  :JMP(function_3)";
    let call12 = "  zkPC + 2 => RR\n  :JMP(function_12)";
    let d0 = trap.len() as i64 - 8;
    let d1 = call3.len() as i64 - 8;
    let d2 = call12.len() as i64 - 9;
    let at1 = (13 + d0) as usize;
    let at2 = (24 + d0 + d1) as usize;
    assert_eq!(&out[2..2 + trap.len()], trap.as_bytes());
    assert_eq!(&out[at1..at1 + call3.len()], call3.as_bytes());
    assert_eq!(&out[at2..at2 + call12.len()], call12.as_bytes());
    assert_eq!(out.len() as i64, code.len() as i64 + d0 + d1 + d2);
}

#[test]
fn patching_is_deterministic() {
    let code = b"  CALL 7\n  CALL 0\n".to_vec();
    let relocs = vec![reloc(2, 7), reloc(11, 0)];
    let a = patch_relocations(&code, &relocs).unwrap();
    let b = patch_relocations(&code, &relocs).unwrap();
    assert_eq!(a, b);
    assert_ne!(a, code);
}

#[test]
fn unresolved_gets_a_marker() {
    let code = b"  CALL ?\n".to_vec();
    let relocs = vec![Relocation { offset: 0, target: RelocTarget::Unresolved }];
    let out = patch_relocations(&code, &relocs).unwrap();
    assert_eq!(out, b"  UNKNOWN\n".to_vec());
}

#[test]
fn no_relocations_leaves_the_buffer() {
    let code = b"  A => B\n".to_vec();
    assert_eq!(patch_relocations(&code, &vec![]).unwrap(), code);
    assert_eq!(patch_relocations(&vec![], &vec![]).unwrap(), Vec::<u8>::new());
}

#[test]
fn misplaced_sites_are_refused() {
    let code = b"  CALL 1\n  CALL 2".to_vec();
    // The second site's line has no line feed.
    assert_eq!(
        patch_relocations(&code, &vec![reloc(2, 1), reloc(11, 2)]),
        Err(PatchError::MisplacedSite(1))
    );
    // Two sites on one line.
    assert_eq!(
        patch_relocations(&code, &vec![reloc(2, 1), reloc(4, 2)]),
        Err(PatchError::MisplacedSite(1))
    );
    // Past the end.
    assert_eq!(patch_relocations(&code, &vec![reloc(40, 1)]), Err(PatchError::MisplacedSite(0)));
}

#[test]
fn user_index_zero_is_the_trap() {
    assert_eq!(RelocTarget::from_user_index(0), RelocTarget::Trap);
    assert_eq!(RelocTarget::from_user_index(5), RelocTarget::Call(5));
}

#[test]
fn call_of_index_zero_is_the_trap() {
    let code = b"  CALL\n".to_vec();
    let relocs = vec![Relocation { offset: 0, target: RelocTarget::Call(0) }];
    assert_eq!(patch_relocations(&code, &relocs).unwrap(), b"  B :ASSERT\n".to_vec());
}
