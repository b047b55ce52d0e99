use zkasm_codegen::isa::Isa;

#[test]
fn isa_names_round_trip() {
    for isa in Isa::all() {
        assert_eq!(Isa::from_name(isa.name()), Some(isa));
    }
    assert_eq!(Isa::from_name("zkasm"), Some(Isa::ZkAsm));
    assert_eq!(Isa::from_name("x86_64"), None);
    assert_eq!(Isa::from_name(""), None);
}

#[test]
fn isa_from_arch() {
    assert_eq!(Isa::from_arch("aarch64"), Some(Isa::Arm64));
    assert_eq!(Isa::from_arch("zkasm"), Some(Isa::ZkAsm));
    assert_eq!(Isa::from_arch("s390x"), Some(Isa::S390x));
    assert_eq!(Isa::from_arch("i686"), Some(Isa::X86));
    assert_eq!(Isa::from_arch("x86_64"), Some(Isa::X86));
    assert_eq!(Isa::from_arch("riscv64imac"), Some(Isa::Riscv64));
    assert_eq!(Isa::from_arch("x86"), None);
    assert_eq!(Isa::from_arch("arm64"), None);
}

#[test]
fn all_isas_in_order() {
    assert_eq!(
        Isa::all(),
        vec![Isa::X86, Isa::Arm64, Isa::S390x, Isa::Riscv64, Isa::ZkAsm]
    );
}
