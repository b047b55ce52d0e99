//! The instruction sets that the code generator knows.
use vstd::prelude::*;
use vstd::string::StringSliceAdditionalSpecFns;
use crate::text::str_eq;

verus! {

/// Represents known ISA target.
#[derive(PartialEq, Eq, Copy, Clone, Debug, Structural)]
pub enum Isa {
    X86,
    Arm64,
    S390x,
    Riscv64,
    ZkAsm,
}

/// The name of an instruction set.
pub open spec fn isa_name(isa: Isa) -> Seq<u8> {
    match isa {
        Isa::X86 => "x86".spec_bytes(),
        Isa::Arm64 => "arm64".spec_bytes(),
        Isa::S390x => "s390x".spec_bytes(),
        Isa::Riscv64 => "riscv64".spec_bytes(),
        Isa::ZkAsm => "zkasm".spec_bytes(),
    }
}

/// The instruction set that a target architecture name denotes.
pub open spec fn isa_of_arch(arch: Seq<u8>) -> Option<Isa> {
    if arch == "aarch64".spec_bytes() {
        Some(Isa::Arm64)
    } else if arch == "zkasm".spec_bytes() {
        Some(Isa::ZkAsm)
    } else if arch == "s390x".spec_bytes() {
        Some(Isa::S390x)
    } else if arch == "x86_64".spec_bytes() || arch == "i386".spec_bytes() || arch
        == "i586".spec_bytes() || arch == "i686".spec_bytes() {
        Some(Isa::X86)
    } else if arch == "riscv64".spec_bytes() || arch == "riscv64gc".spec_bytes() || arch
        == "riscv64imac".spec_bytes() {
        Some(Isa::Riscv64)
    } else {
        None
    }
}

/// Every instruction set, in order.
pub open spec fn all_isas() -> Seq<Isa> {
    seq![Isa::X86, Isa::Arm64, Isa::S390x, Isa::Riscv64, Isa::ZkAsm]
}

impl Isa {
    /// The name of the instruction set.
    pub fn name(&self) -> (r: &'static str)
        ensures
            r.spec_bytes() == isa_name(*self),
    {
        match *self {
            Isa::X86 => "x86",
            Isa::Arm64 => "arm64",
            Isa::S390x => "s390x",
            Isa::Riscv64 => "riscv64",
            Isa::ZkAsm => "zkasm",
        }
    }

    /// Creates isa target using name: the first of `all()` with that name.
    pub fn from_name(name: &str) -> (r: Option<Isa>)
        ensures
            r is None ==> forall|k: int| 0 <= k < 5 ==> isa_name(#[trigger] all_isas()[k]) != name.spec_bytes(),
            r is Some ==> exists|k: int|
                0 <= k < 5 && #[trigger] all_isas()[k] == r->Some_0 && isa_name(all_isas()[k])
                    == name.spec_bytes() && forall|j: int|
                    0 <= j < k ==> isa_name(#[trigger] all_isas()[j]) != name.spec_bytes(),
    {
        let all = Isa::all();
        let mut k: usize = 0;
        while k < all.len()
            invariant
                all@ == all_isas(),
                k <= 5,
                forall|j: int| 0 <= j < k ==> isa_name(#[trigger] all_isas()[j]) != name.spec_bytes(),
            decreases 5 - k,
        {
            let isa = all[k];
            if str_eq(isa.name(), name) {
                return Some(isa);
            }
            k += 1;
        }
        None
    }

    /// Creates isa target from arch.
    pub fn from_arch(arch: &str) -> (r: Option<Isa>)
        ensures
            r == isa_of_arch(arch.spec_bytes()),
    {
        if str_eq(arch, "aarch64") {
            Some(Isa::Arm64)
        } else if str_eq(arch, "zkasm") {
            Some(Isa::ZkAsm)
        } else if str_eq(arch, "s390x") {
            Some(Isa::S390x)
        } else if str_eq(arch, "x86_64") || str_eq(arch, "i386") || str_eq(arch, "i586") || str_eq(
            arch,
            "i686",
        ) {
            Some(Isa::X86)
        } else if str_eq(arch, "riscv64") || str_eq(arch, "riscv64gc") || str_eq(
            arch,
            "riscv64imac",
        ) {
            Some(Isa::Riscv64)
        } else {
            None
        }
    }

    /// Returns all supported isa targets.
    pub fn all() -> (r: Vec<Isa>)
        ensures
            r@ == all_isas(),
    {
        let r = vec![Isa::X86, Isa::Arm64, Isa::S390x, Isa::Riscv64, Isa::ZkAsm];
        proof {
            assert(r@ =~= all_isas());
        }
        r
    }
}

} // verus!
