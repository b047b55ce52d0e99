//! Registers: the fixed roles of the target's registers and the register
//! environment handed to the allocator.
//!
//! A physical register is a class and a 6-bit hardware encoding; its index
//! packs the two as `class * 64 + encoding`. A register that stands for a
//! physical register carries that index as its number, with the same class.
use vstd::prelude::*;

verus! {

/// A register class.
#[derive(Clone, Copy, Debug, PartialEq, Eq, Structural)]
pub enum RegClass {
    Int,
    Float,
    Vector,
}

/// The number of a register class in a packed index.
pub open spec fn class_number(class: RegClass) -> nat {
    match class {
        RegClass::Int => 0,
        RegClass::Float => 1,
        RegClass::Vector => 2,
    }
}

/// The largest hardware encoding of a physical register.
pub const PREG_MAX: usize = 63;

/// A physical register.
#[derive(Clone, Copy, Debug, PartialEq, Eq, Structural)]
pub struct PReg {
    pub hw_enc: usize,
    pub class: RegClass,
}

impl PReg {
    /// The physical register of `class` with encoding `hw_enc`.
    pub fn new(hw_enc: usize, class: RegClass) -> (r: PReg)
        requires
            hw_enc <= PREG_MAX,
        ensures
            r.hw_enc == hw_enc,
            r.class == class,
    {
        PReg { hw_enc, class }
    }

    /// The index that packs class and encoding.
    pub open spec fn spec_index(&self) -> nat {
        class_number(self.class) * 64 + self.hw_enc as nat
    }

    /// The index that packs class and encoding.
    pub fn index(&self) -> (r: usize)
        requires
            self.hw_enc <= PREG_MAX,
        ensures
            r == self.spec_index(),
    {
        let c: usize = match self.class {
            RegClass::Int => 0,
            RegClass::Float => 1,
            RegClass::Vector => 2,
        };
        c * 64 + self.hw_enc
    }
}

/// A register as instruction builders see it: a register number and a class.
#[derive(Clone, Copy, Debug, PartialEq, Eq, Structural)]
pub struct Reg {
    pub vreg: usize,
    pub class: RegClass,
}

/// A register that an instruction writes.
#[derive(Clone, Copy, Debug)]
pub struct Writable<T> {
    reg: T,
}

impl<T: Copy> Writable<T> {
    /// The register wrapped.
    pub closed spec fn spec_reg(&self) -> T {
        self.reg
    }

    /// Marks `reg` as written.
    pub fn from_reg(reg: T) -> (r: Writable<T>)
        ensures
            r.spec_reg() == reg,
    {
        Writable { reg }
    }

    /// The register written.
    pub fn to_reg(&self) -> (r: T)
        ensures
            r == self.spec_reg(),
    {
        self.reg
    }
}

/// The register that stands for physical register `enc` of `class`.
pub open spec fn phys_reg(enc: nat, class: RegClass) -> Reg {
    Reg { vreg: (class_number(class) * 64 + enc) as usize, class }
}

/// The integer physical register with encoding `enc`.
pub fn px_reg(enc: usize) -> (r: PReg)
    requires
        enc <= PREG_MAX,
    ensures
        r == (PReg { hw_enc: enc, class: RegClass::Int }),
{
    PReg::new(enc, RegClass::Int)
}

/// The floating-point physical register with encoding `enc`.
pub fn pf_reg(enc: usize) -> (r: PReg)
    requires
        enc <= PREG_MAX,
    ensures
        r == (PReg { hw_enc: enc, class: RegClass::Float }),
{
    PReg::new(enc, RegClass::Float)
}

/// The vector physical register with encoding `enc`.
pub fn pv_reg(enc: usize) -> (r: PReg)
    requires
        enc <= PREG_MAX,
    ensures
        r == (PReg { hw_enc: enc, class: RegClass::Vector }),
{
    PReg::new(enc, RegClass::Vector)
}

/// The register that stands for physical register `p`.
fn reg_of_preg(p: PReg) -> (r: Reg)
    requires
        p.hw_enc <= PREG_MAX,
    ensures
        r == phys_reg(p.hw_enc as nat, p.class),
{
    Reg { vreg: p.index(), class: p.class }
}

/// The register that stands for integer register `enc`.
pub fn x_reg(enc: usize) -> (r: Reg)
    requires
        enc <= PREG_MAX,
    ensures
        r == phys_reg(enc as nat, RegClass::Int),
{
    reg_of_preg(px_reg(enc))
}

/// The register that stands for floating-point register `enc`.
pub fn f_reg(enc: usize) -> (r: Reg)
    requires
        enc <= PREG_MAX,
    ensures
        r == phys_reg(enc as nat, RegClass::Float),
{
    reg_of_preg(pf_reg(enc))
}

/// The register that stands for vector register `enc`.
pub fn v_reg(enc: usize) -> (r: Reg)
    requires
        enc <= PREG_MAX,
    ensures
        r == phys_reg(enc as nat, RegClass::Vector),
{
    reg_of_preg(pv_reg(enc))
}

/// The register numbered by the hardware encoding of `x`, with its class.
pub fn real_reg_to_reg(x: PReg) -> (r: Reg)
    ensures
        r == (Reg { vreg: x.hw_enc, class: x.class }),
{
    Reg { vreg: x.hw_enc, class: x.class }
}

/// The first argument and return register.
pub fn a0() -> (r: Reg)
    ensures
        r == phys_reg(1, RegClass::Int),
{
    x_reg(1)
}

/// The second register of the first argument.
pub fn b0() -> (r: Reg)
    ensures
        r == phys_reg(2, RegClass::Int),
{
    x_reg(2)
}

/// The second argument of a function call.
pub fn a1() -> (r: Reg)
    ensures
        r == phys_reg(11, RegClass::Int),
{
    x_reg(11)
}

/// The third argument of a function call.
pub fn a2() -> (r: Reg)
    ensures
        r == phys_reg(12, RegClass::Int),
{
    x_reg(12)
}

pub fn writable_a0() -> (r: Writable<Reg>)
    ensures
        r.spec_reg() == phys_reg(1, RegClass::Int),
{
    Writable::from_reg(a0())
}

pub fn writable_a1() -> (r: Writable<Reg>)
    ensures
        r.spec_reg() == phys_reg(11, RegClass::Int),
{
    Writable::from_reg(a1())
}

pub fn writable_a2() -> (r: Writable<Reg>)
    ensures
        r.spec_reg() == phys_reg(12, RegClass::Int),
{
    Writable::from_reg(a2())
}

/// The first floating-point argument.
pub fn fa0() -> (r: Reg)
    ensures
        r == phys_reg(10, RegClass::Float),
{
    f_reg(10)
}

pub fn writable_fa0() -> (r: Writable<Reg>)
    ensures
        r.spec_reg() == phys_reg(10, RegClass::Float),
{
    Writable::from_reg(fa0())
}

pub fn writable_fa1() -> (r: Writable<Reg>)
    ensures
        r.spec_reg() == phys_reg(11, RegClass::Float),
{
    Writable::from_reg(fa1())
}

/// The second floating-point argument.
pub fn fa1() -> (r: Reg)
    ensures
        r == phys_reg(11, RegClass::Float),
{
    f_reg(11)
}

/// The eighth floating-point argument.
pub fn fa7() -> (r: Reg)
    ensures
        r == phys_reg(17, RegClass::Float),
{
    f_reg(17)
}

/// The zero register.
pub fn zero_reg() -> (r: Reg)
    ensures
        r == phys_reg(0, RegClass::Int),
{
    x_reg(0)
}

/// The zero register as a destination (this discards a result).
pub fn writable_zero_reg() -> (r: Writable<Reg>)
    ensures
        r.spec_reg() == phys_reg(0, RegClass::Int),
{
    Writable::from_reg(zero_reg())
}

/// The stack pointer.
pub fn stack_reg() -> (r: Reg)
    ensures
        r == phys_reg(2, RegClass::Int),
{
    x_reg(2)
}

/// The stack pointer as a destination.
pub fn writable_stack_reg() -> (r: Writable<Reg>)
    ensures
        r.spec_reg() == phys_reg(2, RegClass::Int),
{
    Writable::from_reg(stack_reg())
}

/// The link register.
pub fn link_reg() -> (r: Reg)
    ensures
        r == phys_reg(1, RegClass::Int),
{
    x_reg(1)
}

/// The link register as a destination.
pub fn writable_link_reg() -> (r: Writable<Reg>)
    ensures
        r.spec_reg() == phys_reg(1, RegClass::Int),
{
    Writable::from_reg(link_reg())
}

/// The frame pointer.
pub fn fp_reg() -> (r: Reg)
    ensures
        r == phys_reg(8, RegClass::Int),
{
    x_reg(8)
}

/// The frame pointer as a destination.
pub fn writable_fp_reg() -> (r: Writable<Reg>)
    ensures
        r.spec_reg() == phys_reg(8, RegClass::Int),
{
    Writable::from_reg(fp_reg())
}

/// The first temporary, sometimes "spill temporary", register.
pub fn spilltmp_reg() -> (r: Reg)
    ensures
        r == phys_reg(31, RegClass::Int),
{
    x_reg(31)
}

/// The first spill temporary as a destination.
pub fn writable_spilltmp_reg() -> (r: Writable<Reg>)
    ensures
        r.spec_reg() == phys_reg(31, RegClass::Int),
{
    Writable::from_reg(spilltmp_reg())
}

/// The second spill temporary.
pub fn spilltmp_reg2() -> (r: Reg)
    ensures
        r == phys_reg(30, RegClass::Int),
{
    x_reg(30)
}

/// The second spill temporary as a destination.
pub fn writable_spilltmp_reg2() -> (r: Writable<Reg>)
    ensures
        r.spec_reg() == phys_reg(30, RegClass::Int),
{
    Writable::from_reg(spilltmp_reg2())
}

/// The integer registers `start..=end`, as destinations.
pub fn x_reg_range(start: usize, end: usize) -> (r: Vec<Writable<Reg>>)
    requires
        end <= PREG_MAX,
    ensures
        start <= end ==> r@.len() == end - start + 1,
        start > end ==> r@.len() == 0,
        forall|i: int|
            0 <= i < r@.len() ==> (#[trigger] r@[i]).spec_reg() == phys_reg(
                (start + i) as nat,
                RegClass::Int,
            ),
{
    let mut regs: Vec<Writable<Reg>> = Vec::new();
    if start > end {
        return regs;
    }
    let mut i = start;
    while i <= end
        invariant
            start <= i <= end + 1,
            end <= PREG_MAX,
            regs@.len() == i - start,
            forall|j: int|
                0 <= j < regs@.len() ==> (#[trigger] regs@[j]).spec_reg() == phys_reg(
                    (start + j) as nat,
                    RegClass::Int,
                ),
        decreases end + 1 - i,
    {
        regs.push(Writable::from_reg(x_reg(i)));
        i += 1;
    }
    regs
}

/// What the register allocator is told of the machine's registers, by class
/// (integer, float, vector).
pub struct RegEnv {
    pub preferred_regs_by_class: [Vec<PReg>; 3],
    pub non_preferred_regs_by_class: [Vec<PReg>; 3],
    pub fixed_stack_slots: Vec<PReg>,
    pub scratch_by_class: [Option<PReg>; 3],
}

/// The integer encodings with a reserved role: the zero register (0), the
/// link register (1), the stack pointer (2), the frame pointer (8) and the two
/// spill temporaries (30, 31).
pub open spec fn reserved_int_encoding(enc: usize) -> bool {
    enc == 0 || enc == 1 || enc == 2 || enc == 8 || enc == 30 || enc == 31
}

/// The encodings of the integer registers that the allocator prefers: those of
/// `1..=15` without a reserved role.
pub open spec fn preferred_int_encodings() -> Seq<usize> {
    seq![3usize, 4, 5, 6, 7, 9, 10, 11, 12, 13, 14, 15]
}

/// The integer registers that the allocator prefers.
pub open spec fn preferred_int_regs() -> Seq<PReg> {
    preferred_int_encodings().map_values(|e: usize| PReg { hw_enc: e, class: RegClass::Int })
}

/// The register environment: the integer registers of `1..=15` that have no
/// reserved role are preferred, and no other register, stack slot or scratch
/// register is offered.
pub fn crate_reg_eviroment() -> (r: RegEnv)
    ensures
        r.preferred_regs_by_class@[0]@ == preferred_int_regs(),
        forall|i: int|
            0 <= i < r.preferred_regs_by_class@[0]@.len() ==> {
                let p = #[trigger] r.preferred_regs_by_class@[0]@[i];
                &&& p.class == RegClass::Int
                &&& 1 <= p.hw_enc <= 15
                &&& !reserved_int_encoding(p.hw_enc)
            },
        r.preferred_regs_by_class@[1]@.len() == 0,
        r.preferred_regs_by_class@[2]@.len() == 0,
        r.non_preferred_regs_by_class@[0]@.len() == 0,
        r.non_preferred_regs_by_class@[1]@.len() == 0,
        r.non_preferred_regs_by_class@[2]@.len() == 0,
        r.fixed_stack_slots@.len() == 0,
        r.scratch_by_class@ == seq![None::<PReg>, None, None],
{
    let encs: Vec<usize> = vec![3usize, 4, 5, 6, 7, 9, 10, 11, 12, 13, 14, 15];
    proof {
        assert(encs@ =~= preferred_int_encodings());
    }
    let mut x_registers: Vec<PReg> = Vec::new();
    let mut i: usize = 0;
    while i < encs.len()
        invariant
            i <= encs@.len(),
            encs@ == preferred_int_encodings(),
            x_registers@ == preferred_int_regs().subrange(0, i as int),
        decreases encs@.len() - i,
    {
        x_registers.push(px_reg(encs[i]));
        i += 1;
        proof {
            assert(x_registers@ =~= preferred_int_regs().subrange(0, i as int));
        }
    }
    proof {
        assert(preferred_int_regs().subrange(0, i as int) =~= preferred_int_regs());
    }
    let r = RegEnv {
        preferred_regs_by_class: [x_registers, Vec::new(), Vec::new()],
        non_preferred_regs_by_class: [Vec::new(), Vec::new(), Vec::new()],
        fixed_stack_slots: Vec::new(),
        scratch_by_class: [None, None, None],
    };
    proof {
        assert(r.scratch_by_class@ =~= seq![None::<PReg>, None, None]);
    }
    r
}

} // verus!
