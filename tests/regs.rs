use zkasm_codegen::regs::{
    a0, a1, a2, b0, crate_reg_eviroment, f_reg, fa0, fa1, fa7, fp_reg, link_reg, pf_reg, px_reg,
    real_reg_to_reg, spilltmp_reg, spilltmp_reg2, stack_reg, v_reg, writable_a0, writable_a1,
    writable_a2, writable_fa0, writable_fa1, writable_fp_reg, writable_link_reg,
    writable_spilltmp_reg, writable_spilltmp_reg2, writable_stack_reg, writable_zero_reg, x_reg,
    x_reg_range, zero_reg, PReg, Reg, RegClass,
};

fn int_reg(vreg: usize) -> Reg {
    Reg { vreg, class: RegClass::Int }
}

#[test]
fn fixed_roles() {
    assert_eq!(zero_reg(), int_reg(0));
    assert_eq!(a0(), int_reg(1));
    assert_eq!(b0(), int_reg(2));
    assert_eq!(a1(), int_reg(11));
    assert_eq!(a2(), int_reg(12));
    assert_eq!(stack_reg(), int_reg(2));
    assert_eq!(link_reg(), int_reg(1));
    assert_eq!(fp_reg(), int_reg(8));
    assert_eq!(spilltmp_reg(), int_reg(31));
    assert_eq!(spilltmp_reg2(), int_reg(30));
}

#[test]
fn writable_roles_wrap_the_same_registers() {
    assert_eq!(writable_zero_reg().to_reg(), zero_reg());
    assert_eq!(writable_a0().to_reg(), a0());
    assert_eq!(writable_a1().to_reg(), a1());
    assert_eq!(writable_a2().to_reg(), a2());
    assert_eq!(writable_stack_reg().to_reg(), stack_reg());
    assert_eq!(writable_link_reg().to_reg(), link_reg());
    assert_eq!(writable_fp_reg().to_reg(), fp_reg());
    assert_eq!(writable_spilltmp_reg().to_reg(), spilltmp_reg());
    assert_eq!(writable_spilltmp_reg2().to_reg(), spilltmp_reg2());
    assert_eq!(writable_fa0().to_reg(), fa0());
    assert_eq!(writable_fa1().to_reg(), fa1());
}

#[test]
fn float_and_vector_registers_are_numbered_by_index() {
    assert_eq!(fa0(), Reg { vreg: 64 + 10, class: RegClass::Float });
    assert_eq!(fa1(), Reg { vreg: 64 + 11, class: RegClass::Float });
    assert_eq!(fa7(), Reg { vreg: 64 + 17, class: RegClass::Float });
    assert_eq!(f_reg(0), Reg { vreg: 64, class: RegClass::Float });
    assert_eq!(v_reg(3), Reg { vreg: 128 + 3, class: RegClass::Vector });
    assert_eq!(x_reg(63), int_reg(63));
}

#[test]
fn physical_registers() {
    assert_eq!(px_reg(5), PReg { hw_enc: 5, class: RegClass::Int });
    assert_eq!(pf_reg(5).index(), 69);
    assert_eq!(px_reg(5).index(), 5);
    assert_eq!(real_reg_to_reg(pf_reg(7)), Reg { vreg: 7, class: RegClass::Float });
}

#[test]
fn register_ranges() {
    let r = x_reg_range(3, 5);
    assert_eq!(r.len(), 3);
    assert_eq!(r[0].to_reg(), int_reg(3));
    assert_eq!(r[2].to_reg(), int_reg(5));
    assert_eq!(x_reg_range(4, 4).len(), 1);
    assert!(x_reg_range(5, 4).is_empty());
}

#[test]
fn allocator_environment() {
    let env = crate_reg_eviroment();
    let ints: Vec<usize> = env.preferred_regs_by_class[0].iter().map(|p| p.hw_enc).collect();
    assert_eq!(ints, vec![3, 4, 5, 6, 7, 9, 10, 11, 12, 13, 14, 15]);
    for reserved in [zero_reg(), link_reg(), stack_reg(), fp_reg(), spilltmp_reg(), spilltmp_reg2()] {
        assert!(!ints.contains(&reserved.vreg));
    }
    assert!(env.preferred_regs_by_class[0].iter().all(|p| p.class == RegClass::Int));
    assert!(env.preferred_regs_by_class[1].is_empty());
    assert!(env.preferred_regs_by_class[2].is_empty());
    assert!(env.non_preferred_regs_by_class.iter().all(|v| v.is_empty()));
    assert!(env.fixed_stack_slots.is_empty());
    assert!(env.scratch_by_class.iter().all(|s| s.is_none()));
}
