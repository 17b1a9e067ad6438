use zkbpf::chips::i64_to_u64_bits;
use zkbpf::{
    Alu64AddImmChip, Alu64AddRegChip, BpfInstructionChip, Cs, ExitChip, LdwChip, Mov64ImmChip,
    StwChip,
};

fn load_regs(cs: &mut Cs, vals: &[u64; 11]) -> Vec<usize> {
    let mut ids = Vec::new();
    for i in 0..11 {
        ids.push(cs.load(vals[i]));
    }
    ids
}

#[test]
fn test_alu64_add_imm_chip() {
    let mut cs = Cs::new();
    let mut before_vals = [0u64; 11];
    for i in 0..11 {
        before_vals[i] = i as u64 * 10;
    }

    // Simulate: r1 = r1 + 42
    let dst_reg = 1;
    let imm = 42i64;
    let mut after_vals = before_vals;
    after_vals[dst_reg] = 10 + 42; // r1 was 10, now 52

    let before = load_regs(&mut cs, &before_vals);
    let after = load_regs(&mut cs, &after_vals);

    let chip = Alu64AddImmChip::new(dst_reg, imm);
    chip.synthesize(&mut cs, &before, &after);
    assert!(cs.satisfied());
}

#[test]
fn test_alu64_add_imm_negative() {
    let mut cs = Cs::new();
    let before_vals = [100u64; 11];
    let before = load_regs(&mut cs, &before_vals);

    // Simulate: r0 = r0 + (-5); the expected value is formed in the
    // field, through the addition gate, as 100 plus the unsigned bit
    // pattern of -5.
    let dst_reg = 0;
    let imm = -5i64;
    let imm_u64 = i64_to_u64_bits(imm);
    let expected_dst = cs.add_const(before[0], imm_u64);

    let mut after = Vec::new();
    for i in 0..11 {
        if i == dst_reg {
            after.push(expected_dst);
        } else {
            after.push(cs.load(100));
        }
    }

    let chip = Alu64AddImmChip::new(dst_reg, imm);
    chip.synthesize(&mut cs, &before, &after);
    assert!(cs.satisfied());
}

#[test]
fn test_alu64_add_reg_chip() {
    let mut cs = Cs::new();
    let mut before_vals = [0u64; 11];
    for i in 0..11 {
        before_vals[i] = i as u64 * 10;
    }

    // Simulate: r1 = r1 + r2 (10 + 20 = 30)
    let dst_reg = 1;
    let src_reg = 2;
    let mut after_vals = before_vals;
    after_vals[dst_reg] = 10 + 20;

    let before = load_regs(&mut cs, &before_vals);
    let after = load_regs(&mut cs, &after_vals);

    let chip = Alu64AddRegChip::new(dst_reg, src_reg);
    chip.synthesize(&mut cs, &before, &after);
    assert!(cs.satisfied());
}

#[test]
fn test_alu64_add_reg_same_register() {
    let mut cs = Cs::new();
    let mut before_vals = [0u64; 11];
    for i in 0..11 {
        before_vals[i] = i as u64 * 10;
    }

    // r3 = r3 + r3 (doubling): r3 = 30, so 30 + 30 = 60
    let dst_reg = 3;
    let src_reg = 3;
    let mut after_vals = before_vals;
    after_vals[dst_reg] = 30 + 30;

    let before = load_regs(&mut cs, &before_vals);
    let after = load_regs(&mut cs, &after_vals);

    let chip = Alu64AddRegChip::new(dst_reg, src_reg);
    chip.synthesize(&mut cs, &before, &after);
    assert!(cs.satisfied());
}

#[test]
fn test_exit_chip() {
    let mut cs = Cs::new();
    let mut vals = [0u64; 11];
    for i in 0..11 {
        vals[i] = i as u64 * 10;
    }
    vals[0] = 42; // r0 = return value

    let before = load_regs(&mut cs, &vals);
    let after = load_regs(&mut cs, &vals);

    let chip = ExitChip::new();
    chip.synthesize(&mut cs, &before, &after);
    assert!(cs.satisfied());
}

#[test]
fn test_exit_chip_rejects_swapped_register() {
    let mut cs = Cs::new();
    let mut before_vals = [0u64; 11];
    for i in 0..11 {
        before_vals[i] = i as u64 * 10;
    }
    let mut after_vals = before_vals;
    after_vals[4] = 999;

    let before = load_regs(&mut cs, &before_vals);
    let after = load_regs(&mut cs, &after_vals);

    let chip = ExitChip::new();
    chip.synthesize(&mut cs, &before, &after);
    assert!(!cs.satisfied());
}

#[test]
fn test_mov64_imm_chip() {
    let mut cs = Cs::new();
    let mut before_vals = [0u64; 11];
    for i in 0..11 {
        before_vals[i] = i as u64 * 10;
    }
    let mut after_vals = before_vals;
    after_vals[0] = 42;

    let before = load_regs(&mut cs, &before_vals);
    let after = load_regs(&mut cs, &after_vals);

    let chip = Mov64ImmChip::new(0, 42);
    chip.synthesize(&mut cs, &before, &after);
    assert!(cs.satisfied());
}

#[test]
fn test_chip_non_interference() {
    // An assignment that changes a register the chip does not write is
    // rejected: the emitted system is unsatisfiable.
    let mut cs = Cs::new();
    let mut before_vals = [0u64; 11];
    for i in 0..11 {
        before_vals[i] = i as u64 * 10;
    }
    let mut after_vals = before_vals;
    after_vals[1] = 52; // honest write to the destination
    after_vals[5] = 1; // tampered unrelated register

    let before = load_regs(&mut cs, &before_vals);
    let after = load_regs(&mut cs, &after_vals);

    let chip = Alu64AddImmChip::new(1, 42);
    chip.synthesize(&mut cs, &before, &after);
    assert!(!cs.satisfied());
}

#[test]
fn test_ldw_chip() {
    let mut cs = Cs::new();
    let mut before_vals = [0u64; 11];
    for i in 0..11 {
        before_vals[i] = i as u64 * 10;
    }
    before_vals[1] = 1000; // r1 = base address

    // LDW: r0 = *(r1 + 8), loading value 42 from address 1008
    let dst_reg = 0;
    let src_reg = 1;
    let offset = 8i16;
    let loaded_value = 42u64;

    let mut after_vals = before_vals;
    after_vals[dst_reg] = loaded_value;

    let before = load_regs(&mut cs, &before_vals);
    let after = load_regs(&mut cs, &after_vals);

    let chip = LdwChip::new(dst_reg, src_reg, offset, loaded_value);
    chip.synthesize(&mut cs, &before, &after);
    assert!(cs.satisfied());
}

#[test]
fn test_stw_chip() {
    let mut cs = Cs::new();
    let mut vals = [0u64; 11];
    for i in 0..11 {
        vals[i] = i as u64 * 10;
    }
    vals[1] = 2000; // r1 = base address
    vals[2] = 99; // r2 = value to store

    // STW: *(r1 + 16) = r2; registers are unchanged
    let dst_reg = 1;
    let src_reg = 2;
    let offset = 16i16;

    let before = load_regs(&mut cs, &vals);
    let after = load_regs(&mut cs, &vals);

    let chip = StwChip::new(dst_reg, src_reg, offset);
    chip.synthesize(&mut cs, &before, &after);
    assert!(cs.satisfied());
}

#[test]
fn test_add_imm_past_u64_has_no_small_witness() {
    // The chips express field addition, not wrapping: when the true sum
    // leaves the 64-bit range, no 64-bit after-value satisfies the
    // constraints, the wrapped value in particular.
    let mut cs = Cs::new();
    let mut before_vals = [0u64; 11];
    before_vals[0] = u64::MAX;
    let mut after_vals = [0u64; 11];
    after_vals[0] = 0; // the mod-2^64 result of u64::MAX + 1

    let before = load_regs(&mut cs, &before_vals);
    let after = load_regs(&mut cs, &after_vals);

    let chip = Alu64AddImmChip::new(0, 1);
    chip.synthesize(&mut cs, &before, &after);
    assert!(!cs.satisfied());
}
