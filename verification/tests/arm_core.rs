use mgba::arm_core::{read_halfword, thumb_fetch_address, ArmCore, ExecutionMode, MODE_ARM, MODE_THUMB};

fn core_with_pc(pc: u32) -> ArmCore {
    let mut gprs = [0i32; 16];
    for (i, r) in gprs.iter_mut().enumerate() {
        *r = i as i32 * 0x11;
    }
    gprs[15] = pc as i32;
    ArmCore { gprs, cpsr: 0x6000_003f, execution_mode: MODE_THUMB, prefetch: [0xaaaa, 0xbbbb] }
}

#[test]
fn gpr_reads_each_register() {
    let core = core_with_pc(0x0800_0104);
    assert_eq!(core.gpr(0), 0);
    assert_eq!(core.gpr(3), 0x33);
    assert_eq!(core.gpr(15), 0x0800_0104);
}

#[test]
fn cpsr_reads_packed_value() {
    let core = core_with_pc(0x0800_0104);
    assert_eq!(core.cpsr(), 0x6000_003f);
}

#[test]
fn set_gpr_is_read_back_and_touches_nothing_else() {
    let mut core = core_with_pc(0x0800_0104);
    core.set_gpr(4, -7);
    assert_eq!(core.gpr(4), -7);
    assert_eq!(core.gpr(5), 0x55);
    assert_eq!(core.gpr(15), 0x0800_0104);
    assert_eq!(core.cpsr(), 0x6000_003f);
    assert_eq!(core.prefetch, [0xaaaa, 0xbbbb]);
}

#[test]
fn thumb_pc_is_one_halfword_behind_pc() {
    let core = core_with_pc(0x0800_0104);
    assert_eq!(core.thumb_pc(), 0x0800_0102);
}

#[test]
fn arm_pc_is_one_word_behind_pc() {
    let core = core_with_pc(0x0800_0104);
    assert_eq!(core.arm_pc(), 0x0800_0100);
    assert_eq!(core.thumb_pc(), core.arm_pc() + 2);
}

#[test]
fn pc_with_top_bit_set_reads_as_unsigned() {
    let core = core_with_pc(0x8000_0010);
    assert_eq!(core.thumb_pc(), 0x8000_000e);
    assert_eq!(core.arm_pc(), 0x8000_000c);
}

#[test]
fn execution_mode_decodes_raw_field() {
    let mut core = core_with_pc(0x0800_0104);
    assert_eq!(core.execution_mode(), ExecutionMode::Thumb);
    core.execution_mode = MODE_ARM;
    assert_eq!(core.execution_mode(), ExecutionMode::ARM);
}

const MASK: u32 = 0x3ff;

fn region() -> Vec<u8> {
    let mut bytes = vec![0u8; 0x400];
    bytes[0x200] = 0x34;
    bytes[0x201] = 0x12;
    bytes[0x202] = 0x78;
    bytes[0x203] = 0x56;
    bytes
}

#[test]
fn read_halfword_is_little_endian_and_masked() {
    let r = region();
    assert_eq!(read_halfword(&r, MASK, 0x0800_0200), 0x1234);
    assert_eq!(read_halfword(&r, MASK, 0x0800_0602), 0x5678);
}

#[test]
fn thumb_fetch_address_clears_bit_zero() {
    assert_eq!(thumb_fetch_address(0x0800_0201), 0x0800_0200);
    assert_eq!(thumb_fetch_address(0x0800_0200), 0x0800_0200);
    assert_eq!(thumb_fetch_address(0xffff_ffff), 0xffff_fffe);
}

#[test]
fn thumb_branch_refills_pipeline() {
    let mut core = core_with_pc(0x0800_0104);
    core.set_thumb_pc(0x0800_0201, &region(), MASK);
    assert_eq!(core.prefetch, [0x1234, 0x5678]);
    assert_eq!(core.gpr(15), 0x0800_0202);
    assert_eq!(core.thumb_pc(), 0x0800_0200);
    assert_eq!(core.gpr(1), 0x11);
    assert_eq!(core.cpsr(), 0x6000_003f);
}

#[test]
fn thumb_branch_to_even_address() {
    let mut core = core_with_pc(0x0800_0104);
    core.set_thumb_pc(0x0800_0202, &region(), MASK);
    assert_eq!(core.prefetch, [0x5678, 0x0000]);
    assert_eq!(core.gpr(15), 0x0800_0204);
    assert_eq!(core.thumb_pc(), 0x0800_0202);
    assert_eq!(core.gpr(14), 0xee);
}

#[test]
fn thumb_write_pc_aligns_odd_pc_down() {
    let mut core = core_with_pc(0x0800_0201);
    core.thumb_write_pc(&region(), MASK);
    assert_eq!(core.prefetch, [0x1234, 0x5678]);
    assert_eq!(core.gpr(15), 0x0800_0202);
    let mut core = core_with_pc(0x0800_0203);
    core.thumb_write_pc(&region(), MASK);
    assert_eq!(core.prefetch, [0x5678, 0x0000]);
    assert_eq!(core.gpr(15), 0x0800_0204);
}
