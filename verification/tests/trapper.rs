use mgba::trapper::{BkptAction, Trap, TrapTable, TRAPPER_IMM, TRAP_OPCODE};

#[test]
fn trap_opcode_is_bkpt_with_trap_immediate() {
    assert_eq!(TRAP_OPCODE, 0xbeef);
    assert_eq!(TRAP_OPCODE & 0xff, TRAPPER_IMM as u16);
    assert_eq!(TRAP_OPCODE as i16, (0xbe00 | TRAPPER_IMM) as i16);
}

#[test]
fn new_table_is_empty() {
    let t = TrapTable::new();
    assert!(!t.contains(0x0800_1000));
    assert_eq!(t.get(0x0800_1000), None);
}

#[test]
fn installed_trap_is_found() {
    let mut t = TrapTable::new();
    t.install(0x0800_1000, 0x4770, 3);
    assert!(t.contains(0x0800_1000));
    assert_eq!(t.get(0x0800_1000), Some(Trap { original: 0x4770, handler: 3 }));
    assert!(!t.contains(0x0800_1002));
}

#[test]
fn trap_breakpoint_runs_displaced_instruction_and_handler() {
    let mut t = TrapTable::new();
    t.install(0x0800_1000, 0x4770, 3);
    t.install(0x0800_2000, 0xb500, 7);
    // The breakpoint executes with the PC two Thumb instructions ahead.
    assert_eq!(t.dispatch(TRAPPER_IMM, 0x0800_1004), BkptAction::RunTrap { original: 0x4770, handler: 3 });
    assert_eq!(t.dispatch(TRAPPER_IMM, 0x0800_2004), BkptAction::RunTrap { original: 0xb500, handler: 7 });
}

#[test]
fn other_breakpoints_are_forwarded() {
    let mut t = TrapTable::new();
    t.install(0x0800_1000, 0x4770, 0);
    assert_eq!(t.dispatch(0x10, 0x0800_1004), BkptAction::Forward(0x10));
    assert_eq!(t.dispatch(0, 0), BkptAction::Forward(0));
}
