//! Instruction traps: the table of patched addresses and the decision the
//! Thumb breakpoint hook takes when the CPU hits one.
//!
//! A trap replaces the Thumb instruction at its address with
//! `BKPT #TRAPPER_IMM`. When the CPU executes it, the breakpoint hook runs
//! the displaced instruction and then the trap's handler; a breakpoint with
//! any other immediate belongs to the game and goes to the core's own hook.
use crate::arm_core::WORD_SIZE_THUMB;
use std::collections::HashMap;
use vstd::prelude::*;

verus! {

broadcast use vstd::std_specs::hash::group_hash_axioms;

/// The breakpoint immediate that marks a trap.
pub const TRAPPER_IMM: i32 = 0xef;

/// The Thumb instruction written over a trapped address: `BKPT #TRAPPER_IMM`.
pub const TRAP_OPCODE: u16 = 0xbe00u16 | 0xefu16;

/// An installed trap: the instruction it displaced and the index of its
/// handler.
#[derive(Debug, Clone, Copy, PartialEq, Eq, Structural)]
pub struct Trap {
    pub original: u16,
    pub handler: usize,
}

/// What the breakpoint hook does for one breakpoint.
#[derive(Debug, Clone, Copy, PartialEq, Eq, Structural)]
pub enum BkptAction {
    /// The breakpoint is not a trap: pass its immediate to the core's hook.
    Forward(i32),
    /// Run the displaced instruction `original`, then handler `handler`.
    RunTrap { original: u16, handler: usize },
}

/// The address of the trap whose breakpoint is executing when the program
/// counter register holds `pc_reg`: two Thumb instructions back.
pub open spec fn spec_trap_address(pc_reg: i32) -> int {
    (pc_reg as u32) - 2 * WORD_SIZE_THUMB
}

/// The action for a breakpoint with immediate `imm` taken with program
/// counter register `pc_reg`, against the installed `traps`.
pub open spec fn spec_dispatch(traps: Map<u32, Trap>, imm: i32, pc_reg: i32) -> BkptAction {
    if imm != TRAPPER_IMM {
        BkptAction::Forward(imm)
    } else {
        let trap = traps[spec_trap_address(pc_reg) as u32];
        BkptAction::RunTrap { original: trap.original, handler: trap.handler }
    }
}

/// The traps installed on one core, by address.
pub struct TrapTable {
    traps: HashMap<u32, Trap>,
}

impl View for TrapTable {
    type V = Map<u32, Trap>;

    closed spec fn view(&self) -> Map<u32, Trap> {
        self.traps@
    }
}

impl TrapTable {
    /// A table with no traps.
    pub fn new() -> (t: TrapTable)
        ensures
            t@ == Map::<u32, Trap>::empty(),
    {
        TrapTable { traps: HashMap::new() }
    }

    /// Whether a trap is installed at `address`.
    pub fn contains(&self, address: u32) -> (b: bool)
        ensures
            b == self@.contains_key(address),
    {
        self.traps.contains_key(&address)
    }

    /// The trap installed at `address`, if any.
    pub fn get(&self, address: u32) -> (r: Option<Trap>)
        ensures
            r == (if self@.contains_key(address) {
                Some(self@[address])
            } else {
                None::<Trap>
            }),
    {
        match self.traps.get(&address) {
            Some(t) => Some(*t),
            None => None,
        }
    }

    /// Records a trap at `address` that displaced `original` and runs
    /// handler `handler`. An address takes at most one trap.
    pub fn install(&mut self, address: u32, original: u16, handler: usize)
        requires
            !old(self)@.contains_key(address),
        ensures
            final(self)@ == old(self)@.insert(address, Trap { original, handler }),
    {
        self.traps.insert(address, Trap { original, handler });
    }

    /// Decides what the breakpoint hook does for a breakpoint with
    /// immediate `imm` taken with program counter register `pc_reg`. A
    /// trap breakpoint is only ever executed at an address where a trap
    /// was installed.
    pub fn dispatch(&self, imm: i32, pc_reg: i32) -> (a: BkptAction)
        requires
            imm == TRAPPER_IMM ==> {
                &&& spec_trap_address(pc_reg) >= 0
                &&& self@.contains_key(spec_trap_address(pc_reg) as u32)
            },
        ensures
            a == spec_dispatch(self@, imm, pc_reg),
            imm != TRAPPER_IMM ==> a == BkptAction::Forward(imm),
            imm == TRAPPER_IMM ==> a == (BkptAction::RunTrap {
                original: self@[((pc_reg as u32) - 4) as u32].original,
                handler: self@[((pc_reg as u32) - 4) as u32].handler,
            }),
    {
        if imm != TRAPPER_IMM {
            return BkptAction::Forward(imm);
        }
        let caller = pc_reg as u32 - WORD_SIZE_THUMB * 2;
        match self.traps.get(&caller) {
            Some(t) => BkptAction::RunTrap { original: t.original, handler: t.handler },
            None => {
                proof {
                    assert(false);
                }
                BkptAction::Forward(imm)
            },
        }
    }
}

/// The patched instruction is a Thumb `BKPT` (high byte `0xbe`) whose
/// immediate is the trap immediate, so executing it reaches the hook as a
/// trap breakpoint.
pub proof fn lemma_trap_opcode_is_trap_breakpoint()
    ensures
        TRAP_OPCODE >> 8u16 == 0xbeu16,
        (TRAP_OPCODE & 0xffu16) as i32 == TRAPPER_IMM,
{
    assert((0xbe00u16 | 0xefu16) >> 8u16 == 0xbeu16) by (bit_vector);
    assert((0xbe00u16 | 0xefu16) & 0xffu16 == 0xefu16) by (bit_vector);
}

/// The trap a breakpoint belongs to sits two Thumb instructions (four
/// bytes) before the program counter register, for every register value.
pub proof fn lemma_trap_address_is_four_bytes_back(pc_reg: i32)
    ensures
        spec_trap_address(pc_reg) == (pc_reg as u32) - 4,
{
}

/// When the breakpoint patched at `address` executes, the program counter
/// register reads `address + 4`, and the hook runs exactly the trap
/// installed at `address`: its displaced instruction and its handler.
pub proof fn lemma_trap_breakpoint_runs_its_own_trap(traps: Map<u32, Trap>, address: u32, pc_reg: i32)
    requires
        address + 4 <= u32::MAX,
        pc_reg as u32 == address + 4,
        traps.contains_key(address),
    ensures
        spec_dispatch(traps, TRAPPER_IMM, pc_reg) == (BkptAction::RunTrap {
            original: traps[address].original,
            handler: traps[address].handler,
        }),
{
}

/// A trap installed at `address` fires when its breakpoint executes: the
/// hook runs the instruction the trap displaced and then its handler.
pub proof fn lemma_installed_trap_fires(
    traps: Map<u32, Trap>,
    address: u32,
    original: u16,
    handler: usize,
    pc_reg: i32,
)
    requires
        spec_trap_address(pc_reg) == address,
    ensures
        spec_dispatch(traps.insert(address, Trap { original, handler }), TRAPPER_IMM, pc_reg)
            == (BkptAction::RunTrap { original, handler }),
{
}

/// Installing a trap changes what happens at its own address only.
pub proof fn lemma_install_keeps_other_traps(
    traps: Map<u32, Trap>,
    address: u32,
    trap: Trap,
    imm: i32,
    pc_reg: i32,
)
    requires
        imm == TRAPPER_IMM ==> 0 <= spec_trap_address(pc_reg) && spec_trap_address(pc_reg) != address,
    ensures
        spec_dispatch(traps.insert(address, trap), imm, pc_reg) == spec_dispatch(traps, imm, pc_reg),
{
}

/// A breakpoint whose immediate is not the trap immediate belongs to the
/// game: it reaches the core's own hook with its immediate, whatever traps
/// are installed.
pub proof fn lemma_foreign_breakpoint_forwarded(traps: Map<u32, Trap>, imm: i32, pc_reg: i32)
    requires
        imm != TRAPPER_IMM,
    ensures
        spec_dispatch(traps, imm, pc_reg) == BkptAction::Forward(imm),
{
}

} // verus!
