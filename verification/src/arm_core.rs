//! The register file of the GBA's ARM7TDMI and the Thumb branch that
//! reloads its two-stage prefetch pipeline.
use vstd::prelude::*;

verus! {

/// Raw value of the core's execution-mode field when it runs ARM code.
pub const MODE_ARM: u32 = 0;

/// Raw value of the core's execution-mode field when it runs Thumb code.
pub const MODE_THUMB: u32 = 1;

/// Bytes taken by one ARM instruction.
pub const WORD_SIZE_ARM: u32 = 4;

/// Bytes taken by one Thumb instruction.
pub const WORD_SIZE_THUMB: u32 = 2;

/// Index of the program counter among the general-purpose registers.
pub const ARM_PC: usize = 15;

/// The instruction set the CPU is decoding.
#[derive(Debug, Clone, Copy, PartialEq, Eq, Structural)]
pub enum ExecutionMode {
    ARM,
    Thumb,
}

/// The CPU state the bindings read and write: the sixteen general-purpose
/// registers (`gprs[15]` is the program counter, which runs two
/// instructions ahead of the one executing), the packed CPSR, the raw
/// execution-mode field, and the two prefetched instructions.
pub struct ArmCore {
    pub gprs: [i32; 16],
    pub cpsr: i32,
    pub execution_mode: u32,
    pub prefetch: [u32; 2],
}

/// The halfword-aligned address the pipeline refills from when the
/// program counter register holds `pc_reg`.
pub open spec fn thumb_fetch_base(pc_reg: i32) -> u32 {
    ((pc_reg as u32) - (pc_reg as u32) % 2) as u32
}

/// A little-endian halfword read from `bytes` at `at`.
pub open spec fn load16(bytes: Seq<u8>, at: int) -> u32 {
    (bytes[at] + 256 * bytes[at + 1]) as u32
}

/// Where a fetch at `addr` lands in a memory region folded by `mask`.
pub open spec fn region_offset(mask: u32, addr: u32) -> int {
    (addr & mask) as int
}

/// A halfword fetch at `addr` stays inside the region `bytes` folded by
/// `mask`.
pub open spec fn region_covers(bytes: Seq<u8>, mask: u32, addr: u32) -> bool {
    region_offset(mask, addr) + 1 < bytes.len()
}

/// The halfword a fetch at `addr` reads from the region `bytes` folded by
/// `mask`.
pub open spec fn region_halfword(bytes: Seq<u8>, mask: u32, addr: u32) -> u32 {
    load16(bytes, region_offset(mask, addr))
}

/// The address a Thumb branch to `v` fetches from: `v` aligned down to a
/// halfword. The memory region the pipeline is refilled from is the one
/// holding this address.
pub fn thumb_fetch_address(v: u32) -> (base: u32)
    ensures
        base == thumb_fetch_base(v as i32),
        base == v - v % 2,
{
    proof {
        assert((v as i32) as u32 == v) by (bit_vector);
        assert(v & 0xffff_fffe == v - v % 2) by (bit_vector);
    }
    v & 0xffff_fffe
}

/// A pipeline refill at the aligned address `base` stays in range: the
/// address after it does not overflow and both halfword fetches stay
/// inside `region` folded by `mask`.
pub open spec fn can_refill_at(base: u32, region: Seq<u8>, mask: u32) -> bool {
    &&& base + WORD_SIZE_THUMB <= u32::MAX
    &&& region_covers(region, mask, base)
    &&& region_covers(region, mask, (base + WORD_SIZE_THUMB) as u32)
}

/// Reads the halfword at `addr` from the memory region the CPU fetches
/// from: its bytes `region`, into which `mask` folds an address.
pub fn read_halfword(region: &[u8], mask: u32, addr: u32) -> (r: u32)
    requires
        region_covers(region@, mask, addr),
    ensures
        r == region_halfword(region@, mask, addr),
        r == region@[(addr & mask) as int] + 256 * region@[(addr & mask) as int + 1],
        r < 0x10000,
{
    let at = (addr & mask) as usize;
    assert(at as int == region_offset(mask, addr));
    let len = region.len();
    assert(at + 1 < len);
    let lo = region[at] as u32;
    let hi = region[at + 1] as u32;
    lo + hi * 256
}

impl ArmCore {
    /// The value of `gprs[15]` seen as an unsigned address.
    pub open spec fn spec_pc_reg(&self) -> u32 {
        self.gprs@[15] as u32
    }

    /// The address of the executing Thumb instruction.
    pub open spec fn spec_thumb_pc(&self) -> int {
        self.spec_pc_reg() - WORD_SIZE_THUMB
    }

    /// The address of the executing ARM instruction.
    pub open spec fn spec_arm_pc(&self) -> int {
        self.spec_pc_reg() - WORD_SIZE_ARM
    }

    /// `self` is `before` with general-purpose register `r` set to `v`.
    pub open spec fn is_gpr_update(self, before: ArmCore, r: int, v: i32) -> bool {
        &&& self.gprs@ == before.gprs@.update(r, v)
        &&& self.cpsr == before.cpsr
        &&& self.execution_mode == before.execution_mode
        &&& self.prefetch@ == before.prefetch@
    }

    /// `self` is `before` after its pipeline is refilled at the aligned
    /// address `base` from `region` folded by `mask`: both prefetch slots
    /// hold the halfwords at `base` and the one after it, and the program
    /// counter points past the first.
    pub open spec fn is_refill_at(self, before: ArmCore, base: u32, region: Seq<u8>, mask: u32) -> bool {
        &&& self.gprs@ == before.gprs@.update(15, (base + WORD_SIZE_THUMB) as i32)
        &&& self.prefetch@ == seq![
            region_halfword(region, mask, base),
            region_halfword(region, mask, (base + WORD_SIZE_THUMB) as u32),
        ]
        &&& self.cpsr == before.cpsr
        &&& self.execution_mode == before.execution_mode
    }

    /// `self` is `before` after its pipeline is refilled from `region` at
    /// `before`'s program counter aligned down to a halfword.
    pub open spec fn is_thumb_refill(self, before: ArmCore, region: Seq<u8>, mask: u32) -> bool {
        self.is_refill_at(before, thumb_fetch_base(before.gprs@[15]), region, mask)
    }

    /// The refill of `thumb_write_pc` can be carried out on this core.
    pub open spec fn can_refill_from(&self, region: Seq<u8>, mask: u32) -> bool {
        can_refill_at(thumb_fetch_base(self.gprs@[15]), region, mask)
    }

    /// General-purpose register `r`.
    pub fn gpr(&self, r: usize) -> (v: i32)
        requires
            r < 16,
        ensures
            v == self.gprs@[r as int],
    {
        self.gprs[r]
    }

    /// The packed current program status register.
    pub fn cpsr(&self) -> (v: i32)
        ensures
            v == self.cpsr,
    {
        self.cpsr
    }

    /// The address of the executing Thumb instruction: the program
    /// counter minus one Thumb instruction.
    pub fn thumb_pc(&self) -> (pc: u32)
        requires
            self.spec_pc_reg() >= WORD_SIZE_THUMB,
        ensures
            pc == self.spec_thumb_pc(),
            pc == (self.gprs@[15] as u32) - 2,
    {
        self.gpr(ARM_PC) as u32 - WORD_SIZE_THUMB
    }

    /// The address of the executing ARM instruction: the program counter
    /// minus one ARM instruction.
    pub fn arm_pc(&self) -> (pc: u32)
        requires
            self.spec_pc_reg() >= WORD_SIZE_ARM,
        ensures
            pc == self.spec_arm_pc(),
            pc == (self.gprs@[15] as u32) - 4,
    {
        self.gpr(ARM_PC) as u32 - WORD_SIZE_ARM
    }

    /// The instruction set the CPU decodes; the raw field only ever holds
    /// one of the two modes.
    pub fn execution_mode(&self) -> (m: ExecutionMode)
        requires
            self.execution_mode == MODE_ARM || self.execution_mode == MODE_THUMB,
        ensures
            self.execution_mode == MODE_ARM ==> m == ExecutionMode::ARM,
            self.execution_mode == MODE_THUMB ==> m == ExecutionMode::Thumb,
    {
        if self.execution_mode == MODE_ARM {
            ExecutionMode::ARM
        } else {
            ExecutionMode::Thumb
        }
    }

    /// Sets general-purpose register `r` to `v`, leaving everything else.
    pub fn set_gpr(&mut self, r: usize, v: i32)
        requires
            r < 16,
        ensures
            final(self).is_gpr_update(*old(self), r as int, v),
    {
        self.gprs[r] = v;
    }

    /// Branches to the Thumb address `v`: stores it in the program counter,
    /// then refills the pipeline (see [`Self::thumb_write_pc`]) from the
    /// memory region `region`, folded by `mask`, that holds `v` aligned
    /// down to a halfword ([`thumb_fetch_address`]). Afterwards the core
    /// executes at that aligned address.
    pub fn set_thumb_pc(&mut self, v: u32, region: &[u8], mask: u32)
        requires
            can_refill_at(thumb_fetch_base(v as i32), region@, mask),
        ensures
            final(self).is_refill_at(*old(self), thumb_fetch_base(v as i32), region@, mask),
            final(self).spec_thumb_pc() == v - v % 2,
            final(self).gprs@[15] as u32 == v - v % 2 + 2,
            forall|s: int| 0 <= s < 15 ==> final(self).gprs@[s] == old(self).gprs@[s],
            ({
                let b = (v - v % 2) as u32;
                let n = (v - v % 2 + 2) as u32;
                &&& final(self).prefetch@[0] == region@[(b & mask) as int] + 256 * region@[(b & mask) as int + 1]
                &&& final(self).prefetch@[1] == region@[(n & mask) as int] + 256 * region@[(n & mask) as int + 1]
                &&& final(self).prefetch@[0] < 0x10000
                &&& final(self).prefetch@[1] < 0x10000
            }),
    {
        self.set_gpr(ARM_PC, v as i32);
        self.thumb_write_pc(region, mask);
        proof {
            assert(self.gprs@ =~= old(self).gprs@.update(15, (thumb_fetch_base(v as i32) + WORD_SIZE_THUMB) as i32));
            lemma_thumb_branch_lands(*old(self), *self, v, region@, mask);
            let b = (v - v % 2) as u32;
            let n = (v - v % 2 + 2) as u32;
            assert((v as i32) as u32 == v) by (bit_vector);
            assert(thumb_fetch_base(v as i32) == b);
            lemma_fetch_reads_folded_bytes(region@, mask, b);
            lemma_fetch_reads_folded_bytes(region@, mask, n);
            assert((self.gprs@[15] as u32) as int == v - v % 2 + 2);
        }
    }

    /// Refills the Thumb pipeline after a write to the program counter:
    /// aligns it down to a halfword, fetches the halfwords at it and after
    /// it from the memory region `region` (folded by `mask`) into the two
    /// prefetch slots, and leaves the program counter one Thumb instruction
    /// past the aligned address.
    pub fn thumb_write_pc(&mut self, region: &[u8], mask: u32)
        requires
            old(self).can_refill_from(region@, mask),
        ensures
            final(self).is_thumb_refill(*old(self), region@, mask),
            ({
                let p = old(self).gprs@[15] as u32;
                let b = (p - p % 2) as u32;
                let n = (p - p % 2 + 2) as u32;
                &&& final(self).gprs@[15] as u32 == p - p % 2 + 2
                &&& final(self).prefetch@[0] == region@[(b & mask) as int] + 256 * region@[(b & mask) as int + 1]
                &&& final(self).prefetch@[1] == region@[(n & mask) as int] + 256 * region@[(n & mask) as int + 1]
            }),
    {
        let reg = self.gpr(ARM_PC);
        let mut pc = (reg & -(WORD_SIZE_THUMB as i32)) as u32;
        proof {
            assert(((reg & -2i32) as u32) == (reg as u32) - (reg as u32) % 2) by (bit_vector);
        }
        let first = read_halfword(region, mask, pc);
        pc = pc + WORD_SIZE_THUMB;
        let second = read_halfword(region, mask, pc);
        self.prefetch[0] = first;
        self.prefetch[1] = second;
        self.set_gpr(ARM_PC, pc as i32);
        proof {
            let base = thumb_fetch_base(old(self).gprs@[15]);
            assert(self.prefetch@ =~= seq![
                region_halfword(region@, mask, base),
                region_halfword(region@, mask, (base + WORD_SIZE_THUMB) as u32),
            ]);
            let n: u32 = (base + WORD_SIZE_THUMB) as u32;
            assert((n as i32) as u32 == n) by (bit_vector);
        }
    }
}

/// Setting a register is read back by the next read of it, and leaves
/// every other register, the CPSR, the mode and the pipeline as they were.
pub proof fn lemma_set_gpr_read_back(before: ArmCore, after: ArmCore, r: int, v: i32)
    requires
        0 <= r < 16,
        after.is_gpr_update(before, r, v),
    ensures
        after.gprs@[r] == v,
        forall|s: int| 0 <= s < 16 && s != r ==> after.gprs@[s] == before.gprs@[s],
        after.cpsr == before.cpsr,
        after.execution_mode == before.execution_mode,
        after.prefetch@ == before.prefetch@,
{
}

/// The executing Thumb instruction sits one halfword past the executing
/// ARM instruction: both are read off the same program counter.
pub proof fn lemma_thumb_pc_follows_arm_pc(core: ArmCore)
    requires
        core.spec_pc_reg() >= WORD_SIZE_ARM,
    ensures
        core.spec_thumb_pc() == core.spec_arm_pc() + 2,
{
}

/// A halfword fetch at `addr` reads the two bytes at `addr & mask` in the
/// region, low byte first, as an unsigned value: for every mask, address
/// and region in which both bytes lie.
pub proof fn lemma_fetch_reads_folded_bytes(bytes: Seq<u8>, mask: u32, addr: u32)
    requires
        (addr & mask) as int + 1 < bytes.len(),
    ensures
        region_covers(bytes, mask, addr),
        region_halfword(bytes, mask, addr) == bytes[(addr & mask) as int] + 256 * bytes[(addr & mask) as int + 1],
        region_halfword(bytes, mask, addr) < 0x10000,
{
}

/// A Thumb branch to `v` refills the pipeline with the unsigned halfwords
/// stored, low byte first, at `v` aligned down to a halfword and at the
/// address after it, each folded into the region by `mask`, and leaves the
/// program counter one Thumb instruction past the aligned address.
pub proof fn lemma_thumb_branch_fetches(before: ArmCore, after: ArmCore, v: u32, region: Seq<u8>, mask: u32)
    requires
        v - v % 2 + 2 <= u32::MAX,
        (((v - v % 2) as u32) & mask) as int + 1 < region.len(),
        (((v - v % 2 + 2) as u32) & mask) as int + 1 < region.len(),
        after.is_refill_at(before, thumb_fetch_base(v as i32), region, mask),
    ensures
        ({
            let b = (v - v % 2) as u32;
            let n = (v - v % 2 + 2) as u32;
            &&& after.prefetch@[0] == region[(b & mask) as int] + 256 * region[(b & mask) as int + 1]
            &&& after.prefetch@[1] == region[(n & mask) as int] + 256 * region[(n & mask) as int + 1]
            &&& after.prefetch@[0] < 0x10000
            &&& after.prefetch@[1] < 0x10000
            &&& after.gprs@[15] as u32 == v - v % 2 + 2
        }),
{
    assert((v as i32) as u32 == v) by (bit_vector);
    assert(thumb_fetch_base(v as i32) == v - v % 2);
    let b = (v - v % 2) as u32;
    let n = (v - v % 2 + 2) as u32;
    lemma_fetch_reads_folded_bytes(region, mask, b);
    lemma_fetch_reads_folded_bytes(region, mask, n);
    assert((n as i32) as u32 == n) by (bit_vector);
}

/// A Thumb branch to `v` leaves the core executing at `v` aligned down to
/// a halfword: `thumb_pc` reads it back, the prefetch slots hold the
/// instructions there and after it, and no other register has changed.
pub proof fn lemma_thumb_branch_lands(before: ArmCore, after: ArmCore, v: u32, region: Seq<u8>, mask: u32)
    requires
        can_refill_at(thumb_fetch_base(v as i32), region, mask),
        after.is_refill_at(before, thumb_fetch_base(v as i32), region, mask),
    ensures
        after.spec_pc_reg() >= WORD_SIZE_THUMB,
        after.spec_thumb_pc() == v - v % 2,
        after.prefetch@[0] == region_halfword(region, mask, (v - v % 2) as u32),
        after.prefetch@[1] == region_halfword(region, mask, (v - v % 2 + WORD_SIZE_THUMB) as u32),
        forall|s: int| 0 <= s < 15 ==> after.gprs@[s] == before.gprs@[s],
        after.cpsr == before.cpsr,
        after.execution_mode == before.execution_mode,
{
    assert((v as i32) as u32 == v) by (bit_vector);
    let base = thumb_fetch_base(v as i32);
    assert(base == v - v % 2);
    let next: u32 = (base + WORD_SIZE_THUMB) as u32;
    assert((next as i32) as u32 == next) by (bit_vector);
    assert(after.gprs@[15] == next as i32);
}

} // verus!
