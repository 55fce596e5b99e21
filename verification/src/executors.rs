//! The instruction executors: one per decoded format, each driving the dual
//! ALU datapath, the predicated writeback, the uniforms stream and the flag
//! file, exactly as the hardware's retire stage would.
use vstd::prelude::*;

verus! {

use crate::alu::{eval_cond, spec_add_alu_op, spec_add_op_ok, spec_cond, spec_mul_alu_op,
    spec_mul_op_ok};
use crate::constants::{ADDOP_NOP, COND_NEVER, MULOP_NOP, RA_ELEMENT_NUMBER, RA_MUTEX_ACQUIRE,
    RA_NOP, RA_UNIFORM_READ, RA_VPM_LD_BUSY, RA_VPM_LD_WAIT, RB_MUTEX_ACQUIRE, RB_NOP,
    RB_UNIFORM_READ, RB_VPM_ST_BUSY, RB_VPM_ST_WAIT, SIG_LDTMU0, WA_UNIFORMS_ADDRESS};
use crate::errors::EmuError;
use crate::alu::spec_decode_small_imm;
use crate::bits::{reduction_and, reduction_or, spec_reduction_and, spec_reduction_or};
use crate::constants::COND_BR_ALWAYS;
use crate::constants::{COND_BR_ANYCS, COND_BR_ANYNC, COND_BR_ANYNS, COND_BR_ANYZC, COND_BR_ANYZS,
    COND_BR_CC, COND_BR_CS, COND_BR_NC, COND_BR_NS, COND_BR_ZC, COND_BR_ZS};
use crate::instructions::{InstFormat, InstFormatAlu, InstFormatAluSmallImm, InstFormatBranch,
    InstFormatLoadImm32, InstFormatLoadImmPerElem, InstFormatSemaphore};
use crate::processor::{spec_set_vec, QPUEmu, QPUState, VPMRead};

/// What a side-effect-free A-bank read returns: a register lane, the lane
/// number, or zero from the always-ready ports.
pub open spec fn spec_lane_read_a(s: QPUState, elem: int, addr: u8) -> u32 {
    if addr <= 31 {
        s.reg_ra[16 * (addr as int) + elem]
    } else if addr == RA_ELEMENT_NUMBER {
        elem as u32
    } else {
        0
    }
}

/// What a side-effect-free B-bank read returns.
pub open spec fn spec_lane_read_b(s: QPUState, elem: int, addr: u8) -> u32 {
    if addr <= 31 {
        s.reg_rb[16 * (addr as int) + elem]
    } else {
        0
    }
}

/// Whether an A-bank read address touches no peripheral state and cannot fault.
pub open spec fn spec_plain_read_a(addr: u8) -> bool {
    addr <= 31 || addr == RA_ELEMENT_NUMBER || addr == RA_NOP || addr == RA_MUTEX_ACQUIRE || addr
        == RA_VPM_LD_BUSY || addr == RA_VPM_LD_WAIT
}

/// Whether a B-bank read address touches no peripheral state and cannot fault.
pub open spec fn spec_plain_read_b(addr: u8) -> bool {
    addr <= 31 || addr == RB_NOP || addr == RB_MUTEX_ACQUIRE || addr == RB_VPM_ST_BUSY || addr
        == RB_VPM_ST_WAIT
}

/// Whether a write address lands in plain per-lane storage: a bank register,
/// an accumulator, or the write no-op.
pub open spec fn spec_plain_write(addr: u8) -> bool {
    addr <= 35 || addr == 39
}

/// One operand-mux selection: an accumulator lane, the A-read, or the B-read.
pub open spec fn spec_mux_val(s: QPUState, elem: int, sel: u8, av: u32, bv: u32) -> u32 {
    if sel <= 5 {
        s.reg_r[16 * (sel as int) + elem]
    } else if sel == 6 {
        av
    } else {
        bv
    }
}

/// Whether an A-bank read address is covered by the exact executor contracts:
/// the plain set, the uniforms stream, or the VPM read port.
pub open spec fn spec_cov_read_a(addr: u8) -> bool {
    spec_plain_read_a(addr) || addr == RA_UNIFORM_READ || addr == crate::constants::RA_VPM_READ
}

/// Whether a B-bank read address is covered by the exact executor contracts.
pub open spec fn spec_cov_read_b(addr: u8) -> bool {
    spec_plain_read_b(addr) || addr == RB_UNIFORM_READ || addr == crate::constants::RB_VPM_READ
}

/// What an A-bank read returns, peripherals included: a register lane, the
/// lane number, the word under the uniforms pointer, the lane's VPM cell
/// (from the pre-advance cursor), or zero from the always-ready ports.
pub open spec fn spec_read_a_val(s: QPUState, elem: int, addr: u8) -> u32 {
    if addr == RA_UNIFORM_READ {
        crate::processor::spec_le_word_at(s.mem, s.uniform_ptr as int)
    } else if addr == crate::constants::RA_VPM_READ {
        crate::processor::spec_le_word_at(
            s.vpm[crate::processor::spec_vpm_read_cell(s.vpm_read, elem).0],
            4 * crate::processor::spec_vpm_read_cell(s.vpm_read, elem).1,
        )
    } else {
        spec_lane_read_a(s, elem, addr)
    }
}

/// What a B-bank read returns, peripherals included.
pub open spec fn spec_read_b_val(s: QPUState, elem: int, addr: u8) -> u32 {
    if addr == RB_UNIFORM_READ {
        crate::processor::spec_le_word_at(s.mem, s.uniform_ptr as int)
    } else if addr == crate::constants::RB_VPM_READ {
        crate::processor::spec_le_word_at(
            s.vpm[crate::processor::spec_vpm_read_cell(s.vpm_read, elem).0],
            4 * crate::processor::spec_vpm_read_cell(s.vpm_read, elem).1,
        )
    } else {
        spec_lane_read_b(s, elem, addr)
    }
}

/// Whether lane `elem`'s A-side read succeeds: a uniforms read needs an
/// aligned in-bounds pointer, a VPM read a valid cell.
pub open spec fn spec_read_a_ok(s: QPUState, elem: int, addr: u8) -> bool {
    if addr == RA_UNIFORM_READ {
        crate::processor::spec_read_mem_result(s.mem, s.uniform_ptr as int) is Ok
    } else if addr == crate::constants::RA_VPM_READ {
        crate::processor::spec_vpm_read_ok(s.vpm_read, elem)
    } else {
        true
    }
}

/// Whether lane `elem`'s B-side read succeeds.
pub open spec fn spec_read_b_ok(s: QPUState, elem: int, addr: u8) -> bool {
    if addr == RB_UNIFORM_READ {
        crate::processor::spec_read_mem_result(s.mem, s.uniform_ptr as int) is Ok
    } else if addr == crate::constants::RB_VPM_READ {
        crate::processor::spec_vpm_read_ok(s.vpm_read, elem)
    } else {
        true
    }
}

/// The add pipeline's lane result: present exactly where the lane's condition
/// holds and the opcode is not the no-op.
pub open spec fn spec_alu_add_result(s: QPUState, f: InstFormatAlu, elem: int) -> Option<u32> {
    let av = spec_read_a_val(s, elem, f.raddr_a);
    let bv = spec_read_b_val(s, elem, f.raddr_b);
    if spec_cond(f.cond_add, s.zf[elem], s.nf[elem], s.cf[elem]) && f.op_add != ADDOP_NOP {
        Some(
            spec_add_alu_op(
                f.op_add,
                spec_mux_val(s, elem, f.add_a, av, bv),
                spec_mux_val(s, elem, f.add_b, av, bv),
            ),
        )
    } else {
        None
    }
}

/// The mul pipeline's lane result.
pub open spec fn spec_alu_mul_result(s: QPUState, f: InstFormatAlu, elem: int) -> Option<u32> {
    let av = spec_read_a_val(s, elem, f.raddr_a);
    let bv = spec_read_b_val(s, elem, f.raddr_b);
    if spec_cond(f.cond_mul, s.zf[elem], s.nf[elem], s.cf[elem]) && f.op_mul != MULOP_NOP {
        Some(
            spec_mul_alu_op(
                f.op_mul,
                spec_mux_val(s, elem, f.mul_a, av, bv),
                spec_mux_val(s, elem, f.mul_b, av, bv),
            ),
        )
    } else {
        None
    }
}

/// The lane value that drives a flag update, where one does: the add result
/// where the add pipeline executed, else the mul result.
pub open spec fn spec_alu_flag_source(s: QPUState, f: InstFormatAlu, elem: int) -> Option<u32> {
    if f.sf != 0 {
        if spec_alu_add_result(s, f, elem) is Some {
            spec_alu_add_result(s, f, elem)
        } else {
            spec_alu_mul_result(s, f, elem)
        }
    } else {
        None
    }
}

/// A lane's zero flag after the instruction.
pub open spec fn spec_alu_zf(s: QPUState, f: InstFormatAlu, elem: int) -> bool {
    match spec_alu_flag_source(s, f, elem) {
        Some(v) => v == 0,
        None => s.zf[elem],
    }
}

/// A lane's negative flag after the instruction.
pub open spec fn spec_alu_nf(s: QPUState, f: InstFormatAlu, elem: int) -> bool {
    match spec_alu_flag_source(s, f, elem) {
        Some(v) => v >= 0x8000_0000,
        None => s.nf[elem],
    }
}

/// A lane's carry flag after the instruction; the core never computes carry.
pub open spec fn spec_alu_cf(s: QPUState, f: InstFormatAlu, elem: int) -> bool {
    match spec_alu_flag_source(s, f, elem) {
        Some(_v) => false,
        None => s.cf[elem],
    }
}

/// The state after a predicated write to a plain A-bank address.
pub open spec fn spec_apply_write_a(s: QPUState, wa: u8, vals: Seq<Option<u32>>) -> QPUState {
    if wa <= 31 {
        QPUState { reg_ra: spec_set_vec(s.reg_ra, 16, wa as int, vals), ..s }
    } else if 32 <= wa <= 35 {
        QPUState { reg_r: spec_set_vec(s.reg_r, 16, wa - 32, vals), ..s }
    } else {
        s
    }
}

/// The state after a predicated write to a plain B-bank address.
pub open spec fn spec_apply_write_b(s: QPUState, wa: u8, vals: Seq<Option<u32>>) -> QPUState {
    if wa <= 31 {
        QPUState { reg_rb: spec_set_vec(s.reg_rb, 16, wa as int, vals), ..s }
    } else if 32 <= wa <= 35 {
        QPUState { reg_r: spec_set_vec(s.reg_r, 16, wa - 32, vals), ..s }
    } else {
        s
    }
}

/// Whether a dual-issue instruction stays entirely in plain per-lane storage:
/// fault-free reads, implemented opcodes, plain writeback, and no signal side
/// effect.
pub open spec fn spec_plain_alu(f: InstFormatAlu) -> bool {
    &&& spec_plain_read_a(f.raddr_a)
    &&& spec_plain_read_b(f.raddr_b)
    &&& spec_add_op_ok(f.op_add)
    &&& spec_mul_op_ok(f.op_mul)
    &&& spec_plain_write(f.waddr_add)
    &&& spec_plain_write(f.waddr_mul)
    &&& f.sig != SIG_LDTMU0
    &&& f.cond_add < 8
    &&& f.cond_mul < 8
    &&& f.add_a < 8
    &&& f.add_b < 8
    &&& f.mul_a < 8
    &&& f.mul_b < 8
}

/// The state a plain dual-issue instruction retires to: flags first, then the
/// two predicated writebacks in bank order.
pub open spec fn spec_plain_alu_post(s: QPUState, f: InstFormatAlu) -> QPUState {
    let addres = Seq::new(16, |e: int| spec_alu_add_result(s, f, e));
    let mulres = Seq::new(16, |e: int| spec_alu_mul_result(s, f, e));
    let s1 = QPUState {
        zf: Seq::new(16, |e: int| spec_alu_zf(s, f, e)),
        nf: Seq::new(16, |e: int| spec_alu_nf(s, f, e)),
        cf: Seq::new(16, |e: int| spec_alu_cf(s, f, e)),
        ..s
    };
    if f.ws == 0 {
        spec_apply_write_b(spec_apply_write_a(s1, f.waddr_add, addres), f.waddr_mul, mulres)
    } else {
        spec_apply_write_a(spec_apply_write_b(s1, f.waddr_add, addres), f.waddr_mul, mulres)
    }
}

/// Whether a dual-issue instruction's exact retire state is pinned by the
/// contract of `execute_alu`: reads from registers, the uniforms stream or the
/// VPM port (but not the VPM port on both sides at once, whose second read
/// would see a moved cursor), implemented opcodes, plain writeback, no signal
/// side effect.
pub open spec fn spec_covered_alu(f: InstFormatAlu) -> bool {
    &&& spec_cov_read_a(f.raddr_a)
    &&& spec_cov_read_b(f.raddr_b)
    &&& !(f.raddr_a == crate::constants::RA_VPM_READ && f.raddr_b == crate::constants::RB_VPM_READ)
    &&& spec_add_op_ok(f.op_add)
    &&& spec_mul_op_ok(f.op_mul)
    &&& spec_plain_write(f.waddr_add)
    &&& spec_plain_write(f.waddr_mul)
    &&& f.sig != SIG_LDTMU0
    &&& f.cond_add < 8
    &&& f.cond_mul < 8
    &&& f.add_a < 8
    &&& f.add_b < 8
    &&& f.mul_a < 8
    &&& f.mul_b < 8
}

/// Whether every port a covered dual-issue instruction touches is ready: each
/// lane's reads succeed, and a named uniforms read leaves room to advance the
/// pointer.
pub open spec fn spec_alu_ports_ok(s: QPUState, f: InstFormatAlu) -> bool {
    &&& (forall|e: int|
        0 <= e < 16 ==> spec_read_a_ok(s, e, f.raddr_a) && spec_read_b_ok(s, e, f.raddr_b))
    &&& (f.raddr_a == RA_UNIFORM_READ || f.raddr_b == RB_UNIFORM_READ ==> s.uniform_ptr + 4
        <= u32::MAX)
}

/// The state a covered dual-issue instruction retires to: the per-lane results
/// and flags of `spec_plain_alu_post`, then the VPM read cursor's advance
/// where the port was named, then the uniforms pointer's advance.
pub open spec fn spec_alu_retire(s: QPUState, f: InstFormatAlu) -> QPUState {
    let s1 = spec_plain_alu_post(s, f);
    let s2 = if f.raddr_a == crate::constants::RA_VPM_READ || f.raddr_b
        == crate::constants::RB_VPM_READ {
        QPUState { vpm_read: crate::processor::spec_vpm_read_advanced(s.vpm_read, 15), ..s1 }
    } else {
        s1
    };
    if f.raddr_a == RA_UNIFORM_READ || f.raddr_b == RB_UNIFORM_READ {
        QPUState { uniform_ptr: (s.uniform_ptr + 4) as u32, ..s2 }
    } else {
        s2
    }
}

/// One pipeline lane under explicitly given flags: the result is present
/// exactly where the condition holds of those flags and the opcode is not the
/// no-op.
pub open spec fn spec_lane_result_flags(
    s: QPUState,
    cond: u8,
    op: u8,
    sel_a: u8,
    sel_b: u8,
    av: u32,
    bv: u32,
    z: bool,
    n: bool,
    c: bool,
    elem: int,
    is_add: bool,
) -> Option<u32> {
    if spec_cond(cond, z, n, c) && !(is_add && op == ADDOP_NOP) && !(!is_add && op == MULOP_NOP) {
        let x = spec_mux_val(s, elem, sel_a, av, bv);
        let y = spec_mux_val(s, elem, sel_b, av, bv);
        Some(
            if is_add {
                spec_add_alu_op(op, x, y)
            } else {
                spec_mul_alu_op(op, x, y)
            },
        )
    } else {
        None
    }
}

/// The source lane whose result lands in writeback lane `j` under a rotation.
pub open spec fn spec_rot_src(j: int, rot: int) -> int {
    (j + 16 - rot) % 16
}

/// Source lane `e`'s add-pipeline result in a small-immediate instruction,
/// under the flags `ctx` it read: the B operand is the decoded immediate.
pub open spec fn spec_si_add_at(
    s: QPUState,
    f: InstFormatAluSmallImm,
    iv: u32,
    ctx: (bool, bool, bool),
    e: int,
) -> Option<u32> {
    spec_lane_result_flags(
        s,
        f.cond_add,
        f.op_add,
        f.add_a,
        f.add_b,
        spec_read_a_val(s, e, f.raddr_a),
        iv,
        ctx.0,
        ctx.1,
        ctx.2,
        e,
        true,
    )
}

/// Source lane `e`'s mul-pipeline result, under the flags `ctx` it read.
pub open spec fn spec_si_mul_at(
    s: QPUState,
    f: InstFormatAluSmallImm,
    iv: u32,
    ctx: (bool, bool, bool),
    e: int,
) -> Option<u32> {
    spec_lane_result_flags(
        s,
        f.cond_mul,
        f.op_mul,
        f.mul_a,
        f.mul_b,
        spec_read_a_val(s, e, f.raddr_a),
        iv,
        ctx.0,
        ctx.1,
        ctx.2,
        e,
        false,
    )
}

/// The flag value source lane `e` publishes (at writeback lane `(e+rot)%16`),
/// under the flags it read: the add result where the add pipeline executed,
/// else the mul result, and only where the instruction requests flags.
pub open spec fn spec_si_flag_from(
    s: QPUState,
    f: InstFormatAluSmallImm,
    iv: u32,
    ctx: (bool, bool, bool),
    e: int,
) -> Option<u32> {
    if f.sf != 0 {
        if spec_si_add_at(s, f, iv, ctx, e) is Some {
            spec_si_add_at(s, f, iv, ctx, e)
        } else {
            spec_si_mul_at(s, f, iv, ctx, e)
        }
    } else {
        None
    }
}

/// The flags source lane `e` reads at its evaluation step. Lanes run in
/// order, and lane `e`'s result (with its flag update) lands `rot` lanes up,
/// so lane `e` sees its entry flags unless the earlier source lane `e - rot`
/// already republished them.
pub open spec fn spec_si_ctx(
    s: QPUState,
    f: InstFormatAluSmallImm,
    iv: u32,
    rot: int,
    e: int,
) -> (bool, bool, bool)
    decreases e,
{
    if rot < 1 || e < rot || e < 0 {
        (s.zf[e], s.nf[e], s.cf[e])
    } else {
        match spec_si_flag_from(s, f, iv, spec_si_ctx(s, f, iv, rot, e - rot), e - rot) {
            Some(v) => (v == 0, v >= 0x8000_0000, false),
            None => (s.zf[e], s.nf[e], s.cf[e]),
        }
    }
}

/// Source lane `e`'s add result, with the flags it actually reads.
#[verifier::opaque]
pub open spec fn spec_si_add_res(
    s: QPUState,
    f: InstFormatAluSmallImm,
    iv: u32,
    rot: int,
    e: int,
) -> Option<u32> {
    spec_si_add_at(s, f, iv, spec_si_ctx(s, f, iv, rot, e), e)
}

/// Source lane `e`'s mul result, with the flags it actually reads.
#[verifier::opaque]
pub open spec fn spec_si_mul_res(
    s: QPUState,
    f: InstFormatAluSmallImm,
    iv: u32,
    rot: int,
    e: int,
) -> Option<u32> {
    spec_si_mul_at(s, f, iv, spec_si_ctx(s, f, iv, rot, e), e)
}

/// The flag value source lane `e` publishes, with the flags it actually reads.
#[verifier::opaque]
pub open spec fn spec_si_flag_value(
    s: QPUState,
    f: InstFormatAluSmallImm,
    iv: u32,
    rot: int,
    e: int,
) -> Option<u32> {
    spec_si_flag_from(s, f, iv, spec_si_ctx(s, f, iv, rot, e), e)
}

/// Whether a small-immediate instruction's exact retire state is pinned by
/// the contract of `execute_alu_small_imm`: reads from registers, the
/// uniforms stream or the VPM port, implemented opcodes and immediate, and
/// plain writeback.
pub open spec fn spec_covered_si(f: InstFormatAluSmallImm) -> bool {
    &&& spec_cov_read_a(f.raddr_a)
    &&& spec_add_op_ok(f.op_add)
    &&& spec_mul_op_ok(f.op_mul)
    &&& spec_plain_write(f.waddr_add)
    &&& spec_plain_write(f.waddr_mul)
    &&& f.cond_add < 8
    &&& f.cond_mul < 8
    &&& f.add_a < 8
    &&& f.add_b < 8
    &&& f.mul_a < 8
    &&& f.mul_b < 8
    &&& f.small_immed < 64
    &&& spec_decode_small_imm(f.small_immed) is Ok
}

/// Whether a small-immediate instruction confines itself to plain per-lane
/// storage, where nothing can fault.
pub open spec fn spec_plain_si(f: InstFormatAluSmallImm) -> bool {
    spec_covered_si(f) && spec_plain_read_a(f.raddr_a)
}

/// Whether every port a covered small-immediate instruction touches is ready.
pub open spec fn spec_si_ports_ok(s: QPUState, f: InstFormatAluSmallImm) -> bool {
    &&& (forall|e: int| 0 <= e < 16 ==> spec_read_a_ok(s, e, f.raddr_a))
    &&& (f.raddr_a == RA_UNIFORM_READ ==> s.uniform_ptr + 4 <= u32::MAX)
}

/// The per-lane retire state of a small-immediate instruction: source lane
/// `e`'s result and flag update land at lane `(e + rot) % 16`, then the two
/// predicated writebacks follow in bank order.
pub open spec fn spec_si_post(s: QPUState, f: InstFormatAluSmallImm) -> QPUState {
    let iv = spec_decode_small_imm(f.small_immed)->Ok_0.0;
    let rot = spec_decode_small_imm(f.small_immed)->Ok_0.1 as int;
    let addres = Seq::new(16, |j: int| spec_si_add_res(s, f, iv, rot, spec_rot_src(j, rot)));
    let mulres = Seq::new(16, |j: int| spec_si_mul_res(s, f, iv, rot, spec_rot_src(j, rot)));
    let s1 = QPUState {
        zf: Seq::new(
            16,
            |j: int|
                match spec_si_flag_value(s, f, iv, rot, spec_rot_src(j, rot)) {
                    Some(v) => v == 0,
                    None => s.zf[j],
                },
        ),
        nf: Seq::new(
            16,
            |j: int|
                match spec_si_flag_value(s, f, iv, rot, spec_rot_src(j, rot)) {
                    Some(v) => v >= 0x8000_0000,
                    None => s.nf[j],
                },
        ),
        cf: Seq::new(
            16,
            |j: int|
                match spec_si_flag_value(s, f, iv, rot, spec_rot_src(j, rot)) {
                    Some(_v) => false,
                    None => s.cf[j],
                },
        ),
        ..s
    };
    if f.ws == 0 {
        spec_apply_write_b(spec_apply_write_a(s1, f.waddr_add, addres), f.waddr_mul, mulres)
    } else {
        spec_apply_write_a(spec_apply_write_b(s1, f.waddr_add, addres), f.waddr_mul, mulres)
    }
}

/// The state a covered small-immediate instruction retires to: the per-lane
/// state, then the VPM cursor's advance where the port was named, then the
/// uniforms pointer's advance.
pub open spec fn spec_si_retire(s: QPUState, f: InstFormatAluSmallImm) -> QPUState {
    let s1 = spec_si_post(s, f);
    let s2 = if f.raddr_a == crate::constants::RA_VPM_READ {
        QPUState { vpm_read: crate::processor::spec_vpm_read_advanced(s.vpm_read, 15), ..s1 }
    } else {
        s1
    };
    if f.raddr_a == RA_UNIFORM_READ {
        QPUState { uniform_ptr: (s.uniform_ptr + 4) as u32, ..s2 }
    } else {
        s2
    }
}

/// A 16-lane vector holding the same present value in every lane.
pub open spec fn spec_all_some(v: u32) -> Seq<Option<u32>> {
    Seq::new(16, |i: int| Some(v))
}

/// The per-lane result of a per-element load immediate: present exactly where
/// the lane's condition holds; the opcode plays no part.
pub open spec fn spec_pe_result(s: QPUState, cond: u8, hi: u16, lo: u16, signed: bool, e: int) -> Option<
    u32,
> {
    if spec_cond(cond, s.zf[e], s.nf[e], s.cf[e]) {
        Some(crate::alu::spec_decode_imm_per_elem(hi, lo, signed, e))
    } else {
        None
    }
}

/// The flag value driving lane `e` of a per-element load, where one does.
pub open spec fn spec_pe_flag_source(s: QPUState, f: InstFormatLoadImmPerElem, signed: bool, e: int) -> Option<
    u32,
> {
    if f.sf != 0 {
        if spec_pe_result(s, f.cond_add, f.per_element_ms_bit, f.per_element_ls_bit, signed, e)
            is Some {
            spec_pe_result(s, f.cond_add, f.per_element_ms_bit, f.per_element_ls_bit, signed, e)
        } else {
            spec_pe_result(s, f.cond_mul, f.per_element_ms_bit, f.per_element_ls_bit, signed, e)
        }
    } else {
        None
    }
}

/// The state a per-element load immediate with plain writeback retires to.
pub open spec fn spec_plain_pe_post(s: QPUState, f: InstFormatLoadImmPerElem, signed: bool) -> QPUState {
    let addres = Seq::new(
        16,
        |e: int| spec_pe_result(s, f.cond_add, f.per_element_ms_bit, f.per_element_ls_bit, signed, e),
    );
    let mulres = Seq::new(
        16,
        |e: int| spec_pe_result(s, f.cond_mul, f.per_element_ms_bit, f.per_element_ls_bit, signed, e),
    );
    let s1 = QPUState {
        zf: Seq::new(
            16,
            |e: int|
                match spec_pe_flag_source(s, f, signed, e) {
                    Some(v) => v == 0,
                    None => s.zf[e],
                },
        ),
        nf: Seq::new(
            16,
            |e: int|
                match spec_pe_flag_source(s, f, signed, e) {
                    Some(v) => v >= 0x8000_0000,
                    None => s.nf[e],
                },
        ),
        cf: Seq::new(
            16,
            |e: int|
                match spec_pe_flag_source(s, f, signed, e) {
                    Some(_v) => false,
                    None => s.cf[e],
                },
        ),
        ..s
    };
    if f.ws == 0 {
        spec_apply_write_b(spec_apply_write_a(s1, f.waddr_add, addres), f.waddr_mul, mulres)
    } else {
        spec_apply_write_a(spec_apply_write_b(s1, f.waddr_add, addres), f.waddr_mul, mulres)
    }
}

/// The signed two's-complement value a 32-bit word carries.
pub open spec fn spec_i32_val(v: u32) -> int {
    if v < 0x8000_0000 {
        v as int
    } else {
        v as int - 0x1_0000_0000
    }
}

/// Division by 8 truncating toward zero, as a signed displacement scales to
/// an instruction count.
pub open spec fn spec_div8_trunc(x: int) -> int {
    if x >= 0 {
        x / 8
    } else {
        -((-x) / 8)
    }
}

/// Whether a branch condition code names a reduction.
pub open spec fn spec_branch_cond_ok(c: u8) -> bool {
    c <= 11 || c == COND_BR_ALWAYS
}

/// Whether a branch is taken: always, or an all/any reduction over one of the
/// three flag vectors, possibly inverted.
pub open spec fn spec_branch_taken(s: QPUState, c: u8) -> bool {
    if c == COND_BR_ALWAYS {
        true
    } else if c == COND_BR_ZS {
        spec_reduction_and(s.zf, false)
    } else if c == COND_BR_ZC {
        spec_reduction_and(s.zf, true)
    } else if c == COND_BR_ANYZS {
        spec_reduction_or(s.zf, false)
    } else if c == COND_BR_ANYZC {
        spec_reduction_or(s.zf, true)
    } else if c == COND_BR_NS {
        spec_reduction_and(s.nf, false)
    } else if c == COND_BR_NC {
        spec_reduction_and(s.nf, true)
    } else if c == COND_BR_ANYNS {
        spec_reduction_or(s.nf, false)
    } else if c == COND_BR_ANYNC {
        spec_reduction_or(s.nf, true)
    } else if c == COND_BR_CS {
        spec_reduction_and(s.cf, false)
    } else if c == COND_BR_CC {
        spec_reduction_and(s.cf, true)
    } else if c == COND_BR_ANYCS {
        spec_reduction_or(s.cf, false)
    } else {
        spec_reduction_or(s.cf, true)
    }
}

/// The branch target's value as a program-counter index: an absolute word
/// index (less one, for the retire stage's increment) or one relative to the
/// current counter.
pub open spec fn spec_branch_target(pc: int, rel: u8, v: u32) -> int {
    let q = spec_div8_trunc(spec_i32_val(v));
    if rel == 0 {
        q - 1
    } else {
        pc + q
    }
}

/// The state a 32-bit load immediate with plain writeback retires to: the
/// literal lands unconditionally in all lanes of both targets, in bank order.
pub open spec fn spec_li32_post(s: QPUState, f: InstFormatLoadImm32) -> QPUState {
    if f.ws == 0 {
        spec_apply_write_b(
            spec_apply_write_a(s, f.waddr_add, spec_all_some(f.immediate)),
            f.waddr_mul,
            spec_all_some(f.immediate),
        )
    } else {
        spec_apply_write_a(
            spec_apply_write_b(s, f.waddr_add, spec_all_some(f.immediate)),
            f.waddr_mul,
            spec_all_some(f.immediate),
        )
    }
}

/// Whether a branch's exact retire state is pinned: a condition the taxonomy
/// names, and a register operand in range wherever one is actually read.
pub open spec fn spec_covered_branch(s: QPUState, f: InstFormatBranch) -> bool {
    &&& spec_branch_cond_ok(f.cond_br)
    &&& (spec_branch_taken(s, f.cond_br) && f.reg != 0 ==> f.raddr_a < 32)
}

/// The state a branch retires to: the program counter loads the target where
/// the condition holds, and a uniforms-port operand address advances the
/// pointer.
pub open spec fn spec_branch_retire(s: QPUState, f: InstFormatBranch) -> QPUState {
    let new_pc = if spec_branch_taken(s, f.cond_br) {
        let v = if f.reg != 0 {
            s.reg_ra[16 * (f.raddr_a as int)]
        } else {
            f.immediate
        };
        let t = spec_branch_target(s.pc, f.rel, v);
        if t < 0 {
            usize::MAX as int
        } else {
            t
        }
    } else {
        s.pc
    };
    let s1 = QPUState { pc: new_pc, ..s };
    if f.raddr_a == RA_UNIFORM_READ {
        QPUState { uniform_ptr: (s.uniform_ptr + 4) as u32, ..s1 }
    } else {
        s1
    }
}

/// Whether a decoded instruction confines itself to plain per-lane storage:
/// registers and accumulators only, so no port can fault and the program
/// counter only advances.
pub open spec fn spec_static_safe_inst(i: InstFormat) -> bool {
    match i {
        InstFormat::Alu(f) => spec_plain_alu(f),
        InstFormat::AluSmallImm(f) => spec_plain_si(f),
        InstFormat::Branch(_f) => false,
        InstFormat::LoadImm32(f) => spec_plain_write(f.waddr_add) && spec_plain_write(f.waddr_mul),
        InstFormat::LoadImmPerElemSigned(f) => f.cond_add < 8 && f.cond_mul < 8 && spec_plain_write(
            f.waddr_add,
        ) && spec_plain_write(f.waddr_mul),
        InstFormat::LoadImmPerElemUnsigned(f) => f.cond_add < 8 && f.cond_mul < 8
            && spec_plain_write(f.waddr_add) && spec_plain_write(f.waddr_mul),
        InstFormat::Semaphore(_f) => true,
    }
}

/// An all-masked vector write leaves the register file as it was.
proof fn lemma_set_vec_none(regs: Seq<u32>, idx: int, vals: Seq<Option<u32>>)
    requires
        forall|j: int| 0 <= j < 16 ==> vals[j] is None,
    ensures
        spec_set_vec(regs, 16, idx, vals) =~= regs,
{
}

/// Convert a growable lane vector into the fixed 16-lane array the write
/// ports take.
fn options_to_array(v: &Vec<Option<u32>>) -> (r: [Option<u32>; 16])
    requires
        v@.len() == 16,
    ensures
        r@ == v@,
{
    let r = [
        v[0],
        v[1],
        v[2],
        v[3],
        v[4],
        v[5],
        v[6],
        v[7],
        v[8],
        v[9],
        v[10],
        v[11],
        v[12],
        v[13],
        v[14],
        v[15],
    ];
    proof {
        assert(r@ =~= v@);
    }
    r
}

impl QPUEmu {
    /// Read one lane of both banks for an ALU instruction; only the A and B
    /// read ports named by the instruction are consulted.
    fn read_operands(&mut self, elem: usize, raddr_a: u8, raddr_b: u8) -> (r: Result<
        (u32, u32),
        EmuError,
    >)
        requires
            old(self).wf(),
            elem < 16,
        ensures
            final(self).wf(),
            spec_plain_read_a(raddr_a) && spec_plain_read_b(raddr_b) ==> r is Ok && final(self)@
                == old(self)@ && r->Ok_0.0 == spec_lane_read_a(old(self)@, elem as int, raddr_a)
                && r->Ok_0.1 == spec_lane_read_b(old(self)@, elem as int, raddr_b),
            spec_cov_read_a(raddr_a) && spec_cov_read_b(raddr_b) && !(raddr_a
                == crate::constants::RA_VPM_READ && raddr_b == crate::constants::RB_VPM_READ)
                ==> {
                &&& (r is Ok <==> spec_read_a_ok(old(self)@, elem as int, raddr_a)
                    && spec_read_b_ok(old(self)@, elem as int, raddr_b))
                &&& (r is Ok ==> r->Ok_0.0 == spec_read_a_val(old(self)@, elem as int, raddr_a)
                    && r->Ok_0.1 == spec_read_b_val(old(self)@, elem as int, raddr_b)
                    && final(self)@ == (if (raddr_a == crate::constants::RA_VPM_READ || raddr_b
                    == crate::constants::RB_VPM_READ) && elem == 15 {
                    QPUState {
                        vpm_read: crate::processor::spec_vpm_read_advanced(
                            old(self)@.vpm_read,
                            15,
                        ),
                        ..old(self)@
                    }
                } else {
                    old(self)@
                }))
            },
            (QPUState {
                vpm_read: (VPMRead { num: 0, stride: 0, horizontal: true, laned: false, size: 0, addr: 0 }),
                ..final(self)@
            }) == (QPUState {
                vpm_read: (VPMRead { num: 0, stride: 0, horizontal: true, laned: false, size: 0, addr: 0 }),
                ..old(self)@
            }),
    {
        let av = match self.read_ra(elem, raddr_a) {
            Ok(v) => v,
            Err(e) => {
                return Err(e);
            },
        };
        let bv = match self.read_rb(elem, raddr_b) {
            Ok(v) => v,
            Err(e) => {
                return Err(e);
            },
        };
        Ok((av, bv))
    }

    /// Select the A operand of one ALU lane from the mux set
    /// `{R0..R5, A-read, B-read}`.
    pub fn mux_add_a(&self, elem: usize, sel: u8, val: u32, rb_val: u32) -> (r: u32)
        requires
            self.wf(),
            elem < 16,
            sel < 8,
        ensures
            r == spec_mux_val(self@, elem as int, sel, val, rb_val),
    {
        if sel <= 5 {
            self.get_acc(elem, sel as usize)
        } else if sel == 6 {
            val
        } else {
            rb_val
        }
    }

    /// Select the B operand of one ALU lane; the mux set is the same on both
    /// sides.
    pub fn mux_add_b(&self, elem: usize, sel: u8, val: u32, rb_val: u32) -> (r: u32)
        requires
            self.wf(),
            elem < 16,
            sel < 8,
        ensures
            r == spec_mux_val(self@, elem as int, sel, val, rb_val),
    {
        self.mux_add_a(elem, sel, val, rb_val)
    }

    /// Carry out one dual-issue ALU instruction: evaluate both pipelines'
    /// conditions per lane, read the named ports once per lane, compute, set
    /// flags where requested (the add result wins where both execute), write
    /// both results back predicated, advance the uniforms pointer once if
    /// either read named the uniforms port, and drain the TMU on its signal.
    #[verifier::rlimit(100)]
    pub fn execute_alu(&mut self, fields: &InstFormatAlu) -> (r: Result<(), EmuError>)
        requires
            old(self).wf(),
        ensures
            final(self).wf(),
            final(self)@.insts == old(self)@.insts,
            final(self)@.slots == old(self)@.slots,
            final(self)@.breakpoints == old(self)@.breakpoints,
            final(self)@.pc == old(self)@.pc,
            r is Ok && fields.sf == 0 ==> final(self)@.zf == old(self)@.zf && final(self)@.nf == old(self)@.nf && final(self)@.cf == old(self)@.cf,
            r is Ok && (fields.cond_add == COND_NEVER || fields.op_add == ADDOP_NOP) && fields.ws
                == 0 ==> final(self)@.reg_ra == old(self)@.reg_ra,
            r is Ok && (fields.cond_add == COND_NEVER || fields.op_add == ADDOP_NOP) && fields.ws
                != 0 ==> final(self)@.reg_rb == old(self)@.reg_rb,
            r is Ok && (fields.cond_mul == COND_NEVER || fields.op_mul == MULOP_NOP) && fields.ws
                == 0 ==> final(self)@.reg_rb == old(self)@.reg_rb,
            r is Ok && (fields.cond_mul == COND_NEVER || fields.op_mul == MULOP_NOP) && fields.ws
                != 0 ==> final(self)@.reg_ra == old(self)@.reg_ra,
            r is Ok && fields.waddr_add != WA_UNIFORMS_ADDRESS && fields.waddr_mul
                != WA_UNIFORMS_ADDRESS ==> final(self)@.uniform_ptr as int == (if fields.raddr_a
                == RA_UNIFORM_READ || fields.raddr_b == RB_UNIFORM_READ {
                old(self)@.uniform_ptr + 4
            } else {
                old(self)@.uniform_ptr as int
            }),
            spec_covered_alu(*fields) ==> (r is Ok <==> spec_alu_ports_ok(old(self)@, *fields)),
            spec_covered_alu(*fields) && spec_alu_ports_ok(old(self)@, *fields) ==> final(self)@
                == spec_alu_retire(old(self)@, *fields),
            spec_plain_alu(*fields) ==> r is Ok && final(self)@ == spec_plain_alu_post(
                old(self)@,
                *fields,
            ),
    {
        if fields.cond_add >= 8 || fields.cond_mul >= 8 {
            return Err(EmuError::AddressRange);
        }
        if fields.add_a >= 8 || fields.add_b >= 8 || fields.mul_a >= 8 || fields.mul_b >= 8 {
            return Err(EmuError::AddressRange);
        }
        let ghost s0 = self@;
        let ghost f = *fields;

        let mut add_results: Vec<Option<u32>> = Vec::new();
        let mut mul_results: Vec<Option<u32>> = Vec::new();
        let mut elem: usize = 0;
        while elem < 16
            invariant
                elem <= 16,
                self.wf(),
                f == *fields,
                f.cond_add < 8,
                f.cond_mul < 8,
                f.add_a < 8,
                f.add_b < 8,
                f.mul_a < 8,
                f.mul_b < 8,
                s0 == old(self)@,
                add_results@.len() == elem,
                mul_results@.len() == elem,
                (QPUState {
                    zf: Seq::<bool>::empty(),
                    nf: Seq::<bool>::empty(),
                    cf: Seq::<bool>::empty(),
                    vpm_read: (VPMRead {
                        num: 0,
                        stride: 0,
                        horizontal: true,
                        laned: false,
                        size: 0,
                        addr: 0,
                    }),
                    ..self@
                }) == (QPUState {
                    zf: Seq::<bool>::empty(),
                    nf: Seq::<bool>::empty(),
                    cf: Seq::<bool>::empty(),
                    vpm_read: (VPMRead {
                        num: 0,
                        stride: 0,
                        horizontal: true,
                        laned: false,
                        size: 0,
                        addr: 0,
                    }),
                    ..s0
                }),
                self@.zf.len() == 16 && self@.nf.len() == 16 && self@.cf.len() == 16,
                f.sf == 0 ==> self@.zf == s0.zf && self@.nf == s0.nf && self@.cf == s0.cf,
                forall|j: int| elem <= j < 16 ==> self@.zf[j] == s0.zf[j],
                forall|j: int| elem <= j < 16 ==> self@.nf[j] == s0.nf[j],
                forall|j: int| elem <= j < 16 ==> self@.cf[j] == s0.cf[j],
                (f.cond_add == COND_NEVER || f.op_add == ADDOP_NOP) ==> forall|j: int|
                    0 <= j < elem ==> add_results@[j] is None,
                (f.cond_mul == COND_NEVER || f.op_mul == MULOP_NOP) ==> forall|j: int|
                    0 <= j < elem ==> mul_results@[j] is None,
                spec_covered_alu(f) ==> self@.vpm_read == (if (f.raddr_a
                    == crate::constants::RA_VPM_READ || f.raddr_b == crate::constants::RB_VPM_READ)
                    && elem == 16 {
                    crate::processor::spec_vpm_read_advanced(s0.vpm_read, 15)
                } else {
                    s0.vpm_read
                }),
                spec_covered_alu(f) ==> forall|j: int|
                    0 <= j < elem ==> spec_read_a_ok(s0, j, f.raddr_a) && spec_read_b_ok(
                        s0,
                        j,
                        f.raddr_b,
                    ),
                spec_covered_alu(f) && spec_alu_ports_ok(s0, f) ==> {
                    &&& (forall|j: int| 0 <= j < elem ==> add_results@[j] == spec_alu_add_result(s0, f, j))
                    &&& (forall|j: int| 0 <= j < elem ==> mul_results@[j] == spec_alu_mul_result(s0, f, j))
                    &&& (forall|j: int| 0 <= j < elem ==> self@.zf[j] == spec_alu_zf(s0, f, j))
                    &&& (forall|j: int| 0 <= j < elem ==> self@.nf[j] == spec_alu_nf(s0, f, j))
                    &&& (forall|j: int| 0 <= j < elem ==> self@.cf[j] == spec_alu_cf(s0, f, j))
                },
            decreases 16 - elem,
        {
            let do_add = eval_cond(
                fields.cond_add,
                self.z_flag(elem),
                self.n_flag(elem),
                self.c_flag(elem),
            ) && fields.op_add != ADDOP_NOP;
            let do_mul = eval_cond(
                fields.cond_mul,
                self.z_flag(elem),
                self.n_flag(elem),
                self.c_flag(elem),
            ) && fields.op_mul != MULOP_NOP;

            let ghost pre = self@;
            let (ra_val, rb_val) = match self.read_operands(elem, fields.raddr_a, fields.raddr_b) {
                Ok(p) => p,
                Err(e) => {
                    proof {
                        if spec_covered_alu(f) {
                            assert(pre.mem == s0.mem && pre.uniform_ptr == s0.uniform_ptr
                                && pre.vpm_read == s0.vpm_read);
                            assert(spec_read_a_ok(pre, elem as int, f.raddr_a) == spec_read_a_ok(
                                s0,
                                elem as int,
                                f.raddr_a,
                            ));
                            assert(spec_read_b_ok(pre, elem as int, f.raddr_b) == spec_read_b_ok(
                                s0,
                                elem as int,
                                f.raddr_b,
                            ));
                            assert(!spec_alu_ports_ok(s0, f));
                        }
                    }
                    return Err(e);
                },
            };

            let mut added = false;
            if do_add {
                let a = self.mux_add_a(elem, fields.add_a, ra_val, rb_val);
                let b = self.mux_add_b(elem, fields.add_b, ra_val, rb_val);
                let add_result = match QPUEmu::perform_add_alu(fields.op_add, a, b) {
                    Ok(v) => v,
                    Err(e) => {
                        return Err(e);
                    },
                };
                add_results.push(Some(add_result));
                added = true;
                if fields.sf != 0 {
                    self.set_flag(add_result, elem);
                }
            } else {
                add_results.push(None);
            }

            if do_mul {
                let a = self.mux_add_a(elem, fields.mul_a, ra_val, rb_val);
                let b = self.mux_add_b(elem, fields.mul_b, ra_val, rb_val);
                let mul_result = match QPUEmu::perform_mul_alu(fields.op_mul, a, b) {
                    Ok(v) => v,
                    Err(e) => {
                        return Err(e);
                    },
                };
                mul_results.push(Some(mul_result));
                if fields.sf != 0 && !added {
                    self.set_flag(mul_result, elem);
                }
            } else {
                mul_results.push(None);
            }
            elem = elem + 1;
        }

        let add_arr = options_to_array(&add_results);
        let mul_arr = options_to_array(&mul_results);
        let ghost s_flags = self@;
        if fields.ws == 0 {
            match self.write_ra(fields.waddr_add, &add_arr) {
                Ok(()) => (),
                Err(e) => {
                    return Err(e);
                },
            }
            match self.write_rb(fields.waddr_mul, &mul_arr) {
                Ok(()) => (),
                Err(e) => {
                    return Err(e);
                },
            }
        } else {
            match self.write_rb(fields.waddr_add, &add_arr) {
                Ok(()) => (),
                Err(e) => {
                    return Err(e);
                },
            }
            match self.write_ra(fields.waddr_mul, &mul_arr) {
                Ok(()) => (),
                Err(e) => {
                    return Err(e);
                },
            }
        }
        proof {
            if fields.cond_add == COND_NEVER || fields.op_add == ADDOP_NOP {
                lemma_set_vec_none(s0.reg_ra, f.waddr_add as int, add_arr@);
                lemma_set_vec_none(s0.reg_rb, f.waddr_add as int, add_arr@);
                lemma_set_vec_none(s_flags.reg_ra, f.waddr_add as int, add_arr@);
                lemma_set_vec_none(s_flags.reg_rb, f.waddr_add as int, add_arr@);
            }
            if fields.cond_mul == COND_NEVER || fields.op_mul == MULOP_NOP {
                lemma_set_vec_none(self@.reg_ra, f.waddr_mul as int, mul_arr@);
                lemma_set_vec_none(self@.reg_rb, f.waddr_mul as int, mul_arr@);
            }
            if spec_covered_alu(f) && spec_alu_ports_ok(s0, f) {
                let cursor = if f.raddr_a == crate::constants::RA_VPM_READ || f.raddr_b
                    == crate::constants::RB_VPM_READ {
                    crate::processor::spec_vpm_read_advanced(s0.vpm_read, 15)
                } else {
                    s0.vpm_read
                };
                assert(add_arr@ =~= Seq::new(16, |e: int| spec_alu_add_result(s0, f, e)));
                assert(mul_arr@ =~= Seq::new(16, |e: int| spec_alu_mul_result(s0, f, e)));
                assert(s_flags.zf =~= Seq::new(16, |e: int| spec_alu_zf(s0, f, e)));
                assert(s_flags.nf =~= Seq::new(16, |e: int| spec_alu_nf(s0, f, e)));
                assert(s_flags.cf =~= Seq::new(16, |e: int| spec_alu_cf(s0, f, e)));
                assert(s_flags == (QPUState {
                    vpm_read: cursor,
                    zf: Seq::new(16, |e: int| spec_alu_zf(s0, f, e)),
                    nf: Seq::new(16, |e: int| spec_alu_nf(s0, f, e)),
                    cf: Seq::new(16, |e: int| spec_alu_cf(s0, f, e)),
                    ..s0
                }));
                assert(self@ == (QPUState { vpm_read: cursor, ..spec_plain_alu_post(s0, f) }));
            }
        }

        if fields.raddr_a == RA_UNIFORM_READ || fields.raddr_b == RB_UNIFORM_READ {
            if self.uniform_pointer() > 0xFFFF_FFFB {
                proof {
                    if spec_covered_alu(f) {
                        assert(!spec_alu_ports_ok(s0, f));
                    }
                }
                return Err(EmuError::PointerOverflow);
            }
            self.advance_uniform_pointer();
        }
        proof {
            if spec_covered_alu(f) && spec_alu_ports_ok(s0, f) {
                assert(self@ == spec_alu_retire(s0, f));
            }
        }

        if fields.sig == SIG_LDTMU0 {
            match self.execute_tmu0_load() {
                Ok(()) => (),
                Err(e) => {
                    return Err(e);
                },
            }
        }
        Ok(())
    }

    /// Carry out one small-immediate ALU instruction: as `execute_alu`, but
    /// the B-side read is the decoded 6-bit immediate, and each source lane's
    /// result (and requested flag update) lands `rot` lanes up — so a lane's
    /// conditions can read flags an earlier source lane already republished.
    #[verifier::rlimit(100)]
    pub fn execute_alu_small_imm(&mut self, fields: &InstFormatAluSmallImm) -> (r: Result<
        (),
        EmuError,
    >)
        requires
            old(self).wf(),
        ensures
            final(self).wf(),
            final(self)@.insts == old(self)@.insts,
            final(self)@.slots == old(self)@.slots,
            final(self)@.breakpoints == old(self)@.breakpoints,
            final(self)@.pc == old(self)@.pc,
            r is Ok && fields.sf == 0 ==> final(self)@.zf == old(self)@.zf && final(self)@.nf
                == old(self)@.nf && final(self)@.cf == old(self)@.cf,
            r is Ok && (fields.cond_add == COND_NEVER || fields.op_add == ADDOP_NOP) && fields.ws
                == 0 ==> final(self)@.reg_ra == old(self)@.reg_ra,
            r is Ok && (fields.cond_add == COND_NEVER || fields.op_add == ADDOP_NOP) && fields.ws
                != 0 ==> final(self)@.reg_rb == old(self)@.reg_rb,
            r is Ok && (fields.cond_mul == COND_NEVER || fields.op_mul == MULOP_NOP) && fields.ws
                == 0 ==> final(self)@.reg_rb == old(self)@.reg_rb,
            r is Ok && (fields.cond_mul == COND_NEVER || fields.op_mul == MULOP_NOP) && fields.ws
                != 0 ==> final(self)@.reg_ra == old(self)@.reg_ra,
            r is Ok && fields.waddr_add != WA_UNIFORMS_ADDRESS && fields.waddr_mul
                != WA_UNIFORMS_ADDRESS ==> final(self)@.uniform_ptr as int == (if fields.raddr_a
                == RA_UNIFORM_READ {
                old(self)@.uniform_ptr + 4
            } else {
                old(self)@.uniform_ptr as int
            }),
            fields.small_immed < 64 && spec_decode_small_imm(fields.small_immed) is Err ==> r
                == Err::<(), EmuError>(EmuError::Unimplemented),
            spec_covered_si(*fields) ==> (r is Ok <==> spec_si_ports_ok(old(self)@, *fields)),
            spec_covered_si(*fields) && spec_si_ports_ok(old(self)@, *fields) ==> final(self)@
                == spec_si_retire(old(self)@, *fields),
    {
        if fields.small_immed >= 64 {
            return Err(EmuError::Decode);
        }
        let (rb_val, rotate) = match QPUEmu::decode_small_imm(fields.small_immed) {
            Ok(p) => p,
            Err(e) => {
                return Err(e);
            },
        };
        if fields.cond_add >= 8 || fields.cond_mul >= 8 {
            return Err(EmuError::AddressRange);
        }
        if fields.add_a >= 8 || fields.add_b >= 8 || fields.mul_a >= 8 || fields.mul_b >= 8 {
            return Err(EmuError::AddressRange);
        }
        let ghost s0 = self@;
        let ghost f = *fields;
        let ghost rot = rotate as int;
        proof {
            assert(rotate < 16);
        }

        let mut add_results: Vec<Option<u32>> = Vec::new();
        let mut mul_results: Vec<Option<u32>> = Vec::new();
        let mut i: usize = 0;
        while i < 16
            invariant
                add_results@.len() == i,
                mul_results@.len() == i,
                i <= 16,
                forall|j: int| 0 <= j < i ==> add_results@[j] is None && mul_results@[j] is None,
            decreases 16 - i,
        {
            add_results.push(None);
            mul_results.push(None);
            i = i + 1;
        }

        let mut elem: usize = 0;
        while elem < 16
            invariant
                elem <= 16,
                self.wf(),
                f == *fields,
                f.cond_add < 8,
                f.cond_mul < 8,
                f.add_a < 8,
                f.add_b < 8,
                f.mul_a < 8,
                f.mul_b < 8,
                rotate < 16,
                rot == rotate as int,
                spec_decode_small_imm(f.small_immed) == Ok::<(u32, usize), EmuError>(
                    (rb_val, rotate),
                ),
                s0 == old(self)@,
                add_results@.len() == 16,
                mul_results@.len() == 16,
                (QPUState {
                    zf: Seq::<bool>::empty(),
                    nf: Seq::<bool>::empty(),
                    cf: Seq::<bool>::empty(),
                    vpm_read: (VPMRead {
                        num: 0,
                        stride: 0,
                        horizontal: true,
                        laned: false,
                        size: 0,
                        addr: 0,
                    }),
                    ..self@
                }) == (QPUState {
                    zf: Seq::<bool>::empty(),
                    nf: Seq::<bool>::empty(),
                    cf: Seq::<bool>::empty(),
                    vpm_read: (VPMRead {
                        num: 0,
                        stride: 0,
                        horizontal: true,
                        laned: false,
                        size: 0,
                        addr: 0,
                    }),
                    ..s0
                }),
                self@.zf.len() == 16 && self@.nf.len() == 16 && self@.cf.len() == 16,
                f.sf == 0 ==> self@.zf == s0.zf && self@.nf == s0.nf && self@.cf == s0.cf,
                (f.cond_add == COND_NEVER || f.op_add == ADDOP_NOP) ==> forall|j: int|
                    0 <= j < 16 ==> add_results@[j] is None,
                (f.cond_mul == COND_NEVER || f.op_mul == MULOP_NOP) ==> forall|j: int|
                    0 <= j < 16 ==> mul_results@[j] is None,
                spec_covered_si(f) ==> self@.vpm_read == (if f.raddr_a
                    == crate::constants::RA_VPM_READ && elem == 16 {
                    crate::processor::spec_vpm_read_advanced(s0.vpm_read, 15)
                } else {
                    s0.vpm_read
                }),
                spec_covered_si(f) ==> forall|j: int|
                    0 <= j < elem ==> spec_read_a_ok(s0, j, f.raddr_a),
                spec_covered_si(f) && spec_si_ports_ok(s0, f) ==> {
                    &&& (forall|j: int|
                        0 <= j < 16 ==> add_results@[j] == (if spec_rot_src(j, rot) < elem {
                            spec_si_add_res(s0, f, rb_val, rot, spec_rot_src(j, rot))
                        } else {
                            None
                        }))
                    &&& (forall|j: int|
                        0 <= j < 16 ==> mul_results@[j] == (if spec_rot_src(j, rot) < elem {
                            spec_si_mul_res(s0, f, rb_val, rot, spec_rot_src(j, rot))
                        } else {
                            None
                        }))
                    &&& (forall|j: int|
                        0 <= j < 16 ==> self@.zf[j] == (if f.sf != 0 && spec_rot_src(j, rot)
                            < elem {
                            match spec_si_flag_value(s0, f, rb_val, rot, spec_rot_src(j, rot)) {
                                Some(v) => v == 0,
                                None => s0.zf[j],
                            }
                        } else {
                            s0.zf[j]
                        }))
                    &&& (forall|j: int|
                        0 <= j < 16 ==> self@.nf[j] == (if f.sf != 0 && spec_rot_src(j, rot)
                            < elem {
                            match spec_si_flag_value(s0, f, rb_val, rot, spec_rot_src(j, rot)) {
                                Some(v) => v >= 0x8000_0000,
                                None => s0.nf[j],
                            }
                        } else {
                            s0.nf[j]
                        }))
                    &&& (forall|j: int|
                        0 <= j < 16 ==> self@.cf[j] == (if f.sf != 0 && spec_rot_src(j, rot)
                            < elem {
                            match spec_si_flag_value(s0, f, rb_val, rot, spec_rot_src(j, rot)) {
                                Some(_v) => false,
                                None => s0.cf[j],
                            }
                        } else {
                            s0.cf[j]
                        }))
                },
            decreases 16 - elem,
        {
            proof {
                reveal(spec_si_add_res);
                reveal(spec_si_mul_res);
                reveal(spec_si_flag_value);
                lemma_rot_round(elem as int, rot);
                if spec_covered_si(f) && spec_si_ports_ok(s0, f) {
                    lemma_si_ctx_at_lane(s0, f, rb_val, rot, elem as int);
                }
            }
            let ghost ctx = spec_si_ctx(s0, f, rb_val, rot, elem as int);
            let do_add = eval_cond(
                fields.cond_add,
                self.z_flag(elem),
                self.n_flag(elem),
                self.c_flag(elem),
            ) && fields.op_add != ADDOP_NOP;
            let do_mul = eval_cond(
                fields.cond_mul,
                self.z_flag(elem),
                self.n_flag(elem),
                self.c_flag(elem),
            ) && fields.op_mul != MULOP_NOP;

            let ghost pre = self@;
            let (ra_val, _zero) = match self.read_operands(elem, fields.raddr_a, RB_NOP) {
                Ok(p) => p,
                Err(e) => {
                    proof {
                        if spec_covered_si(f) {
                            assert(pre.mem == s0.mem && pre.uniform_ptr == s0.uniform_ptr
                                && pre.vpm_read == s0.vpm_read);
                            assert(spec_read_a_ok(pre, elem as int, f.raddr_a) == spec_read_a_ok(
                                s0,
                                elem as int,
                                f.raddr_a,
                            ));
                            assert(!spec_si_ports_ok(s0, f));
                        }
                    }
                    return Err(e);
                },
            };
            let rotated_elem = (elem + rotate) % 16;

            let mut added = false;
            if do_add {
                let a = self.mux_add_a(elem, fields.add_a, ra_val, rb_val);
                let b = self.mux_add_b(elem, fields.add_b, ra_val, rb_val);
                let add_result = match QPUEmu::perform_add_alu(fields.op_add, a, b) {
                    Ok(v) => v,
                    Err(e) => {
                        return Err(e);
                    },
                };
                add_results[rotated_elem] = Some(add_result);
                added = true;
                if fields.sf != 0 {
                    self.set_flag(add_result, rotated_elem);
                }
            }
            if do_mul {
                let a = self.mux_add_a(elem, fields.mul_a, ra_val, rb_val);
                let b = self.mux_add_b(elem, fields.mul_b, ra_val, rb_val);
                let mul_result = match QPUEmu::perform_mul_alu(fields.op_mul, a, b) {
                    Ok(v) => v,
                    Err(e) => {
                        return Err(e);
                    },
                };
                mul_results[rotated_elem] = Some(mul_result);
                if fields.sf != 0 && !added {
                    self.set_flag(mul_result, rotated_elem);
                }
            }
            elem = elem + 1;
        }

        let add_arr = options_to_array(&add_results);
        let mul_arr = options_to_array(&mul_results);
        let ghost s_flags = self@;
        if fields.ws == 0 {
            match self.write_ra(fields.waddr_add, &add_arr) {
                Ok(()) => (),
                Err(e) => {
                    return Err(e);
                },
            }
            match self.write_rb(fields.waddr_mul, &mul_arr) {
                Ok(()) => (),
                Err(e) => {
                    return Err(e);
                },
            }
        } else {
            match self.write_rb(fields.waddr_add, &add_arr) {
                Ok(()) => (),
                Err(e) => {
                    return Err(e);
                },
            }
            match self.write_ra(fields.waddr_mul, &mul_arr) {
                Ok(()) => (),
                Err(e) => {
                    return Err(e);
                },
            }
        }
        proof {
            if fields.cond_add == COND_NEVER || fields.op_add == ADDOP_NOP {
                lemma_set_vec_none(s0.reg_ra, f.waddr_add as int, add_arr@);
                lemma_set_vec_none(s0.reg_rb, f.waddr_add as int, add_arr@);
                lemma_set_vec_none(s_flags.reg_ra, f.waddr_add as int, add_arr@);
                lemma_set_vec_none(s_flags.reg_rb, f.waddr_add as int, add_arr@);
            }
            if fields.cond_mul == COND_NEVER || fields.op_mul == MULOP_NOP {
                lemma_set_vec_none(self@.reg_ra, f.waddr_mul as int, mul_arr@);
                lemma_set_vec_none(self@.reg_rb, f.waddr_mul as int, mul_arr@);
            }
            if spec_covered_si(f) && spec_si_ports_ok(s0, f) {
                let cursor = if f.raddr_a == crate::constants::RA_VPM_READ {
                    crate::processor::spec_vpm_read_advanced(s0.vpm_read, 15)
                } else {
                    s0.vpm_read
                };
                reveal(spec_si_flag_value);
                assert forall|j: int| 0 <= j < 16 implies 0 <= #[trigger] spec_rot_src(j, rot)
                    < 16 by {
                    assert(0 <= (j + 16 - rot) % 16 < 16);
                }
                assert(add_arr@ =~= Seq::new(
                    16,
                    |j: int| spec_si_add_res(s0, f, rb_val, rot, spec_rot_src(j, rot)),
                ));
                assert(mul_arr@ =~= Seq::new(
                    16,
                    |j: int| spec_si_mul_res(s0, f, rb_val, rot, spec_rot_src(j, rot)),
                ));
                assert(s_flags.zf =~= Seq::new(
                    16,
                    |j: int|
                        match spec_si_flag_value(s0, f, rb_val, rot, spec_rot_src(j, rot)) {
                            Some(v) => v == 0,
                            None => s0.zf[j],
                        },
                ));
                assert(s_flags.nf =~= Seq::new(
                    16,
                    |j: int|
                        match spec_si_flag_value(s0, f, rb_val, rot, spec_rot_src(j, rot)) {
                            Some(v) => v >= 0x8000_0000,
                            None => s0.nf[j],
                        },
                ));
                assert(s_flags.cf =~= Seq::new(
                    16,
                    |j: int|
                        match spec_si_flag_value(s0, f, rb_val, rot, spec_rot_src(j, rot)) {
                            Some(_v) => false,
                            None => s0.cf[j],
                        },
                ));
                assert(s_flags == (QPUState {
                    vpm_read: cursor,
                    zf: Seq::new(
                        16,
                        |j: int|
                            match spec_si_flag_value(s0, f, rb_val, rot, spec_rot_src(j, rot)) {
                                Some(v) => v == 0,
                                None => s0.zf[j],
                            },
                    ),
                    nf: Seq::new(
                        16,
                        |j: int|
                            match spec_si_flag_value(s0, f, rb_val, rot, spec_rot_src(j, rot)) {
                                Some(v) => v >= 0x8000_0000,
                                None => s0.nf[j],
                            },
                    ),
                    cf: Seq::new(
                        16,
                        |j: int|
                            match spec_si_flag_value(s0, f, rb_val, rot, spec_rot_src(j, rot)) {
                                Some(_v) => false,
                                None => s0.cf[j],
                            },
                    ),
                    ..s0
                }));
                assert(self@ == (QPUState { vpm_read: cursor, ..spec_si_post(s0, f) }));
            }
        }

        if fields.raddr_a == RA_UNIFORM_READ {
            if self.uniform_pointer() > 0xFFFF_FFFB {
                proof {
                    if spec_covered_si(f) {
                        assert(!spec_si_ports_ok(s0, f));
                    }
                }
                return Err(EmuError::PointerOverflow);
            }
            self.advance_uniform_pointer();
        }
        proof {
            if spec_covered_si(f) && spec_si_ports_ok(s0, f) {
                assert(self@ == spec_si_retire(s0, f));
            }
        }
        Ok(())
    }

    /// Broadcast a 32-bit literal to all lanes of both writeback targets,
    /// unconditionally: the load ignores condition codes and never sets flags.
    pub fn execute_load_imm32(&mut self, fields: &InstFormatLoadImm32) -> (r: Result<(), EmuError>)
        requires
            old(self).wf(),
        ensures
            final(self).wf(),
            final(self)@.insts == old(self)@.insts,
            final(self)@.slots == old(self)@.slots,
            final(self)@.breakpoints == old(self)@.breakpoints,
            final(self)@.pc == old(self)@.pc,
            r is Ok ==> final(self)@.zf == old(self)@.zf && final(self)@.nf == old(self)@.nf
                && final(self)@.cf == old(self)@.cf,
            r is Ok && fields.waddr_add != WA_UNIFORMS_ADDRESS && fields.waddr_mul
                != WA_UNIFORMS_ADDRESS ==> final(self)@.uniform_ptr == old(self)@.uniform_ptr,
            spec_plain_write(fields.waddr_add) && spec_plain_write(fields.waddr_mul) ==> r is Ok
                && final(self)@ == spec_li32_post(old(self)@, *fields),
    {
        let vals: [Option<u32>; 16] = [
            Some(fields.immediate),
            Some(fields.immediate),
            Some(fields.immediate),
            Some(fields.immediate),
            Some(fields.immediate),
            Some(fields.immediate),
            Some(fields.immediate),
            Some(fields.immediate),
            Some(fields.immediate),
            Some(fields.immediate),
            Some(fields.immediate),
            Some(fields.immediate),
            Some(fields.immediate),
            Some(fields.immediate),
            Some(fields.immediate),
            Some(fields.immediate),
        ];
        proof {
            assert(vals@ =~= spec_all_some(fields.immediate));
        }
        if fields.ws == 0 {
            match self.write_ra(fields.waddr_add, &vals) {
                Ok(()) => (),
                Err(e) => {
                    return Err(e);
                },
            }
            match self.write_rb(fields.waddr_mul, &vals) {
                Ok(()) => (),
                Err(e) => {
                    return Err(e);
                },
            }
        } else {
            match self.write_rb(fields.waddr_add, &vals) {
                Ok(()) => (),
                Err(e) => {
                    return Err(e);
                },
            }
            match self.write_ra(fields.waddr_mul, &vals) {
                Ok(()) => (),
                Err(e) => {
                    return Err(e);
                },
            }
        }
        Ok(())
    }

    /// Load each lane's two mask bits as a small signed or unsigned value,
    /// predicated per lane by both condition codes, with the add pipeline
    /// taking precedence for a requested flag update.
    pub fn execute_load_imm_per_elem(
        &mut self,
        fields: &InstFormatLoadImmPerElem,
        signed: bool,
    ) -> (r: Result<(), EmuError>)
        requires
            old(self).wf(),
        ensures
            final(self).wf(),
            final(self)@.insts == old(self)@.insts,
            final(self)@.slots == old(self)@.slots,
            final(self)@.breakpoints == old(self)@.breakpoints,
            final(self)@.pc == old(self)@.pc,
            fields.cond_add >= 8 || fields.cond_mul >= 8 ==> r == Err::<(), EmuError>(
                EmuError::AddressRange,
            ) && final(self)@ == old(self)@,
            r is Ok && fields.sf == 0 ==> final(self)@.zf == old(self)@.zf && final(self)@.nf == old(self)@.nf && final(self)@.cf == old(self)@.cf,
            r is Ok && fields.waddr_add != WA_UNIFORMS_ADDRESS && fields.waddr_mul
                != WA_UNIFORMS_ADDRESS ==> final(self)@.uniform_ptr == old(self)@.uniform_ptr,
            fields.cond_add < 8 && fields.cond_mul < 8 && spec_plain_write(fields.waddr_add)
                && spec_plain_write(fields.waddr_mul) ==> r is Ok && final(self)@
                == spec_plain_pe_post(old(self)@, *fields, signed),
    {
        if fields.cond_add >= 8 || fields.cond_mul >= 8 {
            return Err(EmuError::AddressRange);
        }
        let ghost s0 = self@;
        let ghost f = *fields;

        let mut add_results: Vec<Option<u32>> = Vec::new();
        let mut mul_results: Vec<Option<u32>> = Vec::new();
        let mut elem: usize = 0;
        while elem < 16
            invariant
                elem <= 16,
                self.wf(),
                f == *fields,
                f.cond_add < 8,
                f.cond_mul < 8,
                s0 == old(self)@,
                add_results@.len() == elem,
                mul_results@.len() == elem,
                (QPUState {
                    zf: Seq::<bool>::empty(),
                    nf: Seq::<bool>::empty(),
                    cf: Seq::<bool>::empty(),
                    ..self@
                }) == (QPUState {
                    zf: Seq::<bool>::empty(),
                    nf: Seq::<bool>::empty(),
                    cf: Seq::<bool>::empty(),
                    ..s0
                }),
                self@.zf.len() == 16 && self@.nf.len() == 16 && self@.cf.len() == 16,
                f.sf == 0 ==> self@.zf == s0.zf && self@.nf == s0.nf && self@.cf == s0.cf,
                forall|j: int|
                    0 <= j < elem ==> add_results@[j] == spec_pe_result(
                        s0,
                        f.cond_add,
                        f.per_element_ms_bit,
                        f.per_element_ls_bit,
                        signed,
                        j,
                    ),
                forall|j: int|
                    0 <= j < elem ==> mul_results@[j] == spec_pe_result(
                        s0,
                        f.cond_mul,
                        f.per_element_ms_bit,
                        f.per_element_ls_bit,
                        signed,
                        j,
                    ),
                forall|j: int|
                    0 <= j < 16 ==> self@.zf[j] == (if j < elem && f.sf != 0 {
                        match spec_pe_flag_source(s0, f, signed, j) {
                            Some(v) => v == 0,
                            None => s0.zf[j],
                        }
                    } else {
                        s0.zf[j]
                    }),
                forall|j: int|
                    0 <= j < 16 ==> self@.nf[j] == (if j < elem && f.sf != 0 {
                        match spec_pe_flag_source(s0, f, signed, j) {
                            Some(v) => v >= 0x8000_0000,
                            None => s0.nf[j],
                        }
                    } else {
                        s0.nf[j]
                    }),
                forall|j: int|
                    0 <= j < 16 ==> self@.cf[j] == (if j < elem && f.sf != 0 {
                        match spec_pe_flag_source(s0, f, signed, j) {
                            Some(_v) => false,
                            None => s0.cf[j],
                        }
                    } else {
                        s0.cf[j]
                    }),
            decreases 16 - elem,
        {
            let do_add = eval_cond(
                fields.cond_add,
                self.z_flag(elem),
                self.n_flag(elem),
                self.c_flag(elem),
            );
            let do_mul = eval_cond(
                fields.cond_mul,
                self.z_flag(elem),
                self.n_flag(elem),
                self.c_flag(elem),
            );
            let value = QPUEmu::decode_imm_per_elem(
                fields.per_element_ms_bit,
                fields.per_element_ls_bit,
                signed,
                elem,
            );
            let mut added = false;
            if do_add {
                add_results.push(Some(value));
                added = true;
                if fields.sf != 0 {
                    self.set_flag(value, elem);
                }
            } else {
                add_results.push(None);
            }
            if do_mul {
                mul_results.push(Some(value));
                if fields.sf != 0 && !added {
                    self.set_flag(value, elem);
                }
            } else {
                mul_results.push(None);
            }
            elem = elem + 1;
        }

        let add_arr = options_to_array(&add_results);
        let mul_arr = options_to_array(&mul_results);
        let ghost s_flags = self@;
        if fields.ws == 0 {
            match self.write_ra(fields.waddr_add, &add_arr) {
                Ok(()) => (),
                Err(e) => {
                    return Err(e);
                },
            }
            match self.write_rb(fields.waddr_mul, &mul_arr) {
                Ok(()) => (),
                Err(e) => {
                    return Err(e);
                },
            }
        } else {
            match self.write_rb(fields.waddr_add, &add_arr) {
                Ok(()) => (),
                Err(e) => {
                    return Err(e);
                },
            }
            match self.write_ra(fields.waddr_mul, &mul_arr) {
                Ok(()) => (),
                Err(e) => {
                    return Err(e);
                },
            }
        }
        proof {
            if f.cond_add < 8 && f.cond_mul < 8 && spec_plain_write(f.waddr_add)
                && spec_plain_write(f.waddr_mul) {
                assert(add_arr@ =~= Seq::new(
                    16,
                    |e: int|
                        spec_pe_result(
                            s0,
                            f.cond_add,
                            f.per_element_ms_bit,
                            f.per_element_ls_bit,
                            signed,
                            e,
                        ),
                ));
                assert(mul_arr@ =~= Seq::new(
                    16,
                    |e: int|
                        spec_pe_result(
                            s0,
                            f.cond_mul,
                            f.per_element_ms_bit,
                            f.per_element_ls_bit,
                            signed,
                            e,
                        ),
                ));
                assert(s_flags.zf =~= Seq::new(
                    16,
                    |e: int|
                        match spec_pe_flag_source(s0, f, signed, e) {
                            Some(v) => v == 0,
                            None => s0.zf[e],
                        },
                ));
                assert(s_flags.nf =~= Seq::new(
                    16,
                    |e: int|
                        match spec_pe_flag_source(s0, f, signed, e) {
                            Some(v) => v >= 0x8000_0000,
                            None => s0.nf[e],
                        },
                ));
                assert(s_flags.cf =~= Seq::new(
                    16,
                    |e: int|
                        match spec_pe_flag_source(s0, f, signed, e) {
                            Some(_v) => false,
                            None => s0.cf[e],
                        },
                ));
                assert(self@ == spec_plain_pe_post(s0, f, signed));
            }
        }
        Ok(())
    }

    /// Resolve and take one branch: evaluate the condition as a reduction over
    /// a flag vector, then load the program counter with the absolute or
    /// relative word target; an untaken branch leaves the counter alone.
    pub fn execute_branch(&mut self, fields: &InstFormatBranch) -> (r: Result<(), EmuError>)
        requires
            old(self).wf(),
            old(self)@.pc < 0x4000_0000,
        ensures
            final(self).wf(),
            final(self)@.insts == old(self)@.insts,
            final(self)@.slots == old(self)@.slots,
            final(self)@.breakpoints == old(self)@.breakpoints,
            !spec_branch_cond_ok(fields.cond_br) ==> r == Err::<(), EmuError>(EmuError::Decode)
                && final(self)@ == old(self)@,
            spec_branch_cond_ok(fields.cond_br) && spec_branch_taken(old(self)@, fields.cond_br)
                && fields.reg != 0 && fields.raddr_a >= 32 ==> r == Err::<(), EmuError>(
                EmuError::AddressRange,
            ) && final(self)@ == old(self)@,
            spec_covered_branch(old(self)@, *fields) ==> (r is Ok <==> (fields.raddr_a
                == RA_UNIFORM_READ ==> old(self)@.uniform_ptr + 4 <= u32::MAX)),
            spec_covered_branch(old(self)@, *fields) && (fields.raddr_a == RA_UNIFORM_READ ==> old(
                self,
            )@.uniform_ptr + 4 <= u32::MAX) ==> final(self)@ == spec_branch_retire(
                old(self)@,
                *fields,
            ),
    {
        let c = fields.cond_br;
        if !(c <= 11 || c == COND_BR_ALWAYS) {
            return Err(EmuError::Decode);
        }
        let br = if c == COND_BR_ALWAYS {
            true
        } else if c == COND_BR_ZS {
            reduction_and(self.z_flags().as_slice(), false)
        } else if c == COND_BR_ZC {
            reduction_and(self.z_flags().as_slice(), true)
        } else if c == COND_BR_ANYZS {
            reduction_or(self.z_flags().as_slice(), false)
        } else if c == COND_BR_ANYZC {
            reduction_or(self.z_flags().as_slice(), true)
        } else if c == COND_BR_NS {
            reduction_and(self.n_flags().as_slice(), false)
        } else if c == COND_BR_NC {
            reduction_and(self.n_flags().as_slice(), true)
        } else if c == COND_BR_ANYNS {
            reduction_or(self.n_flags().as_slice(), false)
        } else if c == COND_BR_ANYNC {
            reduction_or(self.n_flags().as_slice(), true)
        } else if c == COND_BR_CS {
            reduction_and(self.c_flags().as_slice(), false)
        } else if c == COND_BR_CC {
            reduction_and(self.c_flags().as_slice(), true)
        } else if c == COND_BR_ANYCS {
            reduction_or(self.c_flags().as_slice(), false)
        } else {
            reduction_or(self.c_flags().as_slice(), true)
        };

        if br {
            if fields.reg != 0 && fields.raddr_a >= 32 {
                return Err(EmuError::AddressRange);
            }
            let br_val: u32 = if fields.reg != 0 {
                self.get_ra(0, fields.raddr_a as usize)
            } else {
                fields.immediate
            };
            let q: i64 = if br_val >= 0x8000_0000 {
                let mag: u64 = 0x1_0000_0000u64 - (br_val as u64);
                -((mag / 8) as i64)
            } else {
                (br_val / 8) as i64
            };
            let t: i64 = if fields.rel == 0 {
                q - 1
            } else {
                (self.program_counter() as i64) + q
            };
            proof {
                assert(t == spec_branch_target(
                    old(self)@.pc,
                    fields.rel,
                    if fields.reg != 0 {
                        old(self)@.reg_ra[16 * (fields.raddr_a as int)]
                    } else {
                        fields.immediate
                    },
                ));
            }
            if t < 0 {
                self.set_pc(usize::MAX);
            } else {
                self.set_pc(t as usize);
            }
        }
        if fields.raddr_a == RA_UNIFORM_READ {
            if self.uniform_pointer() > 0xFFFF_FFFB {
                return Err(EmuError::PointerOverflow);
            }
            self.advance_uniform_pointer();
        }
        Ok(())
    }

    /// A semaphore operation; a no-op in this emulator.
    pub fn execute_semaphore(&mut self, fields: &InstFormatSemaphore) -> (r: Result<(), EmuError>)
        requires
            old(self).wf(),
        ensures
            final(self).wf(),
            r is Ok,
            final(self)@ == old(self)@,
    {
        let _ = fields;
        Ok(())
    }

    /// Dispatch one decoded instruction to its executor. An instruction that
    /// does not write the uniforms-pointer port moves the pointer by exactly
    /// one word where it named the uniforms read port, and not at all
    /// otherwise.
    pub fn execute_inst(&mut self, inst: &InstFormat) -> (r: Result<(), EmuError>)
        requires
            old(self).wf(),
            old(self)@.pc < 0x4000_0000,
        ensures
            final(self).wf(),
            final(self)@.insts == old(self)@.insts,
            final(self)@.slots == old(self)@.slots,
            final(self)@.breakpoints == old(self)@.breakpoints,
            !(inst is Branch) ==> final(self)@.pc == old(self)@.pc,
            ({
                match *inst {
                    InstFormat::Alu(f) => spec_covered_alu(f) ==> ((r is Ok <==> spec_alu_ports_ok(
                        old(self)@,
                        f,
                    )) && (spec_alu_ports_ok(old(self)@, f) ==> final(self)@ == spec_alu_retire(
                        old(self)@,
                        f,
                    ))),
                    InstFormat::AluSmallImm(f) => spec_covered_si(f) ==> ((r is Ok
                        <==> spec_si_ports_ok(old(self)@, f)) && (spec_si_ports_ok(old(self)@, f)
                        ==> final(self)@ == spec_si_retire(old(self)@, f))),
                    InstFormat::Branch(f) => spec_covered_branch(old(self)@, f) ==> ((r is Ok <==> (
                    f.raddr_a == RA_UNIFORM_READ ==> old(self)@.uniform_ptr + 4 <= u32::MAX)) && ((
                    f.raddr_a == RA_UNIFORM_READ ==> old(self)@.uniform_ptr + 4 <= u32::MAX)
                        ==> final(self)@ == spec_branch_retire(old(self)@, f))),
                    InstFormat::LoadImm32(f) => spec_plain_write(f.waddr_add) && spec_plain_write(
                        f.waddr_mul,
                    ) ==> r is Ok && final(self)@ == spec_li32_post(old(self)@, f),
                    InstFormat::LoadImmPerElemSigned(f) => f.cond_add < 8 && f.cond_mul < 8
                        && spec_plain_write(f.waddr_add) && spec_plain_write(f.waddr_mul) ==> r
                        is Ok && final(self)@ == spec_plain_pe_post(old(self)@, f, true),
                    InstFormat::LoadImmPerElemUnsigned(f) => f.cond_add < 8 && f.cond_mul < 8
                        && spec_plain_write(f.waddr_add) && spec_plain_write(f.waddr_mul) ==> r
                        is Ok && final(self)@ == spec_plain_pe_post(old(self)@, f, false),
                    InstFormat::Semaphore(_f) => r is Ok && final(self)@ == old(self)@,
                }
            }),
            r is Ok ==> ({
                match *inst {
                    InstFormat::Alu(f) => f.waddr_add != WA_UNIFORMS_ADDRESS && f.waddr_mul
                        != WA_UNIFORMS_ADDRESS ==> final(self)@.uniform_ptr as int == (
                    if f.raddr_a == RA_UNIFORM_READ || f.raddr_b == RB_UNIFORM_READ {
                        old(self)@.uniform_ptr + 4
                    } else {
                        old(self)@.uniform_ptr as int
                    }),
                    InstFormat::AluSmallImm(f) => f.waddr_add != WA_UNIFORMS_ADDRESS && f.waddr_mul
                        != WA_UNIFORMS_ADDRESS ==> final(self)@.uniform_ptr as int == (
                    if f.raddr_a == RA_UNIFORM_READ {
                        old(self)@.uniform_ptr + 4
                    } else {
                        old(self)@.uniform_ptr as int
                    }),
                    InstFormat::Branch(f) => f.raddr_a != RA_UNIFORM_READ ==> final(self)@.uniform_ptr == old(self)@.uniform_ptr,
                    InstFormat::LoadImm32(f) => f.waddr_add != WA_UNIFORMS_ADDRESS && f.waddr_mul
                        != WA_UNIFORMS_ADDRESS ==> final(self)@.uniform_ptr == old(self)@.uniform_ptr,
                    InstFormat::LoadImmPerElemSigned(f) => f.waddr_add != WA_UNIFORMS_ADDRESS
                        && f.waddr_mul != WA_UNIFORMS_ADDRESS ==> final(self)@.uniform_ptr == old(self)@.uniform_ptr,
                    InstFormat::LoadImmPerElemUnsigned(f) => f.waddr_add != WA_UNIFORMS_ADDRESS
                        && f.waddr_mul != WA_UNIFORMS_ADDRESS ==> final(self)@.uniform_ptr == old(self)@.uniform_ptr,
                    InstFormat::Semaphore(_f) => final(self)@.uniform_ptr == old(self)@.uniform_ptr,
                }
            }),
    {
        match inst {
            InstFormat::Alu(fields) => self.execute_alu(fields),
            InstFormat::AluSmallImm(fields) => self.execute_alu_small_imm(fields),
            InstFormat::LoadImm32(fields) => self.execute_load_imm32(fields),
            InstFormat::LoadImmPerElemSigned(fields) => self.execute_load_imm_per_elem(
                fields,
                true,
            ),
            InstFormat::LoadImmPerElemUnsigned(fields) => self.execute_load_imm_per_elem(
                fields,
                false,
            ),
            InstFormat::Branch(fields) => self.execute_branch(fields),
            InstFormat::Semaphore(fields) => self.execute_semaphore(fields),
        }
    }
}

/// What a source lane's flags look like when it runs: the loop's flag file at
/// lane `e` (its own writer, if any, is source lane `(e + 16 - rot) % 16`,
/// already processed exactly when `e >= rot >= 1`) agrees with `spec_si_ctx`.
proof fn lemma_si_ctx_at_lane(
    s: QPUState,
    f: InstFormatAluSmallImm,
    iv: u32,
    rot: int,
    e: int,
)
    requires
        0 <= e < 16,
        0 <= rot < 16,
    ensures
        spec_rot_src(e, rot) < e <==> rot >= 1 && e >= rot,
        rot >= 1 && e >= rot ==> spec_rot_src(e, rot) == e - rot,
        spec_si_ctx(s, f, iv, rot, e).0 == (if f.sf != 0 && spec_rot_src(e, rot) < e {
            match spec_si_flag_value(s, f, iv, rot, spec_rot_src(e, rot)) {
                Some(v) => v == 0,
                None => s.zf[e],
            }
        } else {
            s.zf[e]
        }),
        spec_si_ctx(s, f, iv, rot, e).1 == (if f.sf != 0 && spec_rot_src(e, rot) < e {
            match spec_si_flag_value(s, f, iv, rot, spec_rot_src(e, rot)) {
                Some(v) => v >= 0x8000_0000,
                None => s.nf[e],
            }
        } else {
            s.nf[e]
        }),
        spec_si_ctx(s, f, iv, rot, e).2 == (if f.sf != 0 && spec_rot_src(e, rot) < e {
            match spec_si_flag_value(s, f, iv, rot, spec_rot_src(e, rot)) {
                Some(_v) => false,
                None => s.cf[e],
            }
        } else {
            s.cf[e]
        }),
{
    reveal(spec_si_flag_value);
    if rot == 0 {
        assert((e + 16 - rot) % 16 == e);
    } else if e < rot {
        assert((e + 16 - rot) % 16 == e + 16 - rot);
    } else {
        assert((e + 16 - rot) % 16 == e - rot);
        if f.sf == 0 {
            assert(spec_si_flag_from(s, f, iv, spec_si_ctx(s, f, iv, rot, e - rot), e - rot)
                is None);
        }
    }
}

/// A lane rotation is its own inverse: writeback lane `(e + rot) % 16` draws
/// from source lane `e`, and from no other.
proof fn lemma_rot_round(e: int, rot: int)
    requires
        0 <= e < 16,
        0 <= rot < 16,
    ensures
        spec_rot_src((e + rot) % 16, rot) == e,
        forall|j: int| 0 <= j < 16 && j != (e + rot) % 16 ==> spec_rot_src(j, rot) != e,
{
    assert(spec_rot_src((e + rot) % 16, rot) == e) by {
        if e + rot < 16 {
            assert((e + rot) % 16 == e + rot);
        } else {
            assert((e + rot) % 16 == e + rot - 16);
        }
    }
    assert forall|j: int| 0 <= j < 16 && j != (e + rot) % 16 implies spec_rot_src(j, rot) != e by {
        if j + 16 - rot < 16 {
            assert((j + 16 - rot) % 16 == j + 16 - rot);
        } else {
            assert((j + 16 - rot) % 16 == j - rot);
        }
    }
}

} // verus!
