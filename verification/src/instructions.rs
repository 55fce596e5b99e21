//! The 64-bit composite-instruction decoder: a word's top nibble (the signal)
//! selects one of seven tagged formats, and every fixed-width field maps to an
//! unambiguous bit position.
use vstd::prelude::*;

verus! {

use crate::bits::{get_bits, spec_get_bits};
use crate::constants::{SIG_BRA, SIG_LDI, SIG_NOPSI};
use crate::errors::EmuError;

/// A dual-issue add + multiply instruction.
#[derive(Debug, Clone, Copy, PartialEq, Eq, Structural)]
pub struct InstFormatAlu {
    pub sig: u8,
    pub unpack: u8,
    pub pm: u8,
    pub pack: u8,
    pub cond_add: u8,
    pub cond_mul: u8,
    pub sf: u8,
    pub ws: u8,
    pub waddr_add: u8,
    pub waddr_mul: u8,
    pub op_mul: u8,
    pub op_add: u8,
    pub raddr_a: u8,
    pub raddr_b: u8,
    pub add_a: u8,
    pub add_b: u8,
    pub mul_a: u8,
    pub mul_b: u8,
}

/// A dual-issue instruction whose B-side read address carries a 6-bit immediate.
#[derive(Debug, Clone, Copy, PartialEq, Eq, Structural)]
pub struct InstFormatAluSmallImm {
    pub unpack: u8,
    pub pm: u8,
    pub pack: u8,
    pub cond_add: u8,
    pub cond_mul: u8,
    pub sf: u8,
    pub ws: u8,
    pub waddr_add: u8,
    pub waddr_mul: u8,
    pub op_mul: u8,
    pub op_add: u8,
    pub raddr_a: u8,
    pub small_immed: u8,
    pub add_a: u8,
    pub add_b: u8,
    pub mul_a: u8,
    pub mul_b: u8,
}

/// A branch with a 32-bit byte displacement, absolute or PC-relative.
#[derive(Debug, Clone, Copy, PartialEq, Eq, Structural)]
pub struct InstFormatBranch {
    pub cond_br: u8,
    pub rel: u8,
    pub reg: u8,
    pub raddr_a: u8,
    pub ws: u8,
    pub waddr_add: u8,
    pub waddr_mul: u8,
    pub immediate: u32,
}

/// A 32-bit literal broadcast to all lanes of both writeback targets.
#[derive(Debug, Clone, Copy, PartialEq, Eq, Structural)]
pub struct InstFormatLoadImm32 {
    pub pm: u8,
    pub pack: u8,
    pub cond_add: u8,
    pub cond_mul: u8,
    pub sf: u8,
    pub ws: u8,
    pub waddr_add: u8,
    pub waddr_mul: u8,
    pub immediate: u32,
}

/// Two 16-bit masks giving two bits per lane, decoded per lane as a small
/// signed or unsigned value.
#[derive(Debug, Clone, Copy, PartialEq, Eq, Structural)]
pub struct InstFormatLoadImmPerElem {
    pub pm: u8,
    pub pack: u8,
    pub cond_add: u8,
    pub cond_mul: u8,
    pub sf: u8,
    pub ws: u8,
    pub waddr_add: u8,
    pub waddr_mul: u8,
    pub per_element_ms_bit: u16,
    pub per_element_ls_bit: u16,
}

/// A semaphore operation; a no-op in this emulator.
#[derive(Debug, Clone, Copy, PartialEq, Eq, Structural)]
pub struct InstFormatSemaphore {
    pub pm: u8,
    pub pack: u8,
    pub cond_add: u8,
    pub cond_mul: u8,
    pub sf: u8,
    pub ws: u8,
    pub waddr_add: u8,
    pub waddr_mul: u8,
    pub sa: u8,
    pub semaphore: u8,
}

/// The seven instruction classes of the core.
#[derive(Debug, Clone, Copy, PartialEq, Eq, Structural)]
pub enum InstFormat {
    Alu(InstFormatAlu),
    AluSmallImm(InstFormatAluSmallImm),
    Branch(InstFormatBranch),
    LoadImm32(InstFormatLoadImm32),
    LoadImmPerElemSigned(InstFormatLoadImmPerElem),
    LoadImmPerElemUnsigned(InstFormatLoadImmPerElem),
    Semaphore(InstFormatSemaphore),
}

/// The field assignment of a dual-issue instruction word.
pub open spec fn spec_decode_alu(w: u64) -> InstFormatAlu {
    InstFormatAlu {
        sig: spec_get_bits(w, 63, 60) as u8,
        unpack: spec_get_bits(w, 59, 57) as u8,
        pm: spec_get_bits(w, 56, 56) as u8,
        pack: spec_get_bits(w, 55, 52) as u8,
        cond_add: spec_get_bits(w, 51, 49) as u8,
        cond_mul: spec_get_bits(w, 48, 46) as u8,
        sf: spec_get_bits(w, 45, 45) as u8,
        ws: spec_get_bits(w, 44, 44) as u8,
        waddr_add: spec_get_bits(w, 43, 38) as u8,
        waddr_mul: spec_get_bits(w, 37, 32) as u8,
        op_mul: spec_get_bits(w, 31, 29) as u8,
        op_add: spec_get_bits(w, 28, 24) as u8,
        raddr_a: spec_get_bits(w, 23, 18) as u8,
        raddr_b: spec_get_bits(w, 17, 12) as u8,
        add_a: spec_get_bits(w, 11, 9) as u8,
        add_b: spec_get_bits(w, 8, 6) as u8,
        mul_a: spec_get_bits(w, 5, 3) as u8,
        mul_b: spec_get_bits(w, 2, 0) as u8,
    }
}

/// The field assignment of a small-immediate instruction word.
pub open spec fn spec_decode_alu_small_imm(w: u64) -> InstFormatAluSmallImm {
    InstFormatAluSmallImm {
        unpack: spec_get_bits(w, 59, 57) as u8,
        pm: spec_get_bits(w, 56, 56) as u8,
        pack: spec_get_bits(w, 55, 52) as u8,
        cond_add: spec_get_bits(w, 51, 49) as u8,
        cond_mul: spec_get_bits(w, 48, 46) as u8,
        sf: spec_get_bits(w, 45, 45) as u8,
        ws: spec_get_bits(w, 44, 44) as u8,
        waddr_add: spec_get_bits(w, 43, 38) as u8,
        waddr_mul: spec_get_bits(w, 37, 32) as u8,
        op_mul: spec_get_bits(w, 31, 29) as u8,
        op_add: spec_get_bits(w, 28, 24) as u8,
        raddr_a: spec_get_bits(w, 23, 18) as u8,
        small_immed: spec_get_bits(w, 17, 12) as u8,
        add_a: spec_get_bits(w, 11, 9) as u8,
        add_b: spec_get_bits(w, 8, 6) as u8,
        mul_a: spec_get_bits(w, 5, 3) as u8,
        mul_b: spec_get_bits(w, 2, 0) as u8,
    }
}

/// The field assignment of a branch instruction word.
pub open spec fn spec_decode_branch(w: u64) -> InstFormatBranch {
    InstFormatBranch {
        cond_br: spec_get_bits(w, 55, 52) as u8,
        rel: spec_get_bits(w, 51, 51) as u8,
        reg: spec_get_bits(w, 50, 50) as u8,
        raddr_a: spec_get_bits(w, 49, 45) as u8,
        ws: spec_get_bits(w, 44, 44) as u8,
        waddr_add: spec_get_bits(w, 43, 38) as u8,
        waddr_mul: spec_get_bits(w, 37, 32) as u8,
        immediate: spec_get_bits(w, 31, 0) as u32,
    }
}

/// The field assignment of a 32-bit load-immediate word.
pub open spec fn spec_decode_load_imm32(w: u64) -> InstFormatLoadImm32 {
    InstFormatLoadImm32 {
        pm: spec_get_bits(w, 56, 56) as u8,
        pack: spec_get_bits(w, 55, 52) as u8,
        cond_add: spec_get_bits(w, 51, 49) as u8,
        cond_mul: spec_get_bits(w, 48, 46) as u8,
        sf: spec_get_bits(w, 45, 45) as u8,
        ws: spec_get_bits(w, 44, 44) as u8,
        waddr_add: spec_get_bits(w, 43, 38) as u8,
        waddr_mul: spec_get_bits(w, 37, 32) as u8,
        immediate: spec_get_bits(w, 31, 0) as u32,
    }
}

/// The field assignment of a per-element load-immediate word.
pub open spec fn spec_decode_load_imm_per_elem(w: u64) -> InstFormatLoadImmPerElem {
    InstFormatLoadImmPerElem {
        pm: spec_get_bits(w, 56, 56) as u8,
        pack: spec_get_bits(w, 55, 52) as u8,
        cond_add: spec_get_bits(w, 51, 49) as u8,
        cond_mul: spec_get_bits(w, 48, 46) as u8,
        sf: spec_get_bits(w, 45, 45) as u8,
        ws: spec_get_bits(w, 44, 44) as u8,
        waddr_add: spec_get_bits(w, 43, 38) as u8,
        waddr_mul: spec_get_bits(w, 37, 32) as u8,
        per_element_ms_bit: spec_get_bits(w, 31, 16) as u16,
        per_element_ls_bit: spec_get_bits(w, 15, 0) as u16,
    }
}

/// The field assignment of a semaphore word.
pub open spec fn spec_decode_semaphore(w: u64) -> InstFormatSemaphore {
    InstFormatSemaphore {
        pm: spec_get_bits(w, 56, 56) as u8,
        pack: spec_get_bits(w, 55, 52) as u8,
        cond_add: spec_get_bits(w, 51, 49) as u8,
        cond_mul: spec_get_bits(w, 48, 46) as u8,
        sf: spec_get_bits(w, 45, 45) as u8,
        ws: spec_get_bits(w, 44, 44) as u8,
        waddr_add: spec_get_bits(w, 43, 38) as u8,
        waddr_mul: spec_get_bits(w, 37, 32) as u8,
        sa: spec_get_bits(w, 4, 4) as u8,
        semaphore: spec_get_bits(w, 3, 0) as u8,
    }
}

/// What the decoder yields for each 64-bit word: the signal nibble selects the
/// class, and under the load-immediate signal a 3-bit sub-code selects among
/// four variants, any other sub-code being a fatal decode error.
pub open spec fn spec_decode_inst(w: u64) -> Result<InstFormat, EmuError> {
    let sig = spec_get_bits(w, 63, 60) as u8;
    if sig == SIG_NOPSI {
        Ok(InstFormat::AluSmallImm(spec_decode_alu_small_imm(w)))
    } else if sig == SIG_BRA {
        Ok(InstFormat::Branch(spec_decode_branch(w)))
    } else if sig == SIG_LDI {
        let unpack = spec_get_bits(w, 59, 57) as u8;
        if unpack == 0 {
            Ok(InstFormat::LoadImm32(spec_decode_load_imm32(w)))
        } else if unpack == 1 {
            Ok(InstFormat::LoadImmPerElemSigned(spec_decode_load_imm_per_elem(w)))
        } else if unpack == 3 {
            Ok(InstFormat::LoadImmPerElemUnsigned(spec_decode_load_imm_per_elem(w)))
        } else if unpack == 4 {
            Ok(InstFormat::Semaphore(spec_decode_semaphore(w)))
        } else {
            Err(EmuError::Decode)
        }
    } else {
        Ok(InstFormat::Alu(spec_decode_alu(w)))
    }
}

/// Decode one 64-bit instruction word into its tagged format. The decoder is
/// pure and total but for the reserved load-immediate sub-codes, which are a
/// fatal decode error.
pub fn decode_inst(inst: u64) -> (r: Result<InstFormat, EmuError>)
    ensures
        r == spec_decode_inst(inst),
{
    proof {
        vstd::arithmetic::power2::lemma2_to64();
    }
    let sig = get_bits(inst, 63, 60) as u8;

    if sig == SIG_NOPSI {
        Ok(InstFormat::AluSmallImm(InstFormatAluSmallImm {
            unpack: get_bits(inst, 59, 57) as u8,
            pm: get_bits(inst, 56, 56) as u8,
            pack: get_bits(inst, 55, 52) as u8,
            cond_add: get_bits(inst, 51, 49) as u8,
            cond_mul: get_bits(inst, 48, 46) as u8,
            sf: get_bits(inst, 45, 45) as u8,
            ws: get_bits(inst, 44, 44) as u8,
            waddr_add: get_bits(inst, 43, 38) as u8,
            waddr_mul: get_bits(inst, 37, 32) as u8,
            op_mul: get_bits(inst, 31, 29) as u8,
            op_add: get_bits(inst, 28, 24) as u8,
            raddr_a: get_bits(inst, 23, 18) as u8,
            small_immed: get_bits(inst, 17, 12) as u8,
            add_a: get_bits(inst, 11, 9) as u8,
            add_b: get_bits(inst, 8, 6) as u8,
            mul_a: get_bits(inst, 5, 3) as u8,
            mul_b: get_bits(inst, 2, 0) as u8,
        }))
    } else if sig == SIG_BRA {
        Ok(InstFormat::Branch(InstFormatBranch {
            cond_br: get_bits(inst, 55, 52) as u8,
            rel: get_bits(inst, 51, 51) as u8,
            reg: get_bits(inst, 50, 50) as u8,
            raddr_a: get_bits(inst, 49, 45) as u8,
            ws: get_bits(inst, 44, 44) as u8,
            waddr_add: get_bits(inst, 43, 38) as u8,
            waddr_mul: get_bits(inst, 37, 32) as u8,
            immediate: get_bits(inst, 31, 0) as u32,
        }))
    } else if sig == SIG_LDI {
        let unpack = get_bits(inst, 59, 57) as u8;
        if unpack == 0 {
            Ok(InstFormat::LoadImm32(InstFormatLoadImm32 {
                pm: get_bits(inst, 56, 56) as u8,
                pack: get_bits(inst, 55, 52) as u8,
                cond_add: get_bits(inst, 51, 49) as u8,
                cond_mul: get_bits(inst, 48, 46) as u8,
                sf: get_bits(inst, 45, 45) as u8,
                ws: get_bits(inst, 44, 44) as u8,
                waddr_add: get_bits(inst, 43, 38) as u8,
                waddr_mul: get_bits(inst, 37, 32) as u8,
                immediate: get_bits(inst, 31, 0) as u32,
            }))
        } else if unpack == 1 || unpack == 3 {
            let fields = InstFormatLoadImmPerElem {
                pm: get_bits(inst, 56, 56) as u8,
                pack: get_bits(inst, 55, 52) as u8,
                cond_add: get_bits(inst, 51, 49) as u8,
                cond_mul: get_bits(inst, 48, 46) as u8,
                sf: get_bits(inst, 45, 45) as u8,
                ws: get_bits(inst, 44, 44) as u8,
                waddr_add: get_bits(inst, 43, 38) as u8,
                waddr_mul: get_bits(inst, 37, 32) as u8,
                per_element_ms_bit: get_bits(inst, 31, 16) as u16,
                per_element_ls_bit: get_bits(inst, 15, 0) as u16,
            };
            if unpack == 1 {
                Ok(InstFormat::LoadImmPerElemSigned(fields))
            } else {
                Ok(InstFormat::LoadImmPerElemUnsigned(fields))
            }
        } else if unpack == 4 {
            Ok(InstFormat::Semaphore(InstFormatSemaphore {
                pm: get_bits(inst, 56, 56) as u8,
                pack: get_bits(inst, 55, 52) as u8,
                cond_add: get_bits(inst, 51, 49) as u8,
                cond_mul: get_bits(inst, 48, 46) as u8,
                sf: get_bits(inst, 45, 45) as u8,
                ws: get_bits(inst, 44, 44) as u8,
                waddr_add: get_bits(inst, 43, 38) as u8,
                waddr_mul: get_bits(inst, 37, 32) as u8,
                sa: get_bits(inst, 4, 4) as u8,
                semaphore: get_bits(inst, 3, 0) as u8,
            }))
        } else {
            Err(EmuError::Decode)
        }
    } else {
        Ok(InstFormat::Alu(InstFormatAlu {
            sig,
            unpack: get_bits(inst, 59, 57) as u8,
            pm: get_bits(inst, 56, 56) as u8,
            pack: get_bits(inst, 55, 52) as u8,
            cond_add: get_bits(inst, 51, 49) as u8,
            cond_mul: get_bits(inst, 48, 46) as u8,
            sf: get_bits(inst, 45, 45) as u8,
            ws: get_bits(inst, 44, 44) as u8,
            waddr_add: get_bits(inst, 43, 38) as u8,
            waddr_mul: get_bits(inst, 37, 32) as u8,
            op_mul: get_bits(inst, 31, 29) as u8,
            op_add: get_bits(inst, 28, 24) as u8,
            raddr_a: get_bits(inst, 23, 18) as u8,
            raddr_b: get_bits(inst, 17, 12) as u8,
            add_a: get_bits(inst, 11, 9) as u8,
            add_b: get_bits(inst, 8, 6) as u8,
            mul_a: get_bits(inst, 5, 3) as u8,
            mul_b: get_bits(inst, 2, 0) as u8,
        }))
    }
}

/// The word a dual-issue format re-serializes to.
pub open spec fn spec_encode_alu(f: InstFormatAlu) -> u64 {
    ((f.sig as u64) << 60u64) | ((f.unpack as u64) << 57u64) | ((f.pm as u64) << 56u64) | ((f.pack
        as u64) << 52u64) | ((f.cond_add as u64) << 49u64) | ((f.cond_mul as u64) << 46u64) | ((f.sf
        as u64) << 45u64) | ((f.ws as u64) << 44u64) | ((f.waddr_add as u64) << 38u64) | ((
    f.waddr_mul as u64) << 32u64) | ((f.op_mul as u64) << 29u64) | ((f.op_add as u64) << 24u64) | ((
    f.raddr_a as u64) << 18u64) | ((f.raddr_b as u64) << 12u64) | ((f.add_a as u64) << 9u64) | ((
    f.add_b as u64) << 6u64) | ((f.mul_a as u64) << 3u64) | (f.mul_b as u64)
}

/// The word a small-immediate format re-serializes to.
pub open spec fn spec_encode_alu_small_imm(f: InstFormatAluSmallImm) -> u64 {
    ((SIG_NOPSI as u64) << 60u64) | ((f.unpack as u64) << 57u64) | ((f.pm as u64) << 56u64) | ((
    f.pack as u64) << 52u64) | ((f.cond_add as u64) << 49u64) | ((f.cond_mul as u64) << 46u64) | ((
    f.sf as u64) << 45u64) | ((f.ws as u64) << 44u64) | ((f.waddr_add as u64) << 38u64) | ((
    f.waddr_mul as u64) << 32u64) | ((f.op_mul as u64) << 29u64) | ((f.op_add as u64) << 24u64) | ((
    f.raddr_a as u64) << 18u64) | ((f.small_immed as u64) << 12u64) | ((f.add_a as u64) << 9u64) | ((
    f.add_b as u64) << 6u64) | ((f.mul_a as u64) << 3u64) | (f.mul_b as u64)
}

/// The word a branch format re-serializes to; bits 59..56 of a branch word are
/// not represented in the format and re-serialize to zero.
pub open spec fn spec_encode_branch(f: InstFormatBranch) -> u64 {
    ((SIG_BRA as u64) << 60u64) | ((f.cond_br as u64) << 52u64) | ((f.rel as u64) << 51u64) | ((
    f.reg as u64) << 50u64) | ((f.raddr_a as u64) << 45u64) | ((f.ws as u64) << 44u64) | ((
    f.waddr_add as u64) << 38u64) | ((f.waddr_mul as u64) << 32u64) | (f.immediate as u64)
}

/// The word a 32-bit load-immediate format re-serializes to.
pub open spec fn spec_encode_load_imm32(f: InstFormatLoadImm32) -> u64 {
    ((SIG_LDI as u64) << 60u64) | ((f.pm as u64) << 56u64) | ((f.pack as u64) << 52u64) | ((
    f.cond_add as u64) << 49u64) | ((f.cond_mul as u64) << 46u64) | ((f.sf as u64) << 45u64) | ((
    f.ws as u64) << 44u64) | ((f.waddr_add as u64) << 38u64) | ((f.waddr_mul as u64) << 32u64) | (
    f.immediate as u64)
}

/// The word a per-element load-immediate format re-serializes to, under the
/// signed (sub-code 1) or unsigned (sub-code 3) tag.
pub open spec fn spec_encode_load_imm_per_elem(f: InstFormatLoadImmPerElem, signed: bool) -> u64 {
    ((SIG_LDI as u64) << 60u64) | ((if signed {
        1u64
    } else {
        3u64
    }) << 57u64) | ((f.pm as u64) << 56u64) | ((f.pack as u64) << 52u64) | ((f.cond_add as u64)
        << 49u64) | ((f.cond_mul as u64) << 46u64) | ((f.sf as u64) << 45u64) | ((f.ws as u64)
        << 44u64) | ((f.waddr_add as u64) << 38u64) | ((f.waddr_mul as u64) << 32u64) | ((
    f.per_element_ms_bit as u64) << 16u64) | (f.per_element_ls_bit as u64)
}

/// The word a semaphore format re-serializes to; bits 31..5 of a semaphore
/// word are not represented in the format and re-serialize to zero.
pub open spec fn spec_encode_semaphore(f: InstFormatSemaphore) -> u64 {
    ((SIG_LDI as u64) << 60u64) | (4u64 << 57u64) | ((f.pm as u64) << 56u64) | ((f.pack as u64)
        << 52u64) | ((f.cond_add as u64) << 49u64) | ((f.cond_mul as u64) << 46u64) | ((f.sf as u64)
        << 45u64) | ((f.ws as u64) << 44u64) | ((f.waddr_add as u64) << 38u64) | ((f.waddr_mul
        as u64) << 32u64) | ((f.sa as u64) << 4u64) | (f.semaphore as u64)
}

/// The word a decoded instruction re-serializes to.
pub open spec fn spec_encode_inst(i: InstFormat) -> u64 {
    match i {
        InstFormat::Alu(f) => spec_encode_alu(f),
        InstFormat::AluSmallImm(f) => spec_encode_alu_small_imm(f),
        InstFormat::Branch(f) => spec_encode_branch(f),
        InstFormat::LoadImm32(f) => spec_encode_load_imm32(f),
        InstFormat::LoadImmPerElemSigned(f) => spec_encode_load_imm_per_elem(f, true),
        InstFormat::LoadImmPerElemUnsigned(f) => spec_encode_load_imm_per_elem(f, false),
        InstFormat::Semaphore(f) => spec_encode_semaphore(f),
    }
}

/// Decoding pins down every represented bit: a decoded word re-serializes to
/// itself. The two formats that drop bits are carved out exactly: a branch
/// word must have bits 59..56 clear, and a semaphore word bits 31..5 clear,
/// since those bits have no field to live in.
pub proof fn lemma_decode_inst_round_trip(w: u64)
    requires
        spec_decode_inst(w) is Ok,
        spec_get_bits(w, 63, 60) == SIG_BRA as u64 ==> spec_get_bits(w, 59, 56) == 0,
        (spec_get_bits(w, 63, 60) == SIG_LDI as u64 && spec_get_bits(w, 59, 57) == 4)
            ==> spec_get_bits(w, 31, 5) == 0,
    ensures
        spec_encode_inst(spec_decode_inst(w)->Ok_0) == w,
{
    assert(spec_get_bits(w, 63, 60) < 16 && spec_get_bits(w, 59, 57) < 8) by (bit_vector);
    let sig = spec_get_bits(w, 63, 60) as u8;
    if sig == SIG_NOPSI {
        assert(spec_get_bits(w, 63, 60) == 13 ==> spec_encode_alu_small_imm(
            spec_decode_alu_small_imm(w),
        ) == w) by (bit_vector);
    } else if sig == SIG_BRA {
        assert((spec_get_bits(w, 63, 60) == 15 && spec_get_bits(w, 59, 56) == 0)
            ==> spec_encode_branch(spec_decode_branch(w)) == w) by (bit_vector);
    } else if sig == SIG_LDI {
        let unpack = spec_get_bits(w, 59, 57) as u8;
        if unpack == 0 {
            assert((spec_get_bits(w, 63, 60) == 14 && spec_get_bits(w, 59, 57) == 0)
                ==> spec_encode_load_imm32(spec_decode_load_imm32(w)) == w) by (bit_vector);
        } else if unpack == 1 {
            assert((spec_get_bits(w, 63, 60) == 14 && spec_get_bits(w, 59, 57) == 1)
                ==> spec_encode_load_imm_per_elem(spec_decode_load_imm_per_elem(w), true) == w)
                by (bit_vector);
        } else if unpack == 3 {
            assert((spec_get_bits(w, 63, 60) == 14 && spec_get_bits(w, 59, 57) == 3)
                ==> spec_encode_load_imm_per_elem(spec_decode_load_imm_per_elem(w), false) == w)
                by (bit_vector);
        } else {
            assert((spec_get_bits(w, 63, 60) == 14 && spec_get_bits(w, 59, 57) == 4
                && spec_get_bits(w, 31, 5) == 0) ==> spec_encode_semaphore(spec_decode_semaphore(w))
                == w) by (bit_vector);
        }
    } else {
        assert((spec_get_bits(w, 63, 60) != 13 && spec_get_bits(w, 63, 60) != 14 && spec_get_bits(
            w,
            63,
            60,
        ) != 15) ==> spec_encode_alu(spec_decode_alu(w)) == w) by (bit_vector);
    }
}

} // verus!
