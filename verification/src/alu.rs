//! The two ALU operation tables, per-lane condition evaluation, flag
//! computation, and the decoders of the small-immediate field and of the
//! per-element load-immediate masks.
use vstd::prelude::*;

verus! {

use crate::bits::{sign_extend, spec_sign_extend, spec_u32_from_le_bytes, spec_u32_le_bytes,
    u32_to_u8x4, u8x4_to_u32};
use crate::constants::{ADDOP_ADD, ADDOP_AND, ADDOP_ASR, ADDOP_CLZ, ADDOP_FADD, ADDOP_FMAX,
    ADDOP_FMAXABS, ADDOP_FMIN, ADDOP_FMINABS, ADDOP_FSUB, ADDOP_FTOI, ADDOP_ITOF, ADDOP_MAX,
    ADDOP_MIN, ADDOP_NOP, ADDOP_NOT, ADDOP_OR, ADDOP_ROR, ADDOP_SHL, ADDOP_SHR, ADDOP_SUB,
    ADDOP_V8ADDS, ADDOP_V8SUBS, ADDOP_XOR, COND_ALWAYS, COND_CC, COND_CS, COND_NC, COND_NEVER,
    COND_NS, COND_ZC, COND_ZS, MULOP_FMUL, MULOP_MUL24, MULOP_NOP, MULOP_V8MAX, MULOP_V8MIN};
use crate::errors::EmuError;
use crate::floatops::{fadd_bits, fmax_bits, fmin_bits, fmul_bits, fsub_bits, ftoi_bits, itof_bits,
    spec_fadd, spec_fmax, spec_fmin, spec_fmul, spec_fsub, spec_ftoi, spec_itof};
use crate::processor::QPUEmu;
use vstd::std_specs::bits::u32_leading_zeros;

/// A value reduced to 32 bits, two's-complement style.
pub open spec fn spec_wrap32(x: int) -> u32
    recommends
        x >= 0,
{
    (x % 0x1_0000_0000) as u32
}

/// Signed comparison of two 32-bit words by their two's-complement value,
/// expressed by biasing the sign bit.
pub open spec fn spec_signed_lt(a: u32, b: u32) -> bool {
    (a ^ 0x8000_0000u32) < (b ^ 0x8000_0000u32)
}

/// Arithmetic shift right: the high `sh` bits take the sign bit's value.
pub open spec fn spec_asr(a: u32, sh: u32) -> u32
    recommends
        sh < 32,
{
    if a < 0x8000_0000 {
        a >> sh
    } else {
        (a >> sh) | (!(0xFFFF_FFFFu32 >> sh))
    }
}

/// Rotate right by `n` modulo 32.
pub open spec fn spec_ror(a: u32, n: u32) -> u32 {
    let sh = (n % 32) as u32;
    if sh == 0 {
        a
    } else {
        (a >> sh) | (a << ((32 - sh) as u32))
    }
}

/// Rotate left by `n` modulo 32.
pub open spec fn spec_rol(a: u32, n: u32) -> u32 {
    let sh = (n % 32) as u32;
    if sh == 0 {
        a
    } else {
        (a << sh) | (a >> ((32 - sh) as u32))
    }
}

/// The smaller of two bytes.
pub open spec fn spec_u8_min(x: u8, y: u8) -> u8 {
    if x < y {
        x
    } else {
        y
    }
}

/// The larger of two bytes.
pub open spec fn spec_u8_max(x: u8, y: u8) -> u8 {
    if x < y {
        y
    } else {
        x
    }
}

/// Componentwise minimum of four packed unsigned bytes.
pub open spec fn spec_v8min(a: u32, b: u32) -> u32 {
    let ab = spec_u32_le_bytes(a);
    let bb = spec_u32_le_bytes(b);
    spec_u32_from_le_bytes(
        spec_u8_min(ab[0], bb[0]),
        spec_u8_min(ab[1], bb[1]),
        spec_u8_min(ab[2], bb[2]),
        spec_u8_min(ab[3], bb[3]),
    )
}

/// Componentwise maximum of four packed unsigned bytes.
pub open spec fn spec_v8max(a: u32, b: u32) -> u32 {
    let ab = spec_u32_le_bytes(a);
    let bb = spec_u32_le_bytes(b);
    spec_u32_from_le_bytes(
        spec_u8_max(ab[0], bb[0]),
        spec_u8_max(ab[1], bb[1]),
        spec_u8_max(ab[2], bb[2]),
        spec_u8_max(ab[3], bb[3]),
    )
}

/// Which add-pipeline opcodes this emulator carries out. The packed 8-bit
/// saturating ops are left unimplemented, and codes 9..11 and 25..29 name no
/// operation at all.
pub open spec fn spec_add_op_ok(op: u8) -> bool {
    op <= ADDOP_ITOF || (ADDOP_ADD <= op <= ADDOP_CLZ)
}

/// The result of one lane of the add pipeline on two 32-bit operands.
pub open spec fn spec_add_alu_op(op: u8, a: u32, b: u32) -> u32
    recommends
        spec_add_op_ok(op),
{
    if op == ADDOP_NOP {
        0
    } else if op == ADDOP_FADD {
        spec_fadd(a, b)
    } else if op == ADDOP_FSUB {
        spec_fsub(a, b)
    } else if op == ADDOP_FMIN {
        spec_fmin(a, b)
    } else if op == ADDOP_FMAX {
        spec_fmax(a, b)
    } else if op == ADDOP_FMINABS {
        // The absolute value of an IEEE single clears the sign bit.
        spec_fmin(a & 0x7FFF_FFFF, b & 0x7FFF_FFFF)
    } else if op == ADDOP_FMAXABS {
        spec_fmax(a & 0x7FFF_FFFF, b & 0x7FFF_FFFF)
    } else if op == ADDOP_FTOI {
        spec_ftoi(a)
    } else if op == ADDOP_ITOF {
        spec_itof(a)
    } else if op == ADDOP_ADD {
        spec_wrap32(a + b)
    } else if op == ADDOP_SUB {
        spec_wrap32(a + 0x1_0000_0000 - b)
    } else if op == ADDOP_SHR {
        a >> ((b % 32) as u32)
    } else if op == ADDOP_ASR {
        spec_asr(a, (b % 32) as u32)
    } else if op == ADDOP_ROR {
        spec_ror(a, b)
    } else if op == ADDOP_SHL {
        // This opcode rotates left rather than shifting: kernels that
        // depend on shifted-out bits being cleared behave differently on
        // hardware with a true logical shift.
        spec_rol(a, b)
    } else if op == ADDOP_MIN {
        if spec_signed_lt(a, b) {
            a
        } else {
            b
        }
    } else if op == ADDOP_MAX {
        if spec_signed_lt(a, b) {
            b
        } else {
            a
        }
    } else if op == ADDOP_AND {
        a & b
    } else if op == ADDOP_OR {
        a | b
    } else if op == ADDOP_XOR {
        a ^ b
    } else if op == ADDOP_NOT {
        !a
    } else {
        u32_leading_zeros(a)
    }
}

/// Which mul-pipeline opcodes this emulator carries out; the packed 8-bit
/// multiply and saturating ops are left unimplemented.
pub open spec fn spec_mul_op_ok(op: u8) -> bool {
    op == MULOP_NOP || op == MULOP_FMUL || op == MULOP_MUL24 || op == MULOP_V8MIN || op
        == MULOP_V8MAX
}

/// The result of one lane of the mul pipeline on two 32-bit operands.
pub open spec fn spec_mul_alu_op(op: u8, a: u32, b: u32) -> u32
    recommends
        spec_mul_op_ok(op),
{
    if op == MULOP_NOP {
        0
    } else if op == MULOP_FMUL {
        spec_fmul(a, b)
    } else if op == MULOP_MUL24 {
        spec_wrap32((a % 0x100_0000) * (b % 0x100_0000))
    } else if op == MULOP_V8MIN {
        spec_v8min(a, b)
    } else {
        spec_v8max(a, b)
    }
}

/// Whether a 3-bit per-lane condition code holds of one lane's flags.
pub open spec fn spec_cond(cond: u8, z: bool, n: bool, c: bool) -> bool
    recommends
        cond < 8,
{
    if cond == COND_NEVER {
        false
    } else if cond == COND_ALWAYS {
        true
    } else if cond == COND_ZS {
        z
    } else if cond == COND_ZC {
        !z
    } else if cond == COND_NS {
        n
    } else if cond == COND_NC {
        !n
    } else if cond == COND_CS {
        c
    } else {
        !c
    }
}

/// Evaluate a 3-bit condition code against one lane's flags.
pub fn eval_cond(cond: u8, z: bool, n: bool, c: bool) -> (r: bool)
    requires
        cond < 8,
    ensures
        r == spec_cond(cond, z, n, c),
{
    if cond == COND_NEVER {
        false
    } else if cond == COND_ALWAYS {
        true
    } else if cond == COND_ZS {
        z
    } else if cond == COND_ZC {
        !z
    } else if cond == COND_NS {
        n
    } else if cond == COND_NC {
        !n
    } else if cond == COND_CS {
        c
    } else {
        !c
    }
}

/// What `decode_small_imm` yields: codes 0..31 are a sign-extended 5-bit
/// value; codes 32..39 are the IEEE-754 single bit pattern of `2^(code-32)`,
/// which is the biased exponent `127 + (code-32)` shifted into bits 30..23;
/// codes 40..47 are reserved; codes 48..63 carry a lane rotation of
/// `code - 48`, rotation by zero (code 48) being refused; the immediate value
/// of a rotation code is zero.
pub open spec fn spec_decode_small_imm(imm: u8) -> Result<(u32, usize), EmuError>
    recommends
        imm < 64,
{
    if imm <= 31 {
        Ok((spec_sign_extend(imm as u32, 5), 0))
    } else if imm <= 39 {
        Ok((((imm as u32 + 95) as u32) << 23u32, 0))
    } else if imm <= 48 {
        Err(EmuError::Unimplemented)
    } else {
        Ok((0, (imm - 48) as usize))
    }
}

impl QPUEmu {
    /// Carry out one lane of the add pipeline. Fails exactly on the opcodes
    /// the table leaves out: the packed 8-bit saturating ops are
    /// unimplemented, and codes naming no operation are out of range.
    pub fn perform_add_alu(op: u8, val1: u32, val2: u32) -> (r: Result<u32, EmuError>)
        ensures
            r is Ok <==> spec_add_op_ok(op),
            spec_add_op_ok(op) ==> r == Ok::<u32, EmuError>(spec_add_alu_op(op, val1, val2)),
            op == ADDOP_V8ADDS || op == ADDOP_V8SUBS ==> r == Err::<u32, EmuError>(
                EmuError::Unimplemented,
            ),
            !spec_add_op_ok(op) && !(op == ADDOP_V8ADDS || op == ADDOP_V8SUBS) ==> r == Err::<
                u32,
                EmuError,
            >(EmuError::AddressRange),
    {
        if op == ADDOP_NOP {
            Ok(0)
        } else if op == ADDOP_FADD {
            Ok(fadd_bits(val1, val2))
        } else if op == ADDOP_FSUB {
            Ok(fsub_bits(val1, val2))
        } else if op == ADDOP_FMIN {
            Ok(fmin_bits(val1, val2))
        } else if op == ADDOP_FMAX {
            Ok(fmax_bits(val1, val2))
        } else if op == ADDOP_FMINABS {
            Ok(fmin_bits(val1 & 0x7FFF_FFFF, val2 & 0x7FFF_FFFF))
        } else if op == ADDOP_FMAXABS {
            Ok(fmax_bits(val1 & 0x7FFF_FFFF, val2 & 0x7FFF_FFFF))
        } else if op == ADDOP_FTOI {
            Ok(ftoi_bits(val1))
        } else if op == ADDOP_ITOF {
            Ok(itof_bits(val1))
        } else if op == ADDOP_ADD {
            let s = (val1 as u64) + (val2 as u64);
            Ok((s % 0x1_0000_0000) as u32)
        } else if op == ADDOP_SUB {
            let s = (val1 as u64) + 0x1_0000_0000 - (val2 as u64);
            Ok((s % 0x1_0000_0000) as u32)
        } else if op == ADDOP_SHR {
            Ok(val1 >> (val2 % 32))
        } else if op == ADDOP_ASR {
            let sh = val2 % 32;
            if val1 < 0x8000_0000 {
                Ok(val1 >> sh)
            } else {
                Ok((val1 >> sh) | (!(0xFFFF_FFFFu32 >> sh)))
            }
        } else if op == ADDOP_ROR {
            let sh = val2 % 32;
            if sh == 0 {
                Ok(val1)
            } else {
                Ok((val1 >> sh) | (val1 << (32 - sh)))
            }
        } else if op == ADDOP_SHL {
            let sh = val2 % 32;
            if sh == 0 {
                Ok(val1)
            } else {
                Ok((val1 << sh) | (val1 >> (32 - sh)))
            }
        } else if op == ADDOP_MIN {
            if (val1 ^ 0x8000_0000) < (val2 ^ 0x8000_0000) {
                Ok(val1)
            } else {
                Ok(val2)
            }
        } else if op == ADDOP_MAX {
            if (val1 ^ 0x8000_0000) < (val2 ^ 0x8000_0000) {
                Ok(val2)
            } else {
                Ok(val1)
            }
        } else if op == ADDOP_AND {
            Ok(val1 & val2)
        } else if op == ADDOP_OR {
            Ok(val1 | val2)
        } else if op == ADDOP_XOR {
            Ok(val1 ^ val2)
        } else if op == ADDOP_NOT {
            Ok(!val1)
        } else if op == ADDOP_CLZ {
            Ok(val1.leading_zeros())
        } else if op == ADDOP_V8ADDS || op == ADDOP_V8SUBS {
            Err(EmuError::Unimplemented)
        } else {
            Err(EmuError::AddressRange)
        }
    }

    /// Carry out one lane of the mul pipeline. The packed 8-bit multiply and
    /// saturating ops are unimplemented; every other code of the 3-bit field
    /// is carried out.
    pub fn perform_mul_alu(op: u8, val1: u32, val2: u32) -> (r: Result<u32, EmuError>)
        ensures
            r is Ok <==> spec_mul_op_ok(op),
            spec_mul_op_ok(op) ==> r == Ok::<u32, EmuError>(spec_mul_alu_op(op, val1, val2)),
            !spec_mul_op_ok(op) ==> r == Err::<u32, EmuError>(EmuError::Unimplemented),
    {
        if op == MULOP_NOP {
            Ok(0)
        } else if op == MULOP_FMUL {
            Ok(fmul_bits(val1, val2))
        } else if op == MULOP_MUL24 {
            let x = (val1 % 0x100_0000) as u64;
            let y = (val2 % 0x100_0000) as u64;
            proof {
                assert(x * y < 0x1_0000_0000_0000) by (nonlinear_arith)
                    requires
                        x < 0x100_0000,
                        y < 0x100_0000,
                ;
            }
            let p = x * y;
            Ok((p % 0x1_0000_0000) as u32)
        } else if op == MULOP_V8MIN {
            let a = u32_to_u8x4(val1);
            let b = u32_to_u8x4(val2);
            let m = [
                if a[0] < b[0] {
                    a[0]
                } else {
                    b[0]
                },
                if a[1] < b[1] {
                    a[1]
                } else {
                    b[1]
                },
                if a[2] < b[2] {
                    a[2]
                } else {
                    b[2]
                },
                if a[3] < b[3] {
                    a[3]
                } else {
                    b[3]
                },
            ];
            Ok(u8x4_to_u32(m))
        } else if op == MULOP_V8MAX {
            let a = u32_to_u8x4(val1);
            let b = u32_to_u8x4(val2);
            let m = [
                if a[0] < b[0] {
                    b[0]
                } else {
                    a[0]
                },
                if a[1] < b[1] {
                    b[1]
                } else {
                    a[1]
                },
                if a[2] < b[2] {
                    b[2]
                } else {
                    a[2]
                },
                if a[3] < b[3] {
                    b[3]
                } else {
                    a[3]
                },
            ];
            Ok(u8x4_to_u32(m))
        } else {
            Err(EmuError::Unimplemented)
        }
    }

    /// Decode the 6-bit small-immediate field into a lane value and a lane
    /// rotation amount. Codes 0..31 decode to `sign_extend(code, 5)` in every
    /// lane; codes 32..39 to the IEEE-754 bit pattern of `2^(code-32)`; codes
    /// 40..47 are reserved, and code 48 (rotation by zero) is refused even
    /// though it would be harmless; codes 49..63 decode to value 0 with
    /// rotation `code - 48`.
    pub fn decode_small_imm(imm: u8) -> (r: Result<(u32, usize), EmuError>)
        requires
            imm < 64,
        ensures
            r == spec_decode_small_imm(imm),
            imm <= 31 ==> r == Ok::<(u32, usize), EmuError>((
                spec_sign_extend(imm as u32, 5),
                0,
            )),
            32 <= imm <= 39 ==> r == Ok::<(u32, usize), EmuError>((
                ((imm as u32 + 95) as u32) << 23u32,
                0,
            )),
            49 <= imm ==> r == Ok::<(u32, usize), EmuError>((0, (imm - 48) as usize)),
            40 <= imm <= 48 ==> r == Err::<(u32, usize), EmuError>(EmuError::Unimplemented),
    {
        if imm <= 31 {
            Ok((sign_extend(imm as u32, 5), 0))
        } else if imm <= 39 {
            Ok(((imm as u32 + 95) << 23, 0))
        } else if imm <= 48 {
            Err(EmuError::Unimplemented)
        } else {
            Ok((0, (imm as usize) - 48))
        }
    }

    /// Per-lane value of a per-element load immediate: the two mask bits of
    /// lane `elem` give `{0, +1, -1}` as a signed value, or
    /// `{0, 1, 0x8000_0000, 0x8000_0001}` as an unsigned one.
    pub fn decode_imm_per_elem(hi: u16, lo: u16, signed: bool, elem: usize) -> (r: u32)
        requires
            elem < 16,
        ensures
            r == spec_decode_imm_per_elem(hi, lo, signed, elem as int),
            signed ==> (r == 0 || r == 1 || r == 0xFFFF_FFFFu32),
            !signed ==> (r == 0 || r == 1 || r == 0x8000_0000u32 || r == 0x8000_0001u32),
    {
        let hi_bit: u32 = if (hi >> (elem as u16)) % 2 == 1 {
            1
        } else {
            0
        };
        let lo_bit: u32 = if (lo >> (elem as u16)) % 2 == 1 {
            1
        } else {
            0
        };
        if signed {
            if lo_bit == 0 {
                0
            } else if hi_bit == 1 {
                1
            } else {
                0xFFFF_FFFF
            }
        } else {
            if hi_bit == 1 {
                0x8000_0000 + lo_bit
            } else {
                lo_bit
            }
        }
    }
}

/// The per-lane value of a per-element load immediate, from the two mask bits
/// of lane `elem`.
pub open spec fn spec_decode_imm_per_elem(hi: u16, lo: u16, signed: bool, elem: int) -> u32
    recommends
        0 <= elem < 16,
{
    let hi_set = ((hi >> (elem as u16)) % 2) == 1;
    let lo_bit: u32 = if ((lo >> (elem as u16)) % 2) == 1 {
        1
    } else {
        0
    };
    if signed {
        if lo_bit == 0 {
            0
        } else if hi_set {
            1
        } else {
            0xFFFF_FFFFu32
        }
    } else {
        if hi_set {
            (0x8000_0000 + lo_bit) as u32
        } else {
            lo_bit
        }
    }
}

} // verus!
