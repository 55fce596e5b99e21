//! Unit tests of the bit utilities, the operation tables and the decoders.
use qpu_emu::bits::{get_bits, get_bits_u32, reduction_and, reduction_or, sign_extend, u32_to_u8x4,
    u8x4_to_u32, unwrap_u32x16};
use qpu_emu::constants::{ADDOP_ADD, ADDOP_AND, ADDOP_ASR, ADDOP_CLZ, ADDOP_FADD, ADDOP_FMAX,
    ADDOP_FMAXABS, ADDOP_FMIN, ADDOP_FMINABS, ADDOP_FSUB, ADDOP_FTOI, ADDOP_ITOF, ADDOP_MAX,
    ADDOP_MIN, ADDOP_NOP, ADDOP_NOT, ADDOP_OR, ADDOP_ROR, ADDOP_SHL, ADDOP_SHR, ADDOP_SUB,
    ADDOP_V8ADDS, ADDOP_XOR, ALU_SRC_R0, ALU_SRC_RB, COND_ALWAYS, COND_BR_ALWAYS, MULOP_FMUL,
    MULOP_MUL24, MULOP_NOP, MULOP_V8MAX, MULOP_V8MIN, MULOP_V8MULD};
use qpu_emu::errors::EmuError;
use qpu_emu::instructions::{decode_inst, InstFormat};
use qpu_emu::processor::QPUEmu;

fn f32_to_u32(v: f32) -> u32 {
    v.to_bits()
}

fn u32_to_f32(v: u32) -> f32 {
    f32::from_bits(v)
}

#[test]
fn test_qpu_perform_add_alu() {
    let result = QPUEmu::perform_add_alu(ADDOP_NOP, 1, 2).unwrap();
    assert_eq!(result, 0);

    let result = QPUEmu::perform_add_alu(ADDOP_FADD, f32_to_u32(1.0), f32_to_u32(2.0)).unwrap();
    assert_eq!(u32_to_f32(result), 3.0);

    let result = QPUEmu::perform_add_alu(ADDOP_FSUB, f32_to_u32(1.0), f32_to_u32(2.0)).unwrap();
    assert_eq!(u32_to_f32(result), -1.0);

    let result = QPUEmu::perform_add_alu(ADDOP_FMIN, f32_to_u32(-1.0), f32_to_u32(2.0)).unwrap();
    assert_eq!(u32_to_f32(result), -1.0);

    let result = QPUEmu::perform_add_alu(ADDOP_FMAX, f32_to_u32(-3.0), f32_to_u32(-1.0)).unwrap();
    assert_eq!(u32_to_f32(result), -1.0);

    let result = QPUEmu::perform_add_alu(ADDOP_ADD, 1, 2).unwrap();
    assert_eq!(result, 3);
}

#[test]
fn add_alu_integer_ops() {
    assert_eq!(QPUEmu::perform_add_alu(ADDOP_SUB, 5, 7).unwrap(), 5u32.wrapping_sub(7));
    assert_eq!(QPUEmu::perform_add_alu(ADDOP_ADD, 0xFFFF_FFFF, 2).unwrap(), 1);
    assert_eq!(QPUEmu::perform_add_alu(ADDOP_SHR, 0x80000000, 4).unwrap(), 0x08000000);
    assert_eq!(QPUEmu::perform_add_alu(ADDOP_ASR, 0x80000000, 4).unwrap(), 0xF8000000);
    assert_eq!(QPUEmu::perform_add_alu(ADDOP_ROR, 0x1, 4).unwrap(), 0x10000000);
    // The shift-left opcode rotates rather than shifting.
    assert_eq!(QPUEmu::perform_add_alu(ADDOP_SHL, 0x80000001, 1).unwrap(), 0x00000003);
    assert_eq!(QPUEmu::perform_add_alu(ADDOP_MIN, (-5i32) as u32, 3).unwrap(), (-5i32) as u32);
    assert_eq!(QPUEmu::perform_add_alu(ADDOP_MAX, (-5i32) as u32, 3).unwrap(), 3);
    assert_eq!(QPUEmu::perform_add_alu(ADDOP_AND, 0xF0F0, 0xFF00).unwrap(), 0xF000);
    assert_eq!(QPUEmu::perform_add_alu(ADDOP_OR, 0xF0F0, 0x0F00).unwrap(), 0xFFF0);
    assert_eq!(QPUEmu::perform_add_alu(ADDOP_XOR, 0xFF, 0x0F).unwrap(), 0xF0);
    assert_eq!(QPUEmu::perform_add_alu(ADDOP_NOT, 0xFF00_00FF, 0).unwrap(), 0x00FF_FF00);
    assert_eq!(QPUEmu::perform_add_alu(ADDOP_CLZ, 0x00010000, 0).unwrap(), 15);
    assert_eq!(QPUEmu::perform_add_alu(ADDOP_FTOI, f32_to_u32(7.75), 0).unwrap(), 7);
    assert_eq!(QPUEmu::perform_add_alu(ADDOP_FTOI, f32_to_u32(-7.75), 0).unwrap(), (-7i32) as u32);
    assert_eq!(QPUEmu::perform_add_alu(ADDOP_ITOF, 5, 0).unwrap(), f32_to_u32(5.0));
    assert_eq!(
        QPUEmu::perform_add_alu(ADDOP_FMINABS, f32_to_u32(-8.0), f32_to_u32(2.0)).unwrap(),
        f32_to_u32(2.0)
    );
    assert_eq!(
        QPUEmu::perform_add_alu(ADDOP_FMAXABS, f32_to_u32(-8.0), f32_to_u32(2.0)).unwrap(),
        f32_to_u32(8.0)
    );
    assert_eq!(QPUEmu::perform_add_alu(ADDOP_V8ADDS, 1, 2), Err(EmuError::Unimplemented));
    assert_eq!(QPUEmu::perform_add_alu(9, 1, 2), Err(EmuError::AddressRange));
}

#[test]
fn mul_alu_ops() {
    assert_eq!(QPUEmu::perform_mul_alu(MULOP_NOP, 1, 2).unwrap(), 0);
    assert_eq!(
        QPUEmu::perform_mul_alu(MULOP_FMUL, f32_to_u32(3.0), f32_to_u32(4.0)).unwrap(),
        f32_to_u32(12.0)
    );
    assert_eq!(QPUEmu::perform_mul_alu(MULOP_MUL24, 0x100_0005, 3).unwrap(), 15);
    assert_eq!(
        QPUEmu::perform_mul_alu(MULOP_V8MIN, 0x01_40_80_FF, 0x02_30_90_00).unwrap(),
        0x01_30_80_00
    );
    assert_eq!(
        QPUEmu::perform_mul_alu(MULOP_V8MAX, 0x01_40_80_FF, 0x02_30_90_00).unwrap(),
        0x02_40_90_FF
    );
    assert_eq!(QPUEmu::perform_mul_alu(MULOP_V8MULD, 1, 2), Err(EmuError::Unimplemented));
}

#[test]
fn small_imm_decoding() {
    // Codes 0..31 sign-extend from five bits.
    assert_eq!(QPUEmu::decode_small_imm(5).unwrap(), (5, 0));
    assert_eq!(QPUEmu::decode_small_imm(31).unwrap(), ((-1i32) as u32, 0));
    assert_eq!(QPUEmu::decode_small_imm(16).unwrap(), ((-16i32) as u32, 0));
    // Codes 32..39 are the bit patterns of 2^(code-32).
    for code in 32u8..=39 {
        let expect = ((1u32 << (code - 32)) as f32).to_bits();
        assert_eq!(QPUEmu::decode_small_imm(code).unwrap(), (expect, 0));
    }
    // Codes 40..47 are reserved, and rotation by zero is refused.
    assert_eq!(QPUEmu::decode_small_imm(40), Err(EmuError::Unimplemented));
    assert_eq!(QPUEmu::decode_small_imm(48), Err(EmuError::Unimplemented));
    // Codes 49..63 carry a lane rotation and a zero immediate.
    assert_eq!(QPUEmu::decode_small_imm(50).unwrap(), (0, 2));
    assert_eq!(QPUEmu::decode_small_imm(63).unwrap(), (0, 15));
}

#[test]
fn per_elem_values() {
    // Signed: {0, +1, -1} from the two mask bits.
    assert_eq!(QPUEmu::decode_imm_per_elem(0, 0, true, 3), 0);
    assert_eq!(QPUEmu::decode_imm_per_elem(1 << 3, 1 << 3, true, 3), 1);
    assert_eq!(QPUEmu::decode_imm_per_elem(0, 1 << 3, true, 3), 0xFFFF_FFFF);
    // Unsigned: {0, 1, 0x8000_0000, 0x8000_0001}.
    assert_eq!(QPUEmu::decode_imm_per_elem(0, 0, false, 7), 0);
    assert_eq!(QPUEmu::decode_imm_per_elem(0, 1 << 7, false, 7), 1);
    assert_eq!(QPUEmu::decode_imm_per_elem(1 << 7, 0, false, 7), 0x8000_0000);
    assert_eq!(QPUEmu::decode_imm_per_elem(1 << 7, 1 << 7, false, 7), 0x8000_0001);
}

#[test]
fn bit_utils() {
    assert_eq!(get_bits(0xF0F0_0000_0000_0000, 63, 60), 0xF);
    assert_eq!(get_bits(0x0000_0000_0000_FF00, 15, 8), 0xFF);
    assert_eq!(get_bits_u32(0xABCD_1234, 15, 0), 0x1234);
    assert_eq!(sign_extend(0x1F, 5), 0xFFFF_FFFF);
    assert_eq!(sign_extend(0x0F, 5), 0x0F);
    assert_eq!(u8x4_to_u32([0x78, 0x56, 0x34, 0x12]), 0x1234_5678);
    assert_eq!(u32_to_u8x4(0x1234_5678), [0x78, 0x56, 0x34, 0x12]);
    // Word to bytes and back is the identity.
    for v in [0u32, 1, 0xDEAD_BEEF, 0xFFFF_FFFF] {
        assert_eq!(u8x4_to_u32(u32_to_u8x4(v)), v);
    }
    // Bit pattern to float and back is the identity.
    for v in [0u32, 0x3F80_0000, 0x8000_0000, 0x7F7F_FFFF] {
        assert_eq!(f32::from_bits(v).to_bits(), v);
    }
    let vals = [Some(7u32); 16];
    assert_eq!(unwrap_u32x16(&vals), [7u32; 16]);
    assert!(reduction_and(&[true, true], false));
    assert!(!reduction_and(&[true, false], false));
    assert!(reduction_or(&[false, true], false));
    assert!(reduction_and(&[false, false], true));
    assert!(!reduction_or(&[true, true], true));
}

#[test]
fn decoder_fields() {
    // A small-immediate word: signal 13, with every field planted.
    let w: u64 = (13u64 << 60) | (1 << 49) | (39 << 38) | (39 << 32) | (12 << 24) | (39 << 18) | (
    5 << 12) | (0 << 9) | (7 << 6);
    match decode_inst(w).unwrap() {
        InstFormat::AluSmallImm(f) => {
            assert_eq!(f.cond_add, COND_ALWAYS);
            assert_eq!(f.waddr_add, 39);
            assert_eq!(f.op_add, ADDOP_ADD);
            assert_eq!(f.raddr_a, 39);
            assert_eq!(f.small_immed, 5);
            assert_eq!(f.add_a, ALU_SRC_R0);
            assert_eq!(f.add_b, ALU_SRC_RB);
        },
        _ => panic!("wrong class"),
    }
    // A branch word.
    let w: u64 = (15u64 << 60) | (15 << 52) | (1 << 51) | 16;
    match decode_inst(w).unwrap() {
        InstFormat::Branch(f) => {
            assert_eq!(f.cond_br, COND_BR_ALWAYS);
            assert_eq!(f.rel, 1);
            assert_eq!(f.immediate, 16);
        },
        _ => panic!("wrong class"),
    }
    // A reserved load-immediate sub-code is a decode error.
    let w: u64 = (14u64 << 60) | (2u64 << 57);
    assert_eq!(decode_inst(w), Err(EmuError::Decode));
    // Sub-codes 0, 1, 3 and 4 decode.
    assert!(matches!(decode_inst(14u64 << 60).unwrap(), InstFormat::LoadImm32(_)));
    assert!(
        matches!(
            decode_inst((14u64 << 60) | (1u64 << 57)).unwrap(),
            InstFormat::LoadImmPerElemSigned(_)
        )
    );
    assert!(
        matches!(
            decode_inst((14u64 << 60) | (3u64 << 57)).unwrap(),
            InstFormat::LoadImmPerElemUnsigned(_)
        )
    );
    assert!(matches!(decode_inst((14u64 << 60) | (4u64 << 57)).unwrap(), InstFormat::Semaphore(_)));
    // Any other signal is a dual-issue ALU word.
    assert!(matches!(decode_inst(1u64 << 60).unwrap(), InstFormat::Alu(_)));
}
