//! End-to-end scenarios: whole instructions through the executors, DMA block
//! transfers, branches under the shadow ring, the uniforms stream, and the
//! texture unit.
use qpu_emu::constants::{ADDOP_ADD, ADDOP_NOP, ADDOP_OR, ALU_SRC_R0, ALU_SRC_R1, ALU_SRC_RA,
    ALU_SRC_RB, COND_ALWAYS, COND_BR_ALWAYS, COND_NEVER, COND_ZS, MULOP_FMUL, MULOP_NOP, RA_NOP,
    RA_UNIFORM_READ, RA_VPM_READ, RB_NOP, SIG_LDTMU0, SIG_NONE, SIG_NOPSI, WA_NOP, WA_TMU0_S,
    WB_TMU0_T};
use qpu_emu::errors::EmuError;
use qpu_emu::instructions::decode_inst;
use qpu_emu::processor::QPUEmu;

/// Assemble a dual-issue ALU word from the fields the tests drive.
#[allow(clippy::too_many_arguments)]
fn alu_word(
    sig: u8,
    cond_add: u8,
    cond_mul: u8,
    sf: u8,
    ws: u8,
    waddr_add: u8,
    waddr_mul: u8,
    op_mul: u8,
    op_add: u8,
    raddr_a: u8,
    raddr_b: u8,
    add_a: u8,
    add_b: u8,
    mul_a: u8,
    mul_b: u8,
) -> u64 {
    ((sig as u64) << 60) | ((cond_add as u64) << 49) | ((cond_mul as u64) << 46) | ((sf as u64)
        << 45) | ((ws as u64) << 44) | ((waddr_add as u64) << 38) | ((waddr_mul as u64) << 32) | ((
    op_mul as u64) << 29) | ((op_add as u64) << 24) | ((raddr_a as u64) << 18) | ((raddr_b as u64)
        << 12) | ((add_a as u64) << 9) | ((add_b as u64) << 6) | ((mul_a as u64) << 3) | (mul_b
        as u64)
}

/// A dual-issue word that does nothing at all.
fn nop_word() -> u64 {
    alu_word(
        SIG_NONE,
        COND_NEVER,
        COND_NEVER,
        0,
        0,
        WA_NOP,
        WA_NOP,
        MULOP_NOP,
        ADDOP_NOP,
        RA_NOP,
        RB_NOP,
        0,
        0,
        0,
        0,
    )
}

/// A small-immediate word.
fn small_imm_word(
    cond_add: u8,
    ws: u8,
    waddr_add: u8,
    waddr_mul: u8,
    op_add: u8,
    raddr_a: u8,
    imm: u8,
    add_a: u8,
    add_b: u8,
) -> u64 {
    ((SIG_NOPSI as u64) << 60) | ((cond_add as u64) << 49) | ((ws as u64) << 44) | ((waddr_add
        as u64) << 38) | ((waddr_mul as u64) << 32) | ((op_add as u64) << 24) | ((raddr_a as u64)
        << 18) | ((imm as u64) << 12) | ((add_a as u64) << 9) | ((add_b as u64) << 6)
}

#[test]
fn add_immediate_writes_bank_a() {
    // op_add = ADD, cond_add = ALWAYS, A operand R0 (preloaded to 3), B
    // operand the small immediate 5, writing RA0: every lane takes 8.
    let mut emu = QPUEmu::new(64);
    for e in 0..16 {
        emu.set_acc(e, 0, 3);
    }
    let w = small_imm_word(
        COND_ALWAYS,
        0,
        0,
        WA_NOP,
        ADDOP_ADD,
        RA_NOP,
        5,
        ALU_SRC_R0,
        ALU_SRC_RB,
    );
    let inst = decode_inst(w).unwrap();
    emu.execute_inst(&inst).unwrap();
    for e in 0..16 {
        assert_eq!(emu.get_ra(e, 0), 8);
    }
}

#[test]
fn flag_gated_mul_updates_even_lanes() {
    // Z flags preloaded to [T, F, T, F, ...]; an FMUL under the ZS condition
    // writing RA1 updates the even lanes and leaves the odd lanes alone.
    let mut emu = QPUEmu::new(64);
    for e in 0..16 {
        emu.set_z_flag(e, e % 2 == 0);
        emu.set_acc(e, 0, 2.0f32.to_bits());
        emu.set_acc(e, 1, 3.0f32.to_bits());
        emu.set_ra(e, 1, 0xDEAD_0000 + e as u32);
    }
    // ws = 1 routes the mul result to the A bank.
    let w = alu_word(
        SIG_NONE,
        COND_NEVER,
        COND_ZS,
        0,
        1,
        WA_NOP,
        1,
        MULOP_FMUL,
        ADDOP_NOP,
        RA_NOP,
        RB_NOP,
        0,
        0,
        ALU_SRC_R0,
        ALU_SRC_R1,
    );
    let inst = decode_inst(w).unwrap();
    emu.execute_inst(&inst).unwrap();
    for e in 0..16 {
        if e % 2 == 0 {
            assert_eq!(emu.get_ra(e, 1), 6.0f32.to_bits());
        } else {
            assert_eq!(emu.get_ra(e, 1), 0xDEAD_0000 + e as u32);
        }
    }
}

#[test]
fn never_condition_changes_nothing() {
    // A dual-issue word whose add side never fires leaves the add target
    // untouched even though the operands would overflow lanes with data.
    let mut emu = QPUEmu::new(64);
    for e in 0..16 {
        emu.set_ra(e, 2, 0x1111_0000 + e as u32);
        emu.set_acc(e, 0, 7);
    }
    let w = alu_word(
        SIG_NONE,
        COND_NEVER,
        COND_NEVER,
        0,
        0,
        2,
        WA_NOP,
        MULOP_NOP,
        ADDOP_ADD,
        RA_NOP,
        RB_NOP,
        ALU_SRC_R0,
        ALU_SRC_R0,
        0,
        0,
    );
    let inst = decode_inst(w).unwrap();
    emu.execute_inst(&inst).unwrap();
    for e in 0..16 {
        assert_eq!(emu.get_ra(e, 2), 0x1111_0000 + e as u32);
    }
    // The same with a no-op opcode under an always-true condition.
    let w = alu_word(
        SIG_NONE,
        COND_ALWAYS,
        COND_NEVER,
        0,
        0,
        2,
        WA_NOP,
        MULOP_NOP,
        ADDOP_NOP,
        RA_NOP,
        RB_NOP,
        ALU_SRC_R0,
        ALU_SRC_R0,
        0,
        0,
    );
    let inst = decode_inst(w).unwrap();
    emu.execute_inst(&inst).unwrap();
    for e in 0..16 {
        assert_eq!(emu.get_ra(e, 2), 0x1111_0000 + e as u32);
    }
}

#[test]
fn vpm_dma_round_trip() {
    // DMA-load 16 rows of 4 words from bytes 0..256 into the VPM, then
    // DMA-store the same shape to bytes 4096..4352: the destination matches
    // the source byte for byte.
    let mut emu = QPUEmu::new(8192);
    for i in 0..256usize {
        emu.mem[i] = (i as u8).wrapping_mul(37).wrapping_add(11);
    }
    // Load setup: 32-bit mode, memory pitch 8*2^1 = 16 bytes = one row,
    // row length 4, 16 rows, VPM pitch 1, horizontal, VPM address 0.
    let load_setup: u32 = (1 << 31) | (1 << 24) | (4 << 20) | (0 << 16) | (1 << 12);
    emu.setup_vpm_load(load_setup);
    emu.execute_vpm_dma_load(0).unwrap();
    // Store setup: 16 units of depth 4, horizontal, VPM base 0, 32-bit mode;
    // the reset stride of zero keeps the destination contiguous.
    let store_setup: u32 = (2 << 30) | (16 << 23) | (4 << 16) | (1 << 14);
    emu.setup_vpm_store(store_setup).unwrap();
    emu.execute_vpm_dma_store(4096).unwrap();
    for i in 0..256usize {
        assert_eq!(emu.mem[4096 + i], emu.mem[i]);
    }
}

#[test]
fn vpm_horizontal_read_returns_row() {
    // After a contiguous DMA load, a horizontal VPM read of row 2 hands lane
    // `e` the word that sat at memory offset 4 * (32 + e).
    let mut emu = QPUEmu::new(4096);
    for i in 0..1024usize {
        emu.mem[i] = (i as u8).wrapping_mul(29).wrapping_add(3);
    }
    // 16 rows of 16 words, memory pitch 8*2^3 = 64 bytes, VPM pitch 1.
    let load_setup: u32 = (1 << 31) | (3 << 24) | (0 << 20) | (0 << 16) | (1 << 12);
    emu.setup_vpm_load(load_setup);
    emu.execute_vpm_dma_load(0).unwrap();
    // Read setup: horizontal, 32-bit size, cursor at row 2.
    let read_setup: u32 = (1 << 11) | (2 << 8) | 2;
    emu.setup_vpm_load(read_setup);
    // An OR of the A-read with itself lands each lane's row word in RA3.
    let w = alu_word(
        SIG_NONE,
        COND_ALWAYS,
        COND_NEVER,
        0,
        0,
        3,
        WA_NOP,
        MULOP_NOP,
        ADDOP_OR,
        RA_VPM_READ,
        RB_NOP,
        ALU_SRC_RA,
        ALU_SRC_RA,
        0,
        0,
    );
    let inst = decode_inst(w).unwrap();
    emu.execute_inst(&inst).unwrap();
    for e in 0..16usize {
        let base = 4 * (32 + e);
        let expect = u32::from_le_bytes([
            emu.mem[base],
            emu.mem[base + 1],
            emu.mem[base + 2],
            emu.mem[base + 3],
        ]);
        assert_eq!(emu.get_ra(e, 3), expect);
    }
}

#[test]
fn branch_relative_from_shadow_ring() {
    // A relative branch with displacement 16 bytes executes when the counter
    // reads 10 (the word sits three slots back, at index 7): the counter
    // becomes 12 and retires to 13.
    let mut insts: Vec<u64> = vec![nop_word(); 14];
    insts[7] = (15u64 << 60) | ((COND_BR_ALWAYS as u64) << 52) | (1u64 << 51) | 16;
    let mut emu = QPUEmu::new(64);
    emu.load_program(&insts);
    emu.begin_thread(0);
    for _ in 0..11 {
        assert!(emu.program_counter() < insts.len());
        emu.step().unwrap();
    }
    assert_eq!(emu.program_counter(), 13);
}

#[test]
fn uniform_stream_advances_four_bytes_each() {
    // A thread that performs three uniform reads ends with its pointer 12
    // bytes past its base.
    let read_uniform = alu_word(
        SIG_NONE,
        COND_NEVER,
        COND_NEVER,
        0,
        0,
        WA_NOP,
        WA_NOP,
        MULOP_NOP,
        ADDOP_NOP,
        RA_UNIFORM_READ,
        RB_NOP,
        0,
        0,
        0,
        0,
    );
    let mut insts: Vec<u64> = vec![read_uniform; 3];
    insts.push(nop_word());
    insts.push(nop_word());
    insts.push(nop_word());
    let mut emu = QPUEmu::new(256);
    emu.execute(&insts, &vec![100], 1).unwrap();
    assert_eq!(emu.uniform_pointer(), 112);
}

#[test]
fn tmu_linear_gather_fills_r4() {
    // Lane e requests the word at byte 4e; the drain on the load signal lands
    // each word in the lane's R4.
    let mut emu = QPUEmu::new(256);
    for i in 0..64usize {
        emu.mem[i] = (3 * i + 1) as u8;
    }
    for e in 0..16 {
        emu.set_acc(e, 0, (4 * e) as u32);
    }
    // Write R0 (each lane's own address) to the TMU S port, then drain.
    let enqueue = alu_word(
        SIG_NONE,
        COND_ALWAYS,
        COND_NEVER,
        0,
        0,
        WA_TMU0_S,
        WA_NOP,
        MULOP_NOP,
        ADDOP_OR,
        RA_NOP,
        RB_NOP,
        ALU_SRC_R0,
        ALU_SRC_R0,
        0,
        0,
    );
    let drain = alu_word(
        SIG_LDTMU0,
        COND_NEVER,
        COND_NEVER,
        0,
        0,
        WA_NOP,
        WA_NOP,
        MULOP_NOP,
        ADDOP_NOP,
        RA_NOP,
        RB_NOP,
        0,
        0,
        0,
        0,
    );
    emu.execute_inst(&decode_inst(enqueue).unwrap()).unwrap();
    emu.execute_inst(&decode_inst(drain).unwrap()).unwrap();
    for e in 0..16usize {
        let base = 4 * e;
        let expect = u32::from_le_bytes([
            emu.mem[base],
            emu.mem[base + 1],
            emu.mem[base + 2],
            emu.mem[base + 3],
        ]);
        assert_eq!(emu.get_acc(e, 4), expect);
    }
}

#[test]
fn tmu_errors() {
    // A drain whose group never carries an `s` parameter is fatal.
    let mut emu = QPUEmu::new(256);
    for e in 0..16 {
        emu.set_acc(e, 0, 0);
    }
    let enqueue_t = alu_word(
        SIG_NONE,
        COND_ALWAYS,
        COND_NEVER,
        0,
        1,
        WB_TMU0_T,
        WA_NOP,
        MULOP_NOP,
        ADDOP_OR,
        RA_NOP,
        RB_NOP,
        ALU_SRC_R0,
        ALU_SRC_R0,
        0,
        0,
    );
    emu.execute_inst(&decode_inst(enqueue_t).unwrap()).unwrap();
    assert_eq!(emu.execute_tmu0_load(), Err(EmuError::TmuMissingS));
    // A TMU parameter write with masked lanes is fatal.
    let masked = alu_word(
        SIG_NONE,
        COND_NEVER,
        COND_NEVER,
        0,
        0,
        WA_TMU0_S,
        WA_NOP,
        MULOP_NOP,
        ADDOP_OR,
        RA_NOP,
        RB_NOP,
        ALU_SRC_R0,
        ALU_SRC_R0,
        0,
        0,
    );
    assert_eq!(
        emu.execute_inst(&decode_inst(masked).unwrap()),
        Err(EmuError::TmuMasked)
    );
}

#[test]
fn tmu_queue_overflow_and_duplicates() {
    // The request queue holds eight entries; a ninth parameter write is fatal.
    let mut emu = QPUEmu::new(256);
    for e in 0..16 {
        emu.set_acc(e, 0, 0);
    }
    let enqueue_t = alu_word(
        SIG_NONE,
        COND_ALWAYS,
        COND_NEVER,
        0,
        1,
        WB_TMU0_T,
        WA_NOP,
        MULOP_NOP,
        ADDOP_OR,
        RA_NOP,
        RB_NOP,
        ALU_SRC_R0,
        ALU_SRC_R0,
        0,
        0,
    );
    let inst = decode_inst(enqueue_t).unwrap();
    for _ in 0..8 {
        emu.execute_inst(&inst).unwrap();
    }
    assert_eq!(emu.execute_inst(&inst), Err(EmuError::TmuOverflow));
    // Two entries of the same tag within one drained group are fatal.
    let mut emu = QPUEmu::new(256);
    for e in 0..16 {
        emu.set_acc(e, 0, 0);
    }
    emu.execute_inst(&inst).unwrap();
    emu.execute_inst(&inst).unwrap();
    assert_eq!(emu.execute_tmu0_load(), Err(EmuError::TmuDuplicate));
}

#[test]
fn memory_access_errors() {
    let emu = QPUEmu::new(16);
    assert_eq!(emu.read_mem_u32(2), Err(EmuError::Alignment));
    assert_eq!(emu.read_mem_u32(16), Err(EmuError::MemBounds));
    assert_eq!(emu.read_mem_u32(12).unwrap(), 0);
    // An unmapped write address is an operand-range error.
    let mut emu = QPUEmu::new(16);
    let bad_write = alu_word(
        SIG_NONE,
        COND_NEVER,
        COND_NEVER,
        0,
        0,
        60,
        WA_NOP,
        MULOP_NOP,
        ADDOP_NOP,
        RA_NOP,
        RB_NOP,
        0,
        0,
        0,
        0,
    );
    assert_eq!(
        emu.execute_inst(&decode_inst(bad_write).unwrap()),
        Err(EmuError::AddressRange)
    );
}

#[test]
fn lane_rotation_moves_results_up() {
    // A small-immediate code of 48 + 3 rotates each lane's result three lanes
    // up; the immediate itself reads as zero, so OR with R0 copies it rotated.
    let mut emu = QPUEmu::new(64);
    for e in 0..16 {
        emu.set_acc(e, 0, 100 + e as u32);
    }
    let w = small_imm_word(
        COND_ALWAYS,
        0,
        4,
        WA_NOP,
        ADDOP_OR,
        RA_NOP,
        48 + 3,
        ALU_SRC_R0,
        ALU_SRC_RB,
    );
    let inst = decode_inst(w).unwrap();
    emu.execute_inst(&inst).unwrap();
    for e in 0..16usize {
        assert_eq!(emu.get_ra((e + 3) % 16, 4), 100 + e as u32);
    }
}
