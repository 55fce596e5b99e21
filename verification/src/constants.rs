//! Numeric encodings of the QPU instruction set: signal nibbles, register-file
//! address maps, operand-mux selectors, operation codes and condition codes.
use vstd::prelude::*;

verus! {

// Signalling bits (bits 63..60 of an instruction word).
pub const SIG_BPKT: u8 = 0;
pub const SIG_NONE: u8 = 1;
pub const SIG_LDTMU0: u8 = 10;
pub const SIG_NOPSI: u8 = 13;
pub const SIG_LDI: u8 = 14;
pub const SIG_BRA: u8 = 15;

// Read addresses of the A bank.
pub const RA_RA31: u8 = 31;
pub const RA_UNIFORM_READ: u8 = 32;
pub const RA_ELEMENT_NUMBER: u8 = 38;
pub const RA_NOP: u8 = 39;
pub const RA_VPM_READ: u8 = 48;
pub const RA_VPM_LD_BUSY: u8 = 49;
pub const RA_VPM_LD_WAIT: u8 = 50;
pub const RA_MUTEX_ACQUIRE: u8 = 51;

// Read addresses of the B bank.
pub const RB_RB31: u8 = 31;
pub const RB_UNIFORM_READ: u8 = 32;
pub const RB_NOP: u8 = 39;
pub const RB_VPM_READ: u8 = 48;
pub const RB_VPM_ST_BUSY: u8 = 49;
pub const RB_VPM_ST_WAIT: u8 = 50;
pub const RB_MUTEX_ACQUIRE: u8 = 51;

// Write addresses of the A bank.
pub const WA_RA0: u8 = 0;
pub const WA_RA31: u8 = 31;
pub const WA_ACC0: u8 = 32;
pub const WA_ACC1: u8 = 33;
pub const WA_ACC2: u8 = 34;
pub const WA_ACC3: u8 = 35;
pub const WA_TMU_NOSWAP: u8 = 36;
pub const WA_HOST_INT: u8 = 38;
pub const WA_NOP: u8 = 39;
pub const WA_UNIFORMS_ADDRESS: u8 = 40;
pub const WA_VPM_WRITE: u8 = 48;
pub const WA_VPMVCD_RD_SETUP: u8 = 49;
pub const WA_VPM_LD_ADDR: u8 = 50;
pub const WA_MUTEX_RELEASE: u8 = 51;
pub const WA_TMU0_S: u8 = 56;
pub const WA_TMU0_T: u8 = 57;
pub const WA_TMU0_R: u8 = 58;
pub const WA_TMU0_B: u8 = 59;

// Write addresses of the B bank.
pub const WB_RB0: u8 = 0;
pub const WB_RB31: u8 = 31;
pub const WB_ACC0: u8 = 32;
pub const WB_ACC1: u8 = 33;
pub const WB_ACC2: u8 = 34;
pub const WB_ACC3: u8 = 35;
pub const WB_TMU_NOSWAP: u8 = 36;
pub const WB_ACC5: u8 = 37;
pub const WB_HOST_INT: u8 = 38;
pub const WB_NOP: u8 = 39;
pub const WB_UNIFORMS_ADDRESS: u8 = 40;
pub const WB_VPM_WRITE: u8 = 48;
pub const WB_VPMVCD_WR_SETUP: u8 = 49;
pub const WB_VPM_ST_ADDR: u8 = 50;
pub const WB_MUTEX_RELEASE: u8 = 51;
pub const WB_TMU0_S: u8 = 56;
pub const WB_TMU0_T: u8 = 57;
pub const WB_TMU0_R: u8 = 58;
pub const WB_TMU0_B: u8 = 59;

// Operand-mux selectors of both ALU pipelines.
pub const ALU_SRC_R0: u8 = 0;
pub const ALU_SRC_R1: u8 = 1;
pub const ALU_SRC_R2: u8 = 2;
pub const ALU_SRC_R3: u8 = 3;
pub const ALU_SRC_R4: u8 = 4;
pub const ALU_SRC_R5: u8 = 5;
pub const ALU_SRC_RA: u8 = 6;
pub const ALU_SRC_RB: u8 = 7;

// Add-pipeline operation codes (5 bits).
pub const ADDOP_NOP: u8 = 0;
pub const ADDOP_FADD: u8 = 1;
pub const ADDOP_FSUB: u8 = 2;
pub const ADDOP_FMIN: u8 = 3;
pub const ADDOP_FMAX: u8 = 4;
pub const ADDOP_FMINABS: u8 = 5;
pub const ADDOP_FMAXABS: u8 = 6;
pub const ADDOP_FTOI: u8 = 7;
pub const ADDOP_ITOF: u8 = 8;
pub const ADDOP_ADD: u8 = 12;
pub const ADDOP_SUB: u8 = 13;
pub const ADDOP_SHR: u8 = 14;
pub const ADDOP_ASR: u8 = 15;
pub const ADDOP_ROR: u8 = 16;
pub const ADDOP_SHL: u8 = 17;
pub const ADDOP_MIN: u8 = 18;
pub const ADDOP_MAX: u8 = 19;
pub const ADDOP_AND: u8 = 20;
pub const ADDOP_OR: u8 = 21;
pub const ADDOP_XOR: u8 = 22;
pub const ADDOP_NOT: u8 = 23;
pub const ADDOP_CLZ: u8 = 24;
pub const ADDOP_V8ADDS: u8 = 30;
pub const ADDOP_V8SUBS: u8 = 31;

// Mul-pipeline operation codes (3 bits).
pub const MULOP_NOP: u8 = 0;
pub const MULOP_FMUL: u8 = 1;
pub const MULOP_MUL24: u8 = 2;
pub const MULOP_V8MULD: u8 = 3;
pub const MULOP_V8MIN: u8 = 4;
pub const MULOP_V8MAX: u8 = 5;
pub const MULOP_V8ADDS: u8 = 6;
pub const MULOP_V8SUBS: u8 = 7;

// Per-lane condition codes of the two ALU pipelines (3 bits).
pub const COND_NEVER: u8 = 0;
pub const COND_ALWAYS: u8 = 1;
pub const COND_ZS: u8 = 2;
pub const COND_ZC: u8 = 3;
pub const COND_NS: u8 = 4;
pub const COND_NC: u8 = 5;
pub const COND_CS: u8 = 6;
pub const COND_CC: u8 = 7;

// Branch condition codes (4 bits).
pub const COND_BR_ZS: u8 = 0;
pub const COND_BR_ZC: u8 = 1;
pub const COND_BR_ANYZS: u8 = 2;
pub const COND_BR_ANYZC: u8 = 3;
pub const COND_BR_NS: u8 = 4;
pub const COND_BR_NC: u8 = 5;
pub const COND_BR_ANYNS: u8 = 6;
pub const COND_BR_ANYNC: u8 = 7;
pub const COND_BR_CS: u8 = 8;
pub const COND_BR_CC: u8 = 9;
pub const COND_BR_ANYCS: u8 = 10;
pub const COND_BR_ANYCC: u8 = 11;
pub const COND_BR_ALWAYS: u8 = 15;

} // verus!
