//! The processor core: per-lane register files, condition flags, flat memory,
//! the VPM scratchpad with its DMA engines, the TMU0 request queue, and the
//! dual-ALU instruction executors driven by a per-thread program-counter loop.
use vstd::prelude::*;

verus! {

use crate::bits::{get_bits_u32, spec_get_bits_u32, spec_u32_from_le_bytes, spec_u32_le_bytes,
    u32_to_u8x4, u8x4_to_u32};
use crate::constants::{RA_ELEMENT_NUMBER, RA_MUTEX_ACQUIRE, RA_NOP, RA_RA31, RA_UNIFORM_READ,
    RA_VPM_LD_BUSY, RA_VPM_LD_WAIT, RA_VPM_READ, RB_MUTEX_ACQUIRE, RB_NOP, RB_RB31,
    RB_UNIFORM_READ, RB_VPM_READ, RB_VPM_ST_BUSY, RB_VPM_ST_WAIT, WA_ACC0, WA_ACC3, WA_HOST_INT,
    WA_MUTEX_RELEASE, WA_NOP, WA_RA31, WA_TMU0_B, WA_TMU0_S, WA_TMU_NOSWAP, WA_UNIFORMS_ADDRESS,
    WA_VPMVCD_RD_SETUP, WA_VPM_LD_ADDR, WA_VPM_WRITE, WB_ACC0, WB_ACC3, WB_ACC5, WB_HOST_INT,
    WB_MUTEX_RELEASE, WB_NOP, WB_RB31, WB_TMU0_B, WB_TMU0_S, WB_TMU_NOSWAP, WB_UNIFORMS_ADDRESS,
    WB_VPMVCD_WR_SETUP, WB_VPM_ST_ADDR, WB_VPM_WRITE};
use crate::errors::EmuError;
use crate::instructions::{spec_decode_inst, InstFormat};

/// Per-lane storage: `count` registers, each `num_elems` lanes wide, kept as
/// one flat vector indexed by `num_elems * register + lane`.
pub struct RegisterFile<T: Copy> {
    num_elems: usize,
    regs: Vec<T>,
}

impl<T: Copy> View for RegisterFile<T> {
    type V = Seq<T>;

    closed spec fn view(&self) -> Seq<T> {
        self.regs@
    }
}

/// The flat contents of one register: lanes `0..num_elems` of register `idx`.
pub open spec fn spec_reg_row<T>(regs: Seq<T>, num_elems: int, idx: int) -> Seq<T> {
    regs.subrange(num_elems * idx, num_elems * (idx + 1))
}

/// The register file after a predicated vector write: within register `idx`,
/// each lane with a present value takes it; every other slot is unchanged.
pub open spec fn spec_set_vec<T>(regs: Seq<T>, num_elems: int, idx: int, vals: Seq<Option<T>>) -> Seq<T> {
    Seq::new(
        regs.len(),
        |i: int|
            if num_elems * idx <= i < num_elems * (idx + 1) && vals[i - num_elems * idx] is Some {
                vals[i - num_elems * idx]->Some_0
            } else {
                regs[i]
            },
    )
}

impl<T: Copy> RegisterFile<T> {
    /// How many lanes each register holds.
    pub closed spec fn spec_num_elems(&self) -> usize {
        self.num_elems
    }

    /// Make a file of `count` registers of `num_elems` lanes, all `default`.
    pub fn new(num_elems: usize, count: usize, default: T) -> (r: RegisterFile<T>)
        requires
            num_elems * count <= usize::MAX,
        ensures
            r.spec_num_elems() == num_elems,
            r@.len() == num_elems * count,
            forall|i: int| 0 <= i < r@.len() ==> r@[i] == default,
    {
        let total = num_elems * count;
        let mut regs: Vec<T> = Vec::new();
        let mut i: usize = 0;
        while i < total
            invariant
                i <= total,
                regs@.len() == i,
                forall|j: int| 0 <= j < i ==> regs@[j] == default,
            decreases total - i,
        {
            regs.push(default);
            i = i + 1;
        }
        RegisterFile { num_elems, regs }
    }

    /// One lane of one register.
    pub fn get(&self, elem: usize, idx: usize) -> (r: T)
        requires
            self.spec_num_elems() * idx + elem < self@.len(),
        ensures
            r == self@[self.spec_num_elems() * idx + elem],
    {
        let n = self.regs.len();
        self.regs[self.num_elems * idx + elem]
    }

    /// Store one lane of one register.
    pub fn set(&mut self, elem: usize, idx: usize, val: T)
        requires
            old(self).spec_num_elems() * idx + elem < old(self)@.len(),
        ensures
            final(self)@ == old(self)@.update(old(self).spec_num_elems() * idx + elem, val),
            final(self).spec_num_elems() == old(self).spec_num_elems(),
    {
        let n = self.regs.len();
        let i = self.num_elems * idx + elem;
        self.regs[i] = val;
    }

    /// Borrow all lanes of one register.
    pub fn get_vec(&self, idx: usize) -> (r: &[T])
        requires
            self.spec_num_elems() >= 1,
            self.spec_num_elems() * (idx + 1) <= self@.len(),
        ensures
            r@ == spec_reg_row(self@, self.spec_num_elems() as int, idx as int),
    {
        let n = self.regs.len();
        proof {
            assert(self.spec_num_elems() * (idx + 1) == self.spec_num_elems() * idx
                + self.spec_num_elems()) by (nonlinear_arith);
        }
        let beg = self.num_elems * idx;
        let end = beg + self.num_elems;
        vstd::slice::slice_subrange(self.regs.as_slice(), beg, end)
    }

    /// Predicated vector write: only lanes whose option holds a value are stored.
    pub fn set_vec(&mut self, idx: usize, vals: &[Option<T>])
        requires
            vals@.len() == old(self).spec_num_elems(),
            old(self).spec_num_elems() >= 1,
            old(self).spec_num_elems() * (idx + 1) <= old(self)@.len(),
        ensures
            final(self)@ == spec_set_vec(
                old(self)@,
                old(self).spec_num_elems() as int,
                idx as int,
                vals@,
            ),
            final(self).spec_num_elems() == old(self).spec_num_elems(),
    {
        let ne = self.num_elems;
        let n = self.regs.len();
        proof {
            assert(ne * (idx + 1) == ne * idx + ne) by (nonlinear_arith);
        }
        let ghost regs0 = self@;
        let mut elem: usize = 0;
        while elem < ne
            invariant
                elem <= ne,
                ne == self.spec_num_elems(),
                vals@.len() == ne,
                ne * idx + ne <= regs0.len(),
                self@.len() == regs0.len(),
                regs0.len() <= usize::MAX,
                forall|i: int|
                    0 <= i < regs0.len() ==> self@[i] == (
                    if ne * idx <= i < ne * idx + elem && vals@[i - ne * idx] is Some {
                        vals@[i - ne * idx]->Some_0
                    } else {
                        regs0[i]
                    }),
            decreases ne - elem,
        {
            if let Some(val) = vals[elem] {
                let i = ne * idx + elem;
                self.regs[i] = val;
            }
            elem = elem + 1;
        }
        proof {
            assert(ne * (idx as int + 1) == ne * idx + ne) by (nonlinear_arith);
            assert(self@ =~= spec_set_vec(regs0, ne as int, idx as int, vals@));
        }
    }
}

/// Cursor and shape of single-transaction VPM writes.
#[derive(Debug, Clone, Copy, PartialEq, Eq, Structural)]
pub struct VPMWrite {
    pub stride: usize,
    pub horizontal: bool,
    pub laned: bool,
    pub size: usize,
    pub addr: usize,
}

impl VPMWrite {
    /// The reset configuration: horizontal, unlaned, zero cursor.
    pub fn new() -> (r: Self)
        ensures
            r == (VPMWrite { stride: 0, horizontal: true, laned: false, size: 0, addr: 0 }),
    {
        VPMWrite { stride: 0, horizontal: true, laned: false, size: 0, addr: 0 }
    }
}

/// Geometry of a DMA store from the VPM into flat memory.
#[derive(Debug, Clone, Copy, PartialEq, Eq, Structural)]
pub struct VPMDMAStore {
    pub units: u32,
    pub depth: u32,
    pub laned: bool,
    pub horiz: bool,
    pub vpmbase: u32,
    pub modew: u32,
    pub blockmode: u32,
    pub stride: u32,
}

impl VPMDMAStore {
    /// The reset configuration.
    pub fn new() -> (r: Self)
        ensures
            r == (VPMDMAStore {
                units: 0,
                depth: 0,
                laned: false,
                horiz: true,
                vpmbase: 0,
                modew: 0,
                blockmode: 0,
                stride: 0,
            }),
    {
        VPMDMAStore {
            units: 0,
            depth: 0,
            laned: false,
            horiz: true,
            vpmbase: 0,
            modew: 0,
            blockmode: 0,
            stride: 0,
        }
    }
}

/// Cursor and shape of single-transaction VPM reads.
#[derive(Debug, Clone, Copy, PartialEq, Eq, Structural)]
pub struct VPMRead {
    pub num: usize,
    pub stride: usize,
    pub horizontal: bool,
    pub laned: bool,
    pub size: usize,
    pub addr: usize,
}

impl VPMRead {
    /// The reset configuration.
    pub fn new() -> (r: Self)
        ensures
            r == (VPMRead { num: 0, stride: 0, horizontal: true, laned: false, size: 0, addr: 0 }),
    {
        VPMRead { num: 0, stride: 0, horizontal: true, laned: false, size: 0, addr: 0 }
    }
}

/// Geometry of a DMA load from flat memory into the VPM.
#[derive(Debug, Clone, Copy, PartialEq, Eq, Structural)]
pub struct VPMDMALoad {
    pub modew: u32,
    pub mpitch: u32,
    pub rowlen: usize,
    pub nrows: usize,
    pub vpitch: u32,
    pub vert: bool,
    pub addrxy: u32,
    pub mpitchb: u32,
}

impl VPMDMALoad {
    /// The reset configuration.
    pub fn new() -> (r: Self)
        ensures
            r == (VPMDMALoad {
                modew: 0,
                mpitch: 0,
                rowlen: 0,
                nrows: 0,
                vpitch: 0,
                vert: false,
                addrxy: 0,
                mpitchb: 0,
            }),
    {
        VPMDMALoad {
            modew: 0,
            mpitch: 0,
            rowlen: 0,
            nrows: 0,
            vpitch: 0,
            vert: false,
            addrxy: 0,
            mpitchb: 0,
        }
    }
}

/// The mathematical state of the whole core: every register lane, flag,
/// cursor, queue and byte of memory, as plain sequences and scalars.
pub struct QPUState {
    pub pc: int,
    pub reg_r: Seq<u32>,
    pub reg_ra: Seq<u32>,
    pub reg_rb: Seq<u32>,
    pub insts: Seq<u64>,
    pub zf: Seq<bool>,
    pub nf: Seq<bool>,
    pub cf: Seq<bool>,
    pub uniform_ptr: u32,
    pub slots: Seq<(u32, u64)>,
    pub mem: Seq<u8>,
    pub vpm: Seq<Seq<u8>>,
    pub dma_load: VPMDMALoad,
    pub vpm_read: VPMRead,
    pub dma_store: VPMDMAStore,
    pub vpm_write: VPMWrite,
    pub tmu0: Seq<(u8, Seq<u32>)>,
    pub breakpoints: Seq<u32>,
}

/// The emulated core. All lane-replicated state is 16 wide; memory is a flat
/// little-endian byte buffer supplied at construction.
pub struct QPUEmu {
    pub(crate) pc: usize,
    pub(crate) reg_r: RegisterFile<u32>,
    pub(crate) reg_ra: RegisterFile<u32>,
    pub(crate) reg_rb: RegisterFile<u32>,
    pub(crate) insts: Vec<u64>,
    pub(crate) zf: Vec<bool>,
    pub(crate) nf: Vec<bool>,
    pub(crate) cf: Vec<bool>,
    pub(crate) uniform_ptr: u32,
    pub(crate) slots: Vec<(u32, u64)>,
    /// The flat byte memory the kernel under test reads and writes.
    pub mem: Vec<u8>,
    pub(crate) vpm: Vec<Vec<u8>>,
    pub(crate) vpm_dma_load: VPMDMALoad,
    pub(crate) vpm_read: VPMRead,
    pub(crate) vpm_dma_store: VPMDMAStore,
    pub(crate) vpm_write: VPMWrite,
    pub(crate) tmu0_req_fifo: Vec<(u8, [u32; 16])>,
    pub(crate) breakpoint_pcs: Vec<u32>,
}

impl View for QPUEmu {
    type V = QPUState;

    closed spec fn view(&self) -> QPUState {
        QPUState {
            pc: self.pc as int,
            reg_r: self.reg_r@,
            reg_ra: self.reg_ra@,
            reg_rb: self.reg_rb@,
            insts: self.insts@,
            zf: self.zf@,
            nf: self.nf@,
            cf: self.cf@,
            uniform_ptr: self.uniform_ptr,
            slots: self.slots@,
            mem: self.mem@,
            vpm: self.vpm@.map_values(|col: Vec<u8>| col@),
            dma_load: self.vpm_dma_load,
            vpm_read: self.vpm_read,
            dma_store: self.vpm_dma_store,
            vpm_write: self.vpm_write,
            tmu0: self.tmu0_req_fifo@.map_values(|e: (u8, [u32; 16])| (e.0, e.1@)),
            breakpoints: self.breakpoint_pcs@,
        }
    }
}

/// Shape of a well-formed core: 16 lanes everywhere, six accumulators, two
/// 32-register banks, a 16-column VPM of 256 bytes each, a TMU queue of at
/// most 8 entries of 16 lanes.
pub open spec fn wf_state(s: QPUState) -> bool {
    &&& s.reg_r.len() == 96
    &&& s.reg_ra.len() == 512
    &&& s.reg_rb.len() == 512
    &&& s.zf.len() == 16
    &&& s.nf.len() == 16
    &&& s.cf.len() == 16
    &&& s.slots.len() == 3
    &&& s.vpm.len() == 16
    &&& (forall|i: int| 0 <= i < 16 ==> #[trigger] s.vpm[i].len() == 256)
    &&& s.tmu0.len() <= 8
    &&& (forall|i: int|
        0 <= i < s.tmu0.len() ==> (#[trigger] s.tmu0[i]).1.len() == 16 && s.tmu0[i].0 <= 3)
    &&& 0 <= s.pc
    &&& s.dma_load.rowlen <= 16
    &&& s.dma_load.nrows <= 16
    &&& s.dma_load.vpitch <= 16
    &&& (s.dma_load.vpitch == 0 ==> s.dma_load.nrows == 0)
    &&& s.dma_load.mpitch <= 15
    &&& s.dma_load.modew <= 7
    &&& s.dma_load.addrxy <= 2047
    &&& s.dma_store.units <= 128
    &&& s.dma_store.depth <= 128
    &&& (s.dma_store.depth == 0 ==> s.dma_store.units == 0)
    &&& s.dma_store.vpmbase <= 2047
    &&& s.dma_store.modew <= 7
}

/// The little-endian 32-bit word stored at byte offset `a` of `mem`.
pub open spec fn spec_le_word_at(mem: Seq<u8>, a: int) -> u32
    recommends
        0 <= a,
        a + 4 <= mem.len(),
{
    spec_u32_from_le_bytes(mem[a], mem[a + 1], mem[a + 2], mem[a + 3])
}

/// `mem` with the little-endian 32-bit word `v` stored at byte offset `a`.
pub open spec fn spec_with_le_word(mem: Seq<u8>, a: int, v: u32) -> Seq<u8>
    recommends
        0 <= a,
        a + 4 <= mem.len(),
{
    mem.update(a, spec_u32_le_bytes(v)[0]).update(a + 1, spec_u32_le_bytes(v)[1]).update(
        a + 2,
        spec_u32_le_bytes(v)[2],
    ).update(a + 3, spec_u32_le_bytes(v)[3])
}

impl QPUEmu {
    /// Whether the core is well formed; established by `new` and kept by every
    /// operation.
    pub open spec fn wf(&self) -> bool {
        &&& wf_state(self@)
        &&& self.wf_files()
    }

    /// The register files carry their lane width.
    pub closed spec fn wf_files(&self) -> bool {
        &&& self.reg_r.spec_num_elems() == 16
        &&& self.reg_ra.spec_num_elems() == 16
        &&& self.reg_rb.spec_num_elems() == 16
    }

    /// Make a core with `mem_size` bytes of zeroed memory, zeroed registers,
    /// Z flags set, N and C flags clear, and all peripheral state at reset.
    pub fn new(mem_size: usize) -> (r: QPUEmu)
        ensures
            r.wf(),
            r@.mem.len() == mem_size,
            forall|i: int| 0 <= i < mem_size ==> r@.mem[i] == 0,
            forall|i: int| 0 <= i < 96 ==> r@.reg_r[i] == 0,
            forall|i: int| 0 <= i < 512 ==> r@.reg_ra[i] == 0,
            forall|i: int| 0 <= i < 512 ==> r@.reg_rb[i] == 0,
            forall|i: int| 0 <= i < 16 ==> r@.zf[i] == true,
            forall|i: int| 0 <= i < 16 ==> r@.nf[i] == false,
            forall|i: int| 0 <= i < 16 ==> r@.cf[i] == false,
            forall|c: int, b: int| 0 <= c < 16 && 0 <= b < 256 ==> r@.vpm[c][b] == 0,
            forall|i: int| 0 <= i < 3 ==> r@.slots[i] == ((0u32, 1u64 << 60u64)),
            r@.pc == 0,
            r@.uniform_ptr == 0,
            r@.insts.len() == 0,
            r@.tmu0.len() == 0,
            r@.breakpoints.len() == 0,
            r@.dma_load == (VPMDMALoad {
                modew: 0,
                mpitch: 0,
                rowlen: 0,
                nrows: 0,
                vpitch: 0,
                vert: false,
                addrxy: 0,
                mpitchb: 0,
            }),
            r@.vpm_read == (VPMRead {
                num: 0,
                stride: 0,
                horizontal: true,
                laned: false,
                size: 0,
                addr: 0,
            }),
            r@.dma_store == (VPMDMAStore {
                units: 0,
                depth: 0,
                laned: false,
                horiz: true,
                vpmbase: 0,
                modew: 0,
                blockmode: 0,
                stride: 0,
            }),
            r@.vpm_write == (VPMWrite {
                stride: 0,
                horizontal: true,
                laned: false,
                size: 0,
                addr: 0,
            }),
    {
        let mut vpm: Vec<Vec<u8>> = Vec::new();
        while vpm.len() < 16
            invariant
                vpm@.len() <= 16,
                forall|i: int|
                    0 <= i < vpm@.len() ==> #[trigger] vpm@[i]@.len() == 256 && forall|b: int|
                        0 <= b < 256 ==> vpm@[i]@[b] == 0,
            decreases 16 - vpm@.len(),
        {
            let mut col: Vec<u8> = Vec::new();
            while col.len() < 256
                invariant
                    col@.len() <= 256,
                    forall|b: int| 0 <= b < col@.len() ==> col@[b] == 0,
                decreases 256 - col@.len(),
            {
                col.push(0);
            }
            vpm.push(col);
        }

        let mut mem: Vec<u8> = Vec::new();
        while mem.len() < mem_size
            invariant
                mem@.len() <= mem_size,
                forall|i: int| 0 <= i < mem@.len() ==> mem@[i] == 0,
            decreases mem_size - mem@.len(),
        {
            mem.push(0);
        }

        let mut zf: Vec<bool> = Vec::new();
        let mut nf: Vec<bool> = Vec::new();
        let mut cf: Vec<bool> = Vec::new();
        while zf.len() < 16
            invariant
                zf@.len() <= 16,
                nf@.len() == zf@.len(),
                cf@.len() == zf@.len(),
                forall|i: int| 0 <= i < zf@.len() ==> zf@[i] == true,
                forall|i: int| 0 <= i < nf@.len() ==> nf@[i] == false,
                forall|i: int| 0 <= i < cf@.len() ==> cf@[i] == false,
            decreases 16 - zf@.len(),
        {
            zf.push(true);
            nf.push(false);
            cf.push(false);
        }

        let mut slots: Vec<(u32, u64)> = Vec::new();
        while slots.len() < 3
            invariant
                slots@.len() <= 3,
                forall|i: int| 0 <= i < slots@.len() ==> slots@[i] == ((0u32, 1u64 << 60u64)),
            decreases 3 - slots@.len(),
        {
            slots.push((0, 1u64 << 60u64));
        }

        let ghost gvpm = vpm@;
        let r = QPUEmu {
            pc: 0,
            reg_r: RegisterFile::new(16, 6, 0u32),
            reg_ra: RegisterFile::new(16, 32, 0u32),
            reg_rb: RegisterFile::new(16, 32, 0u32),
            insts: Vec::new(),
            zf,
            nf,
            cf,
            uniform_ptr: 0,
            slots,
            mem,
            vpm,
            vpm_dma_load: VPMDMALoad::new(),
            vpm_read: VPMRead::new(),
            vpm_dma_store: VPMDMAStore::new(),
            vpm_write: VPMWrite::new(),
            tmu0_req_fifo: Vec::new(),
            breakpoint_pcs: Vec::new(),
        };
        proof {
            assert forall|c: int| 0 <= c < 16 implies #[trigger] r@.vpm[c].len() == 256 by {
                assert(r@.vpm[c] == gvpm[c]@);
            }
            assert forall|c: int, b: int| 0 <= c < 16 && 0 <= b < 256 implies r@.vpm[c][b]
                == 0 by {
                assert(r@.vpm[c] == gvpm[c]@);
            }
        }
        r
    }

    /// Read the aligned little-endian 32-bit word at byte address `addr`.
    pub fn read_mem_u32(&self, addr: usize) -> (r: Result<u32, EmuError>)
        ensures
            r is Ok <==> (addr % 4 == 0 && addr + 4 <= self@.mem.len()),
            r is Ok ==> r->Ok_0 == spec_le_word_at(self@.mem, addr as int),
            addr % 4 != 0 ==> r == Err::<u32, EmuError>(EmuError::Alignment),
            addr % 4 == 0 && addr + 4 > self@.mem.len() ==> r == Err::<u32, EmuError>(
                EmuError::MemBounds,
            ),
    {
        if addr % 4 != 0 {
            return Err(EmuError::Alignment);
        }
        if self.mem.len() < 4 || addr > self.mem.len() - 4 {
            return Err(EmuError::MemBounds);
        }
        let b0 = self.mem[addr];
        let b1 = self.mem[addr + 1];
        let b2 = self.mem[addr + 2];
        let b3 = self.mem[addr + 3];
        Ok(u8x4_to_u32([b0, b1, b2, b3]))
    }

    /// Store the little-endian 32-bit word `v` at the aligned byte address
    /// `addr`; nothing else of the core changes.
    fn write_mem_u32(&mut self, addr: usize, v: u32) -> (r: Result<(), EmuError>)
        ensures
            r is Ok <==> (addr % 4 == 0 && addr + 4 <= old(self)@.mem.len()),
            r is Ok ==> final(self)@ == (QPUState {
                mem: spec_with_le_word(old(self)@.mem, addr as int, v),
                ..old(self)@
            }),
            r is Err ==> final(self)@ == old(self)@,
            addr % 4 != 0 ==> r == Err::<(), EmuError>(EmuError::Alignment),
            addr % 4 == 0 && addr + 4 > old(self)@.mem.len() ==> r == Err::<(), EmuError>(
                EmuError::MemBounds,
            ),
            final(self).wf_files() == old(self).wf_files(),
    {
        if addr % 4 != 0 {
            return Err(EmuError::Alignment);
        }
        if self.mem.len() < 4 || addr > self.mem.len() - 4 {
            return Err(EmuError::MemBounds);
        }
        let bytes = u32_to_u8x4(v);
        self.mem[addr] = bytes[0];
        self.mem[addr + 1] = bytes[1];
        self.mem[addr + 2] = bytes[2];
        self.mem[addr + 3] = bytes[3];
        Ok(())
    }

    /// Read the aligned 32-bit word at byte offset `addr` of VPM column `elem`.
    fn read_vpm_mem_u32(&self, elem: usize, addr: usize) -> (r: Result<u32, EmuError>)
        requires
            self.wf(),
            elem < 16,
        ensures
            r is Ok <==> (addr % 4 == 0 && addr + 4 <= 256),
            r is Ok ==> r->Ok_0 == spec_le_word_at(self@.vpm[elem as int], addr as int),
            addr % 4 != 0 ==> r == Err::<u32, EmuError>(EmuError::Alignment),
            addr % 4 == 0 && addr + 4 > 256 ==> r == Err::<u32, EmuError>(EmuError::MemBounds),
    {
        if addr % 4 != 0 {
            return Err(EmuError::Alignment);
        }
        if addr > 252 {
            return Err(EmuError::MemBounds);
        }
        proof {
            assert(self@.vpm[elem as int] == self.vpm@[elem as int]@);
        }
        let col = &self.vpm[elem];
        let b0 = col[addr];
        let b1 = col[addr + 1];
        let b2 = col[addr + 2];
        let b3 = col[addr + 3];
        Ok(u8x4_to_u32([b0, b1, b2, b3]))
    }

    /// Store the 32-bit word `v` at byte offset `addr` of VPM column `elem`;
    /// nothing else of the core changes.
    fn write_vpm_mem_u32(&mut self, elem: usize, addr: usize, v: u32) -> (r: Result<
        (),
        EmuError,
    >)
        requires
            old(self).wf(),
            elem < 16,
        ensures
            r is Ok <==> (addr % 4 == 0 && addr + 4 <= 256),
            r is Ok ==> final(self)@ == (QPUState {
                vpm: old(self)@.vpm.update(
                    elem as int,
                    spec_with_le_word(old(self)@.vpm[elem as int], addr as int, v),
                ),
                ..old(self)@
            }),
            r is Err ==> final(self)@ == old(self)@,
            addr % 4 != 0 ==> r == Err::<(), EmuError>(EmuError::Alignment),
            addr % 4 == 0 && addr + 4 > 256 ==> r == Err::<(), EmuError>(EmuError::MemBounds),
            final(self).wf(),
    {
        if addr % 4 != 0 {
            return Err(EmuError::Alignment);
        }
        if addr > 252 {
            return Err(EmuError::MemBounds);
        }
        proof {
            assert(old(self)@.vpm[elem as int] == self.vpm@[elem as int]@);
        }
        let bytes = u32_to_u8x4(v);
        let col = &mut self.vpm[elem];
        col[addr] = bytes[0];
        col[addr + 1] = bytes[1];
        col[addr + 2] = bytes[2];
        col[addr + 3] = bytes[3];
        proof {
            assert(self@.vpm =~= old(self)@.vpm.update(
                elem as int,
                spec_with_le_word(old(self)@.vpm[elem as int], addr as int, v),
            ));
            assert(self@ == (QPUState {
                vpm: old(self)@.vpm.update(
                    elem as int,
                    spec_with_le_word(old(self)@.vpm[elem as int], addr as int, v),
                ),
                ..old(self)@
            }));
        }
        Ok(())
    }
}

/// The DMA-load configuration after a setup command of the load class.
pub open spec fn spec_setup_dma_load(cfg: VPMDMALoad, command: u32) -> VPMDMALoad {
    if spec_get_bits_u32(command, 31, 28) == 9 {
        VPMDMALoad { mpitchb: spec_get_bits_u32(command, 15, 0), ..cfg }
    } else {
        let rowlen = spec_get_bits_u32(command, 23, 20) as usize;
        let nrows = spec_get_bits_u32(command, 19, 16) as usize;
        let vpitch = spec_get_bits_u32(command, 15, 12);
        VPMDMALoad {
            modew: spec_get_bits_u32(command, 30, 28),
            mpitch: spec_get_bits_u32(command, 27, 24),
            rowlen: if rowlen == 0 {
                16
            } else {
                rowlen
            },
            nrows: if nrows == 0 {
                16
            } else {
                nrows
            },
            vpitch: if vpitch == 0 {
                16
            } else {
                vpitch
            },
            vert: spec_get_bits_u32(command, 11, 11) != 0,
            addrxy: spec_get_bits_u32(command, 10, 0),
            mpitchb: cfg.mpitchb,
        }
    }
}

/// The VPM-read configuration after a setup command of the read class.
pub open spec fn spec_setup_vpm_read(cfg: VPMRead, command: u32) -> VPMRead {
    let num = spec_get_bits_u32(command, 23, 20) as usize;
    let stride = spec_get_bits_u32(command, 17, 12) as usize;
    VPMRead {
        num: if num == 0 {
            16
        } else {
            num
        },
        stride: if stride == 0 {
            64
        } else {
            stride
        },
        horizontal: spec_get_bits_u32(command, 11, 11) != 0,
        laned: spec_get_bits_u32(command, 10, 10) != 0,
        size: spec_get_bits_u32(command, 9, 8) as usize,
        addr: spec_get_bits_u32(command, 7, 0) as usize,
    }
}

/// The DMA-store configuration after a setup command of the stride class
/// (top bits 3) or the parameter class (top bits 2).
pub open spec fn spec_setup_dma_store(cfg: VPMDMAStore, command: u32) -> VPMDMAStore {
    if spec_get_bits_u32(command, 31, 30) == 3 {
        VPMDMAStore {
            blockmode: spec_get_bits_u32(command, 16, 16),
            stride: spec_get_bits_u32(command, 15, 0),
            ..cfg
        }
    } else {
        let units = spec_get_bits_u32(command, 29, 23);
        let depth = spec_get_bits_u32(command, 22, 16);
        VPMDMAStore {
            units: if units == 0 {
                128
            } else {
                units
            },
            depth: if depth == 0 {
                128
            } else {
                depth
            },
            laned: spec_get_bits_u32(command, 15, 15) != 0,
            horiz: spec_get_bits_u32(command, 14, 14) != 0,
            vpmbase: spec_get_bits_u32(command, 13, 3),
            modew: spec_get_bits_u32(command, 2, 0),
            blockmode: cfg.blockmode,
            stride: cfg.stride,
        }
    }
}

/// The VPM-write configuration after a setup command of the write class.
pub open spec fn spec_setup_vpm_write(cfg: VPMWrite, command: u32) -> VPMWrite {
    let stride = spec_get_bits_u32(command, 17, 12) as usize;
    VPMWrite {
        stride: if stride == 0 {
            64
        } else {
            stride
        },
        horizontal: spec_get_bits_u32(command, 11, 11) != 0,
        laned: spec_get_bits_u32(command, 10, 10) != 0,
        size: spec_get_bits_u32(command, 9, 8) as usize,
        addr: spec_get_bits_u32(command, 7, 0) as usize,
    }
}

/// The low 32 bits of a cursor, as the hardware sees a VPM address register.
pub open spec fn spec_addr32(a: usize) -> int {
    (a as u64 % 0x1_0000_0000) as int
}

/// Which VPM cell a single-transaction read of lane `elem` touches, from the
/// pre-advance cursor: `(column, word index)`. Horizontal reads treat the
/// cursor as a row index and read column `elem`; vertical reads treat it as a
/// packed `(row block, column)` pair and read word `row block * 16 + elem` of
/// that column.
pub open spec fn spec_vpm_read_cell(cfg: VPMRead, elem: int) -> (int, int) {
    let a = spec_addr32(cfg.addr);
    if cfg.horizontal {
        (elem, a)
    } else {
        (a % 16, (a / 16) * 16 + elem)
    }
}

/// Whether a single-transaction VPM read of lane `elem` succeeds: only 32-bit
/// element size is implemented, the touched word must lie inside the 64-word
/// column, and lane 15's cursor advance must not overflow.
pub open spec fn spec_vpm_read_ok(cfg: VPMRead, elem: int) -> bool {
    &&& cfg.size == 2
    &&& (elem == 15 ==> cfg.addr + cfg.stride <= usize::MAX)
    &&& spec_vpm_read_cell(cfg, elem).1 < 64
}

/// The read cursor after a single-transaction read of lane `elem`: lane 15
/// advances it by the configured stride.
pub open spec fn spec_vpm_read_advanced(cfg: VPMRead, elem: int) -> VPMRead {
    if elem == 15 {
        VPMRead { addr: (cfg.addr + cfg.stride) as usize, ..cfg }
    } else {
        cfg
    }
}

impl QPUEmu {
    /// Carry out one VPM read transaction for lane `elem` against the current
    /// read setup. After lane 15's read the cursor advances by the stride.
    fn read_vpm(&mut self, elem: usize) -> (r: Result<u32, EmuError>)
        requires
            old(self).wf(),
            elem < 16,
        ensures
            final(self).wf(),
            r is Ok <==> spec_vpm_read_ok(old(self)@.vpm_read, elem as int),
            r is Ok ==> {
                let (c, w) = spec_vpm_read_cell(old(self)@.vpm_read, elem as int);
                &&& r->Ok_0 == spec_le_word_at(old(self)@.vpm[c], 4 * w)
                &&& final(self)@ == (QPUState {
                    vpm_read: spec_vpm_read_advanced(old(self)@.vpm_read, elem as int),
                    ..old(self)@
                })
            },
            r is Err ==> final(self)@ == (QPUState {
                vpm_read: if old(self)@.vpm_read.size == 2 && (elem == 15 ==> old(self)@.vpm_read.addr + old(self)@.vpm_read.stride <= usize::MAX) {
                    spec_vpm_read_advanced(old(self)@.vpm_read, elem as int)
                } else {
                    old(self)@.vpm_read
                },
                ..old(self)@
            }),
            old(self)@.vpm_read.size != 2 ==> r == Err::<u32, EmuError>(EmuError::Unimplemented),
            old(self)@.vpm_read.size == 2 && elem == 15 && old(self)@.vpm_read.addr + old(self)@.vpm_read.stride > usize::MAX ==> r == Err::<u32, EmuError>(
                EmuError::PointerOverflow,
            ),
    {
        if self.vpm_read.size != 2 {
            return Err(EmuError::Unimplemented);
        }
        let a = ((self.vpm_read.addr as u64) % 0x1_0000_0000) as u64;
        if elem == 15 {
            if self.vpm_read.addr > usize::MAX - self.vpm_read.stride {
                return Err(EmuError::PointerOverflow);
            }
            self.vpm_read.addr = self.vpm_read.addr + self.vpm_read.stride;
        }
        if self.vpm_read.horizontal {
            let y = a;
            if y >= 64 {
                return Err(EmuError::MemBounds);
            }
            self.read_vpm_mem_u32(elem, (y as usize) * 4)
        } else {
            let x = (a % 16) as usize;
            let y = (a / 16) as usize;
            if y * 16 + elem >= 64 {
                return Err(EmuError::MemBounds);
            }
            self.read_vpm_mem_u32(x, (y * 16 + elem) * 4)
        }
    }

    /// Install a VPM read, DMA-load stride, or DMA-load configuration from a
    /// setup command word; the top bits of the command select which record.
    pub fn setup_vpm_load(&mut self, command: u32)
        requires
            old(self).wf(),
        ensures
            final(self).wf(),
            spec_get_bits_u32(command, 31, 28) == 9 || spec_get_bits_u32(command, 31, 31) == 1
                ==> final(self)@ == (QPUState {
                dma_load: spec_setup_dma_load(old(self)@.dma_load, command),
                ..old(self)@
            }),
            spec_get_bits_u32(command, 31, 28) != 9 && spec_get_bits_u32(command, 31, 31) != 1
                ==> final(self)@ == (QPUState {
                vpm_read: spec_setup_vpm_read(old(self)@.vpm_read, command),
                ..old(self)@
            }),
    {
        proof {
            vstd::arithmetic::power2::lemma2_to64();
        }
        if get_bits_u32(command, 31, 28) == 9 {
            self.vpm_dma_load.mpitchb = get_bits_u32(command, 15, 0);
        } else if get_bits_u32(command, 31, 31) == 1 {
            self.vpm_dma_load.modew = get_bits_u32(command, 30, 28);
            self.vpm_dma_load.mpitch = get_bits_u32(command, 27, 24);
            self.vpm_dma_load.rowlen = get_bits_u32(command, 23, 20) as usize;
            self.vpm_dma_load.nrows = get_bits_u32(command, 19, 16) as usize;
            self.vpm_dma_load.vpitch = get_bits_u32(command, 15, 12);
            self.vpm_dma_load.vert = get_bits_u32(command, 11, 11) != 0;
            self.vpm_dma_load.addrxy = get_bits_u32(command, 10, 0);

            if self.vpm_dma_load.rowlen == 0 {
                self.vpm_dma_load.rowlen = 16;
            }
            if self.vpm_dma_load.nrows == 0 {
                self.vpm_dma_load.nrows = 16;
            }
            if self.vpm_dma_load.vpitch == 0 {
                self.vpm_dma_load.vpitch = 16;
            }
        } else {
            self.vpm_read.num = get_bits_u32(command, 23, 20) as usize;
            self.vpm_read.stride = get_bits_u32(command, 17, 12) as usize;
            self.vpm_read.horizontal = get_bits_u32(command, 11, 11) != 0;
            self.vpm_read.laned = get_bits_u32(command, 10, 10) != 0;
            self.vpm_read.size = get_bits_u32(command, 9, 8) as usize;
            self.vpm_read.addr = get_bits_u32(command, 7, 0) as usize;

            if self.vpm_read.num == 0 {
                self.vpm_read.num = 16;
            }
            if self.vpm_read.stride == 0 {
                self.vpm_read.stride = 64;
            }
        }
    }

    /// Install a DMA-store stride, DMA-store parameter, or VPM write
    /// configuration from a setup command word. A command whose class bits
    /// name no record is an operand-range error.
    pub fn setup_vpm_store(&mut self, command: u32) -> (r: Result<(), EmuError>)
        requires
            old(self).wf(),
        ensures
            final(self).wf(),
            spec_get_bits_u32(command, 31, 30) < 4,
            r is Ok <==> spec_get_bits_u32(command, 31, 30) != 1,
            spec_get_bits_u32(command, 31, 30) == 3 || spec_get_bits_u32(command, 31, 30) == 2
                ==> final(self)@ == (QPUState {
                dma_store: spec_setup_dma_store(old(self)@.dma_store, command),
                ..old(self)@
            }),
            spec_get_bits_u32(command, 31, 30) == 0 ==> final(self)@ == (QPUState {
                vpm_write: spec_setup_vpm_write(old(self)@.vpm_write, command),
                ..old(self)@
            }),
            spec_get_bits_u32(command, 31, 30) == 1 ==> r == Err::<(), EmuError>(
                EmuError::AddressRange,
            ) && final(self)@ == old(self)@,
    {
        proof {
            vstd::arithmetic::power2::lemma2_to64();
        }
        if get_bits_u32(command, 31, 30) == 3 {
            self.vpm_dma_store.blockmode = get_bits_u32(command, 16, 16);
            self.vpm_dma_store.stride = get_bits_u32(command, 15, 0);
            Ok(())
        } else if get_bits_u32(command, 31, 30) == 2 {
            self.vpm_dma_store.units = get_bits_u32(command, 29, 23);
            self.vpm_dma_store.depth = get_bits_u32(command, 22, 16);
            self.vpm_dma_store.laned = get_bits_u32(command, 15, 15) != 0;
            self.vpm_dma_store.horiz = get_bits_u32(command, 14, 14) != 0;
            self.vpm_dma_store.vpmbase = get_bits_u32(command, 13, 3);
            self.vpm_dma_store.modew = get_bits_u32(command, 2, 0);

            if self.vpm_dma_store.units == 0 {
                self.vpm_dma_store.units = 128;
            }
            if self.vpm_dma_store.depth == 0 {
                self.vpm_dma_store.depth = 128;
            }
            Ok(())
        } else if get_bits_u32(command, 31, 30) == 0 {
            self.vpm_write.stride = get_bits_u32(command, 17, 12) as usize;
            self.vpm_write.horizontal = get_bits_u32(command, 11, 11) != 0;
            self.vpm_write.laned = get_bits_u32(command, 10, 10) != 0;
            self.vpm_write.size = get_bits_u32(command, 9, 8) as usize;
            self.vpm_write.addr = get_bits_u32(command, 7, 0) as usize;

            if self.vpm_write.stride == 0 {
                self.vpm_write.stride = 64;
            }
            Ok(())
        } else {
            Err(EmuError::AddressRange)
        }
    }
}

/// The VPM after a horizontal single-transaction write at row `y`: lane `e`'s
/// value, where present, becomes word `y` of column `e`.
pub open spec fn spec_vpm_write_h(vpm: Seq<Seq<u8>>, y: int, vals: Seq<Option<u32>>) -> Seq<
    Seq<u8>,
> {
    Seq::new(
        vpm.len(),
        |c: int|
            if 0 <= c < 16 && vals[c] is Some {
                spec_with_le_word(vpm[c], 4 * y, vals[c]->Some_0)
            } else {
                vpm[c]
            },
    )
}

/// The VPM after a vertical single-transaction write at packed address
/// `(y, x)`: lane `e`'s value, where present, becomes word `y*16 + e` of
/// column `x`. Words past the end of the column leave it unchanged.
pub open spec fn spec_vpm_write_v(vpm: Seq<Seq<u8>>, x: int, y: int, vals: Seq<Option<u32>>) -> Seq<
    Seq<u8>,
> {
    vpm.update(
        x,
        Seq::new(
            vpm[x].len(),
            |b: int|
                {
                    let w = b / 4;
                    if y * 16 <= w < y * 16 + 16 && vals[w - y * 16] is Some {
                        spec_u32_le_bytes(vals[w - y * 16]->Some_0)[b % 4]
                    } else {
                        vpm[x][b]
                    }
                },
        ),
    )
}

impl QPUEmu {
    /// Carry out one VPM write transaction against the current write setup:
    /// the cursor advances by the stride, then each unmasked lane stores its
    /// word at the lane's cell.
    fn write_vpm(&mut self, values: &[Option<u32>; 16]) -> (r: Result<(), EmuError>)
        requires
            old(self).wf(),
        ensures
            final(self).wf(),
            old(self)@.vpm_write.size != 2 ==> r == Err::<(), EmuError>(EmuError::Unimplemented)
                && final(self)@ == old(self)@,
            old(self)@.vpm_write.size == 2 && old(self)@.vpm_write.addr + old(self)@.vpm_write.stride > usize::MAX ==> r == Err::<(), EmuError>(EmuError::PointerOverflow)
                && final(self)@ == old(self)@,
            ({
                let cfg = old(self)@.vpm_write;
                let adv = (VPMWrite { addr: (cfg.addr + cfg.stride) as usize, ..cfg });
                &&& (cfg.size == 2 && cfg.addr + cfg.stride <= usize::MAX && cfg.horizontal ==> r
                    is Ok && final(self)@ == (QPUState {
                    vpm: spec_vpm_write_h(old(self)@.vpm, (cfg.addr % 64) as int, values@),
                    vpm_write: adv,
                    ..old(self)@
                }))
                &&& (cfg.size == 2 && cfg.addr + cfg.stride <= usize::MAX && !cfg.horizontal ==> {
                    let a = spec_addr32(cfg.addr);
                    if a / 16 < 4 || (forall|e: int| 0 <= e < 16 ==> values@[e] is None) {
                        r is Ok && final(self)@ == (QPUState {
                            vpm: spec_vpm_write_v(old(self)@.vpm, a % 16, a / 16, values@),
                            vpm_write: adv,
                            ..old(self)@
                        })
                    } else {
                        r == Err::<(), EmuError>(EmuError::MemBounds) && final(self)@ == (QPUState {
                            vpm_write: adv,
                            ..old(self)@
                        })
                    }
                })
            }),
    {
        if self.vpm_write.size != 2 {
            return Err(EmuError::Unimplemented);
        }
        if self.vpm_write.addr > usize::MAX - self.vpm_write.stride {
            return Err(EmuError::PointerOverflow);
        }
        let ghost cfg = self.vpm_write;
        let ghost vpm0 = self@.vpm;
        let ghost adv = (VPMWrite { addr: (cfg.addr + cfg.stride) as usize, ..cfg });
        if self.vpm_write.horizontal {
            let y = self.vpm_write.addr % 64;
            self.vpm_write.addr = self.vpm_write.addr + self.vpm_write.stride;
            let mut elem: usize = 0;
            while elem < 16
                invariant
                    elem <= 16,
                    self.wf(),
                    y == cfg.addr % 64,
                    (QPUState { vpm: Seq::<Seq<u8>>::empty(), ..self@ }) == (QPUState {
                        vpm: Seq::<Seq<u8>>::empty(),
                        vpm_write: adv,
                        ..old(self)@
                    }),
                    self@.vpm.len() == 16,
                    forall|c: int|
                        0 <= c < elem ==> self@.vpm[c] == (if values@[c] is Some {
                            spec_with_le_word(vpm0[c], 4 * (cfg.addr % 64), values@[c]->Some_0)
                        } else {
                            vpm0[c]
                        }),
                    forall|c: int| elem <= c < 16 ==> self@.vpm[c] == vpm0[c],
                decreases 16 - elem,
            {
                if let Some(value) = values[elem] {
                    let res = self.write_vpm_mem_u32(elem, y * 4, value);
                    proof {
                        assert(res is Ok);
                    }
                }
                elem = elem + 1;
            }
            proof {
                assert(self@.vpm =~= spec_vpm_write_h(vpm0, (cfg.addr % 64) as int, values@));
            }
            Ok(())
        } else {
            let a = (self.vpm_write.addr as u64) % 0x1_0000_0000;
            let x = (a % 16) as usize;
            let y = (a / 16) as usize;
            self.vpm_write.addr = self.vpm_write.addr + self.vpm_write.stride;
            if y >= 4 {
                // Every lane's word index lies past the 64-word column; the
                // transaction faults at the first unmasked lane.
                let mut elem: usize = 0;
                while elem < 16
                    invariant
                        elem <= 16,
                        self.wf(),
                        cfg == old(self)@.vpm_write,
                        vpm0 == old(self)@.vpm,
                        adv == (VPMWrite { addr: (cfg.addr + cfg.stride) as usize, ..cfg }),
                        cfg.size == 2,
                        !cfg.horizontal,
                        cfg.addr + cfg.stride <= usize::MAX,
                        a == spec_addr32(cfg.addr),
                        (QPUState { vpm: Seq::<Seq<u8>>::empty(), ..self@ }) == (QPUState {
                            vpm: Seq::<Seq<u8>>::empty(),
                            vpm_write: adv,
                            ..old(self)@
                        }),
                        self@.vpm == vpm0,
                        y == a as int / 16,
                        y >= 4,
                        forall|e: int| 0 <= e < elem ==> values@[e] is None,
                    decreases 16 - elem,
                {
                    if values[elem].is_some() {
                        return Err(EmuError::MemBounds);
                    }
                    elem = elem + 1;
                }
                proof {
                    assert(spec_vpm_write_v(vpm0, a as int % 16, a as int / 16, values@)[a as int
                        % 16] =~= vpm0[a as int % 16]);
                    assert(self@.vpm =~= spec_vpm_write_v(
                        vpm0,
                        a as int % 16,
                        a as int / 16,
                        values@,
                    ));
                }
                return Ok(());
            }
            let mut elem: usize = 0;
            while elem < 16
                invariant
                    elem <= 16,
                    self.wf(),
                    x == a as int % 16,
                    y == a as int / 16,
                    y < 4,
                    x < 16,
                    (QPUState { vpm: Seq::<Seq<u8>>::empty(), ..self@ }) == (QPUState {
                        vpm: Seq::<Seq<u8>>::empty(),
                        vpm_write: adv,
                        ..old(self)@
                    }),
                    self@.vpm.len() == 16,
                    forall|c: int| 0 <= c < 16 && c != x ==> self@.vpm[c] == vpm0[c],
                    self@.vpm[x as int].len() == 256,
                    forall|b: int|
                        0 <= b < 256 ==> self@.vpm[x as int][b] == ({
                            let w = b / 4;
                            if y * 16 <= w < y * 16 + elem && values@[w - y * 16] is Some {
                                spec_u32_le_bytes(values@[w - y * 16]->Some_0)[b % 4]
                            } else {
                                vpm0[x as int][b]
                            }
                        }),
                decreases 16 - elem,
            {
                let ghost prevcol = self@.vpm[x as int];
                if let Some(value) = values[elem] {
                    let res = self.write_vpm_mem_u32(x, (y * 16 + elem) * 4, value);
                    proof {
                        assert(res is Ok);
                        assert forall|b: int| 0 <= b < 256 implies self@.vpm[x as int][b] == ({
                            let w = b / 4;
                            if y * 16 <= w < y * 16 + elem + 1 && values@[w - y * 16] is Some {
                                spec_u32_le_bytes(values@[w - y * 16]->Some_0)[b % 4]
                            } else {
                                vpm0[x as int][b]
                            }
                        }) by {
                            assert(self@.vpm[x as int] == spec_with_le_word(
                                prevcol,
                                4 * (y * 16 + elem),
                                value,
                            ));
                            if 4 * (y * 16 + elem) <= b < 4 * (y * 16 + elem) + 4 {
                                assert(b / 4 == y * 16 + elem);
                            }
                        }
                    }
                }
                elem = elem + 1;
            }
            proof {
                assert(self@.vpm[x as int] =~= spec_vpm_write_v(
                    vpm0,
                    a as int % 16,
                    a as int / 16,
                    values@,
                )[x as int]);
                assert(self@.vpm =~= spec_vpm_write_v(vpm0, a as int % 16, a as int / 16, values@));
            }
            Ok(())
        }
    }
}

/// The memory pitch a DMA load walks between rows: a power-of-two code, or the
/// explicit byte count of the stride sub-command when the code is zero.
pub open spec fn spec_dma_mpitch(s: VPMDMALoad) -> int {
    if s.mpitch != 0 {
        8 * (vstd::arithmetic::power2::pow2(s.mpitch as nat) as int)
    } else {
        s.mpitchb as int
    }
}

/// How many 32-bit words a DMA load moves.
pub open spec fn spec_dma_load_n(s: VPMDMALoad) -> int {
    s.nrows * s.rowlen
}

/// The memory byte offset word `k` of a DMA load is read from.
pub open spec fn spec_dma_load_src(s: VPMDMALoad, addr: int, k: int) -> int {
    addr + (k / (s.rowlen as int)) * spec_dma_mpitch(s) + (k % (s.rowlen as int)) * 4
}

/// The packed VPM address word `k` of a DMA load is written to.
pub open spec fn spec_dma_load_va(s: VPMDMALoad, k: int) -> int {
    s.addrxy + k * s.vpitch
}

/// Whether every access of a DMA load is in bounds: each word's VPM row lies
/// inside the 64-word column and its source bytes inside memory.
pub open spec fn spec_dma_load_ok(mem_len: int, s: VPMDMALoad, addr: int) -> bool {
    forall|k: int|
        0 <= k < spec_dma_load_n(s) ==> (#[trigger] spec_dma_load_va(s, k)) / 16 < 64
            && spec_dma_load_src(s, addr, k) + 4 <= mem_len
}

/// The VPM after a DMA load: the cell whose packed address is on the load's
/// walk takes the corresponding memory byte; every other cell is unchanged.
pub open spec fn spec_dma_load_vpm(vpm: Seq<Seq<u8>>, mem: Seq<u8>, s: VPMDMALoad, addr: int) -> Seq<
    Seq<u8>,
> {
    Seq::new(
        16,
        |c: int|
            Seq::new(
                256,
                |b: int|
                    {
                        let a = (b / 4) * 16 + c;
                        if s.vpitch >= 1 && a >= s.addrxy && (a - s.addrxy) % (s.vpitch as int)
                            == 0 && (a - s.addrxy) / (s.vpitch as int) < spec_dma_load_n(s) {
                            mem[spec_dma_load_src(s, addr, (a - s.addrxy) / (s.vpitch as int)) + b
                                % 4]
                        } else {
                            vpm[c][b]
                        }
                    },
            ),
    )
}

/// How many 32-bit words a DMA store moves.
pub open spec fn spec_dma_store_n(s: VPMDMAStore) -> int {
    s.units * s.depth
}

/// The memory byte offset word `k` of a DMA store is written to: rows of
/// `depth` contiguous words, with `stride` extra bytes between rows.
pub open spec fn spec_dma_store_dst(s: VPMDMAStore, addr: int, k: int) -> int {
    addr + 4 * k + (k / (s.depth as int)) * (s.stride as int)
}

/// The packed VPM address word `k` of a DMA store is read from.
pub open spec fn spec_dma_store_va(s: VPMDMAStore, k: int) -> int {
    s.vpmbase + k
}

/// The byte at offset `b` of the VPM word with packed address `va`.
pub open spec fn spec_vpm_word_byte(vpm: Seq<Seq<u8>>, va: int, b: int) -> u8 {
    vpm[va % 16][(va / 16) * 4 + b]
}

/// Whether every access of a DMA store is in bounds.
pub open spec fn spec_dma_store_ok(mem_len: int, s: VPMDMAStore, addr: int) -> bool {
    forall|k: int|
        0 <= k < spec_dma_store_n(s) ==> (#[trigger] spec_dma_store_va(s, k)) / 16 < 64
            && spec_dma_store_dst(s, addr, k) + 4 <= mem_len && spec_dma_store_dst(s, addr, k) >= 0
}

/// The memory after a DMA store: each byte of the destination walk takes its
/// VPM byte; every other byte is unchanged.
pub open spec fn spec_dma_store_mem(vpm: Seq<Seq<u8>>, mem: Seq<u8>, s: VPMDMAStore, addr: int) -> Seq<
    u8,
> {
    Seq::new(
        mem.len(),
        |i: int|
            if exists|k: int|
                0 <= k < spec_dma_store_n(s) && #[trigger] spec_dma_store_dst(s, addr, k) <= i
                    < spec_dma_store_dst(s, addr, k) + 4 {
                let k = choose|k: int|
                    0 <= k < spec_dma_store_n(s) && #[trigger] spec_dma_store_dst(s, addr, k) <= i
                        < spec_dma_store_dst(s, addr, k) + 4;
                spec_vpm_word_byte(vpm, spec_dma_store_va(s, k), i - spec_dma_store_dst(s, addr, k))
            } else {
                mem[i]
            },
    )
}

/// Destinations of a DMA store walk upward with at least a word between them.
proof fn lemma_dma_store_dst_monotone(s: VPMDMAStore, addr: int, k1: int, k2: int)
    requires
        0 <= k1 < k2,
        s.depth >= 1,
    ensures
        spec_dma_store_dst(s, addr, k1) + 4 * (k2 - k1) <= spec_dma_store_dst(s, addr, k2),
{
    vstd::arithmetic::div_mod::lemma_div_is_ordered(k1, k2, s.depth as int);
    assert((k2 / (s.depth as int) - k1 / (s.depth as int)) * (s.stride as int) >= 0)
        by (nonlinear_arith)
        requires
            k2 / (s.depth as int) >= k1 / (s.depth as int),
            s.stride >= 0,
    ;
    assert((k2 / (s.depth as int)) * (s.stride as int) - (k1 / (s.depth as int)) * (s.stride
        as int) == (k2 / (s.depth as int) - k1 / (s.depth as int)) * (s.stride as int))
        by (nonlinear_arith);
}

impl QPUEmu {
    /// Carry out one DMA load: copy `nrows` rows of `rowlen` 32-bit words from
    /// memory at `addr` (rows `mpitch` bytes apart) into the VPM, the packed
    /// VPM address advancing by `vpitch` per word. Only 32-bit element mode,
    /// non-vertical, is implemented. A load whose walk leaves memory or the
    /// VPM fails without touching anything.
    #[verifier::rlimit(50)]
    pub fn execute_vpm_dma_load(&mut self, addr: u32) -> (r: Result<(), EmuError>)
        requires
            old(self).wf(),
        ensures
            final(self).wf(),
            r is Err ==> final(self)@ == old(self)@,
            ({
                let s = old(self)@.dma_load;
                &&& (s.modew == 0 && s.vert ==> r == Err::<(), EmuError>(EmuError::Unimplemented))
                &&& (2 <= s.modew <= 7 ==> r == Err::<(), EmuError>(EmuError::Unimplemented))
                &&& (s.modew == 1 ==> r == Err::<(), EmuError>(EmuError::AddressRange))
                &&& (s.modew == 0 && !s.vert ==> (if spec_dma_load_ok(
                    old(self)@.mem.len() as int,
                    s,
                    addr as int,
                ) {
                    r is Ok && final(self)@ == (QPUState {
                        vpm: spec_dma_load_vpm(old(self)@.vpm, old(self)@.mem, s, addr as int),
                        ..old(self)@
                    })
                } else {
                    r == Err::<(), EmuError>(EmuError::MemBounds)
                }))
            }),
    {
        proof {
            vstd::arithmetic::power2::lemma2_to64();
        }
        let s = self.vpm_dma_load;
        let mpitch: u64 = if s.mpitch != 0 {
            proof {
                vstd::bits::lemma_u64_shl_is_mul(8u64, s.mpitch as u64);
            }
            8u64 << (s.mpitch as u64)
        } else {
            s.mpitchb as u64
        };
        proof {
            assert(s == self@.dma_load);
            assert(mpitch == spec_dma_mpitch(s));
            assert(s.nrows * s.rowlen <= 256) by (nonlinear_arith)
                requires
                    s.nrows <= 16,
                    s.rowlen <= 16,
            ;
            assert(s.nrows * s.rowlen >= 1 ==> s.rowlen >= 1 && s.nrows >= 1) by (nonlinear_arith);
            assert(s.nrows == 0 ==> s.nrows * s.rowlen == 0) by (nonlinear_arith);
        }
        if s.modew == 0 {
            if s.vert {
                return Err(EmuError::Unimplemented);
            }
            let n = s.nrows * s.rowlen;
            let mem_len = self.mem.len() as u64;
            let ghost sl = s;

            // First pass: hold every access of the walk against the bounds,
            // touching nothing.
            let mut k: usize = 0;
            while k < n
                invariant
                    k <= n,
                    n == spec_dma_load_n(sl),
                    sl == self.vpm_dma_load,
                    s == sl,
                    sl == old(self)@.dma_load,
                    self@ == old(self)@,
                    self.wf(),
                    sl.modew == 0,
                    !sl.vert,
                    n <= 256,
                    n >= 1 ==> sl.rowlen >= 1 && sl.vpitch >= 1,
                    sl.rowlen <= 16 && sl.nrows <= 16 && sl.vpitch <= 16 && sl.addrxy <= 2047,
                    mpitch == spec_dma_mpitch(sl),
                    mpitch <= 0xFFFF_FFFF,
                    mem_len == self@.mem.len(),
                    mem_len <= usize::MAX,
                    forall|j: int|
                        0 <= j < k ==> (#[trigger] spec_dma_load_va(sl, j)) / 16 < 64
                            && spec_dma_load_src(sl, addr as int, j) + 4 <= mem_len,
                decreases n - k,
            {
                proof {
                    assert((k as u32) * s.vpitch <= 255 * 16) by (nonlinear_arith)
                        requires
                            k < 256,
                            s.vpitch <= 16,
                    ;
                    vstd::arithmetic::div_mod::lemma_div_nonincreasing(k as int, s.rowlen as int);
                    assert(((k / s.rowlen) as u64) * mpitch <= 256 * 0xFFFF_FFFFu64)
                        by (nonlinear_arith)
                        requires
                            0 <= (k / s.rowlen) as u64 <= 256,
                            0 <= mpitch <= 0xFFFF_FFFFu64,
                    ;
                    vstd::arithmetic::div_mod::lemma_mod_division_less_than_divisor(
                        k as int,
                        s.rowlen as int,
                    );
                }
                let va: u32 = s.addrxy + (k as u32) * s.vpitch;
                let y = va / 16;
                proof {
                    assert(va == spec_dma_load_va(sl, k as int));
                }
                if y >= 64 {
                    proof {
                        assert(!spec_dma_load_ok(mem_len as int, sl, addr as int));
                    }
                    return Err(EmuError::MemBounds);
                }
                let src: u64 = (addr as u64) + ((k / s.rowlen) as u64) * mpitch + ((k % s.rowlen)
                    as u64) * 4;
                proof {
                    assert(src == spec_dma_load_src(sl, addr as int, k as int));
                }
                if src + 4 > mem_len {
                    proof {
                        assert(!spec_dma_load_ok(mem_len as int, sl, addr as int));
                    }
                    return Err(EmuError::MemBounds);
                }
                k = k + 1;
            }

            // Second pass: carry the copy out; every access is now known good.
            let ghost vpm0 = self@.vpm;
            proof {
                assert forall|c: int, b: int| 0 <= c < 16 && 0 <= b < 256 implies self@.vpm[c][b]
                    == ({
                    let a = (b / 4) * 16 + c;
                    if sl.vpitch >= 1 && a >= sl.addrxy && (a - sl.addrxy) % (sl.vpitch as int)
                        == 0 && (a - sl.addrxy) / (sl.vpitch as int) < 0 {
                        self@.mem[spec_dma_load_src(sl, addr as int, (a - sl.addrxy) / (sl.vpitch
                            as int)) + b % 4]
                    } else {
                        vpm0[c][b]
                    }
                }) by {
                    let a = (b / 4) * 16 + c;
                    if sl.vpitch >= 1 && a >= sl.addrxy {
                        vstd::arithmetic::div_mod::lemma_div_pos_is_pos(
                            a - sl.addrxy,
                            sl.vpitch as int,
                        );
                    }
                }
            }
            let mut k: usize = 0;
            while k < n
                invariant
                    k <= n,
                    n == spec_dma_load_n(sl),
                    sl == self.vpm_dma_load,
                    s == sl,
                    self.wf(),
                    n <= 256,
                    n >= 1 ==> sl.rowlen >= 1 && sl.vpitch >= 1,
                    sl.rowlen <= 16 && sl.nrows <= 16 && sl.vpitch <= 16 && sl.addrxy <= 2047,
                    mpitch == spec_dma_mpitch(sl),
                    mpitch <= 0xFFFF_FFFF,
                    mem_len == self@.mem.len(),
                    mem_len <= usize::MAX,
                    self@.mem == old(self)@.mem,
                    spec_dma_load_ok(self@.mem.len() as int, sl, addr as int),
                    (QPUState { vpm: Seq::<Seq<u8>>::empty(), ..self@ }) == (QPUState {
                        vpm: Seq::<Seq<u8>>::empty(),
                        ..old(self)@
                    }),
                    vpm0 == old(self)@.vpm,
                    self@.vpm.len() == 16,
                    forall|c: int, b: int|
                        0 <= c < 16 && 0 <= b < 256 ==> self@.vpm[c][b] == ({
                            let a = (b / 4) * 16 + c;
                            if sl.vpitch >= 1 && a >= sl.addrxy && (a - sl.addrxy) % (sl.vpitch
                                as int) == 0 && (a - sl.addrxy) / (sl.vpitch as int) < k {
                                self@.mem[spec_dma_load_src(sl, addr as int, (a - sl.addrxy) / (
                                sl.vpitch as int)) + b % 4]
                            } else {
                                vpm0[c][b]
                            }
                        }),
                decreases n - k,
            {
                let ghost prev_vpm = self@.vpm;
                proof {
                    assert((k as u32) * s.vpitch <= 255 * 16) by (nonlinear_arith)
                        requires
                            k < 256,
                            s.vpitch <= 16,
                    ;
                    vstd::arithmetic::div_mod::lemma_div_nonincreasing(k as int, s.rowlen as int);
                    assert(((k / s.rowlen) as u64) * mpitch <= 256 * 0xFFFF_FFFFu64)
                        by (nonlinear_arith)
                        requires
                            0 <= (k / s.rowlen) as u64 <= 256,
                            0 <= mpitch <= 0xFFFF_FFFFu64,
                    ;
                    vstd::arithmetic::div_mod::lemma_mod_division_less_than_divisor(
                        k as int,
                        s.rowlen as int,
                    );
                }
                let va: u32 = s.addrxy + (k as u32) * s.vpitch;
                let x = (va % 16) as usize;
                let y = (va / 16) as usize;
                let src64: u64 = (addr as u64) + ((k / s.rowlen) as u64) * mpitch + ((k % s.rowlen)
                    as u64) * 4;
                proof {
                    assert(va == spec_dma_load_va(sl, k as int));
                    assert(src64 == spec_dma_load_src(sl, addr as int, k as int));
                    assert(spec_dma_load_va(sl, k as int) / 16 < 64 && spec_dma_load_src(
                        sl,
                        addr as int,
                        k as int,
                    ) + 4 <= mem_len);
                }
                let src = src64 as usize;
                let b0 = self.mem[src];
                let b1 = self.mem[src + 1];
                let b2 = self.mem[src + 2];
                let b3 = self.mem[src + 3];
                let word = u8x4_to_u32([b0, b1, b2, b3]);
                let res = self.write_vpm_mem_u32(x, y * 4, word);
                proof {
                    assert(res is Ok);
                    crate::bits::lemma_le_bytes_u32_round_trip(b0, b1, b2, b3);
                    let va_i = spec_dma_load_va(sl, k as int);
                    vstd::arithmetic::div_mod::lemma_fundamental_div_mod(va_i, 16);
                    assert((va_i - sl.addrxy) == k * sl.vpitch);
                    vstd::arithmetic::div_mod::lemma_mod_multiples_basic(
                        k as int,
                        sl.vpitch as int,
                    );
                    vstd::arithmetic::div_mod::lemma_div_multiples_vanish(
                        k as int,
                        sl.vpitch as int,
                    );
                    assert forall|c: int, b: int|
                        0 <= c < 16 && 0 <= b < 256 implies self@.vpm[c][b] == ({
                        let a = (b / 4) * 16 + c;
                        if sl.vpitch >= 1 && a >= sl.addrxy && (a - sl.addrxy) % (sl.vpitch
                            as int) == 0 && (a - sl.addrxy) / (sl.vpitch as int) < k + 1 {
                            self@.mem[spec_dma_load_src(sl, addr as int, (a - sl.addrxy) / (
                            sl.vpitch as int)) + b % 4]
                        } else {
                            vpm0[c][b]
                        }
                    }) by {
                        let a = (b / 4) * 16 + c;
                        vstd::arithmetic::div_mod::lemma_fundamental_div_mod_converse(
                            a,
                            16,
                            b / 4,
                            c,
                        );
                        if c == x && y * 4 <= b < y * 4 + 4 {
                            assert(b / 4 == y);
                            assert(a == va_i);
                            assert(self@.vpm[c][b] == spec_u32_le_bytes(word)[b - y * 4]);
                            assert(b % 4 == b - y * 4);
                            assert((a - sl.addrxy) == (k as int) * (sl.vpitch as int));
                            assert(((k as int) * (sl.vpitch as int)) == ((sl.vpitch as int) * (
                            k as int))) by (nonlinear_arith);
                            assert(((a - sl.addrxy) / (sl.vpitch as int)) == k as int);
                            assert(spec_u32_le_bytes(word)[b % 4] == self@.mem[spec_dma_load_src(
                                sl,
                                addr as int,
                                k as int,
                            ) + b % 4]);
                        } else {
                            if sl.vpitch >= 1 && a >= sl.addrxy && (a - sl.addrxy) % (sl.vpitch
                                as int) == 0 && (a - sl.addrxy) / (sl.vpitch as int) == k {
                                vstd::arithmetic::div_mod::lemma_fundamental_div_mod(
                                    a - sl.addrxy,
                                    sl.vpitch as int,
                                );
                                assert(((k as int) * (sl.vpitch as int)) == ((sl.vpitch as int) * (
                                k as int))) by (nonlinear_arith);
                                assert(a == va_i);
                                assert(c == va_i % 16 && b / 4 == va_i / 16);
                                assert(false);
                            }
                            assert(self@.vpm[c][b] == prev_vpm[c][b]);
                        }
                    }
                }
                k = k + 1;
            }
            proof {
                assert forall|c: int| 0 <= c < 16 implies self@.vpm[c] =~= spec_dma_load_vpm(
                    vpm0,
                    self@.mem,
                    sl,
                    addr as int,
                )[c] by {}
                assert(self@.vpm =~= spec_dma_load_vpm(vpm0, self@.mem, sl, addr as int));
            }
            Ok(())
        } else if s.modew >= 2 && s.modew <= 7 {
            Err(EmuError::Unimplemented)
        } else {
            Err(EmuError::AddressRange)
        }
    }

    /// Carry out one DMA store: copy `units` rows of `depth` 32-bit words from
    /// the VPM (the packed address advancing by one per word) into memory at
    /// `addr`, with `stride` extra bytes between rows. Only 32-bit element
    /// mode, horizontal, non-block is implemented. A store whose walk leaves
    /// memory or the VPM fails without touching anything.
    #[verifier::rlimit(50)]
    pub fn execute_vpm_dma_store(&mut self, addr: u32) -> (r: Result<(), EmuError>)
        requires
            old(self).wf(),
        ensures
            final(self).wf(),
            r is Err ==> final(self)@ == old(self)@,
            ({
                let s = old(self)@.dma_store;
                &&& (s.modew == 0 && s.blockmode == 1 ==> r == Err::<(), EmuError>(
                    EmuError::Unimplemented,
                ))
                &&& (s.modew == 0 && s.blockmode != 1 && !s.horiz ==> r == Err::<(), EmuError>(
                    EmuError::Unimplemented,
                ))
                &&& (2 <= s.modew <= 7 ==> r == Err::<(), EmuError>(EmuError::Unimplemented))
                &&& (s.modew == 1 ==> r == Err::<(), EmuError>(EmuError::AddressRange))
                &&& (s.modew == 0 && s.blockmode != 1 && s.horiz ==> (if spec_dma_store_ok(
                    old(self)@.mem.len() as int,
                    s,
                    addr as int,
                ) {
                    r is Ok && final(self)@ == (QPUState {
                        mem: spec_dma_store_mem(old(self)@.vpm, old(self)@.mem, s, addr as int),
                        ..old(self)@
                    })
                } else {
                    r == Err::<(), EmuError>(EmuError::MemBounds)
                }))
            }),
    {
        let s = self.vpm_dma_store;
        proof {
            assert(s == self@.dma_store);
            assert((s.units as usize) * (s.depth as usize) <= 16384) by (nonlinear_arith)
                requires
                    s.units <= 128,
                    s.depth <= 128,
            ;
            assert((s.units as usize) * (s.depth as usize) >= 1 ==> s.depth >= 1)
                by (nonlinear_arith);
            assert(s.units == 0 ==> (s.units as usize) * (s.depth as usize) == 0)
                by (nonlinear_arith);
        }
        if s.modew == 0 {
            if s.blockmode == 1 {
                return Err(EmuError::Unimplemented);
            }
            if !s.horiz {
                return Err(EmuError::Unimplemented);
            }
            let n = (s.units as usize) * (s.depth as usize);
            let mem_len = self.mem.len() as u64;
            let ghost sl = s;

            // First pass: hold every access of the walk against the bounds.
            let mut k: usize = 0;
            while k < n
                invariant
                    k <= n,
                    n == spec_dma_store_n(sl),
                    sl == self.vpm_dma_store,
                    s == sl,
                    sl == old(self)@.dma_store,
                    self@ == old(self)@,
                    self.wf(),
                    sl.modew == 0 && sl.blockmode != 1 && sl.horiz,
                    n <= 16384,
                    n >= 1 ==> sl.depth >= 1,
                    sl.units <= 128 && sl.depth <= 128 && sl.vpmbase <= 2047,
                    mem_len == self@.mem.len(),
                    mem_len <= usize::MAX,
                    forall|j: int|
                        0 <= j < k ==> (#[trigger] spec_dma_store_va(sl, j)) / 16 < 64
                            && spec_dma_store_dst(sl, addr as int, j) + 4 <= mem_len,
                decreases n - k,
            {
                proof {
                    vstd::arithmetic::div_mod::lemma_div_nonincreasing(k as int, s.depth as int);
                    assert(((k as u64) / (s.depth as u64)) * (s.stride as u64) <= 16384
                        * 0xFFFF_FFFFu64) by (nonlinear_arith)
                        requires
                            0 <= (k as u64) / (s.depth as u64) <= 16384,
                            0 <= (s.stride as u64) <= 0xFFFF_FFFFu64,
                    ;
                }
                let va: u32 = s.vpmbase + (k as u32);
                let y = va / 16;
                proof {
                    assert(va == spec_dma_store_va(sl, k as int));
                }
                if y >= 64 {
                    proof {
                        assert(!spec_dma_store_ok(mem_len as int, sl, addr as int));
                    }
                    return Err(EmuError::MemBounds);
                }
                let dst: u64 = (addr as u64) + 4 * (k as u64) + ((k as u64) / (s.depth as u64)) * (
                s.stride as u64);
                proof {
                    assert(dst == spec_dma_store_dst(sl, addr as int, k as int));
                }
                if dst + 4 > mem_len {
                    proof {
                        assert(!spec_dma_store_ok(mem_len as int, sl, addr as int));
                    }
                    return Err(EmuError::MemBounds);
                }
                k = k + 1;
            }

            // Second pass: carry the copy out.
            let ghost mem0 = self@.mem;
            let mut k: usize = 0;
            while k < n
                invariant
                    k <= n,
                    n == spec_dma_store_n(sl),
                    sl == self.vpm_dma_store,
                    s == sl,
                    self.wf(),
                    n <= 16384,
                    n >= 1 ==> sl.depth >= 1,
                    sl.units <= 128 && sl.depth <= 128 && sl.vpmbase <= 2047,
                    mem_len == self@.mem.len(),
                    mem_len <= usize::MAX,
                    mem0.len() == self@.mem.len(),
                    self@.vpm == old(self)@.vpm,
                    spec_dma_store_ok(mem0.len() as int, sl, addr as int),
                    (QPUState { mem: Seq::<u8>::empty(), ..self@ }) == (QPUState {
                        mem: Seq::<u8>::empty(),
                        ..old(self)@
                    }),
                    mem0 == old(self)@.mem,
                    forall|i: int|
                        0 <= i < mem0.len() ==> self@.mem[i] == (if exists|j: int|
                            0 <= j < k && #[trigger] spec_dma_store_dst(sl, addr as int, j) <= i
                                < spec_dma_store_dst(sl, addr as int, j) + 4 {
                            let j = choose|j: int|
                                0 <= j < k && #[trigger] spec_dma_store_dst(sl, addr as int, j) <= i
                                    < spec_dma_store_dst(sl, addr as int, j) + 4;
                            spec_vpm_word_byte(
                                self@.vpm,
                                spec_dma_store_va(sl, j),
                                i - spec_dma_store_dst(sl, addr as int, j),
                            )
                        } else {
                            mem0[i]
                        }),
                decreases n - k,
            {
                let ghost prev_mem = self@.mem;
                proof {
                    vstd::arithmetic::div_mod::lemma_div_nonincreasing(k as int, s.depth as int);
                    assert(((k as u64) / (s.depth as u64)) * (s.stride as u64) <= 16384
                        * 0xFFFF_FFFFu64) by (nonlinear_arith)
                        requires
                            0 <= (k as u64) / (s.depth as u64) <= 16384,
                            0 <= (s.stride as u64) <= 0xFFFF_FFFFu64,
                    ;
                }
                let va: u32 = s.vpmbase + (k as u32);
                let x = (va % 16) as usize;
                let y = (va / 16) as usize;
                proof {
                    assert(va == spec_dma_store_va(sl, k as int));
                    assert(spec_dma_store_va(sl, k as int) / 16 < 64 && spec_dma_store_dst(
                        sl,
                        addr as int,
                        k as int,
                    ) + 4 <= mem_len);
                }
                let word = match self.read_vpm_mem_u32(x, y * 4) {
                    Ok(w) => w,
                    Err(e) => {
                        proof {
                            assert(false);
                        }
                        return Err(e);
                    },
                };
                let dst64: u64 = (addr as u64) + 4 * (k as u64) + ((k as u64) / (s.depth as u64))
                    * (s.stride as u64);
                let dst = dst64 as usize;
                let res = self.write_mem_u32_unaligned(dst, word);
                proof {
                    assert(res is Ok);
                    let dk = spec_dma_store_dst(sl, addr as int, k as int);
                    assert(dst == dk);
                    assert forall|i: int|
                        0 <= i < mem0.len() implies self@.mem[i] == (if exists|j: int|
                        0 <= j < k + 1 && #[trigger] spec_dma_store_dst(sl, addr as int, j) <= i
                            < spec_dma_store_dst(sl, addr as int, j) + 4 {
                        let j = choose|j: int|
                            0 <= j < k + 1 && #[trigger] spec_dma_store_dst(sl, addr as int, j) <= i
                                < spec_dma_store_dst(sl, addr as int, j) + 4;
                        spec_vpm_word_byte(
                            self@.vpm,
                            spec_dma_store_va(sl, j),
                            i - spec_dma_store_dst(sl, addr as int, j),
                        )
                    } else {
                        mem0[i]
                    }) by {
                        assert forall|j1: int, j2: int|
                            0 <= j1 < j2 < k + 1 implies spec_dma_store_dst(sl, addr as int, j1)
                            + 4 <= spec_dma_store_dst(sl, addr as int, j2) by {
                            lemma_dma_store_dst_monotone(sl, addr as int, j1, j2);
                        }
                        if dk <= i < dk + 4 {
                            assert(self@.mem == spec_with_le_word(prev_mem, dk, word));
                            assert(self@.mem[i] == spec_u32_le_bytes(word)[i - dk]);
                            let vai = spec_dma_store_va(sl, k as int);
                            assert(x == vai % 16 && y == vai / 16);
                            crate::bits::lemma_le_bytes_u32_round_trip(
                                self@.vpm[x as int][4 * (y as int)],
                                self@.vpm[x as int][4 * (y as int) + 1],
                                self@.vpm[x as int][4 * (y as int) + 2],
                                self@.vpm[x as int][4 * (y as int) + 3],
                            );
                            assert(spec_vpm_word_byte(
                                self@.vpm,
                                spec_dma_store_va(sl, k as int),
                                i - dk,
                            ) == spec_u32_le_bytes(word)[i - dk]);
                        }
                    }
                }
                k = k + 1;
            }
            proof {
                assert(self@.mem =~= spec_dma_store_mem(self@.vpm, mem0, sl, addr as int));
            }
            Ok(())
        } else if s.modew >= 2 && s.modew <= 7 {
            Err(EmuError::Unimplemented)
        } else {
            Err(EmuError::AddressRange)
        }
    }

    /// Store the little-endian word `v` at byte address `addr`, aligned or
    /// not; the DMA engines copy bytes without an alignment rule.
    fn write_mem_u32_unaligned(&mut self, addr: usize, v: u32) -> (r: Result<(), EmuError>)
        ensures
            r is Ok <==> addr + 4 <= old(self)@.mem.len(),
            r is Ok ==> final(self)@ == (QPUState {
                mem: spec_with_le_word(old(self)@.mem, addr as int, v),
                ..old(self)@
            }),
            r is Err ==> final(self)@ == old(self)@ && r == Err::<(), EmuError>(
                EmuError::MemBounds,
            ),
            final(self).wf_files() == old(self).wf_files(),
            r is Ok ==> forall|i: int|
                0 <= i < old(self)@.mem.len() && !(addr <= i < addr + 4) ==> final(self)@.mem[i]
                    == old(self)@.mem[i],
            r is Ok ==> forall|i: int|
                addr <= i < addr + 4 ==> final(self)@.mem[i] == spec_u32_le_bytes(v)[i - addr],
    {
        if self.mem.len() < 4 || addr > self.mem.len() - 4 {
            return Err(EmuError::MemBounds);
        }
        let bytes = u32_to_u8x4(v);
        self.mem[addr] = bytes[0];
        self.mem[addr + 1] = bytes[1];
        self.mem[addr + 2] = bytes[2];
        self.mem[addr + 3] = bytes[3];
        Ok(())
    }
}

/// What a 32-bit read of `mem` at byte address `a` yields: the little-endian
/// word, or the alignment or bounds fault.
pub open spec fn spec_read_mem_result(mem: Seq<u8>, a: int) -> Result<u32, EmuError> {
    if a % 4 != 0 {
        Err(EmuError::Alignment)
    } else if a + 4 > mem.len() {
        Err(EmuError::MemBounds)
    } else {
        Ok(spec_le_word_at(mem, a))
    }
}

/// The register file with register `idx` wholly replaced by `vals`.
pub open spec fn spec_reg_set_row(regs: Seq<u32>, idx: int, vals: Seq<u32>) -> Seq<u32> {
    Seq::new(
        regs.len(),
        |i: int|
            if 16 * idx <= i < 16 * (idx + 1) {
                vals[i - 16 * idx]
            } else {
                regs[i]
            },
    )
}

/// The lane values of a TMU parameter write: every lane must be unmasked.
pub open spec fn spec_lanes_of(vals: Seq<Option<u32>>) -> Seq<u32> {
    Seq::new(16, |i: int| vals[i]->Some_0)
}

/// How many entries a TMU drain pops: up to and including the first `s`
/// (tag 0) entry, or the whole queue when none carries tag 0.
pub open spec fn spec_tmu_drain_count(fifo: Seq<(u8, Seq<u32>)>) -> int
    decreases fifo.len(),
{
    if fifo.len() == 0 {
        0
    } else if fifo[0].0 == 0 {
        1
    } else {
        1 + spec_tmu_drain_count(fifo.skip(1))
    }
}

/// Whether the first `count` queue entries hold a given parameter tag.
pub open spec fn spec_tmu_has(fifo: Seq<(u8, Seq<u32>)>, count: int, tag: u8) -> bool {
    exists|i: int| 0 <= i < count && (#[trigger] fifo[i]).0 == tag
}

/// Whether two drained entries carry the same parameter tag.
pub open spec fn spec_tmu_dup(fifo: Seq<(u8, Seq<u32>)>, count: int) -> bool {
    exists|i: int, j: int| 0 <= i < j < count && (#[trigger] fifo[i]).0 == (#[trigger] fifo[j]).0
}

/// The first lane whose texture address faults, or 16 when every lane's
/// 32-bit read succeeds.
pub open spec fn spec_first_bad_lane(mem: Seq<u8>, svals: Seq<u32>, e: int) -> int
    decreases 16 - e,
{
    if e >= 16 {
        16
    } else if spec_read_mem_result(mem, svals[e] as int) is Err {
        e
    } else {
        spec_first_bad_lane(mem, svals, e + 1)
    }
}

impl QPUEmu {
    /// Read the A bank's lane `elem` at a read address: a physical register,
    /// the uniforms stream, the lane number, a VPM read transaction, or one of
    /// the always-ready status ports.
    pub fn read_ra(&mut self, elem: usize, addr: u8) -> (r: Result<u32, EmuError>)
        requires
            old(self).wf(),
            elem < 16,
        ensures
            final(self).wf(),
            addr != RA_VPM_READ ==> final(self)@ == old(self)@,
            addr <= RA_RA31 ==> r == Ok::<u32, EmuError>(
                old(self)@.reg_ra[16 * (addr as int) + elem],
            ),
            addr == RA_UNIFORM_READ ==> r == spec_read_mem_result(
                old(self)@.mem,
                old(self)@.uniform_ptr as int,
            ),
            addr == RA_ELEMENT_NUMBER ==> r == Ok::<u32, EmuError>(elem as u32),
            addr == RA_NOP || addr == RA_MUTEX_ACQUIRE || addr == RA_VPM_LD_BUSY || addr
                == RA_VPM_LD_WAIT ==> r == Ok::<u32, EmuError>(0),
            addr == RA_VPM_READ ==> {
                &&& (r is Ok <==> spec_vpm_read_ok(old(self)@.vpm_read, elem as int))
                &&& (r is Ok ==> r->Ok_0 == spec_le_word_at(
                    old(self)@.vpm[spec_vpm_read_cell(old(self)@.vpm_read, elem as int).0],
                    4 * spec_vpm_read_cell(old(self)@.vpm_read, elem as int).1,
                ) && final(self)@ == (QPUState {
                    vpm_read: spec_vpm_read_advanced(old(self)@.vpm_read, elem as int),
                    ..old(self)@
                }))
                &&& (r is Err ==> (QPUState { vpm_read: old(self)@.vpm_read, ..final(self)@ })
                    == old(self)@)
            },
            !(addr <= RA_RA31 || addr == RA_UNIFORM_READ || addr == RA_ELEMENT_NUMBER || addr
                == RA_NOP || addr == RA_MUTEX_ACQUIRE || addr == RA_VPM_READ || addr
                == RA_VPM_LD_BUSY || addr == RA_VPM_LD_WAIT) ==> r == Err::<u32, EmuError>(
                EmuError::AddressRange,
            ),
    {
        if addr <= RA_RA31 {
            Ok(self.reg_ra.get(elem, addr as usize))
        } else if addr == RA_UNIFORM_READ {
            self.read_mem_u32(self.uniform_ptr as usize)
        } else if addr == RA_ELEMENT_NUMBER {
            Ok(elem as u32)
        } else if addr == RA_NOP {
            Ok(0)
        } else if addr == RA_MUTEX_ACQUIRE {
            Ok(0)
        } else if addr == RA_VPM_READ {
            self.read_vpm(elem)
        } else if addr == RA_VPM_LD_BUSY {
            Ok(0)
        } else if addr == RA_VPM_LD_WAIT {
            Ok(0)
        } else {
            Err(EmuError::AddressRange)
        }
    }

    /// Read the B bank's lane `elem` at a read address.
    pub fn read_rb(&mut self, elem: usize, addr: u8) -> (r: Result<u32, EmuError>)
        requires
            old(self).wf(),
            elem < 16,
        ensures
            final(self).wf(),
            addr != RB_VPM_READ ==> final(self)@ == old(self)@,
            addr <= RB_RB31 ==> r == Ok::<u32, EmuError>(
                old(self)@.reg_rb[16 * (addr as int) + elem],
            ),
            addr == RB_UNIFORM_READ ==> r == spec_read_mem_result(
                old(self)@.mem,
                old(self)@.uniform_ptr as int,
            ),
            addr == RB_NOP || addr == RB_MUTEX_ACQUIRE || addr == RB_VPM_ST_BUSY || addr
                == RB_VPM_ST_WAIT ==> r == Ok::<u32, EmuError>(0),
            addr == RB_VPM_READ ==> {
                &&& (r is Ok <==> spec_vpm_read_ok(old(self)@.vpm_read, elem as int))
                &&& (r is Ok ==> r->Ok_0 == spec_le_word_at(
                    old(self)@.vpm[spec_vpm_read_cell(old(self)@.vpm_read, elem as int).0],
                    4 * spec_vpm_read_cell(old(self)@.vpm_read, elem as int).1,
                ) && final(self)@ == (QPUState {
                    vpm_read: spec_vpm_read_advanced(old(self)@.vpm_read, elem as int),
                    ..old(self)@
                }))
                &&& (r is Err ==> (QPUState { vpm_read: old(self)@.vpm_read, ..final(self)@ })
                    == old(self)@)
            },
            !(addr <= RB_RB31 || addr == RB_UNIFORM_READ || addr == RB_NOP || addr
                == RB_MUTEX_ACQUIRE || addr == RB_VPM_READ || addr == RB_VPM_ST_BUSY || addr
                == RB_VPM_ST_WAIT) ==> r == Err::<u32, EmuError>(EmuError::AddressRange),
    {
        if addr <= RB_RB31 {
            Ok(self.reg_rb.get(elem, addr as usize))
        } else if addr == RB_UNIFORM_READ {
            self.read_mem_u32(self.uniform_ptr as usize)
        } else if addr == RB_NOP {
            Ok(0)
        } else if addr == RB_MUTEX_ACQUIRE {
            Ok(0)
        } else if addr == RB_VPM_READ {
            self.read_vpm(elem)
        } else if addr == RB_VPM_ST_BUSY {
            Ok(0)
        } else if addr == RB_VPM_ST_WAIT {
            Ok(0)
        } else {
            Err(EmuError::AddressRange)
        }
    }

    /// Set one lane's flags from a result: Z is "zero", N the sign bit, and C
    /// always clear: this core never computes a carry.
    pub(crate) fn set_flag(&mut self, value: u32, elem: usize)
        requires
            old(self).wf(),
            elem < 16,
        ensures
            final(self).wf(),
            final(self)@ == (QPUState {
                zf: old(self)@.zf.update(elem as int, value == 0),
                nf: old(self)@.nf.update(elem as int, value >= 0x8000_0000),
                cf: old(self)@.cf.update(elem as int, false),
                ..old(self)@
            }),
    {
        self.zf[elem] = value == 0;
        self.nf[elem] = value >= 0x8000_0000;
        self.cf[elem] = false;
    }

    /// Drain the TMU0 queue up to the first `s` parameter and perform the
    /// texture request it terminates: a linear gather, lane `e` loading the
    /// 32-bit word at its own address into R4. 2D and cube requests, duplicate
    /// tags, a drain without `s`, and faulting lane addresses are errors that
    /// leave the core unchanged.
    pub fn execute_tmu0_load(&mut self) -> (r: Result<(), EmuError>)
        requires
            old(self).wf(),
        ensures
            final(self).wf(),
            r is Err ==> final(self)@ == old(self)@,
            ({
                let fifo = old(self)@.tmu0;
                let count = spec_tmu_drain_count(fifo);
                let has_s = count > 0 && fifo[count - 1].0 == 0;
                let svals = fifo[count - 1].1;
                &&& (spec_tmu_dup(fifo, count) ==> r == Err::<(), EmuError>(EmuError::TmuDuplicate))
                &&& (!spec_tmu_dup(fifo, count) && !has_s ==> r == Err::<(), EmuError>(
                    EmuError::TmuMissingS,
                ))
                &&& (!spec_tmu_dup(fifo, count) && has_s && spec_tmu_has(fifo, count, 1) ==> r
                    == Err::<(), EmuError>(EmuError::Unimplemented))
                &&& (!spec_tmu_dup(fifo, count) && has_s && !spec_tmu_has(fifo, count, 1) ==> {
                    let bad = spec_first_bad_lane(old(self)@.mem, svals, 0);
                    if bad < 16 {
                        r == Result::<(), EmuError>::Err(
                            spec_read_mem_result(old(self)@.mem, svals[bad] as int)->Err_0,
                        )
                    } else {
                        r is Ok && final(self)@ == (QPUState {
                            reg_r: spec_reg_set_row(
                                old(self)@.reg_r,
                                4,
                                Seq::new(
                                    16,
                                    |e: int| spec_le_word_at(old(self)@.mem, svals[e] as int),
                                ),
                            ),
                            tmu0: fifo.skip(count),
                            ..old(self)@
                        })
                    }
                })
            }),
    {
        let ghost fifo = self@.tmu0;
        let ghost count = spec_tmu_drain_count(fifo);
        proof {
            assert(fifo.skip(0) =~= fifo);
            lemma_tmu_drain_count_bounds(fifo);
        }

        // Walk the queue up to the first `s` entry, checking for duplicate
        // tags, without yet removing anything.
        let mut idx: usize = 0;
        let mut seen: [bool; 4] = [false, false, false, false];
        loop
            invariant_except_break
                self.wf(),
                self@ == old(self)@,
                fifo == self@.tmu0,
                count == spec_tmu_drain_count(fifo),
                idx <= fifo.len(),
                idx <= count,
                forall|i: int| 0 <= i < idx ==> (#[trigger] fifo[i]).0 != 0,
                !spec_tmu_dup(fifo, idx as int),
                seen@.len() == 4,
                forall|t: int|
                    0 <= t < 4 ==> ((#[trigger] seen@[t]) <==> exists|i: int|
                        0 <= i < idx && (#[trigger] fifo[i]).0 == t),
                count == spec_tmu_drain_count(fifo.skip(idx as int)) + idx,
            ensures
                self.wf(),
                self@ == old(self)@,
                fifo == self@.tmu0,
                idx == count,
                idx <= fifo.len(),
                seen@.len() == 4,
                !spec_tmu_dup(fifo, count),
                forall|t: int|
                    0 <= t < 4 ==> ((#[trigger] seen@[t]) <==> spec_tmu_has(fifo, count, t as u8)),
            decreases self.tmu0_req_fifo.len() - idx,
        {
            if idx == self.tmu0_req_fifo.len() {
                // The whole queue drained without meeting an `s` parameter.
                proof {
                    assert(fifo.skip(idx as int).len() == 0);
                    assert(count == idx);
                    assert forall|t: int| 0 <= t < 4 implies ((#[trigger] seen@[t])
                        <==> spec_tmu_has(fifo, count, t as u8)) by {}
                }
                break ;
            }
            let entry_tag = self.tmu0_req_fifo[idx].0;
            proof {
                assert(fifo[idx as int] == (
                    self.tmu0_req_fifo@[idx as int].0,
                    self.tmu0_req_fifo@[idx as int].1@,
                ));
                assert(fifo[idx as int].0 == entry_tag);
                assert(entry_tag <= 3);
                assert(fifo.skip(idx as int)[0] == fifo[idx as int]);
                assert(fifo.skip(idx as int).skip(1) =~= fifo.skip(idx as int + 1));
                lemma_tmu_drain_count_bounds(fifo.skip(idx as int + 1));
            }
            if seen[entry_tag as usize] {
                proof {
                    assert(spec_tmu_dup(fifo, idx as int + 1));
                    lemma_tmu_dup_monotone(fifo, idx as int + 1, count);
                }
                return Err(EmuError::TmuDuplicate);
            }
            seen[entry_tag as usize] = true;
            let stop = entry_tag == 0;
            idx = idx + 1;
            if stop {
                proof {
                    assert(count == idx);
                    assert forall|t: int| 0 <= t < 4 implies ((#[trigger] seen@[t])
                        <==> spec_tmu_has(fifo, count, t as u8)) by {}
                }
                break ;
            }
        }
        // `idx == count` and no duplicate stands among the drained entries.
        let has_s = idx > 0 && self.tmu0_req_fifo[idx - 1].0 == 0;
        proof {
            if idx > 0 {
                assert(fifo[idx as int - 1] == (
                    self.tmu0_req_fifo@[idx as int - 1].0,
                    self.tmu0_req_fifo@[idx as int - 1].1@,
                ));
            }
        }
        if !has_s {
            return Err(EmuError::TmuMissingS);
        }
        if seen[1] {
            // A `t` coordinate makes this a 2D (or with `r` a cube) request.
            return Err(EmuError::Unimplemented);
        }
        let svals = self.tmu0_req_fifo[idx - 1].1;
        proof {
            assert(fifo[idx as int - 1] == (
                self.tmu0_req_fifo@[idx as int - 1].0,
                self.tmu0_req_fifo@[idx as int - 1].1@,
            ));
            assert(svals@ == fifo[count - 1].1);
        }

        // Validate every lane's address before touching anything.
        proof {
            lemma_first_bad_lane_lb(self@.mem, svals@, 0);
        }
        let mut e: usize = 0;
        while e < 16
            invariant
                e <= 16,
                self.wf(),
                self@ == old(self)@,
                fifo == old(self)@.tmu0,
                count == spec_tmu_drain_count(fifo),
                count > 0 && fifo[count - 1].0 == 0,
                !spec_tmu_dup(fifo, count),
                !spec_tmu_has(fifo, count, 1),
                svals@ == fifo[count - 1].1,
                svals@.len() == 16,
                spec_first_bad_lane(self@.mem, svals@, 0) >= e,
            decreases 16 - e,
        {
            proof {
                lemma_first_bad_lane_step(self@.mem, svals@, e as int);
            }
            let a = svals[e] as usize;
            if a % 4 != 0 {
                proof {
                    assert(spec_read_mem_result(self@.mem, svals@[e as int] as int) is Err);
                }
                return Err(EmuError::Alignment);
            }
            if self.mem.len() < 4 || a > self.mem.len() - 4 {
                proof {
                    assert(spec_read_mem_result(self@.mem, svals@[e as int] as int) is Err);
                }
                return Err(EmuError::MemBounds);
            }
            proof {
                assert(spec_read_mem_result(self@.mem, svals@[e as int] as int) is Ok);
            }
            e = e + 1;
        }
        proof {
            assert(spec_first_bad_lane(self@.mem, svals@, 0) >= 16);
        }

        // Commit: pop the drained entries and gather into R4.
        let idx_copy = idx;
        let mut popped: usize = 0;
        while popped < idx_copy
            invariant
                popped <= idx_copy,
                idx_copy == count,
                count <= fifo.len(),
                self.wf(),
                fifo == old(self)@.tmu0,
                forall|i: int|
                    0 <= i < fifo.len() ==> (#[trigger] fifo[i]).1.len() == 16 && fifo[i].0 <= 3,
                (QPUState { tmu0: Seq::<(u8, Seq<u32>)>::empty(), ..self@ }) == (QPUState {
                    tmu0: Seq::<(u8, Seq<u32>)>::empty(),
                    ..old(self)@
                }),
                self@.tmu0 =~= fifo.skip(popped as int),
            decreases idx_copy - popped,
        {
            proof {
                assert(self@.tmu0.len() == fifo.len() - popped);
            }
            let ghost prev_vec = self.tmu0_req_fifo@;
            let _ = self.tmu0_req_fifo.remove(0);
            proof {
                assert(self.tmu0_req_fifo@ == prev_vec.remove(0));
                assert forall|i: int| 0 <= i < self@.tmu0.len() implies self@.tmu0[i] == fifo.skip(
                    popped as int + 1,
                )[i] by {
                    assert(self@.tmu0[i] == (
                        self.tmu0_req_fifo@[i].0,
                        self.tmu0_req_fifo@[i].1@,
                    ));
                    assert(self.tmu0_req_fifo@[i] == prev_vec[i + 1]);
                    assert(fifo.skip(popped as int)[i + 1] == (prev_vec[i + 1].0, prev_vec[i
                        + 1].1@));
                }
                assert(self@.tmu0 =~= fifo.skip(popped as int + 1));
                assert forall|i: int|
                    0 <= i < self@.tmu0.len() implies (#[trigger] self@.tmu0[i]).1.len() == 16
                    && self@.tmu0[i].0 <= 3 by {
                    assert(fifo.skip(popped as int + 1)[i] == fifo[popped + 1 + i]);
                    assert(self@.tmu0[i] == fifo[popped + 1 + i]);
                    assert(old(self)@.tmu0[popped + 1 + i] == fifo[popped + 1 + i]);
                }
            }
            popped = popped + 1;
        }

        let mut e: usize = 0;
        while e < 16
            invariant
                e <= 16,
                self.wf(),
                fifo == old(self)@.tmu0,
                count == spec_tmu_drain_count(fifo),
                svals@ == fifo[count - 1].1,
                svals@.len() == 16,
                (QPUState {
                    tmu0: Seq::<(u8, Seq<u32>)>::empty(),
                    reg_r: Seq::<u32>::empty(),
                    ..self@
                }) == (QPUState {
                    tmu0: Seq::<(u8, Seq<u32>)>::empty(),
                    reg_r: Seq::<u32>::empty(),
                    ..old(self)@
                }),
                self@.tmu0 == fifo.skip(count),
                spec_first_bad_lane(self@.mem, svals@, 0) >= 16,
                self@.reg_r.len() == 96,
                forall|i: int|
                    0 <= i < 96 ==> self@.reg_r[i] == (if 64 <= i < 64 + e {
                        spec_le_word_at(self@.mem, svals@[i - 64] as int)
                    } else {
                        old(self)@.reg_r[i]
                    }),
            decreases 16 - e,
        {
            proof {
                lemma_first_bad_lane_all_ok(self@.mem, svals@, e as int);
            }
            let a = svals[e] as usize;
            let val = match self.read_mem_u32(a) {
                Ok(v) => v,
                Err(_) => {
                    proof {
                        assert(false);
                    }
                    return Err(EmuError::MemBounds);
                },
            };
            self.reg_r.set(e, 4, val);
            e = e + 1;
        }
        proof {
            assert(self@.reg_r =~= spec_reg_set_row(
                old(self)@.reg_r,
                4,
                Seq::new(16, |e: int| spec_le_word_at(old(self)@.mem, fifo[count - 1].1[e] as int)),
            ));
        }
        Ok(())
    }
}

impl QPUEmu {
    /// Dispatch a predicated 16-lane write to an A-bank write address: a
    /// physical register, an accumulator, the uniforms pointer, a TMU
    /// parameter port, the VPM write port, the read/load setup port, the
    /// DMA-load trigger, or one of the accepted no-op ports.
    #[verifier::rlimit(80)]
    pub fn write_ra(&mut self, addr: u8, values: &[Option<u32>; 16]) -> (r: Result<(), EmuError>)
        requires
            old(self).wf(),
        ensures
            final(self).wf(),
            final(self)@.reg_rb == old(self)@.reg_rb && final(self)@.zf == old(self)@.zf
                && final(self)@.nf == old(self)@.nf
                && final(self)@.cf == old(self)@.cf
                && final(self)@.pc == old(self)@.pc
                && final(self)@.insts == old(self)@.insts
                && final(self)@.slots == old(self)@.slots
                && final(self)@.breakpoints == old(self)@.breakpoints,
            addr != WA_UNIFORMS_ADDRESS ==> final(self)@.uniform_ptr == old(self)@.uniform_ptr,
            addr > WA_RA31 ==> final(self)@.reg_ra == old(self)@.reg_ra,
            !(WA_ACC0 <= addr <= WA_ACC3) ==> final(self)@.reg_r == old(self)@.reg_r,
            addr <= WA_RA31 ==> r is Ok && final(self)@ == (QPUState {
                reg_ra: spec_set_vec(old(self)@.reg_ra, 16, addr as int, values@),
                ..old(self)@
            }),
            WA_ACC0 <= addr <= WA_ACC3 ==> r is Ok && final(self)@ == (QPUState {
                reg_r: spec_set_vec(old(self)@.reg_r, 16, addr - 32, values@),
                ..old(self)@
            }),
            addr == WB_ACC5 ==> r == Err::<(), EmuError>(EmuError::Unimplemented) && final(self)@
                == old(self)@,
            addr == WA_NOP || addr == WA_TMU_NOSWAP || addr == WA_MUTEX_RELEASE || addr
                == WA_HOST_INT ==> r is Ok && final(self)@ == old(self)@,
            addr == WA_UNIFORMS_ADDRESS ==> r is Ok && final(self)@ == (QPUState {
                uniform_ptr: if values@[0] is Some {
                    values@[0]->Some_0
                } else {
                    old(self)@.uniform_ptr
                },
                ..old(self)@
            }),
            WA_TMU0_S <= addr <= WA_TMU0_B ==> {
                if old(self)@.tmu0.len() >= 8 {
                    r == Err::<(), EmuError>(EmuError::TmuOverflow) && final(self)@ == old(self)@
                } else if exists|e: int| 0 <= e < 16 && values@[e] is None {
                    r == Err::<(), EmuError>(EmuError::TmuMasked) && final(self)@ == old(self)@
                } else {
                    r is Ok && final(self)@ == (QPUState {
                        tmu0: old(self)@.tmu0.push(((addr - 56) as u8, spec_lanes_of(values@))),
                        ..old(self)@
                    })
                }
            },
            addr == WA_VPM_WRITE ==> spec_write_vpm_contract(old(self)@, final(self)@, values@, r),
            addr == WA_VPMVCD_RD_SETUP ==> r is Ok && (if values@[0] is Some {
                final(self)@ == spec_setup_vpm_load_state(old(self)@, values@[0]->Some_0)
            } else {
                final(self)@ == old(self)@
            }),
            addr == WA_VPM_LD_ADDR && values@[0] is None ==> r is Ok && final(self)@ == old(self)@,
            addr == WA_VPM_LD_ADDR && values@[0] is Some ==> spec_dma_load_contract(
                old(self)@,
                final(self)@,
                values@[0]->Some_0,
                r,
            ),
            !(addr <= WA_RA31 || (WA_ACC0 <= addr <= WA_ACC3) || addr == WB_ACC5 || addr == WA_NOP
                || addr == WA_TMU_NOSWAP || addr == WA_MUTEX_RELEASE || addr == WA_HOST_INT || addr
                == WA_UNIFORMS_ADDRESS || (WA_TMU0_S <= addr <= WA_TMU0_B) || addr == WA_VPM_WRITE
                || addr == WA_VPMVCD_RD_SETUP || addr == WA_VPM_LD_ADDR) ==> r == Err::<
                (),
                EmuError,
            >(EmuError::AddressRange) && final(self)@ == old(self)@,
    {
        if addr <= WA_RA31 {
            self.reg_ra.set_vec(addr as usize, values.as_slice());
            Ok(())
        } else if addr >= WA_ACC0 && addr <= WA_ACC3 {
            self.reg_r.set_vec((addr - 32) as usize, values.as_slice());
            Ok(())
        } else if addr == WB_ACC5 {
            Err(EmuError::Unimplemented)
        } else if addr == WA_NOP || addr == WA_TMU_NOSWAP || addr == WA_MUTEX_RELEASE || addr
            == WA_HOST_INT {
            Ok(())
        } else if addr == WA_UNIFORMS_ADDRESS {
            if let Some(value) = values[0] {
                self.uniform_ptr = value;
            }
            Ok(())
        } else if addr >= WA_TMU0_S && addr <= WA_TMU0_B {
            self.tmu0_enqueue((addr - 56) as u8, values)
        } else if addr == WA_VPM_WRITE {
            self.write_vpm(values)
        } else if addr == WA_VPMVCD_RD_SETUP {
            if let Some(value) = values[0] {
                self.setup_vpm_load(value);
            }
            Ok(())
        } else if addr == WA_VPM_LD_ADDR {
            if let Some(value) = values[0] {
                self.execute_vpm_dma_load(value)
            } else {
                Ok(())
            }
        } else {
            Err(EmuError::AddressRange)
        }
    }

    /// Dispatch a predicated 16-lane write to a B-bank write address. The B
    /// bank adds the broadcast accumulator (lane 0's value replicated into
    /// R5), the store setup port, and the DMA-store trigger.
    #[verifier::rlimit(80)]
    pub fn write_rb(&mut self, addr: u8, values: &[Option<u32>; 16]) -> (r: Result<(), EmuError>)
        requires
            old(self).wf(),
        ensures
            final(self).wf(),
            final(self)@.reg_ra == old(self)@.reg_ra && final(self)@.zf == old(self)@.zf
                && final(self)@.nf == old(self)@.nf
                && final(self)@.cf == old(self)@.cf
                && final(self)@.pc == old(self)@.pc
                && final(self)@.insts == old(self)@.insts
                && final(self)@.slots == old(self)@.slots
                && final(self)@.breakpoints == old(self)@.breakpoints,
            addr != WB_UNIFORMS_ADDRESS ==> final(self)@.uniform_ptr == old(self)@.uniform_ptr,
            addr > WB_RB31 ==> final(self)@.reg_rb == old(self)@.reg_rb,
            !(WB_ACC0 <= addr <= WB_ACC3) && addr != WB_ACC5 ==> final(self)@.reg_r
                == old(self)@.reg_r,
            addr <= WB_RB31 ==> r is Ok && final(self)@ == (QPUState {
                reg_rb: spec_set_vec(old(self)@.reg_rb, 16, addr as int, values@),
                ..old(self)@
            }),
            WB_ACC0 <= addr <= WB_ACC3 ==> r is Ok && final(self)@ == (QPUState {
                reg_r: spec_set_vec(old(self)@.reg_r, 16, addr - 32, values@),
                ..old(self)@
            }),
            addr == WB_ACC5 ==> r is Ok && final(self)@ == (QPUState {
                reg_r: if values@[0] is Some {
                    spec_reg_set_row(old(self)@.reg_r, 5, Seq::new(16, |e: int| values@[0]->Some_0))
                } else {
                    old(self)@.reg_r
                },
                ..old(self)@
            }),
            addr == WB_NOP || addr == WB_TMU_NOSWAP || addr == WB_MUTEX_RELEASE || addr
                == WB_HOST_INT ==> r is Ok && final(self)@ == old(self)@,
            addr == WB_UNIFORMS_ADDRESS ==> r is Ok && final(self)@ == (QPUState {
                uniform_ptr: if values@[0] is Some {
                    values@[0]->Some_0
                } else {
                    old(self)@.uniform_ptr
                },
                ..old(self)@
            }),
            WB_TMU0_S <= addr <= WB_TMU0_B ==> {
                if old(self)@.tmu0.len() >= 8 {
                    r == Err::<(), EmuError>(EmuError::TmuOverflow) && final(self)@ == old(self)@
                } else if exists|e: int| 0 <= e < 16 && values@[e] is None {
                    r == Err::<(), EmuError>(EmuError::TmuMasked) && final(self)@ == old(self)@
                } else {
                    r is Ok && final(self)@ == (QPUState {
                        tmu0: old(self)@.tmu0.push(((addr - 56) as u8, spec_lanes_of(values@))),
                        ..old(self)@
                    })
                }
            },
            addr == WB_VPM_WRITE ==> spec_write_vpm_contract(old(self)@, final(self)@, values@, r),
            addr == WB_VPMVCD_WR_SETUP && values@[0] is None ==> r is Ok && final(self)@ == old(self)@,
            addr == WB_VPMVCD_WR_SETUP && values@[0] is Some ==> spec_setup_vpm_store_contract(
                old(self)@,
                final(self)@,
                values@[0]->Some_0,
                r,
            ),
            addr == WB_VPM_ST_ADDR && values@[0] is None ==> r is Ok && final(self)@ == old(self)@,
            addr == WB_VPM_ST_ADDR && values@[0] is Some ==> spec_dma_store_contract(
                old(self)@,
                final(self)@,
                values@[0]->Some_0,
                r,
            ),
            !(addr <= WB_RB31 || (WB_ACC0 <= addr <= WB_ACC3) || addr == WB_ACC5 || addr == WB_NOP
                || addr == WB_TMU_NOSWAP || addr == WB_MUTEX_RELEASE || addr == WB_HOST_INT || addr
                == WB_UNIFORMS_ADDRESS || (WB_TMU0_S <= addr <= WB_TMU0_B) || addr == WB_VPM_WRITE
                || addr == WB_VPMVCD_WR_SETUP || addr == WB_VPM_ST_ADDR) ==> r == Err::<
                (),
                EmuError,
            >(EmuError::AddressRange) && final(self)@ == old(self)@,
    {
        if addr <= WB_RB31 {
            self.reg_rb.set_vec(addr as usize, values.as_slice());
            Ok(())
        } else if addr >= WB_ACC0 && addr <= WB_ACC3 {
            self.reg_r.set_vec((addr - 32) as usize, values.as_slice());
            Ok(())
        } else if addr == WB_ACC5 {
            if let Some(value) = values[0] {
                let mut elem: usize = 0;
                while elem < 16
                    invariant
                        elem <= 16,
                        self.wf(),
                        (QPUState { reg_r: Seq::<u32>::empty(), ..self@ }) == (QPUState {
                            reg_r: Seq::<u32>::empty(),
                            ..old(self)@
                        }),
                        self@.reg_r.len() == 96,
                        forall|i: int|
                            0 <= i < 96 ==> self@.reg_r[i] == (if 80 <= i < 80 + elem {
                                value
                            } else {
                                old(self)@.reg_r[i]
                            }),
                    decreases 16 - elem,
                {
                    self.reg_r.set(elem, 5, value);
                    elem = elem + 1;
                }
                proof {
                    assert(self@.reg_r =~= spec_reg_set_row(
                        old(self)@.reg_r,
                        5,
                        Seq::new(16, |e: int| value),
                    ));
                }
            }
            Ok(())
        } else if addr == WB_NOP || addr == WB_TMU_NOSWAP || addr == WB_MUTEX_RELEASE || addr
            == WB_HOST_INT {
            Ok(())
        } else if addr == WB_UNIFORMS_ADDRESS {
            if let Some(value) = values[0] {
                self.uniform_ptr = value;
            }
            Ok(())
        } else if addr >= WB_TMU0_S && addr <= WB_TMU0_B {
            self.tmu0_enqueue((addr - 56) as u8, values)
        } else if addr == WB_VPM_WRITE {
            self.write_vpm(values)
        } else if addr == WB_VPMVCD_WR_SETUP {
            if let Some(value) = values[0] {
                self.setup_vpm_store(value)
            } else {
                Ok(())
            }
        } else if addr == WB_VPM_ST_ADDR {
            if let Some(value) = values[0] {
                self.execute_vpm_dma_store(value)
            } else {
                Ok(())
            }
        } else {
            Err(EmuError::AddressRange)
        }
    }

    /// Enqueue one TMU0 parameter: the 16 lane values under their tag. The
    /// queue holds at most 8 requests, and a masked lane is a fatal error.
    fn tmu0_enqueue(&mut self, tag: u8, values: &[Option<u32>; 16]) -> (r: Result<(), EmuError>)
        requires
            old(self).wf(),
            tag <= 3,
        ensures
            final(self).wf(),
            old(self)@.tmu0.len() >= 8 ==> r == Err::<(), EmuError>(EmuError::TmuOverflow)
                && final(self)@ == old(self)@,
            old(self)@.tmu0.len() < 8 && (exists|e: int| 0 <= e < 16 && values@[e] is None) ==> r
                == Err::<(), EmuError>(EmuError::TmuMasked) && final(self)@ == old(self)@,
            old(self)@.tmu0.len() < 8 && (forall|e: int| 0 <= e < 16 ==> values@[e] is Some) ==> r
                is Ok && final(self)@ == (QPUState {
                tmu0: old(self)@.tmu0.push((tag, spec_lanes_of(values@))),
                ..old(self)@
            }),
    {
        if self.tmu0_req_fifo.len() >= 8 {
            return Err(EmuError::TmuOverflow);
        }
        let mut e: usize = 0;
        while e < 16
            invariant
                e <= 16,
                self.wf(),
                self@ == old(self)@,
                old(self)@.tmu0.len() < 8,
                forall|j: int| 0 <= j < e ==> values@[j] is Some,
            decreases 16 - e,
        {
            if values[e].is_none() {
                return Err(EmuError::TmuMasked);
            }
            e = e + 1;
        }
        let ghost prev_vec = self.tmu0_req_fifo@;
        let lanes = crate::bits::unwrap_u32x16(values);
        self.tmu0_req_fifo.push((tag, lanes));
        proof {
            assert(self.tmu0_req_fifo@ == prev_vec.push((tag, lanes)));
            assert(lanes@ =~= spec_lanes_of(values@));
            assert forall|i: int| 0 <= i < self@.tmu0.len() implies self@.tmu0[i] == old(self)@.tmu0.push((tag, spec_lanes_of(values@)))[i] by {
                assert(self@.tmu0[i] == (self.tmu0_req_fifo@[i].0, self.tmu0_req_fifo@[i].1@));
                if i < prev_vec.len() {
                    assert(self.tmu0_req_fifo@[i] == prev_vec[i]);
                } else {
                    assert(self.tmu0_req_fifo@[i] == (tag, lanes));
                }
            }
            assert(self@.tmu0 =~= old(self)@.tmu0.push((tag, spec_lanes_of(values@))));
        }
        Ok(())
    }
}

/// The state change and result of one VPM write transaction, as `write_vpm`
/// promises them.
pub open spec fn spec_write_vpm_contract(
    pre: QPUState,
    post: QPUState,
    vals: Seq<Option<u32>>,
    r: Result<(), EmuError>,
) -> bool {
    let cfg = pre.vpm_write;
    let adv = (VPMWrite { addr: (cfg.addr + cfg.stride) as usize, ..cfg });
    &&& (cfg.size != 2 ==> r == Err::<(), EmuError>(EmuError::Unimplemented) && post == pre)
    &&& (cfg.size == 2 && cfg.addr + cfg.stride > usize::MAX ==> r == Err::<(), EmuError>(
        EmuError::PointerOverflow,
    ) && post == pre)
    &&& (cfg.size == 2 && cfg.addr + cfg.stride <= usize::MAX && cfg.horizontal ==> r is Ok && post
        == (QPUState { vpm: spec_vpm_write_h(pre.vpm, (cfg.addr % 64) as int, vals), vpm_write: adv, ..pre }))
    &&& (cfg.size == 2 && cfg.addr + cfg.stride <= usize::MAX && !cfg.horizontal ==> {
        let a = spec_addr32(cfg.addr);
        if a / 16 < 4 || (forall|e: int| 0 <= e < 16 ==> vals[e] is None) {
            r is Ok && post == (QPUState {
                vpm: spec_vpm_write_v(pre.vpm, a % 16, a / 16, vals),
                vpm_write: adv,
                ..pre
            })
        } else {
            r == Err::<(), EmuError>(EmuError::MemBounds) && post == (QPUState {
                vpm_write: adv,
                ..pre
            })
        }
    })
}

/// The state after a write-class setup command installs a configuration.
pub open spec fn spec_setup_vpm_load_state(pre: QPUState, command: u32) -> QPUState {
    if spec_get_bits_u32(command, 31, 28) == 9 || spec_get_bits_u32(command, 31, 31) == 1 {
        QPUState { dma_load: spec_setup_dma_load(pre.dma_load, command), ..pre }
    } else {
        QPUState { vpm_read: spec_setup_vpm_read(pre.vpm_read, command), ..pre }
    }
}

/// The state change and result of a store-class setup command.
pub open spec fn spec_setup_vpm_store_contract(
    pre: QPUState,
    post: QPUState,
    command: u32,
    r: Result<(), EmuError>,
) -> bool {
    &&& spec_get_bits_u32(command, 31, 30) < 4
    &&& (r is Ok <==> spec_get_bits_u32(command, 31, 30) != 1)
    &&& (spec_get_bits_u32(command, 31, 30) == 3 || spec_get_bits_u32(command, 31, 30) == 2 ==> post
        == (QPUState { dma_store: spec_setup_dma_store(pre.dma_store, command), ..pre }))
    &&& (spec_get_bits_u32(command, 31, 30) == 0 ==> post == (QPUState {
        vpm_write: spec_setup_vpm_write(pre.vpm_write, command),
        ..pre
    }))
    &&& (spec_get_bits_u32(command, 31, 30) == 1 ==> r == Err::<(), EmuError>(
        EmuError::AddressRange,
    ) && post == pre)
}

/// The state change and result of one DMA load, as `execute_vpm_dma_load`
/// promises them.
pub open spec fn spec_dma_load_contract(
    pre: QPUState,
    post: QPUState,
    addr: u32,
    r: Result<(), EmuError>,
) -> bool {
    let s = pre.dma_load;
    &&& (r is Err ==> post == pre)
    &&& (s.modew == 0 && s.vert ==> r == Err::<(), EmuError>(EmuError::Unimplemented))
    &&& (2 <= s.modew <= 7 ==> r == Err::<(), EmuError>(EmuError::Unimplemented))
    &&& (s.modew == 1 ==> r == Err::<(), EmuError>(EmuError::AddressRange))
    &&& (s.modew == 0 && !s.vert ==> (if spec_dma_load_ok(pre.mem.len() as int, s, addr as int) {
        r is Ok && post == (QPUState {
            vpm: spec_dma_load_vpm(pre.vpm, pre.mem, s, addr as int),
            ..pre
        })
    } else {
        r == Err::<(), EmuError>(EmuError::MemBounds)
    }))
}

/// The state change and result of one DMA store, as `execute_vpm_dma_store`
/// promises them.
pub open spec fn spec_dma_store_contract(
    pre: QPUState,
    post: QPUState,
    addr: u32,
    r: Result<(), EmuError>,
) -> bool {
    let s = pre.dma_store;
    &&& (r is Err ==> post == pre)
    &&& (s.modew == 0 && s.blockmode == 1 ==> r == Err::<(), EmuError>(EmuError::Unimplemented))
    &&& (s.modew == 0 && s.blockmode != 1 && !s.horiz ==> r == Err::<(), EmuError>(
        EmuError::Unimplemented,
    ))
    &&& (2 <= s.modew <= 7 ==> r == Err::<(), EmuError>(EmuError::Unimplemented))
    &&& (s.modew == 1 ==> r == Err::<(), EmuError>(EmuError::AddressRange))
    &&& (s.modew == 0 && s.blockmode != 1 && s.horiz ==> (if spec_dma_store_ok(
        pre.mem.len() as int,
        s,
        addr as int,
    ) {
        r is Ok && post == (QPUState {
            mem: spec_dma_store_mem(pre.vpm, pre.mem, s, addr as int),
            ..pre
        })
    } else {
        r == Err::<(), EmuError>(EmuError::MemBounds)
    }))
}

impl QPUEmu {
    /// One lane's zero flag.
    pub fn z_flag(&self, elem: usize) -> (r: bool)
        requires
            self.wf(),
            elem < 16,
        ensures
            r == self@.zf[elem as int],
    {
        self.zf[elem]
    }

    /// One lane's negative flag.
    pub fn n_flag(&self, elem: usize) -> (r: bool)
        requires
            self.wf(),
            elem < 16,
        ensures
            r == self@.nf[elem as int],
    {
        self.nf[elem]
    }

    /// One lane's carry flag.
    pub fn c_flag(&self, elem: usize) -> (r: bool)
        requires
            self.wf(),
            elem < 16,
        ensures
            r == self@.cf[elem as int],
    {
        self.cf[elem]
    }

    /// One lane of one accumulator.
    pub fn get_acc(&self, elem: usize, idx: usize) -> (r: u32)
        requires
            self.wf(),
            elem < 16,
            idx < 6,
        ensures
            r == self@.reg_r[16 * idx + elem],
    {
        self.reg_r.get(elem, idx)
    }

    /// One lane of one A-bank register.
    pub fn get_ra(&self, elem: usize, idx: usize) -> (r: u32)
        requires
            self.wf(),
            elem < 16,
            idx < 32,
        ensures
            r == self@.reg_ra[16 * idx + elem],
    {
        self.reg_ra.get(elem, idx)
    }

    /// One lane of one B-bank register.
    pub fn get_rb(&self, elem: usize, idx: usize) -> (r: u32)
        requires
            self.wf(),
            elem < 16,
            idx < 32,
        ensures
            r == self@.reg_rb[16 * idx + elem],
    {
        self.reg_rb.get(elem, idx)
    }

    /// Store one lane of one accumulator; a test harness's preload port.
    pub fn set_acc(&mut self, elem: usize, idx: usize, val: u32)
        requires
            old(self).wf(),
            elem < 16,
            idx < 6,
        ensures
            final(self).wf(),
            final(self)@ == (QPUState {
                reg_r: old(self)@.reg_r.update(16 * idx + elem, val),
                ..old(self)@
            }),
    {
        self.reg_r.set(elem, idx, val);
    }

    /// Store one lane of one A-bank register; a test harness's preload port.
    pub fn set_ra(&mut self, elem: usize, idx: usize, val: u32)
        requires
            old(self).wf(),
            elem < 16,
            idx < 32,
        ensures
            final(self).wf(),
            final(self)@ == (QPUState {
                reg_ra: old(self)@.reg_ra.update(16 * idx + elem, val),
                ..old(self)@
            }),
    {
        self.reg_ra.set(elem, idx, val);
    }

    /// Store one lane of one B-bank register; a test harness's preload port.
    pub fn set_rb(&mut self, elem: usize, idx: usize, val: u32)
        requires
            old(self).wf(),
            elem < 16,
            idx < 32,
        ensures
            final(self).wf(),
            final(self)@ == (QPUState {
                reg_rb: old(self)@.reg_rb.update(16 * idx + elem, val),
                ..old(self)@
            }),
    {
        self.reg_rb.set(elem, idx, val);
    }

    /// Set one lane's zero flag; a test harness's preload port.
    pub fn set_z_flag(&mut self, elem: usize, v: bool)
        requires
            old(self).wf(),
            elem < 16,
        ensures
            final(self).wf(),
            final(self)@ == (QPUState { zf: old(self)@.zf.update(elem as int, v), ..old(self)@ }),
    {
        self.zf[elem] = v;
    }

    /// The uniforms stream pointer.
    pub fn uniform_pointer(&self) -> (r: u32)
        requires
            self.wf(),
        ensures
            r == self@.uniform_ptr,
    {
        self.uniform_ptr
    }

    /// The program counter.
    pub fn program_counter(&self) -> (r: usize)
        requires
            self.wf(),
        ensures
            r == self@.pc,
    {
        self.pc
    }

    /// All sixteen zero flags.
    pub(crate) fn z_flags(&self) -> (r: &Vec<bool>)
        ensures
            r@ == self@.zf,
    {
        &self.zf
    }

    /// All sixteen negative flags.
    pub(crate) fn n_flags(&self) -> (r: &Vec<bool>)
        ensures
            r@ == self@.nf,
    {
        &self.nf
    }

    /// All sixteen carry flags.
    pub(crate) fn c_flags(&self) -> (r: &Vec<bool>)
        ensures
            r@ == self@.cf,
    {
        &self.cf
    }

    /// Load the program counter.
    pub(crate) fn set_pc(&mut self, pc: usize)
        requires
            old(self).wf(),
        ensures
            final(self).wf(),
            final(self)@ == (QPUState { pc: pc as int, ..old(self)@ }),
    {
        self.pc = pc;
    }

    /// Step the uniforms pointer past one consumed word.
    pub(crate) fn advance_uniform_pointer(&mut self)
        requires
            old(self).wf(),
            old(self)@.uniform_ptr + 4 <= u32::MAX,
        ensures
            final(self).wf(),
            final(self)@ == (QPUState {
                uniform_ptr: (old(self)@.uniform_ptr + 4) as u32,
                ..old(self)@
            }),
    {
        self.uniform_ptr = self.uniform_ptr + 4;
    }
}

/// A contiguous DMA load is a byte-exact image of the source region: after a
/// load of `nrows x rowlen` 32-bit words with a memory pitch of `rowlen * 4`
/// bytes and a VPM pitch of one, the cell that word `k` landed in holds, byte
/// for byte, the memory word at `addr + 4k`.
pub proof fn lemma_dma_load_contiguous(
    vpm: Seq<Seq<u8>>,
    mem: Seq<u8>,
    s: VPMDMALoad,
    addr: int,
    k: int,
    b: int,
)
    requires
        s.vpitch == 1,
        s.rowlen >= 1,
        spec_dma_mpitch(s) == 4 * s.rowlen,
        0 <= k < spec_dma_load_n(s),
        0 <= b < 4,
        s.addrxy + spec_dma_load_n(s) <= 1024,
        0 <= addr,
        addr + 4 * spec_dma_load_n(s) <= mem.len(),
    ensures
        spec_dma_load_vpm(vpm, mem, s, addr)[(s.addrxy + k) % 16][((s.addrxy + k) / 16) * 4 + b]
            == mem[addr + 4 * k + b],
{
    let a = s.addrxy + k;
    vstd::arithmetic::div_mod::lemma_fundamental_div_mod(a, 16);
    vstd::arithmetic::div_mod::lemma_mod_division_less_than_divisor(a, 16);
    let c = a % 16;
    let w = a / 16;
    assert(w < 64 && w >= 0) by (nonlinear_arith)
        requires
            0 <= a < 1024,
            a == 16 * w + c,
            0 <= c < 16,
    ;
    let bb = w * 4 + b;
    assert(bb / 4 == w && bb % 4 == b) by (nonlinear_arith)
        requires
            bb == w * 4 + b,
            0 <= b < 4,
            0 <= w,
    ;
    let cell = spec_dma_load_vpm(vpm, mem, s, addr)[c][bb];
    assert((bb / 4) * 16 + c == a);
    assert((a - s.addrxy) % 1 == 0 && (a - s.addrxy) / 1 == k) by (nonlinear_arith)
        requires
            a - s.addrxy == k,
    ;
    assert(cell == mem[spec_dma_load_src(s, addr, k) + b]);
    vstd::arithmetic::div_mod::lemma_fundamental_div_mod(k, s.rowlen as int);
    assert(spec_dma_load_src(s, addr, k) == addr + 4 * k) by (nonlinear_arith)
        requires
            spec_dma_load_src(s, addr, k) == addr + (k / (s.rowlen as int)) * (4 * s.rowlen) + (k
                % (s.rowlen as int)) * 4,
            k == (s.rowlen as int) * (k / (s.rowlen as int)) + k % (s.rowlen as int),
    ;
}

/// A DMA load followed by a DMA store with the same shape is a byte-exact
/// copy: with `depth = rowlen` and `units = nrows`, matching pitches (a
/// contiguous load, a store stride of zero) and the same VPM base, byte `j` of
/// the destination region takes byte `j` of the source region, for every `j`.
pub proof fn lemma_dma_round_trip(
    vpm: Seq<Seq<u8>>,
    mem: Seq<u8>,
    ld: VPMDMALoad,
    st: VPMDMAStore,
    src: int,
    dst: int,
    j: int,
)
    requires
        ld.vpitch == 1,
        ld.rowlen >= 1,
        spec_dma_mpitch(ld) == 4 * ld.rowlen,
        st.stride == 0,
        st.depth == ld.rowlen,
        st.units == ld.nrows,
        st.vpmbase == ld.addrxy,
        ld.addrxy + spec_dma_load_n(ld) <= 1024,
        0 <= src,
        src + 4 * spec_dma_load_n(ld) <= mem.len(),
        0 <= dst,
        dst + 4 * spec_dma_load_n(ld) <= mem.len(),
        0 <= j < 4 * spec_dma_load_n(ld),
    ensures
        spec_dma_store_mem(spec_dma_load_vpm(vpm, mem, ld, src), mem, st, dst)[dst + j] == mem[src
            + j],
{
    let n = spec_dma_load_n(ld);
    assert((st.units as int) * (st.depth as int) == (ld.nrows as int) * (ld.rowlen as int))
        by (nonlinear_arith)
        requires
            st.units == ld.nrows,
            st.depth == ld.rowlen,
    ;
    assert(spec_dma_store_n(st) == n);
    let vpm2 = spec_dma_load_vpm(vpm, mem, ld, src);
    let i = dst + j;
    vstd::arithmetic::div_mod::lemma_fundamental_div_mod(j, 4);
    vstd::arithmetic::div_mod::lemma_mod_division_less_than_divisor(j, 4);
    let k0 = j / 4;
    let b = j % 4;
    assert(0 <= k0 < n) by (nonlinear_arith)
        requires
            j == 4 * k0 + b,
            0 <= b < 4,
            0 <= j < 4 * n,
    ;
    vstd::arithmetic::div_mod::lemma_div_pos_is_pos(k0, st.depth as int);
    vstd::arithmetic::div_mod::lemma_div_is_ordered(0, k0, st.depth as int);
    assert((k0 / (st.depth as int)) * (st.stride as int) == 0) by (nonlinear_arith)
        requires
            st.stride == 0,
    ;
    assert(spec_dma_store_dst(st, dst, k0) == dst + 4 * k0);
    assert(spec_dma_store_dst(st, dst, k0) <= i < spec_dma_store_dst(st, dst, k0) + 4);
    assert(exists|k: int|
        0 <= k < spec_dma_store_n(st) && #[trigger] spec_dma_store_dst(st, dst, k) <= i
            < spec_dma_store_dst(st, dst, k) + 4);
    let kw = choose|k: int|
        0 <= k < spec_dma_store_n(st) && #[trigger] spec_dma_store_dst(st, dst, k) <= i
            < spec_dma_store_dst(st, dst, k) + 4;
    if kw != k0 {
        if kw < k0 {
            lemma_dma_store_dst_monotone(st, dst, kw, k0);
        } else {
            lemma_dma_store_dst_monotone(st, dst, k0, kw);
        }
        assert(false);
    }
    assert(spec_dma_store_mem(vpm2, mem, st, dst)[i] == spec_vpm_word_byte(
        vpm2,
        st.vpmbase + k0,
        b,
    ));
    lemma_dma_load_contiguous(vpm, mem, ld, src, k0, b);
    assert(spec_vpm_word_byte(vpm2, st.vpmbase + k0, b) == mem[src + 4 * k0 + b]);
    assert(src + 4 * k0 + b == src + j);
}

/// Whether an instruction word is statically safe: it decodes, confines
/// itself to plain per-lane storage, and so can neither fault nor branch.
pub open spec fn spec_static_safe_word(w: u64) -> bool {
    &&& spec_decode_inst(w) is Ok
    &&& crate::executors::spec_static_safe_inst(spec_decode_inst(w)->Ok_0)
}

/// A statically safe instruction's ports are trivially ready.
proof fn lemma_static_safe_runs(s: QPUState, i: crate::instructions::InstFormat)
    requires
        crate::executors::spec_static_safe_inst(i),
    ensures
        i is Alu ==> crate::executors::spec_alu_ports_ok(s, i->Alu_0),
        i is AluSmallImm ==> crate::executors::spec_si_ports_ok(s, i->AluSmallImm_0),
{
}

/// Whether a decoded word is an ALU instruction carrying the breakpoint signal.
pub open spec fn spec_is_bpkt(d: Result<crate::instructions::InstFormat, EmuError>) -> bool {
    &&& d is Ok
    &&& d->Ok_0 is Alu
    &&& d->Ok_0->Alu_0.sig == crate::constants::SIG_BPKT
}

impl QPUEmu {
    /// Load an instruction stream; each word is one 64-bit instruction.
    pub fn load_program(&mut self, insts: &Vec<u64>)
        requires
            old(self).wf(),
        ensures
            final(self).wf(),
            final(self)@ == (QPUState { insts: insts@, ..old(self)@ }),
    {
        self.insts = insts.clone();
    }

    /// Start a thread: the program counter returns to zero and the uniforms
    /// pointer takes the thread's base; all other state is left as the last
    /// kernel left it.
    pub fn begin_thread(&mut self, uniform_ptr: u32)
        requires
            old(self).wf(),
        ensures
            final(self).wf(),
            final(self)@ == (QPUState { pc: 0, uniform_ptr, ..old(self)@ }),
    {
        self.uniform_ptr = uniform_ptr;
        self.pc = 0;
    }

    /// The program counters at which breakpoint signals have fired, oldest
    /// first.
    pub fn breakpoints(&self) -> (r: &Vec<u32>)
        ensures
            r@ == self@.breakpoints,
    {
        &self.breakpoint_pcs
    }

    /// Retire one instruction: the word the shadow ring has held for three
    /// fetches decodes and executes, a breakpoint-signalled ALU word reports
    /// its own fetch counter, the ring shifts the newly fetched slot in, and
    /// the program counter advances past it.
    #[verifier::rlimit(100)]
    pub fn step(&mut self) -> (r: Result<Option<u32>, EmuError>)
        requires
            old(self).wf(),
            old(self)@.pc < old(self)@.insts.len(),
            old(self)@.insts.len() <= 0x4000_0000,
        ensures
            final(self).wf(),
            final(self)@.insts == old(self)@.insts,
            r is Ok ==> final(self)@.slots.len() == 3 && final(self)@.slots[0] == old(self)@.slots[1] && final(self)@.slots[1] == old(self)@.slots[2] && final(self)@.slots[2]
                == ((old(self)@.pc as u32, old(self)@.insts[old(self)@.pc])),
            spec_decode_inst(old(self)@.slots[0].1) is Err ==> r == Err::<Option<u32>, EmuError>(
                EmuError::Decode,
            ) && final(self)@ == old(self)@,
            r is Ok ==> (r->Ok_0 is Some <==> spec_is_bpkt(spec_decode_inst(old(self)@.slots[0].1))),
            r is Ok && r->Ok_0 is Some ==> r->Ok_0->Some_0 == old(self)@.slots[0].0,
            r is Ok && spec_is_bpkt(spec_decode_inst(old(self)@.slots[0].1)) ==> final(self)@.breakpoints == old(self)@.breakpoints.push(old(self)@.slots[0].0),
            r is Ok && !spec_is_bpkt(spec_decode_inst(old(self)@.slots[0].1)) ==> final(self)@.breakpoints == old(self)@.breakpoints,
            r is Ok && !(spec_decode_inst(old(self)@.slots[0].1)->Ok_0 is Branch) ==> final(self)@.pc == old(self)@.pc + 1,
            ({
                let d = spec_decode_inst(old(self)@.slots[0].1);
                let shifted = seq![
                    old(self)@.slots[1],
                    old(self)@.slots[2],
                    (old(self)@.pc as u32, old(self)@.insts[old(self)@.pc]),
                ];
                let bp = if spec_is_bpkt(d) {
                    old(self)@.breakpoints.push(old(self)@.slots[0].0)
                } else {
                    old(self)@.breakpoints
                };
                d is Ok ==> match d->Ok_0 {
                    InstFormat::Alu(f) => crate::executors::spec_covered_alu(f) ==> ((r is Ok
                        <==> crate::executors::spec_alu_ports_ok(old(self)@, f)) && (
                    crate::executors::spec_alu_ports_ok(old(self)@, f) ==> final(self)@
                        == (QPUState {
                        pc: old(self)@.pc + 1,
                        slots: shifted,
                        breakpoints: bp,
                        ..crate::executors::spec_alu_retire(old(self)@, f)
                    }))),
                    InstFormat::AluSmallImm(f) => crate::executors::spec_covered_si(f) ==> ((r
                        is Ok <==> crate::executors::spec_si_ports_ok(old(self)@, f)) && (
                    crate::executors::spec_si_ports_ok(old(self)@, f) ==> final(self)@
                        == (QPUState {
                        pc: old(self)@.pc + 1,
                        slots: shifted,
                        breakpoints: bp,
                        ..crate::executors::spec_si_retire(old(self)@, f)
                    }))),
                    InstFormat::Branch(f) => crate::executors::spec_covered_branch(old(self)@, f)
                        ==> ((r is Ok <==> (f.raddr_a == RA_UNIFORM_READ ==> old(self)@.uniform_ptr + 4 <= u32::MAX)) && ((f.raddr_a == RA_UNIFORM_READ ==> old(self)@.uniform_ptr + 4 <= u32::MAX) ==> final(self)@ == (QPUState {
                        pc: ({
                            let t = crate::executors::spec_branch_retire(old(self)@, f).pc;
                            if t == usize::MAX as int {
                                t
                            } else {
                                t + 1
                            }
                        }),
                        slots: shifted,
                        breakpoints: bp,
                        ..crate::executors::spec_branch_retire(old(self)@, f)
                    }))),
                    InstFormat::LoadImm32(f) => crate::executors::spec_plain_write(f.waddr_add)
                        && crate::executors::spec_plain_write(f.waddr_mul) ==> r is Ok && final(self)@ == (QPUState {
                        pc: old(self)@.pc + 1,
                        slots: shifted,
                        breakpoints: bp,
                        ..crate::executors::spec_li32_post(old(self)@, f)
                    }),
                    InstFormat::LoadImmPerElemSigned(f) => f.cond_add < 8 && f.cond_mul < 8
                        && crate::executors::spec_plain_write(f.waddr_add)
                        && crate::executors::spec_plain_write(f.waddr_mul) ==> r is Ok && final(self)@ == (QPUState {
                        pc: old(self)@.pc + 1,
                        slots: shifted,
                        breakpoints: bp,
                        ..crate::executors::spec_plain_pe_post(old(self)@, f, true)
                    }),
                    InstFormat::LoadImmPerElemUnsigned(f) => f.cond_add < 8 && f.cond_mul < 8
                        && crate::executors::spec_plain_write(f.waddr_add)
                        && crate::executors::spec_plain_write(f.waddr_mul) ==> r is Ok && final(self)@ == (QPUState {
                        pc: old(self)@.pc + 1,
                        slots: shifted,
                        breakpoints: bp,
                        ..crate::executors::spec_plain_pe_post(old(self)@, f, false)
                    }),
                    InstFormat::Semaphore(_f) => r is Ok && final(self)@ == (QPUState {
                        pc: old(self)@.pc + 1,
                        slots: shifted,
                        breakpoints: bp,
                        ..old(self)@
                    }),
                }
            }),
            spec_static_safe_word(old(self)@.slots[0].1) ==> r is Ok,
    {
        let (inst_pc, inst) = self.slots[0];
        let fetch_pc = self.pc;
        let fetched = self.insts[self.pc];

        let decoded = match crate::instructions::decode_inst(inst) {
            Ok(d) => d,
            Err(e) => {
                return Err(e);
            },
        };
        proof {
            if spec_static_safe_word(inst) {
                assert(crate::executors::spec_static_safe_inst(decoded));
            }
        }
        match self.execute_inst(&decoded) {
            Ok(()) => (),
            Err(e) => {
                proof {
                    if spec_static_safe_word(inst) {
                        lemma_static_safe_runs(old(self)@, decoded);
                    }
                }
                return Err(e);
            },
        }
        let mut bp: Option<u32> = None;
        if let crate::instructions::InstFormat::Alu(af) = &decoded {
            if af.sig == crate::constants::SIG_BPKT {
                self.breakpoint_pcs.push(inst_pc);
                bp = Some(inst_pc);
            }
        }
        self.slots[0] = self.slots[1];
        self.slots[1] = self.slots[2];
        self.slots[2] = (fetch_pc as u32, fetched);
        if self.pc < usize::MAX {
            self.pc = self.pc + 1;
        }
        proof {
            assert(self@.slots =~= seq![
                old(self)@.slots[1],
                old(self)@.slots[2],
                (old(self)@.pc as u32, old(self)@.insts[old(self)@.pc]),
            ]);
        }
        Ok(bp)
    }

    /// Run each thread in turn from program counter zero with its own
    /// uniforms base, until its counter falls off the end of the stream.
    /// Threads share memory and the shadow ring; a thread that never falls off
    /// the end exhausts the driver's step allowance.
    pub fn execute(&mut self, insts: &Vec<u64>, uniform_ptrs: &Vec<u32>, n_threads: usize) -> (r:
        Result<(), EmuError>)
        requires
            old(self).wf(),
            n_threads <= uniform_ptrs@.len(),
            insts@.len() <= 0x4000_0000,
        ensures
            final(self).wf(),
            final(self)@.insts == insts@,
            r is Ok && n_threads > 0 ==> final(self)@.pc >= insts@.len(),
            n_threads == 0 ==> r is Ok && final(self)@ == (QPUState {
                insts: insts@,
                ..old(self)@
            }),
            (forall|j: int| 0 <= j < 3 ==> spec_static_safe_word(#[trigger] old(self)@.slots[j].1))
                && (forall|i: int|
                0 <= i < insts@.len() ==> spec_static_safe_word(#[trigger] insts@[i])) ==> r is Ok,
    {
        let ghost all_safe = (forall|j: int|
            0 <= j < 3 ==> spec_static_safe_word(#[trigger] old(self)@.slots[j].1)) && (forall|
            i: int,
        |
            0 <= i < insts@.len() ==> spec_static_safe_word(#[trigger] insts@[i]));
        self.insts = insts.clone();

        let mut th: usize = 0;
        while th < n_threads
            invariant
                th <= n_threads,
                self.wf(),
                self@.insts == insts@,
                insts@.len() <= 0x4000_0000,
                n_threads <= uniform_ptrs@.len(),
                th > 0 ==> self@.pc >= insts@.len(),
                th == 0 ==> (QPUState { insts: Seq::<u64>::empty(), ..self@ }) == (QPUState {
                    insts: Seq::<u64>::empty(),
                    ..old(self)@
                }),
                all_safe == ((forall|j: int|
                    0 <= j < 3 ==> spec_static_safe_word(#[trigger] old(self)@.slots[j].1)) && (
                forall|i: int|
                    0 <= i < insts@.len() ==> spec_static_safe_word(#[trigger] insts@[i]))),
                all_safe ==> forall|j: int|
                    0 <= j < 3 ==> spec_static_safe_word(#[trigger] self@.slots[j].1),
            decreases n_threads - th,
        {
            self.uniform_ptr = uniform_ptrs[th];
            self.pc = 0;

            let mut fuel: u64 = 0xFFFF_FFFF_FFFF_FFFF;
            while self.pc < self.insts.len()
                invariant
                    self.wf(),
                    self@.insts == insts@,
                    insts@.len() <= 0x4000_0000,
                    n_threads >= 1,
                    all_safe == ((forall|j: int|
                        0 <= j < 3 ==> spec_static_safe_word(#[trigger] old(self)@.slots[j].1)) && (
                    forall|i: int|
                        0 <= i < insts@.len() ==> spec_static_safe_word(#[trigger] insts@[i]))),
                    all_safe ==> forall|j: int|
                        0 <= j < 3 ==> spec_static_safe_word(#[trigger] self@.slots[j].1),
                    all_safe ==> self@.pc <= insts@.len() && fuel >= insts@.len() - self@.pc,
                decreases fuel,
            {
                if fuel == 0 {
                    proof {
                        assert(!all_safe);
                    }
                    return Err(EmuError::StepLimit);
                }
                fuel = fuel - 1;
                match self.step() {
                    Ok(_) => (),
                    Err(e) => {
                        proof {
                            assert(!all_safe);
                        }
                        return Err(e);
                    },
                }
            }
            th = th + 1;
        }
        Ok(())
    }
}

/// A drain pops at least nothing and at most the whole queue.
proof fn lemma_tmu_drain_count_bounds(fifo: Seq<(u8, Seq<u32>)>)
    ensures
        0 <= spec_tmu_drain_count(fifo) <= fifo.len(),
    decreases fifo.len(),
{
    if fifo.len() > 0 && fifo[0].0 != 0 {
        lemma_tmu_drain_count_bounds(fifo.skip(1));
    }
}

/// The first-bad-lane search never answers below its starting lane.
proof fn lemma_first_bad_lane_lb(mem: Seq<u8>, svals: Seq<u32>, e: int)
    requires
        0 <= e <= 16,
    ensures
        spec_first_bad_lane(mem, svals, e) >= e,
    decreases 16 - e,
{
    if e < 16 && !(spec_read_mem_result(mem, svals[e] as int) is Err) {
        lemma_first_bad_lane_lb(mem, svals, e + 1);
    }
}

/// A duplicate among a longer drained prefix stays a duplicate.
proof fn lemma_tmu_dup_monotone(fifo: Seq<(u8, Seq<u32>)>, c1: int, c2: int)
    requires
        spec_tmu_dup(fifo, c1),
        c1 <= c2,
    ensures
        spec_tmu_dup(fifo, c2),
{
}

/// Unfold one lane of the first-bad-lane search.
proof fn lemma_first_bad_lane_step(mem: Seq<u8>, svals: Seq<u32>, e: int)
    requires
        0 <= e < 16,
        spec_first_bad_lane(mem, svals, 0) >= e,
    ensures
        spec_read_mem_result(mem, svals[e] as int) is Err ==> spec_first_bad_lane(mem, svals, 0)
            == e,
        spec_read_mem_result(mem, svals[e] as int) is Ok ==> spec_first_bad_lane(mem, svals, 0) >= e
            + 1,
{
    lemma_first_bad_lane_prefix(mem, svals, 0, e);
}

/// A completed search means every lane's read succeeds.
proof fn lemma_first_bad_lane_all_ok(mem: Seq<u8>, svals: Seq<u32>, e: int)
    requires
        0 <= e < 16,
        spec_first_bad_lane(mem, svals, 0) >= 16,
    ensures
        spec_read_mem_result(mem, svals[e] as int) is Ok,
{
    lemma_first_bad_lane_prefix(mem, svals, 0, e);
}

/// The search from lane 0 reaches lane `e` exactly when lanes before it are good.
proof fn lemma_first_bad_lane_prefix(mem: Seq<u8>, svals: Seq<u32>, s: int, e: int)
    requires
        0 <= s <= e < 16,
        spec_first_bad_lane(mem, svals, s) >= e,
    ensures
        spec_read_mem_result(mem, svals[e] as int) is Err ==> spec_first_bad_lane(mem, svals, s)
            == e,
        spec_read_mem_result(mem, svals[e] as int) is Ok ==> spec_first_bad_lane(mem, svals, s) >= e
            + 1,
    decreases e - s,
{
    lemma_first_bad_lane_lb(mem, svals, s + 1);
    if s < e {
        lemma_first_bad_lane_prefix(mem, svals, s + 1, e);
    }
}

} // verus!
