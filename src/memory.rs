use vstd::arithmetic::power2::{lemma2_to64, lemma_pow2_strictly_increases, pow2};
use vstd::bits::lemma_u32_shl_is_mul;
use vstd::prelude::*;

verus! {

pub type Word = u8;

pub type Address = u32;

/// Privilege level of the processor.
#[derive(Clone, Copy, Debug, PartialEq, Eq, Structural)]
pub enum Mode {
    Kernel,
    User,
}

/// A byte-addressed memory. Reads and writes outside it fail.
pub trait Memory {
    /// Whether `addr` names a cell.
    spec fn valid_spec(&self, addr: Address) -> bool;

    /// What a read at `addr` returns.
    spec fn read_spec(&self, addr: Address) -> Option<Word>;

    /// Whether a write at `addr` succeeds.
    spec fn write_ok_spec(&self, addr: Address) -> bool;

    /// Whether `after` is this memory after a write of `value` at `addr`.
    spec fn write_post(&self, addr: Address, value: Word, after: &Self) -> bool;

    fn read(&self, addr: Address) -> (r: Option<Word>)
        ensures
            r == self.read_spec(addr),
    ;

    fn write(&mut self, addr: Address, value: Word) -> (ok: bool)
        ensures
            ok == old(self).write_ok_spec(addr),
            old(self).write_post(addr, value, &*final(self)),
    ;

    fn is_valid(&self, addr: Address) -> (r: bool)
        ensures
            r == self.valid_spec(addr),
    ;
}

/// Plain memory: one vector of words, addressed from zero.
pub struct FlatMemory {
    pub memory: Vec<Word>,
}

impl Memory for FlatMemory {
    open spec fn valid_spec(&self, addr: Address) -> bool {
        addr < self.memory@.len()
    }

    open spec fn read_spec(&self, addr: Address) -> Option<Word> {
        if self.valid_spec(addr) {
            Some(self.memory@[addr as int])
        } else {
            None
        }
    }

    open spec fn write_ok_spec(&self, addr: Address) -> bool {
        self.valid_spec(addr)
    }

    open spec fn write_post(&self, addr: Address, value: Word, after: &Self) -> bool {
        after.memory@ == if self.valid_spec(addr) {
            self.memory@.update(addr as int, value)
        } else {
            self.memory@
        }
    }

    fn read(&self, addr: Address) -> (r: Option<Word>) {
        if self.is_valid(addr) {
            Some(self.memory[addr as usize])
        } else {
            None
        }
    }

    fn write(&mut self, addr: Address, value: Word) -> (ok: bool) {
        if self.is_valid(addr) {
            self.memory.set(addr as usize, value);
            true
        } else {
            false
        }
    }

    fn is_valid(&self, addr: Address) -> (r: bool) {
        (addr as usize) < self.memory.len()
    }
}


/// A memory accessed in a processor mode, which decides what an access does.
pub trait Protected {
    /// The mode in which the memory is accessed now.
    spec fn mode_spec(&self) -> Mode;

    /// Runs `kernel_action` in kernel mode and `user_action` in user mode,
    /// on the protected memory, and returns what it returns.
    fn handle_mode<T, F: FnOnce(&mut ProtectedMemory) -> T, G: FnOnce(&mut ProtectedMemory) -> T>(
        &mut self,
        kernel_action: F,
        user_action: G,
    ) -> (r: T)
        requires
            forall|m: &mut ProtectedMemory| kernel_action.requires((m,)),
            forall|m: &mut ProtectedMemory| user_action.requires((m,)),
        ensures
            old(self).mode_spec() == Mode::Kernel ==> exists|m: &mut ProtectedMemory|
                kernel_action.ensures((m,), r),
            old(self).mode_spec() == Mode::User ==> exists|m: &mut ProtectedMemory|
                user_action.ensures((m,), r),
    ;
}

/// Access rights per address.
pub trait PermissionMemory: Memory + Protected {
    spec fn can_read_spec(&self, addr: Address) -> bool;

    spec fn can_write_spec(&self, addr: Address) -> bool;

    spec fn can_execute_spec(&self, addr: Address) -> bool;

    fn can_read(&self, addr: Address) -> (r: bool)
        ensures
            r == self.can_read_spec(addr),
    ;

    fn can_write(&self, addr: Address) -> (r: bool)
        ensures
            r == self.can_write_spec(addr),
    ;

    fn can_execute(&self, addr: Address) -> (r: bool)
        ensures
            r == self.can_execute_spec(addr),
    ;
}

/// Maps virtual addresses to physical ones.
pub trait Translated: Memory + Protected {
    spec fn translate_spec(&self, virtual_address: Address) -> Option<Address>;

    fn translate(&self, virtual_address: Address) -> (r: Option<Address>)
        ensures
            r == self.translate_spec(virtual_address),
    ;
}

/// A flat memory behind a processor mode. Every access is permitted and
/// addresses map to themselves.
pub struct ProtectedMemory {
    pub flat_memory: FlatMemory,
    pub current_mode: Mode,
}

impl PermissionMemory for ProtectedMemory {
    open spec fn can_read_spec(&self, addr: Address) -> bool {
        true
    }

    open spec fn can_write_spec(&self, addr: Address) -> bool {
        true
    }

    open spec fn can_execute_spec(&self, addr: Address) -> bool {
        true
    }

    fn can_read(&self, _addr: Address) -> (r: bool) {
        true
    }

    fn can_write(&self, _addr: Address) -> (r: bool) {
        true
    }

    fn can_execute(&self, _addr: Address) -> (r: bool) {
        true
    }
}

impl Memory for ProtectedMemory {
    open spec fn valid_spec(&self, addr: Address) -> bool {
        self.flat_memory.valid_spec(addr)
    }

    open spec fn read_spec(&self, addr: Address) -> Option<Word> {
        self.flat_memory.read_spec(addr)
    }

    open spec fn write_ok_spec(&self, addr: Address) -> bool {
        self.flat_memory.write_ok_spec(addr)
    }

    open spec fn write_post(&self, addr: Address, value: Word, after: &Self) -> bool {
        &&& after.current_mode == self.current_mode
        &&& self.flat_memory.write_post(addr, value, &after.flat_memory)
    }

    fn read(&self, addr: Address) -> (r: Option<Word>) {
        if self.can_read(addr) {
            match self.translate(addr) {
                Some(physical_address) => self.flat_memory.read(physical_address),
                None => None,
            }
        } else {
            None
        }
    }

    fn write(&mut self, addr: Address, value: Word) -> (ok: bool) {
        if !self.can_write(addr) {
            return false;
        }
        match self.translate(addr) {
            Some(physical_address) => self.flat_memory.write(physical_address, value),
            None => false,
        }
    }

    fn is_valid(&self, addr: Address) -> (r: bool) {
        self.flat_memory.is_valid(addr)
    }
}

impl Translated for ProtectedMemory {
    open spec fn translate_spec(&self, virtual_address: Address) -> Option<Address> {
        Some(virtual_address)
    }

    fn translate(&self, virtual_address: Address) -> (r: Option<Address>) {
        Some(virtual_address)
    }
}

impl Protected for ProtectedMemory {
    open spec fn mode_spec(&self) -> Mode {
        self.current_mode
    }

    fn handle_mode<T, F: FnOnce(&mut ProtectedMemory) -> T, G: FnOnce(&mut ProtectedMemory) -> T>(
        &mut self,
        kernel_action: F,
        user_action: G,
    ) -> (r: T)
        ensures
            old(self).current_mode == Mode::Kernel ==> exists|m: &mut ProtectedMemory|
                *m == *old(self) && *final(m) == *final(self) && kernel_action.ensures((m,), r),
            old(self).current_mode == Mode::User ==> exists|m: &mut ProtectedMemory|
                *m == *old(self) && *final(m) == *final(self) && user_action.ensures((m,), r),
    {
        match self.current_mode {
            Mode::Kernel => kernel_action(self),
            Mode::User => user_action(self),
        }
    }
}

impl ProtectedMemory {
    /// Switches the processor mode; the memory is left as it is.
    pub fn set_mode(&mut self, mode: Mode)
        ensures
            final(self).current_mode == mode,
            final(self).flat_memory == old(self).flat_memory,
    {
        self.current_mode = mode;
    }
}


/// A protected memory seen through a window of `2^page_bits` pages: a virtual
/// address is taken as an offset from the start of the current page, which
/// lies `current_page * 2^page_bits` words into the memory. Kernel-mode writes
/// use physical addresses; everything else is translated.
pub struct FixedSizePagedMemory {
    protected_memory: ProtectedMemory,
    current_page: u32,
    page_bits: u32,
    n_pages: u32,
}

impl FixedSizePagedMemory {
    /// The words of the underlying memory.
    pub closed spec fn cells(&self) -> Seq<Word> {
        self.protected_memory.flat_memory.memory@
    }

    pub closed spec fn mode(&self) -> Mode {
        self.protected_memory.current_mode
    }

    pub closed spec fn page(&self) -> u32 {
        self.current_page
    }

    pub closed spec fn page_bits(&self) -> u32 {
        self.page_bits
    }

    pub closed spec fn page_count(&self) -> u32 {
        self.n_pages
    }

    /// Where a write at `addr` lands: the address itself in kernel mode, its
    /// physical address otherwise.
    pub open spec fn write_target(&self, addr: Address) -> Option<Address> {
        if self.mode() == Mode::Kernel {
            Some(addr)
        } else {
            self.translate_spec(addr)
        }
    }

    /// Physical address of `virtual_address` on the current page; `None` when
    /// it lies beyond the address space.
    pub open spec fn translate_spec(&self, virtual_address: Address) -> Option<Address> {
        let pa = self.page() as int * self.page_count() as int + virtual_address as int;
        if pa <= u32::MAX {
            Some(pa as u32)
        } else {
            None
        }
    }

    /// A memory of `mem_size` zero words, in kernel mode, on page 0, with
    /// `2^page_bits` pages.
    pub fn new(mem_size: usize, page_bits: u32) -> (r: Self)
        requires
            page_bits < 32,
        ensures
            r.cells() == Seq::new(mem_size as nat, |i: int| 0u8),
            r.mode() == Mode::Kernel,
            r.page() == 0,
            r.page_bits() == page_bits,
            r.page_count() == pow2(page_bits as nat),
    {
        proof {
            lemma_pow2_strictly_increases(page_bits as nat, 32);
            lemma2_to64();
            lemma_u32_shl_is_mul(1, page_bits);
        }
        let n_pages: u32 = 1u32 << page_bits;
        let memory = vec![0u8; mem_size];
        let r = Self {
            protected_memory: ProtectedMemory {
                flat_memory: FlatMemory { memory },
                current_mode: Mode::Kernel,
            },
            current_page: 0,
            page_bits,
            n_pages,
        };
        assert(r.cells() =~= Seq::new(mem_size as nat, |i: int| 0u8));
        r
    }

    /// Selects physical page `physical_page`, if there is such a page.
    pub fn set_page(&mut self, physical_page: u32) -> (ok: bool)
        ensures
            ok == (physical_page < old(self).page_count()),
            final(self).page() == if ok {
                physical_page
            } else {
                old(self).page()
            },
            final(self).cells() == old(self).cells(),
            final(self).mode() == old(self).mode(),
            final(self).page_bits() == old(self).page_bits(),
            final(self).page_count() == old(self).page_count(),
    {
        if physical_page < self.n_pages {
            self.current_page = physical_page;
            true
        } else {
            false
        }
    }

    /// Physical address of `virtual_address` on the current page.
    pub fn translate(&self, virtual_address: Address) -> (r: Option<Address>)
        ensures
            r == self.translate_spec(virtual_address),
    {
        let page = self.current_page as u64;
        let n = self.n_pages as u64;
        assert(page * n <= 0xffff_fffe_0000_0001u64) by (nonlinear_arith)
            requires
                page <= 0xffff_ffffu64,
                n <= 0xffff_ffffu64,
        ;
        let physical_address = page * n + virtual_address as u64;
        if physical_address <= u32::MAX as u64 {
            Some(physical_address as u32)
        } else {
            None
        }
    }
}

impl Memory for FixedSizePagedMemory {
    open spec fn valid_spec(&self, addr: Address) -> bool {
        addr < self.cells().len()
    }

    open spec fn read_spec(&self, addr: Address) -> Option<Word> {
        match self.translate_spec(addr) {
            Some(pa) => if self.valid_spec(pa) {
                Some(self.cells()[pa as int])
            } else {
                None
            },
            None => None,
        }
    }

    open spec fn write_ok_spec(&self, addr: Address) -> bool {
        match self.write_target(addr) {
            Some(a) => self.valid_spec(a),
            None => false,
        }
    }

    open spec fn write_post(&self, addr: Address, value: Word, after: &Self) -> bool {
        &&& after.mode() == self.mode()
        &&& after.page() == self.page()
        &&& after.page_bits() == self.page_bits()
        &&& after.page_count() == self.page_count()
        &&& after.cells() == if self.write_ok_spec(addr) {
            self.cells().update(self.write_target(addr).unwrap() as int, value)
        } else {
            self.cells()
        }
    }

    fn read(&self, addr: Address) -> (r: Option<Word>) {
        let physical_addr = match self.translate(addr) {
            Some(pa) => pa,
            None => return None,
        };
        if self.is_valid(physical_addr) {
            self.protected_memory.flat_memory.read(physical_addr)
        } else {
            None
        }
    }

    fn write(&mut self, addr: Address, value: Word) -> (ok: bool) {
        let physical_address = self.translate(addr);
        let valid = match physical_address {
            Some(pa) => self.is_valid(pa),
            None => false,
        };
        let kernel_action = |mem: &mut ProtectedMemory| -> (ok: bool)
            ensures
                ok == old(mem).write_ok_spec(addr),
                old(mem).write_post(addr, value, &*final(mem)),
            { mem.write(addr, value) };
        let user_action = |mem: &mut ProtectedMemory| -> (ok: bool)
            ensures
                match physical_address {
                    Some(pa) => if valid {
                        ok == old(mem).write_ok_spec(pa) && old(mem).write_post(
                            pa,
                            value,
                            &*final(mem),
                        )
                    } else {
                        !ok && *final(mem) == *old(mem)
                    },
                    None => !ok && *final(mem) == *old(mem),
                },
            {
                match physical_address {
                    Some(pa) => valid && mem.write(pa, value),
                    None => false,
                }
            };
        let ok = self.protected_memory.handle_mode(kernel_action, user_action);
        assert(self.cells() =~= (if old(self).write_ok_spec(addr) {
            old(self).cells().update(old(self).write_target(addr).unwrap() as int, value)
        } else {
            old(self).cells()
        }));
        ok
    }

    fn is_valid(&self, addr: Address) -> (r: bool) {
        self.protected_memory.is_valid(addr)
    }
}

} // verus!
