//! The processor: memory, program image and registers, with a typed stack
//! growing upward from the bottom of the memory and a typed code stream.

use vstd::prelude::*;

use crate::sasm::action::Action;
use crate::sasm::bytes::{le_value, to_signed};
use crate::sasm::memory::{Memory, MEMORY_DEFAULT_PAGE_SIZE};
use crate::sasm::program::Program;

verus! {

/// A VM processor that carries its memory, its program and its registers.
///
/// The stack lives in the first `stack_size` bytes of the memory and grows
/// upward from offset 0; `stack_pointer` is the index of the first free
/// stack byte.
pub struct Processor {
    pub memory: Memory,
    pub program: Program,
    pub program_counter: usize,
    pub stack_pointer: usize,
    pub stack_size: usize,
    pub overflow_flag: bool,
}

impl Processor {
    /// The structural invariant: both parts are well formed and the stack
    /// region lies inside the memory.
    pub open spec fn inv(&self) -> bool {
        &&& self.memory.inv()
        &&& self.program.inv()
        &&& self.stack_pointer <= self.stack_size
        &&& self.stack_size <= self.memory.spec_size()
    }

    /// How many pages of size `ps` cover `ss` bytes: `ss / ps`, rounded up.
    pub open spec fn spec_pages_for(ss: int, ps: int) -> int {
        if ss % ps == 0 {
            ss / ps
        } else {
            ss / ps + 1
        }
    }

    // CONSTRUCTORS -----------------------------------------------------------

    /// Builds a processor over an existing memory and program.
    pub fn new(memory: Memory, program: Program, stack_size: usize) -> (r: Processor)
        requires
            memory.inv(),
            program.inv(),
            stack_size <= memory.spec_size(),
        ensures
            r.inv(),
            r.memory == memory,
            r.program == program,
            r.program_counter == 0,
            r.stack_pointer == 0,
            r.stack_size == stack_size,
            r.overflow_flag == false,
    {
        Processor {
            memory,
            program,
            program_counter: 0,
            stack_pointer: 0,
            stack_size,
            overflow_flag: false,
        }
    }

    /// Builds a processor over a fresh memory with the default page size,
    /// grown with just enough zero-filled pages to cover `stack_size` bytes.
    pub fn new_empty(program: Program, stack_size: usize) -> (r: Processor)
        requires
            program.inv(),
            stack_size <= usize::MAX - (MEMORY_DEFAULT_PAGE_SIZE - 1),
        ensures
            r.inv(),
            r.program == program,
            r.program_counter == 0,
            r.stack_pointer == 0,
            r.stack_size == stack_size,
            r.overflow_flag == false,
            r.memory.spec_page_size() == MEMORY_DEFAULT_PAGE_SIZE,
            r.memory.spec_max_pages() == usize::MAX,
            r.memory.pages@.len() == Self::spec_pages_for(
                stack_size as int,
                MEMORY_DEFAULT_PAGE_SIZE as int,
            ),
    {
        let mut memory = Memory::new_empty(MEMORY_DEFAULT_PAGE_SIZE, usize::MAX);
        let mut pages = stack_size / MEMORY_DEFAULT_PAGE_SIZE;
        if stack_size % MEMORY_DEFAULT_PAGE_SIZE != 0 {
            pages = pages + 1;
        }
        proof {
            lemma_stack_pages(stack_size as int, MEMORY_DEFAULT_PAGE_SIZE as int);
        }
        let added = memory.add_empty_pages(pages);
        proof {
            assert(added is Ok);
        }
        Processor {
            memory,
            program,
            program_counter: 0,
            stack_pointer: 0,
            stack_size,
            overflow_flag: false,
        }
    }

    // GETTERS ----------------------------------------------------------------

    pub fn memory(&self) -> (r: &Memory)
        ensures
            r == self.memory,
    {
        &self.memory
    }

    pub fn memory_mut(&mut self) -> (r: &mut Memory)
        ensures
            *r == old(self).memory,
            *final(self) == (Processor { memory: *final(r), ..*old(self) }),
    {
        &mut self.memory
    }

    pub fn program(&self) -> (r: &Program)
        ensures
            r == self.program,
    {
        &self.program
    }

    pub fn program_counter(&self) -> (r: usize)
        ensures
            r == self.program_counter,
    {
        self.program_counter
    }

    pub fn stack_pointer(&self) -> (r: usize)
        ensures
            r == self.stack_pointer,
    {
        self.stack_pointer
    }

    pub fn stack_size(&self) -> (r: usize)
        ensures
            r == self.stack_size,
    {
        self.stack_size
    }

    pub fn is_stack_empty(&self) -> (r: bool)
        ensures
            r == (self.stack_pointer == 0),
    {
        self.stack_pointer == 0
    }

    pub fn is_stack_full(&self) -> (r: bool)
        ensures
            r == (self.stack_pointer >= self.stack_size),
    {
        self.stack_pointer >= self.stack_size
    }

    pub fn overflow_flag(&self) -> (r: bool)
        ensures
            r == self.overflow_flag,
    {
        self.overflow_flag
    }

    // SETTERS ----------------------------------------------------------------

    /// Sets the program counter. An out-of-range target is not rejected here:
    /// the next code fetch faults on it instead.
    pub fn set_program_counter(&mut self, program_counter: usize) -> (r: Result<(), Action>)
        ensures
            r is Ok,
            *final(self) == (Processor { program_counter, ..*old(self) }),
    {
        self.program_counter = program_counter;
        Ok(())
    }

    /// Sets the stack pointer. Fails with `Panic("Stack overflow")` when the
    /// new pointer would leave the stack region, leaving the processor
    /// unchanged. The region's one-past-the-top position is a legal pointer:
    /// a full stack points there.
    pub fn set_stack_pointer(&mut self, stack_pointer: usize) -> (r: Result<(), Action>)
        ensures
            r is Ok <==> stack_pointer <= old(self).stack_size,
            r is Ok ==> *final(self) == (Processor { stack_pointer, ..*old(self) }),
            r is Err ==> r == Result::<(), Action>::Err(Action::Panic("Stack overflow"))
                && *final(self) == *old(self),
    {
        if stack_pointer > self.stack_size {
            return Err(Action::Panic("Stack overflow"));
        }
        self.stack_pointer = stack_pointer;
        Ok(())
    }

    pub fn set_overflow_flag(&mut self, overflow_flag: bool)
        ensures
            *final(self) == (Processor { overflow_flag, ..*old(self) }),
    {
        self.overflow_flag = overflow_flag;
    }

    // METHODS ----------------------------------------------------------------

    /// Reads the top u8 of the stack without removing it.
    pub fn peek_u8(&self) -> (r: Result<u8, Action>)
        requires
            self.inv(),
        ensures
            r is Ok <==> self.stack_pointer >= 1,
            r is Ok ==> r->Ok_0 == le_value(
                self.memory.spec_bytes(self.stack_pointer - 1, 1),
            ),
            r is Err ==> r == Result::<u8, Action>::Err(Action::Panic("Stack underflow")),
    {
        if 1 > self.stack_pointer {
            return Err(Action::Panic("Stack underflow"));
        }
        let start_index = self.stack_pointer - 1;
        self.memory.read_u8_at(start_index)
    }

    /// Reads the top u16 of the stack without removing it.
    pub fn peek_u16(&self) -> (r: Result<u16, Action>)
        requires
            self.inv(),
        ensures
            r is Ok <==> self.stack_pointer >= 2,
            r is Ok ==> r->Ok_0 == le_value(
                self.memory.spec_bytes(self.stack_pointer - 2, 2),
            ),
            r is Err ==> r == Result::<u16, Action>::Err(Action::Panic("Stack underflow")),
    {
        if 2 > self.stack_pointer {
            return Err(Action::Panic("Stack underflow"));
        }
        let start_index = self.stack_pointer - 2;
        self.memory.read_u16_at(start_index)
    }

    /// Reads the top u32 of the stack without removing it.
    pub fn peek_u32(&self) -> (r: Result<u32, Action>)
        requires
            self.inv(),
        ensures
            r is Ok <==> self.stack_pointer >= 4,
            r is Ok ==> r->Ok_0 == le_value(
                self.memory.spec_bytes(self.stack_pointer - 4, 4),
            ),
            r is Err ==> r == Result::<u32, Action>::Err(Action::Panic("Stack underflow")),
    {
        if 4 > self.stack_pointer {
            return Err(Action::Panic("Stack underflow"));
        }
        let start_index = self.stack_pointer - 4;
        self.memory.read_u32_at(start_index)
    }

    /// Reads the top u64 of the stack without removing it.
    pub fn peek_u64(&self) -> (r: Result<u64, Action>)
        requires
            self.inv(),
        ensures
            r is Ok <==> self.stack_pointer >= 8,
            r is Ok ==> r->Ok_0 == le_value(
                self.memory.spec_bytes(self.stack_pointer - 8, 8),
            ),
            r is Err ==> r == Result::<u64, Action>::Err(Action::Panic("Stack underflow")),
    {
        if 8 > self.stack_pointer {
            return Err(Action::Panic("Stack underflow"));
        }
        let start_index = self.stack_pointer - 8;
        self.memory.read_u64_at(start_index)
    }

    /// Reads the top i8 of the stack without removing it.
    pub fn peek_i8(&self) -> (r: Result<i8, Action>)
        requires
            self.inv(),
        ensures
            r is Ok <==> self.stack_pointer >= 1,
            r is Ok ==> r->Ok_0 as int == to_signed(
                le_value(self.memory.spec_bytes(self.stack_pointer - 1, 1)),
                1,
            ),
            r is Err ==> r == Result::<i8, Action>::Err(Action::Panic("Stack underflow")),
    {
        if 1 > self.stack_pointer {
            return Err(Action::Panic("Stack underflow"));
        }
        let start_index = self.stack_pointer - 1;
        self.memory.read_i8_at(start_index)
    }

    /// Reads the top i16 of the stack without removing it.
    pub fn peek_i16(&self) -> (r: Result<i16, Action>)
        requires
            self.inv(),
        ensures
            r is Ok <==> self.stack_pointer >= 2,
            r is Ok ==> r->Ok_0 as int == to_signed(
                le_value(self.memory.spec_bytes(self.stack_pointer - 2, 2)),
                2,
            ),
            r is Err ==> r == Result::<i16, Action>::Err(Action::Panic("Stack underflow")),
    {
        if 2 > self.stack_pointer {
            return Err(Action::Panic("Stack underflow"));
        }
        let start_index = self.stack_pointer - 2;
        self.memory.read_i16_at(start_index)
    }

    /// Reads the top i32 of the stack without removing it.
    pub fn peek_i32(&self) -> (r: Result<i32, Action>)
        requires
            self.inv(),
        ensures
            r is Ok <==> self.stack_pointer >= 4,
            r is Ok ==> r->Ok_0 as int == to_signed(
                le_value(self.memory.spec_bytes(self.stack_pointer - 4, 4)),
                4,
            ),
            r is Err ==> r == Result::<i32, Action>::Err(Action::Panic("Stack underflow")),
    {
        if 4 > self.stack_pointer {
            return Err(Action::Panic("Stack underflow"));
        }
        let start_index = self.stack_pointer - 4;
        self.memory.read_i32_at(start_index)
    }

    /// Reads the top i64 of the stack without removing it.
    pub fn peek_i64(&self) -> (r: Result<i64, Action>)
        requires
            self.inv(),
        ensures
            r is Ok <==> self.stack_pointer >= 8,
            r is Ok ==> r->Ok_0 as int == to_signed(
                le_value(self.memory.spec_bytes(self.stack_pointer - 8, 8)),
                8,
            ),
            r is Err ==> r == Result::<i64, Action>::Err(Action::Panic("Stack underflow")),
    {
        if 8 > self.stack_pointer {
            return Err(Action::Panic("Stack underflow"));
        }
        let start_index = self.stack_pointer - 8;
        self.memory.read_i64_at(start_index)
    }

    /// Removes and returns the top u8 of the stack.
    pub fn pop_u8(&mut self) -> (r: Result<u8, Action>)
        requires
            old(self).inv(),
        ensures
            final(self).inv(),
            r is Ok <==> old(self).stack_pointer >= 1,
            r is Ok ==> r->Ok_0 == le_value(
                old(self).memory.spec_bytes(old(self).stack_pointer - 1, 1),
            ),
            r is Ok ==> *final(self) == (Processor {
                stack_pointer: (old(self).stack_pointer - 1) as usize,
                ..*old(self)
            }),
            r is Err ==> r == Result::<u8, Action>::Err(Action::Panic("Stack underflow"))
                && *final(self) == *old(self),
    {
        let value = self.peek_u8()?;
        self.stack_pointer = self.stack_pointer - 1;
        Ok(value)
    }

    /// Removes and returns the top u16 of the stack.
    pub fn pop_u16(&mut self) -> (r: Result<u16, Action>)
        requires
            old(self).inv(),
        ensures
            final(self).inv(),
            r is Ok <==> old(self).stack_pointer >= 2,
            r is Ok ==> r->Ok_0 == le_value(
                old(self).memory.spec_bytes(old(self).stack_pointer - 2, 2),
            ),
            r is Ok ==> *final(self) == (Processor {
                stack_pointer: (old(self).stack_pointer - 2) as usize,
                ..*old(self)
            }),
            r is Err ==> r == Result::<u16, Action>::Err(Action::Panic("Stack underflow"))
                && *final(self) == *old(self),
    {
        let value = self.peek_u16()?;
        self.stack_pointer = self.stack_pointer - 2;
        Ok(value)
    }

    /// Removes and returns the top u32 of the stack.
    pub fn pop_u32(&mut self) -> (r: Result<u32, Action>)
        requires
            old(self).inv(),
        ensures
            final(self).inv(),
            r is Ok <==> old(self).stack_pointer >= 4,
            r is Ok ==> r->Ok_0 == le_value(
                old(self).memory.spec_bytes(old(self).stack_pointer - 4, 4),
            ),
            r is Ok ==> *final(self) == (Processor {
                stack_pointer: (old(self).stack_pointer - 4) as usize,
                ..*old(self)
            }),
            r is Err ==> r == Result::<u32, Action>::Err(Action::Panic("Stack underflow"))
                && *final(self) == *old(self),
    {
        let value = self.peek_u32()?;
        self.stack_pointer = self.stack_pointer - 4;
        Ok(value)
    }

    /// Removes and returns the top u64 of the stack.
    pub fn pop_u64(&mut self) -> (r: Result<u64, Action>)
        requires
            old(self).inv(),
        ensures
            final(self).inv(),
            r is Ok <==> old(self).stack_pointer >= 8,
            r is Ok ==> r->Ok_0 == le_value(
                old(self).memory.spec_bytes(old(self).stack_pointer - 8, 8),
            ),
            r is Ok ==> *final(self) == (Processor {
                stack_pointer: (old(self).stack_pointer - 8) as usize,
                ..*old(self)
            }),
            r is Err ==> r == Result::<u64, Action>::Err(Action::Panic("Stack underflow"))
                && *final(self) == *old(self),
    {
        let value = self.peek_u64()?;
        self.stack_pointer = self.stack_pointer - 8;
        Ok(value)
    }

    /// Removes and returns the top i8 of the stack.
    pub fn pop_i8(&mut self) -> (r: Result<i8, Action>)
        requires
            old(self).inv(),
        ensures
            final(self).inv(),
            r is Ok <==> old(self).stack_pointer >= 1,
            r is Ok ==> r->Ok_0 as int == to_signed(
                le_value(old(self).memory.spec_bytes(old(self).stack_pointer - 1, 1)),
                1,
            ),
            r is Ok ==> *final(self) == (Processor {
                stack_pointer: (old(self).stack_pointer - 1) as usize,
                ..*old(self)
            }),
            r is Err ==> r == Result::<i8, Action>::Err(Action::Panic("Stack underflow"))
                && *final(self) == *old(self),
    {
        let value = self.peek_i8()?;
        self.stack_pointer = self.stack_pointer - 1;
        Ok(value)
    }

    /// Removes and returns the top i16 of the stack.
    pub fn pop_i16(&mut self) -> (r: Result<i16, Action>)
        requires
            old(self).inv(),
        ensures
            final(self).inv(),
            r is Ok <==> old(self).stack_pointer >= 2,
            r is Ok ==> r->Ok_0 as int == to_signed(
                le_value(old(self).memory.spec_bytes(old(self).stack_pointer - 2, 2)),
                2,
            ),
            r is Ok ==> *final(self) == (Processor {
                stack_pointer: (old(self).stack_pointer - 2) as usize,
                ..*old(self)
            }),
            r is Err ==> r == Result::<i16, Action>::Err(Action::Panic("Stack underflow"))
                && *final(self) == *old(self),
    {
        let value = self.peek_i16()?;
        self.stack_pointer = self.stack_pointer - 2;
        Ok(value)
    }

    /// Removes and returns the top i32 of the stack.
    pub fn pop_i32(&mut self) -> (r: Result<i32, Action>)
        requires
            old(self).inv(),
        ensures
            final(self).inv(),
            r is Ok <==> old(self).stack_pointer >= 4,
            r is Ok ==> r->Ok_0 as int == to_signed(
                le_value(old(self).memory.spec_bytes(old(self).stack_pointer - 4, 4)),
                4,
            ),
            r is Ok ==> *final(self) == (Processor {
                stack_pointer: (old(self).stack_pointer - 4) as usize,
                ..*old(self)
            }),
            r is Err ==> r == Result::<i32, Action>::Err(Action::Panic("Stack underflow"))
                && *final(self) == *old(self),
    {
        let value = self.peek_i32()?;
        self.stack_pointer = self.stack_pointer - 4;
        Ok(value)
    }

    /// Removes and returns the top i64 of the stack.
    pub fn pop_i64(&mut self) -> (r: Result<i64, Action>)
        requires
            old(self).inv(),
        ensures
            final(self).inv(),
            r is Ok <==> old(self).stack_pointer >= 8,
            r is Ok ==> r->Ok_0 as int == to_signed(
                le_value(old(self).memory.spec_bytes(old(self).stack_pointer - 8, 8)),
                8,
            ),
            r is Ok ==> *final(self) == (Processor {
                stack_pointer: (old(self).stack_pointer - 8) as usize,
                ..*old(self)
            }),
            r is Err ==> r == Result::<i64, Action>::Err(Action::Panic("Stack underflow"))
                && *final(self) == *old(self),
    {
        let value = self.peek_i64()?;
        self.stack_pointer = self.stack_pointer - 8;
        Ok(value)
    }

    /// Pushes a u8 on top of the stack. Fails with `Panic("Stack overflow")`
    /// when the value would not fit below `stack_size`, leaving the processor
    /// unchanged.
    pub fn push_u8(&mut self, value: u8) -> (r: Result<(), Action>)
        requires
            old(self).inv(),
        ensures
            final(self).inv(),
            r is Ok <==> old(self).stack_pointer + 1 <= old(self).stack_size,
            r is Ok ==> le_value(
                final(self).memory.spec_bytes(old(self).stack_pointer as int, 1),
            ) == value,
            r is Ok ==> final(self).stack_pointer == old(self).stack_pointer + 1,
            r is Ok ==> final(self).memory.same_shape(&old(self).memory),
            r is Ok ==> forall|j: int|
                0 <= j < final(self).memory.spec_size() && !(old(self).stack_pointer <= j < old(
                    self,
                ).stack_pointer + 1) ==> final(self).memory.spec_byte(j) == old(
                    self,
                ).memory.spec_byte(j),
            final(self).program == old(self).program,
            final(self).program_counter == old(self).program_counter,
            final(self).stack_size == old(self).stack_size,
            final(self).overflow_flag == old(self).overflow_flag,
            r is Err ==> r == Result::<(), Action>::Err(Action::Panic("Stack overflow"))
                && *final(self) == *old(self),
    {
        if self.stack_size < 1 || self.stack_pointer > self.stack_size - 1 {
            return Err(Action::Panic("Stack overflow"));
        }
        let sp = self.stack_pointer;
        match self.memory.write_u8_at(sp, value) {
            Ok(_) => {
                self.stack_pointer = sp + 1;
                Ok(())
            },
            Err(e) => Err(e),
        }
    }

    /// Pushes a u16 on top of the stack. Fails with `Panic("Stack overflow")`
    /// when the value would not fit below `stack_size`, leaving the processor
    /// unchanged.
    pub fn push_u16(&mut self, value: u16) -> (r: Result<(), Action>)
        requires
            old(self).inv(),
        ensures
            final(self).inv(),
            r is Ok <==> old(self).stack_pointer + 2 <= old(self).stack_size,
            r is Ok ==> le_value(
                final(self).memory.spec_bytes(old(self).stack_pointer as int, 2),
            ) == value,
            r is Ok ==> final(self).stack_pointer == old(self).stack_pointer + 2,
            r is Ok ==> final(self).memory.same_shape(&old(self).memory),
            r is Ok ==> forall|j: int|
                0 <= j < final(self).memory.spec_size() && !(old(self).stack_pointer <= j < old(
                    self,
                ).stack_pointer + 2) ==> final(self).memory.spec_byte(j) == old(
                    self,
                ).memory.spec_byte(j),
            final(self).program == old(self).program,
            final(self).program_counter == old(self).program_counter,
            final(self).stack_size == old(self).stack_size,
            final(self).overflow_flag == old(self).overflow_flag,
            r is Err ==> r == Result::<(), Action>::Err(Action::Panic("Stack overflow"))
                && *final(self) == *old(self),
    {
        if self.stack_size < 2 || self.stack_pointer > self.stack_size - 2 {
            return Err(Action::Panic("Stack overflow"));
        }
        let sp = self.stack_pointer;
        match self.memory.write_u16_at(sp, value) {
            Ok(_) => {
                self.stack_pointer = sp + 2;
                Ok(())
            },
            Err(e) => Err(e),
        }
    }

    /// Pushes a u32 on top of the stack. Fails with `Panic("Stack overflow")`
    /// when the value would not fit below `stack_size`, leaving the processor
    /// unchanged.
    pub fn push_u32(&mut self, value: u32) -> (r: Result<(), Action>)
        requires
            old(self).inv(),
        ensures
            final(self).inv(),
            r is Ok <==> old(self).stack_pointer + 4 <= old(self).stack_size,
            r is Ok ==> le_value(
                final(self).memory.spec_bytes(old(self).stack_pointer as int, 4),
            ) == value,
            r is Ok ==> final(self).stack_pointer == old(self).stack_pointer + 4,
            r is Ok ==> final(self).memory.same_shape(&old(self).memory),
            r is Ok ==> forall|j: int|
                0 <= j < final(self).memory.spec_size() && !(old(self).stack_pointer <= j < old(
                    self,
                ).stack_pointer + 4) ==> final(self).memory.spec_byte(j) == old(
                    self,
                ).memory.spec_byte(j),
            final(self).program == old(self).program,
            final(self).program_counter == old(self).program_counter,
            final(self).stack_size == old(self).stack_size,
            final(self).overflow_flag == old(self).overflow_flag,
            r is Err ==> r == Result::<(), Action>::Err(Action::Panic("Stack overflow"))
                && *final(self) == *old(self),
    {
        if self.stack_size < 4 || self.stack_pointer > self.stack_size - 4 {
            return Err(Action::Panic("Stack overflow"));
        }
        let sp = self.stack_pointer;
        match self.memory.write_u32_at(sp, value) {
            Ok(_) => {
                self.stack_pointer = sp + 4;
                Ok(())
            },
            Err(e) => Err(e),
        }
    }

    /// Pushes a u64 on top of the stack. Fails with `Panic("Stack overflow")`
    /// when the value would not fit below `stack_size`, leaving the processor
    /// unchanged.
    pub fn push_u64(&mut self, value: u64) -> (r: Result<(), Action>)
        requires
            old(self).inv(),
        ensures
            final(self).inv(),
            r is Ok <==> old(self).stack_pointer + 8 <= old(self).stack_size,
            r is Ok ==> le_value(
                final(self).memory.spec_bytes(old(self).stack_pointer as int, 8),
            ) == value,
            r is Ok ==> final(self).stack_pointer == old(self).stack_pointer + 8,
            r is Ok ==> final(self).memory.same_shape(&old(self).memory),
            r is Ok ==> forall|j: int|
                0 <= j < final(self).memory.spec_size() && !(old(self).stack_pointer <= j < old(
                    self,
                ).stack_pointer + 8) ==> final(self).memory.spec_byte(j) == old(
                    self,
                ).memory.spec_byte(j),
            final(self).program == old(self).program,
            final(self).program_counter == old(self).program_counter,
            final(self).stack_size == old(self).stack_size,
            final(self).overflow_flag == old(self).overflow_flag,
            r is Err ==> r == Result::<(), Action>::Err(Action::Panic("Stack overflow"))
                && *final(self) == *old(self),
    {
        if self.stack_size < 8 || self.stack_pointer > self.stack_size - 8 {
            return Err(Action::Panic("Stack overflow"));
        }
        let sp = self.stack_pointer;
        match self.memory.write_u64_at(sp, value) {
            Ok(_) => {
                self.stack_pointer = sp + 8;
                Ok(())
            },
            Err(e) => Err(e),
        }
    }

    /// Pushes a i8 on top of the stack. Fails with `Panic("Stack overflow")`
    /// when the value would not fit below `stack_size`, leaving the processor
    /// unchanged.
    pub fn push_i8(&mut self, value: i8) -> (r: Result<(), Action>)
        requires
            old(self).inv(),
        ensures
            final(self).inv(),
            r is Ok <==> old(self).stack_pointer + 1 <= old(self).stack_size,
            r is Ok ==> to_signed(
                le_value(final(self).memory.spec_bytes(old(self).stack_pointer as int, 1)),
                1,
            ) == value as int,
            r is Ok ==> final(self).stack_pointer == old(self).stack_pointer + 1,
            r is Ok ==> final(self).memory.same_shape(&old(self).memory),
            r is Ok ==> forall|j: int|
                0 <= j < final(self).memory.spec_size() && !(old(self).stack_pointer <= j < old(
                    self,
                ).stack_pointer + 1) ==> final(self).memory.spec_byte(j) == old(
                    self,
                ).memory.spec_byte(j),
            final(self).program == old(self).program,
            final(self).program_counter == old(self).program_counter,
            final(self).stack_size == old(self).stack_size,
            final(self).overflow_flag == old(self).overflow_flag,
            r is Err ==> r == Result::<(), Action>::Err(Action::Panic("Stack overflow"))
                && *final(self) == *old(self),
    {
        if self.stack_size < 1 || self.stack_pointer > self.stack_size - 1 {
            return Err(Action::Panic("Stack overflow"));
        }
        let sp = self.stack_pointer;
        match self.memory.write_i8_at(sp, value) {
            Ok(_) => {
                self.stack_pointer = sp + 1;
                Ok(())
            },
            Err(e) => Err(e),
        }
    }

    /// Pushes a i16 on top of the stack. Fails with `Panic("Stack overflow")`
    /// when the value would not fit below `stack_size`, leaving the processor
    /// unchanged.
    pub fn push_i16(&mut self, value: i16) -> (r: Result<(), Action>)
        requires
            old(self).inv(),
        ensures
            final(self).inv(),
            r is Ok <==> old(self).stack_pointer + 2 <= old(self).stack_size,
            r is Ok ==> to_signed(
                le_value(final(self).memory.spec_bytes(old(self).stack_pointer as int, 2)),
                2,
            ) == value as int,
            r is Ok ==> final(self).stack_pointer == old(self).stack_pointer + 2,
            r is Ok ==> final(self).memory.same_shape(&old(self).memory),
            r is Ok ==> forall|j: int|
                0 <= j < final(self).memory.spec_size() && !(old(self).stack_pointer <= j < old(
                    self,
                ).stack_pointer + 2) ==> final(self).memory.spec_byte(j) == old(
                    self,
                ).memory.spec_byte(j),
            final(self).program == old(self).program,
            final(self).program_counter == old(self).program_counter,
            final(self).stack_size == old(self).stack_size,
            final(self).overflow_flag == old(self).overflow_flag,
            r is Err ==> r == Result::<(), Action>::Err(Action::Panic("Stack overflow"))
                && *final(self) == *old(self),
    {
        if self.stack_size < 2 || self.stack_pointer > self.stack_size - 2 {
            return Err(Action::Panic("Stack overflow"));
        }
        let sp = self.stack_pointer;
        match self.memory.write_i16_at(sp, value) {
            Ok(_) => {
                self.stack_pointer = sp + 2;
                Ok(())
            },
            Err(e) => Err(e),
        }
    }

    /// Pushes a i32 on top of the stack. Fails with `Panic("Stack overflow")`
    /// when the value would not fit below `stack_size`, leaving the processor
    /// unchanged.
    pub fn push_i32(&mut self, value: i32) -> (r: Result<(), Action>)
        requires
            old(self).inv(),
        ensures
            final(self).inv(),
            r is Ok <==> old(self).stack_pointer + 4 <= old(self).stack_size,
            r is Ok ==> to_signed(
                le_value(final(self).memory.spec_bytes(old(self).stack_pointer as int, 4)),
                4,
            ) == value as int,
            r is Ok ==> final(self).stack_pointer == old(self).stack_pointer + 4,
            r is Ok ==> final(self).memory.same_shape(&old(self).memory),
            r is Ok ==> forall|j: int|
                0 <= j < final(self).memory.spec_size() && !(old(self).stack_pointer <= j < old(
                    self,
                ).stack_pointer + 4) ==> final(self).memory.spec_byte(j) == old(
                    self,
                ).memory.spec_byte(j),
            final(self).program == old(self).program,
            final(self).program_counter == old(self).program_counter,
            final(self).stack_size == old(self).stack_size,
            final(self).overflow_flag == old(self).overflow_flag,
            r is Err ==> r == Result::<(), Action>::Err(Action::Panic("Stack overflow"))
                && *final(self) == *old(self),
    {
        if self.stack_size < 4 || self.stack_pointer > self.stack_size - 4 {
            return Err(Action::Panic("Stack overflow"));
        }
        let sp = self.stack_pointer;
        match self.memory.write_i32_at(sp, value) {
            Ok(_) => {
                self.stack_pointer = sp + 4;
                Ok(())
            },
            Err(e) => Err(e),
        }
    }

    /// Pushes a i64 on top of the stack. Fails with `Panic("Stack overflow")`
    /// when the value would not fit below `stack_size`, leaving the processor
    /// unchanged.
    pub fn push_i64(&mut self, value: i64) -> (r: Result<(), Action>)
        requires
            old(self).inv(),
        ensures
            final(self).inv(),
            r is Ok <==> old(self).stack_pointer + 8 <= old(self).stack_size,
            r is Ok ==> to_signed(
                le_value(final(self).memory.spec_bytes(old(self).stack_pointer as int, 8)),
                8,
            ) == value as int,
            r is Ok ==> final(self).stack_pointer == old(self).stack_pointer + 8,
            r is Ok ==> final(self).memory.same_shape(&old(self).memory),
            r is Ok ==> forall|j: int|
                0 <= j < final(self).memory.spec_size() && !(old(self).stack_pointer <= j < old(
                    self,
                ).stack_pointer + 8) ==> final(self).memory.spec_byte(j) == old(
                    self,
                ).memory.spec_byte(j),
            final(self).program == old(self).program,
            final(self).program_counter == old(self).program_counter,
            final(self).stack_size == old(self).stack_size,
            final(self).overflow_flag == old(self).overflow_flag,
            r is Err ==> r == Result::<(), Action>::Err(Action::Panic("Stack overflow"))
                && *final(self) == *old(self),
    {
        if self.stack_size < 8 || self.stack_pointer > self.stack_size - 8 {
            return Err(Action::Panic("Stack overflow"));
        }
        let sp = self.stack_pointer;
        match self.memory.write_i64_at(sp, value) {
            Ok(_) => {
                self.stack_pointer = sp + 8;
                Ok(())
            },
            Err(e) => Err(e),
        }
    }

    /// Reads the next u8 of the code stream and advances the program counter
    /// past it.
    pub fn code_next_u8(&mut self) -> (r: Result<u8, Action>)
        requires
            old(self).inv(),
        ensures
            final(self).inv(),
            r is Ok <==> old(self).program_counter + 1 <= old(self).program.program@.len(),
            r is Ok ==> r->Ok_0 == le_value(
                old(self).program.spec_bytes(old(self).program_counter as int, 1),
            ),
            r is Ok ==> final(self).program_counter == old(self).program_counter + 1,
            r is Ok ==> *final(self) == (Processor {
                program_counter: (old(self).program_counter + 1) as usize,
                ..*old(self)
            }),
            r is Err ==> r == Result::<u8, Action>::Err(Action::Panic("Segmentation Fault"))
                && *final(self) == *old(self),
    {
        // The successful read keeps the advanced counter within the image,
        // whose size a `usize` counts.
        let result = self.program.read_u8_at(self.program_counter)?;
        let _image_size = self.program.size();
        self.program_counter = self.program_counter + 1;
        Ok(result)
    }

    /// Reads the next u16 of the code stream and advances the program counter
    /// past it.
    pub fn code_next_u16(&mut self) -> (r: Result<u16, Action>)
        requires
            old(self).inv(),
        ensures
            final(self).inv(),
            r is Ok <==> old(self).program_counter + 2 <= old(self).program.program@.len(),
            r is Ok ==> r->Ok_0 == le_value(
                old(self).program.spec_bytes(old(self).program_counter as int, 2),
            ),
            r is Ok ==> final(self).program_counter == old(self).program_counter + 2,
            r is Ok ==> *final(self) == (Processor {
                program_counter: (old(self).program_counter + 2) as usize,
                ..*old(self)
            }),
            r is Err ==> r == Result::<u16, Action>::Err(Action::Panic("Segmentation Fault"))
                && *final(self) == *old(self),
    {
        // The successful read keeps the advanced counter within the image,
        // whose size a `usize` counts.
        let result = self.program.read_u16_at(self.program_counter)?;
        let _image_size = self.program.size();
        self.program_counter = self.program_counter + 2;
        Ok(result)
    }

    /// Reads the next u32 of the code stream and advances the program counter
    /// past it.
    pub fn code_next_u32(&mut self) -> (r: Result<u32, Action>)
        requires
            old(self).inv(),
        ensures
            final(self).inv(),
            r is Ok <==> old(self).program_counter + 4 <= old(self).program.program@.len(),
            r is Ok ==> r->Ok_0 == le_value(
                old(self).program.spec_bytes(old(self).program_counter as int, 4),
            ),
            r is Ok ==> final(self).program_counter == old(self).program_counter + 4,
            r is Ok ==> *final(self) == (Processor {
                program_counter: (old(self).program_counter + 4) as usize,
                ..*old(self)
            }),
            r is Err ==> r == Result::<u32, Action>::Err(Action::Panic("Segmentation Fault"))
                && *final(self) == *old(self),
    {
        // The successful read keeps the advanced counter within the image,
        // whose size a `usize` counts.
        let result = self.program.read_u32_at(self.program_counter)?;
        let _image_size = self.program.size();
        self.program_counter = self.program_counter + 4;
        Ok(result)
    }

    /// Reads the next u64 of the code stream and advances the program counter
    /// past it.
    pub fn code_next_u64(&mut self) -> (r: Result<u64, Action>)
        requires
            old(self).inv(),
        ensures
            final(self).inv(),
            r is Ok <==> old(self).program_counter + 8 <= old(self).program.program@.len(),
            r is Ok ==> r->Ok_0 == le_value(
                old(self).program.spec_bytes(old(self).program_counter as int, 8),
            ),
            r is Ok ==> final(self).program_counter == old(self).program_counter + 8,
            r is Ok ==> *final(self) == (Processor {
                program_counter: (old(self).program_counter + 8) as usize,
                ..*old(self)
            }),
            r is Err ==> r == Result::<u64, Action>::Err(Action::Panic("Segmentation Fault"))
                && *final(self) == *old(self),
    {
        // The successful read keeps the advanced counter within the image,
        // whose size a `usize` counts.
        let result = self.program.read_u64_at(self.program_counter)?;
        let _image_size = self.program.size();
        self.program_counter = self.program_counter + 8;
        Ok(result)
    }

    /// Reads the next i8 of the code stream and advances the program counter
    /// past it.
    pub fn code_next_i8(&mut self) -> (r: Result<i8, Action>)
        requires
            old(self).inv(),
        ensures
            final(self).inv(),
            r is Ok <==> old(self).program_counter + 1 <= old(self).program.program@.len(),
            r is Ok ==> r->Ok_0 as int == to_signed(
                le_value(old(self).program.spec_bytes(old(self).program_counter as int, 1)),
                1,
            ),
            r is Ok ==> final(self).program_counter == old(self).program_counter + 1,
            r is Ok ==> *final(self) == (Processor {
                program_counter: (old(self).program_counter + 1) as usize,
                ..*old(self)
            }),
            r is Err ==> r == Result::<i8, Action>::Err(Action::Panic("Segmentation Fault"))
                && *final(self) == *old(self),
    {
        // The successful read keeps the advanced counter within the image,
        // whose size a `usize` counts.
        let result = self.program.read_i8_at(self.program_counter)?;
        let _image_size = self.program.size();
        self.program_counter = self.program_counter + 1;
        Ok(result)
    }

    /// Reads the next i16 of the code stream and advances the program counter
    /// past it.
    pub fn code_next_i16(&mut self) -> (r: Result<i16, Action>)
        requires
            old(self).inv(),
        ensures
            final(self).inv(),
            r is Ok <==> old(self).program_counter + 2 <= old(self).program.program@.len(),
            r is Ok ==> r->Ok_0 as int == to_signed(
                le_value(old(self).program.spec_bytes(old(self).program_counter as int, 2)),
                2,
            ),
            r is Ok ==> final(self).program_counter == old(self).program_counter + 2,
            r is Ok ==> *final(self) == (Processor {
                program_counter: (old(self).program_counter + 2) as usize,
                ..*old(self)
            }),
            r is Err ==> r == Result::<i16, Action>::Err(Action::Panic("Segmentation Fault"))
                && *final(self) == *old(self),
    {
        // The successful read keeps the advanced counter within the image,
        // whose size a `usize` counts.
        let result = self.program.read_i16_at(self.program_counter)?;
        let _image_size = self.program.size();
        self.program_counter = self.program_counter + 2;
        Ok(result)
    }

    /// Reads the next i32 of the code stream and advances the program counter
    /// past it.
    pub fn code_next_i32(&mut self) -> (r: Result<i32, Action>)
        requires
            old(self).inv(),
        ensures
            final(self).inv(),
            r is Ok <==> old(self).program_counter + 4 <= old(self).program.program@.len(),
            r is Ok ==> r->Ok_0 as int == to_signed(
                le_value(old(self).program.spec_bytes(old(self).program_counter as int, 4)),
                4,
            ),
            r is Ok ==> final(self).program_counter == old(self).program_counter + 4,
            r is Ok ==> *final(self) == (Processor {
                program_counter: (old(self).program_counter + 4) as usize,
                ..*old(self)
            }),
            r is Err ==> r == Result::<i32, Action>::Err(Action::Panic("Segmentation Fault"))
                && *final(self) == *old(self),
    {
        // The successful read keeps the advanced counter within the image,
        // whose size a `usize` counts.
        let result = self.program.read_i32_at(self.program_counter)?;
        let _image_size = self.program.size();
        self.program_counter = self.program_counter + 4;
        Ok(result)
    }

    /// Reads the next i64 of the code stream and advances the program counter
    /// past it.
    pub fn code_next_i64(&mut self) -> (r: Result<i64, Action>)
        requires
            old(self).inv(),
        ensures
            final(self).inv(),
            r is Ok <==> old(self).program_counter + 8 <= old(self).program.program@.len(),
            r is Ok ==> r->Ok_0 as int == to_signed(
                le_value(old(self).program.spec_bytes(old(self).program_counter as int, 8)),
                8,
            ),
            r is Ok ==> final(self).program_counter == old(self).program_counter + 8,
            r is Ok ==> *final(self) == (Processor {
                program_counter: (old(self).program_counter + 8) as usize,
                ..*old(self)
            }),
            r is Err ==> r == Result::<i64, Action>::Err(Action::Panic("Segmentation Fault"))
                && *final(self) == *old(self),
    {
        // The successful read keeps the advanced counter within the image,
        // whose size a `usize` counts.
        let result = self.program.read_i64_at(self.program_counter)?;
        let _image_size = self.program.size();
        self.program_counter = self.program_counter + 8;
        Ok(result)
    }
}

/// Rounding a byte count up to whole pages keeps the total page bytes within
/// one page of the count, and in particular covers it.
proof fn lemma_stack_pages(ss: int, ps: int)
    requires
        0 < ps,
        0 <= ss,
        ss <= usize::MAX - (ps - 1),
    ensures
        ss <= Processor::spec_pages_for(ss, ps) * ps <= usize::MAX,
        Processor::spec_pages_for(ss, ps) <= usize::MAX,
{
    vstd::arithmetic::div_mod::lemma_fundamental_div_mod(ss, ps);
    vstd::arithmetic::div_mod::lemma_mod_division_less_than_divisor(ss, ps);
    vstd::arithmetic::div_mod::lemma_div_pos_is_pos(ss, ps);
    let q = ss / ps;
    assert((q + 1) * ps == q * ps + ps) by (nonlinear_arith);
    assert(q * ps == ps * q) by (nonlinear_arith);
    if Processor::spec_pages_for(ss, ps) > usize::MAX {
        assert(Processor::spec_pages_for(ss, ps) * ps >= Processor::spec_pages_for(ss, ps))
            by (nonlinear_arith)
            requires
                ps >= 1,
                Processor::spec_pages_for(ss, ps) >= 0,
        ;
    }
}

} // verus!
