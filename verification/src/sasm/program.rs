//! The immutable program image: a flat byte vector split into a data section
//! and a code section.

use vstd::prelude::*;

use crate::sasm::action::Action;
use crate::sasm::bytes::{
    le_bytes_to_word, le_value, lemma_pow256_values, pow256, to_signed, u16_as_i16, u32_as_i32,
    u64_as_i64, u8_as_i8,
};

verus! {

/// An immutable program image.
///
/// The bytes in `[data_pointer, code_pointer)` form the data section and the
/// bytes in `[code_pointer, size)` form the code section.
pub struct Program {
    pub program: Vec<u8>,
    pub data_pointer: usize,
    pub code_pointer: usize,
}

impl Program {
    /// The structural invariant: the two section pointers are ordered and
    /// inside the image.
    pub open spec fn inv(&self) -> bool {
        self.data_pointer <= self.code_pointer <= self.program@.len()
    }

    /// The `n` bytes of the image starting at `i`.
    pub open spec fn spec_bytes(&self, i: int, n: int) -> Seq<u8> {
        self.program@.subrange(i, i + n)
    }

    // CONSTRUCTORS -----------------------------------------------------------

    /// Wraps a raw image; both sections still start at the beginning.
    pub fn new(program: Vec<u8>) -> (r: Program)
        ensures
            r.inv(),
            r.program == program,
            r.data_pointer == 0,
            r.code_pointer == 0,
    {
        Program { program, data_pointer: 0, code_pointer: 0 }
    }

    /// Wraps a raw image with explicit section pointers.
    pub fn new_for_tests(program: Vec<u8>, data_pointer: usize, code_pointer: usize) -> (r:
        Program)
        requires
            data_pointer <= code_pointer <= program@.len(),
        ensures
            r.inv(),
            r.program == program,
            r.data_pointer == data_pointer,
            r.code_pointer == code_pointer,
    {
        Program { program, data_pointer, code_pointer }
    }

    // GETTERS ----------------------------------------------------------------

    pub fn program(&self) -> (r: &Vec<u8>)
        ensures
            r == self.program,
    {
        &self.program
    }

    /// The number of bytes of the image.
    pub fn size(&self) -> (r: usize)
        ensures
            r == self.program@.len(),
    {
        self.program.len()
    }

    /// Where the data section starts.
    pub fn data_pointer(&self) -> (r: usize)
        ensures
            r == self.data_pointer,
    {
        self.data_pointer
    }

    /// Where the data section ends: the start of the code section.
    pub fn data_pointer_end(&self) -> (r: usize)
        ensures
            r == self.code_pointer,
    {
        self.code_pointer
    }

    /// Where the code section starts.
    pub fn code_pointer(&self) -> (r: usize)
        ensures
            r == self.code_pointer,
    {
        self.code_pointer
    }

    /// Where the code section ends: the end of the image.
    pub fn code_pointer_end(&self) -> (r: usize)
        ensures
            r == self.program@.len(),
    {
        self.size()
    }

    // METHODS ----------------------------------------------------------------

    /// Fills `bytes` with the image content at `[index, index + bytes.len())`.
    /// Reads past the end of the image fail with a segmentation fault and
    /// leave `bytes` unchanged.
    pub fn read_at(&self, index: usize, bytes: &mut Vec<u8>) -> (r: Result<(), Action>)
        ensures
            r is Ok <==> index + old(bytes)@.len() <= self.program@.len(),
            final(bytes)@.len() == old(bytes)@.len(),
            r is Ok ==> final(bytes)@ == self.spec_bytes(index as int, old(bytes)@.len() as int),
            r is Err ==> r == Result::<(), Action>::Err(Action::Panic("Segmentation Fault"))
                && final(bytes)@ == old(bytes)@,
    {
        let num_bytes = bytes.len();
        let size = self.program.len();
        if num_bytes > size || index > size - num_bytes {
            return Err(Action::Panic("Segmentation Fault"));
        }

        let mut k: usize = 0;
        while k < num_bytes
            invariant
                k <= num_bytes == bytes@.len(),
                index + num_bytes <= self.program@.len(),
                index + num_bytes <= usize::MAX,
                forall|j: int| 0 <= j < k ==> bytes@[j] == self.program@[index + j],
            decreases num_bytes - k,
        {
            let b = self.program[index + k];
            bytes[k] = b;
            k = k + 1;
        }
        proof {
            assert(bytes@ =~= self.spec_bytes(index as int, num_bytes as int));
        }
        Ok(())
    }

    /// Reads the `n`-byte little-endian word at `index`.
    pub fn read_word_at(&self, index: usize, n: usize) -> (r: Result<u64, Action>)
        requires
            n <= 8,
        ensures
            r is Ok <==> index + n <= self.program@.len(),
            r is Ok ==> r->Ok_0 == le_value(self.spec_bytes(index as int, n as int)) && r->Ok_0
                < pow256(n as nat),
            r is Err ==> r == Result::<u64, Action>::Err(Action::Panic("Segmentation Fault")),
    {
        let mut buf: Vec<u8> = Vec::new();
        let mut k: usize = 0;
        while k < n
            invariant
                k <= n,
                buf@.len() == k,
            decreases n - k,
        {
            buf.push(0);
            k = k + 1;
        }
        match self.read_at(index, &mut buf) {
            Ok(_) => Ok(le_bytes_to_word(&buf)),
            Err(e) => Err(e),
        }
    }

    pub fn read_u8_at(&self, index: usize) -> (r: Result<u8, Action>)
        ensures
            r is Ok <==> index + 1 <= self.program@.len(),
            r is Ok ==> r->Ok_0 == le_value(self.spec_bytes(index as int, 1)),
            r is Err ==> r == Result::<u8, Action>::Err(Action::Panic("Segmentation Fault")),
    {
        proof {
            lemma_pow256_values();
        }
        match self.read_word_at(index, 1) {
            Ok(w) => Ok(w as u8),
            Err(e) => Err(e),
        }
    }

    pub fn read_u16_at(&self, index: usize) -> (r: Result<u16, Action>)
        ensures
            r is Ok <==> index + 2 <= self.program@.len(),
            r is Ok ==> r->Ok_0 == le_value(self.spec_bytes(index as int, 2)),
            r is Err ==> r == Result::<u16, Action>::Err(Action::Panic("Segmentation Fault")),
    {
        proof {
            lemma_pow256_values();
        }
        match self.read_word_at(index, 2) {
            Ok(w) => Ok(w as u16),
            Err(e) => Err(e),
        }
    }

    pub fn read_u32_at(&self, index: usize) -> (r: Result<u32, Action>)
        ensures
            r is Ok <==> index + 4 <= self.program@.len(),
            r is Ok ==> r->Ok_0 == le_value(self.spec_bytes(index as int, 4)),
            r is Err ==> r == Result::<u32, Action>::Err(Action::Panic("Segmentation Fault")),
    {
        proof {
            lemma_pow256_values();
        }
        match self.read_word_at(index, 4) {
            Ok(w) => Ok(w as u32),
            Err(e) => Err(e),
        }
    }

    pub fn read_u64_at(&self, index: usize) -> (r: Result<u64, Action>)
        ensures
            r is Ok <==> index + 8 <= self.program@.len(),
            r is Ok ==> r->Ok_0 == le_value(self.spec_bytes(index as int, 8)),
            r is Err ==> r == Result::<u64, Action>::Err(Action::Panic("Segmentation Fault")),
    {
        self.read_word_at(index, 8)
    }

    pub fn read_i8_at(&self, index: usize) -> (r: Result<i8, Action>)
        ensures
            r is Ok <==> index + 1 <= self.program@.len(),
            r is Ok ==> r->Ok_0 as int == to_signed(
                le_value(self.spec_bytes(index as int, 1)),
                1,
            ),
            r is Err ==> r == Result::<i8, Action>::Err(Action::Panic("Segmentation Fault")),
    {
        match self.read_u8_at(index) {
            Ok(w) => Ok(u8_as_i8(w)),
            Err(e) => Err(e),
        }
    }

    pub fn read_i16_at(&self, index: usize) -> (r: Result<i16, Action>)
        ensures
            r is Ok <==> index + 2 <= self.program@.len(),
            r is Ok ==> r->Ok_0 as int == to_signed(
                le_value(self.spec_bytes(index as int, 2)),
                2,
            ),
            r is Err ==> r == Result::<i16, Action>::Err(Action::Panic("Segmentation Fault")),
    {
        match self.read_u16_at(index) {
            Ok(w) => Ok(u16_as_i16(w)),
            Err(e) => Err(e),
        }
    }

    pub fn read_i32_at(&self, index: usize) -> (r: Result<i32, Action>)
        ensures
            r is Ok <==> index + 4 <= self.program@.len(),
            r is Ok ==> r->Ok_0 as int == to_signed(
                le_value(self.spec_bytes(index as int, 4)),
                4,
            ),
            r is Err ==> r == Result::<i32, Action>::Err(Action::Panic("Segmentation Fault")),
    {
        match self.read_u32_at(index) {
            Ok(w) => Ok(u32_as_i32(w)),
            Err(e) => Err(e),
        }
    }

    pub fn read_i64_at(&self, index: usize) -> (r: Result<i64, Action>)
        ensures
            r is Ok <==> index + 8 <= self.program@.len(),
            r is Ok ==> r->Ok_0 as int == to_signed(
                le_value(self.spec_bytes(index as int, 8)),
                8,
            ),
            r is Err ==> r == Result::<i64, Action>::Err(Action::Panic("Segmentation Fault")),
    {
        match self.read_u64_at(index) {
            Ok(w) => Ok(u64_as_i64(w)),
            Err(e) => Err(e),
        }
    }
}

} // verus!
