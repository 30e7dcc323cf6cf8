//! A paginated byte memory with typed little-endian reads and writes.

use vstd::prelude::*;
use vstd::arithmetic::div_mod::{
    lemma_div_pos_is_pos, lemma_mod_division_less_than_divisor, lemma_multiply_divide_lt,
};
use vstd::arithmetic::mul::lemma_mul_inequality;

use crate::sasm::action::Action;
use crate::sasm::bytes::{
    i16_as_u16, i32_as_u32, i64_as_u64, i8_as_u8, le_bytes_to_word, le_value, lemma_pow256_values,
    pow256, to_signed, u16_as_i16, u32_as_i32, u64_as_i64, u8_as_i8, word_to_le_bytes,
};

verus! {

/// The default memory page size: 64KiB.
pub const MEMORY_DEFAULT_PAGE_SIZE: usize = 64 * 1024;

/// The default stack size: 2MiB.
pub const MEMORY_DEFAULT_STACK_SIZE: usize = 2 * 1024 * 1024;

/// A paginated memory abstraction.
///
/// The memory is a sequence of pages, each exactly `page_size` bytes long,
/// at most `max_pages` of them. Byte `i` of the memory lives at offset
/// `i % page_size` of page `i / page_size`.
pub struct Memory {
    pub page_size: usize,
    pub max_pages: usize,
    pub pages: Vec<Vec<u8>>,
}

impl Memory {
    /// The structural invariant of a memory: a nonzero page size, no more
    /// pages than allowed, every page exactly one page long, and a total
    /// size that a `usize` can count.
    pub open spec fn inv(&self) -> bool {
        &&& self.page_size > 0
        &&& self.pages@.len() <= self.max_pages
        &&& (forall|i: int|
            0 <= i < self.pages@.len() ==> (#[trigger] self.pages@[i])@.len() == self.page_size)
        &&& self.pages@.len() * self.page_size <= usize::MAX
    }

    pub open spec fn spec_page_size(&self) -> usize {
        self.page_size
    }

    pub open spec fn spec_max_pages(&self) -> usize {
        self.max_pages
    }

    /// The total number of bytes the memory holds.
    pub open spec fn spec_size(&self) -> int {
        self.pages@.len() * self.page_size
    }

    /// The byte at flat index `i`, as if the pages formed one contiguous
    /// buffer.
    pub open spec fn spec_byte(&self, i: int) -> u8 {
        self.pages@[i / self.page_size as int]@[i % self.page_size as int]
    }

    /// The `n` bytes starting at flat index `i`.
    pub open spec fn spec_bytes(&self, i: int, n: int) -> Seq<u8> {
        Seq::new(n as nat, |k: int| self.spec_byte(i + k))
    }

    /// Two memories with the same page size, page limit and page count.
    pub open spec fn same_shape(&self, other: &Memory) -> bool {
        &&& self.page_size == other.page_size
        &&& self.max_pages == other.max_pages
        &&& self.pages@.len() == other.pages@.len()
    }

    // CONSTRUCTORS -----------------------------------------------------------

    /// Builds a memory from existing pages.
    pub fn new(page_size: usize, max_pages: usize, pages: Vec<Vec<u8>>) -> (r: Memory)
        requires
            page_size != 0,
            pages@.len() <= max_pages,
            forall|i: int| 0 <= i < pages@.len() ==> (#[trigger] pages@[i])@.len() == page_size,
            pages@.len() * page_size <= usize::MAX,
        ensures
            r.inv(),
            r.spec_page_size() == page_size,
            r.spec_max_pages() == max_pages,
            r.pages == pages,
    {
        Memory { page_size, max_pages, pages }
    }

    /// Builds a memory with no pages yet.
    pub fn new_empty(page_size: usize, max_pages: usize) -> (r: Memory)
        requires
            page_size != 0,
        ensures
            r.inv(),
            r.spec_page_size() == page_size,
            r.spec_max_pages() == max_pages,
            r.pages@.len() == 0,
            r.spec_size() == 0,
    {
        Memory { page_size, max_pages, pages: Vec::new() }
    }

    // GETTERS ----------------------------------------------------------------

    pub fn page_size(&self) -> (r: usize)
        ensures
            r == self.spec_page_size(),
    {
        self.page_size
    }

    pub fn max_pages(&self) -> (r: usize)
        ensures
            r == self.spec_max_pages(),
    {
        self.max_pages
    }

    /// The number of pages the memory currently holds.
    pub fn pages(&self) -> (r: usize)
        ensures
            r == self.pages@.len(),
    {
        self.pages.len()
    }

    /// The total number of bytes the memory currently holds: the page count
    /// times the page size.
    pub fn size(&self) -> (r: usize)
        requires
            self.inv(),
        ensures
            r == self.spec_size(),
    {
        self.pages.len() * self.page_size
    }

    // METHODS ----------------------------------------------------------------

    /// Fills `bytes` with the memory content at `[index, index + bytes.len())`.
    /// Reads past the end of the memory fail with a segmentation fault and
    /// leave `bytes` unchanged.
    pub fn read_at(&self, index: usize, bytes: &mut Vec<u8>) -> (r: Result<(), Action>)
        requires
            self.inv(),
        ensures
            r is Ok <==> index + old(bytes)@.len() <= self.spec_size(),
            final(bytes)@.len() == old(bytes)@.len(),
            r is Ok ==> final(bytes)@ == self.spec_bytes(index as int, old(bytes)@.len() as int),
            r is Err ==> r == Result::<(), Action>::Err(Action::Panic("Segmentation Fault"))
                && final(bytes)@ == old(bytes)@,
    {
        let num_bytes = bytes.len();
        let size = self.size();
        if num_bytes > size || index > size - num_bytes {
            return Err(Action::Panic("Segmentation Fault"));
        }

        let mut k: usize = 0;
        while k < num_bytes
            invariant
                self.inv(),
                k <= num_bytes == bytes@.len(),
                index + num_bytes <= self.spec_size(),
                forall|j: int| 0 <= j < k ==> bytes@[j] == self.spec_byte(index + j),
            decreases num_bytes - k,
        {
            let b = self.read_byte(index + k);
            bytes[k] = b;
            k = k + 1;
        }
        proof {
            assert(bytes@ =~= self.spec_bytes(index as int, num_bytes as int));
        }
        Ok(())
    }

    /// Reads the single byte at flat index `index`.
    fn read_byte(&self, index: usize) -> (r: u8)
        requires
            self.inv(),
            index < self.spec_size(),
        ensures
            r == self.spec_byte(index as int),
    {
        proof {
            lemma_flat_index(index as int, self.page_size as int, self.pages@.len() as int);
        }
        let page_index = index / self.page_size;
        let index_in_page = index % self.page_size;
        self.pages[page_index][index_in_page]
    }

    /// Writes the single byte `b` at flat index `index`.
    fn write_byte(&mut self, index: usize, b: u8)
        requires
            old(self).inv(),
            index < old(self).spec_size(),
        ensures
            final(self).inv(),
            final(self).same_shape(old(self)),
            final(self).spec_byte(index as int) == b,
            forall|j: int|
                0 <= j < final(self).spec_size() && j != index ==> final(self).spec_byte(j) == old(
                    self,
                ).spec_byte(j),
    {
        proof {
            lemma_flat_index(index as int, self.page_size as int, self.pages@.len() as int);
        }
        let page_index = index / self.page_size;
        let index_in_page = index % self.page_size;
        self.pages[page_index][index_in_page] = b;
        proof {
            assert forall|j: int|
                0 <= j < self.spec_size() && j != index implies self.spec_byte(j) == old(
                self,
            ).spec_byte(j) by {
                lemma_flat_index(j, self.page_size as int, self.pages@.len() as int);
                if j / self.page_size as int == index as int / self.page_size as int {
                    assert(j % self.page_size as int != index as int % self.page_size as int);
                }
            }
        }
    }

    /// Writes `bytes` at `[index, index + bytes.len())`. Writes past the end
    /// of the memory fail with a segmentation fault and leave the memory
    /// unchanged.
    pub fn write_at(&mut self, index: usize, bytes: &[u8]) -> (r: Result<(), Action>)
        requires
            old(self).inv(),
        ensures
            final(self).inv(),
            final(self).same_shape(old(self)),
            r is Ok <==> index + bytes@.len() <= old(self).spec_size(),
            r is Ok ==> forall|j: int|
                0 <= j < final(self).spec_size() ==> final(self).spec_byte(j) == (if index <= j < index
                    + bytes@.len() {
                    bytes@[j - index]
                } else {
                    old(self).spec_byte(j)
                }),
            r is Err ==> r == Result::<(), Action>::Err(Action::Panic("Segmentation Fault"))
                && *final(self) == *old(self),
    {
        let num_bytes = bytes.len();
        let size = self.size();
        if num_bytes > size || index > size - num_bytes {
            return Err(Action::Panic("Segmentation Fault"));
        }

        let mut k: usize = 0;
        while k < num_bytes
            invariant
                self.inv(),
                self.same_shape(old(self)),
                k <= num_bytes == bytes@.len(),
                index + num_bytes <= self.spec_size(),
                forall|j: int|
                    0 <= j < self.spec_size() ==> self.spec_byte(j) == (if index <= j < index + k {
                        bytes@[j - index]
                    } else {
                        old(self).spec_byte(j)
                    }),
            decreases num_bytes - k,
        {
            let b = bytes[k];
            self.write_byte(index + k, b);
            k = k + 1;
        }
        Ok(())
    }
    /// Reads the `n`-byte little-endian word at `index`.
    pub fn read_word_at(&self, index: usize, n: usize) -> (r: Result<u64, Action>)
        requires
            self.inv(),
            n <= 8,
        ensures
            r is Ok <==> index + n <= self.spec_size(),
            r is Ok ==> r->Ok_0 == le_value(self.spec_bytes(index as int, n as int)) && r->Ok_0
                < pow256(n as nat),
            r is Err ==> r == Result::<u64, Action>::Err(Action::Panic("Segmentation Fault")),
    {
        let mut buf: Vec<u8> = Vec::new();
        let mut k: usize = 0;
        while k < n
            invariant
                k <= n,
                buf@.len() == k,
            decreases n - k,
        {
            buf.push(0);
            k = k + 1;
        }
        match self.read_at(index, &mut buf) {
            Ok(_) => Ok(le_bytes_to_word(&buf)),
            Err(e) => Err(e),
        }
    }

    /// Writes `v` as an `n`-byte little-endian word at `index`.
    pub fn write_word_at(&mut self, index: usize, n: usize, v: u64) -> (r: Result<(), Action>)
        requires
            old(self).inv(),
            n <= 8,
            v < pow256(n as nat),
        ensures
            final(self).inv(),
            final(self).same_shape(old(self)),
            r is Ok <==> index + n <= old(self).spec_size(),
            r is Ok ==> le_value(final(self).spec_bytes(index as int, n as int)) == v,
            r is Ok ==> forall|j: int|
                0 <= j < final(self).spec_size() && !(index <= j < index + n) ==> final(self).spec_byte(j) == old(self).spec_byte(j),
            r is Err ==> r == Result::<(), Action>::Err(Action::Panic("Segmentation Fault"))
                && *final(self) == *old(self),
    {
        let buf = word_to_le_bytes(v, n);
        let r = self.write_at(index, buf.as_slice());
        proof {
            if r is Ok {
                assert(self.spec_bytes(index as int, n as int) =~= buf@);
            }
        }
        r
    }

    pub fn read_u8_at(&self, index: usize) -> (r: Result<u8, Action>)
        requires
            self.inv(),
        ensures
            r is Ok <==> index + 1 <= self.spec_size(),
            r is Ok ==> r->Ok_0 == le_value(self.spec_bytes(index as int, 1)),
            r is Err ==> r == Result::<u8, Action>::Err(Action::Panic("Segmentation Fault")),
    {
        proof {
            lemma_pow256_values();
        }
        match self.read_word_at(index, 1) {
            Ok(w) => Ok(w as u8),
            Err(e) => Err(e),
        }
    }

    pub fn read_u16_at(&self, index: usize) -> (r: Result<u16, Action>)
        requires
            self.inv(),
        ensures
            r is Ok <==> index + 2 <= self.spec_size(),
            r is Ok ==> r->Ok_0 == le_value(self.spec_bytes(index as int, 2)),
            r is Err ==> r == Result::<u16, Action>::Err(Action::Panic("Segmentation Fault")),
    {
        proof {
            lemma_pow256_values();
        }
        match self.read_word_at(index, 2) {
            Ok(w) => Ok(w as u16),
            Err(e) => Err(e),
        }
    }

    pub fn read_u32_at(&self, index: usize) -> (r: Result<u32, Action>)
        requires
            self.inv(),
        ensures
            r is Ok <==> index + 4 <= self.spec_size(),
            r is Ok ==> r->Ok_0 == le_value(self.spec_bytes(index as int, 4)),
            r is Err ==> r == Result::<u32, Action>::Err(Action::Panic("Segmentation Fault")),
    {
        proof {
            lemma_pow256_values();
        }
        match self.read_word_at(index, 4) {
            Ok(w) => Ok(w as u32),
            Err(e) => Err(e),
        }
    }

    pub fn read_u64_at(&self, index: usize) -> (r: Result<u64, Action>)
        requires
            self.inv(),
        ensures
            r is Ok <==> index + 8 <= self.spec_size(),
            r is Ok ==> r->Ok_0 == le_value(self.spec_bytes(index as int, 8)),
            r is Err ==> r == Result::<u64, Action>::Err(Action::Panic("Segmentation Fault")),
    {
        self.read_word_at(index, 8)
    }

    pub fn read_i8_at(&self, index: usize) -> (r: Result<i8, Action>)
        requires
            self.inv(),
        ensures
            r is Ok <==> index + 1 <= self.spec_size(),
            r is Ok ==> r->Ok_0 as int == to_signed(
                le_value(self.spec_bytes(index as int, 1)),
                1,
            ),
            r is Err ==> r == Result::<i8, Action>::Err(Action::Panic("Segmentation Fault")),
    {
        match self.read_u8_at(index) {
            Ok(w) => Ok(u8_as_i8(w)),
            Err(e) => Err(e),
        }
    }

    pub fn read_i16_at(&self, index: usize) -> (r: Result<i16, Action>)
        requires
            self.inv(),
        ensures
            r is Ok <==> index + 2 <= self.spec_size(),
            r is Ok ==> r->Ok_0 as int == to_signed(
                le_value(self.spec_bytes(index as int, 2)),
                2,
            ),
            r is Err ==> r == Result::<i16, Action>::Err(Action::Panic("Segmentation Fault")),
    {
        match self.read_u16_at(index) {
            Ok(w) => Ok(u16_as_i16(w)),
            Err(e) => Err(e),
        }
    }

    pub fn read_i32_at(&self, index: usize) -> (r: Result<i32, Action>)
        requires
            self.inv(),
        ensures
            r is Ok <==> index + 4 <= self.spec_size(),
            r is Ok ==> r->Ok_0 as int == to_signed(
                le_value(self.spec_bytes(index as int, 4)),
                4,
            ),
            r is Err ==> r == Result::<i32, Action>::Err(Action::Panic("Segmentation Fault")),
    {
        match self.read_u32_at(index) {
            Ok(w) => Ok(u32_as_i32(w)),
            Err(e) => Err(e),
        }
    }

    pub fn read_i64_at(&self, index: usize) -> (r: Result<i64, Action>)
        requires
            self.inv(),
        ensures
            r is Ok <==> index + 8 <= self.spec_size(),
            r is Ok ==> r->Ok_0 as int == to_signed(
                le_value(self.spec_bytes(index as int, 8)),
                8,
            ),
            r is Err ==> r == Result::<i64, Action>::Err(Action::Panic("Segmentation Fault")),
    {
        match self.read_u64_at(index) {
            Ok(w) => Ok(u64_as_i64(w)),
            Err(e) => Err(e),
        }
    }

    pub fn write_u8_at(&mut self, index: usize, value: u8) -> (r: Result<(), Action>)
        requires
            old(self).inv(),
        ensures
            final(self).inv(),
            final(self).same_shape(old(self)),
            r is Ok <==> index + 1 <= old(self).spec_size(),
            r is Ok ==> le_value(final(self).spec_bytes(index as int, 1)) == value,
            r is Ok ==> forall|j: int|
                0 <= j < final(self).spec_size() && !(index <= j < index + 1) ==> final(self).spec_byte(j) == old(self).spec_byte(j),
            r is Err ==> r == Result::<(), Action>::Err(Action::Panic("Segmentation Fault"))
                && *final(self) == *old(self),
    {
        proof {
            lemma_pow256_values();
        }
        self.write_word_at(index, 1, value as u64)
    }

    pub fn write_u16_at(&mut self, index: usize, value: u16) -> (r: Result<(), Action>)
        requires
            old(self).inv(),
        ensures
            final(self).inv(),
            final(self).same_shape(old(self)),
            r is Ok <==> index + 2 <= old(self).spec_size(),
            r is Ok ==> le_value(final(self).spec_bytes(index as int, 2)) == value,
            r is Ok ==> forall|j: int|
                0 <= j < final(self).spec_size() && !(index <= j < index + 2) ==> final(self).spec_byte(j) == old(self).spec_byte(j),
            r is Err ==> r == Result::<(), Action>::Err(Action::Panic("Segmentation Fault"))
                && *final(self) == *old(self),
    {
        proof {
            lemma_pow256_values();
        }
        self.write_word_at(index, 2, value as u64)
    }

    pub fn write_u32_at(&mut self, index: usize, value: u32) -> (r: Result<(), Action>)
        requires
            old(self).inv(),
        ensures
            final(self).inv(),
            final(self).same_shape(old(self)),
            r is Ok <==> index + 4 <= old(self).spec_size(),
            r is Ok ==> le_value(final(self).spec_bytes(index as int, 4)) == value,
            r is Ok ==> forall|j: int|
                0 <= j < final(self).spec_size() && !(index <= j < index + 4) ==> final(self).spec_byte(j) == old(self).spec_byte(j),
            r is Err ==> r == Result::<(), Action>::Err(Action::Panic("Segmentation Fault"))
                && *final(self) == *old(self),
    {
        proof {
            lemma_pow256_values();
        }
        self.write_word_at(index, 4, value as u64)
    }

    pub fn write_u64_at(&mut self, index: usize, value: u64) -> (r: Result<(), Action>)
        requires
            old(self).inv(),
        ensures
            final(self).inv(),
            final(self).same_shape(old(self)),
            r is Ok <==> index + 8 <= old(self).spec_size(),
            r is Ok ==> le_value(final(self).spec_bytes(index as int, 8)) == value,
            r is Ok ==> forall|j: int|
                0 <= j < final(self).spec_size() && !(index <= j < index + 8) ==> final(self).spec_byte(j) == old(self).spec_byte(j),
            r is Err ==> r == Result::<(), Action>::Err(Action::Panic("Segmentation Fault"))
                && *final(self) == *old(self),
    {
        proof {
            lemma_pow256_values();
        }
        self.write_word_at(index, 8, value)
    }

    pub fn write_i8_at(&mut self, index: usize, value: i8) -> (r: Result<(), Action>)
        requires
            old(self).inv(),
        ensures
            final(self).inv(),
            final(self).same_shape(old(self)),
            r is Ok <==> index + 1 <= old(self).spec_size(),
            r is Ok ==> to_signed(le_value(final(self).spec_bytes(index as int, 1)), 1)
                == value as int,
            r is Ok ==> forall|j: int|
                0 <= j < final(self).spec_size() && !(index <= j < index + 1) ==> final(self).spec_byte(j) == old(self).spec_byte(j),
            r is Err ==> r == Result::<(), Action>::Err(Action::Panic("Segmentation Fault"))
                && *final(self) == *old(self),
    {
        self.write_u8_at(index, i8_as_u8(value))
    }

    pub fn write_i16_at(&mut self, index: usize, value: i16) -> (r: Result<(), Action>)
        requires
            old(self).inv(),
        ensures
            final(self).inv(),
            final(self).same_shape(old(self)),
            r is Ok <==> index + 2 <= old(self).spec_size(),
            r is Ok ==> to_signed(le_value(final(self).spec_bytes(index as int, 2)), 2)
                == value as int,
            r is Ok ==> forall|j: int|
                0 <= j < final(self).spec_size() && !(index <= j < index + 2) ==> final(self).spec_byte(j) == old(self).spec_byte(j),
            r is Err ==> r == Result::<(), Action>::Err(Action::Panic("Segmentation Fault"))
                && *final(self) == *old(self),
    {
        self.write_u16_at(index, i16_as_u16(value))
    }

    pub fn write_i32_at(&mut self, index: usize, value: i32) -> (r: Result<(), Action>)
        requires
            old(self).inv(),
        ensures
            final(self).inv(),
            final(self).same_shape(old(self)),
            r is Ok <==> index + 4 <= old(self).spec_size(),
            r is Ok ==> to_signed(le_value(final(self).spec_bytes(index as int, 4)), 4)
                == value as int,
            r is Ok ==> forall|j: int|
                0 <= j < final(self).spec_size() && !(index <= j < index + 4) ==> final(self).spec_byte(j) == old(self).spec_byte(j),
            r is Err ==> r == Result::<(), Action>::Err(Action::Panic("Segmentation Fault"))
                && *final(self) == *old(self),
    {
        self.write_u32_at(index, i32_as_u32(value))
    }

    pub fn write_i64_at(&mut self, index: usize, value: i64) -> (r: Result<(), Action>)
        requires
            old(self).inv(),
        ensures
            final(self).inv(),
            final(self).same_shape(old(self)),
            r is Ok <==> index + 8 <= old(self).spec_size(),
            r is Ok ==> to_signed(le_value(final(self).spec_bytes(index as int, 8)), 8)
                == value as int,
            r is Ok ==> forall|j: int|
                0 <= j < final(self).spec_size() && !(index <= j < index + 8) ==> final(self).spec_byte(j) == old(self).spec_byte(j),
            r is Err ==> r == Result::<(), Action>::Err(Action::Panic("Segmentation Fault"))
                && *final(self) == *old(self),
    {
        self.write_u64_at(index, i64_as_u64(value))
    }

    /// Whether `added` more pages would still fit the page limit and the
    /// address space.
    pub open spec fn can_grow(&self, added: nat) -> bool {
        &&& self.pages@.len() + added <= self.max_pages
        &&& (self.pages@.len() + added) * self.page_size <= usize::MAX
    }

    /// Appends one page, which must be exactly one page long. Fails with
    /// `Panic("Memory out of bounds")` when the page limit (or the address
    /// space) is exhausted.
    pub fn add_page(&mut self, page: Vec<u8>) -> (r: Result<(), Action>)
        requires
            old(self).inv(),
            page@.len() == old(self).spec_page_size(),
        ensures
            final(self).inv(),
            r is Ok <==> old(self).can_grow(1),
            r is Ok ==> final(self).pages@ == old(self).pages@.push(page),
            final(self).spec_page_size() == old(self).spec_page_size(),
            final(self).spec_max_pages() == old(self).spec_max_pages(),
            r is Err ==> r == Result::<(), Action>::Err(Action::Panic("Memory out of bounds"))
                && *final(self) == *old(self),
    {
        if !self.grow_fits(1) {
            return Err(Action::Panic("Memory out of bounds"));
        }
        self.pages.push(page);
        Ok(())
    }

    /// Appends one zero-filled page.
    pub fn add_empty_page(&mut self) -> (r: Result<(), Action>)
        requires
            old(self).inv(),
        ensures
            final(self).inv(),
            r is Ok <==> old(self).can_grow(1),
            r is Ok ==> final(self).pages@.len() == old(self).pages@.len() + 1,
            r is Ok ==> forall|j: int|
                0 <= j < old(self).spec_size() ==> final(self).spec_byte(j) == old(self).spec_byte(
                    j,
                ),
            final(self).spec_page_size() == old(self).spec_page_size(),
            final(self).spec_max_pages() == old(self).spec_max_pages(),
            r is Err ==> r == Result::<(), Action>::Err(Action::Panic("Memory out of bounds"))
                && *final(self) == *old(self),
    {
        self.add_empty_pages(1)
    }

    /// Appends `amount` zero-filled pages. Fails with
    /// `Panic("Memory out of bounds")` when the page limit (or the address
    /// space) would be exceeded, leaving the memory unchanged.
    pub fn add_empty_pages(&mut self, amount: usize) -> (r: Result<(), Action>)
        requires
            old(self).inv(),
        ensures
            final(self).inv(),
            r is Ok <==> old(self).can_grow(amount as nat),
            r is Ok ==> final(self).pages@.len() == old(self).pages@.len() + amount,
            r is Ok ==> forall|j: int|
                0 <= j < old(self).spec_size() ==> final(self).spec_byte(j) == old(self).spec_byte(
                    j,
                ),
            final(self).spec_page_size() == old(self).spec_page_size(),
            final(self).spec_max_pages() == old(self).spec_max_pages(),
            r is Err ==> r == Result::<(), Action>::Err(Action::Panic("Memory out of bounds"))
                && *final(self) == *old(self),
    {
        if !self.grow_fits(amount) {
            return Err(Action::Panic("Memory out of bounds"));
        }
        let mut zero_page: Vec<u8> = Vec::new();
        let mut k: usize = 0;
        while k < self.page_size
            invariant
                k <= self.page_size,
                zero_page@.len() == k,
            decreases self.page_size - k,
        {
            zero_page.push(0);
            k = k + 1;
        }
        let mut added: usize = 0;
        while added < amount
            invariant
                old(self).inv(),
                self.inv(),
                added <= amount,
                old(self).can_grow(amount as nat),
                zero_page@.len() == self.page_size,
                self.page_size == old(self).page_size,
                self.max_pages == old(self).max_pages,
                self.pages@.len() == old(self).pages@.len() + added,
                forall|i: int|
                    0 <= i < old(self).pages@.len() ==> self.pages@[i] == old(self).pages@[i],
            decreases amount - added,
        {
            let page: Vec<u8> = zero_page.clone();
            proof {
                lemma_mul_inequality(
                    self.pages@.len() + 1 as int,
                    old(self).pages@.len() + amount as int,
                    self.page_size as int,
                );
            }
            self.pages.push(page);
            added = added + 1;
        }
        proof {
            assert forall|j: int| 0 <= j < old(self).spec_size() implies self.spec_byte(j) == old(
                self,
            ).spec_byte(j) by {
                lemma_flat_index(j, self.page_size as int, old(self).pages@.len() as int);
            }
        }
        Ok(())
    }

    /// Whether `added` more pages stay within the page limit and within what
    /// a `usize` can address.
    fn grow_fits(&self, added: usize) -> (r: bool)
        requires
            self.inv(),
        ensures
            r == self.can_grow(added as nat),
    {
        let len = self.pages.len();
        if added > usize::MAX - len {
            return false;
        }
        let new_pages = len + added;
        if new_pages > self.max_pages {
            return false;
        }
        if new_pages > usize::MAX / self.page_size {
            proof {
                lemma_div_bound_conversion(new_pages as int, self.page_size as int);
            }
            return false;
        }
        proof {
            lemma_div_bound_conversion(new_pages as int, self.page_size as int);
        }
        true
    }
}

impl Default for Memory {
    /// An empty memory with the default page size and no page limit.
    fn default() -> (r: Memory)
        ensures
            r.inv(),
            r.spec_page_size() == MEMORY_DEFAULT_PAGE_SIZE,
            r.spec_max_pages() == usize::MAX,
            r.pages@.len() == 0,
    {
        Memory::new_empty(MEMORY_DEFAULT_PAGE_SIZE, usize::MAX)
    }
}

/// `n * ps <= usize::MAX` exactly when `n <= usize::MAX / ps`, for positive
/// `ps`.
proof fn lemma_div_bound_conversion(n: int, ps: int)
    requires
        0 < ps,
        0 <= n,
    ensures
        n * ps <= usize::MAX <==> n <= usize::MAX as int / ps,
{
    if n * ps <= usize::MAX {
        vstd::arithmetic::div_mod::lemma_div_multiples_vanish(n, ps);
        assert(ps * n == n * ps) by (nonlinear_arith);
        vstd::arithmetic::div_mod::lemma_div_is_ordered(n * ps, usize::MAX as int, ps);
    }
    if n <= usize::MAX as int / ps {
        vstd::arithmetic::div_mod::lemma_fundamental_div_mod(usize::MAX as int, ps);
        lemma_mod_division_less_than_divisor(usize::MAX as int, ps);
        lemma_mul_inequality(n, usize::MAX as int / ps, ps);
        assert((usize::MAX as int / ps) * ps == ps * (usize::MAX as int / ps)) by (nonlinear_arith);
        assert((usize::MAX as int / ps) * ps <= usize::MAX);
    }
}

/// Splitting a flat index below `len * ps` into a page index and an offset
/// inside the page keeps both parts in range.
proof fn lemma_flat_index(j: int, ps: int, len: int)
    requires
        0 < ps,
        0 <= j,
        j < len * ps,
    ensures
        0 <= j / ps < len,
        0 <= j % ps < ps,
        j == ps * (j / ps) + j % ps,
{
    vstd::arithmetic::div_mod::lemma_fundamental_div_mod(j, ps);
    lemma_div_pos_is_pos(j, ps);
    lemma_mod_division_less_than_divisor(j, ps);
    assert(j < ps * len) by (nonlinear_arith)
        requires
            j < len * ps,
    ;
    lemma_multiply_divide_lt(j, ps, len);
}

} // verus!
