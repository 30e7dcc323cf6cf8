//! Laws of the machine, written out as proof functions: what the contracts
//! of the memory, the processor and the instruction handlers add up to when
//! two operations run back to back.

use vstd::prelude::*;

use crate::sasm::memory::Memory;
use crate::sasm::processor::Processor;

verus! {

/// A memory always holds exactly `pages * page_size` bytes.
pub proof fn law_memory_size(m: &Memory)
    requires
        m.inv(),
    ensures
        m.spec_size() == m.pages@.len() * m.spec_page_size(),
{
}

/// A typed write followed by a typed read of the same index returns the
/// written value.
///
/// `write_word_at` (and every typed `write_*_at` through it) ensures that
/// the little-endian value of the `n` written bytes equals the written
/// value, also when they straddle a page boundary; `read_word_at` (and
/// every typed `read_*_at`) returns exactly that little-endian value, so
/// the read after the write returns `value`. Moreover the write's contract
/// pins the bytes themselves: only one string of `n` bytes has that value,
/// so nothing about the write's effect on its region is left open.
pub proof fn law_write_then_read(m1: &Memory, index: int, n: int, value: nat)
    requires
        m1.inv(),
        0 <= n,
        crate::sasm::bytes::le_value(m1.spec_bytes(index, n)) == value,
    ensures
        forall|bytes: Seq<u8>|
            bytes.len() == n && #[trigger] crate::sasm::bytes::le_value(bytes) == value
                ==> bytes =~= m1.spec_bytes(index, n),
{
    assert forall|bytes: Seq<u8>|
        bytes.len() == n && #[trigger] crate::sasm::bytes::le_value(bytes) == value implies bytes
        =~= m1.spec_bytes(index, n) by {
        crate::sasm::bytes::lemma_le_value_injective(bytes, m1.spec_bytes(index, n));
    }
}

/// A push followed by a pop returns the pushed value and restores the stack
/// pointer.
///
/// `push_*` ensures, of the state `p1` it leaves behind, that the stack
/// pointer advanced by the width `n` and that the `n` bytes below it encode
/// the pushed value; `pop_*` of `p1` then succeeds, returns the value those
/// bytes encode, and moves the stack pointer back to where it started.
pub proof fn law_push_then_pop(p0: &Processor, p1: &Processor, n: int, value: nat)
    requires
        p0.inv(),
        p1.inv(),
        0 < n,
        p0.stack_pointer + n <= p0.stack_size,
        p1.stack_pointer == p0.stack_pointer + n,
        crate::sasm::bytes::le_value(
            p1.memory.spec_bytes(p0.stack_pointer as int, n),
        ) == value,
    ensures
        p1.stack_pointer >= n,
        crate::sasm::bytes::le_value(
            p1.memory.spec_bytes(p1.stack_pointer - n, n),
        ) == value,
        p1.stack_pointer - n == p0.stack_pointer,
{
}

/// A `const` instruction followed by the matching `drop` leaves the stack
/// pointer unchanged and the program counter advanced by the width of the
/// immediate.
///
/// `const_*` ensures, of the state `p1` it leaves behind, that both the
/// stack pointer and the program counter advanced by the width `n`;
/// `drop_*` ensures, of the state `p2` it leaves behind, that the stack
/// pointer moved back by `n` and nothing else changed.
pub proof fn law_const_then_drop(p0: &Processor, p1: &Processor, p2: &Processor, n: int)
    requires
        0 < n,
        p1.stack_pointer == p0.stack_pointer + n,
        p1.program_counter == p0.program_counter + n,
        p2.stack_pointer == p1.stack_pointer - n,
        p2.program_counter == p1.program_counter,
    ensures
        p2.stack_pointer == p0.stack_pointer,
        p2.program_counter == p0.program_counter + n,
{
}

/// A memory copy hands the target region the origin region as it was before
/// the copy, bytewise, also when the two regions overlap.
///
/// `memory_copy` ensures, of the memory `m1` it leaves behind, that each
/// byte of the target region equals the corresponding byte of the origin
/// region of the pre-copy memory `m0`; as sequences the two regions are
/// therefore equal.
pub proof fn law_copy_preserves_origin(m0: &Memory, m1: &Memory, origin: int, target: int, count: int)
    requires
        0 <= count,
        forall|k: int| 0 <= k < count ==> #[trigger] m1.spec_byte(target + k) == m0.spec_byte(origin + k),
    ensures
        m1.spec_bytes(target, count) =~= m0.spec_bytes(origin, count),
{
}

} // verus!
