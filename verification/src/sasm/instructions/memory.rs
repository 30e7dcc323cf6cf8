//! Memory instructions: querying and growing the memory, filling and
//! copying regions, moving values between the stack and the memory, and
//! reading the program's data section.

use vstd::prelude::*;

use crate::sasm::action::Action;
use crate::sasm::bytes::le_value;
use crate::sasm::processor::Processor;

verus! {

/// Pushes the current memory size in bytes on the stack, reduced to a u32.
///
/// Stack:
/// + u32 - Memory size.
pub fn memory_size(processor: &mut Processor) -> (r: Result<(), Action>)
    requires
        old(processor).inv(),
    ensures
        final(processor).inv(),
        r is Ok <==> old(processor).stack_pointer + 4 <= old(processor).stack_size,
        r is Ok ==> {
            &&& final(processor).stack_pointer == old(processor).stack_pointer + 4
            &&& le_value(
                final(processor).memory.spec_bytes(old(processor).stack_pointer as int, 4),
            ) == old(processor).memory.spec_size() % 0x1_0000_0000
            &&& final(processor).memory.same_shape(&old(processor).memory)
            &&& (forall|j: int|
                0 <= j < final(processor).memory.spec_size() && !(old(processor).stack_pointer <= j
                    < old(processor).stack_pointer + 4) ==> final(processor).memory.spec_byte(j)
                    == old(processor).memory.spec_byte(j))
            &&& final(processor).program == old(processor).program
            &&& final(processor).program_counter == old(processor).program_counter
            &&& final(processor).stack_size == old(processor).stack_size
            &&& final(processor).overflow_flag == old(processor).overflow_flag
        },
        r is Err ==> r == Result::<(), Action>::Err(Action::Panic("Stack overflow")) && *final(processor) == *old(processor),
{
    let memory_size = (processor.memory.size() as u64 % 0x1_0000_0000) as u32;
    processor.push_u32(memory_size)?;
    Ok(())
}

/// Pops a byte count, rounds it up to whole pages and tries to append that
/// many empty pages. On failure the overflow flag is set instead; either way
/// the memory size before the attempt is pushed back, reduced to a u32.
///
/// Stack:
/// - u32 - Number of bytes.
/// + u32 - Previous size.
pub fn memory_grow(processor: &mut Processor) -> (r: Result<(), Action>)
    requires
        old(processor).inv(),
    ensures
        final(processor).inv(),
        r is Ok <==> old(processor).stack_pointer >= 4,
        r is Ok ==> {
            let count = le_value(
                old(processor).memory.spec_bytes(old(processor).stack_pointer - 4, 4),
            );
            let pages = Processor::spec_pages_for(
                count as int,
                old(processor).memory.spec_page_size() as int,
            );
            let grown = old(processor).memory.can_grow(pages as nat);
            &&& final(processor).stack_pointer == old(processor).stack_pointer
            &&& final(processor).overflow_flag == !grown
            &&& final(processor).memory.pages@.len() == old(processor).memory.pages@.len() + (
            if grown {
                pages
            } else {
                0
            })
            &&& final(processor).memory.spec_page_size() == old(
                processor,
            ).memory.spec_page_size()
            &&& final(processor).memory.spec_max_pages() == old(
                processor,
            ).memory.spec_max_pages()
            &&& le_value(
                final(processor).memory.spec_bytes(old(processor).stack_pointer - 4, 4),
            ) == old(processor).memory.spec_size() % 0x1_0000_0000
            &&& (forall|j: int|
                0 <= j < old(processor).memory.spec_size() && !(old(processor).stack_pointer - 4
                    <= j < old(processor).stack_pointer) ==> final(processor).memory.spec_byte(j)
                    == old(processor).memory.spec_byte(j))
            &&& final(processor).program == old(processor).program
            &&& final(processor).program_counter == old(processor).program_counter
            &&& final(processor).stack_size == old(processor).stack_size
        },
        r is Err ==> r == Result::<(), Action>::Err(Action::Panic("Stack underflow")) && *final(processor) == *old(processor),
{
    let number_of_bytes = processor.pop_u32()? as u64;
    let memory_size = (processor.memory.size() as u64 % 0x1_0000_0000) as u32;
    let page_size = processor.memory.page_size() as u64;
    let mut pages = number_of_bytes / page_size;
    if number_of_bytes % page_size != 0 {
        pages = pages + 1;
    }

    let ghost m_before = processor.memory;
    let is_error = if pages > usize::MAX as u64 {
        proof {
            lemma_pages_over_address_space(
                pages as int,
                processor.memory.pages@.len() as int,
                processor.memory.spec_page_size() as int,
            );
        }
        true
    } else {
        processor.memory.add_empty_pages(pages as usize).is_err()
    };
    proof {
        lemma_mul_le(
            m_before.pages@.len() as int,
            processor.memory.pages@.len() as int,
            m_before.spec_page_size() as int,
        );
    }
    processor.set_overflow_flag(is_error);
    let pushed = processor.push_u32(memory_size);
    proof {
        assert(pushed is Ok);
    }
    Ok(())
}

/// Fills a region of the memory with `count` copies of a ?8 value laid out
/// back to back from the start pointer. A region that runs past the end of
/// the memory faults; values written before the fault stay written.
///
/// Stack:
/// - u8  - The value to use to fill the memory.
/// - u32 - Number of words.
/// - u32 - Start pointer.
pub fn memory_fill_8(processor: &mut Processor) -> (r: Result<(), Action>)
    requires
        old(processor).inv(),
    ensures
        final(processor).inv(),
        ({
            let count = le_value(
                old(processor).memory.spec_bytes(old(processor).stack_pointer - 1 - 4, 4),
            );
            let start = le_value(
                old(processor).memory.spec_bytes(old(processor).stack_pointer - 1 - 8, 4),
            );
            r is Ok <==> old(processor).stack_pointer >= 9 && (count == 0 || start + count
                * 1 <= old(processor).memory.spec_size())
        }),
        r is Ok ==> {
            let value = le_value(
                old(processor).memory.spec_bytes(old(processor).stack_pointer - 1, 1),
            );
            let count = le_value(
                old(processor).memory.spec_bytes(old(processor).stack_pointer - 1 - 4, 4),
            );
            let start = le_value(
                old(processor).memory.spec_bytes(old(processor).stack_pointer - 1 - 8, 4),
            );
            &&& final(processor).stack_pointer == old(processor).stack_pointer - 9
            &&& (forall|w: int|
                0 <= w < count ==> le_value(
                    #[trigger] final(processor).memory.spec_bytes(start + w * 1, 1),
                ) == value)
            &&& (forall|j: int|
                0 <= j < final(processor).memory.spec_size() && !(start <= j < start + count
                    * 1) ==> final(processor).memory.spec_byte(j) == old(
                    processor,
                ).memory.spec_byte(j))
            &&& final(processor).memory.same_shape(&old(processor).memory)
            &&& final(processor).program == old(processor).program
            &&& final(processor).program_counter == old(processor).program_counter
            &&& final(processor).stack_size == old(processor).stack_size
            &&& final(processor).overflow_flag == old(processor).overflow_flag
        },
        r is Err && old(processor).stack_pointer < 9 ==> r == Result::<(), Action>::Err(
            Action::Panic("Stack underflow"),
        ) && *final(processor) == (Processor {
            stack_pointer: if old(processor).stack_pointer < 1 {
                old(processor).stack_pointer
            } else if old(processor).stack_pointer < 1 + 4 {
                (old(processor).stack_pointer - 1) as usize
            } else {
                (old(processor).stack_pointer - 1 - 4) as usize
            },
            ..*old(processor)
        }),
        r is Err && old(processor).stack_pointer >= 9 ==> {
            let count = le_value(
                old(processor).memory.spec_bytes(old(processor).stack_pointer - 1 - 4, 4),
            );
            let start = le_value(
                old(processor).memory.spec_bytes(old(processor).stack_pointer - 1 - 8, 4),
            );
            &&& r == Result::<(), Action>::Err(Action::Panic("Segmentation Fault"))
            &&& final(processor).stack_pointer == old(processor).stack_pointer - 9
            &&& final(processor).memory.same_shape(&old(processor).memory)
            &&& (forall|j: int|
                0 <= j < final(processor).memory.spec_size() && !(start <= j < start + count
                    * 1) ==> final(processor).memory.spec_byte(j) == old(
                    processor,
                ).memory.spec_byte(j))
            &&& final(processor).program == old(processor).program
            &&& final(processor).program_counter == old(processor).program_counter
            &&& final(processor).stack_size == old(processor).stack_size
            &&& final(processor).overflow_flag == old(processor).overflow_flag
        },
{
    let value = processor.pop_u8()?;
    let number_of_words = match processor.pop_u32() {
        Ok(v) => v as usize,
        Err(e) => {
            return Err(e);
        },
    };
    let start_pointer = match processor.pop_u32() {
        Ok(v) => v as usize,
        Err(e) => {
            return Err(e);
        },
    };

    let ghost m0 = processor.memory;
    let mut word: usize = 0;
    while word < number_of_words
        invariant
            processor.inv(),
            word <= number_of_words,
            number_of_words < 0x1_0000_0000,
            start_pointer < 0x1_0000_0000,
            m0 == old(processor).memory,
            value as nat == le_value(m0.spec_bytes(old(processor).stack_pointer - 1, 1)),
            number_of_words as nat == le_value(
                m0.spec_bytes(old(processor).stack_pointer - 1 - 4, 4),
            ),
            start_pointer as nat == le_value(
                m0.spec_bytes(old(processor).stack_pointer - 1 - 8, 4),
            ),
            processor.memory.same_shape(&m0),
            m0.inv(),
            processor.program == old(processor).program,
            processor.program_counter == old(processor).program_counter,
            processor.stack_size == old(processor).stack_size,
            processor.overflow_flag == old(processor).overflow_flag,
            processor.stack_pointer == old(processor).stack_pointer - 9,
            word > 0 ==> start_pointer + word * 1 <= processor.memory.spec_size(),
            forall|w: int|
                0 <= w < word ==> le_value(
                    #[trigger] processor.memory.spec_bytes(start_pointer + w * 1, 1),
                ) == value,
            forall|j: int|
                0 <= j < processor.memory.spec_size() && !(start_pointer <= j < start_pointer
                    + word * 1) ==> processor.memory.spec_byte(j) == m0.spec_byte(j),
        decreases number_of_words - word,
    {
        let ghost m_prev = processor.memory;
        let res = processor.memory.write_u8_at(start_pointer + word * 1, value);
        match res {
            Ok(_) => {},
            Err(e) => {
                proof {
                    lemma_region_bound(
                        start_pointer as int,
                        word as int,
                        number_of_words as int,
                        1,
                        processor.memory.spec_size(),
                    );
                    assert forall|j: int|
                        0 <= j < processor.memory.spec_size() && !(start_pointer <= j
                            < start_pointer + number_of_words * 1) implies processor
                        .memory
                        .spec_byte(j) == m0.spec_byte(j) by {
                        lemma_mul_le(word as int, number_of_words as int, 1);
                    }
                }
                return Err(e);
            },
        }
        proof {
            assert forall|w: int|
                0 <= w < word + 1 implies le_value(
                #[trigger] processor.memory.spec_bytes(start_pointer + w * 1, 1),
            ) == value by {
                if w < word {
                    lemma_words_disjoint(start_pointer as int, w, word as int, 1);
                    assert(processor.memory.spec_bytes(start_pointer + w * 1, 1)
                        =~= m_prev.spec_bytes(start_pointer + w * 1, 1));
                }
            }
            assert forall|j: int|
                0 <= j < processor.memory.spec_size() && !(start_pointer <= j < start_pointer + (
                word + 1) * 1) implies processor.memory.spec_byte(j) == m0.spec_byte(j) by {
                lemma_mul_le(word as int, word + 1, 1);
            }
            lemma_mul_le(word + 1, number_of_words as int, 1);
        }
        word = word + 1;
    }
    proof {
        assert forall|j: int|
            0 <= j < processor.memory.spec_size() && !(start_pointer <= j < start_pointer
                + number_of_words * 1) implies processor.memory.spec_byte(j) == m0.spec_byte(
            j,
        ) by {}
    }
    Ok(())
}

/// Fills a region of the memory with `count` copies of a ?16 value laid out
/// back to back from the start pointer. A region that runs past the end of
/// the memory faults; values written before the fault stay written.
///
/// Stack:
/// - u16  - The value to use to fill the memory.
/// - u32 - Number of words.
/// - u32 - Start pointer.
pub fn memory_fill_16(processor: &mut Processor) -> (r: Result<(), Action>)
    requires
        old(processor).inv(),
    ensures
        final(processor).inv(),
        ({
            let count = le_value(
                old(processor).memory.spec_bytes(old(processor).stack_pointer - 2 - 4, 4),
            );
            let start = le_value(
                old(processor).memory.spec_bytes(old(processor).stack_pointer - 2 - 8, 4),
            );
            r is Ok <==> old(processor).stack_pointer >= 10 && (count == 0 || start + count
                * 2 <= old(processor).memory.spec_size())
        }),
        r is Ok ==> {
            let value = le_value(
                old(processor).memory.spec_bytes(old(processor).stack_pointer - 2, 2),
            );
            let count = le_value(
                old(processor).memory.spec_bytes(old(processor).stack_pointer - 2 - 4, 4),
            );
            let start = le_value(
                old(processor).memory.spec_bytes(old(processor).stack_pointer - 2 - 8, 4),
            );
            &&& final(processor).stack_pointer == old(processor).stack_pointer - 10
            &&& (forall|w: int|
                0 <= w < count ==> le_value(
                    #[trigger] final(processor).memory.spec_bytes(start + w * 2, 2),
                ) == value)
            &&& (forall|j: int|
                0 <= j < final(processor).memory.spec_size() && !(start <= j < start + count
                    * 2) ==> final(processor).memory.spec_byte(j) == old(
                    processor,
                ).memory.spec_byte(j))
            &&& final(processor).memory.same_shape(&old(processor).memory)
            &&& final(processor).program == old(processor).program
            &&& final(processor).program_counter == old(processor).program_counter
            &&& final(processor).stack_size == old(processor).stack_size
            &&& final(processor).overflow_flag == old(processor).overflow_flag
        },
        r is Err && old(processor).stack_pointer < 10 ==> r == Result::<(), Action>::Err(
            Action::Panic("Stack underflow"),
        ) && *final(processor) == (Processor {
            stack_pointer: if old(processor).stack_pointer < 2 {
                old(processor).stack_pointer
            } else if old(processor).stack_pointer < 2 + 4 {
                (old(processor).stack_pointer - 2) as usize
            } else {
                (old(processor).stack_pointer - 2 - 4) as usize
            },
            ..*old(processor)
        }),
        r is Err && old(processor).stack_pointer >= 10 ==> {
            let count = le_value(
                old(processor).memory.spec_bytes(old(processor).stack_pointer - 2 - 4, 4),
            );
            let start = le_value(
                old(processor).memory.spec_bytes(old(processor).stack_pointer - 2 - 8, 4),
            );
            &&& r == Result::<(), Action>::Err(Action::Panic("Segmentation Fault"))
            &&& final(processor).stack_pointer == old(processor).stack_pointer - 10
            &&& final(processor).memory.same_shape(&old(processor).memory)
            &&& (forall|j: int|
                0 <= j < final(processor).memory.spec_size() && !(start <= j < start + count
                    * 2) ==> final(processor).memory.spec_byte(j) == old(
                    processor,
                ).memory.spec_byte(j))
            &&& final(processor).program == old(processor).program
            &&& final(processor).program_counter == old(processor).program_counter
            &&& final(processor).stack_size == old(processor).stack_size
            &&& final(processor).overflow_flag == old(processor).overflow_flag
        },
{
    let value = processor.pop_u16()?;
    let number_of_words = match processor.pop_u32() {
        Ok(v) => v as usize,
        Err(e) => {
            return Err(e);
        },
    };
    let start_pointer = match processor.pop_u32() {
        Ok(v) => v as usize,
        Err(e) => {
            return Err(e);
        },
    };

    let ghost m0 = processor.memory;
    let mut word: usize = 0;
    while word < number_of_words
        invariant
            processor.inv(),
            word <= number_of_words,
            number_of_words < 0x1_0000_0000,
            start_pointer < 0x1_0000_0000,
            m0 == old(processor).memory,
            value as nat == le_value(m0.spec_bytes(old(processor).stack_pointer - 2, 2)),
            number_of_words as nat == le_value(
                m0.spec_bytes(old(processor).stack_pointer - 2 - 4, 4),
            ),
            start_pointer as nat == le_value(
                m0.spec_bytes(old(processor).stack_pointer - 2 - 8, 4),
            ),
            processor.memory.same_shape(&m0),
            m0.inv(),
            processor.program == old(processor).program,
            processor.program_counter == old(processor).program_counter,
            processor.stack_size == old(processor).stack_size,
            processor.overflow_flag == old(processor).overflow_flag,
            processor.stack_pointer == old(processor).stack_pointer - 10,
            word > 0 ==> start_pointer + word * 2 <= processor.memory.spec_size(),
            forall|w: int|
                0 <= w < word ==> le_value(
                    #[trigger] processor.memory.spec_bytes(start_pointer + w * 2, 2),
                ) == value,
            forall|j: int|
                0 <= j < processor.memory.spec_size() && !(start_pointer <= j < start_pointer
                    + word * 2) ==> processor.memory.spec_byte(j) == m0.spec_byte(j),
        decreases number_of_words - word,
    {
        let ghost m_prev = processor.memory;
        let res = processor.memory.write_u16_at(start_pointer + word * 2, value);
        match res {
            Ok(_) => {},
            Err(e) => {
                proof {
                    lemma_region_bound(
                        start_pointer as int,
                        word as int,
                        number_of_words as int,
                        2,
                        processor.memory.spec_size(),
                    );
                    assert forall|j: int|
                        0 <= j < processor.memory.spec_size() && !(start_pointer <= j
                            < start_pointer + number_of_words * 2) implies processor
                        .memory
                        .spec_byte(j) == m0.spec_byte(j) by {
                        lemma_mul_le(word as int, number_of_words as int, 2);
                    }
                }
                return Err(e);
            },
        }
        proof {
            assert forall|w: int|
                0 <= w < word + 1 implies le_value(
                #[trigger] processor.memory.spec_bytes(start_pointer + w * 2, 2),
            ) == value by {
                if w < word {
                    lemma_words_disjoint(start_pointer as int, w, word as int, 2);
                    assert(processor.memory.spec_bytes(start_pointer + w * 2, 2)
                        =~= m_prev.spec_bytes(start_pointer + w * 2, 2));
                }
            }
            assert forall|j: int|
                0 <= j < processor.memory.spec_size() && !(start_pointer <= j < start_pointer + (
                word + 1) * 2) implies processor.memory.spec_byte(j) == m0.spec_byte(j) by {
                lemma_mul_le(word as int, word + 1, 2);
            }
            lemma_mul_le(word + 1, number_of_words as int, 2);
        }
        word = word + 1;
    }
    proof {
        assert forall|j: int|
            0 <= j < processor.memory.spec_size() && !(start_pointer <= j < start_pointer
                + number_of_words * 2) implies processor.memory.spec_byte(j) == m0.spec_byte(
            j,
        ) by {}
    }
    Ok(())
}

/// Fills a region of the memory with `count` copies of a ?32 value laid out
/// back to back from the start pointer. A region that runs past the end of
/// the memory faults; values written before the fault stay written.
///
/// Stack:
/// - u32  - The value to use to fill the memory.
/// - u32 - Number of words.
/// - u32 - Start pointer.
pub fn memory_fill_32(processor: &mut Processor) -> (r: Result<(), Action>)
    requires
        old(processor).inv(),
    ensures
        final(processor).inv(),
        ({
            let count = le_value(
                old(processor).memory.spec_bytes(old(processor).stack_pointer - 4 - 4, 4),
            );
            let start = le_value(
                old(processor).memory.spec_bytes(old(processor).stack_pointer - 4 - 8, 4),
            );
            r is Ok <==> old(processor).stack_pointer >= 12 && (count == 0 || start + count
                * 4 <= old(processor).memory.spec_size())
        }),
        r is Ok ==> {
            let value = le_value(
                old(processor).memory.spec_bytes(old(processor).stack_pointer - 4, 4),
            );
            let count = le_value(
                old(processor).memory.spec_bytes(old(processor).stack_pointer - 4 - 4, 4),
            );
            let start = le_value(
                old(processor).memory.spec_bytes(old(processor).stack_pointer - 4 - 8, 4),
            );
            &&& final(processor).stack_pointer == old(processor).stack_pointer - 12
            &&& (forall|w: int|
                0 <= w < count ==> le_value(
                    #[trigger] final(processor).memory.spec_bytes(start + w * 4, 4),
                ) == value)
            &&& (forall|j: int|
                0 <= j < final(processor).memory.spec_size() && !(start <= j < start + count
                    * 4) ==> final(processor).memory.spec_byte(j) == old(
                    processor,
                ).memory.spec_byte(j))
            &&& final(processor).memory.same_shape(&old(processor).memory)
            &&& final(processor).program == old(processor).program
            &&& final(processor).program_counter == old(processor).program_counter
            &&& final(processor).stack_size == old(processor).stack_size
            &&& final(processor).overflow_flag == old(processor).overflow_flag
        },
        r is Err && old(processor).stack_pointer < 12 ==> r == Result::<(), Action>::Err(
            Action::Panic("Stack underflow"),
        ) && *final(processor) == (Processor {
            stack_pointer: if old(processor).stack_pointer < 4 {
                old(processor).stack_pointer
            } else if old(processor).stack_pointer < 4 + 4 {
                (old(processor).stack_pointer - 4) as usize
            } else {
                (old(processor).stack_pointer - 4 - 4) as usize
            },
            ..*old(processor)
        }),
        r is Err && old(processor).stack_pointer >= 12 ==> {
            let count = le_value(
                old(processor).memory.spec_bytes(old(processor).stack_pointer - 4 - 4, 4),
            );
            let start = le_value(
                old(processor).memory.spec_bytes(old(processor).stack_pointer - 4 - 8, 4),
            );
            &&& r == Result::<(), Action>::Err(Action::Panic("Segmentation Fault"))
            &&& final(processor).stack_pointer == old(processor).stack_pointer - 12
            &&& final(processor).memory.same_shape(&old(processor).memory)
            &&& (forall|j: int|
                0 <= j < final(processor).memory.spec_size() && !(start <= j < start + count
                    * 4) ==> final(processor).memory.spec_byte(j) == old(
                    processor,
                ).memory.spec_byte(j))
            &&& final(processor).program == old(processor).program
            &&& final(processor).program_counter == old(processor).program_counter
            &&& final(processor).stack_size == old(processor).stack_size
            &&& final(processor).overflow_flag == old(processor).overflow_flag
        },
{
    let value = processor.pop_u32()?;
    let number_of_words = match processor.pop_u32() {
        Ok(v) => v as usize,
        Err(e) => {
            return Err(e);
        },
    };
    let start_pointer = match processor.pop_u32() {
        Ok(v) => v as usize,
        Err(e) => {
            return Err(e);
        },
    };

    let ghost m0 = processor.memory;
    let mut word: usize = 0;
    while word < number_of_words
        invariant
            processor.inv(),
            word <= number_of_words,
            number_of_words < 0x1_0000_0000,
            start_pointer < 0x1_0000_0000,
            m0 == old(processor).memory,
            value as nat == le_value(m0.spec_bytes(old(processor).stack_pointer - 4, 4)),
            number_of_words as nat == le_value(
                m0.spec_bytes(old(processor).stack_pointer - 4 - 4, 4),
            ),
            start_pointer as nat == le_value(
                m0.spec_bytes(old(processor).stack_pointer - 4 - 8, 4),
            ),
            processor.memory.same_shape(&m0),
            m0.inv(),
            processor.program == old(processor).program,
            processor.program_counter == old(processor).program_counter,
            processor.stack_size == old(processor).stack_size,
            processor.overflow_flag == old(processor).overflow_flag,
            processor.stack_pointer == old(processor).stack_pointer - 12,
            word > 0 ==> start_pointer + word * 4 <= processor.memory.spec_size(),
            forall|w: int|
                0 <= w < word ==> le_value(
                    #[trigger] processor.memory.spec_bytes(start_pointer + w * 4, 4),
                ) == value,
            forall|j: int|
                0 <= j < processor.memory.spec_size() && !(start_pointer <= j < start_pointer
                    + word * 4) ==> processor.memory.spec_byte(j) == m0.spec_byte(j),
        decreases number_of_words - word,
    {
        let ghost m_prev = processor.memory;
        let res = processor.memory.write_u32_at(start_pointer + word * 4, value);
        match res {
            Ok(_) => {},
            Err(e) => {
                proof {
                    lemma_region_bound(
                        start_pointer as int,
                        word as int,
                        number_of_words as int,
                        4,
                        processor.memory.spec_size(),
                    );
                    assert forall|j: int|
                        0 <= j < processor.memory.spec_size() && !(start_pointer <= j
                            < start_pointer + number_of_words * 4) implies processor
                        .memory
                        .spec_byte(j) == m0.spec_byte(j) by {
                        lemma_mul_le(word as int, number_of_words as int, 4);
                    }
                }
                return Err(e);
            },
        }
        proof {
            assert forall|w: int|
                0 <= w < word + 1 implies le_value(
                #[trigger] processor.memory.spec_bytes(start_pointer + w * 4, 4),
            ) == value by {
                if w < word {
                    lemma_words_disjoint(start_pointer as int, w, word as int, 4);
                    assert(processor.memory.spec_bytes(start_pointer + w * 4, 4)
                        =~= m_prev.spec_bytes(start_pointer + w * 4, 4));
                }
            }
            assert forall|j: int|
                0 <= j < processor.memory.spec_size() && !(start_pointer <= j < start_pointer + (
                word + 1) * 4) implies processor.memory.spec_byte(j) == m0.spec_byte(j) by {
                lemma_mul_le(word as int, word + 1, 4);
            }
            lemma_mul_le(word + 1, number_of_words as int, 4);
        }
        word = word + 1;
    }
    proof {
        assert forall|j: int|
            0 <= j < processor.memory.spec_size() && !(start_pointer <= j < start_pointer
                + number_of_words * 4) implies processor.memory.spec_byte(j) == m0.spec_byte(
            j,
        ) by {}
    }
    Ok(())
}

/// Fills a region of the memory with `count` copies of a ?64 value laid out
/// back to back from the start pointer. A region that runs past the end of
/// the memory faults; values written before the fault stay written.
///
/// Stack:
/// - u64  - The value to use to fill the memory.
/// - u32 - Number of words.
/// - u32 - Start pointer.
pub fn memory_fill_64(processor: &mut Processor) -> (r: Result<(), Action>)
    requires
        old(processor).inv(),
    ensures
        final(processor).inv(),
        ({
            let count = le_value(
                old(processor).memory.spec_bytes(old(processor).stack_pointer - 8 - 4, 4),
            );
            let start = le_value(
                old(processor).memory.spec_bytes(old(processor).stack_pointer - 8 - 8, 4),
            );
            r is Ok <==> old(processor).stack_pointer >= 16 && (count == 0 || start + count
                * 8 <= old(processor).memory.spec_size())
        }),
        r is Ok ==> {
            let value = le_value(
                old(processor).memory.spec_bytes(old(processor).stack_pointer - 8, 8),
            );
            let count = le_value(
                old(processor).memory.spec_bytes(old(processor).stack_pointer - 8 - 4, 4),
            );
            let start = le_value(
                old(processor).memory.spec_bytes(old(processor).stack_pointer - 8 - 8, 4),
            );
            &&& final(processor).stack_pointer == old(processor).stack_pointer - 16
            &&& (forall|w: int|
                0 <= w < count ==> le_value(
                    #[trigger] final(processor).memory.spec_bytes(start + w * 8, 8),
                ) == value)
            &&& (forall|j: int|
                0 <= j < final(processor).memory.spec_size() && !(start <= j < start + count
                    * 8) ==> final(processor).memory.spec_byte(j) == old(
                    processor,
                ).memory.spec_byte(j))
            &&& final(processor).memory.same_shape(&old(processor).memory)
            &&& final(processor).program == old(processor).program
            &&& final(processor).program_counter == old(processor).program_counter
            &&& final(processor).stack_size == old(processor).stack_size
            &&& final(processor).overflow_flag == old(processor).overflow_flag
        },
        r is Err && old(processor).stack_pointer < 16 ==> r == Result::<(), Action>::Err(
            Action::Panic("Stack underflow"),
        ) && *final(processor) == (Processor {
            stack_pointer: if old(processor).stack_pointer < 8 {
                old(processor).stack_pointer
            } else if old(processor).stack_pointer < 8 + 4 {
                (old(processor).stack_pointer - 8) as usize
            } else {
                (old(processor).stack_pointer - 8 - 4) as usize
            },
            ..*old(processor)
        }),
        r is Err && old(processor).stack_pointer >= 16 ==> {
            let count = le_value(
                old(processor).memory.spec_bytes(old(processor).stack_pointer - 8 - 4, 4),
            );
            let start = le_value(
                old(processor).memory.spec_bytes(old(processor).stack_pointer - 8 - 8, 4),
            );
            &&& r == Result::<(), Action>::Err(Action::Panic("Segmentation Fault"))
            &&& final(processor).stack_pointer == old(processor).stack_pointer - 16
            &&& final(processor).memory.same_shape(&old(processor).memory)
            &&& (forall|j: int|
                0 <= j < final(processor).memory.spec_size() && !(start <= j < start + count
                    * 8) ==> final(processor).memory.spec_byte(j) == old(
                    processor,
                ).memory.spec_byte(j))
            &&& final(processor).program == old(processor).program
            &&& final(processor).program_counter == old(processor).program_counter
            &&& final(processor).stack_size == old(processor).stack_size
            &&& final(processor).overflow_flag == old(processor).overflow_flag
        },
{
    let value = processor.pop_u64()?;
    let number_of_words = match processor.pop_u32() {
        Ok(v) => v as usize,
        Err(e) => {
            return Err(e);
        },
    };
    let start_pointer = match processor.pop_u32() {
        Ok(v) => v as usize,
        Err(e) => {
            return Err(e);
        },
    };

    let ghost m0 = processor.memory;
    let mut word: usize = 0;
    while word < number_of_words
        invariant
            processor.inv(),
            word <= number_of_words,
            number_of_words < 0x1_0000_0000,
            start_pointer < 0x1_0000_0000,
            m0 == old(processor).memory,
            value as nat == le_value(m0.spec_bytes(old(processor).stack_pointer - 8, 8)),
            number_of_words as nat == le_value(
                m0.spec_bytes(old(processor).stack_pointer - 8 - 4, 4),
            ),
            start_pointer as nat == le_value(
                m0.spec_bytes(old(processor).stack_pointer - 8 - 8, 4),
            ),
            processor.memory.same_shape(&m0),
            m0.inv(),
            processor.program == old(processor).program,
            processor.program_counter == old(processor).program_counter,
            processor.stack_size == old(processor).stack_size,
            processor.overflow_flag == old(processor).overflow_flag,
            processor.stack_pointer == old(processor).stack_pointer - 16,
            word > 0 ==> start_pointer + word * 8 <= processor.memory.spec_size(),
            forall|w: int|
                0 <= w < word ==> le_value(
                    #[trigger] processor.memory.spec_bytes(start_pointer + w * 8, 8),
                ) == value,
            forall|j: int|
                0 <= j < processor.memory.spec_size() && !(start_pointer <= j < start_pointer
                    + word * 8) ==> processor.memory.spec_byte(j) == m0.spec_byte(j),
        decreases number_of_words - word,
    {
        let ghost m_prev = processor.memory;
        let res = processor.memory.write_u64_at(start_pointer + word * 8, value);
        match res {
            Ok(_) => {},
            Err(e) => {
                proof {
                    lemma_region_bound(
                        start_pointer as int,
                        word as int,
                        number_of_words as int,
                        8,
                        processor.memory.spec_size(),
                    );
                    assert forall|j: int|
                        0 <= j < processor.memory.spec_size() && !(start_pointer <= j
                            < start_pointer + number_of_words * 8) implies processor
                        .memory
                        .spec_byte(j) == m0.spec_byte(j) by {
                        lemma_mul_le(word as int, number_of_words as int, 8);
                    }
                }
                return Err(e);
            },
        }
        proof {
            assert forall|w: int|
                0 <= w < word + 1 implies le_value(
                #[trigger] processor.memory.spec_bytes(start_pointer + w * 8, 8),
            ) == value by {
                if w < word {
                    lemma_words_disjoint(start_pointer as int, w, word as int, 8);
                    assert(processor.memory.spec_bytes(start_pointer + w * 8, 8)
                        =~= m_prev.spec_bytes(start_pointer + w * 8, 8));
                }
            }
            assert forall|j: int|
                0 <= j < processor.memory.spec_size() && !(start_pointer <= j < start_pointer + (
                word + 1) * 8) implies processor.memory.spec_byte(j) == m0.spec_byte(j) by {
                lemma_mul_le(word as int, word + 1, 8);
            }
            lemma_mul_le(word + 1, number_of_words as int, 8);
        }
        word = word + 1;
    }
    proof {
        assert forall|j: int|
            0 <= j < processor.memory.spec_size() && !(start_pointer <= j < start_pointer
                + number_of_words * 8) implies processor.memory.spec_byte(j) == m0.spec_byte(
            j,
        ) by {}
    }
    Ok(())
}

/// Copies `count` bytes from the origin region to the target region. The
/// copy direction is chosen so that overlapping regions still receive the
/// origin bytes as they were before the copy; equal pointers copy nothing.
///
/// Stack:
/// - u32 - Target pointer.
/// - u32 - Number of bytes.
/// - u32 - Origin pointer.
pub fn memory_copy(processor: &mut Processor) -> (r: Result<(), Action>)
    requires
        old(processor).inv(),
    ensures
        final(processor).inv(),
        ({
            let target = le_value(
                old(processor).memory.spec_bytes(old(processor).stack_pointer - 4, 4),
            );
            let count = le_value(
                old(processor).memory.spec_bytes(old(processor).stack_pointer - 8, 4),
            );
            let origin = le_value(
                old(processor).memory.spec_bytes(old(processor).stack_pointer - 12, 4),
            );
            r is Ok <==> old(processor).stack_pointer >= 12 && (origin == target || count == 0 || (
            origin + count <= old(processor).memory.spec_size() && target + count <= old(
                processor,
            ).memory.spec_size()))
        }),
        r is Ok ==> {
            let target = le_value(
                old(processor).memory.spec_bytes(old(processor).stack_pointer - 4, 4),
            );
            let count = le_value(
                old(processor).memory.spec_bytes(old(processor).stack_pointer - 8, 4),
            );
            let origin = le_value(
                old(processor).memory.spec_bytes(old(processor).stack_pointer - 12, 4),
            );
            &&& final(processor).stack_pointer == old(processor).stack_pointer - 12
            &&& (origin != target ==> forall|k: int|
                0 <= k < count ==> #[trigger] final(processor).memory.spec_byte(target + k) == old(
                    processor,
                ).memory.spec_byte(origin + k))
            &&& (forall|j: int|
                0 <= j < final(processor).memory.spec_size() && (origin == target || !(target <= j
                    < target + count)) ==> final(processor).memory.spec_byte(j) == old(
                    processor,
                ).memory.spec_byte(j))
            &&& final(processor).memory.same_shape(&old(processor).memory)
            &&& final(processor).program == old(processor).program
            &&& final(processor).program_counter == old(processor).program_counter
            &&& final(processor).stack_size == old(processor).stack_size
            &&& final(processor).overflow_flag == old(processor).overflow_flag
        },
        r is Err && old(processor).stack_pointer < 12 ==> r == Result::<(), Action>::Err(
            Action::Panic("Stack underflow"),
        ) && *final(processor) == (Processor {
            stack_pointer: if old(processor).stack_pointer < 4 {
                old(processor).stack_pointer
            } else if old(processor).stack_pointer < 8 {
                (old(processor).stack_pointer - 4) as usize
            } else {
                (old(processor).stack_pointer - 8) as usize
            },
            ..*old(processor)
        }),
        r is Err && old(processor).stack_pointer >= 12 ==> {
            let target = le_value(
                old(processor).memory.spec_bytes(old(processor).stack_pointer - 4, 4),
            );
            let count = le_value(
                old(processor).memory.spec_bytes(old(processor).stack_pointer - 8, 4),
            );
            &&& r == Result::<(), Action>::Err(Action::Panic("Segmentation Fault"))
            &&& final(processor).stack_pointer == old(processor).stack_pointer - 12
            &&& final(processor).memory.same_shape(&old(processor).memory)
            &&& (forall|j: int|
                0 <= j < final(processor).memory.spec_size() && !(target <= j < target + count)
                    ==> final(processor).memory.spec_byte(j) == old(processor).memory.spec_byte(j))
            &&& final(processor).program == old(processor).program
            &&& final(processor).program_counter == old(processor).program_counter
            &&& final(processor).stack_size == old(processor).stack_size
            &&& final(processor).overflow_flag == old(processor).overflow_flag
        },
{
    let target_pointer = processor.pop_u32()? as usize;
    let number_of_bytes = match processor.pop_u32() {
        Ok(v) => v as usize,
        Err(e) => {
            return Err(e);
        },
    };
    let origin_pointer = match processor.pop_u32() {
        Ok(v) => v as usize,
        Err(e) => {
            return Err(e);
        },
    };

    if origin_pointer == target_pointer {
        return Ok(());
    }

    let ghost m0 = processor.memory;

    if target_pointer < origin_pointer {
        let mut i: usize = 0;
        while i < number_of_bytes
            invariant
                processor.inv(),
                m0 == old(processor).memory,
                m0.inv(),
                i <= number_of_bytes,
                target_pointer < origin_pointer < 0x1_0000_0000u64,
                number_of_bytes < 0x1_0000_0000u64,
                target_pointer as nat == le_value(
                    m0.spec_bytes(old(processor).stack_pointer - 4, 4),
                ),
                number_of_bytes as nat == le_value(
                    m0.spec_bytes(old(processor).stack_pointer - 8, 4),
                ),
                origin_pointer as nat == le_value(
                    m0.spec_bytes(old(processor).stack_pointer - 12, 4),
                ),
                processor.memory.same_shape(&m0),
                processor.program == old(processor).program,
                processor.program_counter == old(processor).program_counter,
                processor.stack_size == old(processor).stack_size,
                processor.overflow_flag == old(processor).overflow_flag,
                processor.stack_pointer == old(processor).stack_pointer - 12,
                i > 0 ==> origin_pointer + i <= processor.memory.spec_size() && target_pointer + i
                    <= processor.memory.spec_size(),
                forall|k: int|
                    0 <= k < i ==> #[trigger] processor.memory.spec_byte(target_pointer + k)
                        == m0.spec_byte(origin_pointer + k),
                forall|j: int|
                    0 <= j < processor.memory.spec_size() && !(target_pointer <= j < target_pointer
                        + i) ==> processor.memory.spec_byte(j) == m0.spec_byte(j),
            decreases number_of_bytes - i,
        {
            let value = match processor.memory.read_u8_at(origin_pointer + i) {
                Ok(v) => v,
                Err(e) => {
                    return Err(e);
                },
            };
            proof {
                assert(le_value(processor.memory.spec_bytes(origin_pointer + i, 1))
                    == processor.memory.spec_byte(origin_pointer + i));
            }
            match processor.memory.write_u8_at(target_pointer + i, value) {
                Ok(_) => {},
                Err(e) => {
                    return Err(e);
                },
            }
            proof {
                assert(le_value(processor.memory.spec_bytes(target_pointer + i, 1))
                    == processor.memory.spec_byte(target_pointer + i));
            }
            i = i + 1;
        }
        Ok(())
    } else {
        if number_of_bytes > 0 {
            let size = processor.memory.size();
            if number_of_bytes > size || origin_pointer > size - number_of_bytes || target_pointer
                > size - number_of_bytes {
                return Err(Action::Panic("Segmentation Fault"));
            }
        }
        let mut i: usize = number_of_bytes;
        while i > 0
            invariant
                processor.inv(),
                m0 == old(processor).memory,
                m0.inv(),
                i <= number_of_bytes,
                origin_pointer < target_pointer < 0x1_0000_0000u64,
                number_of_bytes < 0x1_0000_0000u64,
                target_pointer as nat == le_value(
                    m0.spec_bytes(old(processor).stack_pointer - 4, 4),
                ),
                number_of_bytes as nat == le_value(
                    m0.spec_bytes(old(processor).stack_pointer - 8, 4),
                ),
                origin_pointer as nat == le_value(
                    m0.spec_bytes(old(processor).stack_pointer - 12, 4),
                ),
                number_of_bytes > 0 ==> origin_pointer + number_of_bytes <= m0.spec_size()
                    && target_pointer + number_of_bytes <= m0.spec_size(),
                processor.memory.same_shape(&m0),
                processor.program == old(processor).program,
                processor.program_counter == old(processor).program_counter,
                processor.stack_size == old(processor).stack_size,
                processor.overflow_flag == old(processor).overflow_flag,
                processor.stack_pointer == old(processor).stack_pointer - 12,
                forall|k: int|
                    i <= k < number_of_bytes ==> #[trigger] processor.memory.spec_byte(
                        target_pointer + k,
                    ) == m0.spec_byte(origin_pointer + k),
                forall|j: int|
                    0 <= j < processor.memory.spec_size() && !(target_pointer + i <= j
                        < target_pointer + number_of_bytes) ==> processor.memory.spec_byte(j)
                        == m0.spec_byte(j),
            decreases i,
        {
            let value = match processor.memory.read_u8_at(origin_pointer + (i - 1)) {
                Ok(v) => v,
                Err(e) => {
                    return Err(e);
                },
            };
            proof {
                assert(le_value(processor.memory.spec_bytes(origin_pointer + (i - 1), 1))
                    == processor.memory.spec_byte(origin_pointer + (i - 1)));
            }
            match processor.memory.write_u8_at(target_pointer + (i - 1), value) {
                Ok(_) => {},
                Err(e) => {
                    return Err(e);
                },
            }
            proof {
                assert(le_value(processor.memory.spec_bytes(target_pointer + (i - 1), 1))
                    == processor.memory.spec_byte(target_pointer + (i - 1)));
            }
            i = i - 1;
        }
        Ok(())
    }
}

/// Loads a ?8 memory value and pushes it on the stack.
///
/// Stack:
/// - u32 - Memory position.
/// + ?8 - Memory value.
pub fn memory_load_8(processor: &mut Processor) -> (r: Result<(), Action>)
    requires
        old(processor).inv(),
    ensures
        final(processor).inv(),
        ({
            let addr = le_value(
                old(processor).memory.spec_bytes(old(processor).stack_pointer - 4, 4),
            );
            r is Ok <==> old(processor).stack_pointer >= 4 && addr + 1 <= old(
                processor,
            ).memory.spec_size() && old(processor).stack_pointer - 4 + 1 <= old(
                processor,
            ).stack_size
        }),
        r is Ok ==> {
            let addr = le_value(
                old(processor).memory.spec_bytes(old(processor).stack_pointer - 4, 4),
            );
            &&& final(processor).stack_pointer == old(processor).stack_pointer - 4 + 1
            &&& le_value(
                final(processor).memory.spec_bytes(old(processor).stack_pointer - 4, 1),
            ) == le_value(old(processor).memory.spec_bytes(addr as int, 1))
            &&& final(processor).memory.same_shape(&old(processor).memory)
            &&& (forall|j: int|
                0 <= j < final(processor).memory.spec_size() && !(old(processor).stack_pointer - 4
                    <= j < old(processor).stack_pointer - 4 + 1) ==> final(processor).memory.spec_byte(j) == old(processor).memory.spec_byte(j))
            &&& final(processor).program == old(processor).program
            &&& final(processor).program_counter == old(processor).program_counter
            &&& final(processor).stack_size == old(processor).stack_size
            &&& final(processor).overflow_flag == old(processor).overflow_flag
        },
        r is Err && old(processor).stack_pointer < 4 ==> r == Result::<(), Action>::Err(
            Action::Panic("Stack underflow"),
        ) && *final(processor) == *old(processor),
        r is Err && old(processor).stack_pointer >= 4 ==> {
            let addr = le_value(
                old(processor).memory.spec_bytes(old(processor).stack_pointer - 4, 4),
            );
            &&& (if addr + 1 > old(processor).memory.spec_size() {
                r == Result::<(), Action>::Err(Action::Panic("Segmentation Fault"))
            } else {
                r == Result::<(), Action>::Err(Action::Panic("Stack overflow"))
            })
            &&& *final(processor) == (Processor {
                stack_pointer: (old(processor).stack_pointer - 4) as usize,
                ..*old(processor)
            })
        },
{
    let memory_position = processor.pop_u32()? as usize;
    let value = match processor.memory.read_u8_at(memory_position) {
        Ok(v) => v,
        Err(e) => {
            return Err(e);
        },
    };
    processor.push_u8(value)?;
    Ok(())
}

/// Loads a ?16 memory value and pushes it on the stack.
///
/// Stack:
/// - u32 - Memory position.
/// + ?16 - Memory value.
pub fn memory_load_16(processor: &mut Processor) -> (r: Result<(), Action>)
    requires
        old(processor).inv(),
    ensures
        final(processor).inv(),
        ({
            let addr = le_value(
                old(processor).memory.spec_bytes(old(processor).stack_pointer - 4, 4),
            );
            r is Ok <==> old(processor).stack_pointer >= 4 && addr + 2 <= old(
                processor,
            ).memory.spec_size() && old(processor).stack_pointer - 4 + 2 <= old(
                processor,
            ).stack_size
        }),
        r is Ok ==> {
            let addr = le_value(
                old(processor).memory.spec_bytes(old(processor).stack_pointer - 4, 4),
            );
            &&& final(processor).stack_pointer == old(processor).stack_pointer - 4 + 2
            &&& le_value(
                final(processor).memory.spec_bytes(old(processor).stack_pointer - 4, 2),
            ) == le_value(old(processor).memory.spec_bytes(addr as int, 2))
            &&& final(processor).memory.same_shape(&old(processor).memory)
            &&& (forall|j: int|
                0 <= j < final(processor).memory.spec_size() && !(old(processor).stack_pointer - 4
                    <= j < old(processor).stack_pointer - 4 + 2) ==> final(processor).memory.spec_byte(j) == old(processor).memory.spec_byte(j))
            &&& final(processor).program == old(processor).program
            &&& final(processor).program_counter == old(processor).program_counter
            &&& final(processor).stack_size == old(processor).stack_size
            &&& final(processor).overflow_flag == old(processor).overflow_flag
        },
        r is Err && old(processor).stack_pointer < 4 ==> r == Result::<(), Action>::Err(
            Action::Panic("Stack underflow"),
        ) && *final(processor) == *old(processor),
        r is Err && old(processor).stack_pointer >= 4 ==> {
            let addr = le_value(
                old(processor).memory.spec_bytes(old(processor).stack_pointer - 4, 4),
            );
            &&& (if addr + 2 > old(processor).memory.spec_size() {
                r == Result::<(), Action>::Err(Action::Panic("Segmentation Fault"))
            } else {
                r == Result::<(), Action>::Err(Action::Panic("Stack overflow"))
            })
            &&& *final(processor) == (Processor {
                stack_pointer: (old(processor).stack_pointer - 4) as usize,
                ..*old(processor)
            })
        },
{
    let memory_position = processor.pop_u32()? as usize;
    let value = match processor.memory.read_u16_at(memory_position) {
        Ok(v) => v,
        Err(e) => {
            return Err(e);
        },
    };
    processor.push_u16(value)?;
    Ok(())
}

/// Loads a ?32 memory value and pushes it on the stack.
///
/// Stack:
/// - u32 - Memory position.
/// + ?32 - Memory value.
pub fn memory_load_32(processor: &mut Processor) -> (r: Result<(), Action>)
    requires
        old(processor).inv(),
    ensures
        final(processor).inv(),
        ({
            let addr = le_value(
                old(processor).memory.spec_bytes(old(processor).stack_pointer - 4, 4),
            );
            r is Ok <==> old(processor).stack_pointer >= 4 && addr + 4 <= old(
                processor,
            ).memory.spec_size() && old(processor).stack_pointer - 4 + 4 <= old(
                processor,
            ).stack_size
        }),
        r is Ok ==> {
            let addr = le_value(
                old(processor).memory.spec_bytes(old(processor).stack_pointer - 4, 4),
            );
            &&& final(processor).stack_pointer == old(processor).stack_pointer - 4 + 4
            &&& le_value(
                final(processor).memory.spec_bytes(old(processor).stack_pointer - 4, 4),
            ) == le_value(old(processor).memory.spec_bytes(addr as int, 4))
            &&& final(processor).memory.same_shape(&old(processor).memory)
            &&& (forall|j: int|
                0 <= j < final(processor).memory.spec_size() && !(old(processor).stack_pointer - 4
                    <= j < old(processor).stack_pointer - 4 + 4) ==> final(processor).memory.spec_byte(j) == old(processor).memory.spec_byte(j))
            &&& final(processor).program == old(processor).program
            &&& final(processor).program_counter == old(processor).program_counter
            &&& final(processor).stack_size == old(processor).stack_size
            &&& final(processor).overflow_flag == old(processor).overflow_flag
        },
        r is Err && old(processor).stack_pointer < 4 ==> r == Result::<(), Action>::Err(
            Action::Panic("Stack underflow"),
        ) && *final(processor) == *old(processor),
        r is Err && old(processor).stack_pointer >= 4 ==> {
            let addr = le_value(
                old(processor).memory.spec_bytes(old(processor).stack_pointer - 4, 4),
            );
            &&& (if addr + 4 > old(processor).memory.spec_size() {
                r == Result::<(), Action>::Err(Action::Panic("Segmentation Fault"))
            } else {
                r == Result::<(), Action>::Err(Action::Panic("Stack overflow"))
            })
            &&& *final(processor) == (Processor {
                stack_pointer: (old(processor).stack_pointer - 4) as usize,
                ..*old(processor)
            })
        },
{
    let memory_position = processor.pop_u32()? as usize;
    let value = match processor.memory.read_u32_at(memory_position) {
        Ok(v) => v,
        Err(e) => {
            return Err(e);
        },
    };
    processor.push_u32(value)?;
    Ok(())
}

/// Loads a ?64 memory value and pushes it on the stack.
///
/// Stack:
/// - u32 - Memory position.
/// + ?64 - Memory value.
pub fn memory_load_64(processor: &mut Processor) -> (r: Result<(), Action>)
    requires
        old(processor).inv(),
    ensures
        final(processor).inv(),
        ({
            let addr = le_value(
                old(processor).memory.spec_bytes(old(processor).stack_pointer - 4, 4),
            );
            r is Ok <==> old(processor).stack_pointer >= 4 && addr + 8 <= old(
                processor,
            ).memory.spec_size() && old(processor).stack_pointer - 4 + 8 <= old(
                processor,
            ).stack_size
        }),
        r is Ok ==> {
            let addr = le_value(
                old(processor).memory.spec_bytes(old(processor).stack_pointer - 4, 4),
            );
            &&& final(processor).stack_pointer == old(processor).stack_pointer - 4 + 8
            &&& le_value(
                final(processor).memory.spec_bytes(old(processor).stack_pointer - 4, 8),
            ) == le_value(old(processor).memory.spec_bytes(addr as int, 8))
            &&& final(processor).memory.same_shape(&old(processor).memory)
            &&& (forall|j: int|
                0 <= j < final(processor).memory.spec_size() && !(old(processor).stack_pointer - 4
                    <= j < old(processor).stack_pointer - 4 + 8) ==> final(processor).memory.spec_byte(j) == old(processor).memory.spec_byte(j))
            &&& final(processor).program == old(processor).program
            &&& final(processor).program_counter == old(processor).program_counter
            &&& final(processor).stack_size == old(processor).stack_size
            &&& final(processor).overflow_flag == old(processor).overflow_flag
        },
        r is Err && old(processor).stack_pointer < 4 ==> r == Result::<(), Action>::Err(
            Action::Panic("Stack underflow"),
        ) && *final(processor) == *old(processor),
        r is Err && old(processor).stack_pointer >= 4 ==> {
            let addr = le_value(
                old(processor).memory.spec_bytes(old(processor).stack_pointer - 4, 4),
            );
            &&& (if addr + 8 > old(processor).memory.spec_size() {
                r == Result::<(), Action>::Err(Action::Panic("Segmentation Fault"))
            } else {
                r == Result::<(), Action>::Err(Action::Panic("Stack overflow"))
            })
            &&& *final(processor) == (Processor {
                stack_pointer: (old(processor).stack_pointer - 4) as usize,
                ..*old(processor)
            })
        },
{
    let memory_position = processor.pop_u32()? as usize;
    let value = match processor.memory.read_u64_at(memory_position) {
        Ok(v) => v,
        Err(e) => {
            return Err(e);
        },
    };
    processor.push_u64(value)?;
    Ok(())
}

/// Pops a ?8 value from the stack and stores it in memory.
///
/// Stack:
/// - ?8 - Value.
/// - u32 - Memory position.
pub fn memory_store_8(processor: &mut Processor) -> (r: Result<(), Action>)
    requires
        old(processor).inv(),
    ensures
        final(processor).inv(),
        ({
            let addr = le_value(
                old(processor).memory.spec_bytes(old(processor).stack_pointer - 1 - 4, 4),
            );
            r is Ok <==> old(processor).stack_pointer >= 5 && addr + 1 <= old(
                processor,
            ).memory.spec_size()
        }),
        r is Ok ==> {
            let value = le_value(
                old(processor).memory.spec_bytes(old(processor).stack_pointer - 1, 1),
            );
            let addr = le_value(
                old(processor).memory.spec_bytes(old(processor).stack_pointer - 1 - 4, 4),
            );
            &&& final(processor).stack_pointer == old(processor).stack_pointer - 5
            &&& le_value(final(processor).memory.spec_bytes(addr as int, 1)) == value
            &&& final(processor).memory.same_shape(&old(processor).memory)
            &&& (forall|j: int|
                0 <= j < final(processor).memory.spec_size() && !(addr <= j < addr + 1) ==>
                    final(processor).memory.spec_byte(j) == old(processor).memory.spec_byte(j))
            &&& final(processor).program == old(processor).program
            &&& final(processor).program_counter == old(processor).program_counter
            &&& final(processor).stack_size == old(processor).stack_size
            &&& final(processor).overflow_flag == old(processor).overflow_flag
        },
        r is Err && old(processor).stack_pointer < 5 ==> r == Result::<(), Action>::Err(
            Action::Panic("Stack underflow"),
        ) && *final(processor) == (Processor {
            stack_pointer: if old(processor).stack_pointer < 1 {
                old(processor).stack_pointer
            } else {
                (old(processor).stack_pointer - 1) as usize
            },
            ..*old(processor)
        }),
        r is Err && old(processor).stack_pointer >= 5 ==> r == Result::<(), Action>::Err(
            Action::Panic("Segmentation Fault"),
        ) && *final(processor) == (Processor {
            stack_pointer: (old(processor).stack_pointer - 5) as usize,
            ..*old(processor)
        }),
{
    let value = processor.pop_u8()?;
    let memory_position = match processor.pop_u32() {
        Ok(v) => v as usize,
        Err(e) => {
            return Err(e);
        },
    };
    match processor.memory.write_u8_at(memory_position, value) {
        Ok(_) => Ok(()),
        Err(e) => Err(e),
    }
}

/// Pops a ?16 value from the stack and stores it in memory.
///
/// Stack:
/// - ?16 - Value.
/// - u32 - Memory position.
pub fn memory_store_16(processor: &mut Processor) -> (r: Result<(), Action>)
    requires
        old(processor).inv(),
    ensures
        final(processor).inv(),
        ({
            let addr = le_value(
                old(processor).memory.spec_bytes(old(processor).stack_pointer - 2 - 4, 4),
            );
            r is Ok <==> old(processor).stack_pointer >= 6 && addr + 2 <= old(
                processor,
            ).memory.spec_size()
        }),
        r is Ok ==> {
            let value = le_value(
                old(processor).memory.spec_bytes(old(processor).stack_pointer - 2, 2),
            );
            let addr = le_value(
                old(processor).memory.spec_bytes(old(processor).stack_pointer - 2 - 4, 4),
            );
            &&& final(processor).stack_pointer == old(processor).stack_pointer - 6
            &&& le_value(final(processor).memory.spec_bytes(addr as int, 2)) == value
            &&& final(processor).memory.same_shape(&old(processor).memory)
            &&& (forall|j: int|
                0 <= j < final(processor).memory.spec_size() && !(addr <= j < addr + 2) ==>
                    final(processor).memory.spec_byte(j) == old(processor).memory.spec_byte(j))
            &&& final(processor).program == old(processor).program
            &&& final(processor).program_counter == old(processor).program_counter
            &&& final(processor).stack_size == old(processor).stack_size
            &&& final(processor).overflow_flag == old(processor).overflow_flag
        },
        r is Err && old(processor).stack_pointer < 6 ==> r == Result::<(), Action>::Err(
            Action::Panic("Stack underflow"),
        ) && *final(processor) == (Processor {
            stack_pointer: if old(processor).stack_pointer < 2 {
                old(processor).stack_pointer
            } else {
                (old(processor).stack_pointer - 2) as usize
            },
            ..*old(processor)
        }),
        r is Err && old(processor).stack_pointer >= 6 ==> r == Result::<(), Action>::Err(
            Action::Panic("Segmentation Fault"),
        ) && *final(processor) == (Processor {
            stack_pointer: (old(processor).stack_pointer - 6) as usize,
            ..*old(processor)
        }),
{
    let value = processor.pop_u16()?;
    let memory_position = match processor.pop_u32() {
        Ok(v) => v as usize,
        Err(e) => {
            return Err(e);
        },
    };
    match processor.memory.write_u16_at(memory_position, value) {
        Ok(_) => Ok(()),
        Err(e) => Err(e),
    }
}

/// Pops a ?32 value from the stack and stores it in memory.
///
/// Stack:
/// - ?32 - Value.
/// - u32 - Memory position.
pub fn memory_store_32(processor: &mut Processor) -> (r: Result<(), Action>)
    requires
        old(processor).inv(),
    ensures
        final(processor).inv(),
        ({
            let addr = le_value(
                old(processor).memory.spec_bytes(old(processor).stack_pointer - 4 - 4, 4),
            );
            r is Ok <==> old(processor).stack_pointer >= 8 && addr + 4 <= old(
                processor,
            ).memory.spec_size()
        }),
        r is Ok ==> {
            let value = le_value(
                old(processor).memory.spec_bytes(old(processor).stack_pointer - 4, 4),
            );
            let addr = le_value(
                old(processor).memory.spec_bytes(old(processor).stack_pointer - 4 - 4, 4),
            );
            &&& final(processor).stack_pointer == old(processor).stack_pointer - 8
            &&& le_value(final(processor).memory.spec_bytes(addr as int, 4)) == value
            &&& final(processor).memory.same_shape(&old(processor).memory)
            &&& (forall|j: int|
                0 <= j < final(processor).memory.spec_size() && !(addr <= j < addr + 4) ==>
                    final(processor).memory.spec_byte(j) == old(processor).memory.spec_byte(j))
            &&& final(processor).program == old(processor).program
            &&& final(processor).program_counter == old(processor).program_counter
            &&& final(processor).stack_size == old(processor).stack_size
            &&& final(processor).overflow_flag == old(processor).overflow_flag
        },
        r is Err && old(processor).stack_pointer < 8 ==> r == Result::<(), Action>::Err(
            Action::Panic("Stack underflow"),
        ) && *final(processor) == (Processor {
            stack_pointer: if old(processor).stack_pointer < 4 {
                old(processor).stack_pointer
            } else {
                (old(processor).stack_pointer - 4) as usize
            },
            ..*old(processor)
        }),
        r is Err && old(processor).stack_pointer >= 8 ==> r == Result::<(), Action>::Err(
            Action::Panic("Segmentation Fault"),
        ) && *final(processor) == (Processor {
            stack_pointer: (old(processor).stack_pointer - 8) as usize,
            ..*old(processor)
        }),
{
    let value = processor.pop_u32()?;
    let memory_position = match processor.pop_u32() {
        Ok(v) => v as usize,
        Err(e) => {
            return Err(e);
        },
    };
    match processor.memory.write_u32_at(memory_position, value) {
        Ok(_) => Ok(()),
        Err(e) => Err(e),
    }
}

/// Pops a ?64 value from the stack and stores it in memory.
///
/// Stack:
/// - ?64 - Value.
/// - u32 - Memory position.
pub fn memory_store_64(processor: &mut Processor) -> (r: Result<(), Action>)
    requires
        old(processor).inv(),
    ensures
        final(processor).inv(),
        ({
            let addr = le_value(
                old(processor).memory.spec_bytes(old(processor).stack_pointer - 8 - 4, 4),
            );
            r is Ok <==> old(processor).stack_pointer >= 12 && addr + 8 <= old(
                processor,
            ).memory.spec_size()
        }),
        r is Ok ==> {
            let value = le_value(
                old(processor).memory.spec_bytes(old(processor).stack_pointer - 8, 8),
            );
            let addr = le_value(
                old(processor).memory.spec_bytes(old(processor).stack_pointer - 8 - 4, 4),
            );
            &&& final(processor).stack_pointer == old(processor).stack_pointer - 12
            &&& le_value(final(processor).memory.spec_bytes(addr as int, 8)) == value
            &&& final(processor).memory.same_shape(&old(processor).memory)
            &&& (forall|j: int|
                0 <= j < final(processor).memory.spec_size() && !(addr <= j < addr + 8) ==>
                    final(processor).memory.spec_byte(j) == old(processor).memory.spec_byte(j))
            &&& final(processor).program == old(processor).program
            &&& final(processor).program_counter == old(processor).program_counter
            &&& final(processor).stack_size == old(processor).stack_size
            &&& final(processor).overflow_flag == old(processor).overflow_flag
        },
        r is Err && old(processor).stack_pointer < 12 ==> r == Result::<(), Action>::Err(
            Action::Panic("Stack underflow"),
        ) && *final(processor) == (Processor {
            stack_pointer: if old(processor).stack_pointer < 8 {
                old(processor).stack_pointer
            } else {
                (old(processor).stack_pointer - 8) as usize
            },
            ..*old(processor)
        }),
        r is Err && old(processor).stack_pointer >= 12 ==> r == Result::<(), Action>::Err(
            Action::Panic("Segmentation Fault"),
        ) && *final(processor) == (Processor {
            stack_pointer: (old(processor).stack_pointer - 12) as usize,
            ..*old(processor)
        }),
{
    let value = processor.pop_u64()?;
    let memory_position = match processor.pop_u32() {
        Ok(v) => v as usize,
        Err(e) => {
            return Err(e);
        },
    };
    match processor.memory.write_u64_at(memory_position, value) {
        Ok(_) => Ok(()),
        Err(e) => Err(e),
    }
}

/// Loads a ?8 value from the program's data section and pushes it on the
/// stack. Positions outside `[data_pointer, data_pointer_end)` fail with
/// `Panic("Data Segmentation Fault")`.
///
/// Stack:
/// - u32 - Memory position.
/// + ?8 - Program data value.
pub fn program_data_load_8(processor: &mut Processor) -> (r: Result<(), Action>)
    requires
        old(processor).inv(),
    ensures
        final(processor).inv(),
        ({
            let addr = le_value(
                old(processor).memory.spec_bytes(old(processor).stack_pointer - 4, 4),
            );
            r is Ok <==> old(processor).stack_pointer >= 4 && old(processor).program.data_pointer
                <= addr && addr + 1 <= old(processor).program.code_pointer && old(
                processor,
            ).stack_pointer - 4 + 1 <= old(processor).stack_size
        }),
        r is Ok ==> {
            let addr = le_value(
                old(processor).memory.spec_bytes(old(processor).stack_pointer - 4, 4),
            );
            &&& final(processor).stack_pointer == old(processor).stack_pointer - 4 + 1
            &&& le_value(
                final(processor).memory.spec_bytes(old(processor).stack_pointer - 4, 1),
            ) == le_value(old(processor).program.spec_bytes(addr as int, 1))
            &&& final(processor).memory.same_shape(&old(processor).memory)
            &&& (forall|j: int|
                0 <= j < final(processor).memory.spec_size() && !(old(processor).stack_pointer - 4
                    <= j < old(processor).stack_pointer - 4 + 1) ==> final(processor).memory.spec_byte(j) == old(processor).memory.spec_byte(j))
            &&& final(processor).program == old(processor).program
            &&& final(processor).program_counter == old(processor).program_counter
            &&& final(processor).stack_size == old(processor).stack_size
            &&& final(processor).overflow_flag == old(processor).overflow_flag
        },
        r is Err && old(processor).stack_pointer < 4 ==> r == Result::<(), Action>::Err(
            Action::Panic("Stack underflow"),
        ) && *final(processor) == *old(processor),
        r is Err && old(processor).stack_pointer >= 4 ==> {
            let addr = le_value(
                old(processor).memory.spec_bytes(old(processor).stack_pointer - 4, 4),
            );
            &&& (if addr < old(processor).program.data_pointer || addr + 1 > old(
                processor,
            ).program.code_pointer {
                r == Result::<(), Action>::Err(Action::Panic("Data Segmentation Fault"))
            } else {
                r == Result::<(), Action>::Err(Action::Panic("Stack overflow"))
            })
            &&& *final(processor) == (Processor {
                stack_pointer: (old(processor).stack_pointer - 4) as usize,
                ..*old(processor)
            })
        },
{
    let memory_position = processor.pop_u32()? as usize;
    let data_end = processor.program.data_pointer_end();
    if memory_position < processor.program.data_pointer() || data_end < 1 || memory_position
        > data_end - 1 {
        return Err(Action::Panic("Data Segmentation Fault"));
    }
    let value = match processor.program.read_u8_at(memory_position) {
        Ok(v) => v,
        Err(e) => {
            return Err(e);
        },
    };
    processor.push_u8(value)?;
    Ok(())
}

/// Loads a ?16 value from the program's data section and pushes it on the
/// stack. Positions outside `[data_pointer, data_pointer_end)` fail with
/// `Panic("Data Segmentation Fault")`.
///
/// Stack:
/// - u32 - Memory position.
/// + ?16 - Program data value.
pub fn program_data_load_16(processor: &mut Processor) -> (r: Result<(), Action>)
    requires
        old(processor).inv(),
    ensures
        final(processor).inv(),
        ({
            let addr = le_value(
                old(processor).memory.spec_bytes(old(processor).stack_pointer - 4, 4),
            );
            r is Ok <==> old(processor).stack_pointer >= 4 && old(processor).program.data_pointer
                <= addr && addr + 2 <= old(processor).program.code_pointer && old(
                processor,
            ).stack_pointer - 4 + 2 <= old(processor).stack_size
        }),
        r is Ok ==> {
            let addr = le_value(
                old(processor).memory.spec_bytes(old(processor).stack_pointer - 4, 4),
            );
            &&& final(processor).stack_pointer == old(processor).stack_pointer - 4 + 2
            &&& le_value(
                final(processor).memory.spec_bytes(old(processor).stack_pointer - 4, 2),
            ) == le_value(old(processor).program.spec_bytes(addr as int, 2))
            &&& final(processor).memory.same_shape(&old(processor).memory)
            &&& (forall|j: int|
                0 <= j < final(processor).memory.spec_size() && !(old(processor).stack_pointer - 4
                    <= j < old(processor).stack_pointer - 4 + 2) ==> final(processor).memory.spec_byte(j) == old(processor).memory.spec_byte(j))
            &&& final(processor).program == old(processor).program
            &&& final(processor).program_counter == old(processor).program_counter
            &&& final(processor).stack_size == old(processor).stack_size
            &&& final(processor).overflow_flag == old(processor).overflow_flag
        },
        r is Err && old(processor).stack_pointer < 4 ==> r == Result::<(), Action>::Err(
            Action::Panic("Stack underflow"),
        ) && *final(processor) == *old(processor),
        r is Err && old(processor).stack_pointer >= 4 ==> {
            let addr = le_value(
                old(processor).memory.spec_bytes(old(processor).stack_pointer - 4, 4),
            );
            &&& (if addr < old(processor).program.data_pointer || addr + 2 > old(
                processor,
            ).program.code_pointer {
                r == Result::<(), Action>::Err(Action::Panic("Data Segmentation Fault"))
            } else {
                r == Result::<(), Action>::Err(Action::Panic("Stack overflow"))
            })
            &&& *final(processor) == (Processor {
                stack_pointer: (old(processor).stack_pointer - 4) as usize,
                ..*old(processor)
            })
        },
{
    let memory_position = processor.pop_u32()? as usize;
    let data_end = processor.program.data_pointer_end();
    if memory_position < processor.program.data_pointer() || data_end < 2 || memory_position
        > data_end - 2 {
        return Err(Action::Panic("Data Segmentation Fault"));
    }
    let value = match processor.program.read_u16_at(memory_position) {
        Ok(v) => v,
        Err(e) => {
            return Err(e);
        },
    };
    processor.push_u16(value)?;
    Ok(())
}

/// Loads a ?32 value from the program's data section and pushes it on the
/// stack. Positions outside `[data_pointer, data_pointer_end)` fail with
/// `Panic("Data Segmentation Fault")`.
///
/// Stack:
/// - u32 - Memory position.
/// + ?32 - Program data value.
pub fn program_data_load_32(processor: &mut Processor) -> (r: Result<(), Action>)
    requires
        old(processor).inv(),
    ensures
        final(processor).inv(),
        ({
            let addr = le_value(
                old(processor).memory.spec_bytes(old(processor).stack_pointer - 4, 4),
            );
            r is Ok <==> old(processor).stack_pointer >= 4 && old(processor).program.data_pointer
                <= addr && addr + 4 <= old(processor).program.code_pointer && old(
                processor,
            ).stack_pointer - 4 + 4 <= old(processor).stack_size
        }),
        r is Ok ==> {
            let addr = le_value(
                old(processor).memory.spec_bytes(old(processor).stack_pointer - 4, 4),
            );
            &&& final(processor).stack_pointer == old(processor).stack_pointer - 4 + 4
            &&& le_value(
                final(processor).memory.spec_bytes(old(processor).stack_pointer - 4, 4),
            ) == le_value(old(processor).program.spec_bytes(addr as int, 4))
            &&& final(processor).memory.same_shape(&old(processor).memory)
            &&& (forall|j: int|
                0 <= j < final(processor).memory.spec_size() && !(old(processor).stack_pointer - 4
                    <= j < old(processor).stack_pointer - 4 + 4) ==> final(processor).memory.spec_byte(j) == old(processor).memory.spec_byte(j))
            &&& final(processor).program == old(processor).program
            &&& final(processor).program_counter == old(processor).program_counter
            &&& final(processor).stack_size == old(processor).stack_size
            &&& final(processor).overflow_flag == old(processor).overflow_flag
        },
        r is Err && old(processor).stack_pointer < 4 ==> r == Result::<(), Action>::Err(
            Action::Panic("Stack underflow"),
        ) && *final(processor) == *old(processor),
        r is Err && old(processor).stack_pointer >= 4 ==> {
            let addr = le_value(
                old(processor).memory.spec_bytes(old(processor).stack_pointer - 4, 4),
            );
            &&& (if addr < old(processor).program.data_pointer || addr + 4 > old(
                processor,
            ).program.code_pointer {
                r == Result::<(), Action>::Err(Action::Panic("Data Segmentation Fault"))
            } else {
                r == Result::<(), Action>::Err(Action::Panic("Stack overflow"))
            })
            &&& *final(processor) == (Processor {
                stack_pointer: (old(processor).stack_pointer - 4) as usize,
                ..*old(processor)
            })
        },
{
    let memory_position = processor.pop_u32()? as usize;
    let data_end = processor.program.data_pointer_end();
    if memory_position < processor.program.data_pointer() || data_end < 4 || memory_position
        > data_end - 4 {
        return Err(Action::Panic("Data Segmentation Fault"));
    }
    let value = match processor.program.read_u32_at(memory_position) {
        Ok(v) => v,
        Err(e) => {
            return Err(e);
        },
    };
    processor.push_u32(value)?;
    Ok(())
}

/// Loads a ?64 value from the program's data section and pushes it on the
/// stack. Positions outside `[data_pointer, data_pointer_end)` fail with
/// `Panic("Data Segmentation Fault")`.
///
/// Stack:
/// - u32 - Memory position.
/// + ?64 - Program data value.
pub fn program_data_load_64(processor: &mut Processor) -> (r: Result<(), Action>)
    requires
        old(processor).inv(),
    ensures
        final(processor).inv(),
        ({
            let addr = le_value(
                old(processor).memory.spec_bytes(old(processor).stack_pointer - 4, 4),
            );
            r is Ok <==> old(processor).stack_pointer >= 4 && old(processor).program.data_pointer
                <= addr && addr + 8 <= old(processor).program.code_pointer && old(
                processor,
            ).stack_pointer - 4 + 8 <= old(processor).stack_size
        }),
        r is Ok ==> {
            let addr = le_value(
                old(processor).memory.spec_bytes(old(processor).stack_pointer - 4, 4),
            );
            &&& final(processor).stack_pointer == old(processor).stack_pointer - 4 + 8
            &&& le_value(
                final(processor).memory.spec_bytes(old(processor).stack_pointer - 4, 8),
            ) == le_value(old(processor).program.spec_bytes(addr as int, 8))
            &&& final(processor).memory.same_shape(&old(processor).memory)
            &&& (forall|j: int|
                0 <= j < final(processor).memory.spec_size() && !(old(processor).stack_pointer - 4
                    <= j < old(processor).stack_pointer - 4 + 8) ==> final(processor).memory.spec_byte(j) == old(processor).memory.spec_byte(j))
            &&& final(processor).program == old(processor).program
            &&& final(processor).program_counter == old(processor).program_counter
            &&& final(processor).stack_size == old(processor).stack_size
            &&& final(processor).overflow_flag == old(processor).overflow_flag
        },
        r is Err && old(processor).stack_pointer < 4 ==> r == Result::<(), Action>::Err(
            Action::Panic("Stack underflow"),
        ) && *final(processor) == *old(processor),
        r is Err && old(processor).stack_pointer >= 4 ==> {
            let addr = le_value(
                old(processor).memory.spec_bytes(old(processor).stack_pointer - 4, 4),
            );
            &&& (if addr < old(processor).program.data_pointer || addr + 8 > old(
                processor,
            ).program.code_pointer {
                r == Result::<(), Action>::Err(Action::Panic("Data Segmentation Fault"))
            } else {
                r == Result::<(), Action>::Err(Action::Panic("Stack overflow"))
            })
            &&& *final(processor) == (Processor {
                stack_pointer: (old(processor).stack_pointer - 4) as usize,
                ..*old(processor)
            })
        },
{
    let memory_position = processor.pop_u32()? as usize;
    let data_end = processor.program.data_pointer_end();
    if memory_position < processor.program.data_pointer() || data_end < 8 || memory_position
        > data_end - 8 {
        return Err(Action::Panic("Data Segmentation Fault"));
    }
    let value = match processor.program.read_u64_at(memory_position) {
        Ok(v) => v,
        Err(e) => {
            return Err(e);
        },
    };
    processor.push_u64(value)?;
    Ok(())
}

/// Multiplying both sides of `a <= b` by a nonnegative `c` keeps the order.
proof fn lemma_mul_le(a: int, b: int, c: int)
    requires
        a <= b,
        0 <= c,
    ensures
        a * c <= b * c,
{
    vstd::arithmetic::mul::lemma_mul_inequality(a, b, c);
}

/// More pages than `usize` can count cannot fit the address space either.
proof fn lemma_pages_over_address_space(pages: int, len: int, ps: int)
    requires
        pages > usize::MAX,
        0 <= len,
        1 <= ps,
    ensures
        (len + pages) * ps > usize::MAX,
{
    lemma_mul_le(1, ps, len + pages);
    assert((len + pages) * 1 == len + pages) by (nonlinear_arith);
    assert((len + pages) * ps == ps * (len + pages)) by (nonlinear_arith);
    assert(ps * (len + pages) >= 1 * (len + pages)) by (nonlinear_arith)
        requires
            ps >= 1,
            len + pages >= 0,
    ;
    assert(1 * (len + pages) == len + pages) by (nonlinear_arith);
}

/// A word that runs past the end of the memory puts the whole region past
/// the end as well.
proof fn lemma_region_bound(start: int, word: int, count: int, nv: int, size: int)
    requires
        0 <= word < count,
        0 < nv,
        start + word * nv + nv > size,
    ensures
        start + count * nv > size,
{
    lemma_mul_le(word + 1, count, nv);
    assert((word + 1) * nv == word * nv + nv) by (nonlinear_arith);
}

/// Words of one fill never overlap: an earlier word ends before a later one
/// starts.
proof fn lemma_words_disjoint(start: int, w: int, word: int, nv: int)
    requires
        0 <= w < word,
        0 < nv,
    ensures
        start + w * nv + nv <= start + word * nv,
{
    lemma_mul_le(w + 1, word, nv);
    assert((w + 1) * nv == w * nv + nv) by (nonlinear_arith);
}

} // verus!
