//! Casting instructions: zero extension, sign extension and truncation of
//! the machine word on top of the stack.

use vstd::prelude::*;

use crate::sasm::action::Action;
use crate::sasm::bytes::{le_value, to_signed};
use crate::sasm::processor::Processor;

verus! {

/// Pops a ?8 value from the stack and pushes it zero-extended to u16.
///
/// Stack:
/// - ?8 - Input value.
/// + u16 - Output value.
pub fn extend_8_to_16(processor: &mut Processor) -> (r: Result<(), Action>)
    requires
        old(processor).inv(),
    ensures
        final(processor).inv(),
        r is Ok <==> old(processor).stack_pointer >= 1 && old(processor).stack_pointer - 1
            + 2 <= old(processor).stack_size,
        r is Ok ==> {
            &&& final(processor).stack_pointer == old(processor).stack_pointer - 1 + 2
            &&& le_value(
                final(processor).memory.spec_bytes(old(processor).stack_pointer - 1, 2),
            ) == le_value(
                old(processor).memory.spec_bytes(old(processor).stack_pointer - 1, 1),
            )
            &&& final(processor).memory.same_shape(&old(processor).memory)
            &&& (forall|j: int|
                0 <= j < final(processor).memory.spec_size() && !(old(processor).stack_pointer
                    - 1 <= j < old(processor).stack_pointer - 1 + 2) ==> final(processor).memory.spec_byte(j) == old(processor).memory.spec_byte(j))
            &&& final(processor).program == old(processor).program
            &&& final(processor).program_counter == old(processor).program_counter
            &&& final(processor).stack_size == old(processor).stack_size
            &&& final(processor).overflow_flag == old(processor).overflow_flag
        },
        r is Err && old(processor).stack_pointer < 1 ==> r == Result::<(), Action>::Err(
            Action::Panic("Stack underflow"),
        ) && *final(processor) == *old(processor),
        r is Err && old(processor).stack_pointer >= 1 ==> r == Result::<(), Action>::Err(
            Action::Panic("Stack overflow"),
        ) && *final(processor) == (Processor {
            stack_pointer: (old(processor).stack_pointer - 1) as usize,
            ..*old(processor)
        }),
{
    let input_value = processor.pop_u8()?;
    let output_value = input_value as u16;
    processor.push_u16(output_value)?;
    Ok(())
}

/// Pops a ?8 value from the stack and pushes it zero-extended to u32.
///
/// Stack:
/// - ?8 - Input value.
/// + u32 - Output value.
pub fn extend_8_to_32(processor: &mut Processor) -> (r: Result<(), Action>)
    requires
        old(processor).inv(),
    ensures
        final(processor).inv(),
        r is Ok <==> old(processor).stack_pointer >= 1 && old(processor).stack_pointer - 1
            + 4 <= old(processor).stack_size,
        r is Ok ==> {
            &&& final(processor).stack_pointer == old(processor).stack_pointer - 1 + 4
            &&& le_value(
                final(processor).memory.spec_bytes(old(processor).stack_pointer - 1, 4),
            ) == le_value(
                old(processor).memory.spec_bytes(old(processor).stack_pointer - 1, 1),
            )
            &&& final(processor).memory.same_shape(&old(processor).memory)
            &&& (forall|j: int|
                0 <= j < final(processor).memory.spec_size() && !(old(processor).stack_pointer
                    - 1 <= j < old(processor).stack_pointer - 1 + 4) ==> final(processor).memory.spec_byte(j) == old(processor).memory.spec_byte(j))
            &&& final(processor).program == old(processor).program
            &&& final(processor).program_counter == old(processor).program_counter
            &&& final(processor).stack_size == old(processor).stack_size
            &&& final(processor).overflow_flag == old(processor).overflow_flag
        },
        r is Err && old(processor).stack_pointer < 1 ==> r == Result::<(), Action>::Err(
            Action::Panic("Stack underflow"),
        ) && *final(processor) == *old(processor),
        r is Err && old(processor).stack_pointer >= 1 ==> r == Result::<(), Action>::Err(
            Action::Panic("Stack overflow"),
        ) && *final(processor) == (Processor {
            stack_pointer: (old(processor).stack_pointer - 1) as usize,
            ..*old(processor)
        }),
{
    let input_value = processor.pop_u8()?;
    let output_value = input_value as u32;
    processor.push_u32(output_value)?;
    Ok(())
}

/// Pops a ?16 value from the stack and pushes it zero-extended to u32.
///
/// Stack:
/// - ?16 - Input value.
/// + u32 - Output value.
pub fn extend_16_to_32(processor: &mut Processor) -> (r: Result<(), Action>)
    requires
        old(processor).inv(),
    ensures
        final(processor).inv(),
        r is Ok <==> old(processor).stack_pointer >= 2 && old(processor).stack_pointer - 2
            + 4 <= old(processor).stack_size,
        r is Ok ==> {
            &&& final(processor).stack_pointer == old(processor).stack_pointer - 2 + 4
            &&& le_value(
                final(processor).memory.spec_bytes(old(processor).stack_pointer - 2, 4),
            ) == le_value(
                old(processor).memory.spec_bytes(old(processor).stack_pointer - 2, 2),
            )
            &&& final(processor).memory.same_shape(&old(processor).memory)
            &&& (forall|j: int|
                0 <= j < final(processor).memory.spec_size() && !(old(processor).stack_pointer
                    - 2 <= j < old(processor).stack_pointer - 2 + 4) ==> final(processor).memory.spec_byte(j) == old(processor).memory.spec_byte(j))
            &&& final(processor).program == old(processor).program
            &&& final(processor).program_counter == old(processor).program_counter
            &&& final(processor).stack_size == old(processor).stack_size
            &&& final(processor).overflow_flag == old(processor).overflow_flag
        },
        r is Err && old(processor).stack_pointer < 2 ==> r == Result::<(), Action>::Err(
            Action::Panic("Stack underflow"),
        ) && *final(processor) == *old(processor),
        r is Err && old(processor).stack_pointer >= 2 ==> r == Result::<(), Action>::Err(
            Action::Panic("Stack overflow"),
        ) && *final(processor) == (Processor {
            stack_pointer: (old(processor).stack_pointer - 2) as usize,
            ..*old(processor)
        }),
{
    let input_value = processor.pop_u16()?;
    let output_value = input_value as u32;
    processor.push_u32(output_value)?;
    Ok(())
}

/// Pops a ?8 value from the stack and pushes it zero-extended to u64.
///
/// Stack:
/// - ?8 - Input value.
/// + u64 - Output value.
pub fn extend_8_to_64(processor: &mut Processor) -> (r: Result<(), Action>)
    requires
        old(processor).inv(),
    ensures
        final(processor).inv(),
        r is Ok <==> old(processor).stack_pointer >= 1 && old(processor).stack_pointer - 1
            + 8 <= old(processor).stack_size,
        r is Ok ==> {
            &&& final(processor).stack_pointer == old(processor).stack_pointer - 1 + 8
            &&& le_value(
                final(processor).memory.spec_bytes(old(processor).stack_pointer - 1, 8),
            ) == le_value(
                old(processor).memory.spec_bytes(old(processor).stack_pointer - 1, 1),
            )
            &&& final(processor).memory.same_shape(&old(processor).memory)
            &&& (forall|j: int|
                0 <= j < final(processor).memory.spec_size() && !(old(processor).stack_pointer
                    - 1 <= j < old(processor).stack_pointer - 1 + 8) ==> final(processor).memory.spec_byte(j) == old(processor).memory.spec_byte(j))
            &&& final(processor).program == old(processor).program
            &&& final(processor).program_counter == old(processor).program_counter
            &&& final(processor).stack_size == old(processor).stack_size
            &&& final(processor).overflow_flag == old(processor).overflow_flag
        },
        r is Err && old(processor).stack_pointer < 1 ==> r == Result::<(), Action>::Err(
            Action::Panic("Stack underflow"),
        ) && *final(processor) == *old(processor),
        r is Err && old(processor).stack_pointer >= 1 ==> r == Result::<(), Action>::Err(
            Action::Panic("Stack overflow"),
        ) && *final(processor) == (Processor {
            stack_pointer: (old(processor).stack_pointer - 1) as usize,
            ..*old(processor)
        }),
{
    let input_value = processor.pop_u8()?;
    let output_value = input_value as u64;
    processor.push_u64(output_value)?;
    Ok(())
}

/// Pops a ?16 value from the stack and pushes it zero-extended to u64.
///
/// Stack:
/// - ?16 - Input value.
/// + u64 - Output value.
pub fn extend_16_to_64(processor: &mut Processor) -> (r: Result<(), Action>)
    requires
        old(processor).inv(),
    ensures
        final(processor).inv(),
        r is Ok <==> old(processor).stack_pointer >= 2 && old(processor).stack_pointer - 2
            + 8 <= old(processor).stack_size,
        r is Ok ==> {
            &&& final(processor).stack_pointer == old(processor).stack_pointer - 2 + 8
            &&& le_value(
                final(processor).memory.spec_bytes(old(processor).stack_pointer - 2, 8),
            ) == le_value(
                old(processor).memory.spec_bytes(old(processor).stack_pointer - 2, 2),
            )
            &&& final(processor).memory.same_shape(&old(processor).memory)
            &&& (forall|j: int|
                0 <= j < final(processor).memory.spec_size() && !(old(processor).stack_pointer
                    - 2 <= j < old(processor).stack_pointer - 2 + 8) ==> final(processor).memory.spec_byte(j) == old(processor).memory.spec_byte(j))
            &&& final(processor).program == old(processor).program
            &&& final(processor).program_counter == old(processor).program_counter
            &&& final(processor).stack_size == old(processor).stack_size
            &&& final(processor).overflow_flag == old(processor).overflow_flag
        },
        r is Err && old(processor).stack_pointer < 2 ==> r == Result::<(), Action>::Err(
            Action::Panic("Stack underflow"),
        ) && *final(processor) == *old(processor),
        r is Err && old(processor).stack_pointer >= 2 ==> r == Result::<(), Action>::Err(
            Action::Panic("Stack overflow"),
        ) && *final(processor) == (Processor {
            stack_pointer: (old(processor).stack_pointer - 2) as usize,
            ..*old(processor)
        }),
{
    let input_value = processor.pop_u16()?;
    let output_value = input_value as u64;
    processor.push_u64(output_value)?;
    Ok(())
}

/// Pops a ?32 value from the stack and pushes it zero-extended to u64.
///
/// Stack:
/// - ?32 - Input value.
/// + u64 - Output value.
pub fn extend_32_to_64(processor: &mut Processor) -> (r: Result<(), Action>)
    requires
        old(processor).inv(),
    ensures
        final(processor).inv(),
        r is Ok <==> old(processor).stack_pointer >= 4 && old(processor).stack_pointer - 4
            + 8 <= old(processor).stack_size,
        r is Ok ==> {
            &&& final(processor).stack_pointer == old(processor).stack_pointer - 4 + 8
            &&& le_value(
                final(processor).memory.spec_bytes(old(processor).stack_pointer - 4, 8),
            ) == le_value(
                old(processor).memory.spec_bytes(old(processor).stack_pointer - 4, 4),
            )
            &&& final(processor).memory.same_shape(&old(processor).memory)
            &&& (forall|j: int|
                0 <= j < final(processor).memory.spec_size() && !(old(processor).stack_pointer
                    - 4 <= j < old(processor).stack_pointer - 4 + 8) ==> final(processor).memory.spec_byte(j) == old(processor).memory.spec_byte(j))
            &&& final(processor).program == old(processor).program
            &&& final(processor).program_counter == old(processor).program_counter
            &&& final(processor).stack_size == old(processor).stack_size
            &&& final(processor).overflow_flag == old(processor).overflow_flag
        },
        r is Err && old(processor).stack_pointer < 4 ==> r == Result::<(), Action>::Err(
            Action::Panic("Stack underflow"),
        ) && *final(processor) == *old(processor),
        r is Err && old(processor).stack_pointer >= 4 ==> r == Result::<(), Action>::Err(
            Action::Panic("Stack overflow"),
        ) && *final(processor) == (Processor {
            stack_pointer: (old(processor).stack_pointer - 4) as usize,
            ..*old(processor)
        }),
{
    let input_value = processor.pop_u32()?;
    let output_value = input_value as u64;
    processor.push_u64(output_value)?;
    Ok(())
}

/// Pops a ?8 value from the stack and pushes it sign-extended to i16.
///
/// Stack:
/// - ?8 - Input value.
/// + i16 - Output value.
pub fn extend_sign_8_to_16(processor: &mut Processor) -> (r: Result<(), Action>)
    requires
        old(processor).inv(),
    ensures
        final(processor).inv(),
        r is Ok <==> old(processor).stack_pointer >= 1 && old(processor).stack_pointer - 1
            + 2 <= old(processor).stack_size,
        r is Ok ==> {
            &&& final(processor).stack_pointer == old(processor).stack_pointer - 1 + 2
            &&& to_signed(
                le_value(
                    final(processor).memory.spec_bytes(old(processor).stack_pointer - 1, 2),
                ),
                2,
            ) == to_signed(
                le_value(
                    old(processor).memory.spec_bytes(old(processor).stack_pointer - 1, 1),
                ),
                1,
            )
            &&& final(processor).memory.same_shape(&old(processor).memory)
            &&& (forall|j: int|
                0 <= j < final(processor).memory.spec_size() && !(old(processor).stack_pointer
                    - 1 <= j < old(processor).stack_pointer - 1 + 2) ==> final(processor).memory.spec_byte(j) == old(processor).memory.spec_byte(j))
            &&& final(processor).program == old(processor).program
            &&& final(processor).program_counter == old(processor).program_counter
            &&& final(processor).stack_size == old(processor).stack_size
            &&& final(processor).overflow_flag == old(processor).overflow_flag
        },
        r is Err && old(processor).stack_pointer < 1 ==> r == Result::<(), Action>::Err(
            Action::Panic("Stack underflow"),
        ) && *final(processor) == *old(processor),
        r is Err && old(processor).stack_pointer >= 1 ==> r == Result::<(), Action>::Err(
            Action::Panic("Stack overflow"),
        ) && *final(processor) == (Processor {
            stack_pointer: (old(processor).stack_pointer - 1) as usize,
            ..*old(processor)
        }),
{
    let input_value = processor.pop_i8()?;
    let output_value = input_value as i16;
    processor.push_i16(output_value)?;
    Ok(())
}

/// Pops a ?8 value from the stack and pushes it sign-extended to i32.
///
/// Stack:
/// - ?8 - Input value.
/// + i32 - Output value.
pub fn extend_sign_8_to_32(processor: &mut Processor) -> (r: Result<(), Action>)
    requires
        old(processor).inv(),
    ensures
        final(processor).inv(),
        r is Ok <==> old(processor).stack_pointer >= 1 && old(processor).stack_pointer - 1
            + 4 <= old(processor).stack_size,
        r is Ok ==> {
            &&& final(processor).stack_pointer == old(processor).stack_pointer - 1 + 4
            &&& to_signed(
                le_value(
                    final(processor).memory.spec_bytes(old(processor).stack_pointer - 1, 4),
                ),
                4,
            ) == to_signed(
                le_value(
                    old(processor).memory.spec_bytes(old(processor).stack_pointer - 1, 1),
                ),
                1,
            )
            &&& final(processor).memory.same_shape(&old(processor).memory)
            &&& (forall|j: int|
                0 <= j < final(processor).memory.spec_size() && !(old(processor).stack_pointer
                    - 1 <= j < old(processor).stack_pointer - 1 + 4) ==> final(processor).memory.spec_byte(j) == old(processor).memory.spec_byte(j))
            &&& final(processor).program == old(processor).program
            &&& final(processor).program_counter == old(processor).program_counter
            &&& final(processor).stack_size == old(processor).stack_size
            &&& final(processor).overflow_flag == old(processor).overflow_flag
        },
        r is Err && old(processor).stack_pointer < 1 ==> r == Result::<(), Action>::Err(
            Action::Panic("Stack underflow"),
        ) && *final(processor) == *old(processor),
        r is Err && old(processor).stack_pointer >= 1 ==> r == Result::<(), Action>::Err(
            Action::Panic("Stack overflow"),
        ) && *final(processor) == (Processor {
            stack_pointer: (old(processor).stack_pointer - 1) as usize,
            ..*old(processor)
        }),
{
    let input_value = processor.pop_i8()?;
    let output_value = input_value as i32;
    processor.push_i32(output_value)?;
    Ok(())
}

/// Pops a ?16 value from the stack and pushes it sign-extended to i32.
///
/// Stack:
/// - ?16 - Input value.
/// + i32 - Output value.
pub fn extend_sign_16_to_32(processor: &mut Processor) -> (r: Result<(), Action>)
    requires
        old(processor).inv(),
    ensures
        final(processor).inv(),
        r is Ok <==> old(processor).stack_pointer >= 2 && old(processor).stack_pointer - 2
            + 4 <= old(processor).stack_size,
        r is Ok ==> {
            &&& final(processor).stack_pointer == old(processor).stack_pointer - 2 + 4
            &&& to_signed(
                le_value(
                    final(processor).memory.spec_bytes(old(processor).stack_pointer - 2, 4),
                ),
                4,
            ) == to_signed(
                le_value(
                    old(processor).memory.spec_bytes(old(processor).stack_pointer - 2, 2),
                ),
                2,
            )
            &&& final(processor).memory.same_shape(&old(processor).memory)
            &&& (forall|j: int|
                0 <= j < final(processor).memory.spec_size() && !(old(processor).stack_pointer
                    - 2 <= j < old(processor).stack_pointer - 2 + 4) ==> final(processor).memory.spec_byte(j) == old(processor).memory.spec_byte(j))
            &&& final(processor).program == old(processor).program
            &&& final(processor).program_counter == old(processor).program_counter
            &&& final(processor).stack_size == old(processor).stack_size
            &&& final(processor).overflow_flag == old(processor).overflow_flag
        },
        r is Err && old(processor).stack_pointer < 2 ==> r == Result::<(), Action>::Err(
            Action::Panic("Stack underflow"),
        ) && *final(processor) == *old(processor),
        r is Err && old(processor).stack_pointer >= 2 ==> r == Result::<(), Action>::Err(
            Action::Panic("Stack overflow"),
        ) && *final(processor) == (Processor {
            stack_pointer: (old(processor).stack_pointer - 2) as usize,
            ..*old(processor)
        }),
{
    let input_value = processor.pop_i16()?;
    let output_value = input_value as i32;
    processor.push_i32(output_value)?;
    Ok(())
}

/// Pops a ?8 value from the stack and pushes it sign-extended to i64.
///
/// Stack:
/// - ?8 - Input value.
/// + i64 - Output value.
pub fn extend_sign_8_to_64(processor: &mut Processor) -> (r: Result<(), Action>)
    requires
        old(processor).inv(),
    ensures
        final(processor).inv(),
        r is Ok <==> old(processor).stack_pointer >= 1 && old(processor).stack_pointer - 1
            + 8 <= old(processor).stack_size,
        r is Ok ==> {
            &&& final(processor).stack_pointer == old(processor).stack_pointer - 1 + 8
            &&& to_signed(
                le_value(
                    final(processor).memory.spec_bytes(old(processor).stack_pointer - 1, 8),
                ),
                8,
            ) == to_signed(
                le_value(
                    old(processor).memory.spec_bytes(old(processor).stack_pointer - 1, 1),
                ),
                1,
            )
            &&& final(processor).memory.same_shape(&old(processor).memory)
            &&& (forall|j: int|
                0 <= j < final(processor).memory.spec_size() && !(old(processor).stack_pointer
                    - 1 <= j < old(processor).stack_pointer - 1 + 8) ==> final(processor).memory.spec_byte(j) == old(processor).memory.spec_byte(j))
            &&& final(processor).program == old(processor).program
            &&& final(processor).program_counter == old(processor).program_counter
            &&& final(processor).stack_size == old(processor).stack_size
            &&& final(processor).overflow_flag == old(processor).overflow_flag
        },
        r is Err && old(processor).stack_pointer < 1 ==> r == Result::<(), Action>::Err(
            Action::Panic("Stack underflow"),
        ) && *final(processor) == *old(processor),
        r is Err && old(processor).stack_pointer >= 1 ==> r == Result::<(), Action>::Err(
            Action::Panic("Stack overflow"),
        ) && *final(processor) == (Processor {
            stack_pointer: (old(processor).stack_pointer - 1) as usize,
            ..*old(processor)
        }),
{
    let input_value = processor.pop_i8()?;
    let output_value = input_value as i64;
    processor.push_i64(output_value)?;
    Ok(())
}

/// Pops a ?16 value from the stack and pushes it sign-extended to i64.
///
/// Stack:
/// - ?16 - Input value.
/// + i64 - Output value.
pub fn extend_sign_16_to_64(processor: &mut Processor) -> (r: Result<(), Action>)
    requires
        old(processor).inv(),
    ensures
        final(processor).inv(),
        r is Ok <==> old(processor).stack_pointer >= 2 && old(processor).stack_pointer - 2
            + 8 <= old(processor).stack_size,
        r is Ok ==> {
            &&& final(processor).stack_pointer == old(processor).stack_pointer - 2 + 8
            &&& to_signed(
                le_value(
                    final(processor).memory.spec_bytes(old(processor).stack_pointer - 2, 8),
                ),
                8,
            ) == to_signed(
                le_value(
                    old(processor).memory.spec_bytes(old(processor).stack_pointer - 2, 2),
                ),
                2,
            )
            &&& final(processor).memory.same_shape(&old(processor).memory)
            &&& (forall|j: int|
                0 <= j < final(processor).memory.spec_size() && !(old(processor).stack_pointer
                    - 2 <= j < old(processor).stack_pointer - 2 + 8) ==> final(processor).memory.spec_byte(j) == old(processor).memory.spec_byte(j))
            &&& final(processor).program == old(processor).program
            &&& final(processor).program_counter == old(processor).program_counter
            &&& final(processor).stack_size == old(processor).stack_size
            &&& final(processor).overflow_flag == old(processor).overflow_flag
        },
        r is Err && old(processor).stack_pointer < 2 ==> r == Result::<(), Action>::Err(
            Action::Panic("Stack underflow"),
        ) && *final(processor) == *old(processor),
        r is Err && old(processor).stack_pointer >= 2 ==> r == Result::<(), Action>::Err(
            Action::Panic("Stack overflow"),
        ) && *final(processor) == (Processor {
            stack_pointer: (old(processor).stack_pointer - 2) as usize,
            ..*old(processor)
        }),
{
    let input_value = processor.pop_i16()?;
    let output_value = input_value as i64;
    processor.push_i64(output_value)?;
    Ok(())
}

/// Pops a ?32 value from the stack and pushes it sign-extended to i64.
///
/// Stack:
/// - ?32 - Input value.
/// + i64 - Output value.
pub fn extend_sign_32_to_64(processor: &mut Processor) -> (r: Result<(), Action>)
    requires
        old(processor).inv(),
    ensures
        final(processor).inv(),
        r is Ok <==> old(processor).stack_pointer >= 4 && old(processor).stack_pointer - 4
            + 8 <= old(processor).stack_size,
        r is Ok ==> {
            &&& final(processor).stack_pointer == old(processor).stack_pointer - 4 + 8
            &&& to_signed(
                le_value(
                    final(processor).memory.spec_bytes(old(processor).stack_pointer - 4, 8),
                ),
                8,
            ) == to_signed(
                le_value(
                    old(processor).memory.spec_bytes(old(processor).stack_pointer - 4, 4),
                ),
                4,
            )
            &&& final(processor).memory.same_shape(&old(processor).memory)
            &&& (forall|j: int|
                0 <= j < final(processor).memory.spec_size() && !(old(processor).stack_pointer
                    - 4 <= j < old(processor).stack_pointer - 4 + 8) ==> final(processor).memory.spec_byte(j) == old(processor).memory.spec_byte(j))
            &&& final(processor).program == old(processor).program
            &&& final(processor).program_counter == old(processor).program_counter
            &&& final(processor).stack_size == old(processor).stack_size
            &&& final(processor).overflow_flag == old(processor).overflow_flag
        },
        r is Err && old(processor).stack_pointer < 4 ==> r == Result::<(), Action>::Err(
            Action::Panic("Stack underflow"),
        ) && *final(processor) == *old(processor),
        r is Err && old(processor).stack_pointer >= 4 ==> r == Result::<(), Action>::Err(
            Action::Panic("Stack overflow"),
        ) && *final(processor) == (Processor {
            stack_pointer: (old(processor).stack_pointer - 4) as usize,
            ..*old(processor)
        }),
{
    let input_value = processor.pop_i32()?;
    let output_value = input_value as i64;
    processor.push_i64(output_value)?;
    Ok(())
}

/// Pops a ?16 value from the stack and pushes its low-order 1 bytes:
/// the little-endian encoding keeps its least significant part.
///
/// Stack:
/// - ?16 - Input value.
/// + ?8 - Output value.
pub fn trunc_16_to_8(processor: &mut Processor) -> (r: Result<(), Action>)
    requires
        old(processor).inv(),
    ensures
        final(processor).inv(),
        r is Ok <==> old(processor).stack_pointer >= 2,
        r is Ok ==> {
            &&& final(processor).stack_pointer == old(processor).stack_pointer - 2 + 1
            &&& le_value(
                final(processor).memory.spec_bytes(old(processor).stack_pointer - 2, 1),
            ) == le_value(
                old(processor).memory.spec_bytes(old(processor).stack_pointer - 2, 2),
            ) % 0x100
            &&& final(processor).memory.same_shape(&old(processor).memory)
            &&& (forall|j: int|
                0 <= j < final(processor).memory.spec_size() && !(old(processor).stack_pointer
                    - 2 <= j < old(processor).stack_pointer - 2 + 1) ==> final(processor).memory.spec_byte(j) == old(processor).memory.spec_byte(j))
            &&& final(processor).program == old(processor).program
            &&& final(processor).program_counter == old(processor).program_counter
            &&& final(processor).stack_size == old(processor).stack_size
            &&& final(processor).overflow_flag == old(processor).overflow_flag
        },
        r is Err ==> r == Result::<(), Action>::Err(Action::Panic("Stack underflow")) && *final(processor) == *old(processor),
{
    let input_value = processor.pop_u16()?;
    let output_value = (input_value % 0x100) as u8;
    let pushed = processor.push_u8(output_value);
    proof {
        assert(pushed is Ok);
    }
    Ok(())
}

/// Pops a ?32 value from the stack and pushes its low-order 1 bytes:
/// the little-endian encoding keeps its least significant part.
///
/// Stack:
/// - ?32 - Input value.
/// + ?8 - Output value.
pub fn trunc_32_to_8(processor: &mut Processor) -> (r: Result<(), Action>)
    requires
        old(processor).inv(),
    ensures
        final(processor).inv(),
        r is Ok <==> old(processor).stack_pointer >= 4,
        r is Ok ==> {
            &&& final(processor).stack_pointer == old(processor).stack_pointer - 4 + 1
            &&& le_value(
                final(processor).memory.spec_bytes(old(processor).stack_pointer - 4, 1),
            ) == le_value(
                old(processor).memory.spec_bytes(old(processor).stack_pointer - 4, 4),
            ) % 0x100
            &&& final(processor).memory.same_shape(&old(processor).memory)
            &&& (forall|j: int|
                0 <= j < final(processor).memory.spec_size() && !(old(processor).stack_pointer
                    - 4 <= j < old(processor).stack_pointer - 4 + 1) ==> final(processor).memory.spec_byte(j) == old(processor).memory.spec_byte(j))
            &&& final(processor).program == old(processor).program
            &&& final(processor).program_counter == old(processor).program_counter
            &&& final(processor).stack_size == old(processor).stack_size
            &&& final(processor).overflow_flag == old(processor).overflow_flag
        },
        r is Err ==> r == Result::<(), Action>::Err(Action::Panic("Stack underflow")) && *final(processor) == *old(processor),
{
    let input_value = processor.pop_u32()?;
    let output_value = (input_value % 0x100) as u8;
    let pushed = processor.push_u8(output_value);
    proof {
        assert(pushed is Ok);
    }
    Ok(())
}

/// Pops a ?32 value from the stack and pushes its low-order 2 bytes:
/// the little-endian encoding keeps its least significant part.
///
/// Stack:
/// - ?32 - Input value.
/// + ?16 - Output value.
pub fn trunc_32_to_16(processor: &mut Processor) -> (r: Result<(), Action>)
    requires
        old(processor).inv(),
    ensures
        final(processor).inv(),
        r is Ok <==> old(processor).stack_pointer >= 4,
        r is Ok ==> {
            &&& final(processor).stack_pointer == old(processor).stack_pointer - 4 + 2
            &&& le_value(
                final(processor).memory.spec_bytes(old(processor).stack_pointer - 4, 2),
            ) == le_value(
                old(processor).memory.spec_bytes(old(processor).stack_pointer - 4, 4),
            ) % 0x1_0000
            &&& final(processor).memory.same_shape(&old(processor).memory)
            &&& (forall|j: int|
                0 <= j < final(processor).memory.spec_size() && !(old(processor).stack_pointer
                    - 4 <= j < old(processor).stack_pointer - 4 + 2) ==> final(processor).memory.spec_byte(j) == old(processor).memory.spec_byte(j))
            &&& final(processor).program == old(processor).program
            &&& final(processor).program_counter == old(processor).program_counter
            &&& final(processor).stack_size == old(processor).stack_size
            &&& final(processor).overflow_flag == old(processor).overflow_flag
        },
        r is Err ==> r == Result::<(), Action>::Err(Action::Panic("Stack underflow")) && *final(processor) == *old(processor),
{
    let input_value = processor.pop_u32()?;
    let output_value = (input_value % 0x1_0000) as u16;
    let pushed = processor.push_u16(output_value);
    proof {
        assert(pushed is Ok);
    }
    Ok(())
}

/// Pops a ?64 value from the stack and pushes its low-order 1 bytes:
/// the little-endian encoding keeps its least significant part.
///
/// Stack:
/// - ?64 - Input value.
/// + ?8 - Output value.
pub fn trunc_64_to_8(processor: &mut Processor) -> (r: Result<(), Action>)
    requires
        old(processor).inv(),
    ensures
        final(processor).inv(),
        r is Ok <==> old(processor).stack_pointer >= 8,
        r is Ok ==> {
            &&& final(processor).stack_pointer == old(processor).stack_pointer - 8 + 1
            &&& le_value(
                final(processor).memory.spec_bytes(old(processor).stack_pointer - 8, 1),
            ) == le_value(
                old(processor).memory.spec_bytes(old(processor).stack_pointer - 8, 8),
            ) % 0x100
            &&& final(processor).memory.same_shape(&old(processor).memory)
            &&& (forall|j: int|
                0 <= j < final(processor).memory.spec_size() && !(old(processor).stack_pointer
                    - 8 <= j < old(processor).stack_pointer - 8 + 1) ==> final(processor).memory.spec_byte(j) == old(processor).memory.spec_byte(j))
            &&& final(processor).program == old(processor).program
            &&& final(processor).program_counter == old(processor).program_counter
            &&& final(processor).stack_size == old(processor).stack_size
            &&& final(processor).overflow_flag == old(processor).overflow_flag
        },
        r is Err ==> r == Result::<(), Action>::Err(Action::Panic("Stack underflow")) && *final(processor) == *old(processor),
{
    let input_value = processor.pop_u64()?;
    let output_value = (input_value % 0x100) as u8;
    let pushed = processor.push_u8(output_value);
    proof {
        assert(pushed is Ok);
    }
    Ok(())
}

/// Pops a ?64 value from the stack and pushes its low-order 2 bytes:
/// the little-endian encoding keeps its least significant part.
///
/// Stack:
/// - ?64 - Input value.
/// + ?16 - Output value.
pub fn trunc_64_to_16(processor: &mut Processor) -> (r: Result<(), Action>)
    requires
        old(processor).inv(),
    ensures
        final(processor).inv(),
        r is Ok <==> old(processor).stack_pointer >= 8,
        r is Ok ==> {
            &&& final(processor).stack_pointer == old(processor).stack_pointer - 8 + 2
            &&& le_value(
                final(processor).memory.spec_bytes(old(processor).stack_pointer - 8, 2),
            ) == le_value(
                old(processor).memory.spec_bytes(old(processor).stack_pointer - 8, 8),
            ) % 0x1_0000
            &&& final(processor).memory.same_shape(&old(processor).memory)
            &&& (forall|j: int|
                0 <= j < final(processor).memory.spec_size() && !(old(processor).stack_pointer
                    - 8 <= j < old(processor).stack_pointer - 8 + 2) ==> final(processor).memory.spec_byte(j) == old(processor).memory.spec_byte(j))
            &&& final(processor).program == old(processor).program
            &&& final(processor).program_counter == old(processor).program_counter
            &&& final(processor).stack_size == old(processor).stack_size
            &&& final(processor).overflow_flag == old(processor).overflow_flag
        },
        r is Err ==> r == Result::<(), Action>::Err(Action::Panic("Stack underflow")) && *final(processor) == *old(processor),
{
    let input_value = processor.pop_u64()?;
    let output_value = (input_value % 0x1_0000) as u16;
    let pushed = processor.push_u16(output_value);
    proof {
        assert(pushed is Ok);
    }
    Ok(())
}

/// Pops a ?64 value from the stack and pushes its low-order 4 bytes:
/// the little-endian encoding keeps its least significant part.
///
/// Stack:
/// - ?64 - Input value.
/// + ?32 - Output value.
pub fn trunc_64_to_32(processor: &mut Processor) -> (r: Result<(), Action>)
    requires
        old(processor).inv(),
    ensures
        final(processor).inv(),
        r is Ok <==> old(processor).stack_pointer >= 8,
        r is Ok ==> {
            &&& final(processor).stack_pointer == old(processor).stack_pointer - 8 + 4
            &&& le_value(
                final(processor).memory.spec_bytes(old(processor).stack_pointer - 8, 4),
            ) == le_value(
                old(processor).memory.spec_bytes(old(processor).stack_pointer - 8, 8),
            ) % 0x1_0000_0000
            &&& final(processor).memory.same_shape(&old(processor).memory)
            &&& (forall|j: int|
                0 <= j < final(processor).memory.spec_size() && !(old(processor).stack_pointer
                    - 8 <= j < old(processor).stack_pointer - 8 + 4) ==> final(processor).memory.spec_byte(j) == old(processor).memory.spec_byte(j))
            &&& final(processor).program == old(processor).program
            &&& final(processor).program_counter == old(processor).program_counter
            &&& final(processor).stack_size == old(processor).stack_size
            &&& final(processor).overflow_flag == old(processor).overflow_flag
        },
        r is Err ==> r == Result::<(), Action>::Err(Action::Panic("Stack underflow")) && *final(processor) == *old(processor),
{
    let input_value = processor.pop_u64()?;
    let output_value = (input_value % 0x1_0000_0000) as u32;
    let pushed = processor.push_u32(output_value);
    proof {
        assert(pushed is Ok);
    }
    Ok(())
}

} // verus!
