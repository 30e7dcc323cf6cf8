//! Stack instructions: dropping slots and pushing immediates.

use vstd::prelude::*;

use crate::sasm::action::Action;
use crate::sasm::bytes::le_value;
use crate::sasm::processor::Processor;

verus! {

/// Drops a ?8 from the stack.
///
/// Stack:
/// - ?8
pub fn drop_8(processor: &mut Processor) -> (r: Result<(), Action>)
    requires
        old(processor).inv(),
    ensures
        final(processor).inv(),
        r is Ok <==> old(processor).stack_pointer >= 1,
        r is Ok ==> *final(processor) == (Processor {
            stack_pointer: (old(processor).stack_pointer - 1) as usize,
            ..*old(processor)
        }),
        r is Err ==> r == Result::<(), Action>::Err(Action::Panic("Stack underflow")) && *final(processor) == *old(processor),
{
    match processor.pop_u8() {
        Ok(_) => Ok(()),
        Err(e) => Err(e),
    }
}

/// Drops a ?16 from the stack.
///
/// Stack:
/// - ?16
pub fn drop_16(processor: &mut Processor) -> (r: Result<(), Action>)
    requires
        old(processor).inv(),
    ensures
        final(processor).inv(),
        r is Ok <==> old(processor).stack_pointer >= 2,
        r is Ok ==> *final(processor) == (Processor {
            stack_pointer: (old(processor).stack_pointer - 2) as usize,
            ..*old(processor)
        }),
        r is Err ==> r == Result::<(), Action>::Err(Action::Panic("Stack underflow")) && *final(processor) == *old(processor),
{
    match processor.pop_u16() {
        Ok(_) => Ok(()),
        Err(e) => Err(e),
    }
}

/// Drops a ?32 from the stack.
///
/// Stack:
/// - ?32
pub fn drop_32(processor: &mut Processor) -> (r: Result<(), Action>)
    requires
        old(processor).inv(),
    ensures
        final(processor).inv(),
        r is Ok <==> old(processor).stack_pointer >= 4,
        r is Ok ==> *final(processor) == (Processor {
            stack_pointer: (old(processor).stack_pointer - 4) as usize,
            ..*old(processor)
        }),
        r is Err ==> r == Result::<(), Action>::Err(Action::Panic("Stack underflow")) && *final(processor) == *old(processor),
{
    match processor.pop_u32() {
        Ok(_) => Ok(()),
        Err(e) => Err(e),
    }
}

/// Drops a ?64 from the stack.
///
/// Stack:
/// - ?64
pub fn drop_64(processor: &mut Processor) -> (r: Result<(), Action>)
    requires
        old(processor).inv(),
    ensures
        final(processor).inv(),
        r is Ok <==> old(processor).stack_pointer >= 8,
        r is Ok ==> *final(processor) == (Processor {
            stack_pointer: (old(processor).stack_pointer - 8) as usize,
            ..*old(processor)
        }),
        r is Err ==> r == Result::<(), Action>::Err(Action::Panic("Stack underflow")) && *final(processor) == *old(processor),
{
    match processor.pop_u64() {
        Ok(_) => Ok(()),
        Err(e) => Err(e),
    }
}

/// Reads a ?8 immediate from the code stream and pushes it on the stack.
/// The program counter moves past the immediate even when the push then
/// fails for want of stack room.
///
/// Stack:
/// + ?8
pub fn const_8(processor: &mut Processor) -> (r: Result<(), Action>)
    requires
        old(processor).inv(),
    ensures
        final(processor).inv(),
        r is Ok <==> old(processor).program_counter + 1 <= old(processor).program.program@.len()
            && old(processor).stack_pointer + 1 <= old(processor).stack_size,
        r is Ok ==> {
            &&& final(processor).program_counter == old(processor).program_counter + 1
            &&& final(processor).stack_pointer == old(processor).stack_pointer + 1
            &&& le_value(
                final(processor).memory.spec_bytes(old(processor).stack_pointer as int, 1),
            ) == le_value(
                old(processor).program.spec_bytes(old(processor).program_counter as int, 1),
            )
            &&& final(processor).memory.same_shape(&old(processor).memory)
            &&& (forall|j: int|
                0 <= j < final(processor).memory.spec_size() && !(old(processor).stack_pointer <= j
                    < old(processor).stack_pointer + 1) ==> final(processor).memory.spec_byte(j)
                    == old(processor).memory.spec_byte(j))
            &&& final(processor).program == old(processor).program
            &&& final(processor).stack_size == old(processor).stack_size
            &&& final(processor).overflow_flag == old(processor).overflow_flag
        },
        r is Err && old(processor).program_counter + 1 > old(processor).program.program@.len()
            ==> r == Result::<(), Action>::Err(Action::Panic("Segmentation Fault")) && *final(processor) == *old(processor),
        r is Err && old(processor).program_counter + 1 <= old(processor).program.program@.len()
            ==> r == Result::<(), Action>::Err(Action::Panic("Stack overflow")) && *final(processor) == (Processor {
            program_counter: (old(processor).program_counter + 1) as usize,
            ..*old(processor)
        }),
{
    let result = processor.code_next_u8()?;
    processor.push_u8(result)?;
    Ok(())
}

/// Reads a ?16 immediate from the code stream and pushes it on the stack.
/// The program counter moves past the immediate even when the push then
/// fails for want of stack room.
///
/// Stack:
/// + ?16
pub fn const_16(processor: &mut Processor) -> (r: Result<(), Action>)
    requires
        old(processor).inv(),
    ensures
        final(processor).inv(),
        r is Ok <==> old(processor).program_counter + 2 <= old(processor).program.program@.len()
            && old(processor).stack_pointer + 2 <= old(processor).stack_size,
        r is Ok ==> {
            &&& final(processor).program_counter == old(processor).program_counter + 2
            &&& final(processor).stack_pointer == old(processor).stack_pointer + 2
            &&& le_value(
                final(processor).memory.spec_bytes(old(processor).stack_pointer as int, 2),
            ) == le_value(
                old(processor).program.spec_bytes(old(processor).program_counter as int, 2),
            )
            &&& final(processor).memory.same_shape(&old(processor).memory)
            &&& (forall|j: int|
                0 <= j < final(processor).memory.spec_size() && !(old(processor).stack_pointer <= j
                    < old(processor).stack_pointer + 2) ==> final(processor).memory.spec_byte(j)
                    == old(processor).memory.spec_byte(j))
            &&& final(processor).program == old(processor).program
            &&& final(processor).stack_size == old(processor).stack_size
            &&& final(processor).overflow_flag == old(processor).overflow_flag
        },
        r is Err && old(processor).program_counter + 2 > old(processor).program.program@.len()
            ==> r == Result::<(), Action>::Err(Action::Panic("Segmentation Fault")) && *final(processor) == *old(processor),
        r is Err && old(processor).program_counter + 2 <= old(processor).program.program@.len()
            ==> r == Result::<(), Action>::Err(Action::Panic("Stack overflow")) && *final(processor) == (Processor {
            program_counter: (old(processor).program_counter + 2) as usize,
            ..*old(processor)
        }),
{
    let result = processor.code_next_u16()?;
    processor.push_u16(result)?;
    Ok(())
}

/// Reads a ?32 immediate from the code stream and pushes it on the stack.
/// The program counter moves past the immediate even when the push then
/// fails for want of stack room.
///
/// Stack:
/// + ?32
pub fn const_32(processor: &mut Processor) -> (r: Result<(), Action>)
    requires
        old(processor).inv(),
    ensures
        final(processor).inv(),
        r is Ok <==> old(processor).program_counter + 4 <= old(processor).program.program@.len()
            && old(processor).stack_pointer + 4 <= old(processor).stack_size,
        r is Ok ==> {
            &&& final(processor).program_counter == old(processor).program_counter + 4
            &&& final(processor).stack_pointer == old(processor).stack_pointer + 4
            &&& le_value(
                final(processor).memory.spec_bytes(old(processor).stack_pointer as int, 4),
            ) == le_value(
                old(processor).program.spec_bytes(old(processor).program_counter as int, 4),
            )
            &&& final(processor).memory.same_shape(&old(processor).memory)
            &&& (forall|j: int|
                0 <= j < final(processor).memory.spec_size() && !(old(processor).stack_pointer <= j
                    < old(processor).stack_pointer + 4) ==> final(processor).memory.spec_byte(j)
                    == old(processor).memory.spec_byte(j))
            &&& final(processor).program == old(processor).program
            &&& final(processor).stack_size == old(processor).stack_size
            &&& final(processor).overflow_flag == old(processor).overflow_flag
        },
        r is Err && old(processor).program_counter + 4 > old(processor).program.program@.len()
            ==> r == Result::<(), Action>::Err(Action::Panic("Segmentation Fault")) && *final(processor) == *old(processor),
        r is Err && old(processor).program_counter + 4 <= old(processor).program.program@.len()
            ==> r == Result::<(), Action>::Err(Action::Panic("Stack overflow")) && *final(processor) == (Processor {
            program_counter: (old(processor).program_counter + 4) as usize,
            ..*old(processor)
        }),
{
    let result = processor.code_next_u32()?;
    processor.push_u32(result)?;
    Ok(())
}

/// Reads a ?64 immediate from the code stream and pushes it on the stack.
/// The program counter moves past the immediate even when the push then
/// fails for want of stack room.
///
/// Stack:
/// + ?64
pub fn const_64(processor: &mut Processor) -> (r: Result<(), Action>)
    requires
        old(processor).inv(),
    ensures
        final(processor).inv(),
        r is Ok <==> old(processor).program_counter + 8 <= old(processor).program.program@.len()
            && old(processor).stack_pointer + 8 <= old(processor).stack_size,
        r is Ok ==> {
            &&& final(processor).program_counter == old(processor).program_counter + 8
            &&& final(processor).stack_pointer == old(processor).stack_pointer + 8
            &&& le_value(
                final(processor).memory.spec_bytes(old(processor).stack_pointer as int, 8),
            ) == le_value(
                old(processor).program.spec_bytes(old(processor).program_counter as int, 8),
            )
            &&& final(processor).memory.same_shape(&old(processor).memory)
            &&& (forall|j: int|
                0 <= j < final(processor).memory.spec_size() && !(old(processor).stack_pointer <= j
                    < old(processor).stack_pointer + 8) ==> final(processor).memory.spec_byte(j)
                    == old(processor).memory.spec_byte(j))
            &&& final(processor).program == old(processor).program
            &&& final(processor).stack_size == old(processor).stack_size
            &&& final(processor).overflow_flag == old(processor).overflow_flag
        },
        r is Err && old(processor).program_counter + 8 > old(processor).program.program@.len()
            ==> r == Result::<(), Action>::Err(Action::Panic("Segmentation Fault")) && *final(processor) == *old(processor),
        r is Err && old(processor).program_counter + 8 <= old(processor).program.program@.len()
            ==> r == Result::<(), Action>::Err(Action::Panic("Stack overflow")) && *final(processor) == (Processor {
            program_counter: (old(processor).program_counter + 8) as usize,
            ..*old(processor)
        }),
{
    let result = processor.code_next_u64()?;
    processor.push_u64(result)?;
    Ok(())
}

} // verus!
