//! General instructions: no-ops, halts and branches.

use vstd::prelude::*;

use crate::sasm::action::Action;
use crate::sasm::bytes::le_value;
use crate::sasm::processor::Processor;

verus! {

/// Throws a panic signal to the processor finishing the execution.
pub fn unreachable(processor: &mut Processor) -> (r: Result<(), Action>)
    ensures
        r == Result::<(), Action>::Err(Action::Panic("unreachable")),
        *final(processor) == *old(processor),
{
    Err(Action::Panic("unreachable"))
}

/// Does nothing.
pub fn nop(processor: &mut Processor) -> (r: Result<(), Action>)
    ensures
        r is Ok,
        *final(processor) == *old(processor),
{
    Ok(())
}

/// Throws a halt signal to the processor stopping the execution to resume it
/// later.
pub fn debug(processor: &mut Processor) -> (r: Result<(), Action>)
    ensures
        r == Result::<(), Action>::Err(Action::Halt),
        *final(processor) == *old(processor),
{
    Err(Action::Halt)
}

/// The u32 on top of the stack, read from the memory of `p`.
pub open spec fn spec_stack_u32(p: &Processor, slots_below_top: int) -> nat {
    le_value(p.memory.spec_bytes(p.stack_pointer - slots_below_top - 4, 4))
}

/// Pops a u32 value from the stack and jumps to the code position it points
/// to. An out-of-range position faults at the next code fetch.
///
/// Stack:
/// - u32 - Code position.
pub fn branch(processor: &mut Processor) -> (r: Result<(), Action>)
    requires
        old(processor).inv(),
    ensures
        final(processor).inv(),
        r is Ok <==> old(processor).stack_pointer >= 4,
        r is Ok ==> *final(processor) == (Processor {
            stack_pointer: (old(processor).stack_pointer - 4) as usize,
            program_counter: spec_stack_u32(old(processor), 0) as usize,
            ..*old(processor)
        }),
        r is Err ==> r == Result::<(), Action>::Err(Action::Panic("Stack underflow")) && *final(processor) == *old(processor),
{
    let code_position = match processor.pop_u32() {
        Ok(v) => v as usize,
        Err(e) => {
            return Err(e);
        },
    };
    processor.set_program_counter(code_position)?;
    Ok(())
}

/// Pops a condition of the given width, then a u32 code position, and jumps
/// to the position when the condition is not zero.
///
/// Stack:
/// - u8  - Condition.
/// - u32 - Code position.
pub fn branch_if_8(processor: &mut Processor) -> (r: Result<(), Action>)
    requires
        old(processor).inv(),
    ensures
        final(processor).inv(),
        r is Ok <==> old(processor).stack_pointer >= 5,
        r is Ok ==> *final(processor) == (Processor {
            stack_pointer: (old(processor).stack_pointer - 5) as usize,
            program_counter: if le_value(
                old(processor).memory.spec_bytes(old(processor).stack_pointer - 1, 1),
            ) != 0 {
                spec_stack_u32(old(processor), 1) as usize
            } else {
                old(processor).program_counter
            },
            ..*old(processor)
        }),
        r is Err ==> r == Result::<(), Action>::Err(Action::Panic("Stack underflow")) && *final(processor) == (Processor {
            stack_pointer: if old(processor).stack_pointer >= 1 {
                (old(processor).stack_pointer - 1) as usize
            } else {
                old(processor).stack_pointer
            },
            ..*old(processor)
        }),
{
    let condition = processor.pop_u8()?;
    let code_position = match processor.pop_u32() {
        Ok(v) => v as usize,
        Err(e) => {
            return Err(e);
        },
    };
    if condition != 0 {
        processor.set_program_counter(code_position)?;
    }
    Ok(())
}

/// Pops a condition of the given width, then a u32 code position, and jumps
/// to the position when the condition is not zero.
///
/// Stack:
/// - u16 - Condition.
/// - u32 - Code position.
pub fn branch_if_16(processor: &mut Processor) -> (r: Result<(), Action>)
    requires
        old(processor).inv(),
    ensures
        final(processor).inv(),
        r is Ok <==> old(processor).stack_pointer >= 6,
        r is Ok ==> *final(processor) == (Processor {
            stack_pointer: (old(processor).stack_pointer - 6) as usize,
            program_counter: if le_value(
                old(processor).memory.spec_bytes(old(processor).stack_pointer - 2, 2),
            ) != 0 {
                spec_stack_u32(old(processor), 2) as usize
            } else {
                old(processor).program_counter
            },
            ..*old(processor)
        }),
        r is Err ==> r == Result::<(), Action>::Err(Action::Panic("Stack underflow")) && *final(processor) == (Processor {
            stack_pointer: if old(processor).stack_pointer >= 2 {
                (old(processor).stack_pointer - 2) as usize
            } else {
                old(processor).stack_pointer
            },
            ..*old(processor)
        }),
{
    let condition = processor.pop_u16()?;
    let code_position = match processor.pop_u32() {
        Ok(v) => v as usize,
        Err(e) => {
            return Err(e);
        },
    };
    if condition != 0 {
        processor.set_program_counter(code_position)?;
    }
    Ok(())
}

/// Pops a condition of the given width, then a u32 code position, and jumps
/// to the position when the condition is not zero.
///
/// Stack:
/// - u32 - Condition.
/// - u32 - Code position.
pub fn branch_if_32(processor: &mut Processor) -> (r: Result<(), Action>)
    requires
        old(processor).inv(),
    ensures
        final(processor).inv(),
        r is Ok <==> old(processor).stack_pointer >= 8,
        r is Ok ==> *final(processor) == (Processor {
            stack_pointer: (old(processor).stack_pointer - 8) as usize,
            program_counter: if le_value(
                old(processor).memory.spec_bytes(old(processor).stack_pointer - 4, 4),
            ) != 0 {
                spec_stack_u32(old(processor), 4) as usize
            } else {
                old(processor).program_counter
            },
            ..*old(processor)
        }),
        r is Err ==> r == Result::<(), Action>::Err(Action::Panic("Stack underflow")) && *final(processor) == (Processor {
            stack_pointer: if old(processor).stack_pointer >= 4 {
                (old(processor).stack_pointer - 4) as usize
            } else {
                old(processor).stack_pointer
            },
            ..*old(processor)
        }),
{
    let condition = processor.pop_u32()?;
    let code_position = match processor.pop_u32() {
        Ok(v) => v as usize,
        Err(e) => {
            return Err(e);
        },
    };
    if condition != 0 {
        processor.set_program_counter(code_position)?;
    }
    Ok(())
}

/// Pops a condition of the given width, then a u32 code position, and jumps
/// to the position when the condition is not zero.
///
/// Stack:
/// - u64 - Condition.
/// - u32 - Code position.
pub fn branch_if_64(processor: &mut Processor) -> (r: Result<(), Action>)
    requires
        old(processor).inv(),
    ensures
        final(processor).inv(),
        r is Ok <==> old(processor).stack_pointer >= 12,
        r is Ok ==> *final(processor) == (Processor {
            stack_pointer: (old(processor).stack_pointer - 12) as usize,
            program_counter: if le_value(
                old(processor).memory.spec_bytes(old(processor).stack_pointer - 8, 8),
            ) != 0 {
                spec_stack_u32(old(processor), 8) as usize
            } else {
                old(processor).program_counter
            },
            ..*old(processor)
        }),
        r is Err ==> r == Result::<(), Action>::Err(Action::Panic("Stack underflow")) && *final(processor) == (Processor {
            stack_pointer: if old(processor).stack_pointer >= 8 {
                (old(processor).stack_pointer - 8) as usize
            } else {
                old(processor).stack_pointer
            },
            ..*old(processor)
        }),
{
    let condition = processor.pop_u64()?;
    let code_position = match processor.pop_u32() {
        Ok(v) => v as usize,
        Err(e) => {
            return Err(e);
        },
    };
    if condition != 0 {
        processor.set_program_counter(code_position)?;
    }
    Ok(())
}

} // verus!
