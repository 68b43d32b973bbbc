//! Checked operations on the operand stack.
use vstd::prelude::*;
use crate::vm::errors::{VMError, VMErrorModel, underflow};
use crate::vm::value::{Value, ValueModel, values_model};

verus! {

/// Fails unless `available` stack items cover the `needed` ones.
pub fn check_stack_items(available: usize, needed: usize, operation: &str) -> (r: Result<(), VMError>)
    ensures
        available < needed ==> r is Err && r->Err_0@ == (VMErrorModel::InsufficientStackItems { needed, available }),
        available >= needed ==> r is Ok,
{
    if available < needed {
        Err(VMError::InsufficientStackItems { needed, available })
    } else {
        Ok(())
    }
}

/// Pops the top value; fails on an empty stack, naming the operation.
pub fn pop_stack(stack: &mut Vec<Value>, operation: &str) -> (r: Result<Value, VMError>)
    ensures
        old(stack)@.len() == 0 ==> r is Err && r->Err_0@ == VMErrorModel::StackUnderflow(operation@) && final(stack)@
            == old(stack)@,
        old(stack)@.len() > 0 ==> r is Ok && r->Ok_0 == old(stack)@.last() && final(stack)@ == old(stack)@.drop_last(),
{
    match stack.pop() {
        Some(v) => Ok(v),
        None => Err(underflow(operation)),
    }
}

/// A copy of the top value; fails on an empty stack, naming the operation.
pub fn peek_stack(stack: &Vec<Value>, operation: &str) -> (r: Result<Value, VMError>)
    ensures
        stack@.len() == 0 ==> r is Err && r->Err_0@ == VMErrorModel::StackUnderflow(operation@),
        stack@.len() > 0 ==> r is Ok && r->Ok_0@ == stack@.last()@,
{
    if stack.len() == 0 {
        Err(underflow(operation))
    } else {
        Ok(stack[stack.len() - 1].copy())
    }
}

/// Fails unless the stack holds `needed` items.
pub fn check_stack_size(stack: &Vec<Value>, needed: usize, operation: &str) -> (r: Result<(), VMError>)
    ensures
        stack@.len() < needed ==> r is Err && r->Err_0@ == (VMErrorModel::InsufficientStackItems {
            needed,
            available: stack@.len() as usize,
        }),
        stack@.len() >= needed ==> r is Ok,
{
    check_stack_items(stack.len(), needed, operation)
}

/// The number of items on the stack.
pub fn stack_size(stack: &Vec<Value>) -> (n: usize)
    ensures
        n == stack@.len(),
{
    stack.len()
}

/// Pushes a value.
pub fn push_stack(stack: &mut Vec<Value>, value: Value)
    ensures
        final(stack)@ == old(stack)@.push(value),
{
    stack.push(value);
}

} // verus!
