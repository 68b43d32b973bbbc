//! Variable frames, exception handlers and the call stack of the stack
//! machine.
use vstd::prelude::*;
use crate::vm::env::{env_get, env_insert, env_map, env_wf};
use crate::vm::errors::{VMError, VMErrorModel};
use crate::vm::value::{Value, ValueModel};

verus! {

/// The variable frames of a machine, innermost last; the first frame is the
/// global one.
pub struct VariableManager {
    pub variables: Vec<Vec<(String, Value)>>,
}

impl VariableManager {
    /// The frames as maps, innermost last.
    pub open spec fn frames(&self) -> Seq<Map<Seq<char>, ValueModel>> {
        Seq::new(self.variables@.len(), |i: int| env_map(self.variables@[i]@))
    }

    /// Every frame names each variable once.
    pub open spec fn wf(&self) -> bool {
        forall|i: int| 0 <= i < self.variables@.len() ==> env_wf(#[trigger] self.variables@[i]@)
    }

    /// A manager with one empty global frame.
    pub fn new() -> (m: VariableManager)
        ensures
            m.wf(),
            m.frames() == seq![Map::<Seq<char>, ValueModel>::empty()],
    {
        let mut variables: Vec<Vec<(String, Value)>> = Vec::new();
        variables.push(Vec::new());
        let m = VariableManager { variables };
        assert(env_map(m.variables@[0]@) =~= Map::<Seq<char>, ValueModel>::empty());
        assert(m.frames() =~= seq![Map::<Seq<char>, ValueModel>::empty()]);
        m
    }

    /// A manager with one empty global frame (the capacity is a hint).
    pub fn with_capacity(capacity: usize) -> (m: VariableManager)
        ensures
            m.wf(),
            m.frames() == seq![Map::<Seq<char>, ValueModel>::empty()],
    {
        VariableManager::new()
    }

    /// The value of `name` in the innermost frame.
    pub fn get_variable(&self, name: &str) -> (r: Result<Value, VMError>)
        requires
            self.wf(),
        ensures
            self.frames().len() == 0 ==> r is Err && r->Err_0@ == VMErrorModel::NoVariableScope,
            self.frames().len() > 0 ==> match r {
                Ok(v) => self.frames().last().contains_key(name@) && v@ == self.frames().last()[name@],
                Err(e) => !self.frames().last().contains_key(name@) && e@ == VMErrorModel::UndefinedVariable(name@),
            },
    {
        if self.variables.len() == 0 {
            return Err(VMError::NoVariableScope);
        }
        let last = self.variables.len() - 1;
        match env_get(&self.variables[last], name) {
            Some(v) => Ok(v),
            None => Err(VMError::UndefinedVariable(name.to_owned())),
        }
    }

    /// Sets `name` to `value` in the innermost frame.
    pub fn set_variable(&mut self, name: String, value: Value) -> (r: Result<(), VMError>)
        requires
            old(self).wf(),
        ensures
            final(self).wf(),
            old(self).frames().len() == 0 ==> r is Err && r->Err_0@ == VMErrorModel::NoVariableScope
                && final(self).frames() == old(self).frames(),
            old(self).frames().len() > 0 ==> r is Ok && final(self).frames() == old(self).frames().update(
                old(self).frames().len() - 1,
                old(self).frames().last().insert(name@, value@),
            ),
    {
        if self.variables.len() == 0 {
            return Err(VMError::NoVariableScope);
        }
        let mut frame = match self.variables.pop() {
            Some(f) => f,
            None => Vec::new(),
        };
        env_insert(&mut frame, name, value);
        self.variables.push(frame);
        assert(self.frames() =~= old(self).frames().update(
            old(self).frames().len() - 1,
            old(self).frames().last().insert(name@, value@),
        ));
        Ok(())
    }

    /// Opens a new, empty innermost frame.
    pub fn push_variable_frame(&mut self)
        requires
            old(self).wf(),
        ensures
            final(self).wf(),
            final(self).frames() == old(self).frames().push(Map::empty()),
    {
        self.variables.push(Vec::new());
        assert(env_map(self.variables@.last()@) =~= Map::<Seq<char>, ValueModel>::empty());
        assert(self.frames() =~= old(self).frames().push(Map::empty()));
    }

    /// Closes the innermost frame; the global frame cannot be closed.
    pub fn pop_variable_frame(&mut self) -> (r: Result<(), VMError>)
        requires
            old(self).wf(),
        ensures
            final(self).wf(),
            old(self).frames().len() <= 1 ==> r is Err && r->Err_0@ == VMErrorModel::RuntimeError(
                "Cannot pop global variable frame"@,
            ) && final(self).frames() == old(self).frames(),
            old(self).frames().len() > 1 ==> r is Ok && final(self).frames() == old(self).frames().drop_last(),
    {
        if self.variables.len() <= 1 {
            return Err(VMError::RuntimeError("Cannot pop global variable frame".to_owned()));
        }
        self.variables.pop();
        assert(self.frames() =~= old(self).frames().drop_last());
        Ok(())
    }

    /// The number of frames.
    pub fn frame_depth(&self) -> (n: usize)
        ensures
            n == self.frames().len(),
    {
        self.variables.len()
    }
}

/// An active `TRY` block: where its handler starts, and the sizes of the
/// stack, call stack and frames to return to when an exception is caught.
#[derive(Clone, Copy, PartialEq, Eq, Structural, Debug)]
pub struct ExceptionHandler {
    pub catch_addr: usize,
    pub stack_size: usize,
    pub call_stack_size: usize,
    pub variable_frames: usize,
}

/// The return addresses of the active calls.
pub struct CallStack {
    pub stack: Vec<usize>,
}

impl CallStack {
    /// An empty call stack, with room for 64 calls.
    pub fn new() -> (c: CallStack)
        ensures
            c.stack@ == Seq::<usize>::empty(),
    {
        CallStack { stack: Vec::with_capacity(64) }
    }

    /// Pushes a return address.
    pub fn push(&mut self, addr: usize)
        ensures
            final(self).stack@ == old(self).stack@.push(addr),
    {
        self.stack.push(addr);
    }

    /// Pops the innermost return address.
    pub fn pop(&mut self) -> (r: Result<usize, VMError>)
        ensures
            old(self).stack@.len() == 0 ==> r is Err && r->Err_0@ == VMErrorModel::CallStackUnderflow
                && final(self).stack@ == old(self).stack@,
            old(self).stack@.len() > 0 ==> r == Ok::<usize, VMError>(old(self).stack@.last()) && final(self).stack@
                == old(self).stack@.drop_last(),
    {
        match self.stack.pop() {
            Some(a) => Ok(a),
            None => Err(VMError::CallStackUnderflow),
        }
    }

    /// The number of active calls.
    pub fn len(&self) -> (n: usize)
        ensures
            n == self.stack@.len(),
    {
        self.stack.len()
    }

    /// Whether no call is active.
    pub fn is_empty(&self) -> (b: bool)
        ensures
            b == (self.stack@.len() == 0),
    {
        self.stack.len() == 0
    }
}

} // verus!
