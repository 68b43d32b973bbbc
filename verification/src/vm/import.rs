//! `IMPORT` on the stack machine: the circularity check, the module cache,
//! merging a loaded module's code after the program's, and binding the
//! module's exports in the innermost frame. Reading the module's file and
//! running it are the host's part.
use vstd::prelude::*;
use crate::concurrency::proc_model::{key_at, table_get, table_put};
use crate::concurrency::registry::{lemma_key_at_absent, lemma_key_at_found, lemma_key_first, lemma_key_none};
use crate::text::str_eq;
use crate::vm::env::assoc_set;
use crate::vm::errors::{VMError, VMErrorModel};
use crate::vm::machine::{MState, VM, same_setup};
use crate::vm::opcode::{OpCode, opcode_model, program_model};
use crate::vm::relocate::{adjust_value, relocate_op, relocated};
use crate::vm::value::{Value, ValueModel, copy_entries, entries_model, strings_model};

verus! {

/// The model of a module cache: each module's path with its exports.
pub open spec fn modules_model(s: Seq<(String, Vec<(String, Value)>)>) -> Seq<
    (Seq<char>, Seq<(Seq<char>, ValueModel)>),
> {
    Seq::new(s.len(), |i: int| (s[i].0@, entries_model(s[i].1@)))
}

/// The error of importing a module that is still being loaded.
pub open spec fn circular_import(path: Seq<char>) -> VMErrorModel {
    VMErrorModel::FileError { filename: path, error: "Circular dependency detected"@ }
}

/// A frame with the exports bound, in order.
pub open spec fn bind_exports(f: Seq<(Seq<char>, ValueModel)>, e: Seq<(Seq<char>, ValueModel)>) -> Seq<
    (Seq<char>, ValueModel),
>
    decreases e.len(),
{
    if e.len() == 0 {
        f
    } else {
        assoc_set(bind_exports(f, e.drop_last()), e.last().0, e.last().1)
    }
}

/// The frames with the exports bound in the innermost one; without a frame
/// the first export fails.
pub open spec fn import_into(
    frames: Seq<Seq<(Seq<char>, ValueModel)>>,
    e: Seq<(Seq<char>, ValueModel)>,
) -> Result<Seq<Seq<(Seq<char>, ValueModel)>>, VMErrorModel> {
    if e.len() == 0 {
        Ok(frames)
    } else if frames.len() == 0 {
        Err(VMErrorModel::NoVariableScope)
    } else {
        Ok(frames.update(frames.len() - 1, bind_exports(frames.last(), e)))
    }
}

/// `HashMap::extend` of the cache `a` by `b`: each entry of `b` in turn
/// put in `a`.
pub open spec fn merge_modules(
    a: Seq<(Seq<char>, Seq<(Seq<char>, ValueModel)>)>,
    b: Seq<(Seq<char>, Seq<(Seq<char>, ValueModel)>)>,
) -> Seq<(Seq<char>, Seq<(Seq<char>, ValueModel)>)>
    decreases b.len(),
{
    if b.len() == 0 {
        a
    } else {
        table_put(merge_modules(a, b.drop_last()), b.last().0, b.last().1)
    }
}

/// `ys` is `xs` with every value moved by `base` (see [`relocated`]).
pub open spec fn exports_relocated(
    xs: Seq<(Seq<char>, ValueModel)>,
    ys: Seq<(Seq<char>, ValueModel)>,
    base: usize,
) -> bool {
    &&& xs.len() == ys.len()
    &&& forall|i: int| 0 <= i < xs.len() ==> (#[trigger] xs[i]).0 == ys[i].0 && relocated(xs[i].1, ys[i].1, base)
}

/// The loading stack after an import finished: its last entry leaves.
pub open spec fn pop_loading(s: Seq<Seq<char>>) -> Seq<Seq<char>> {
    if s.len() > 0 {
        s.drop_last()
    } else {
        s
    }
}

/// Whether `path` is on the loading stack.
pub(crate) fn is_loading(stack: &Vec<String>, path: &str) -> (b: bool)
    ensures
        b == strings_model(stack@).contains(path@),
{
    let ghost m = strings_model(stack@);
    let mut i: usize = 0;
    while i < stack.len()
        invariant
            i <= stack@.len(),
            m == strings_model(stack@),
            forall|j: int| 0 <= j < i ==> m[j] != path@,
        decreases stack.len() - i,
    {
        if str_eq(stack[i].as_str(), path) {
            assert(m[i as int] == path@);
            return true;
        }
        i = i + 1;
    }
    false
}

/// The position of `path` in the module cache.
pub(crate) fn find_module(modules: &Vec<(String, Vec<(String, Value)>)>, path: &str) -> (o: Option<usize>)
    ensures
        match o {
            Some(i) => i < modules@.len() && key_at(modules_model(modules@), path@) == Some(i as int),
            None => key_at(modules_model(modules@), path@) is None,
        },
{
    let ghost m = modules_model(modules@);
    let mut i: usize = 0;
    while i < modules.len()
        invariant
            i <= modules@.len(),
            m == modules_model(modules@),
            forall|j: int| 0 <= j < i ==> m[j].0 != path@,
        decreases modules.len() - i,
    {
        if str_eq(modules[i].0.as_str(), path) {
            proof {
                lemma_key_first(m, path@, i as int);
            }
            return Some(i);
        }
        i = i + 1;
    }
    proof {
        lemma_key_none(m, path@);
    }
    None
}

/// Puts a module's exports in the cache under its path.
pub(crate) fn put_module(modules: &mut Vec<(String, Vec<(String, Value)>)>, path: String, exports: Vec<(String, Value)>)
    ensures
        modules_model(final(modules)@) == table_put(modules_model(old(modules)@), path@, entries_model(exports@)),
{
    let ghost m = modules_model(modules@);
    let ghost k = path@;
    let ghost e = entries_model(exports@);
    match find_module(modules, path.as_str()) {
        Some(i) => {
            modules.set(i, (path, exports));
            assert(modules_model(modules@) =~= m.update(i as int, (k, e)));
        },
        None => {
            modules.push((path, exports));
            assert(modules_model(modules@) =~= m.push((k, e)));
        },
    }
}

pub(crate) fn circular_error(path: &str) -> (e: VMError)
    ensures
        e@ == circular_import(path@),
{
    VMError::FileError { filename: path.to_owned(), error: "Circular dependency detected".to_owned() }
}

/// The exports moved by `base`.
fn relocate_exports(xs: &Vec<(String, Value)>, base: usize) -> (r: Vec<(String, Value)>)
    ensures
        exports_relocated(entries_model(xs@), entries_model(r@), base),
{
    let ghost m = entries_model(xs@);
    let mut r: Vec<(String, Value)> = Vec::new();
    let mut i: usize = 0;
    while i < xs.len()
        invariant
            i <= xs@.len(),
            m == entries_model(xs@),
            r@.len() == i,
            forall|k: int| 0 <= k < i ==> (#[trigger] m[k]).0 == entries_model(r@)[k].0 && relocated(
                m[k].1,
                entries_model(r@)[k].1,
                base,
            ),
        decreases xs.len() - i,
    {
        let v = adjust_value(&xs[i].1, base);
        let ghost before = r@;
        r.push((xs[i].0.clone(), v));
        assert forall|k: int| 0 <= k < i + 1 implies (#[trigger] m[k]).0 == entries_model(r@)[k].0 && relocated(
            m[k].1,
            entries_model(r@)[k].1,
            base,
        ) by {
            if k < i {
                assert(r@[k] == before[k]);
            }
        }
        i = i + 1;
    }
    r
}

impl VM {
    /// Binds the exports in the innermost frame, in order.
    fn bind_exports(&mut self, exports: &Vec<(String, Value)>) -> (r: Result<(), VMError>)
        ensures
            same_setup(*old(self), *final(self)),
            final(self).loaded_modules == old(self).loaded_modules,
            final(self).loading_stack == old(self).loading_stack,
            match import_into(old(self).state().frames, entries_model(exports@)) {
                Ok(fs) => r is Ok && final(self).state() == (MState { frames: fs, ..old(self).state() }),
                Err(x) => r is Err && r->Err_0@ == x && final(self).state() == old(self).state(),
            },
    {
        let ghost e = entries_model(exports@);
        if exports.len() == 0 {
            return Ok(());
        }
        if self.variables.len() == 0 {
            return Err(VMError::NoVariableScope);
        }
        let ghost s0 = self.state();
        let ghost v0 = *self;
        let mut i: usize = 0;
        assert(e.take(0) =~= Seq::<(Seq<char>, ValueModel)>::empty());
        assert(s0.frames.update(s0.frames.len() - 1, s0.frames.last()) =~= s0.frames);
        while i < exports.len()
            invariant
                i <= exports@.len(),
                e == entries_model(exports@),
                self.variables@.len() > 0,
                s0.frames.len() == self.variables@.len(),
                same_setup(v0, *self),
                self.loaded_modules == v0.loaded_modules,
                self.loading_stack == v0.loading_stack,
                self.state() == (MState {
                    frames: s0.frames.update(s0.frames.len() - 1, bind_exports(s0.frames.last(), e.take(i as int))),
                    ..s0
                }),
            decreases exports.len() - i,
        {
            let name = exports[i].0.clone();
            let v = exports[i].1.copy();
            let ghost prev = self.state();
            let ghost l = s0.frames.len() - 1;
            assert(name@ == e[i as int].0);
            assert(v@ == e[i as int].1);
            self.set_var(name, v);
            assert(self.state().frames.len() == self.variables@.len());
            assert(e.take(i + 1).drop_last() =~= e.take(i as int));
            assert(e.take(i + 1).last() == e[i as int]);
            assert(prev.frames.last() == bind_exports(s0.frames.last(), e.take(i as int)));
            assert(self.state().frames =~= s0.frames.update(l, bind_exports(s0.frames.last(), e.take(i + 1))));
            i = i + 1;
        }
        assert(e.take(exports@.len() as int) =~= e);
        Ok(())
    }

    /// The first part of `IMPORT path`. A module that is still being loaded
    /// is a circular import, an error. A module loaded before has its cached
    /// exports bound in the innermost frame, and the import is done
    /// (`Ok(false)`). Otherwise the module goes on the loading stack and the
    /// host must load it (`Ok(true)`): append its code with
    /// [`VM::append_module`], run it, and end with [`VM::finish_import`].
    pub fn begin_import(&mut self, path: &str) -> (r: Result<bool, VMError>)
        ensures
            same_setup(
                *old(self),
                VM { loading_stack: old(self).loading_stack, ..*final(self) },
            ),
            final(self).loaded_modules == old(self).loaded_modules,
            strings_model(old(self).loading_stack@).contains(path@) ==> {
                &&& r is Err && r->Err_0@ == circular_import(path@)
                &&& final(self).state() == old(self).state()
                &&& final(self).loading_stack == old(self).loading_stack
            },
            !strings_model(old(self).loading_stack@).contains(path@) ==> match table_get(
                modules_model(old(self).loaded_modules@),
                path@,
            ) {
                Some(e) => {
                    &&& final(self).loading_stack == old(self).loading_stack
                    &&& match import_into(old(self).state().frames, e) {
                        Ok(fs) => r == Ok::<bool, VMError>(false) && final(self).state() == (MState {
                            frames: fs,
                            ..old(self).state()
                        }),
                        Err(x) => r is Err && r->Err_0@ == x && final(self).state() == old(self).state(),
                    }
                },
                None => {
                    &&& r == Ok::<bool, VMError>(true)
                    &&& final(self).state() == old(self).state()
                    &&& strings_model(final(self).loading_stack@) == strings_model(old(self).loading_stack@).push(path@)
                },
            },
    {
        if is_loading(&self.loading_stack, path) {
            return Err(circular_error(path));
        }
        match find_module(&self.loaded_modules, path) {
            Some(i) => {
                let exports = copy_entries(&self.loaded_modules[i].1);
                match self.bind_exports(&exports) {
                    Ok(()) => Ok(false),
                    Err(e) => Err(e),
                }
            },
            None => {
                let ghost before = self.loading_stack@;
                self.loading_stack.push(path.to_owned());
                assert(strings_model(self.loading_stack@) =~= strings_model(before).push(path@));
                Ok(true)
            },
        }
    }

    /// Appends a loaded module's code after the program's, every code
    /// address in it moved by the program's length, which is returned.
    pub fn append_module(&mut self, module: &Vec<OpCode>) -> (base: usize)
        requires
            old(self).instructions@.len() + module@.len() <= usize::MAX,
        ensures
            base == old(self).instructions@.len(),
            program_model(final(self).instructions@) == program_model(old(self).instructions@) + Seq::new(
                module@.len(),
                |i: int| relocate_op(opcode_model(module@[i]), base),
            ),
            final(self).state() == old(self).state(),
            final(self).loaded_modules == old(self).loaded_modules,
            final(self).loading_stack == old(self).loading_stack,
            same_setup(*old(self), VM { instructions: old(self).instructions, ..*final(self) }),
    {
        let base = self.instructions.len();
        let ghost p0 = program_model(self.instructions@);
        let ghost moved = Seq::new(module@.len(), |i: int| relocate_op(opcode_model(module@[i]), base));
        let ghost v0 = *self;
        let mut i: usize = 0;
        while i < module.len()
            invariant
                i <= module@.len(),
                base == p0.len(),
                base + module@.len() <= usize::MAX,
                moved == Seq::new(module@.len(), |k: int| relocate_op(opcode_model(module@[k]), base)),
                program_model(self.instructions@) == p0 + moved.take(i as int),
                self.state() == v0.state(),
                self.loaded_modules == v0.loaded_modules,
                self.loading_stack == v0.loading_stack,
                same_setup(v0, VM { instructions: v0.instructions, ..*self }),
            decreases module.len() - i,
        {
            let op = self.adjust_instruction_addresses(&module[i], base);
            let ghost before = program_model(self.instructions@);
            self.instructions.push(op);
            assert(program_model(self.instructions@) =~= before.push(opcode_model(op)));
            assert(moved.take(i + 1) =~= moved.take(i as int).push(moved[i as int]));
            i = i + 1;
        }
        assert(moved.take(module@.len() as int) =~= moved);
        base
    }

    /// The last part of `IMPORT path`, once the module (its code appended at
    /// `base`) has run: the caches of modules that it loaded are merged in,
    /// its exports, moved by `base`, are cached under `path` and bound in
    /// the innermost frame, and `path` leaves the loading stack. Binding
    /// without a frame fails, leaving `path` on the loading stack.
    pub fn finish_import(
        &mut self,
        path: String,
        base: usize,
        module_modules: Vec<(String, Vec<(String, Value)>)>,
        module_exports: Vec<(String, Value)>,
    ) -> (r: Result<(), VMError>)
        ensures
            same_setup(
                *old(self),
                VM {
                    loaded_modules: old(self).loaded_modules,
                    loading_stack: old(self).loading_stack,
                    ..*final(self)
                },
            ),
            exists|adj: Seq<(Seq<char>, ValueModel)>|
                {
                    &&& exports_relocated(entries_model(module_exports@), adj, base)
                    &&& modules_model(final(self).loaded_modules@) == table_put(
                        merge_modules(modules_model(old(self).loaded_modules@), modules_model(module_modules@)),
                        path@,
                        adj,
                    )
                    &&& match import_into(old(self).state().frames, adj) {
                        Ok(fs) => {
                            &&& r is Ok
                            &&& final(self).state() == (MState { frames: fs, ..old(self).state() })
                            &&& strings_model(final(self).loading_stack@) == pop_loading(
                                strings_model(old(self).loading_stack@),
                            )
                        },
                        Err(x) => {
                            &&& r is Err && r->Err_0@ == x
                            &&& final(self).state() == old(self).state()
                            &&& final(self).loading_stack == old(self).loading_stack
                        },
                    }
                },
    {
        let ghost m0 = modules_model(self.loaded_modules@);
        let ghost mm = modules_model(module_modules@);
        let mut i: usize = 0;
        let n = module_modules.len();
        let mut rest = module_modules;
        assert(mm.take(0) =~= Seq::<(Seq<char>, Seq<(Seq<char>, ValueModel)>)>::empty());
        while i < n
            invariant
                i <= n,
                n == mm.len(),
                rest@.len() == n - i,
                forall|k: int| 0 <= k < rest@.len() ==> #[trigger] modules_model(rest@)[k] == mm[i + k],
                modules_model(self.loaded_modules@) == merge_modules(m0, mm.take(i as int)),
                self.state() == old(self).state(),
                self.loading_stack == old(self).loading_stack,
                same_setup(*old(self), VM { loaded_modules: old(self).loaded_modules, ..*self }),
            decreases n - i,
        {
            let ghost before = rest@;
            let entry = rest.remove(0);
            assert(modules_model(before)[0] == mm[i + 0]);
            assert forall|k: int| 0 <= k < rest@.len() implies #[trigger] modules_model(rest@)[k] == mm[i + 1 + k] by {
                assert(rest@[k] == before[k + 1]);
                assert(modules_model(before)[k + 1] == mm[i + (k + 1)]);
            }
            put_module(&mut self.loaded_modules, entry.0, entry.1);
            assert(mm.take(i + 1).drop_last() =~= mm.take(i as int));
            i = i + 1;
        }
        assert(mm.take(n as int) =~= mm);
        let adjusted = relocate_exports(&module_exports, base);
        let cached = copy_entries(&adjusted);
        put_module(&mut self.loaded_modules, path, cached);
        let r = self.bind_exports(&adjusted);
        match r {
            Ok(()) => {
                let ghost before = self.loading_stack@;
                self.loading_stack.pop();
                assert(strings_model(self.loading_stack@) =~= pop_loading(strings_model(before)));
                Ok(())
            },
            Err(e) => Err(e),
        }
    }
}

/// A module is loaded once: once an import of `path` has finished, the
/// cache gives the module's exports under `path`, so a later import of
/// `path` binds them again without loading the module.
pub proof fn law_finished_import_is_cached(
    cache: Seq<(Seq<char>, Seq<(Seq<char>, ValueModel)>)>,
    loaded: Seq<(Seq<char>, Seq<(Seq<char>, ValueModel)>)>,
    path: Seq<char>,
    exports: Seq<(Seq<char>, ValueModel)>,
)
    ensures
        table_get(table_put(merge_modules(cache, loaded), path, exports), path) == Some(exports),
{
    let s = merge_modules(cache, loaded);
    let t = table_put(s, path, exports);
    match key_at(s, path) {
        Some(i) => {
            lemma_key_at_found(s, path);
            assert forall|j: int| 0 <= j < i implies t[j].0 != path by {
                assert(t[j] == s[j]);
            }
            lemma_key_first(t, path, i);
        },
        None => {
            lemma_key_at_absent(s, path);
            assert forall|j: int| 0 <= j < s.len() implies t[j].0 != path by {
                assert(t[j] == s[j]);
            }
            lemma_key_first(t, path, s.len() as int);
        },
    }
}

} // verus!
