//! The process registry: the mailbox of each live process, the names they
//! are registered under, and what is known of each process.
use vstd::prelude::*;
use crate::ProcState;
use crate::concurrency::messages::Message;
use crate::concurrency::proc_model::{key_at, table_del, table_get, table_put, elem_at, set_add, set_del};
use crate::text::{append_chars, chars_of, nat_text, str_eq, string_of, u64_text};
use crate::vm::opcode::ProcId;
use crossbeam::channel::Sender;
use std::time::Instant;
use crate::clock::now;

verus! {

/// The sending side of a crossbeam channel.
#[verifier::external_type_specification]
#[verifier::external_body]
#[verifier::reject_recursive_types(T)]
pub struct ExSender<T>(Sender<T>);

/// `Sender::send` of a crossbeam channel: puts the message in the channel,
/// or fails, with the text of `SendError` ("sending on a disconnected
/// channel"), when the receiving side is gone. Whether it fails depends on
/// the other side of the channel, so which of the two happens is not
/// claimed; on a bounded channel that is full it waits for room.
#[verifier::external_body]
fn channel_send(sender: &Sender<Message>, message: Message) -> (r: Result<(), String>)
    ensures
        r is Err ==> r->Err_0@ == "sending on a disconnected channel"@,
{
    sender.send(message).map_err(|e| e.to_string())
}

/// What is known of a process.
#[derive(Debug)]
pub struct ProcessInfo {
    pub pid: ProcId,
    pub start_time: Instant,
    pub message_count: usize,
    pub state: ProcState,
    pub supervisor: Option<ProcId>,
    pub children: Vec<ProcId>,
}

/// The model of what is known of a process.
pub struct InfoModel {
    pub pid: u64,
    pub message_count: usize,
    pub state: ProcState,
    pub supervisor: Option<u64>,
    pub children: Seq<u64>,
}

impl ProcessInfo {
    /// The model of the record.
    pub open spec fn model(&self) -> InfoModel {
        InfoModel {
            pid: self.pid,
            message_count: self.message_count,
            state: self.state,
            supervisor: self.supervisor,
            children: self.children@,
        }
    }
}

/// The registry.
pub struct ProcessRegistry {
    pub process_senders: Vec<(ProcId, Sender<Message>)>,
    pub name_to_pid: Vec<(String, ProcId)>,
    pub pid_to_names: Vec<(ProcId, Vec<String>)>,
    pub process_info: Vec<(ProcId, ProcessInfo)>,
    pub message_sequences: Vec<((ProcId, ProcId), u64)>,
}

/// The model of the registry: the registered processes, the name table,
/// the names of each process, the records and the message counters of
/// each pair of processes.
pub struct RegistryModel {
    pub pids: Seq<u64>,
    pub names: Seq<(Seq<char>, u64)>,
    pub owned: Seq<(u64, Seq<Seq<char>>)>,
    pub infos: Seq<(u64, InfoModel)>,
    pub sequences: Seq<((u64, u64), u64)>,
}

/// The first position of a string in a sequence of strings.
pub open spec fn str_at(s: Seq<Seq<char>>, x: Seq<char>) -> Option<int>
    decreases s.len(),
{
    if s.len() == 0 {
        None
    } else if s[0] == x {
        Some(0)
    } else {
        match str_at(s.drop_first(), x) {
            Some(i) => Some(i + 1),
            None => None,
        }
    }
}

/// `HashSet::insert` on a sequence of names.
pub open spec fn names_add(s: Seq<Seq<char>>, x: Seq<char>) -> Seq<Seq<char>> {
    if str_at(s, x) is Some {
        s
    } else {
        s.push(x)
    }
}

/// `HashSet::remove` on a sequence of names.
pub open spec fn names_del(s: Seq<Seq<char>>, x: Seq<char>) -> Seq<Seq<char>> {
    match str_at(s, x) {
        Some(i) => s.remove(i),
        None => s,
    }
}

/// The name table without the given names.
pub open spec fn names_without(names: Seq<(Seq<char>, u64)>, gone: Seq<Seq<char>>) -> Seq<(Seq<char>, u64)>
    decreases gone.len(),
{
    if gone.len() == 0 {
        names
    } else {
        names_without(table_del(names, gone[0]), gone.drop_first())
    }
}

/// The names a process is registered under (none if it has no entry).
pub open spec fn names_of(owned: Seq<(u64, Seq<Seq<char>>)>, pid: u64) -> Seq<Seq<char>> {
    match table_get(owned, pid) {
        Some(s) => s,
        None => Seq::empty(),
    }
}

/// The registry without a process: its mailbox, the names it owns, its
/// name set and its record are gone.
pub open spec fn process_removed(r: RegistryModel, pid: u64) -> RegistryModel {
    RegistryModel {
        pids: set_del(r.pids, pid),
        names: names_without(r.names, names_of(r.owned, pid)),
        owned: table_del(r.owned, pid),
        infos: table_del(r.infos, pid),
        ..r
    }
}

/// The record of a new process.
pub open spec fn fresh_info(pid: u64) -> InfoModel {
    InfoModel { pid, message_count: 0, state: ProcState::Ready, supervisor: None, children: Seq::empty() }
}

/// Every named process is registered: the registry's invariant.
pub open spec fn names_registered(r: RegistryModel) -> bool {
    forall|i: int| 0 <= i < r.names.len() ==> elem_at(r.pids, #[trigger] r.names[i].1) is Some
}

/// The models of the name table.
pub open spec fn names_model(s: Seq<(String, ProcId)>) -> Seq<(Seq<char>, u64)> {
    Seq::new(s.len(), |i: int| (s[i].0@, s[i].1))
}

/// The models of a sequence of strings.
pub open spec fn strs_model(s: Seq<String>) -> Seq<Seq<char>> {
    Seq::new(s.len(), |i: int| s[i]@)
}

/// The models of the table of each process's names.
pub open spec fn owned_model(s: Seq<(ProcId, Vec<String>)>) -> Seq<(u64, Seq<Seq<char>>)> {
    Seq::new(s.len(), |i: int| (s[i].0, strs_model(s[i].1@)))
}

/// The models of the records.
pub open spec fn infos_model(s: Seq<(ProcId, ProcessInfo)>) -> Seq<(u64, InfoModel)> {
    Seq::new(s.len(), |i: int| (s[i].0, s[i].1.model()))
}

/// The registered processes, in order.
pub open spec fn pids_model(s: Seq<(ProcId, Sender<Message>)>) -> Seq<u64> {
    Seq::new(s.len(), |i: int| s[i].0)
}

/// The error of a send to a process whose receiving side is gone.
pub open spec fn send_failed() -> Seq<char> {
    "Failed to send message: sending on a disconnected channel"@
}

/// `"Process <pid> not found"`.
pub open spec fn not_found(pid: u64) -> Seq<char> {
    "Process "@ + nat_text(pid as nat) + " not found"@
}

fn pid_message(prefix: &str, pid: u64, suffix: &str) -> (r: String)
    ensures
        r@ == prefix@ + nat_text(pid as nat) + suffix@,
{
    let mut t = chars_of(prefix);
    let d = u64_text(pid);
    append_chars(&mut t, d.as_slice());
    let u = chars_of(suffix);
    append_chars(&mut t, u.as_slice());
    string_of(t.as_slice())
}

fn name_message(prefix: &str, name: &str, suffix: &str) -> (r: String)
    ensures
        r@ == prefix@ + name@ + suffix@,
{
    let mut t = chars_of(prefix);
    let d = chars_of(name);
    append_chars(&mut t, d.as_slice());
    let u = chars_of(suffix);
    append_chars(&mut t, u.as_slice());
    string_of(t.as_slice())
}

pub(crate) proof fn lemma_key_first<K, V>(s: Seq<(K, V)>, k: K, i: int)
    requires
        0 <= i < s.len(),
        s[i].0 == k,
        forall|j: int| 0 <= j < i ==> s[j].0 != k,
    ensures
        key_at(s, k) == Some(i),
    decreases i,
{
    if i > 0 {
        assert forall|j: int| 0 <= j < i - 1 implies s.drop_first()[j].0 != k by {
            assert(s.drop_first()[j] == s[j + 1]);
        }
        lemma_key_first(s.drop_first(), k, i - 1);
    }
}

pub(crate) proof fn lemma_key_none<K, V>(s: Seq<(K, V)>, k: K)
    requires
        forall|j: int| 0 <= j < s.len() ==> s[j].0 != k,
    ensures
        key_at(s, k) is None,
    decreases s.len(),
{
    if s.len() > 0 {
        assert forall|j: int| 0 <= j < s.drop_first().len() implies s.drop_first()[j].0 != k by {
            assert(s.drop_first()[j] == s[j + 1]);
        }
        lemma_key_none(s.drop_first(), k);
    }
}

proof fn lemma_elem_first(s: Seq<u64>, x: u64, i: int)
    requires
        0 <= i < s.len(),
        s[i] == x,
        forall|j: int| 0 <= j < i ==> s[j] != x,
    ensures
        elem_at(s, x) == Some(i),
    decreases i,
{
    if i > 0 {
        assert forall|j: int| 0 <= j < i - 1 implies s.drop_first()[j] != x by {
            assert(s.drop_first()[j] == s[j + 1]);
        }
        lemma_elem_first(s.drop_first(), x, i - 1);
    }
}

proof fn lemma_elem_at_found(s: Seq<u64>, x: u64)
    requires
        elem_at(s, x) is Some,
    ensures
        0 <= elem_at(s, x)->Some_0 < s.len(),
        s[elem_at(s, x)->Some_0] == x,
    decreases s.len(),
{
    if s.len() > 0 && s[0] != x {
        lemma_elem_at_found(s.drop_first(), x);
    }
}

proof fn lemma_elem_none(s: Seq<u64>, x: u64)
    requires
        forall|j: int| 0 <= j < s.len() ==> s[j] != x,
    ensures
        elem_at(s, x) is None,
    decreases s.len(),
{
    if s.len() > 0 {
        assert forall|j: int| 0 <= j < s.drop_first().len() implies s.drop_first()[j] != x by {
            assert(s.drop_first()[j] == s[j + 1]);
        }
        lemma_elem_none(s.drop_first(), x);
    }
}

proof fn lemma_str_first(s: Seq<Seq<char>>, x: Seq<char>, i: int)
    requires
        0 <= i < s.len(),
        s[i] == x,
        forall|j: int| 0 <= j < i ==> s[j] != x,
    ensures
        str_at(s, x) == Some(i),
    decreases i,
{
    if i > 0 {
        assert forall|j: int| 0 <= j < i - 1 implies s.drop_first()[j] != x by {
            assert(s.drop_first()[j] == s[j + 1]);
        }
        lemma_str_first(s.drop_first(), x, i - 1);
    }
}

proof fn lemma_str_none(s: Seq<Seq<char>>, x: Seq<char>)
    requires
        forall|j: int| 0 <= j < s.len() ==> s[j] != x,
    ensures
        str_at(s, x) is None,
    decreases s.len(),
{
    if s.len() > 0 {
        assert forall|j: int| 0 <= j < s.drop_first().len() implies s.drop_first()[j] != x by {
            assert(s.drop_first()[j] == s[j + 1]);
        }
        lemma_str_none(s.drop_first(), x);
    }
}

fn find_str(s: &Vec<String>, x: &str) -> (o: Option<usize>)
    ensures
        match o {
            Some(i) => i < s@.len() && str_at(strs_model(s@), x@) == Some(i as int),
            None => str_at(strs_model(s@), x@) is None,
        },
{
    let ghost m = strs_model(s@);
    let mut i: usize = 0;
    while i < s.len()
        invariant
            i <= s@.len(),
            m == strs_model(s@),
            forall|j: int| 0 <= j < i ==> m[j] != x@,
        decreases s.len() - i,
    {
        if str_eq(s[i].as_str(), x) {
            proof {
                lemma_str_first(m, x@, i as int);
            }
            return Some(i);
        }
        i = i + 1;
    }
    proof {
        lemma_str_none(m, x@);
    }
    None
}

fn find_u64(s: &Vec<ProcId>, x: ProcId) -> (o: Option<usize>)
    ensures
        match o {
            Some(i) => i < s@.len() && elem_at(s@, x) == Some(i as int),
            None => elem_at(s@, x) is None,
        },
{
    let mut i: usize = 0;
    while i < s.len()
        invariant
            i <= s@.len(),
            forall|j: int| 0 <= j < i ==> s@[j] != x,
        decreases s.len() - i,
    {
        if s[i] == x {
            proof {
                lemma_elem_first(s@, x, i as int);
            }
            return Some(i);
        }
        i = i + 1;
    }
    proof {
        lemma_elem_none(s@, x);
    }
    None
}

impl ProcessRegistry {
    /// The model of the registry.
    pub open spec fn model(&self) -> RegistryModel {
        RegistryModel {
            pids: pids_model(self.process_senders@),
            names: names_model(self.name_to_pid@),
            owned: owned_model(self.pid_to_names@),
            infos: infos_model(self.process_info@),
            sequences: self.message_sequences@,
        }
    }

    /// An empty registry.
    pub fn new() -> (r: ProcessRegistry)
        ensures
            r.model().pids.len() == 0,
            r.model().names.len() == 0,
            r.model().owned.len() == 0,
            r.model().infos.len() == 0,
            r.model().sequences.len() == 0,
    {
        ProcessRegistry {
            process_senders: Vec::new(),
            name_to_pid: Vec::new(),
            pid_to_names: Vec::new(),
            process_info: Vec::new(),
            message_sequences: Vec::new(),
        }
    }

    fn find_sender(&self, pid: ProcId) -> (o: Option<usize>)
        ensures
            match o {
                Some(i) => i < self.process_senders@.len() && elem_at(self.model().pids, pid) == Some(i as int),
                None => elem_at(self.model().pids, pid) is None,
            },
    {
        let ghost m = self.model().pids;
        let mut i: usize = 0;
        while i < self.process_senders.len()
            invariant
                i <= self.process_senders@.len(),
                m == pids_model(self.process_senders@),
                forall|j: int| 0 <= j < i ==> m[j] != pid,
            decreases self.process_senders.len() - i,
        {
            if self.process_senders[i].0 == pid {
                proof {
                    lemma_elem_first(m, pid, i as int);
                }
                return Some(i);
            }
            i = i + 1;
        }
        proof {
            lemma_elem_none(m, pid);
        }
        None
    }

    fn find_name(&self, name: &str) -> (o: Option<usize>)
        ensures
            match o {
                Some(i) => i < self.name_to_pid@.len() && key_at(self.model().names, name@) == Some(i as int),
                None => key_at(self.model().names, name@) is None,
            },
    {
        let ghost m = self.model().names;
        let mut i: usize = 0;
        while i < self.name_to_pid.len()
            invariant
                i <= self.name_to_pid@.len(),
                m == names_model(self.name_to_pid@),
                forall|j: int| 0 <= j < i ==> m[j].0 != name@,
            decreases self.name_to_pid.len() - i,
        {
            if str_eq(self.name_to_pid[i].0.as_str(), name) {
                proof {
                    lemma_key_first(m, name@, i as int);
                }
                return Some(i);
            }
            i = i + 1;
        }
        proof {
            lemma_key_none(m, name@);
        }
        None
    }

    fn find_owner(&self, pid: ProcId) -> (o: Option<usize>)
        ensures
            match o {
                Some(i) => i < self.pid_to_names@.len() && key_at(self.model().owned, pid) == Some(i as int)
                    && self.pid_to_names@[i as int].0 == pid,
                None => key_at(self.model().owned, pid) is None,
            },
    {
        let ghost m = self.model().owned;
        let mut i: usize = 0;
        while i < self.pid_to_names.len()
            invariant
                i <= self.pid_to_names@.len(),
                m == owned_model(self.pid_to_names@),
                forall|j: int| 0 <= j < i ==> m[j].0 != pid,
            decreases self.pid_to_names.len() - i,
        {
            if self.pid_to_names[i].0 == pid {
                proof {
                    lemma_key_first(m, pid, i as int);
                }
                return Some(i);
            }
            i = i + 1;
        }
        proof {
            lemma_key_none(m, pid);
        }
        None
    }

    fn find_info(&self, pid: ProcId) -> (o: Option<usize>)
        ensures
            match o {
                Some(i) => i < self.process_info@.len() && key_at(self.model().infos, pid) == Some(i as int)
                    && self.process_info@[i as int].0 == pid,
                None => key_at(self.model().infos, pid) is None,
            },
    {
        let ghost m = self.model().infos;
        let mut i: usize = 0;
        while i < self.process_info.len()
            invariant
                i <= self.process_info@.len(),
                m == infos_model(self.process_info@),
                forall|j: int| 0 <= j < i ==> m[j].0 != pid,
            decreases self.process_info.len() - i,
        {
            if self.process_info[i].0 == pid {
                proof {
                    lemma_key_first(m, pid, i as int);
                }
                return Some(i);
            }
            i = i + 1;
        }
        proof {
            lemma_key_none(m, pid);
        }
        None
    }

    fn find_sequence(&self, key: (ProcId, ProcId)) -> (o: Option<usize>)
        ensures
            match o {
                Some(i) => i < self.message_sequences@.len() && key_at(self.model().sequences, key) == Some(i as int),
                None => key_at(self.model().sequences, key) is None,
            },
    {
        let ghost m = self.model().sequences;
        let mut i: usize = 0;
        while i < self.message_sequences.len()
            invariant
                i <= self.message_sequences@.len(),
                m == self.message_sequences@,
                forall|j: int| 0 <= j < i ==> m[j].0 != key,
            decreases self.message_sequences.len() - i,
        {
            if self.message_sequences[i].0.0 == key.0 && self.message_sequences[i].0.1 == key.1 {
                proof {
                    lemma_key_first(m, key, i as int);
                }
                return Some(i);
            }
            i = i + 1;
        }
        proof {
            lemma_key_none(m, key);
        }
        None
    }
}

/// `register_name`: a registered process that is not yet named `n` gets
/// the name; otherwise the error text.
pub open spec fn register_name_spec(r: RegistryModel, n: Seq<char>, p: u64) -> Result<RegistryModel, Seq<char>> {
    if elem_at(r.pids, p) is None {
        Err(not_found(p))
    } else if key_at(r.names, n) is Some {
        Err("Name '"@ + n + "' already registered"@)
    } else {
        Ok(
            RegistryModel {
                names: r.names.push((n, p)),
                owned: match key_at(r.owned, p) {
                    Some(i) => r.owned.update(i, (p, names_add(r.owned[i].1, n))),
                    None => r.owned.push((p, seq![n])),
                },
                ..r
            },
        )
    }
}

/// `unregister_name`: the name leaves the name table and its process's
/// names (a process left with no name loses its entry); an unknown name is
/// an error.
pub open spec fn unregister_name_spec(r: RegistryModel, n: Seq<char>) -> Result<RegistryModel, Seq<char>> {
    match table_get(r.names, n) {
        Some(p) => Ok(
            RegistryModel {
                names: table_del(r.names, n),
                owned: match key_at(r.owned, p) {
                    Some(i) => if names_del(r.owned[i].1, n).len() == 0 {
                        r.owned.remove(i)
                    } else {
                        r.owned.update(i, (p, names_del(r.owned[i].1, n)))
                    },
                    None => r.owned,
                },
                ..r
            },
        ),
        None => Err("Name '"@ + n + "' not found"@),
    }
}

/// The process registered under a name.
pub open spec fn whereis_spec(r: RegistryModel, n: Seq<char>) -> Option<u64> {
    table_get(r.names, n)
}

/// The counters after a message from `from` to `to`: the pair's sequence
/// number and the receiver's message count go up by one (wrapping).
pub open spec fn counted(r: RegistryModel, from: u64, to: u64) -> RegistryModel {
    RegistryModel {
        sequences: table_put(
            r.sequences,
            (from, to),
            match table_get(r.sequences, (from, to)) {
                Some(c) => c.wrapping_add(1),
                None => 1,
            },
        ),
        infos: match key_at(r.infos, to) {
            Some(i) => r.infos.update(
                i,
                (to, InfoModel { message_count: r.infos[i].1.message_count.wrapping_add(1), ..r.infos[i].1 }),
            ),
            None => r.infos,
        },
        ..r
    }
}

impl ProcessRegistry {
    /// Registers a process with its mailbox and a fresh record; a process
    /// registered already is an error.
    pub fn register_process(&mut self, pid: ProcId, sender: Sender<Message>) -> (r: Result<(), String>)
        ensures
            elem_at(old(self).model().pids, pid) is Some ==> r is Err && r->Err_0@ == "Process "@ + nat_text(
                pid as nat,
            ) + " already registered"@ && final(self).model() == old(self).model(),
            elem_at(old(self).model().pids, pid) is None ==> r is Ok && final(self).model() == (RegistryModel {
                pids: old(self).model().pids.push(pid),
                infos: table_put(old(self).model().infos, pid, fresh_info(pid)),
                ..old(self).model()
            }),
    {
        if self.find_sender(pid).is_some() {
            return Err(pid_message("Process ", pid, " already registered"));
        }
        self.process_senders.push((pid, sender));
        assert(self.model().pids =~= old(self).model().pids.push(pid));
        let info = ProcessInfo {
            pid,
            start_time: now(),
            message_count: 0,
            state: ProcState::Ready,
            supervisor: None,
            children: Vec::new(),
        };
        assert(info.model() == fresh_info(pid)) by {
            assert(info.children@ =~= Seq::<u64>::empty());
        }
        match self.find_info(pid) {
            Some(i) => {
                self.process_info.set(i, (pid, info));
                assert(self.model().infos =~= old(self).model().infos.update(i as int, (pid, fresh_info(pid))));
            },
            None => {
                self.process_info.push((pid, info));
                assert(self.model().infos =~= old(self).model().infos.push((pid, fresh_info(pid))));
            },
        }
        Ok(())
    }

    fn drop_name(&mut self, name: &str)
        ensures
            final(self).model() == (RegistryModel {
                names: table_del(old(self).model().names, name@),
                ..old(self).model()
            }),
    {
        match self.find_name(name) {
            Some(i) => {
                self.name_to_pid.remove(i);
                assert(self.model().names =~= old(self).model().names.remove(i as int));
            },
            None => {},
        }
    }

    /// Removes a process: its mailbox, its names and its record.
    pub fn unregister_process(&mut self, pid: ProcId) -> (r: Result<(), String>)
        ensures
            r is Ok,
            final(self).model() == process_removed(old(self).model(), pid),
    {
        match self.find_sender(pid) {
            Some(i) => {
                self.process_senders.remove(i);
                assert(self.model().pids =~= old(self).model().pids.remove(i as int));
            },
            None => {},
        }
        let ghost m1 = self.model();
        match self.find_owner(pid) {
            Some(i) => {
                let (_, names) = self.pid_to_names.remove(i);
                assert(self.model().owned =~= old(self).model().owned.remove(i as int));
                let ghost gone = strs_model(names@);
                assert(gone == names_of(old(self).model().owned, pid));
                let ghost m1 = self.model();
                assert(gone.skip(0) =~= gone);
                let mut k: usize = 0;
                while k < names.len()
                    invariant
                        k <= names@.len(),
                        gone == strs_model(names@),
                        names_without(m1.names, gone) == names_without(self.model().names, gone.skip(k as int)),
                        self.model() == (RegistryModel { names: self.model().names, ..m1 }),
                    decreases names.len() - k,
                {
                    assert(gone.skip(k as int)[0] == names@[k as int]@);
                    assert(gone.skip(k as int).drop_first() =~= gone.skip(k + 1));
                    self.drop_name(names[k].as_str());
                    k = k + 1;
                }
                assert(gone.skip(names@.len() as int) =~= Seq::<Seq<char>>::empty());
            },
            None => {
                assert(names_of(old(self).model().owned, pid) =~= Seq::<Seq<char>>::empty());
            },
        }
        let ghost m2 = self.model();
        match self.find_info(pid) {
            Some(i) => {
                self.process_info.remove(i);
                assert(self.model().infos =~= m2.infos.remove(i as int));
            },
            None => {},
        }
        Ok(())
    }

    /// Registers a process under a name (see [`register_name_spec`]).
    pub fn register_name(&mut self, name: String, pid: ProcId) -> (r: Result<(), String>)
        ensures
            match register_name_spec(old(self).model(), name@, pid) {
                Ok(m) => r is Ok && final(self).model() == m,
                Err(e) => r is Err && r->Err_0@ == e && final(self).model() == old(self).model(),
            },
    {
        if self.find_sender(pid).is_none() {
            return Err(pid_message("Process ", pid, " not found"));
        }
        if self.find_name(name.as_str()).is_some() {
            return Err(name_message("Name '", name.as_str(), "' already registered"));
        }
        let ghost n = name@;
        let key = name.clone();
        self.name_to_pid.push((key, pid));
        assert(self.model().names =~= old(self).model().names.push((n, pid)));
        let ghost m1 = self.model();
        match self.find_owner(pid) {
            Some(i) => {
                let ghost before = strs_model(self.pid_to_names@[i as int].1@);
                let ghost v0 = self.pid_to_names@;
                let mut entry = self.pid_to_names.remove(i);
                if find_str(&entry.1, name.as_str()).is_none() {
                    entry.1.push(name);
                    assert(strs_model(entry.1@) =~= before.push(n));
                }
                let ghost e = entry;
                self.pid_to_names.insert(i, entry);
                assert(self.pid_to_names@ =~= v0.update(i as int, e));
                assert(self.model().owned =~= m1.owned.update(i as int, (pid, names_add(m1.owned[i as int].1, n))));
            },
            None => {
                let mut v: Vec<String> = Vec::new();
                v.push(name);
                assert(strs_model(v@) =~= seq![n]);
                self.pid_to_names.push((pid, v));
                assert(self.model().owned =~= m1.owned.push((pid, seq![n])));
            },
        }
        Ok(())
    }

    /// Removes a name (see [`unregister_name_spec`]).
    pub fn unregister_name(&mut self, name: &str) -> (r: Result<(), String>)
        ensures
            match unregister_name_spec(old(self).model(), name@) {
                Ok(m) => r is Ok && final(self).model() == m,
                Err(e) => r is Err && r->Err_0@ == e && final(self).model() == old(self).model(),
            },
    {
        let i = match self.find_name(name) {
            Some(i) => i,
            None => {
                return Err(name_message("Name '", name, "' not found"));
            },
        };
        let (_, pid) = self.name_to_pid.remove(i);
        assert(self.model().names =~= old(self).model().names.remove(i as int));
        let ghost m1 = self.model();
        match self.find_owner(pid) {
            Some(j) => {
                let ghost before = strs_model(self.pid_to_names@[j as int].1@);
                let ghost v0 = self.pid_to_names@;
                let mut entry = self.pid_to_names.remove(j);
                match find_str(&entry.1, name) {
                    Some(k) => {
                        entry.1.remove(k);
                        assert(strs_model(entry.1@) =~= before.remove(k as int));
                    },
                    None => {},
                }
                if entry.1.len() == 0 {
                    assert(self.model().owned =~= m1.owned.remove(j as int));
                } else {
                    let ghost e = entry;
                    self.pid_to_names.insert(j, entry);
                    assert(self.pid_to_names@ =~= v0.update(j as int, e));
                    assert(self.model().owned =~= m1.owned.update(
                        j as int,
                        (pid, names_del(m1.owned[j as int].1, name@)),
                    ));
                }
            },
            None => {},
        }
        Ok(())
    }

    /// The process registered under a name.
    pub fn whereis(&self, name: &str) -> (r: Option<ProcId>)
        ensures
            r == whereis_spec(self.model(), name@),
    {
        match self.find_name(name) {
            Some(i) => Some(self.name_to_pid[i].1),
            None => None,
        }
    }

    /// The route of a message from `from_pid` to `to_pid`: the position of
    /// the receiver's channel among the registered ones. An unregistered
    /// receiver is an error; otherwise the pair's counters go up (see
    /// [`counted`]).
    pub fn route(&mut self, from_pid: ProcId, to_pid: ProcId) -> (r: Result<usize, String>)
        ensures
            final(self).process_senders == old(self).process_senders,
            elem_at(old(self).model().pids, to_pid) is None ==> r is Err && r->Err_0@ == not_found(to_pid)
                && final(self).model() == old(self).model(),
            elem_at(old(self).model().pids, to_pid) is Some ==> r == Ok::<usize, String>(
                elem_at(old(self).model().pids, to_pid)->Some_0 as usize,
            ) && final(self).model() == counted(old(self).model(), from_pid, to_pid),
            r matches Ok(i) ==> i < final(self).process_senders@.len() && final(self).process_senders@[i as int].0
                == to_pid,
    {
        let s = match self.find_sender(to_pid) {
            Some(s) => s,
            None => {
                return Err(pid_message("Process ", to_pid, " not found"));
            },
        };
        proof {
            lemma_elem_at_found(self.model().pids, to_pid);
        }
        let key = (from_pid, to_pid);
        match self.find_sequence(key) {
            Some(i) => {
                let c = self.message_sequences[i].1;
                self.message_sequences.set(i, (key, c.wrapping_add(1)));
                assert(self.model().sequences =~= old(self).model().sequences.update(i as int, (key, c.wrapping_add(1))));
            },
            None => {
                self.message_sequences.push((key, 1));
                assert(self.model().sequences =~= old(self).model().sequences.push((key, 1)));
            },
        }
        let ghost m1 = self.model();
        match self.find_info(to_pid) {
            Some(i) => {
                let ghost v0 = self.process_info@;
                let mut entry = self.process_info.remove(i);
                entry.1.message_count = entry.1.message_count.wrapping_add(1);
                let ghost e = entry;
                self.process_info.insert(i, entry);
                assert(self.process_info@ =~= v0.update(i as int, e));
                assert(self.model().infos =~= m1.infos.update(
                    i as int,
                    (to_pid, InfoModel { message_count: m1.infos[i as int].1.message_count.wrapping_add(1), ..m1.infos[i as int].1 }),
                ));
            },
            None => {},
        }
        Ok(s)
    }

    /// Sends a message from `from_pid` to `to_pid`: an unregistered receiver
    /// is an error; otherwise the pair's counters go up (see [`counted`])
    /// and the message is handed to the receiver's channel, the one that
    /// [`ProcessRegistry::route`] finds; whether it arrives depends on the
    /// receiving side.
    pub fn send_message(&mut self, from_pid: ProcId, to_pid: ProcId, message: Message) -> (r: Result<(), String>)
        ensures
            elem_at(old(self).model().pids, to_pid) is None ==> r is Err && r->Err_0@ == not_found(to_pid)
                && final(self).model() == old(self).model(),
            elem_at(old(self).model().pids, to_pid) is Some ==> final(self).model() == counted(
                old(self).model(),
                from_pid,
                to_pid,
            ),
            elem_at(old(self).model().pids, to_pid) is Some && r is Err ==> r->Err_0@ == send_failed(),
    {
        match self.route(from_pid, to_pid) {
            Ok(i) => match channel_send(&self.process_senders[i].1, message) {
                Ok(()) => Ok(()),
                Err(e) => {
                    let mut t = chars_of("Failed to send message: ");
                    let u = chars_of(e.as_str());
                    append_chars(&mut t, u.as_slice());
                    proof {
                        reveal_strlit("Failed to send message: ");
                        reveal_strlit("sending on a disconnected channel");
                        reveal_strlit("Failed to send message: sending on a disconnected channel");
                        assert(t@ =~= send_failed());
                    }
                    Err(string_of(t.as_slice()))
                },
            },
            Err(e) => Err(e),
        }
    }

    /// Sends a message from the system (process 0).
    pub fn send_message_simple(&mut self, pid: ProcId, message: Message) -> (r: Result<(), String>)
        ensures
            elem_at(old(self).model().pids, pid) is None ==> r is Err && r->Err_0@ == not_found(pid)
                && final(self).model() == old(self).model(),
            elem_at(old(self).model().pids, pid) is Some ==> final(self).model() == counted(old(self).model(), 0, pid),
            elem_at(old(self).model().pids, pid) is Some && r is Err ==> r->Err_0@ == send_failed(),
    {
        self.send_message(0, pid, message)
    }

    /// Sends a message to the process registered under a name; an unknown
    /// name is an error.
    pub fn send_to_named(&mut self, name: &str, message: Message) -> (r: Result<(), String>)
        ensures
            match whereis_spec(old(self).model(), name@) {
                None => r is Err && r->Err_0@ == "Process '"@ + name@ + "' not found"@ && final(self).model() == old(
                    self,
                ).model(),
                Some(pid) => (elem_at(old(self).model().pids, pid) is None ==> r is Err && r->Err_0@ == not_found(pid)
                    && final(self).model() == old(self).model()) && (elem_at(old(self).model().pids, pid) is Some
                    ==> final(self).model() == counted(old(self).model(), 0, pid)) && (elem_at(
                    old(self).model().pids,
                    pid,
                ) is Some && r is Err ==> r->Err_0@ == send_failed()),
            },
    {
        match self.whereis(name) {
            Some(pid) => self.send_message_simple(pid, message),
            None => Err(name_message("Process '", name, "' not found")),
        }
    }

    /// The record of a process.
    pub fn get_process_info(&self, pid: ProcId) -> (r: Option<&ProcessInfo>)
        ensures
            match table_get(self.model().infos, pid) {
                Some(m) => r is Some && r->Some_0.model() == m,
                None => r is None,
            },
    {
        match self.find_info(pid) {
            Some(i) => Some(&self.process_info[i].1),
            None => None,
        }
    }

    /// Sets the state in a process's record, if it has one.
    pub fn update_process_state(&mut self, pid: ProcId, state: ProcState)
        ensures
            final(self).model() == (RegistryModel {
                infos: match key_at(old(self).model().infos, pid) {
                    Some(i) => old(self).model().infos.update(
                        i,
                        (pid, InfoModel { state, ..old(self).model().infos[i].1 }),
                    ),
                    None => old(self).model().infos,
                },
                ..old(self).model()
            }),
    {
        match self.find_info(pid) {
            Some(i) => {
                let ghost v0 = self.process_info@;
                let mut entry = self.process_info.remove(i);
                entry.1.state = state;
                let ghost e = entry;
                self.process_info.insert(i, entry);
                assert(self.process_info@ =~= v0.update(i as int, e));
                assert(self.model().infos =~= old(self).model().infos.update(
                    i as int,
                    (pid, InfoModel { state, ..old(self).model().infos[i as int].1 }),
                ));
            },
            None => {},
        }
    }

    fn set_supervisor_of(&mut self, child_pid: ProcId, supervisor_pid: ProcId)
        ensures
            final(self).model() == (RegistryModel {
                infos: match key_at(old(self).model().infos, child_pid) {
                    Some(i) => old(self).model().infos.update(
                        i,
                        (child_pid, InfoModel { supervisor: Some(supervisor_pid), ..old(self).model().infos[i].1 }),
                    ),
                    None => old(self).model().infos,
                },
                ..old(self).model()
            }),
    {
        match self.find_info(child_pid) {
            Some(i) => {
                let ghost v0 = self.process_info@;
                let mut entry = self.process_info.remove(i);
                entry.1.supervisor = Some(supervisor_pid);
                let ghost e = entry;
                self.process_info.insert(i, entry);
                assert(self.process_info@ =~= v0.update(i as int, e));
                assert(self.model().infos =~= old(self).model().infos.update(
                    i as int,
                    (child_pid, InfoModel { supervisor: Some(supervisor_pid), ..old(self).model().infos[i as int].1 }),
                ));
            },
            None => {},
        }
    }

    /// Records a supervision: the child's record names its supervisor and
    /// the supervisor's record lists the child.
    pub fn set_supervisor(&mut self, child_pid: ProcId, supervisor_pid: ProcId)
        ensures
            ({
                let a = match key_at(old(self).model().infos, child_pid) {
                    Some(i) => old(self).model().infos.update(
                        i,
                        (child_pid, InfoModel { supervisor: Some(supervisor_pid), ..old(self).model().infos[i].1 }),
                    ),
                    None => old(self).model().infos,
                };
                final(self).model() == (RegistryModel {
                    infos: match key_at(a, supervisor_pid) {
                        Some(j) => a.update(
                            j,
                            (supervisor_pid, InfoModel { children: set_add(a[j].1.children, child_pid), ..a[j].1 }),
                        ),
                        None => a,
                    },
                    ..old(self).model()
                })
            }),
    {
        self.set_supervisor_of(child_pid, supervisor_pid);
        let ghost a = self.model().infos;
        match self.find_info(supervisor_pid) {
            Some(j) => {
                let ghost v0 = self.process_info@;
                let mut entry = self.process_info.remove(j);
                if find_u64(&entry.1.children, child_pid).is_none() {
                    entry.1.children.push(child_pid);
                }
                let ghost e = entry;
                self.process_info.insert(j, entry);
                assert(self.process_info@ =~= v0.update(j as int, e));
                assert(self.model().infos =~= a.update(
                    j as int,
                    (supervisor_pid, InfoModel { children: set_add(a[j as int].1.children, child_pid), ..a[j as int].1 }),
                ));
            },
            None => {},
        }
    }
}

pub(crate) proof fn lemma_key_at_found<K, V>(s: Seq<(K, V)>, k: K)
    requires
        key_at(s, k) is Some,
    ensures
        0 <= key_at(s, k)->Some_0 < s.len(),
        s[key_at(s, k)->Some_0].0 == k,
        forall|j: int| 0 <= j < key_at(s, k)->Some_0 ==> s[j].0 != k,
    decreases s.len(),
{
    if s.len() > 0 && s[0].0 != k {
        lemma_key_at_found(s.drop_first(), k);
        assert forall|j: int| 0 <= j < key_at(s, k)->Some_0 implies s[j].0 != k by {
            if j > 0 {
                assert(s[j] == s.drop_first()[j - 1]);
            }
        }
    }
}

pub(crate) proof fn lemma_key_at_absent<K, V>(s: Seq<(K, V)>, k: K)
    requires
        key_at(s, k) is None,
    ensures
        forall|j: int| 0 <= j < s.len() ==> s[j].0 != k,
    decreases s.len(),
{
    if s.len() > 0 {
        lemma_key_at_absent(s.drop_first(), k);
        assert forall|j: int| 0 <= j < s.len() implies s[j].0 != k by {
            if j > 0 {
                assert(s[j] == s.drop_first()[j - 1]);
            }
        }
    }
}

/// No name occurs twice in the name table.
pub open spec fn names_unique(r: RegistryModel) -> bool {
    forall|i: int, j: int| 0 <= i < j < r.names.len() ==> r.names[i].0 != r.names[j].0
}

/// A name registered for a process is found for it.
pub proof fn law_register_then_whereis(r: RegistryModel, n: Seq<char>, p: u64)
    requires
        register_name_spec(r, n, p) is Ok,
    ensures
        whereis_spec(register_name_spec(r, n, p)->Ok_0, n) == Some(p),
{
    let s = r.names;
    lemma_key_at_absent(s, n);
    let t = s.push((n, p));
    assert forall|j: int| 0 <= j < s.len() implies t[j].0 != n by {
        assert(t[j] == s[j]);
    }
    lemma_key_first(t, n, s.len() as int);
}

/// A name that is removed is no longer found, when no name occurs twice.
pub proof fn law_unregister_then_whereis(r: RegistryModel, n: Seq<char>)
    requires
        names_unique(r),
        unregister_name_spec(r, n) is Ok,
    ensures
        whereis_spec(unregister_name_spec(r, n)->Ok_0, n) is None,
{
    let s = r.names;
    lemma_key_at_found(s, n);
    let i = key_at(s, n)->Some_0;
    let t = s.remove(i);
    assert forall|j: int| 0 <= j < t.len() implies t[j].0 != n by {
        if j < i {
            assert(t[j] == s[j]);
        } else {
            assert(t[j] == s[j + 1]);
        }
    }
    lemma_key_none(t, n);
}

/// Registering and removing names keep every name unique and every named
/// process registered.
pub proof fn law_names_stay_consistent(r: RegistryModel, n: Seq<char>, p: u64)
    requires
        names_unique(r),
        names_registered(r),
    ensures
        register_name_spec(r, n, p) is Ok ==> names_unique(register_name_spec(r, n, p)->Ok_0) && names_registered(
            register_name_spec(r, n, p)->Ok_0,
        ),
        unregister_name_spec(r, n) is Ok ==> names_unique(unregister_name_spec(r, n)->Ok_0) && names_registered(
            unregister_name_spec(r, n)->Ok_0,
        ),
{
    let s = r.names;
    if register_name_spec(r, n, p) is Ok {
        lemma_key_at_absent(s, n);
        let t = s.push((n, p));
        let r2 = register_name_spec(r, n, p)->Ok_0;
        assert(r2.names == t);
        assert forall|i: int, j: int| 0 <= i < j < t.len() implies t[i].0 != t[j].0 by {
            if j < s.len() {
                assert(t[i] == s[i] && t[j] == s[j]);
            } else {
                assert(t[i] == s[i]);
            }
        }
        assert forall|i: int| 0 <= i < t.len() implies elem_at(r2.pids, #[trigger] t[i].1) is Some by {
            if i < s.len() {
                assert(t[i] == s[i]);
            }
        }
    }
    if unregister_name_spec(r, n) is Ok {
        lemma_key_at_found(s, n);
        let k = key_at(s, n)->Some_0;
        let t = s.remove(k);
        let r2 = unregister_name_spec(r, n)->Ok_0;
        assert(r2.names == t);
        assert forall|i: int, j: int| 0 <= i < j < t.len() implies t[i].0 != t[j].0 by {
            let a = if i < k { i } else { i + 1 };
            let b = if j < k { j } else { j + 1 };
            assert(t[i] == s[a] && t[j] == s[b]);
        }
        assert forall|i: int| 0 <= i < t.len() implies elem_at(r2.pids, #[trigger] t[i].1) is Some by {
            if i < k {
                assert(t[i] == s[i]);
            } else {
                assert(t[i] == s[i + 1]);
            }
        }
    }
}

/// Registering a name and then unregistering it gives the tables back as
/// they were, when the process's name set did not hold the name and an
/// entry of the process, if any, names something (an emptied set is
/// dropped).
pub proof fn law_register_then_unregister(r: RegistryModel, n: Seq<char>, p: u64)
    requires
        register_name_spec(r, n, p) is Ok,
        !names_of(r.owned, p).contains(n),
        key_at(r.owned, p) is Some ==> names_of(r.owned, p).len() > 0,
    ensures
        unregister_name_spec(register_name_spec(r, n, p)->Ok_0, n) == Ok::<RegistryModel, Seq<char>>(r),
{
    let r2 = register_name_spec(r, n, p)->Ok_0;
    lemma_key_at_absent(r.names, n);
    let t = r.names.push((n, p));
    assert forall|j: int| 0 <= j < r.names.len() implies t[j].0 != n by {
        assert(t[j] == r.names[j]);
    }
    lemma_key_first(t, n, r.names.len() as int);
    assert(table_del(t, n) =~= r.names);
    match key_at(r.owned, p) {
        Some(i) => {
            lemma_key_at_found(r.owned, p);
            let s = r.owned[i].1;
            assert forall|j: int| 0 <= j < s.len() implies s[j] != n by {
                if s[j] == n {
                    assert(s.contains(n));
                }
            }
            lemma_str_none(s, n);
            assert(names_add(s, n) == s.push(n));
            let o2 = r.owned.update(i, (p, s.push(n)));
            assert forall|j: int| 0 <= j < i implies o2[j].0 != p by {
                assert(o2[j] == r.owned[j]);
            }
            lemma_key_first(o2, p, i);
            assert forall|j: int| 0 <= j < s.len() implies s.push(n)[j] != n by {
                assert(s.push(n)[j] == s[j]);
            }
            lemma_str_first(s.push(n), n, s.len() as int);
            assert(names_del(s.push(n), n) =~= s);
            assert(o2.update(i, (p, s)) =~= r.owned);
        },
        None => {
            lemma_key_at_absent(r.owned, p);
            let o2 = r.owned.push((p, seq![n]));
            assert forall|j: int| 0 <= j < r.owned.len() implies o2[j].0 != p by {
                assert(o2[j] == r.owned[j]);
            }
            lemma_key_first(o2, p, r.owned.len() as int);
            lemma_str_first(seq![n], n, 0);
            assert(names_del(seq![n], n) =~= Seq::<Seq<char>>::empty());
            assert(o2.remove(r.owned.len() as int) =~= r.owned);
        },
    }
}


/// No key occurs twice in a table.
pub open spec fn keys_unique<K, V>(s: Seq<(K, V)>) -> bool {
    forall|i: int, j: int| 0 <= i < j < s.len() ==> s[i].0 != s[j].0
}

/// Every name in the name table is listed in the name set of its process.
pub open spec fn names_owned(r: RegistryModel) -> bool {
    forall|i: int| 0 <= i < r.names.len() ==> names_of(r.owned, r.names[i].1).contains(#[trigger] r.names[i].0)
}

proof fn lemma_get_entry<K, V>(s: Seq<(K, V)>, k: K)
    requires
        table_get(s, k) is Some,
    ensures
        s.contains((k, table_get(s, k)->Some_0)),
{
    lemma_key_at_found(s, k);
    let i = key_at(s, k)->Some_0;
    assert(s[i] == (k, table_get(s, k)->Some_0));
}

proof fn lemma_entry_get<K, V>(s: Seq<(K, V)>, i: int)
    requires
        keys_unique(s),
        0 <= i < s.len(),
    ensures
        table_get(s, s[i].0) == Some(s[i].1),
{
    lemma_key_first(s, s[i].0, i);
}

proof fn lemma_del_other<K, V>(s: Seq<(K, V)>, k: K, m: K)
    requires
        m != k,
    ensures
        table_get(table_del(s, k), m) == table_get(s, m),
{
    if let Some(i) = key_at(s, k) {
        lemma_key_at_found(s, k);
        let t = s.remove(i);
        match key_at(s, m) {
            Some(jm) => {
                lemma_key_at_found(s, m);
                if jm < i {
                    assert forall|j: int| 0 <= j < jm implies t[j].0 != m by {
                        assert(t[j] == s[j]);
                    }
                    lemma_key_first(t, m, jm);
                } else {
                    assert forall|j: int| 0 <= j < jm - 1 implies t[j].0 != m by {
                        if j < i {
                            assert(t[j] == s[j]);
                        } else {
                            assert(t[j] == s[j + 1]);
                        }
                    }
                    assert(t[jm - 1] == s[jm]);
                    lemma_key_first(t, m, jm - 1);
                }
            },
            None => {
                lemma_key_at_absent(s, m);
                assert forall|j: int| 0 <= j < t.len() implies t[j].0 != m by {
                    if j < i {
                        assert(t[j] == s[j]);
                    } else {
                        assert(t[j] == s[j + 1]);
                    }
                }
                lemma_key_none(t, m);
            },
        }
    }
}

proof fn lemma_del_same<K, V>(s: Seq<(K, V)>, k: K)
    requires
        keys_unique(s),
    ensures
        keys_unique(table_del(s, k)),
        table_get(table_del(s, k), k) is None,
        forall|j: int| 0 <= j < table_del(s, k).len() ==> s.contains(#[trigger] table_del(s, k)[j]),
{
    match key_at(s, k) {
        Some(i) => {
            lemma_key_at_found(s, k);
            let t = s.remove(i);
            assert forall|j: int| 0 <= j < t.len() implies t[j].0 != k && s.contains(#[trigger] t[j]) by {
                if j < i {
                    assert(t[j] == s[j]);
                } else {
                    assert(t[j] == s[j + 1]);
                }
            }
            assert forall|a: int, b: int| 0 <= a < b < t.len() implies t[a].0 != t[b].0 by {
                let x = if a < i { a } else { a + 1 };
                let y = if b < i { b } else { b + 1 };
                assert(t[a] == s[x] && t[b] == s[y]);
            }
            lemma_key_none(t, k);
        },
        None => {
            assert forall|j: int| 0 <= j < s.len() implies s.contains(#[trigger] s[j]) by {}
        },
    }
}

proof fn lemma_without(names: Seq<(Seq<char>, u64)>, gone: Seq<Seq<char>>, m: Seq<char>)
    requires
        keys_unique(names),
    ensures
        keys_unique(names_without(names, gone)),
        table_get(names_without(names, gone), m) == (if gone.contains(m) {
            None
        } else {
            table_get(names, m)
        }),
        forall|j: int|
            0 <= j < names_without(names, gone).len() ==> names.contains(#[trigger] names_without(names, gone)[j]),
    decreases gone.len(),
{
    if gone.len() > 0 {
        let t = table_del(names, gone[0]);
        lemma_del_same(names, gone[0]);
        lemma_without(t, gone.drop_first(), m);
        let w = names_without(names, gone);
        assert(w == names_without(t, gone.drop_first()));
        assert forall|j: int| 0 <= j < w.len() implies names.contains(#[trigger] w[j]) by {
            assert(t.contains(w[j]));
        }
        if m == gone[0] {
            assert(gone.contains(m));
            if gone.drop_first().contains(m) {
            } else {
                assert(table_get(t, m) is None);
            }
        } else {
            lemma_del_other(names, gone[0], m);
            if gone.contains(m) {
                let x = choose|x: int| 0 <= x < gone.len() && gone[x] == m;
                assert(gone.drop_first()[x - 1] == m);
            } else {
                assert forall|x: int| 0 <= x < gone.drop_first().len() implies gone.drop_first()[x] != m by {
                    assert(gone.drop_first()[x] == gone[x + 1]);
                }
            }
        }
    } else {
        assert forall|j: int| 0 <= j < names.len() implies names.contains(#[trigger] names[j]) by {}
    }
}

proof fn lemma_set_del_other(s: Seq<u64>, x: u64, q: u64)
    requires
        q != x,
        elem_at(s, q) is Some,
    ensures
        elem_at(set_del(s, x), q) is Some,
{
    lemma_elem_at_found(s, q);
    let jq = elem_at(s, q)->Some_0;
    if let Some(i) = elem_at(s, x) {
        lemma_elem_at_found(s, x);
        let t = s.remove(i);
        let k = if jq < i { jq } else { jq - 1 };
        assert(t[k] == q);
        lemma_elem_some(t, q, k);
    }
}

proof fn lemma_elem_some(s: Seq<u64>, q: u64, k: int)
    requires
        0 <= k < s.len(),
        s[k] == q,
    ensures
        elem_at(s, q) is Some,
    decreases k,
{
    if s[0] != q {
        assert(s.drop_first()[k - 1] == q);
        lemma_elem_some(s.drop_first(), q, k - 1);
    }
}

/// When a process is removed, every name it owned is dropped, every other
/// name still finds what it found, and the tables stay consistent: no name
/// twice, every named process registered and every name listed by its
/// process. No name is left that finds the removed process.
pub proof fn law_unregister_process_drops_names(r: RegistryModel, pid: u64, n: Seq<char>)
    requires
        names_unique(r),
        names_registered(r),
        names_owned(r),
    ensures
        names_of(r.owned, pid).contains(n) ==> whereis_spec(process_removed(r, pid), n) is None,
        !names_of(r.owned, pid).contains(n) ==> whereis_spec(process_removed(r, pid), n) == whereis_spec(r, n),
        whereis_spec(process_removed(r, pid), n) != Some(pid),
        names_unique(process_removed(r, pid)),
        names_registered(process_removed(r, pid)),
        names_owned(process_removed(r, pid)),
{
    let r2 = process_removed(r, pid);
    let gone = names_of(r.owned, pid);
    assert(keys_unique(r.names));
    lemma_without(r.names, gone, n);
    assert(names_unique(r2));
    // Every entry left belongs to another process and keeps its owner's set.
    assert forall|i: int| 0 <= i < r2.names.len() implies #[trigger] r2.names[i].1 != pid && !gone.contains(
        r2.names[i].0,
    ) && names_of(r2.owned, r2.names[i].1).contains(r2.names[i].0) && elem_at(r2.pids, r2.names[i].1) is Some by {
        let e = r2.names[i];
        lemma_without(r.names, gone, e.0);
        assert(r.names.contains(e));
        let j = choose|j: int| 0 <= j < r.names.len() && r.names[j] == e;
        assert(names_of(r.owned, r.names[j].1).contains(r.names[j].0));
        assert(elem_at(r.pids, r.names[j].1) is Some);
        lemma_entry_get(r2.names, i);
        assert(!gone.contains(e.0));
        assert(e.1 != pid);
        lemma_del_other(r.owned, pid, e.1);
        lemma_set_del_other(r.pids, pid, e.1);
    }
    assert(names_registered(r2));
    assert(names_owned(r2));
    if whereis_spec(r2, n) == Some(pid) {
        lemma_get_entry(r2.names, n);
        let i = choose|i: int| 0 <= i < r2.names.len() && r2.names[i] == (n, pid);
        assert(r2.names[i].1 != pid);
    }
}

} // verus!
