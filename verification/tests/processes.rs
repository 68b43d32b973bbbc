use tiny_tot_vm::concurrency::messages::Message;
use tiny_tot_vm::concurrency::process::{matches_pattern, spawn_fallback, Delivery, ProcRequest, TinyProc};
use tiny_tot_vm::concurrency::registry::ProcessRegistry;
use tiny_tot_vm::concurrency::supervisor::{should_restart_child, ChildSpec, ChildType, RestartPolicy, Shutdown};
use tiny_tot_vm::gc::{MarkSweepGc, NoGc};
use tiny_tot_vm::ir::lowering::StackToRegisterLowering;
use tiny_tot_vm::ir::vm::{Effect, RegisterVM};
use tiny_tot_vm::ir::{RegBlock, RegInstr, RegValue};
use tiny_tot_vm::vm::env::{env_get, env_insert, env_remove};
use tiny_tot_vm::vm::equality::values_equal;
use tiny_tot_vm::vm::errors::VMError;
use tiny_tot_vm::vm::opcode::{MessagePattern, OpCode};
use tiny_tot_vm::vm::value::Value;
use tiny_tot_vm::ProcState;
use tiny_tot_vm::display::format_register_value;
use tiny_tot_vm::profiling::Profiler;
use tiny_tot_vm::concurrency::process::{program_has_concurrency, Turn};

fn drive(p: &mut TinyProc) -> (Vec<Value>, Vec<(u64, Message)>) {
    let mut printed = Vec::new();
    let mut sent = Vec::new();
    p.begin_slice();
    loop {
        let (out, req) = p.step();
        sent.extend(out);
        match req.expect("step succeeds") {
            ProcRequest::Continue => {}
            ProcRequest::Print(v) => printed.push(v),
            ProcRequest::SendChecked { to, msg } => {
                sent.push((to, msg));
                p.complete_send(Delivery::Delivered);
            }
            ProcRequest::Whereis(_) => p.complete_whereis(None),
            ProcRequest::Register(_) | ProcRequest::Unregister(_) | ProcRequest::SendNamed(_, _) => {
                p.complete_registry(None)
            }
            ProcRequest::Spawn(_) => p.complete_spawn(2),
            ProcRequest::RestartWindow => p.complete_restart(false),
            other => panic!("unexpected request {:?}", other),
        }
        if !p.keeps_running() {
            break;
        }
    }
    (printed, sent)
}

#[test]
fn process_prints_and_exits_normally() {
    let mut p = TinyProc::new(1, vec![OpCode::PushInt(4), OpCode::PushInt(5), OpCode::Mul, OpCode::Print, OpCode::Halt]);
    let (printed, _) = drive(&mut p);
    assert_eq!(printed, vec![Value::Int(20)]);
    assert_eq!(p.state, ProcState::Exited);
    assert_eq!(p.exit_reason, Some("normal".to_string()));
}

#[test]
fn receive_takes_a_sent_value() {
    let mut p = TinyProc::new(1, vec![OpCode::Receive, OpCode::Print, OpCode::Halt]);
    p.send_message(Message::Value(Value::Str("ping".to_string())));
    let (printed, _) = drive(&mut p);
    assert_eq!(printed, vec![Value::Str("ping".to_string())]);
    assert!(!p.has_messages());
}

#[test]
fn receive_on_an_empty_mailbox_waits() {
    let mut p = TinyProc::new(1, vec![OpCode::Receive, OpCode::Halt]);
    drive(&mut p);
    assert_eq!(p.state, ProcState::Waiting);
    assert!(p.waiting_for_message);
    assert_eq!(p.ip, 0);
}

#[test]
fn selective_receive_keeps_other_messages_in_order() {
    let mut p = TinyProc::new(1, vec![OpCode::ReceiveMatch(vec![MessagePattern::Type("int".to_string())]), OpCode::Halt]);
    p.send_message(Message::Value(Value::Str("a".to_string())));
    p.send_message(Message::Value(Value::Int(7)));
    p.send_message(Message::Value(Value::Str("b".to_string())));
    p.begin_slice();
    let (_, r) = p.step();
    assert!(matches!(r, Ok(ProcRequest::Continue)));
    assert_eq!(p.stack, vec![Value::Int(7)]);
    assert_eq!(
        p.mailbox,
        vec![Message::Value(Value::Str("a".to_string())), Message::Value(Value::Str("b".to_string()))]
    );
}

#[test]
fn linked_exit_signal_ends_the_process() {
    let mut p = TinyProc::new(5, vec![OpCode::PushInt(1), OpCode::Halt]);
    p.link_process(9);
    p.send_message(Message::Exit(9));
    p.begin_slice();
    let (out, r) = p.step();
    assert!(r.is_ok());
    assert_eq!(p.state, ProcState::Exited);
    assert_eq!(p.exit_reason, Some("exit_from_9".to_string()));
    assert_eq!(out, vec![(9, Message::Exit(5))]);
}

#[test]
fn monitor_reference_names_both_processes() {
    let mut p = TinyProc::new(3, vec![OpCode::Monitor(8), OpCode::Halt]);
    let (_, sent) = drive(&mut p);
    assert_eq!(sent[0], (8, Message::Monitor(3, "mon_3_8".to_string())));
    assert_eq!(sent[1], (8, Message::Down(3, "mon_3_8".to_string(), "normal".to_string())));
}

#[test]
fn trap_exit_needs_a_boolean() {
    let mut p = TinyProc::new(1, vec![OpCode::PushInt(1), OpCode::TrapExit]);
    p.begin_slice();
    p.step();
    let (_, r) = p.step();
    assert_eq!(r.err(), Some(VMError::TypeError("TRAP_EXIT requires boolean value".to_string())));
}

#[test]
fn registry_without_a_registry_reports_it() {
    let mut p = TinyProc::new(1, vec![OpCode::Register("main".to_string()), OpCode::Print, OpCode::Halt]);
    let (printed, _) = drive(&mut p);
    assert_eq!(printed, vec![Value::Str("register_failed_no_registry".to_string())]);
}

#[test]
fn spawn_fallback_programs() {
    assert_eq!(
        spawn_fallback(&Some("hello_world".to_string())),
        vec![OpCode::PushStr("Hello from spawned process!".to_string()), OpCode::Print, OpCode::Halt]
    );
    assert_eq!(
        spawn_fallback(&Some("worker".to_string())),
        vec![OpCode::PushStr("Spawned process: worker".to_string()), OpCode::Print, OpCode::Halt]
    );
    assert_eq!(spawn_fallback(&None)[0], OpCode::PushStr("Spawned process".to_string()));
}

#[test]
fn patterns_match_by_kind_and_pid() {
    let m = Message::Exit(4);
    assert!(matches_pattern(&m, &MessagePattern::Exit(None)));
    assert!(matches_pattern(&m, &MessagePattern::Exit(Some(4))));
    assert!(!matches_pattern(&m, &MessagePattern::Exit(Some(5))));
    assert!(matches_pattern(&Message::Value(Value::Float(1.0f64.to_bits())), &MessagePattern::Type("float".to_string())));
    assert!(matches_pattern(&Message::Value(Value::Int(3)), &MessagePattern::Value(Value::Int(3))));
    assert!(!matches_pattern(&Message::Value(Value::Int(3)), &MessagePattern::Guard("x".to_string())));
}

#[test]
fn value_equality_follows_floats_and_maps() {
    let nan = Value::Float(f64::NAN.to_bits());
    assert!(!values_equal(&nan, &nan));
    assert!(values_equal(&Value::Float(0.0f64.to_bits()), &Value::Float((-0.0f64).to_bits())));
    let a = Value::Object(vec![("x".to_string(), Value::Int(1)), ("y".to_string(), Value::Int(2))]);
    let b = Value::Object(vec![("y".to_string(), Value::Int(2)), ("x".to_string(), Value::Int(1))]);
    assert!(values_equal(&a, &b));
    assert!(!values_equal(&Value::Int(1), &Value::Bool(true)));
}

#[test]
fn restart_policies() {
    let spec = |restart| ChildSpec {
        id: "c".to_string(),
        instructions: vec![OpCode::Halt],
        restart,
        shutdown: Shutdown::Brutal,
        child_type: ChildType::Worker,
    };
    assert!(should_restart_child(&spec(RestartPolicy::Permanent), "normal"));
    assert!(!should_restart_child(&spec(RestartPolicy::Temporary), "crash"));
    assert!(!should_restart_child(&spec(RestartPolicy::Transient), "normal"));
    assert!(should_restart_child(&spec(RestartPolicy::Transient), "crash"));
}

#[test]
fn registry_names_round_trip() {
    let mut reg = ProcessRegistry::new();
    let (tx, rx) = crossbeam::channel::unbounded();
    assert_eq!(reg.register_process(1, tx.clone()), Ok(()));
    assert_eq!(reg.register_process(1, tx), Err("Process 1 already registered".to_string()));
    assert_eq!(reg.register_name("main".to_string(), 2), Err("Process 2 not found".to_string()));
    assert_eq!(reg.register_name("main".to_string(), 1), Ok(()));
    assert_eq!(reg.register_name("main".to_string(), 1), Err("Name 'main' already registered".to_string()));
    assert_eq!(reg.whereis("main"), Some(1));
    assert_eq!(reg.send_to_named("main", Message::Signal("hi".to_string())), Ok(()));
    assert_eq!(rx.try_recv().ok(), Some(Message::Signal("hi".to_string())));
    assert_eq!(reg.get_process_info(1).map(|i| i.message_count), Some(1));
    assert_eq!(reg.unregister_name("main"), Ok(()));
    assert_eq!(reg.whereis("main"), None);
    assert_eq!(reg.unregister_name("main"), Err("Name 'main' not found".to_string()));
    assert_eq!(reg.send_message_simple(7, Message::Exit(1)), Err("Process 7 not found".to_string()));
}

#[test]
fn unregistering_a_process_drops_its_names() {
    let mut reg = ProcessRegistry::new();
    let (tx, _rx) = crossbeam::channel::unbounded();
    reg.register_process(4, tx).unwrap();
    reg.register_name("a".to_string(), 4).unwrap();
    reg.register_name("b".to_string(), 4).unwrap();
    reg.unregister_process(4).unwrap();
    assert_eq!(reg.whereis("a"), None);
    assert_eq!(reg.whereis("b"), None);
    assert!(reg.get_process_info(4).is_none());
}

#[test]
fn unregistering_a_process_keeps_other_names() {
    let mut reg = ProcessRegistry::new();
    let (tx, _rx) = crossbeam::channel::unbounded();
    let (tx2, _rx2) = crossbeam::channel::unbounded();
    reg.register_process(4, tx).unwrap();
    reg.register_process(5, tx2).unwrap();
    reg.register_name("a".to_string(), 4).unwrap();
    reg.register_name("b".to_string(), 5).unwrap();
    reg.unregister_process(4).unwrap();
    assert_eq!(reg.whereis("a"), None);
    assert_eq!(reg.whereis("b"), Some(5));
}

#[test]
fn failing_register_receive_still_takes_the_message() {
    let mut b = RegBlock::new();
    b.register_count = 1;
    b.instructions = vec![RegInstr::Receive(3), RegInstr::Halt];
    let mut vm = RegisterVM::new(b);
    vm.add_message(Message::Value(Value::Int(1)));
    vm.add_message(Message::Value(Value::Int(2)));
    assert!(vm.execute_instruction().is_err());
    assert_eq!(vm.mailbox.len(), 1);
    assert_eq!(vm.ip, 0);
}

#[test]
fn register_vm_runs_lowered_code() {
    let block = StackToRegisterLowering::lower(&[OpCode::PushInt(2), OpCode::PushInt(3), OpCode::Add, OpCode::Print, OpCode::Halt])
        .expect("lowers");
    let mut vm = RegisterVM::new(block);
    let mut printed = Vec::new();
    while vm.can_step() {
        match vm.execute_instruction().expect("runs") {
            Effect::Print(v) => printed.push(v),
            Effect::Done => {}
            other => panic!("unexpected effect {:?}", other),
        }
    }
    assert!(vm.is_halted());
    assert_eq!(printed, vec![Value::Int(5)]);
}

#[test]
fn lowering_an_underflowing_program_succeeds_and_running_it_fails() {
    let block = StackToRegisterLowering::lower(&[OpCode::Add]).expect("lowering always succeeds");
    let mut vm = RegisterVM::new(block);
    assert!(vm.execute_instruction().is_err());
}

#[test]
fn spawn_lowers_to_a_spawn_instruction() {
    let block = StackToRegisterLowering::lower(&[
        OpCode::PushStr("hello_world".to_string()),
        OpCode::Spawn,
        OpCode::Store("worker_pid".to_string()),
    ])
    .expect("lowers");
    assert_eq!(
        block.instructions,
        vec![
            RegInstr::Mov(0, RegValue::Const(Value::Str("hello_world".to_string()))),
            RegInstr::Spawn(1, 0),
            RegInstr::Store("worker_pid".to_string(), 1),
        ]
    );
}

#[test]
fn register_receive_takes_the_oldest_message() {
    let mut b = RegBlock::new();
    b.register_count = 2;
    b.instructions = vec![RegInstr::Receive(0), RegInstr::Receive(1), RegInstr::Halt];
    let mut vm = RegisterVM::new(b);
    vm.add_message(Message::Value(Value::Int(1)));
    vm.add_message(Message::Value(Value::Int(2)));
    while vm.can_step() {
        vm.execute_instruction().expect("runs");
    }
    assert_eq!(vm.registers, vec![Value::Int(1), Value::Int(2)]);
}

#[test]
fn register_comparisons_give_one_or_zero() {
    let program = vec![OpCode::PushInt(3), OpCode::PushInt(2), OpCode::Gt, OpCode::Print, OpCode::Halt];
    assert_eq!(register_prints(&program), vec![Value::Int(1)]);
    assert_eq!(register_prints(&program), stack_prints(&program));
}

#[test]
fn process_subtracts() {
    let mut p = TinyProc::new(1, vec![OpCode::PushInt(7), OpCode::PushInt(2), OpCode::Sub, OpCode::Print, OpCode::Halt]);
    let (printed, _) = drive(&mut p);
    assert_eq!(printed, vec![Value::Int(5)]);
}

#[test]
fn collectors_keep_their_counts() {
    let mut g = MarkSweepGc::new(false);
    g.allocate(Value::Int(1));
    g.allocate(Value::Int(2));
    let freed = g.sweep();
    assert_eq!(freed, 2);
    let s = g.stats();
    assert_eq!((s.total_allocated, s.total_freed, s.current_allocated, s.collections_performed), (2, 2, 0, 1));
    let mut n = NoGc::new();
    n.allocate(Value::Null);
    assert_eq!(n.sweep(), 0);
    assert_eq!(n.stats().total_freed, 0);
}

#[test]
fn environments_act_as_maps() {
    let mut env: Vec<(String, Value)> = Vec::new();
    env_insert(&mut env, "x".to_string(), Value::Int(1));
    env_insert(&mut env, "x".to_string(), Value::Int(2));
    assert_eq!(env.len(), 1);
    assert_eq!(env_get(&env, "x"), Some(Value::Int(2)));
    assert_eq!(env_remove(&mut env, "x"), Some(Value::Int(2)));
    assert_eq!(env_get(&env, "x"), None);
}

#[test]
fn profiler_counts_calls_and_instructions() {
    let mut p = Profiler::new();
    p.start_function("f".to_string());
    p.record_instruction();
    p.record_instruction();
    assert_eq!(p.end_function(), Some("f".to_string()));
    p.start_function("f".to_string());
    p.end_function();
    assert_eq!(p.end_function(), None);
    assert_eq!(p.call_counts, vec![("f".to_string(), 2)]);
    assert_eq!(p.instruction_counts, vec![("f".to_string(), 2)]);
    assert_eq!(p.call_depth, 0);
    p.update_stack_depth(4);
    p.update_stack_depth(2);
    assert_eq!(p.peak_stack_depth, 4);
}

#[test]
fn scheduling_turns() {
    let mut p = TinyProc::new(1, vec![OpCode::Yield, OpCode::Halt]);
    drive(&mut p);
    assert_eq!(p.state, ProcState::Waiting);
    assert_eq!(p.finish_slice(), Turn::Active);
    assert_eq!(p.state, ProcState::Ready);
    let mut q = TinyProc::new(2, vec![OpCode::Receive]);
    drive(&mut q);
    assert_eq!(q.poll_waiting(), Turn::Idle);
    q.send_message(Message::Signal("go".to_string()));
    assert_eq!(q.poll_waiting(), Turn::Active);
    assert!(program_has_concurrency(&vec![OpCode::PushInt(1), OpCode::Spawn]));
    assert!(!program_has_concurrency(&vec![OpCode::PushInt(1), OpCode::Halt]));
}

#[test]
fn register_machine_print_forms() {
    let ft = |b: u64| format!("{}", f64::from_bits(b));
    let dt = |v: &Value| format!("{:?}", v);
    assert_eq!(format_register_value(&Value::List(vec![Value::Int(1), Value::Bool(false)]), &ft, &dt), "[1, false]");
    assert_eq!(format_register_value(&Value::Object(vec![]), &ft, &dt), "object");
    assert_eq!(format_register_value(&Value::Connection("c".to_string()), &ft, &dt), "Connection(\"c\")");
}

fn stack_prints(program: &[OpCode]) -> Vec<Value> {
    let mut vm = tiny_tot_vm::vm::machine::VM::new(program.iter().map(|op| op.copy()).collect());
    let mut printed = Vec::new();
    let mut guard = 0;
    while vm.is_running() && !vm.at_halt() {
        guard += 1;
        assert!(guard < 10_000, "program does not stop");
        match vm.step().expect("stack machine runs") {
            tiny_tot_vm::vm::machine::MachineEffect::Print(v) => printed.push(v),
            tiny_tot_vm::vm::machine::MachineEffect::Done => {}
            other => panic!("unexpected effect {:?}", other),
        }
    }
    printed
}

fn register_prints(program: &[OpCode]) -> Vec<Value> {
    let block = StackToRegisterLowering::lower(program).expect("lowers");
    let mut vm = RegisterVM::new(block);
    let mut printed = Vec::new();
    let mut guard = 0;
    while vm.can_step() {
        guard += 1;
        assert!(guard < 10_000, "program does not stop");
        match vm.execute_instruction().expect("register machine runs") {
            Effect::Print(v) => printed.push(v),
            Effect::Done => {}
            other => panic!("unexpected effect {:?}", other),
        }
    }
    printed
}

#[test]
fn register_machine_prints_what_the_stack_machine_prints() {
    let countdown = vec![
        OpCode::PushInt(3),
        OpCode::Store("n".to_string()),
        OpCode::Load("n".to_string()),
        OpCode::Print,
        OpCode::Load("n".to_string()),
        OpCode::PushInt(1),
        OpCode::Sub,
        OpCode::Store("n".to_string()),
        OpCode::Load("n".to_string()),
        OpCode::Jz(11),
        OpCode::Jmp(2),
        OpCode::Halt,
    ];
    assert_eq!(stack_prints(&countdown), vec![Value::Int(3), Value::Int(2), Value::Int(1)]);
    assert_eq!(register_prints(&countdown), stack_prints(&countdown));

    let logic = vec![
        OpCode::PushBool(true),
        OpCode::PushBool(false),
        OpCode::And,
        OpCode::Print,
        OpCode::PushBool(false),
        OpCode::Not,
        OpCode::Print,
        OpCode::PushStr("ab".to_string()),
        OpCode::PushStr("cd".to_string()),
        OpCode::Concat,
        OpCode::Dup,
        OpCode::Print,
        OpCode::Print,
        OpCode::Halt,
    ];
    assert_eq!(stack_prints(&logic)[0], Value::Bool(false));
    assert_eq!(register_prints(&logic), stack_prints(&logic));
}

#[test]
fn process_imports_are_cached_and_cycles_refused() {
    let mut p = TinyProc::new(1, vec![OpCode::Halt]);
    assert_eq!(p.begin_import("m"), Ok(true));
    assert_eq!(p.begin_import("m"), Err(VMError::FileError { filename: "m".to_string(), error: "Circular dependency detected".to_string() }));
    let exports = vec![("x".to_string(), Value::Int(4))];
    assert_eq!(p.end_import("m".to_string(), Ok(exports)), Ok(()));
    assert!(p.loading_stack.is_empty());
    assert_eq!(p.loaded_modules.len(), 1);
    assert_eq!(p.begin_import("m"), Ok(false));
    assert_eq!(p.begin_import("n"), Ok(true));
    let failed = p.end_import("n".to_string(), Err(VMError::RuntimeError("boom".to_string())));
    assert_eq!(failed, Err(VMError::RuntimeError("boom".to_string())));
    assert!(p.loading_stack.is_empty());
    assert_eq!(p.loaded_modules.len(), 1);
}

#[test]
fn messages_take_the_receivers_route() {
    let mut reg = ProcessRegistry::new();
    let (tx1, rx1) = crossbeam::channel::unbounded();
    let (tx2, rx2) = crossbeam::channel::unbounded();
    assert_eq!(reg.register_process(1, tx1), Ok(()));
    assert_eq!(reg.register_process(2, tx2), Ok(()));
    assert_eq!(reg.route(0, 2), Ok(1));
    assert_eq!(reg.route(0, 9), Err("Process 9 not found".to_string()));
    assert_eq!(reg.send_message(1, 2, Message::Signal("ping".to_string())), Ok(()));
    assert!(rx1.try_recv().is_err());
    assert_eq!(rx2.try_recv().ok(), Some(Message::Signal("ping".to_string())));
}

#[test]
fn processes_run_the_stack_machines_value_instructions() {
    let mut p = TinyProc::new(
        1,
        vec![
            OpCode::PushInt(3),
            OpCode::PushInt(2),
            OpCode::Gt,
            OpCode::Print,
            OpCode::PushStr("a".to_string()),
            OpCode::PushStr("b".to_string()),
            OpCode::Concat,
            OpCode::Dup,
            OpCode::Print,
            OpCode::Print,
            OpCode::Halt,
        ],
    );
    let (printed, _) = drive(&mut p);
    assert_eq!(printed, vec![Value::Int(1), Value::Str("ab".to_string()), Value::Str("ab".to_string())]);
}
