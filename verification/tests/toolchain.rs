use tiny_tot_vm::assembler::{float_literals, parse_program, AssemblyError};
use tiny_tot_vm::bytecode::{load_bytecode, DecodeError};
use tiny_tot_vm::cli::args::{CliArgs, CliCommand};
use tiny_tot_vm::compiler::{compile, CompileError};
use tiny_tot_vm::display::program_listing;
use tiny_tot_vm::examples::{judge_example, needs_scheduler};
use tiny_tot_vm::lisp_compiler::{compile_lisp, tokenize, LispError};
use tiny_tot_vm::optimizer::{OptimizationOptions, Optimizer};
use tiny_tot_vm::vm::errors::VMError;
use tiny_tot_vm::vm::opcode::OpCode;
use tiny_tot_vm::vm::value::FloatOp;
use tiny_tot_vm::OutputMode;

fn float_text(b: u64) -> String {
    format!("{}", f64::from_bits(b))
}

fn host_float(op: FloatOp, a: u64, b: u64) -> u64 {
    let (x, y) = (f64::from_bits(a), f64::from_bits(b));
    let r = match op {
        FloatOp::Add => x + y,
        FloatOp::Sub => x - y,
        FloatOp::Mul => x * y,
        FloatOp::Div => x / y,
    };
    r.to_bits()
}

fn assemble(src: &str) -> Vec<OpCode> {
    let floats: Vec<Option<u64>> = float_literals(src)
        .iter()
        .map(|s| s.trim().parse::<f64>().ok().map(|f| f.to_bits()))
        .collect();
    parse_program(src, &floats).expect("program assembles")
}

fn args(words: &[&str]) -> Vec<String> {
    words.iter().map(|w| w.to_string()).collect()
}

#[test]
fn compiled_bytecode_loads_back_as_the_program() {
    let src = "PUSH_INT 7\nPUSH_STR \"hi\"\nSTORE x\nLOAD x\nPRINT\nHALT\n";
    let bytes = compile(src).expect("compiles");
    let loaded = load_bytecode(&bytes).expect("loads");
    assert_eq!(
        loaded,
        vec![
            OpCode::PushInt(7),
            OpCode::PushStr("hi".to_string()),
            OpCode::Store("x".to_string()),
            OpCode::Load("x".to_string()),
            OpCode::Print,
            OpCode::Halt,
        ]
    );
}

#[test]
fn compile_rejects_an_unknown_mnemonic() {
    assert_eq!(compile("FROBNICATE\n"), Err(CompileError::UnknownOpcode("FROBNICATE".to_string())));
}

#[test]
fn compile_rejects_a_bad_integer() {
    assert!(matches!(compile("PUSH_INT abc\n"), Err(CompileError::InvalidInteger(_))));
}

#[test]
fn truncated_bytecode_is_an_error() {
    let bytes = compile("PUSH_INT 7\nHALT\n").unwrap();
    assert_eq!(load_bytecode(&bytes[..3]), Err(DecodeError::Truncated));
}

#[test]
fn unknown_opcode_byte_is_an_error() {
    assert_eq!(load_bytecode(&[0xEE, 0xEE]), Err(DecodeError::UnknownOpcode(0xEEEE)));
    assert_eq!(load_bytecode(&[0xEE]), Err(DecodeError::Truncated));
}

#[test]
fn assembler_resolves_labels() {
    let prog = assemble("JMP end\nPUSH_INT 1\nLABEL end\nHALT\n");
    assert_eq!(prog, vec![OpCode::Jmp(2), OpCode::PushInt(1), OpCode::Halt]);
}

#[test]
fn assembler_reports_an_unknown_label() {
    let r = parse_program("JMP nowhere\nHALT\n", &Vec::new());
    assert_eq!(r, Err(AssemblyError::Vm(VMError::UnknownLabel("nowhere".to_string()))));
}

#[test]
fn lisp_tokens_split_parentheses() {
    assert_eq!(tokenize("(+ 1 2) ; comment"), vec!["(", "+", "1", "2", ")"]);
}

#[test]
fn lisp_compiles_arithmetic_and_print() {
    let mut counter = 0usize;
    let lines = compile_lisp("(print (+ 1 2))", &mut counter).expect("compiles");
    assert_eq!(lines, vec!["PUSH_INT 1", "PUSH_INT 2", "ADD", "PRINT", "HALT"]);
}

#[test]
fn lisp_if_uses_fresh_labels() {
    let mut counter = 0usize;
    let lines = compile_lisp("(if #t 1 2)", &mut counter).expect("compiles");
    assert_eq!(
        lines,
        vec!["TRUE", "JZ else_0", "PUSH_INT 1", "JMP end_if_1", "LABEL else_0", "PUSH_INT 2", "LABEL end_if_1", "HALT"]
    );
    assert_eq!(counter, 2);
}

#[test]
fn lisp_unknown_operation_is_an_error() {
    let mut counter = 0usize;
    assert_eq!(compile_lisp("(frob 1 2)", &mut counter), Err(LispError::UnknownOperation("frob".to_string())));
}

#[test]
fn lisp_unbalanced_input_is_an_error() {
    let mut counter = 0usize;
    assert_eq!(compile_lisp("(+ 1 2", &mut counter), Err(LispError::UnexpectedEof));
}

#[test]
fn optimizer_folds_integer_constants() {
    let mut opt = Optimizer::new(OptimizationOptions::default());
    let (prog, stats) = opt.optimize(vec![OpCode::PushInt(2), OpCode::PushInt(3), OpCode::Add, OpCode::Print, OpCode::Halt], &host_float);
    assert_eq!(prog, vec![OpCode::PushInt(5), OpCode::Print, OpCode::Halt]);
    assert_eq!(stats.constants_folded, 2);
}

#[test]
fn optimizer_removes_unreachable_code() {
    let mut opt = Optimizer::new(OptimizationOptions::default());
    let (prog, stats) = opt.optimize(vec![OpCode::PushInt(1), OpCode::Print, OpCode::Halt, OpCode::PushInt(9), OpCode::Print], &host_float);
    assert_eq!(prog, vec![OpCode::PushInt(1), OpCode::Print, OpCode::Halt]);
    assert_eq!(stats.dead_instructions_removed, 2);
}

#[test]
fn program_listing_writes_assembly() {
    let text = program_listing(
        &vec![
            OpCode::PushInt(-3),
            OpCode::PushFloat(1.5f64.to_bits()),
            OpCode::PushStr("say \"hi\"".to_string()),
            OpCode::Call { addr: 4, params: vec!["a".to_string(), "b".to_string()] },
            OpCode::Halt,
        ],
        &float_text,
    );
    assert_eq!(text, "PUSH_INT -3\nPUSH_FLOAT 1.5\nPUSH_STR \"say \\\"hi\\\"\"\nCALL 4 a b\nHALT\n");
}

#[test]
fn program_listing_labels_try_handlers() {
    let text = program_listing(
        &vec![
            OpCode::Try { catch_addr: 3 },
            OpCode::StartSupervisor,
            OpCode::SuperviseChild("w".to_string()),
            OpCode::RestartChild("w".to_string()),
            OpCode::Try { catch_addr: 5 },
        ],
        &float_text,
    );
    assert_eq!(
        text,
        "TRY catch_3\nSTART_SUPERVISOR\nSUPERVISE_CHILD w\nLABEL catch_3\nRESTART_CHILD w\nTRY catch_5\nLABEL catch_5\n"
    );
}

#[test]
fn saved_listing_reads_back() {
    let program = vec![
        OpCode::Try { catch_addr: 6 },
        OpCode::PushInt(-7),
        OpCode::PushFloat(2.5f64.to_bits()),
        OpCode::PushStr("hello world".to_string()),
        OpCode::Call { addr: 9, params: vec!["x".to_string()] },
        OpCode::EndTry,
        OpCode::Catch,
        OpCode::StartSupervisor,
        OpCode::SuperviseChild("worker".to_string()),
        OpCode::RestartChild("worker".to_string()),
        OpCode::Jz(2),
        OpCode::Send(4),
        OpCode::Store("v".to_string()),
        OpCode::MakeList(3),
        OpCode::PushBool(true),
        OpCode::Register("srv".to_string()),
        OpCode::Halt,
    ];
    let text = program_listing(&program, &float_text);
    assert_eq!(assemble(&text), program);
}

#[test]
fn cli_parses_flags_and_file() {
    let a = CliArgs::parse(&args(&["ttvm", "--debug", "--no-table", "--gc", "no-gc", "prog.ttvm"])).unwrap();
    assert!(a.debug_mode);
    assert!(a.no_table);
    assert_eq!(a.gc_type, "no-gc");
    assert_eq!(a.command, CliCommand::Run { file: "prog.ttvm".to_string() });
    let c = a.to_vm_config();
    assert_eq!(c.output_mode, OutputMode::Plain);
    assert!(c.smp_enabled);
}

#[test]
fn cli_rejects_an_unknown_gc() {
    let r = CliArgs::parse(&args(&["ttvm", "--gc", "copying", "prog.ttvm"]));
    assert_eq!(r.err(), Some("Unknown GC type: copying. Valid options: mark-sweep, no-gc".to_string()));
}

#[test]
fn cli_compile_needs_two_files() {
    let r = CliArgs::parse(&args(&["ttvm", "compile", "in.ttvm"]));
    assert_eq!(r.err(), Some("Usage: tinytotvm compile <input.ttvm> <output.ttb>".to_string()));
}

#[test]
fn cli_without_a_file_is_an_error() {
    let r = CliArgs::parse(&args(&["ttvm", "--debug"]));
    assert_eq!(r.err(), Some("No program file specified".to_string()));
}

#[test]
fn whereis_compiles_to_its_opcode() {
    let bytes = compile("WHEREIS \"w\"\n").expect("compiles");
    assert!(bytes.windows(5).any(|w| w == [0x82, 0x00, 0x01, 0x00, 0x77]));
    assert_eq!(load_bytecode(&bytes).expect("loads"), vec![OpCode::Whereis("w".to_string())]);
}

#[test]
fn optimizer_folds_comparisons_to_truth_values() {
    let mut opt = Optimizer::new(OptimizationOptions::default());
    let (prog, _) = opt.optimize(vec![OpCode::PushInt(4), OpCode::PushInt(4), OpCode::Eq, OpCode::Print, OpCode::Halt], &host_float);
    assert_eq!(prog, vec![OpCode::PushInt(1), OpCode::Print, OpCode::Halt]);
}

#[test]
fn dead_code_removal_moves_jump_targets() {
    let mut opt = Optimizer::new(OptimizationOptions::default());
    let (prog, stats) = opt.optimize(
        vec![OpCode::Jmp(2), OpCode::PushInt(1), OpCode::PushInt(7), OpCode::Print, OpCode::Halt],
        &host_float,
    );
    assert_eq!(prog, vec![OpCode::Jmp(1), OpCode::PushInt(7), OpCode::Print, OpCode::Halt]);
    assert_eq!(stats.dead_instructions_removed, 1);
}

#[test]
fn examples_are_judged_by_their_expected_outcome() {
    assert!(needs_scheduler("coffee_shop_demo.ttvm"));
    assert!(!needs_scheduler("countdown.ttvm"));
    assert!(judge_example("countdown.ttvm", None));
    assert!(!judge_example("countdown.ttvm", Some("Runtime error: x")));
    assert!(judge_example("circular_a.ttvm", Some("File operation failed on circular_b.ttvm: Circular dependency detected")));
    assert!(!judge_example("circular_b.ttvm", None));
}

#[test]
fn stats_describe_the_last_run() {
    let mut opt = Optimizer::new(OptimizationOptions::default());
    let _ = opt.optimize(vec![OpCode::PushInt(2), OpCode::PushInt(3), OpCode::Add, OpCode::Halt], &host_float);
    let (_, st) = opt.optimize(vec![OpCode::PushInt(1), OpCode::Print, OpCode::Halt], &host_float);
    assert_eq!(st.constants_folded, 0);
    assert_eq!(opt.get_stats().constants_folded, 0);
}
