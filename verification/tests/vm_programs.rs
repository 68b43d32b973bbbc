use tiny_tot_vm::assembler::{float_literals, parse_program};
use tiny_tot_vm::display::display_value;
use tiny_tot_vm::ir::vm::FloatTest;
use tiny_tot_vm::vm::errors::VMError;
use tiny_tot_vm::vm::machine::{MachineEffect, Num, VM};
use tiny_tot_vm::vm::opcode::OpCode;
use tiny_tot_vm::vm::value::{FloatOp, Value};

fn float_text(b: u64) -> String {
    format!("{}", f64::from_bits(b))
}

fn assemble(src: &str) -> Vec<OpCode> {
    let floats: Vec<Option<u64>> = float_literals(src)
        .iter()
        .map(|s| s.trim().parse::<f64>().ok().map(|f| f.to_bits()))
        .collect();
    parse_program(src, &floats).expect("program assembles")
}

fn num(n: Num) -> f64 {
    match n {
        Num::Int(i) => i as f64,
        Num::Float(b) => f64::from_bits(b),
    }
}

/// Runs a program to its end, collecting what it prints.
fn run(src: &str) -> Result<Vec<String>, VMError> {
    let mut vm = VM::new(assemble(src));
    let mut out = Vec::new();
    let mut guard = 0;
    while vm.is_running() && !vm.at_halt() {
        guard += 1;
        assert!(guard < 100_000, "program does not stop");
        match vm.step()? {
            MachineEffect::Done | MachineEffect::DumpScope | MachineEffect::UnknownDelete(_) => {}
            MachineEffect::Print(v) => out.push(display_value(&v, &float_text)),
            MachineEffect::Arith { op, a, b } => {
                let (x, y) = (num(a), num(b));
                let r = match op {
                    FloatOp::Add => x + y,
                    FloatOp::Sub => x - y,
                    FloatOp::Mul => x * y,
                    FloatOp::Div => x / y,
                };
                vm.complete_float(r.to_bits());
            }
            MachineEffect::Test { test, a, b } => {
                let (x, y) = (f64::from_bits(a), f64::from_bits(b));
                let r = match test {
                    FloatTest::Eq => (x - y).abs() < f64::EPSILON,
                    FloatTest::Ne => (x - y).abs() >= f64::EPSILON,
                    FloatTest::Lt => x < y,
                    FloatTest::Le => x <= y,
                    FloatTest::Gt => x > y,
                    FloatTest::Ge => x >= y,
                };
                vm.complete_test(r);
            }
            MachineEffect::Host if vm.at_encoding() => {
                let r = vm.execute_encoding(&float_text);
                vm.finish_host(r)?;
            }
            MachineEffect::Host if vm.at_simulated() => {
                let r = vm.execute_simulated().map(|line| {
                    if let Some(l) = line {
                        out.push(l);
                    }
                });
                vm.finish_host(r)?;
            }
            MachineEffect::Host | MachineEffect::Import(_) => {
                vm.finish_host(Err(VMError::UnsupportedOperation("host".to_string())))?;
            }
            MachineEffect::DivideOverflow => panic!("attempt to divide with overflow"),
        }
    }
    Ok(out)
}

#[test]
fn arithmetic_prints_results() {
    let out = run("PUSH_INT 2\nPUSH_INT 3\nADD\nPRINT\nPUSH_INT 10\nPUSH_INT 4\nSUB\nPRINT\nHALT\n").unwrap();
    assert_eq!(out, vec!["5".to_string(), "6".to_string()]);
}

#[test]
fn integer_addition_wraps() {
    let out = run("PUSH_INT 9223372036854775807\nPUSH_INT 1\nADD\nPRINT\nHALT\n").unwrap();
    assert_eq!(out, vec![i64::MIN.to_string()]);
}

#[test]
fn division_by_zero_is_an_error() {
    let r = run("PUSH_INT 1\nPUSH_INT 0\nDIV\nPRINT\nHALT\n");
    assert_eq!(r, Err(VMError::DivisionByZero));
}

#[test]
fn float_arithmetic_goes_through_the_host() {
    let out = run("PUSH_FLOAT 1.5\nPUSH_FLOAT 2.25\nADD_F\nPRINT\nHALT\n").unwrap();
    assert_eq!(out, vec!["3.75".to_string()]);
}

#[test]
fn function_call_binds_parameters() {
    let src = "PUSH_INT 10\nPUSH_INT 5\nCALL add_numbers a b\nPRINT\nHALT\nLABEL add_numbers\nLOAD a\nLOAD b\nADD\nRET\n";
    assert_eq!(run(src).unwrap(), vec!["15".to_string()]);
}

#[test]
fn store_then_load_gives_the_value() {
    let out = run("PUSH_STR \"hello\"\nSTORE greeting\nLOAD greeting\nPRINT\nHALT\n").unwrap();
    assert_eq!(out, vec!["hello".to_string()]);
}

#[test]
fn undefined_variable_is_an_error() {
    let r = run("LOAD missing\nPRINT\nHALT\n");
    assert_eq!(r, Err(VMError::UndefinedVariable("missing".to_string())));
}

#[test]
fn jump_if_zero_takes_the_branch() {
    let src = "PUSH_INT 0\nJZ skip\nPUSH_STR \"not taken\"\nPRINT\nLABEL skip\nPUSH_STR \"taken\"\nPRINT\nHALT\n";
    assert_eq!(run(src).unwrap(), vec!["taken".to_string()]);
}

#[test]
fn objects_hold_nested_fields() {
    let src = "MAKE_OBJECT\nPUSH_STR \"Alice\"\nSET_FIELD name\nMAKE_OBJECT\nPUSH_STR \"Boston\"\nSET_FIELD city\nSET_FIELD address\nDUP\nGET_FIELD address\nGET_FIELD city\nPRINT\nHALT\n";
    assert_eq!(run(src).unwrap(), vec!["Boston".to_string()]);
}

#[test]
fn lists_print_in_brackets() {
    let src = "PUSH_INT 1\nPUSH_INT 2\nPUSH_INT 3\nMAKE_LIST 3\nDUP\nPRINT\nLEN\nPRINT\nHALT\n";
    assert_eq!(run(src).unwrap(), vec!["[1, 2, 3]".to_string(), "3".to_string()]);
}

#[test]
fn thrown_exception_lands_in_the_handler() {
    let src = "TRY handler\nPUSH_STR \"boom\"\nTHROW\nEND_TRY\nHALT\nLABEL handler\nCATCH\nPRINT\nHALT\n";
    let out = run(src).unwrap();
    assert_eq!(out.len(), 1);
    assert!(out[0].contains("boom"));
}

#[test]
fn stack_underflow_names_the_operation() {
    let r = run("ADD\nHALT\n");
    assert_eq!(r, Err(VMError::StackUnderflow("ADD".to_string())));
}

#[test]
fn comparison_pushes_truth_values() {
    let out = run("PUSH_INT 3\nPUSH_INT 5\nLT\nPRINT\nHALT\n").unwrap();
    assert_eq!(out, vec!["1".to_string()]);
}

#[test]
fn vm_counts_instructions() {
    let mut vm = VM::new(assemble("PUSH_INT 1\nPUSH_INT 2\nADD\nHALT\n"));
    while vm.is_running() && !vm.at_halt() {
        vm.step().unwrap();
    }
    let (count, max_depth, depth) = vm.get_stats();
    assert_eq!(count, 3);
    assert_eq!(max_depth, 2);
    assert_eq!(depth, 1);
}

#[test]
fn value_display_forms() {
    let show = |v: &Value| display_value(v, &float_text);
    assert_eq!(show(&Value::Null), "null");
    assert_eq!(show(&Value::Bool(true)), "true");
    assert_eq!(show(&Value::Int(-42)), "-42");
    assert_eq!(show(&Value::Float(2.5f64.to_bits())), "2.5");
    assert_eq!(show(&Value::Bytes(vec![1, 2, 3])), "Bytes(3)");
    assert_eq!(
        show(&Value::Function { addr: 7, params: vec!["x".to_string(), "y".to_string()] }),
        "function@7 (x, y)"
    );
    assert_eq!(
        show(&Value::Object(vec![("a".to_string(), Value::Int(1)), ("b".to_string(), Value::Str("s".to_string()))])),
        "{a: 1, b: s}"
    );
    assert_eq!(
        show(&Value::Exception { message: "bad".to_string(), stack_trace: vec!["at 3".to_string()] }),
        "Exception: bad\nStack trace:\n  at 3"
    );
}

#[test]
fn stand_in_services_answer_from_their_operands() {
    let src = "PUSH_STR \"example.com\"\nHTTP_GET\nPRINT\nPUSH_STR \"{\\\"a\\\": 1}\"\nJSON_PARSE\nPRINT\nPUSH_STR \"db.sqlite\"\nDB_CONNECT\nPRINT\nHALT\n";
    let out = run(src).unwrap();
    assert_eq!(out[0], "HTTP response from example.com");
    assert_eq!(out[1], "{parsed: true, data: json_data}");
    assert_eq!(out[2], "Connection(db:db.sqlite)");
}

#[test]
fn stand_in_service_type_error() {
    let r = run("PUSH_INT 3\nHTTP_GET\nHALT\n");
    assert_eq!(
        r,
        Err(VMError::TypeMismatch {
            expected: "string (URL)".to_string(),
            got: "Int".to_string(),
            operation: "HTTP_GET".to_string()
        })
    );
}

#[test]
fn tcp_send_counts_utf8_bytes() {
    let mut vm = VM::new(vec![OpCode::TcpSend]);
    vm.stack.push(Value::Connection("c1".to_string()));
    vm.stack.push(Value::Str("héllo".to_string()));
    assert!(matches!(vm.step(), Ok(MachineEffect::Host)));
    assert!(vm.at_simulated());
    let line = vm.execute_simulated().unwrap();
    assert_eq!(line, Some("TCP Send to c1: héllo".to_string()));
    assert_eq!(vm.stack, vec![Value::Int(6)]);
}

#[test]
fn module_code_is_relocated() {
    let vm = VM::new(vec![]);
    assert_eq!(vm.adjust_instruction_addresses(&OpCode::Jmp(3), 10), OpCode::Jmp(13));
    assert_eq!(vm.adjust_instruction_addresses(&OpCode::Print, 10), OpCode::Print);
    let f = Value::Closure {
        addr: 2,
        params: vec!["x".to_string()],
        captured: vec![("g".to_string(), Value::Function { addr: 1, params: vec![] })],
    };
    assert_eq!(
        vm.adjust_value_addresses(f, 5),
        Value::Closure {
            addr: 7,
            params: vec!["x".to_string()],
            captured: vec![("g".to_string(), Value::Function { addr: 6, params: vec![] })],
        }
    );
}

#[test]
fn imports_are_cached_and_cycles_refused() {
    let mut vm = VM::new(vec![OpCode::Halt, OpCode::Halt]);
    assert_eq!(vm.begin_import("lib.ttvm"), Ok(true));
    assert_eq!(vm.loading_stack, vec!["lib.ttvm".to_string()]);
    assert_eq!(
        vm.begin_import("lib.ttvm"),
        Err(VMError::FileError { filename: "lib.ttvm".to_string(), error: "Circular dependency detected".to_string() })
    );
    let base = vm.append_module(&vec![OpCode::Jmp(1), OpCode::Ret]);
    assert_eq!(base, 2);
    assert_eq!(vm.instructions[2], OpCode::Jmp(3));
    assert_eq!(vm.instructions[3], OpCode::Ret);
    let exports = vec![("f".to_string(), Value::Function { addr: 1, params: vec![] })];
    assert_eq!(vm.finish_import("lib.ttvm".to_string(), base, vec![], exports), Ok(()));
    assert!(vm.loading_stack.is_empty());
    let bound = tiny_tot_vm::vm::env::env_get(vm.variables.last().unwrap(), "f");
    assert_eq!(bound, Some(Value::Function { addr: 3, params: vec![] }));
    assert_eq!(vm.loaded_modules.len(), 1);
    vm.variables.last_mut().unwrap().clear();
    assert_eq!(vm.begin_import("lib.ttvm"), Ok(false));
    let again = tiny_tot_vm::vm::env::env_get(vm.variables.last().unwrap(), "f");
    assert_eq!(again, Some(Value::Function { addr: 3, params: vec![] }));
    assert!(vm.loading_stack.is_empty());
}

#[test]
fn float_operation_converts_an_integer() {
    let out = run("PUSH_INT 5\nPUSH_FLOAT 2.5\nADD_F\nPRINT\nHALT\n").unwrap();
    assert_eq!(out, vec!["7.5".to_string()]);
}

#[test]
fn return_without_call_is_a_call_stack_underflow() {
    assert_eq!(run("RET\n"), Err(VMError::CallStackUnderflow));
}

#[test]
fn function_reads_a_global() {
    let out = run("PUSH_INT 42\nSTORE g\nCALL f\nHALT\nLABEL f\nLOAD g\nPRINT\nRET\n").unwrap();
    assert_eq!(out, vec!["42".to_string()]);
}

#[test]
fn csv_text_parses_into_trimmed_cells() {
    let mut vm = VM::new(vec![OpCode::CsvParse, OpCode::Halt]);
    vm.stack.push(Value::Str("a, b\nc,d ".to_string()));
    assert!(vm.at_encoding());
    assert_eq!(vm.execute_encoding(&float_text), Ok(()));
    assert_eq!(
        vm.stack,
        vec![Value::List(vec![
            Value::List(vec![Value::Str("a".to_string()), Value::Str("b".to_string())]),
            Value::List(vec![Value::Str("c".to_string()), Value::Str("d".to_string())]),
        ])]
    );
}

#[test]
fn csv_rows_are_written_with_commas_and_line_breaks() {
    let mut vm = VM::new(vec![OpCode::CsvWrite, OpCode::Halt]);
    vm.stack.push(Value::List(vec![
        Value::List(vec![Value::Int(1), Value::Str("x".to_string())]),
        Value::List(vec![Value::Bool(true)]),
    ]));
    assert_eq!(vm.execute_encoding(&float_text), Ok(()));
    assert_eq!(vm.stack, vec![Value::Str("1,x\ntrue".to_string())]);
}

#[test]
fn timestamps_and_decoding() {
    let mut vm = VM::new(vec![OpCode::FormatTime, OpCode::Halt]);
    vm.stack.push(Value::Int(1700000000));
    vm.stack.push(Value::Str("%Y".to_string()));
    assert_eq!(vm.execute_encoding(&float_text), Ok(()));
    assert_eq!(vm.stack, vec![Value::Str("1700000000".to_string())]);
    let mut vm = VM::new(vec![OpCode::Decompress, OpCode::Halt]);
    vm.stack.push(Value::Bytes(b"hi".to_vec()));
    assert_eq!(vm.execute_encoding(&float_text), Ok(()));
    assert_eq!(vm.stack, vec![Value::Str("decompressed:hi".to_string())]);
    let mut vm = VM::new(vec![OpCode::Hash, OpCode::Halt]);
    vm.stack.push(Value::Int(3));
    assert!(matches!(vm.execute_encoding(&float_text), Err(VMError::TypeMismatch { .. })));
}

#[test]
fn breakpoints_are_kept_sorted() {
    let mut vm = VM::new(vec![]);
    vm.breakpoints = vec![5, 1];
    vm.add_breakpoint(3);
    assert_eq!(vm.breakpoints, vec![1, 3, 5]);
    vm.add_breakpoint(3);
    assert_eq!(vm.breakpoints, vec![1, 3, 5]);
}

#[test]
fn breakpoints_stay_strictly_increasing() {
    let mut vm = VM::new(vec![]);
    for a in [9, 2, 7, 2, 9, 0] {
        vm.add_breakpoint(a);
    }
    assert_eq!(vm.breakpoints, vec![0, 2, 7, 9]);
}
