//! Command-line arguments: flags, then a command or a program file.
use vstd::prelude::*;
use crate::text::{chars_of, chars_start_with, starts_with, str_eq, string_of, string_seqs, append_chars};
use crate::{OutputMode, VMConfig};

verus! {

/// The text that explains how to call the program.
pub const USAGE_TEXT: &'static str = "Usage: ttvm [--debug] [--optimize] [--gc <type>] [--gc-debug] [--gc-stats] [--run-tests] [--no-table] [--trace] [--profile] [--no-smp] [--trace-procs] [--profile-procs] [--use-ir] <program.ttvm|program.ttb>\n       ttvm compile <input.ttvm> <output.ttb>\n       ttvm compile-lisp <input.lisp> <output.ttvm>\n       ttvm optimize <input.ttvm> <output.ttvm>\n       ttvm test-all                                    # Run all examples and tests\n       ttvm test-concurrency                           # Run concurrency tests\n       ttvm test-multithreaded                         # Run multi-threaded scheduler tests\n       ttvm test-message-passing                       # Run message passing tests\n       ttvm test-process-spawning                      # Run process spawning tests\n       ttvm test-register-whereis                      # Run REGISTER/WHEREIS tests\n       ttvm test-yield-comprehensive                   # Run comprehensive YIELD tests\n       ttvm test-spawn-comprehensive                   # Run comprehensive SPAWN tests\n       ttvm test-send-receive-comprehensive            # Run comprehensive SEND/RECEIVE tests\n       ttvm test-concurrency-bytecode                  # Run concurrency bytecode compilation tests\n       ttvm test-smp-concurrency                       # Run SMP scheduler concurrency tests\n       ttvm test-coffee-shop                           # Run coffee shop message passing demo\n       ttvm test-supervisor-tree                       # Run supervisor tree tests\n       ttvm test-selective-receive                     # Run selective receive tests\n       ttvm test-trap-exit                             # Run trap_exit tests\n       ttvm test-process-registry                      # Run process registry cleanup tests\n\nGC Types: mark-sweep (default), no-gc\nSMP Scheduler: Enabled by default with all CPU cores. Use --no-smp for single-threaded mode.\nDebug Output: --run-tests enables unit test tables, --gc-debug enables GC debug tables\nTable Control: --no-table disables formatted output in favor of plain text\nPerformance: --trace enables instruction tracing, --profile enables function profiling\nConcurrency: Multi-core execution enabled by default, --trace-procs enables process tracing, --profile-procs enables process profiling\nExecution Modes: --use-ir enables experimental register-based IR execution (basic programs only)";

/// What the program is asked to do.
#[derive(Debug, PartialEq)]
pub enum CliCommand {
    Run { file: String },
    Compile { input: String, output: String },
    CompileLisp { input: String, output: String },
    Optimize { input: String, output: String },
    TestAll,
    TestConcurrency,
    TestMonitoringLinking,
    TestMultithreaded,
    TestMessagePassing,
    TestProcessSpawning,
    TestRegisterWhereis,
    TestYieldComprehensive,
    TestSpawnComprehensive,
    TestSendReceiveComprehensive,
    TestConcurrencyBytecode,
    TestSmpConcurrency,
    TestSupervisorTree,
    TestSelectiveReceive,
    TestTrapExit,
    TestProcessRegistry,
}

/// The model of a command.
pub enum CommandModel {
    Run { file: Seq<char> },
    Compile { input: Seq<char>, output: Seq<char> },
    CompileLisp { input: Seq<char>, output: Seq<char> },
    Optimize { input: Seq<char>, output: Seq<char> },
    TestAll,
    TestConcurrency,
    TestMonitoringLinking,
    TestMultithreaded,
    TestMessagePassing,
    TestProcessSpawning,
    TestRegisterWhereis,
    TestYieldComprehensive,
    TestSpawnComprehensive,
    TestSendReceiveComprehensive,
    TestConcurrencyBytecode,
    TestSmpConcurrency,
    TestSupervisorTree,
    TestSelectiveReceive,
    TestTrapExit,
    TestProcessRegistry,
}

impl View for CliCommand {
    type V = CommandModel;

    open spec fn view(&self) -> CommandModel {
        match self {
            CliCommand::Run { file } => CommandModel::Run { file: file@ },
            CliCommand::Compile { input, output } => CommandModel::Compile { input: input@, output: output@ },
            CliCommand::CompileLisp { input, output } => CommandModel::CompileLisp { input: input@, output: output@ },
            CliCommand::Optimize { input, output } => CommandModel::Optimize { input: input@, output: output@ },
            CliCommand::TestAll => CommandModel::TestAll,
            CliCommand::TestConcurrency => CommandModel::TestConcurrency,
            CliCommand::TestMonitoringLinking => CommandModel::TestMonitoringLinking,
            CliCommand::TestMultithreaded => CommandModel::TestMultithreaded,
            CliCommand::TestMessagePassing => CommandModel::TestMessagePassing,
            CliCommand::TestProcessSpawning => CommandModel::TestProcessSpawning,
            CliCommand::TestRegisterWhereis => CommandModel::TestRegisterWhereis,
            CliCommand::TestYieldComprehensive => CommandModel::TestYieldComprehensive,
            CliCommand::TestSpawnComprehensive => CommandModel::TestSpawnComprehensive,
            CliCommand::TestSendReceiveComprehensive => CommandModel::TestSendReceiveComprehensive,
            CliCommand::TestConcurrencyBytecode => CommandModel::TestConcurrencyBytecode,
            CliCommand::TestSmpConcurrency => CommandModel::TestSmpConcurrency,
            CliCommand::TestSupervisorTree => CommandModel::TestSupervisorTree,
            CliCommand::TestSelectiveReceive => CommandModel::TestSelectiveReceive,
            CliCommand::TestTrapExit => CommandModel::TestTrapExit,
            CliCommand::TestProcessRegistry => CommandModel::TestProcessRegistry,
        }
    }
}

/// The settings that flags give.
pub struct Flags {
    pub debug_mode: bool,
    pub optimize_mode: bool,
    pub gc_type: Seq<char>,
    pub gc_debug: bool,
    pub gc_stats: bool,
    pub run_tests: bool,
    pub no_table: bool,
    pub trace_enabled: bool,
    pub profile_enabled: bool,
    pub smp_enabled: bool,
    pub trace_procs: bool,
    pub profile_procs: bool,
    pub use_ir: bool,
}

/// The settings before any flag: the mark-and-sweep collector and the
/// multi-core scheduler, everything else off.
pub open spec fn default_flags() -> Flags {
    Flags {
        debug_mode: false,
        optimize_mode: false,
        gc_type: "mark-sweep"@,
        gc_debug: false,
        gc_stats: false,
        run_tests: false,
        no_table: false,
        trace_enabled: false,
        profile_enabled: false,
        smp_enabled: true,
        trace_procs: false,
        profile_procs: false,
        use_ir: false,
    }
}

/// Flags without a value, part 1.
pub open spec fn simple_flag_a(a: Seq<char>, f: Flags) -> Option<Flags> {
    if a == "--debug"@ {
        Some(Flags { debug_mode: true, ..f })
    } else if a == "--optimize"@ {
        Some(Flags { optimize_mode: true, ..f })
    } else if a == "--gc-debug"@ {
        Some(Flags { gc_debug: true, ..f })
    } else if a == "--gc-stats"@ {
        Some(Flags { gc_stats: true, ..f })
    } else if a == "--run-tests"@ {
        Some(Flags { run_tests: true, ..f })
    } else if a == "--no-table"@ {
        Some(Flags { no_table: true, ..f })
    } else {
        None
    }
}

/// Flags without a value, part 2.
pub open spec fn simple_flag_b(a: Seq<char>, f: Flags) -> Option<Flags> {
    if a == "--trace"@ {
        Some(Flags { trace_enabled: true, ..f })
    } else if a == "--profile"@ {
        Some(Flags { profile_enabled: true, ..f })
    } else if a == "--no-smp"@ {
        Some(Flags { smp_enabled: false, ..f })
    } else if a == "--trace-procs"@ {
        Some(Flags { trace_procs: true, ..f })
    } else if a == "--profile-procs"@ {
        Some(Flags { profile_procs: true, ..f })
    } else if a == "--use-ir"@ {
        Some(Flags { use_ir: true, ..f })
    } else {
        None
    }
}

/// The settings after a flag that takes no value, if `a` is one.
pub open spec fn simple_flag(a: Seq<char>, f: Flags) -> Option<Flags> {
    match simple_flag_a(a, f) {
        Some(g) => Some(g),
        None => simple_flag_b(a, f),
    }
}

/// The flags from position `i` on: each argument that starts with `--` is a
/// flag; the first other argument ends them.
pub open spec fn apply_flags(args: Seq<Seq<char>>, i: int, f: Flags) -> Result<(Flags, int), Seq<char>>
    decreases args.len() - i,
{
    if i < 0 || i >= args.len() || !starts_with(args[i], "--"@) {
        Ok((f, i))
    } else if args[i] == "--gc"@ {
        if i + 1 >= args.len() {
            Err("--gc flag requires a garbage collector type"@)
        } else if args[i + 1] != "mark-sweep"@ && args[i + 1] != "no-gc"@ {
            Err("Unknown GC type: "@ + args[i + 1] + ". Valid options: mark-sweep, no-gc"@)
        } else {
            apply_flags(args, i + 2, Flags { gc_type: args[i + 1], ..f })
        }
    } else {
        match simple_flag(args[i], f) {
            Some(g) => apply_flags(args, i + 1, g),
            None => Err("Unknown flag: "@ + args[i]),
        }
    }
}

/// The test command named `c`, if it is one.
pub open spec fn test_command(c: Seq<char>) -> Option<CommandModel> {
    if c == "test-all"@ {
        Some(CommandModel::TestAll)
    } else if c == "test-concurrency"@ {
        Some(CommandModel::TestConcurrency)
    } else if c == "test-monitoring-linking"@ {
        Some(CommandModel::TestMonitoringLinking)
    } else if c == "test-multithreaded"@ {
        Some(CommandModel::TestMultithreaded)
    } else if c == "test-message-passing"@ {
        Some(CommandModel::TestMessagePassing)
    } else if c == "test-process-spawning"@ {
        Some(CommandModel::TestProcessSpawning)
    } else if c == "test-register-whereis"@ {
        Some(CommandModel::TestRegisterWhereis)
    } else if c == "test-yield-comprehensive"@ {
        Some(CommandModel::TestYieldComprehensive)
    } else if c == "test-spawn-comprehensive"@ {
        Some(CommandModel::TestSpawnComprehensive)
    } else if c == "test-send-receive-comprehensive"@ {
        Some(CommandModel::TestSendReceiveComprehensive)
    } else if c == "test-concurrency-bytecode"@ {
        Some(CommandModel::TestConcurrencyBytecode)
    } else if c == "test-smp-concurrency"@ {
        Some(CommandModel::TestSmpConcurrency)
    } else if c == "test-supervisor-tree"@ {
        Some(CommandModel::TestSupervisorTree)
    } else if c == "test-selective-receive"@ {
        Some(CommandModel::TestSelectiveReceive)
    } else if c == "test-trap-exit"@ {
        Some(CommandModel::TestTrapExit)
    } else if c == "test-process-registry"@ {
        Some(CommandModel::TestProcessRegistry)
    } else {
        None
    }
}

/// The command at position `i` (after the flags).
pub open spec fn command_at(args: Seq<Seq<char>>, i: int, run_tests: bool) -> Result<CommandModel, Seq<char>> {
    if 0 <= i < args.len() {
        let c = args[i];
        if c == "compile"@ {
            if args.len() != i + 3 {
                Err("Usage: tinytotvm compile <input.ttvm> <output.ttb>"@)
            } else {
                Ok(CommandModel::Compile { input: args[i + 1], output: args[i + 2] })
            }
        } else if c == "optimize"@ {
            if args.len() != i + 3 {
                Err("Usage: tinytotvm optimize <input.ttvm> <output.ttvm>"@)
            } else {
                Ok(CommandModel::Optimize { input: args[i + 1], output: args[i + 2] })
            }
        } else if c == "compile-lisp"@ {
            if args.len() != i + 3 {
                Err("Usage: tinytotvm compile-lisp <input.lisp> <output.ttvm>"@)
            } else {
                Ok(CommandModel::CompileLisp { input: args[i + 1], output: args[i + 2] })
            }
        } else {
            match test_command(c) {
                Some(t) => Ok(t),
                None => Ok(CommandModel::Run { file: c }),
            }
        }
    } else if run_tests {
        Ok(CommandModel::Run { file: Seq::empty() })
    } else {
        Err("No program file specified"@)
    }
}

/// The model of parsed arguments.
pub struct ArgsModel {
    pub flags: Flags,
    pub command: CommandModel,
}

/// What the arguments `args` (the program name first) ask for.
pub open spec fn parse_spec(args: Seq<Seq<char>>) -> Result<ArgsModel, Seq<char>> {
    if args.len() < 2 {
        Err(USAGE_TEXT@)
    } else {
        match apply_flags(args, 1, default_flags()) {
            Err(e) => Err(e),
            Ok((f, i)) => match command_at(args, i, f.run_tests) {
                Err(e) => Err(e),
                Ok(c) => Ok(ArgsModel { flags: f, command: c }),
            },
        }
    }
}

/// Parsed command-line arguments.
#[derive(Debug, PartialEq)]
pub struct CliArgs {
    pub debug_mode: bool,
    pub optimize_mode: bool,
    pub gc_type: String,
    pub gc_debug: bool,
    pub gc_stats: bool,
    pub run_tests: bool,
    pub no_table: bool,
    pub trace_enabled: bool,
    pub profile_enabled: bool,
    pub smp_enabled: bool,
    pub trace_procs: bool,
    pub profile_procs: bool,
    pub use_ir: bool,
    pub command: CliCommand,
}

impl View for CliArgs {
    type V = ArgsModel;

    open spec fn view(&self) -> ArgsModel {
        ArgsModel {
            flags: Flags {
                debug_mode: self.debug_mode,
                optimize_mode: self.optimize_mode,
                gc_type: self.gc_type@,
                gc_debug: self.gc_debug,
                gc_stats: self.gc_stats,
                run_tests: self.run_tests,
                no_table: self.no_table,
                trace_enabled: self.trace_enabled,
                profile_enabled: self.profile_enabled,
                smp_enabled: self.smp_enabled,
                trace_procs: self.trace_procs,
                profile_procs: self.profile_procs,
                use_ir: self.use_ir,
            },
            command: self.command@,
        }
    }
}


/// The settings that flags give, as the parser holds them.
struct FlagValues {
    debug_mode: bool,
    optimize_mode: bool,
    gc_type: String,
    gc_debug: bool,
    gc_stats: bool,
    run_tests: bool,
    no_table: bool,
    trace_enabled: bool,
    profile_enabled: bool,
    smp_enabled: bool,
    trace_procs: bool,
    profile_procs: bool,
    use_ir: bool,
}

impl View for FlagValues {
    type V = Flags;

    closed spec fn view(&self) -> Flags {
        Flags {
            debug_mode: self.debug_mode,
            optimize_mode: self.optimize_mode,
            gc_type: self.gc_type@,
            gc_debug: self.gc_debug,
            gc_stats: self.gc_stats,
            run_tests: self.run_tests,
            no_table: self.no_table,
            trace_enabled: self.trace_enabled,
            profile_enabled: self.profile_enabled,
            smp_enabled: self.smp_enabled,
            trace_procs: self.trace_procs,
            profile_procs: self.profile_procs,
            use_ir: self.use_ir,
        }
    }
}

fn simple_flag_a_exec(a: &str, f: &mut FlagValues) -> (b: bool)
    ensures
        match simple_flag_a(a@, old(f)@) {
            Some(g) => b && final(f)@ == g,
            None => !b && final(f)@ == old(f)@,
        },
{
    if str_eq(a, "--debug") {
        f.debug_mode = true;
        true
    } else if str_eq(a, "--optimize") {
        f.optimize_mode = true;
        true
    } else if str_eq(a, "--gc-debug") {
        f.gc_debug = true;
        true
    } else if str_eq(a, "--gc-stats") {
        f.gc_stats = true;
        true
    } else if str_eq(a, "--run-tests") {
        f.run_tests = true;
        true
    } else if str_eq(a, "--no-table") {
        f.no_table = true;
        true
    } else {
        false
    }
}

fn simple_flag_b_exec(a: &str, f: &mut FlagValues) -> (b: bool)
    ensures
        match simple_flag_b(a@, old(f)@) {
            Some(g) => b && final(f)@ == g,
            None => !b && final(f)@ == old(f)@,
        },
{
    if str_eq(a, "--trace") {
        f.trace_enabled = true;
        true
    } else if str_eq(a, "--profile") {
        f.profile_enabled = true;
        true
    } else if str_eq(a, "--no-smp") {
        f.smp_enabled = false;
        true
    } else if str_eq(a, "--trace-procs") {
        f.trace_procs = true;
        true
    } else if str_eq(a, "--profile-procs") {
        f.profile_procs = true;
        true
    } else if str_eq(a, "--use-ir") {
        f.use_ir = true;
        true
    } else {
        false
    }
}

fn simple_flag_exec(a: &str, f: &mut FlagValues) -> (b: bool)
    ensures
        match simple_flag(a@, old(f)@) {
            Some(g) => b && final(f)@ == g,
            None => !b && final(f)@ == old(f)@,
        },
{
    if simple_flag_a_exec(a, f) {
        true
    } else {
        simple_flag_b_exec(a, f)
    }
}

fn test_command_exec(c: &str) -> (r: Option<CliCommand>)
    ensures
        match test_command(c@) {
            Some(m) => r is Some && r->Some_0@ == m,
            None => r is None,
        },
{
    if str_eq(c, "test-all") {
        Some(CliCommand::TestAll)
    } else if str_eq(c, "test-concurrency") {
        Some(CliCommand::TestConcurrency)
    } else if str_eq(c, "test-monitoring-linking") {
        Some(CliCommand::TestMonitoringLinking)
    } else if str_eq(c, "test-multithreaded") {
        Some(CliCommand::TestMultithreaded)
    } else if str_eq(c, "test-message-passing") {
        Some(CliCommand::TestMessagePassing)
    } else if str_eq(c, "test-process-spawning") {
        Some(CliCommand::TestProcessSpawning)
    } else if str_eq(c, "test-register-whereis") {
        Some(CliCommand::TestRegisterWhereis)
    } else if str_eq(c, "test-yield-comprehensive") {
        Some(CliCommand::TestYieldComprehensive)
    } else if str_eq(c, "test-spawn-comprehensive") {
        Some(CliCommand::TestSpawnComprehensive)
    } else if str_eq(c, "test-send-receive-comprehensive") {
        Some(CliCommand::TestSendReceiveComprehensive)
    } else if str_eq(c, "test-concurrency-bytecode") {
        Some(CliCommand::TestConcurrencyBytecode)
    } else if str_eq(c, "test-smp-concurrency") {
        Some(CliCommand::TestSmpConcurrency)
    } else if str_eq(c, "test-supervisor-tree") {
        Some(CliCommand::TestSupervisorTree)
    } else if str_eq(c, "test-selective-receive") {
        Some(CliCommand::TestSelectiveReceive)
    } else if str_eq(c, "test-trap-exit") {
        Some(CliCommand::TestTrapExit)
    } else if str_eq(c, "test-process-registry") {
        Some(CliCommand::TestProcessRegistry)
    } else {
        None
    }
}

fn joined2(a: &str, b: &str) -> (r: String)
    ensures
        r@ == a@ + b@,
{
    let mut t = chars_of(a);
    let u = chars_of(b);
    append_chars(&mut t, u.as_slice());
    string_of(t.as_slice())
}

fn joined(a: &str, b: &str, c: &str) -> (r: String)
    ensures
        r@ == a@ + b@ + c@,
{
    let mut t = chars_of(a);
    let u = chars_of(b);
    append_chars(&mut t, u.as_slice());
    let w = chars_of(c);
    append_chars(&mut t, w.as_slice());
    string_of(t.as_slice())
}

fn command_exec(args: &Vec<String>, i: usize, run_tests: bool) -> (r: Result<CliCommand, String>)
    ensures
        match command_at(string_seqs(args@), i as int, run_tests) {
            Ok(m) => r is Ok && r->Ok_0@ == m,
            Err(e) => r is Err && r->Err_0@ == e,
        },
{
    let ghost a = string_seqs(args@);
    if i < args.len() {
        let c = args[i].as_str();
        let n = args.len();
        if str_eq(c, "compile") {
            if n - i != 3 {
                return Err("Usage: tinytotvm compile <input.ttvm> <output.ttb>".to_owned());
            }
            Ok(CliCommand::Compile { input: args[i + 1].clone(), output: args[i + 2].clone() })
        } else if str_eq(c, "optimize") {
            if n - i != 3 {
                return Err("Usage: tinytotvm optimize <input.ttvm> <output.ttvm>".to_owned());
            }
            Ok(CliCommand::Optimize { input: args[i + 1].clone(), output: args[i + 2].clone() })
        } else if str_eq(c, "compile-lisp") {
            if n - i != 3 {
                return Err("Usage: tinytotvm compile-lisp <input.lisp> <output.ttvm>".to_owned());
            }
            Ok(CliCommand::CompileLisp { input: args[i + 1].clone(), output: args[i + 2].clone() })
        } else {
            match test_command_exec(c) {
                Some(t) => Ok(t),
                None => Ok(CliCommand::Run { file: args[i].clone() }),
            }
        }
    } else if run_tests {
        Ok(CliCommand::Run { file: String::new() })
    } else {
        Err("No program file specified".to_owned())
    }
}

impl CliArgs {
    /// The usage text.
    pub fn usage_string() -> (r: String)
        ensures
            r@ == USAGE_TEXT@,
    {
        USAGE_TEXT.to_owned()
    }

    /// Parses the arguments of the program (its name first): flags, then a
    /// command or the file of a program to run.
    pub fn parse(args: &Vec<String>) -> (r: Result<CliArgs, String>)
        ensures
            match parse_spec(string_seqs(args@)) {
                Ok(m) => r is Ok && r->Ok_0@ == m,
                Err(e) => r is Err && r->Err_0@ == e,
            },
    {
        let ghost a = string_seqs(args@);
        if args.len() < 2 {
            return Err(Self::usage_string());
        }
        let mut f = FlagValues {
            debug_mode: false,
            optimize_mode: false,
            gc_type: "mark-sweep".to_owned(),
            gc_debug: false,
            gc_stats: false,
            run_tests: false,
            no_table: false,
            trace_enabled: false,
            profile_enabled: false,
            smp_enabled: true,
            trace_procs: false,
            profile_procs: false,
            use_ir: false,
        };
        let mut i: usize = 1;
        assert(f@ == default_flags());
        loop
            invariant
                1 <= i <= args@.len(),
                a == string_seqs(args@),
                apply_flags(a, 1, default_flags()) == apply_flags(a, i as int, f@),
            ensures
                1 <= i <= args@.len(),
                apply_flags(a, 1, default_flags()) == Ok::<(Flags, int), Seq<char>>((f@, i as int)),
            decreases args.len() - i,
        {
            if i >= args.len() {
                break;
            }
            let arg = args[i].as_str();
            assert(a[i as int] == arg@);
            let cs = chars_of(arg);
            if !chars_start_with(cs.as_slice(), "--") {
                break;
            }
            if str_eq(arg, "--gc") {
                if i + 1 >= args.len() {
                    return Err("--gc flag requires a garbage collector type".to_owned());
                }
                let t = args[i + 1].as_str();
                assert(a[i + 1] == t@);
                if !str_eq(t, "mark-sweep") && !str_eq(t, "no-gc") {
                    return Err(joined("Unknown GC type: ", t, ". Valid options: mark-sweep, no-gc"));
                }
                f.gc_type = args[i + 1].clone();
                i = i + 2;
            } else {
                if !simple_flag_exec(arg, &mut f) {
                    return Err(joined2("Unknown flag: ", arg));
                }
                i = i + 1;
            }
        }
        match command_exec(args, i, f.run_tests) {
            Ok(command) => Ok(CliArgs {
                debug_mode: f.debug_mode,
                optimize_mode: f.optimize_mode,
                gc_type: f.gc_type,
                gc_debug: f.gc_debug,
                gc_stats: f.gc_stats,
                run_tests: f.run_tests,
                no_table: f.no_table,
                trace_enabled: f.trace_enabled,
                profile_enabled: f.profile_enabled,
                smp_enabled: f.smp_enabled,
                trace_procs: f.trace_procs,
                profile_procs: f.profile_procs,
                use_ir: f.use_ir,
                command,
            }),
            Err(e) => Err(e),
        }
    }

    /// The machine settings that the arguments give: plain output with
    /// `--no-table`, tables otherwise; every other setting carried over.
    pub fn to_vm_config(&self) -> (c: VMConfig)
        ensures
            c.output_mode == (if self.no_table {
                OutputMode::Plain
            } else {
                OutputMode::PrettyTable
            }),
            c.gc_type@ == self.gc_type@,
            c.debug_mode == self.debug_mode,
            c.optimize_mode == self.optimize_mode,
            c.gc_debug == self.gc_debug,
            c.gc_stats == self.gc_stats,
            c.run_tests == self.run_tests,
            c.trace_enabled == self.trace_enabled,
            c.profile_enabled == self.profile_enabled,
            c.smp_enabled == self.smp_enabled,
            c.trace_procs == self.trace_procs,
            c.profile_procs == self.profile_procs,
            c.use_ir == self.use_ir,
    {
        let output_mode = if self.no_table {
            OutputMode::Plain
        } else {
            OutputMode::PrettyTable
        };
        VMConfig {
            output_mode,
            debug_mode: self.debug_mode,
            optimize_mode: self.optimize_mode,
            gc_type: self.gc_type.clone(),
            gc_debug: self.gc_debug,
            gc_stats: self.gc_stats,
            run_tests: self.run_tests,
            trace_enabled: self.trace_enabled,
            profile_enabled: self.profile_enabled,
            smp_enabled: self.smp_enabled,
            trace_procs: self.trace_procs,
            profile_procs: self.profile_procs,
            use_ir: self.use_ir,
        }
    }
}

} // verus!
