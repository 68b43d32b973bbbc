//! A front end that compiles a small Lisp dialect into the textual assembly
//! language of the machine.
use vstd::prelude::*;
use crate::assembler::unit_mnemonic;
use crate::readback::lemma_literals;
use crate::vm::errors::VMErrorModel;
use crate::vm::machine::{exec_spec, pop2, push, truth, MEffect, MState};
use crate::vm::value::ValueModel;
use crate::vm::opcode::OpCodeModel;
use crate::text::{append_chars, chars_eq, i64_text, int_text, nat_text, parse_i64, parse_i64_chars, u64_text, before_char, char_seqs, chars_of, find_char, lines, split_lines, string_of, string_seqs, sub_chars, trim, trim_chars, trim_char, trim_char_exec};

verus! {

/// A Lisp expression.
#[derive(Debug, PartialEq)]
pub enum Expr {
    Int(i64),
    Str(String),
    Bool(bool),
    Symbol(String),
    List(Vec<Expr>),
}

/// The model of a Lisp expression.
pub enum ExprModel {
    Int(i64),
    Str(Seq<char>),
    Bool(bool),
    Symbol(Seq<char>),
    List(Seq<ExprModel>),
}

/// Why a Lisp program cannot be read or compiled.
#[derive(Debug, PartialEq)]
pub enum LispError {
    /// The tokens ended inside an expression.
    UnexpectedEof,
    /// A `)` stands where an expression should start.
    UnexpectedClose,
    /// A special form lacks an argument.
    MissingArgument,
    /// The name of a `define` is not a symbol.
    InvalidDefine,
    /// The name of a `set!` is not a symbol.
    InvalidSet,
    /// The operator is not one the compiler knows.
    UnknownOperation(String),
    /// A non-empty list does not start with a symbol.
    NotASymbol,
}

/// The model of an expression.
pub open spec fn expr_model(e: Expr) -> ExprModel
    decreases e, 0nat,
{
    match e {
        Expr::Int(n) => ExprModel::Int(n),
        Expr::Str(s) => ExprModel::Str(s@),
        Expr::Bool(b) => ExprModel::Bool(b),
        Expr::Symbol(s) => ExprModel::Symbol(s@),
        Expr::List(items) => ExprModel::List(exprs_model(items@)),
    }
}

/// The models of a sequence of expressions.
pub open spec fn exprs_model(s: Seq<Expr>) -> Seq<ExprModel>
    decreases s, 1nat,
{
    Seq::new(s.len(), |i: int| if 0 <= i < s.len() { expr_model(s[i]) } else { ExprModel::Int(0) })
}

// ---------------------------------------------------------------------------
// Tokenizer

/// The state of the tokenizer within one line.
pub struct TokState {
    pub tokens: Seq<Seq<char>>,
    pub current: Seq<char>,
    pub in_string: bool,
}

/// Ends the current token: it is kept, trimmed, unless it is blank, in which
/// case it stays as it is.
pub open spec fn flush(st: TokState) -> TokState {
    if trim(st.current).len() > 0 {
        TokState { tokens: st.tokens.push(trim(st.current)), current: Seq::empty(), in_string: st.in_string }
    } else {
        st
    }
}

/// One character of input: quotes toggle string mode; outside strings,
/// parentheses are tokens of their own and spaces separate tokens.
pub open spec fn tok_step(st: TokState, c: char) -> TokState {
    if c == '"' {
        TokState { tokens: st.tokens, current: st.current.push(c), in_string: !st.in_string }
    } else if (c == '(' || c == ')') && !st.in_string {
        let f = flush(st);
        TokState { tokens: f.tokens.push(seq![c]), current: f.current, in_string: f.in_string }
    } else if c == ' ' && !st.in_string {
        flush(st)
    } else {
        TokState { tokens: st.tokens, current: st.current.push(c), in_string: st.in_string }
    }
}

/// The tokenizer state after the characters of `s`.
pub open spec fn tok_run(s: Seq<char>) -> TokState
    decreases s.len(),
{
    if s.len() == 0 {
        TokState { tokens: Seq::empty(), current: Seq::empty(), in_string: false }
    } else {
        tok_step(tok_run(s.drop_last()), s.last())
    }
}

/// The tokens of one source line: its text before any `;`, trimmed.
pub open spec fn line_tokens(line: Seq<char>) -> Seq<Seq<char>> {
    flush(tok_run(trim(before_char(line, ';')))).tokens
}

/// The tokens of a sequence of lines.
pub open spec fn lines_tokens(ls: Seq<Seq<char>>) -> Seq<Seq<char>>
    decreases ls.len(),
{
    if ls.len() == 0 {
        Seq::empty()
    } else {
        lines_tokens(ls.drop_last()) + line_tokens(ls.last())
    }
}

/// The tokens of a Lisp source text.
pub open spec fn tokens_of(input: Seq<char>) -> Seq<Seq<char>> {
    lines_tokens(lines(input))
}

fn flush_exec(tokens: &mut Vec<String>, current: &mut Vec<char>, Ghost(in_string): Ghost<bool>)
    ensures
        flush(TokState { tokens: string_seqs(old(tokens)@), current: old(current)@, in_string }) == (TokState {
            tokens: string_seqs(final(tokens)@),
            current: final(current)@,
            in_string,
        }),
{
    let t = trim_chars(current.as_slice());
    if t.len() > 0 {
        let ghost before = string_seqs(tokens@);
        tokens.push(string_of(t.as_slice()));
        assert(string_seqs(tokens@) =~= before.push(t@));
        *current = Vec::new();
    }
}

fn line_tokens_exec(line: &[char], tokens: &mut Vec<String>)
    ensures
        string_seqs(final(tokens)@) == string_seqs(old(tokens)@) + line_tokens(line@),
{
    let cut = find_char(line, ';');
    let head = sub_chars(line, 0, cut);
    assert(head@ =~= before_char(line@, ';'));
    let body = trim_chars(head.as_slice());
    let ghost base = string_seqs(tokens@);
    let mut local: Vec<String> = Vec::new();
    let mut current: Vec<char> = Vec::new();
    let mut in_string = false;
    let mut i: usize = 0;
    assert(string_seqs(local@) =~= Seq::<Seq<char>>::empty());
    assert(body@.take(0) =~= Seq::<char>::empty());
    assert(current@ =~= Seq::<char>::empty());
    while i < body.len()
        invariant
            i <= body@.len(),
            tok_run(body@.take(i as int)) == (TokState {
                tokens: string_seqs(local@),
                current: current@,
                in_string,
            }),
        decreases body.len() - i,
    {
        assert(body@.take(i + 1).drop_last() =~= body@.take(i as int));
        let c = body[i];
        if c == '"' {
            current.push(c);
            in_string = !in_string;
        } else if (c == '(' || c == ')') && !in_string {
            flush_exec(&mut local, &mut current, Ghost(in_string));
            let mut one: Vec<char> = Vec::new();
            one.push(c);
            let ghost before = string_seqs(local@);
            local.push(string_of(one.as_slice()));
            assert(string_seqs(local@) =~= before.push(seq![c]));
        } else if c == ' ' && !in_string {
            flush_exec(&mut local, &mut current, Ghost(in_string));
        } else {
            current.push(c);
        }
        i = i + 1;
    }
    assert(body@.take(body@.len() as int) =~= body@);
    flush_exec(&mut local, &mut current, Ghost(in_string));
    let mut j: usize = 0;
    let ghost added = string_seqs(local@);
    while j < local.len()
        invariant
            j <= local@.len(),
            added == string_seqs(local@),
            string_seqs(tokens@) == base + added.take(j as int),
        decreases local.len() - j,
    {
        let ghost before = string_seqs(tokens@);
        tokens.push(local[j].clone());
        assert(string_seqs(tokens@) =~= before.push(local@[j as int]@));
        j = j + 1;
        assert(base + added.take(j as int) =~= (base + added.take(j - 1)).push(added[j - 1]));
    }
    assert(added.take(added.len() as int) =~= added);
}

/// Splits Lisp source text into tokens, line by line.
pub fn tokenize(input: &str) -> (r: Vec<String>)
    ensures
        string_seqs(r@) == tokens_of(input@),
{
    let chars = chars_of(input);
    let ls = split_lines(chars.as_slice());
    let mut tokens: Vec<String> = Vec::new();
    let mut k: usize = 0;
    assert(string_seqs(tokens@) =~= Seq::<Seq<char>>::empty());
    assert(char_seqs(ls@).take(0) =~= Seq::<Seq<char>>::empty());
    while k < ls.len()
        invariant
            k <= ls@.len(),
            char_seqs(ls@) == lines(chars@),
            chars@ == input@,
            string_seqs(tokens@) == lines_tokens(char_seqs(ls@).take(k as int)),
        decreases ls.len() - k,
    {
        assert(char_seqs(ls@).take(k + 1).drop_last() =~= char_seqs(ls@).take(k as int));
        line_tokens_exec(ls[k].as_slice(), &mut tokens);
        k = k + 1;
    }
    assert(char_seqs(ls@).take(ls@.len() as int) =~= char_seqs(ls@));
    tokens
}


// ---------------------------------------------------------------------------
// Reader

/// The model of a [`LispError`].
pub enum LispFault {
    UnexpectedEof,
    UnexpectedClose,
    MissingArgument,
    InvalidDefine,
    InvalidSet,
    UnknownOperation(Seq<char>),
    NotASymbol,
}

/// The model of an error.
pub open spec fn fault_of(e: LispError) -> LispFault {
    match e {
        LispError::UnexpectedEof => LispFault::UnexpectedEof,
        LispError::UnexpectedClose => LispFault::UnexpectedClose,
        LispError::MissingArgument => LispFault::MissingArgument,
        LispError::InvalidDefine => LispFault::InvalidDefine,
        LispError::InvalidSet => LispFault::InvalidSet,
        LispError::UnknownOperation(s) => LispFault::UnknownOperation(s@),
        LispError::NotASymbol => LispFault::NotASymbol,
    }
}

/// The expression that a single token denotes: an integer, `#t`, `#f`, a
/// string literal (its quotes trimmed), or a symbol.
pub open spec fn atom_model(t: Seq<char>) -> ExprModel {
    match parse_i64(t) {
        Some(n) => ExprModel::Int(n),
        None => if t == seq!['#', 't'] {
            ExprModel::Bool(true)
        } else if t == seq!['#', 'f'] {
            ExprModel::Bool(false)
        } else if t.len() > 0 && t[0] == '"' && t.last() == '"' {
            ExprModel::Str(trim_char(t, '"'))
        } else {
            ExprModel::Symbol(t)
        },
    }
}

/// Reads one expression from the front of `toks`; gives the expression and
/// the tokens after it.
pub open spec fn parse_expr(toks: Seq<Seq<char>>) -> Result<(ExprModel, Seq<Seq<char>>), LispFault>
    decreases toks.len(), 0nat,
{
    if toks.len() == 0 {
        Err(LispFault::UnexpectedEof)
    } else if toks[0] == seq!['('] {
        parse_items(toks.drop_first(), Seq::empty())
    } else if toks[0] == seq![')'] {
        Err(LispFault::UnexpectedClose)
    } else {
        Ok((atom_model(toks[0]), toks.drop_first()))
    }
}

/// Reads the items of a list up to its `)`, after the items `acc` read so far.
pub open spec fn parse_items(toks: Seq<Seq<char>>, acc: Seq<ExprModel>) -> Result<
    (ExprModel, Seq<Seq<char>>),
    LispFault,
>
    decreases toks.len(), 1nat,
{
    if toks.len() == 0 {
        Err(LispFault::UnexpectedEof)
    } else if toks[0] == seq![')'] {
        Ok((ExprModel::List(acc), toks.drop_first()))
    } else {
        match parse_expr(toks) {
            Err(f) => Err(f),
            Ok((e, rest)) => if rest.len() < toks.len() {
                parse_items(rest, acc.push(e))
            } else {
                Err(LispFault::UnexpectedEof)
            },
        }
    }
}

fn is_single(s: &String, c: char) -> (b: bool)
    ensures
        b == (s@ == seq![c]),
{
    let v = chars_of(s.as_str());
    if v.len() == 1 && v[0] == c {
        assert(v@ =~= seq![c]);
        true
    } else {
        false
    }
}

/// The expression that a single token denotes.
pub fn atom(token: &str) -> (e: Expr)
    ensures
        expr_model(e) == atom_model(token@),
{
    let t = chars_of(token);
    match parse_i64_chars(t.as_slice()) {
        Some(n) => Expr::Int(n),
        None => {
            if t.len() == 2 && t[0] == '#' && t[1] == 't' {
                assert(t@ =~= seq!['#', 't']);
                Expr::Bool(true)
            } else if t.len() == 2 && t[0] == '#' && t[1] == 'f' {
                assert(t@ =~= seq!['#', 'f']);
                Expr::Bool(false)
            } else if t.len() > 0 && t[0] == '"' && t[t.len() - 1] == '"' {
                proof {
                    if t@ == seq!['#', 't'] || t@ == seq!['#', 'f'] {
                        assert(t@[0] == '#');
                    }
                }
                let body = trim_char_exec(t.as_slice(), '"');
                Expr::Str(string_of(body.as_slice()))
            } else {
                proof {
                    if t@ == seq!['#', 't'] || t@ == seq!['#', 'f'] {
                        assert(t@.len() == 2 && t@[0] == '#');
                    }
                }
                Expr::Symbol(token.to_owned())
            }
        },
    }
}

/// Reads one expression from the front of `tokens`, removing the tokens it
/// consumed. There must be a token to read; a list that the tokens leave
/// open, or a `)` where an expression starts, is an error.
pub fn parse(tokens: &mut Vec<String>) -> (r: Result<Expr, LispError>)
    requires
        old(tokens)@.len() > 0,
    ensures
        match parse_expr(string_seqs(old(tokens)@)) {
            Ok((m, rest)) => r is Ok && expr_model(r->Ok_0) == m && string_seqs(final(tokens)@) == rest,
            Err(f) => r is Err && fault_of(r->Err_0) == f,
        },
        r is Ok ==> final(tokens)@.len() < old(tokens)@.len(),
    decreases old(tokens)@.len(),
{
    let ghost toks = string_seqs(tokens@);
    let token = tokens.remove(0);
    assert(string_seqs(tokens@) =~= toks.drop_first());
    assert(toks[0] == token@);
    if is_single(&token, '(') {
        let mut list: Vec<Expr> = Vec::new();
        assert(exprs_model(list@) =~= Seq::<ExprModel>::empty());
        loop
            invariant
                tokens@.len() < old(tokens)@.len(),
                toks == string_seqs(old(tokens)@),
                toks[0] == seq!['('],
                parse_items(string_seqs(tokens@), exprs_model(list@)) == parse_expr(toks),
            decreases tokens@.len(),
        {
            let ghost cur = string_seqs(tokens@);
            if tokens.len() == 0 {
                return Err(LispError::UnexpectedEof);
            }
            assert(cur[0] == tokens@[0]@);
            if is_single(&tokens[0], ')') {
                tokens.remove(0);
                assert(string_seqs(tokens@) =~= cur.drop_first());
                return Ok(Expr::List(list));
            }
            match parse(tokens) {
                Ok(e) => {
                    let ghost acc = exprs_model(list@);
                    list.push(e);
                    assert(exprs_model(list@) =~= acc.push(expr_model(e)));
                },
                Err(err) => {
                    return Err(err);
                },
            }
        }
    } else if is_single(&token, ')') {
        Err(LispError::UnexpectedClose)
    } else {
        Ok(atom(token.as_str()))
    }
}


// ---------------------------------------------------------------------------
// Code generation

/// The label counter after one label was taken: it wraps around.
pub open spec fn next_count(c: usize) -> usize {
    if c == usize::MAX {
        0
    } else {
        (c + 1) as usize
    }
}

/// The label made of `base`, an underscore and the counter value.
pub open spec fn label_text(base: Seq<char>, c: usize) -> Seq<char> {
    base + "_"@ + nat_text(c as nat)
}

/// The assembly instruction of a binary operator, if `op` is one.
pub open spec fn binary_instruction(op: Seq<char>) -> Option<Seq<char>> {
    if op == "+"@ {
        Some("ADD"@)
    } else if op == "-"@ {
        Some("SUB"@)
    } else if op == "="@ {
        Some("EQ"@)
    } else if op == ">"@ {
        Some("GT"@)
    } else if op == "<"@ {
        Some("LT"@)
    } else if op == ">="@ {
        Some("GE"@)
    } else if op == "<="@ {
        Some("LE"@)
    } else {
        None
    }
}

/// The assembly lines of an expression, and the label counter after it;
/// labels are numbered from `c` on.
pub open spec fn compile_spec(e: ExprModel, c: usize) -> Result<(Seq<Seq<char>>, usize), LispFault>
    decreases e, 2nat,
{
    match e {
        ExprModel::Int(n) => Ok((seq!["PUSH_INT "@ + int_text(n as int)], c)),
        ExprModel::Str(s) => Ok((seq!["PUSH_STR \""@ + s + "\""@], c)),
        ExprModel::Bool(b) => Ok((seq![if b { "TRUE"@ } else { "FALSE"@ }], c)),
        ExprModel::Symbol(s) => Ok((seq!["LOAD "@ + s], c)),
        ExprModel::List(items) => if items.len() == 0 {
            Ok((Seq::empty(), c))
        } else {
            match items[0] {
                ExprModel::Symbol(op) => compile_form(op, items, c),
                _ => Err(LispFault::NotASymbol),
            }
        },
    }
}

/// The assembly lines of a binary operation: its two operands `items[1]`
/// and `items[2]`, then the instruction `ins`.
pub open spec fn compile_binary(items: Seq<ExprModel>, ins: Seq<char>, c: usize) -> Result<
    (Seq<Seq<char>>, usize),
    LispFault,
>
    decreases items, 0nat,
{
    if items.len() < 2 {
        Err(LispFault::MissingArgument)
    } else {
        match compile_spec(items[1], c) {
            Err(f) => Err(f),
            Ok((l1, c1)) => if items.len() < 3 {
                Err(LispFault::MissingArgument)
            } else {
                match compile_spec(items[2], c1) {
                    Err(f) => Err(f),
                    Ok((l2, c2)) => Ok(((l1 + l2).push(ins), c2)),
                }
            },
        }
    }
}

/// The assembly lines of a list headed by the operator `op`.
pub open spec fn compile_form(op: Seq<char>, items: Seq<ExprModel>, c: usize) -> Result<
    (Seq<Seq<char>>, usize),
    LispFault,
>
    decreases items, 1nat,
{
    match binary_instruction(op) {
        Some(ins) => compile_binary(items, ins, c),
        None => if op == "print"@ {
            if items.len() < 2 {
                Err(LispFault::MissingArgument)
            } else {
                match compile_spec(items[1], c) {
                    Err(f) => Err(f),
                    Ok((l1, c1)) => Ok((l1.push("PRINT"@), c1)),
                }
            }
        } else if op == "define"@ || op == "set!"@ {
            if items.len() < 2 {
                Err(LispFault::MissingArgument)
            } else {
                match items[1] {
                    ExprModel::Symbol(name) => if items.len() < 3 {
                        Err(LispFault::MissingArgument)
                    } else {
                        match compile_spec(items[2], c) {
                            Err(f) => Err(f),
                            Ok((l2, c2)) => Ok((l2.push("STORE "@ + name), c2)),
                        }
                    },
                    _ => Err(
                        if op == "define"@ {
                            LispFault::InvalidDefine
                        } else {
                            LispFault::InvalidSet
                        },
                    ),
                }
            }
        } else if op == "if"@ {
            let else_label = label_text("else"@, c);
            let c1 = next_count(c);
            let end_label = label_text("end_if"@, c1);
            let c2 = next_count(c1);
            if items.len() < 2 {
                Err(LispFault::MissingArgument)
            } else {
                match compile_spec(items[1], c2) {
                    Err(f) => Err(f),
                    Ok((l1, c3)) => if items.len() < 3 {
                        Err(LispFault::MissingArgument)
                    } else {
                        match compile_spec(items[2], c3) {
                            Err(f) => Err(f),
                            Ok((l2, c4)) => if items.len() < 4 {
                                Err(LispFault::MissingArgument)
                            } else {
                                match compile_spec(items[3], c4) {
                                    Err(f) => Err(f),
                                    Ok((l3, c5)) => {
                                        let head = l1.push("JZ "@ + else_label) + l2;
                                        let mid = head.push("JMP "@ + end_label).push("LABEL "@ + else_label);
                                        Ok(((mid + l3).push("LABEL "@ + end_label), c5))
                                    },
                                }
                            },
                        }
                    },
                }
            }
        } else {
            Err(LispFault::UnknownOperation(op))
        },
    }
}

fn is_lit(a: &[char], lit: &str) -> (b: bool)
    ensures
        b == (a@ == lit@),
{
    let l = chars_of(lit);
    chars_eq(a, l.as_slice())
}

fn emit(out: &mut Vec<String>, line: &[char])
    ensures
        string_seqs(final(out)@) == string_seqs(old(out)@).push(line@),
{
    let ghost before = string_seqs(out@);
    out.push(string_of(line));
    assert(string_seqs(out@) =~= before.push(line@));
}

fn text_with(prefix: &str, rest: &[char]) -> (r: Vec<char>)
    ensures
        r@ == prefix@ + rest@,
{
    let mut v = chars_of(prefix);
    append_chars(&mut v, rest);
    v
}

/// A fresh label: `base`, an underscore and the counter, which advances.
pub fn fresh_label(base: &str, counter: &mut usize) -> (r: Vec<char>)
    ensures
        r@ == label_text(base@, *old(counter)),
        *final(counter) == next_count(*old(counter)),
{
    let mut v = chars_of(base);
    let us = chars_of("_");
    append_chars(&mut v, us.as_slice());
    let digits = u64_text(*counter as u64);
    append_chars(&mut v, digits.as_slice());
    *counter = if *counter == usize::MAX {
        0
    } else {
        *counter + 1
    };
    v
}

/// Appends the assembly lines of an expression to `out`.
pub fn compile_expr(expr: &Expr, out: &mut Vec<String>, counter: &mut usize) -> (r: Result<(), LispError>)
    ensures
        match compile_spec(expr_model(*expr), *old(counter)) {
            Ok((lines, c)) => r is Ok && string_seqs(final(out)@) == string_seqs(old(out)@) + lines
                && *final(counter) == c,
            Err(f) => r is Err && fault_of(r->Err_0) == f,
        },
    decreases expr, 2nat,
{
    let ghost out0 = string_seqs(out@);
    match expr {
        Expr::Int(n) => {
            let t = i64_text(*n);
            let line = text_with("PUSH_INT ", t.as_slice());
            emit(out, line.as_slice());
            assert(string_seqs(out@) =~= out0 + seq![line@]);
            Ok(())
        },
        Expr::Str(st) => {
            let body = chars_of(st.as_str());
            let mut line = text_with("PUSH_STR \"", body.as_slice());
            let q = chars_of("\"");
            append_chars(&mut line, q.as_slice());
            emit(out, line.as_slice());
            assert(string_seqs(out@) =~= out0 + seq![line@]);
            Ok(())
        },
        Expr::Bool(b) => {
            let line = if *b {
                chars_of("TRUE")
            } else {
                chars_of("FALSE")
            };
            emit(out, line.as_slice());
            assert(string_seqs(out@) =~= out0 + seq![line@]);
            Ok(())
        },
        Expr::Symbol(name) => {
            let body = chars_of(name.as_str());
            let line = text_with("LOAD ", body.as_slice());
            emit(out, line.as_slice());
            assert(string_seqs(out@) =~= out0 + seq![line@]);
            Ok(())
        },
        Expr::List(items) => {
            let ghost ms = exprs_model(items@);
            if items.len() == 0 {
                assert(string_seqs(out@) =~= out0 + Seq::<Seq<char>>::empty());
                return Ok(());
            }
            assert(ms[0] == expr_model(items@[0]));
            match &items[0] {
                Expr::Symbol(op) => {
                    let opc = chars_of(op.as_str());
                    compile_form_exec(opc.as_slice(), items, out, counter)
                },
                _ => Err(LispError::NotASymbol),
            }
        },
    }
}

/// Appends the lines of a binary operation: the operands `items[1]` and
/// `items[2]` (the arguments after the operator), then the instruction `op`.
pub fn binary_op(items: &Vec<Expr>, op: &str, out: &mut Vec<String>, counter: &mut usize) -> (r: Result<
    (),
    LispError,
>)
    ensures
        match compile_binary(exprs_model(items@), op@, *old(counter)) {
            Ok((lines, c)) => r is Ok && string_seqs(final(out)@) == string_seqs(old(out)@) + lines
                && *final(counter) == c,
            Err(f) => r is Err && fault_of(r->Err_0) == f,
        },
    decreases items, 0nat,
{
    let ghost out0 = string_seqs(out@);
    let ghost ms = exprs_model(items@);
    if items.len() < 2 {
        return Err(LispError::MissingArgument);
    }
    assert(ms[1] == expr_model(items@[1]));
    assert(decreases_to!(items => items@[1]));
    compile_expr(&items[1], out, counter)?;
    let ghost out1 = string_seqs(out@);
    if items.len() < 3 {
        return Err(LispError::MissingArgument);
    }
    assert(ms[2] == expr_model(items@[2]));
    assert(decreases_to!(items => items@[2]));
    compile_expr(&items[2], out, counter)?;
    let ghost out2 = string_seqs(out@);
    let line = chars_of(op);
    emit(out, line.as_slice());
    assert(string_seqs(out@) =~= out0 + ((out1.skip(out0.len() as int) + out2.skip(out1.len() as int)).push(
        line@,
    )));
    Ok(())
}

fn compile_form_exec(op: &[char], items: &Vec<Expr>, out: &mut Vec<String>, counter: &mut usize) -> (r:
    Result<(), LispError>)
    requires
        items@.len() > 0,
    ensures
        match compile_form(op@, exprs_model(items@), *old(counter)) {
            Ok((lines, c)) => r is Ok && string_seqs(final(out)@) == string_seqs(old(out)@) + lines
                && *final(counter) == c,
            Err(f) => r is Err && fault_of(r->Err_0) == f,
        },
    decreases items, 1nat,
{
    let ghost out0 = string_seqs(out@);
    let ghost ms = exprs_model(items@);
    let ghost c0 = *counter;
    let ins: Option<&str> = if is_lit(op, "+") {
        Some("ADD")
    } else if is_lit(op, "-") {
        Some("SUB")
    } else if is_lit(op, "=") {
        Some("EQ")
    } else if is_lit(op, ">") {
        Some("GT")
    } else if is_lit(op, "<") {
        Some("LT")
    } else if is_lit(op, ">=") {
        Some("GE")
    } else if is_lit(op, "<=") {
        Some("LE")
    } else {
        None
    };
    assert(match binary_instruction(op@) {
        Some(x) => ins is Some && ins->Some_0@ == x,
        None => ins is None,
    });
    match ins {
        Some(name) => {
            return binary_op(items, name, out, counter);
        },
        None => {},
    }
    if is_lit(op, "print") {
        if items.len() < 2 {
            return Err(LispError::MissingArgument);
        }
        assert(ms[1] == expr_model(items@[1]));
        assert(decreases_to!(items => items@[1]));
        compile_expr(&items[1], out, counter)?;
        let ghost out1 = string_seqs(out@);
        let line = chars_of("PRINT");
        emit(out, line.as_slice());
        assert(string_seqs(out@) =~= out0 + (out1.skip(out0.len() as int).push(line@)));
        Ok(())
    } else if is_lit(op, "define") || is_lit(op, "set!") {
        if items.len() < 2 {
            return Err(LispError::MissingArgument);
        }
        assert(ms[1] == expr_model(items@[1]));
        match &items[1] {
            Expr::Symbol(name) => {
                if items.len() < 3 {
                    return Err(LispError::MissingArgument);
                }
                assert(ms[2] == expr_model(items@[2]));
                assert(decreases_to!(items => items@[2]));
                compile_expr(&items[2], out, counter)?;
                let ghost out1 = string_seqs(out@);
                let nc = chars_of(name.as_str());
                let line = text_with("STORE ", nc.as_slice());
                emit(out, line.as_slice());
                assert(string_seqs(out@) =~= out0 + (out1.skip(out0.len() as int).push(line@)));
                Ok(())
            },
            _ => {
                if is_lit(op, "define") {
                    Err(LispError::InvalidDefine)
                } else {
                    Err(LispError::InvalidSet)
                }
            },
        }
    } else if is_lit(op, "if") {
        let else_label = fresh_label("else", counter);
        let end_label = fresh_label("end_if", counter);
        if items.len() < 2 {
            return Err(LispError::MissingArgument);
        }
        assert(ms[1] == expr_model(items@[1]));
        assert(decreases_to!(items => items@[1]));
        compile_expr(&items[1], out, counter)?;
        let ghost out1 = string_seqs(out@);
        let jz = text_with("JZ ", else_label.as_slice());
        emit(out, jz.as_slice());
        if items.len() < 3 {
            return Err(LispError::MissingArgument);
        }
        assert(ms[2] == expr_model(items@[2]));
        assert(decreases_to!(items => items@[2]));
        let ghost out2 = string_seqs(out@);
        compile_expr(&items[2], out, counter)?;
        let ghost out3 = string_seqs(out@);
        let jmp = text_with("JMP ", end_label.as_slice());
        emit(out, jmp.as_slice());
        let lab1 = text_with("LABEL ", else_label.as_slice());
        emit(out, lab1.as_slice());
        if items.len() < 4 {
            return Err(LispError::MissingArgument);
        }
        assert(ms[3] == expr_model(items@[3]));
        assert(decreases_to!(items => items@[3]));
        let ghost out4 = string_seqs(out@);
        compile_expr(&items[3], out, counter)?;
        let ghost out5 = string_seqs(out@);
        let lab2 = text_with("LABEL ", end_label.as_slice());
        emit(out, lab2.as_slice());
        proof {
            let l1 = out1.skip(out0.len() as int);
            let l2 = out3.skip(out2.len() as int);
            let l3 = out5.skip(out4.len() as int);
            assert(string_seqs(out@) =~= out0 + ((l1.push(jz@) + l2).push(jmp@).push(lab1@) + l3).push(
                lab2@,
            ));
        }
        Ok(())
    } else {
        Err(LispError::UnknownOperation(string_of(op)))
    }
}


/// The assembly lines of a whole token stream: each expression in turn,
/// then `HALT`.
pub open spec fn compile_tokens(toks: Seq<Seq<char>>, c: usize) -> Result<(Seq<Seq<char>>, usize), LispFault>
    decreases toks.len(),
{
    if toks.len() == 0 {
        Ok((seq!["HALT"@], c))
    } else {
        match parse_expr(toks) {
            Err(f) => Err(f),
            Ok((e, rest)) => if rest.len() < toks.len() {
                match compile_spec(e, c) {
                    Err(f) => Err(f),
                    Ok((l1, c1)) => match compile_tokens(rest, c1) {
                        Err(f) => Err(f),
                        Ok((l2, c2)) => Ok((l1 + l2, c2)),
                    },
                }
            } else {
                Err(LispFault::UnexpectedEof)
            },
        }
    }
}

/// Compiles Lisp source text into assembly lines, ending with `HALT`;
/// labels are numbered from the counter on.
pub fn compile_lisp(input: &str, counter: &mut usize) -> (r: Result<Vec<String>, LispError>)
    ensures
        match compile_tokens(tokens_of(input@), *old(counter)) {
            Ok((lines, c)) => r is Ok && string_seqs(r->Ok_0@) == lines && *final(counter) == c,
            Err(f) => r is Err && fault_of(r->Err_0) == f,
        },
{
    let mut tokens = tokenize(input);
    let mut out: Vec<String> = Vec::new();
    let ghost toks0 = string_seqs(tokens@);
    let ghost c0 = *counter;
    assert(string_seqs(out@) =~= Seq::<Seq<char>>::empty());
    while tokens.len() > 0
        invariant
            toks0 == tokens_of(input@),
            c0 == *old(counter),
            match compile_tokens(toks0, c0) {
                Ok((lines, c)) => match compile_tokens(string_seqs(tokens@), *counter) {
                    Ok((rest_lines, c2)) => lines == string_seqs(out@) + rest_lines && c == c2,
                    Err(_) => false,
                },
                Err(f) => compile_tokens(string_seqs(tokens@), *counter) == Err::<
                    (Seq<Seq<char>>, usize),
                    LispFault,
                >(f),
            },
        decreases tokens@.len(),
    {
        let ghost cur = string_seqs(tokens@);
        let ghost cc = *counter;
        let ghost out_before = string_seqs(out@);
        let e = match parse(&mut tokens) {
            Ok(e) => e,
            Err(err) => {
                assert(compile_tokens(cur, cc) == Err::<(Seq<Seq<char>>, usize), LispFault>(fault_of(err)));
                return Err(err);
            },
        };
        assert(parse_expr(cur) == Ok::<(ExprModel, Seq<Seq<char>>), LispFault>((expr_model(e), string_seqs(tokens@))));
        match compile_expr(&e, &mut out, counter) {
            Ok(()) => {},
            Err(err) => {
                assert(compile_tokens(cur, cc) == Err::<(Seq<Seq<char>>, usize), LispFault>(fault_of(err)));
                return Err(err);
            },
        }
        proof {
            let l1 = string_seqs(out@).skip(out_before.len() as int);
            assert(string_seqs(out@) =~= out_before + l1);
            match compile_tokens(string_seqs(tokens@), *counter) {
                Ok((l2, c2)) => {
                    assert(out_before + (l1 + l2) =~= string_seqs(out@) + l2);
                },
                Err(_) => {},
            }
        }
    }
    let halt = chars_of("HALT");
    emit(&mut out, halt.as_slice());
    Ok(out)
}


/// What a binary Lisp operator gives for two integers: `+` and `-` wrap as
/// the machine's integers do, comparisons give 1 or 0.
pub open spec fn lisp_binary_value(op: Seq<char>, x: i64, y: i64) -> ValueModel {
    if op == "+"@ {
        ValueModel::Int(x.wrapping_add(y))
    } else if op == "-"@ {
        ValueModel::Int(x.wrapping_sub(y))
    } else if op == "="@ {
        truth(x == y)
    } else if op == "<"@ {
        truth(x < y)
    } else if op == ">"@ {
        truth(x > y)
    } else if op == "<="@ {
        truth(x <= y)
    } else {
        truth(x >= y)
    }
}

/// A binary Lisp form on two integers compiles to their two pushes and an
/// instruction that the assembler reads as one which, on the stack machine,
/// replaces the two integers by what the operator means (for `(< x y)`: 1
/// exactly when `x < y`).
#[verifier::rlimit(100)]
pub proof fn law_lisp_operators_compute(op: Seq<char>, x: i64, y: i64, c: usize, st: MState)
    requires
        op == "+"@ || op == "-"@ || op == "="@ || op == "<"@ || op == ">"@ || op == "<="@ || op == ">="@,
    ensures
        compile_spec(
            ExprModel::List(seq![ExprModel::Symbol(op), ExprModel::Int(x), ExprModel::Int(y)]),
            c,
        ) is Ok,
        ({
            let lines = compile_spec(
                ExprModel::List(seq![ExprModel::Symbol(op), ExprModel::Int(x), ExprModel::Int(y)]),
                c,
            )->Ok_0.0;
            &&& lines.len() == 3
            &&& unit_mnemonic(lines[2]) is Some
            &&& exec_spec(push(push(st, ValueModel::Int(x)), ValueModel::Int(y)), unit_mnemonic(lines[2])->Some_0)
                == Ok::<(MState, MEffect), (MState, VMErrorModel)>((push(st, lisp_binary_value(op, x, y)), MEffect::Done))
        }),
{
    lemma_literals();
    reveal_strlit("+");
    reveal_strlit("-");
    reveal_strlit("=");
    reveal_strlit("<");
    reveal_strlit(">");
    reveal_strlit("<=");
    reveal_strlit(">=");
    assert("+"@ =~= seq!['+']);
    assert("-"@ =~= seq!['-']);
    assert("="@ =~= seq!['=']);
    assert("<"@ =~= seq!['<']);
    assert(">"@ =~= seq!['>']);
    assert("<="@ =~= seq!['<', '=']);
    assert(">="@ =~= seq!['>', '=']);
    assert("+"@[0] == '+' && "-"@[0] == '-' && "="@[0] == '=' && "<"@[0] == '<' && ">"@[0] == '>');
    assert("<="@[0] == '<' && "<="@[1] == '=' && ">="@[0] == '>' && ">="@[1] == '=');
    assert("+"@.len() == 1 && "-"@.len() == 1 && "="@.len() == 1 && "<"@.len() == 1 && ">"@.len() == 1);
    assert("<="@.len() == 2 && ">="@.len() == 2);
    let items = seq![ExprModel::Symbol(op), ExprModel::Int(x), ExprModel::Int(y)];
    let ins = binary_instruction(op)->Some_0;
    assert(compile_spec(ExprModel::List(items), c) == compile_form(op, items, c));
    let l1 = seq!["PUSH_INT "@ + int_text(x as int)];
    let l2 = seq!["PUSH_INT "@ + int_text(y as int)];
    assert(compile_spec(items[1], c) == Ok::<(Seq<Seq<char>>, usize), LispFault>((l1, c)));
    assert(compile_spec(items[2], c) == Ok::<(Seq<Seq<char>>, usize), LispFault>((l2, c)));
    let lines = (l1 + l2).push(ins);
    assert(compile_spec(ExprModel::List(items), c) == Ok::<(Seq<Seq<char>>, usize), LispFault>((lines, c)));
    assert(lines[2] == ins);
    let t1 = push(st, ValueModel::Int(x));
    let t2 = push(t1, ValueModel::Int(y));
    assert(t2.stack.drop_last() =~= t1.stack);
    assert(MState { stack: t2.stack.drop_last(), ..t2 } == t1);
    assert(t1.stack.drop_last() =~= st.stack);
    assert(MState { stack: t1.stack.drop_last(), ..t1 } == st);
    assert forall|nm: Seq<char>| pop2(t2, nm) == Ok::<(MState, ValueModel, ValueModel), (MState, VMErrorModel)>(
        (st, ValueModel::Int(x), ValueModel::Int(y)),
    ) by {}
    let o = unit_mnemonic(ins)->Some_0;
    if op == "+"@ {
        assert(ins == "ADD"@);
        assert(o == OpCodeModel::Add);
    } else if op == "-"@ {
        assert(ins == "SUB"@);
        assert(o == OpCodeModel::Sub);
    } else if op == "="@ {
        assert(ins == "EQ"@);
        assert(o == OpCodeModel::Eq);
    } else if op == "<"@ {
        assert(ins == "LT"@);
        assert(o == OpCodeModel::Lt);
    } else if op == ">"@ {
        assert(ins == "GT"@);
        assert(o == OpCodeModel::Gt);
    } else if op == "<="@ {
        assert(ins == "LE"@);
        assert(o == OpCodeModel::Le);
    } else {
        assert(ins == "GE"@);
        assert(o == OpCodeModel::Ge);
    }
}


/// `(print e)` compiles to the lines of `e` followed by one line, which the
/// assembler reads as `PRINT`.
#[verifier::rlimit(60)]
pub proof fn law_lisp_print_prints(e: ExprModel, c: usize)
    requires
        compile_spec(e, c) is Ok,
    ensures
        compile_spec(ExprModel::List(seq![ExprModel::Symbol("print"@), e]), c) is Ok,
        ({
            let lines = compile_spec(ExprModel::List(seq![ExprModel::Symbol("print"@), e]), c)->Ok_0.0;
            &&& lines.drop_last() == compile_spec(e, c)->Ok_0.0
            &&& lines.len() > 0
            &&& unit_mnemonic(lines.last()) == Some(OpCodeModel::Print)
        }),
{
    lemma_literals();
    reveal_strlit("print");
    assert("print"@ =~= seq!['p', 'r', 'i', 'n', 't']);
    reveal_strlit("+");
    reveal_strlit("-");
    reveal_strlit("=");
    reveal_strlit("<");
    reveal_strlit(">");
    reveal_strlit("<=");
    reveal_strlit(">=");
    assert("+"@ =~= seq!['+']);
    assert("-"@ =~= seq!['-']);
    assert("="@ =~= seq!['=']);
    assert("<"@ =~= seq!['<']);
    assert(">"@ =~= seq!['>']);
    assert("<="@ =~= seq!['<', '=']);
    assert(">="@ =~= seq!['>', '=']);
    assert("print"@.len() == 5 && "+"@.len() == 1 && "-"@.len() == 1 && "="@.len() == 1 && "<"@.len() == 1);
    assert(">"@.len() == 1 && "<="@.len() == 2 && ">="@.len() == 2);
    assert(binary_instruction("print"@) is None);
    let items = seq![ExprModel::Symbol("print"@), e];
    assert(items[1] == e);
    assert(compile_spec(ExprModel::List(items), c) == compile_form("print"@, items, c));
    let l1 = compile_spec(e, c)->Ok_0.0;
    assert(l1.push("PRINT"@).drop_last() =~= l1);
}

} // verus!
