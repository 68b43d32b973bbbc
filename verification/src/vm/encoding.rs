//! The encoding instructions that compute on stack values alone: CSV
//! parsing and writing, timestamp text, hashing, and the stand-in
//! decompression and decryption.
use vstd::prelude::*;
use vstd::utf8::{decode_utf8, valid_utf8};
use std::collections::hash_map::DefaultHasher;
use std::hash::{Hash, Hasher};
use crate::display::{shower, shows_floats, value_text, write_value};
use crate::text::{append_chars, char_seqs, i64_text, int_text, lines, split_lines, string_of, trim, trim_chars};
use crate::vm::errors::VMError;
use crate::vm::machine::{VM, mismatch1, mismatch2, mismatch_one, mismatch_two};
use crate::vm::opcode::{OpCode, OpCodeModel, opcode_model};
use crate::vm::simulated::{SimOutcome, cat, sim1, sim2, spop_exec, spush, str_value};
use crate::vm::value::{Value, ValueModel, values_model};

verus! {

/// Whether an instruction is one of the encoding instructions.
pub open spec fn is_encoding_op(op: OpCodeModel) -> bool {
    ||| op is CsvParse
    ||| op is CsvWrite
    ||| op is FormatTime
    ||| op is Hash
    ||| op is Decompress
    ||| op is Decrypt
}

/// What `String::from_utf8_lossy` makes of the bytes.
pub uninterp spec fn lossy_utf8(b: Seq<u8>) -> Seq<char>;

/// `String::from_utf8_lossy`: the text of the bytes, each invalid sequence
/// replaced by U+FFFD; bytes that are valid UTF-8 give their own text.
#[verifier::external_body]
fn lossy_text(b: &[u8]) -> (s: String)
    ensures
        s@ == lossy_utf8(b@),
        valid_utf8(b@) ==> s@ == decode_utf8(b@),
{
    String::from_utf8_lossy(b).into_owned()
}

/// `<str as Hash>::hash`: feeds the string to the hasher. How std's
/// algorithm turns it into the hasher's state is not specified by std, so
/// nothing is claimed of that state.
#[verifier::external_body]
fn feed_str(s: &str, hasher: &mut DefaultHasher) {
    s.hash(hasher)
}

/// `<Vec<u8> as Hash>::hash`: feeds the bytes to the hasher. How std's
/// algorithm turns them into the hasher's state is not specified by std, so
/// nothing is claimed of that state.
#[verifier::external_body]
fn feed_bytes(b: &Vec<u8>, hasher: &mut DefaultHasher) {
    b.hash(hasher)
}

/// The hash of a string by a new `DefaultHasher`.
fn hash_str(s: &str) -> (h: u64) {
    let mut hasher = DefaultHasher::new();
    feed_str(s, &mut hasher);
    hasher.finish()
}

/// The hash of a byte vector by a new `DefaultHasher`.
fn hash_bytes(b: &Vec<u8>) -> (h: u64) {
    let mut hasher = DefaultHasher::new();
    feed_bytes(b, &mut hasher);
    hasher.finish()
}

/// The state of splitting a line at a separator: the finished fields and
/// the field being read.
pub struct FieldSplit {
    pub done: Seq<Seq<char>>,
    pub current: Seq<char>,
}

/// The splitting state after reading `s`.
pub open spec fn field_state(s: Seq<char>, c: char) -> FieldSplit
    decreases s.len(),
{
    if s.len() == 0 {
        FieldSplit { done: Seq::empty(), current: Seq::empty() }
    } else {
        let st = field_state(s.drop_last(), c);
        if s.last() == c {
            FieldSplit { done: st.done.push(st.current), current: Seq::empty() }
        } else {
            FieldSplit { done: st.done, current: st.current.push(s.last()) }
        }
    }
}

/// The fields of `s` between occurrences of `c` (`str::split(c)`).
pub open spec fn fields(s: Seq<char>, c: char) -> Seq<Seq<char>> {
    let st = field_state(s, c);
    st.done.push(st.current)
}

/// A CSV line: its comma-separated cells, each trimmed.
pub open spec fn csv_cells(line: Seq<char>) -> ValueModel {
    let f = fields(line, ',');
    ValueModel::List(Seq::new(f.len(), |i: int| ValueModel::Str(trim(f[i]))))
}

/// CSV text: a list of its lines' cell lists.
pub open spec fn csv_rows(s: Seq<char>) -> ValueModel {
    let l = lines(s);
    ValueModel::List(Seq::new(l.len(), |i: int| csv_cells(l[i])))
}

/// A row's cells written as values and joined by commas.
pub open spec fn cells_text(cols: Seq<ValueModel>, ft: spec_fn(u64) -> Seq<char>) -> Seq<char>
    decreases cols.len(),
{
    if cols.len() == 0 {
        Seq::empty()
    } else if cols.len() == 1 {
        value_text(cols[0], ft)
    } else {
        cells_text(cols.drop_last(), ft) + seq![','] + value_text(cols.last(), ft)
    }
}

/// A CSV row: the cells of a list; any other value gives an empty line.
pub open spec fn row_text(row: ValueModel, ft: spec_fn(u64) -> Seq<char>) -> Seq<char> {
    match row {
        ValueModel::List(cols) => cells_text(cols, ft),
        _ => Seq::empty(),
    }
}

/// CSV text of rows: the rows joined by line breaks.
pub open spec fn csv_text(rows: Seq<ValueModel>, ft: spec_fn(u64) -> Seq<char>) -> Seq<char>
    decreases rows.len(),
{
    if rows.len() == 0 {
        Seq::empty()
    } else if rows.len() == 1 {
        row_text(rows[0], ft)
    } else {
        csv_text(rows.drop_last(), ft) + seq!['\n'] + row_text(rows.last(), ft)
    }
}

/// The character of a hexadecimal digit, lower case.
pub open spec fn hex_digit(d: nat) -> char {
    if d < 10 {
        crate::text::digit_char(d)
    } else if d == 10 {
        'a'
    } else if d == 11 {
        'b'
    } else if d == 12 {
        'c'
    } else if d == 13 {
        'd'
    } else if d == 14 {
        'e'
    } else {
        'f'
    }
}

/// The hexadecimal text of a number, as `{:x}` writes it.
pub open spec fn hex_text(n: nat) -> Seq<char>
    decreases n,
{
    if n < 16 {
        seq![hex_digit(n)]
    } else {
        hex_text(n / 16).push(hex_digit(n % 16))
    }
}

/// One encoding instruction on the stack; `ft` writes floats, and `hash`
/// is the hash value the host's hasher gave.
pub open spec fn enc_step(st: Seq<ValueModel>, op: OpCodeModel, ft: spec_fn(u64) -> Seq<char>, hash: u64) -> SimOutcome {
    match op {
        OpCodeModel::CsvParse => sim1(
            st,
            "CSV_PARSE"@,
            |v: ValueModel| match v {
                ValueModel::Str(s) => Ok(csv_rows(s)),
                _ => Err(mismatch1("string (CSV)"@, "CSV_PARSE"@, v)),
            },
        ),
        OpCodeModel::CsvWrite => sim1(
            st,
            "CSV_WRITE"@,
            |v: ValueModel| match v {
                ValueModel::List(rows) => Ok(ValueModel::Str(csv_text(rows, ft))),
                _ => Err(mismatch1("list of lists (CSV data)"@, "CSV_WRITE"@, v)),
            },
        ),
        OpCodeModel::FormatTime => sim2(
            st,
            "FORMAT_TIME"@,
            |a: ValueModel, b: ValueModel| match (a, b) {
                (ValueModel::Int(t), ValueModel::Str(_)) => Ok((ValueModel::Str(int_text(t as int)), None)),
                _ => Err(mismatch2("int (timestamp) and string (format)"@, "FORMAT_TIME"@, a, b)),
            },
        ),
        OpCodeModel::Hash => sim1(
            st,
            "HASH"@,
            |v: ValueModel| match v {
                ValueModel::Str(_) => Ok(ValueModel::Str(hex_text(hash as nat))),
                ValueModel::Bytes(_) => Ok(ValueModel::Str(hex_text(hash as nat))),
                _ => Err(mismatch1("string or bytes"@, "HASH"@, v)),
            },
        ),
        OpCodeModel::Decompress => sim1(
            st,
            "DECOMPRESS"@,
            |v: ValueModel| match v {
                ValueModel::Bytes(d) => Ok(ValueModel::Str("decompressed:"@ + lossy_utf8(d))),
                _ => Err(mismatch1("bytes (compressed data)"@, "DECOMPRESS"@, v)),
            },
        ),
        OpCodeModel::Decrypt => sim2(
            st,
            "DECRYPT"@,
            |a: ValueModel, b: ValueModel| match (a, b) {
                (ValueModel::Bytes(c), ValueModel::Str(_)) => Ok((ValueModel::Str("decrypted:"@ + lossy_utf8(c)), None)),
                _ => Err(mismatch2("bytes (encrypted data) and string (key)"@, "DECRYPT"@, a, b)),
            },
        ),
        _ => Ok((st, None)),
    }
}

/// `r` is what the outcome `o` says, `st` the stack afterwards.
pub open spec fn enc_ok(r: Result<(), VMError>, st: Seq<ValueModel>, o: SimOutcome) -> bool {
    match o {
        Ok((t, _)) => r is Ok && st == t,
        Err((t, e)) => r is Err && r->Err_0@ == e && st == t,
    }
}

fn hex_digit_exec(d: u64) -> (c: char)
    requires
        d < 16,
    ensures
        c == hex_digit(d as nat),
{
    if d < 10 {
        let t = crate::text::u64_text(d);
        assert(t@ == crate::text::nat_text(d as nat));
        t[0]
    } else if d == 10 {
        'a'
    } else if d == 11 {
        'b'
    } else if d == 12 {
        'c'
    } else if d == 13 {
        'd'
    } else if d == 14 {
        'e'
    } else {
        'f'
    }
}

/// The hexadecimal text of a `u64`.
fn hex_text_exec(n: u64) -> (r: Vec<char>)
    ensures
        r@ == hex_text(n as nat),
    decreases n,
{
    if n < 16 {
        let mut r = Vec::new();
        r.push(hex_digit_exec(n));
        r
    } else {
        let mut r = hex_text_exec(n / 16);
        r.push(hex_digit_exec(n % 16));
        r
    }
}

/// `str::split(c)` on a character slice.
fn split_fields(s: &[char], c: char) -> (r: Vec<Vec<char>>)
    ensures
        char_seqs(r@) == fields(s@, c),
{
    let mut done: Vec<Vec<char>> = Vec::new();
    let mut current: Vec<char> = Vec::new();
    let mut i: usize = 0;
    while i < s.len()
        invariant
            i <= s@.len(),
            char_seqs(done@) == field_state(s@.take(i as int), c).done,
            current@ == field_state(s@.take(i as int), c).current,
        decreases s.len() - i,
    {
        assert(s@.take(i + 1).drop_last() =~= s@.take(i as int));
        if s[i] == c {
            let ghost before = done@;
            let finished = current;
            done.push(finished);
            current = Vec::new();
            assert(char_seqs(done@) =~= char_seqs(before).push(finished@));
        } else {
            current.push(s[i]);
        }
        i = i + 1;
    }
    assert(s@.take(s@.len() as int) =~= s@);
    let ghost before = done@;
    let last = current;
    done.push(last);
    assert(char_seqs(done@) =~= char_seqs(before).push(last@));
    done
}

/// The cells of a CSV line.
fn csv_cells_exec(line: &[char]) -> (v: Value)
    ensures
        v@ == csv_cells(line@),
{
    let f = split_fields(line, ',');
    let ghost fm = fields(line@, ',');
    let mut cells: Vec<Value> = Vec::new();
    let mut i: usize = 0;
    while i < f.len()
        invariant
            i <= f@.len(),
            char_seqs(f@) == fm,
            cells@.len() == i,
            forall|k: int| 0 <= k < i ==> (#[trigger] values_model(cells@)[k]) == ValueModel::Str(trim(fm[k])),
        decreases f.len() - i,
    {
        assert(fm[i as int] == f@[i as int]@);
        let t = trim_chars(f[i].as_slice());
        let v = str_value(&t);
        assert(v@ == ValueModel::Str(trim(fm[i as int])));
        let ghost before = cells@;
        cells.push(v);
        assert(values_model(cells@)[i as int] == cells@[i as int]@);
        assert forall|k: int| 0 <= k < i + 1 implies (#[trigger] values_model(cells@)[k]) == ValueModel::Str(
            trim(fm[k]),
        ) by {
            if k < i {
                assert(cells@[k] == before[k]);
                assert(values_model(before)[k] == ValueModel::Str(trim(fm[k])));
            }
        }
        i = i + 1;
    }
    assert(values_model(cells@) =~= Seq::new(fm.len(), |k: int| ValueModel::Str(trim(fm[k]))));
    Value::List(cells)
}

/// The rows of CSV text.
fn csv_rows_exec(s: &String) -> (v: Value)
    ensures
        v@ == csv_rows(s@),
{
    let chars = crate::text::chars_of(s.as_str());
    let l = split_lines(chars.as_slice());
    let ghost lm = lines(s@);
    let mut rows: Vec<Value> = Vec::new();
    let mut i: usize = 0;
    while i < l.len()
        invariant
            i <= l@.len(),
            char_seqs(l@) == lm,
            rows@.len() == i,
            forall|k: int| 0 <= k < i ==> (#[trigger] values_model(rows@)[k]) == csv_cells(lm[k]),
        decreases l.len() - i,
    {
        assert(lm[i as int] == l@[i as int]@);
        let v = csv_cells_exec(l[i].as_slice());
        assert(v@ == csv_cells(lm[i as int]));
        let ghost before = rows@;
        rows.push(v);
        assert(values_model(rows@)[i as int] == rows@[i as int]@);
        assert forall|k: int| 0 <= k < i + 1 implies (#[trigger] values_model(rows@)[k]) == csv_cells(lm[k]) by {
            if k < i {
                assert(rows@[k] == before[k]);
                assert(values_model(before)[k] == csv_cells(lm[k]));
            }
        }
        i = i + 1;
    }
    assert(values_model(rows@) =~= Seq::new(lm.len(), |k: int| csv_cells(lm[k])));
    Value::List(rows)
}

/// The CSV text of rows.
fn csv_text_exec<F: Fn(u64) -> String>(rows: &Vec<Value>, f: &F) -> (r: Vec<char>)
    requires
        shows_floats(*f),
    ensures
        r@ == csv_text(values_model(rows@), shower(*f)),
{
    let ghost rm = values_model(rows@);
    let ghost ft = shower(*f);
    let mut out: Vec<char> = Vec::new();
    let mut i: usize = 0;
    while i < rows.len()
        invariant
            i <= rows@.len(),
            rm == values_model(rows@),
            ft == shower(*f),
            shows_floats(*f),
            out@ == csv_text(rm.take(i as int), ft),
        decreases rows.len() - i,
    {
        let ghost before = out@;
        if i > 0 {
            out.push('\n');
        }
        let ghost mid = out@;
        match &rows[i] {
            Value::List(cols) => {
                let ghost cm = values_model(cols@);
                let mut j: usize = 0;
                while j < cols.len()
                    invariant
                        j <= cols@.len(),
                        cm == values_model(cols@),
                        shows_floats(*f),
                        ft == shower(*f),
                        out@ == mid + cells_text(cm.take(j as int), ft),
                    decreases cols.len() - j,
                {
                    if j > 0 {
                        out.push(',');
                    }
                    write_value(&mut out, &cols[j], f);
                    proof {
                        let t = cm.take(j + 1);
                        assert(t.drop_last() =~= cm.take(j as int));
                        assert(t.last() == cols@[j as int]@);
                        if j == 0 {
                            assert(cm.take(0) =~= Seq::<ValueModel>::empty());
                        }
                    }
                    j = j + 1;
                }
                assert(cm.take(cols@.len() as int) =~= cm);
                assert(rm[i as int] == ValueModel::List(cm));
            },
            _ => {
                assert(rm[i as int] !is List);
            },
        }
        proof {
            let t = rm.take(i + 1);
            assert(t.drop_last() =~= rm.take(i as int));
            assert(t.last() == rm[i as int]);
            if i == 0 {
                assert(rm.take(0) =~= Seq::<ValueModel>::empty());
            }
        }
        i = i + 1;
    }
    assert(rm.take(rows@.len() as int) =~= rm);
    out
}

fn prefixed(prefix: &str, text: String) -> (v: Value)
    ensures
        v@ == ValueModel::Str(prefix@ + text@),
{
    let mut t: Vec<char> = Vec::new();
    cat(&mut t, prefix);
    cat(&mut t, text.as_str());
    str_value(&t)
}

impl VM {
    /// Executes the encoding instruction at the instruction pointer on the
    /// stack (see [`enc_step`]); `float_text` writes floats for `CSV_WRITE`.
    /// The hash value of `HASH` comes from std's hasher, so it is left open.
    /// The host completes the instruction with [`VM::finish_host`].
    pub fn execute_encoding<F: Fn(u64) -> String>(&mut self, float_text: &F) -> (r: Result<(), VMError>)
        requires
            old(self).ip < old(self).instructions@.len(),
            is_encoding_op(opcode_model(old(self).instructions@[old(self).ip as int])),
            shows_floats(*float_text),
        ensures
            exists|h: u64|
                enc_ok(
                    r,
                    values_model(final(self).stack@),
                    enc_step(
                        values_model(old(self).stack@),
                        opcode_model(old(self).instructions@[old(self).ip as int]),
                        shower(*float_text),
                        h,
                    ),
                ),
            *final(self) == (VM { stack: final(self).stack, ..*old(self) }),
    {
        let op = self.instructions[self.ip].copy();
        let mut stack: Vec<Value> = Vec::new();
        std::mem::swap(&mut stack, &mut self.stack);
        let ghost st0 = values_model(old(self).stack@);
        let ghost ft = shower(*float_text);
        let ghost mut hw: u64 = 0;
        let r: Result<(), VMError> = match &op {
            OpCode::CsvParse => match spop_exec(&mut stack, "CSV_PARSE") {
                Ok(Value::Str(s)) => {
                    let v = csv_rows_exec(&s);
                    spush(&mut stack, v);
                    Ok(())
                },
                Ok(other) => Err(mismatch_one("string (CSV)", "CSV_PARSE", &other)),
                Err(e) => Err(e),
            },
            OpCode::CsvWrite => match spop_exec(&mut stack, "CSV_WRITE") {
                Ok(Value::List(rows)) => {
                    let t = csv_text_exec(&rows, float_text);
                    spush(&mut stack, str_value(&t));
                    Ok(())
                },
                Ok(other) => Err(mismatch_one("list of lists (CSV data)", "CSV_WRITE", &other)),
                Err(e) => Err(e),
            },
            OpCode::FormatTime => {
                let b = spop_exec(&mut stack, "FORMAT_TIME");
                match b {
                    Err(e) => Err(e),
                    Ok(b) => match spop_exec(&mut stack, "FORMAT_TIME") {
                        Err(e) => Err(e),
                        Ok(a) => match (&a, &b) {
                            (Value::Int(t), Value::Str(_)) => {
                                let d = i64_text(*t);
                                spush(&mut stack, str_value(&d));
                                Ok(())
                            },
                            _ => Err(mismatch_two("int (timestamp) and string (format)", "FORMAT_TIME", &a, &b)),
                        },
                    },
                }
            },
            OpCode::Hash => match spop_exec(&mut stack, "HASH") {
                Ok(Value::Str(s)) => {
                    let h = hash_str(s.as_str());
                    proof {
                        hw = h;
                    }
                    let t = hex_text_exec(h);
                    spush(&mut stack, str_value(&t));
                    Ok(())
                },
                Ok(Value::Bytes(b)) => {
                    let h = hash_bytes(&b);
                    proof {
                        hw = h;
                    }
                    let t = hex_text_exec(h);
                    spush(&mut stack, str_value(&t));
                    Ok(())
                },
                Ok(other) => Err(mismatch_one("string or bytes", "HASH", &other)),
                Err(e) => Err(e),
            },
            OpCode::Decompress => match spop_exec(&mut stack, "DECOMPRESS") {
                Ok(Value::Bytes(d)) => {
                    let text = lossy_text(d.as_slice());
                    spush(&mut stack, prefixed("decompressed:", text));
                    Ok(())
                },
                Ok(other) => Err(mismatch_one("bytes (compressed data)", "DECOMPRESS", &other)),
                Err(e) => Err(e),
            },
            _ => {
                let b = spop_exec(&mut stack, "DECRYPT");
                match b {
                    Err(e) => Err(e),
                    Ok(b) => match spop_exec(&mut stack, "DECRYPT") {
                        Err(e) => Err(e),
                        Ok(a) => match (&a, &b) {
                            (Value::Bytes(c), Value::Str(_)) => {
                                let text = lossy_text(c.as_slice());
                                spush(&mut stack, prefixed("decrypted:", text));
                                Ok(())
                            },
                            _ => Err(mismatch_two("bytes (encrypted data) and string (key)", "DECRYPT", &a, &b)),
                        },
                    },
                }
            },
        };
        assert(enc_ok(r, values_model(stack@), enc_step(st0, opcode_model(op), ft, hw)));
        self.stack = stack;
        r
    }

    /// Whether the instruction at the instruction pointer is an encoding
    /// one.
    pub fn at_encoding(&self) -> (b: bool)
        ensures
            b == (self.ip < self.instructions@.len() && is_encoding_op(opcode_model(self.instructions@[self.ip as int]))),
    {
        if self.ip >= self.instructions.len() {
            return false;
        }
        match &self.instructions[self.ip] {
            OpCode::CsvParse | OpCode::CsvWrite | OpCode::FormatTime | OpCode::Hash | OpCode::Decompress
            | OpCode::Decrypt => true,
            _ => false,
        }
    }
}

} // verus!
