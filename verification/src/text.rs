//! Character-level text utilities shared by the assembler, the Lisp front end
//! and the command-line parser, each stated against the behaviour of the
//! corresponding `str` operation.
use vstd::prelude::*;

verus! {

/// Unicode `White_Space`, as used by `str::trim` and `char::is_whitespace`.
pub open spec fn is_ws(c: char) -> bool {
    c == '\t' || c == '\n' || c == '\u{0B}' || c == '\u{0C}' || c == '\r' || c == ' ' || c == '\u{85}'
        || c == '\u{A0}' || c == '\u{1680}' || ('\u{2000}' <= c && c <= '\u{200A}') || c == '\u{2028}'
        || c == '\u{2029}' || c == '\u{202F}' || c == '\u{205F}' || c == '\u{3000}'
}

/// Whether `c` is a whitespace character.
pub fn is_whitespace(c: char) -> (b: bool)
    ensures
        b == is_ws(c),
{
    c == '\t' || c == '\n' || c == '\u{0B}' || c == '\u{0C}' || c == '\r' || c == ' ' || c == '\u{85}'
        || c == '\u{A0}' || c == '\u{1680}' || ('\u{2000}' <= c && c <= '\u{200A}') || c == '\u{2028}'
        || c == '\u{2029}' || c == '\u{202F}' || c == '\u{205F}' || c == '\u{3000}'
}

/// `s` without its leading whitespace.
pub open spec fn trim_start(s: Seq<char>) -> Seq<char>
    decreases s.len(),
{
    if s.len() > 0 && is_ws(s[0]) {
        trim_start(s.drop_first())
    } else {
        s
    }
}

/// `s` without its trailing whitespace.
pub open spec fn trim_end(s: Seq<char>) -> Seq<char>
    decreases s.len(),
{
    if s.len() > 0 && is_ws(s.last()) {
        trim_end(s.drop_last())
    } else {
        s
    }
}

/// `s` without leading and trailing whitespace (`str::trim`).
pub open spec fn trim(s: Seq<char>) -> Seq<char> {
    trim_end(trim_start(s))
}

proof fn lemma_trim_start_skip(s: Seq<char>, i: int)
    requires
        0 <= i <= s.len(),
        forall|j: int| 0 <= j < i ==> is_ws(#[trigger] s[j]),
        i == s.len() || !is_ws(s[i]),
    ensures
        trim_start(s) == s.skip(i),
    decreases i,
{
    if i > 0 {
        assert forall|j: int| 0 <= j < i - 1 implies is_ws(#[trigger] s.drop_first()[j]) by {
            assert(s.drop_first()[j] == s[j + 1]);
        }
        if i - 1 < s.drop_first().len() {
            assert(s.drop_first()[i - 1] == s[i]);
        }
        lemma_trim_start_skip(s.drop_first(), i - 1);
        assert(s.drop_first().skip(i - 1) =~= s.skip(i));
    } else {
        assert(s.skip(0) =~= s);
    }
}

proof fn lemma_trim_end_take(s: Seq<char>, k: int)
    requires
        0 <= k <= s.len(),
        forall|j: int| k <= j < s.len() ==> is_ws(#[trigger] s[j]),
        k == 0 || !is_ws(s[k - 1]),
    ensures
        trim_end(s) == s.take(k),
    decreases s.len() - k,
{
    if k < s.len() {
        assert(s.drop_last().len() == s.len() - 1);
        assert forall|j: int| k <= j < s.drop_last().len() implies is_ws(#[trigger] s.drop_last()[j]) by {
            assert(s.drop_last()[j] == s[j]);
        }
        if k > 0 {
            assert(s.drop_last()[k - 1] == s[k - 1]);
        }
        lemma_trim_end_take(s.drop_last(), k);
        assert(s.drop_last().take(k) =~= s.take(k));
    } else {
        assert(s.take(k) =~= s);
    }
}

/// The characters of a slice between `lo` and `hi`.
pub fn sub_chars(s: &[char], lo: usize, hi: usize) -> (r: Vec<char>)
    requires
        lo <= hi <= s@.len(),
    ensures
        r@ == s@.subrange(lo as int, hi as int),
{
    let mut r: Vec<char> = Vec::new();
    let mut i = lo;
    while i < hi
        invariant
            lo <= i <= hi,
            hi <= s@.len(),
            r@ == s@.subrange(lo as int, i as int),
        decreases hi - i,
    {
        r.push(s[i]);
        i = i + 1;
    }
    r
}

/// `str::trim` on a character slice.
pub fn trim_chars(s: &[char]) -> (r: Vec<char>)
    ensures
        r@ == trim(s@),
{
    let mut i: usize = 0;
    while i < s.len() && is_whitespace(s[i])
        invariant
            i <= s@.len(),
            forall|j: int| 0 <= j < i ==> is_ws(#[trigger] s@[j]),
        decreases s.len() - i,
    {
        i = i + 1;
    }
    proof {
        lemma_trim_start_skip(s@, i as int);
    }
    let mut k: usize = s.len();
    while k > i && is_whitespace(s[k - 1])
        invariant
            i <= k <= s@.len(),
            forall|j: int| k <= j < s@.len() ==> is_ws(#[trigger] s@[j]),
        decreases k,
    {
        k = k - 1;
    }
    proof {
        let t = s@.skip(i as int);
        assert forall|j: int| k - i <= j < t.len() implies is_ws(#[trigger] t[j]) by {
            assert(t[j] == s@[j + i]);
        }
        if k > i {
            assert(t[k - i - 1] == s@[k - 1]);
        }
        lemma_trim_end_take(t, k - i);
        assert(t.take(k - i) =~= s@.subrange(i as int, k as int));
    }
    sub_chars(s, i, k)
}

/// The part of `s` before the first occurrence of `c` (all of `s` if `c`
/// does not occur): the first item of `str::split(c)`.
pub open spec fn before_char(s: Seq<char>, c: char) -> Seq<char>
    decreases s.len(),
{
    if s.len() == 0 {
        s
    } else if s[0] == c {
        Seq::empty()
    } else {
        seq![s[0]] + before_char(s.drop_first(), c)
    }
}

pub(crate) proof fn lemma_before_char(s: Seq<char>, c: char, i: int)
    requires
        0 <= i <= s.len(),
        forall|j: int| 0 <= j < i ==> #[trigger] s[j] != c,
        i == s.len() || s[i] == c,
    ensures
        before_char(s, c) == s.take(i),
    decreases i,
{
    if i > 0 {
        assert forall|j: int| 0 <= j < i - 1 implies #[trigger] s.drop_first()[j] != c by {
            assert(s.drop_first()[j] == s[j + 1]);
        }
        if i - 1 < s.drop_first().len() {
            assert(s.drop_first()[i - 1] == s[i]);
        }
        lemma_before_char(s.drop_first(), c, i - 1);
        assert(seq![s[0]] + s.drop_first().take(i - 1) =~= s.take(i));
    } else {
        assert(s.take(0) =~= Seq::<char>::empty());
    }
}

/// Index of the first occurrence of `c` in `s`, or the length of `s`.
pub fn find_char(s: &[char], c: char) -> (i: usize)
    ensures
        i <= s@.len(),
        before_char(s@, c) == s@.take(i as int),
        forall|j: int| 0 <= j < i ==> #[trigger] s@[j] != c,
        i < s@.len() ==> s@[i as int] == c,
{
    let mut i: usize = 0;
    while i < s.len() && s[i] != c
        invariant
            i <= s@.len(),
            forall|j: int| 0 <= j < i ==> #[trigger] s@[j] != c,
        decreases s.len() - i,
    {
        i = i + 1;
    }
    proof {
        lemma_before_char(s@, c, i as int);
    }
    i
}

/// The state of splitting text into lines: the finished lines and the
/// characters of the line being read.
pub struct LineSplit {
    pub done: Seq<Seq<char>>,
    pub current: Seq<char>,
}

/// A finished line: its `'\n'` is dropped, and a `'\r'` before it too.
pub open spec fn end_line(line: Seq<char>) -> Seq<char> {
    if line.len() > 0 && line.last() == '\r' {
        line.drop_last()
    } else {
        line
    }
}

/// The line-splitting state after reading `s`.
pub open spec fn split_state(s: Seq<char>) -> LineSplit
    decreases s.len(),
{
    if s.len() == 0 {
        LineSplit { done: Seq::empty(), current: Seq::empty() }
    } else {
        let st = split_state(s.drop_last());
        if s.last() == '\n' {
            LineSplit { done: st.done.push(end_line(st.current)), current: Seq::empty() }
        } else {
            LineSplit { done: st.done, current: st.current.push(s.last()) }
        }
    }
}

/// The lines of `s` (`str::lines`): split at `'\n'`, each line without its
/// line ending (`"\n"` or `"\r\n"`); a final line ending adds no empty line.
pub open spec fn lines(s: Seq<char>) -> Seq<Seq<char>> {
    let st = split_state(s);
    if st.current.len() > 0 {
        st.done.push(st.current)
    } else {
        st.done
    }
}

/// The models of a sequence of character vectors.
pub open spec fn char_seqs(v: Seq<Vec<char>>) -> Seq<Seq<char>> {
    Seq::new(v.len(), |i: int| v[i]@)
}

/// The models of a sequence of strings.
pub open spec fn string_seqs(v: Seq<String>) -> Seq<Seq<char>> {
    Seq::new(v.len(), |i: int| v[i]@)
}

fn end_line_exec(line: Vec<char>) -> (r: Vec<char>)
    ensures
        r@ == end_line(line@),
{
    let mut line = line;
    if line.len() > 0 && line[line.len() - 1] == '\r' {
        line.pop();
    }
    line
}

/// `str::lines` on a character slice.
pub fn split_lines(s: &[char]) -> (r: Vec<Vec<char>>)
    ensures
        char_seqs(r@) == lines(s@),
{
    let mut done: Vec<Vec<char>> = Vec::new();
    let mut current: Vec<char> = Vec::new();
    let mut i: usize = 0;
    while i < s.len()
        invariant
            i <= s@.len(),
            char_seqs(done@) == split_state(s@.take(i as int)).done,
            current@ == split_state(s@.take(i as int)).current,
        decreases s.len() - i,
    {
        assert(s@.take(i + 1).drop_last() =~= s@.take(i as int));
        let c = s[i];
        if c == '\n' {
            let line = end_line_exec(current);
            done.push(line);
            current = Vec::new();
            assert(char_seqs(done@) =~= split_state(s@.take(i + 1)).done);
        } else {
            current.push(c);
        }
        i = i + 1;
    }
    assert(s@.take(s@.len() as int) =~= s@);
    if current.len() > 0 {
        done.push(current);
        assert(char_seqs(done@) =~= lines(s@));
    }
    done
}

/// The characters of a string slice.
pub(crate) fn chars_of(s: &str) -> (r: Vec<char>)
    ensures
        r@ == s@,
{
    broadcast use vstd::string::axiom_spec_iter;
    let mut r: Vec<char> = Vec::new();
    for c in it: s.chars()
        invariant
            it.seq() == s@,
            r@ == it.seq().take(it.index() as int),
    {
        r.push(c);
    }
    r
}

/// `<String as FromIterator<&char>>::from_iter`: the string made of the
/// given characters, in order.
#[verifier::external_body]
pub(crate) fn string_of(v: &[char]) -> (r: String)
    ensures
        r@ == v@,
{
    String::from_iter(v.iter())
}

/// The decimal digits of a natural number.
pub open spec fn nat_text(n: nat) -> Seq<char>
    decreases n,
{
    if n < 10 {
        seq![digit_char(n)]
    } else {
        nat_text(n / 10).push(digit_char(n % 10))
    }
}

/// The character of a decimal digit.
pub open spec fn digit_char(d: nat) -> char {
    if d == 0 {
        '0'
    } else if d == 1 {
        '1'
    } else if d == 2 {
        '2'
    } else if d == 3 {
        '3'
    } else if d == 4 {
        '4'
    } else if d == 5 {
        '5'
    } else if d == 6 {
        '6'
    } else if d == 7 {
        '7'
    } else if d == 8 {
        '8'
    } else {
        '9'
    }
}

/// The decimal text of an integer, as `Display` writes it.
pub open spec fn int_text(i: int) -> Seq<char> {
    if i < 0 {
        seq!['-'] + nat_text((-i) as nat)
    } else {
        nat_text(i as nat)
    }
}

fn digit_char_exec(d: u64) -> (c: char)
    requires
        d < 10,
    ensures
        c == digit_char(d as nat),
{
    if d == 0 {
        '0'
    } else if d == 1 {
        '1'
    } else if d == 2 {
        '2'
    } else if d == 3 {
        '3'
    } else if d == 4 {
        '4'
    } else if d == 5 {
        '5'
    } else if d == 6 {
        '6'
    } else if d == 7 {
        '7'
    } else if d == 8 {
        '8'
    } else {
        '9'
    }
}

/// The decimal text of a `u64`.
pub fn u64_text(n: u64) -> (r: Vec<char>)
    ensures
        r@ == nat_text(n as nat),
    decreases n,
{
    if n < 10 {
        let mut r = Vec::new();
        r.push(digit_char_exec(n));
        r
    } else {
        let mut r = u64_text(n / 10);
        r.push(digit_char_exec(n % 10));
        r
    }
}

/// The decimal text of an `i64`.
pub fn i64_text(n: i64) -> (r: Vec<char>)
    ensures
        r@ == int_text(n as int),
{
    if n < 0 {
        let m: u64 = if n == i64::MIN {
            9223372036854775808u64
        } else {
            (-n) as u64
        };
        let digits = u64_text(m);
        let mut r = Vec::new();
        r.push('-');
        let mut i: usize = 0;
        while i < digits.len()
            invariant
                i <= digits@.len(),
                r@ == seq!['-'] + digits@.take(i as int),
            decreases digits.len() - i,
        {
            r.push(digits[i]);
            i = i + 1;
            assert(r@ =~= seq!['-'] + digits@.take(i as int));
        }
        assert(digits@.take(digits@.len() as int) =~= digits@);
        r
    } else {
        u64_text(n as u64)
    }
}

/// Appends the characters of `b` to `a`.
pub fn append_chars(a: &mut Vec<char>, b: &[char])
    ensures
        final(a)@ == old(a)@ + b@,
{
    let mut i: usize = 0;
    let ghost a0 = a@;
    while i < b.len()
        invariant
            i <= b@.len(),
            a@ == a0 + b@.take(i as int),
        decreases b.len() - i,
    {
        a.push(b[i]);
        i = i + 1;
        assert(a@ =~= a0 + b@.take(i as int));
    }
    assert(b@.take(b@.len() as int) =~= b@);
}

/// Whether two character slices are equal.
pub fn chars_eq(a: &[char], b: &[char]) -> (r: bool)
    ensures
        r == (a@ == b@),
{
    if a.len() != b.len() {
        return false;
    }
    let mut i: usize = 0;
    while i < a.len()
        invariant
            i <= a@.len(),
            a@.len() == b@.len(),
            forall|j: int| 0 <= j < i ==> a@[j] == b@[j],
        decreases a.len() - i,
    {
        if a[i] != b[i] {
            return false;
        }
        i = i + 1;
    }
    assert(a@ =~= b@);
    true
}


/// Whether `c` is an ASCII decimal digit.
pub open spec fn is_digit(c: char) -> bool {
    '0' <= c && c <= '9'
}

/// The value of a sequence of decimal digits.
pub open spec fn digits_value(s: Seq<char>) -> nat
    decreases s.len(),
{
    if s.len() == 0 {
        0
    } else {
        digits_value(s.drop_last()) * 10 + ((s.last() as nat) - ('0' as nat)) as nat
    }
}

/// Whether `s` is a non-empty sequence of decimal digits.
pub open spec fn is_numeral(s: Seq<char>) -> bool {
    s.len() > 0 && forall|i: int| 0 <= i < s.len() ==> is_digit(#[trigger] s[i])
}

/// The integer that `s` denotes in the syntax of Rust's integer `from_str`:
/// an optional `+` or `-` followed by at least one decimal digit.
pub open spec fn parse_int(s: Seq<char>) -> Option<int> {
    if s.len() > 0 && s[0] == '-' {
        if is_numeral(s.drop_first()) {
            Some(-(digits_value(s.drop_first()) as int))
        } else {
            None
        }
    } else if s.len() > 0 && s[0] == '+' {
        if is_numeral(s.drop_first()) {
            Some(digits_value(s.drop_first()) as int)
        } else {
            None
        }
    } else if is_numeral(s) {
        Some(digits_value(s) as int)
    } else {
        None
    }
}

/// `str::parse::<i64>` as a specification.
pub open spec fn parse_i64(s: Seq<char>) -> Option<i64> {
    match parse_int(s) {
        Some(v) => if i64::MIN <= v <= i64::MAX {
            Some(v as i64)
        } else {
            None
        },
        None => None,
    }
}

/// `str::parse::<u64>` as a specification: no minus sign is accepted.
pub open spec fn parse_u64(s: Seq<char>) -> Option<u64> {
    match parse_int(s) {
        Some(v) => if !(s.len() > 0 && s[0] == '-') && 0 <= v <= u64::MAX {
            Some(v as u64)
        } else {
            None
        },
        None => None,
    }
}

/// `str::parse::<usize>` as a specification.
pub open spec fn parse_usize(s: Seq<char>) -> Option<usize> {
    match parse_int(s) {
        Some(v) => if !(s.len() > 0 && s[0] == '-') && 0 <= v <= usize::MAX {
            Some(v as usize)
        } else {
            None
        },
        None => None,
    }
}

/// `str::parse::<u8>` as a specification.
pub open spec fn parse_u8(s: Seq<char>) -> Option<u8> {
    match parse_u64(s) {
        Some(v) => if v <= 255 {
            Some(v as u8)
        } else {
            None
        },
        None => None,
    }
}

proof fn lemma_digits_value_prefix(s: Seq<char>, k: int)
    requires
        0 <= k <= s.len(),
        forall|i: int| 0 <= i < s.len() ==> is_digit(#[trigger] s[i]),
    ensures
        digits_value(s.take(k)) <= digits_value(s),
    decreases s.len() - k,
{
    if k < s.len() {
        assert(s.take(k + 1).drop_last() =~= s.take(k));
        lemma_digits_value_prefix(s, k + 1);
    } else {
        assert(s.take(k) =~= s);
    }
}

/// The value of the digits of `s` if it is a numeral whose value fits in a
/// `u64`.
fn numeral_value(s: &[char], start: usize) -> (r: Option<u64>)
    requires
        start <= s@.len(),
    ensures
        match r {
            Some(v) => is_numeral(s@.skip(start as int)) && v as nat == digits_value(s@.skip(start as int)),
            None => !is_numeral(s@.skip(start as int)) || digits_value(s@.skip(start as int)) > u64::MAX,
        },
{
    let ghost t = s@.skip(start as int);
    if start >= s.len() {
        return None;
    }
    let mut i = start;
    let mut v: u64 = 0;
    while i < s.len()
        invariant
            start <= i <= s@.len(),
            t == s@.skip(start as int),
            forall|j: int| 0 <= j < i - start ==> is_digit(#[trigger] t[j]),
            v as nat == digits_value(t.take(i - start)),
        decreases s.len() - i,
    {
        let c = s[i];
        assert(t[i - start] == c);
        if !('0' <= c && c <= '9') {
            return None;
        }
        assert(t.take(i - start + 1).drop_last() =~= t.take(i - start));
        let d = (c as u64) - ('0' as u64);
        if v > (u64::MAX - d) / 10 {
            proof {
                assert forall|j: int| 0 <= j < t.len() implies is_digit(#[trigger] t[j]) || !is_numeral(t) by {}
                if is_numeral(t) {
                    lemma_digits_value_prefix(t, i - start + 1);
                }
                assert(v * 10 + d > u64::MAX) by (nonlinear_arith)
                    requires v > (u64::MAX - d) / 10, d <= 9;
            }
            return None;
        }
        v = v * 10 + d;
        i = i + 1;
    }
    assert(t.take(i - start) =~= t);
    Some(v)
}

/// `str::parse::<i64>` on a character slice.
pub fn parse_i64_chars(s: &[char]) -> (r: Option<i64>)
    ensures
        r == parse_i64(s@),
{
    if s.len() > 0 && (s[0] == '-' || s[0] == '+') {
        assert(s@.skip(1) =~= s@.drop_first());
        match numeral_value(s, 1) {
            Some(v) => {
                if s[0] == '-' {
                    if v <= 9223372036854775808u64 {
                        if v == 9223372036854775808u64 {
                            Some(i64::MIN)
                        } else {
                            Some(-(v as i64))
                        }
                    } else {
                        None
                    }
                } else {
                    if v <= 9223372036854775807u64 {
                        Some(v as i64)
                    } else {
                        None
                    }
                }
            },
            None => None,
        }
    } else {
        assert(s@.skip(0) =~= s@);
        match numeral_value(s, 0) {
            Some(v) => {
                if v <= 9223372036854775807u64 {
                    Some(v as i64)
                } else {
                    None
                }
            },
            None => None,
        }
    }
}

/// `str::parse::<u64>` on a character slice.
pub fn parse_u64_chars(s: &[char]) -> (r: Option<u64>)
    ensures
        r == parse_u64(s@),
{
    if s.len() > 0 && s[0] == '-' {
        None
    } else if s.len() > 0 && s[0] == '+' {
        assert(s@.skip(1) =~= s@.drop_first());
        numeral_value(s, 1)
    } else {
        assert(s@.skip(0) =~= s@);
        numeral_value(s, 0)
    }
}

/// `str::parse::<u8>` on a character slice.
pub fn parse_u8_chars(s: &[char]) -> (r: Option<u8>)
    ensures
        r == parse_u8(s@),
{
    match parse_u64_chars(s) {
        Some(v) => {
            if v <= 255 {
                Some(v as u8)
            } else {
                None
            }
        },
        None => None,
    }
}

/// `str::parse::<usize>` on a character slice.
pub fn parse_usize_chars(s: &[char]) -> (r: Option<usize>)
    ensures
        r == parse_usize(s@),
{
    match parse_u64_chars(s) {
        Some(v) => {
            if v as u128 <= usize::MAX as u128 {
                Some(v as usize)
            } else {
                None
            }
        },
        None => None,
    }
}


/// The state of splitting text into whitespace-separated words.
pub struct WordSplit {
    pub done: Seq<Seq<char>>,
    pub current: Seq<char>,
}

/// The word-splitting state after reading `s`.
pub open spec fn words_state(s: Seq<char>) -> WordSplit
    decreases s.len(),
{
    if s.len() == 0 {
        WordSplit { done: Seq::empty(), current: Seq::empty() }
    } else {
        let st = words_state(s.drop_last());
        if is_ws(s.last()) {
            if st.current.len() > 0 {
                WordSplit { done: st.done.push(st.current), current: Seq::empty() }
            } else {
                st
            }
        } else {
            WordSplit { done: st.done, current: st.current.push(s.last()) }
        }
    }
}

/// The words of `s` (`str::split_whitespace`).
pub open spec fn words(s: Seq<char>) -> Seq<Seq<char>> {
    let st = words_state(s);
    if st.current.len() > 0 {
        st.done.push(st.current)
    } else {
        st.done
    }
}

/// `str::split_whitespace` on a character slice.
pub fn split_words(s: &[char]) -> (r: Vec<Vec<char>>)
    ensures
        char_seqs(r@) == words(s@),
{
    let mut done: Vec<Vec<char>> = Vec::new();
    let mut current: Vec<char> = Vec::new();
    let mut i: usize = 0;
    assert(char_seqs(done@) =~= Seq::<Seq<char>>::empty());
    assert(current@ =~= Seq::<char>::empty());
    assert(s@.take(0) =~= Seq::<char>::empty());
    while i < s.len()
        invariant
            i <= s@.len(),
            char_seqs(done@) == words_state(s@.take(i as int)).done,
            current@ == words_state(s@.take(i as int)).current,
        decreases s.len() - i,
    {
        assert(s@.take(i + 1).drop_last() =~= s@.take(i as int));
        let c = s[i];
        if is_whitespace(c) {
            if current.len() > 0 {
                let ghost before = char_seqs(done@);
                done.push(current);
                assert(char_seqs(done@) =~= before.push(words_state(s@.take(i as int)).current));
                current = Vec::new();
                assert(current@ =~= Seq::<char>::empty());
            }
        } else {
            current.push(c);
        }
        i = i + 1;
    }
    assert(s@.take(s@.len() as int) =~= s@);
    if current.len() > 0 {
        let ghost before = char_seqs(done@);
        done.push(current);
        assert(char_seqs(done@) =~= before.push(words_state(s@).current));
    }
    done
}

/// Whether `s` starts with `p`.
pub open spec fn starts_with(s: Seq<char>, p: Seq<char>) -> bool {
    s.len() >= p.len() && s.take(p.len() as int) == p
}

/// Whether a character slice starts with the characters of `p`.
pub fn chars_start_with(s: &[char], p: &str) -> (b: bool)
    ensures
        b == starts_with(s@, p@),
{
    let pc = chars_of(p);
    if s.len() < pc.len() {
        return false;
    }
    let head = sub_chars(s, 0, pc.len());
    assert(head@ =~= s@.take(pc@.len() as int));
    chars_eq(head.as_slice(), pc.as_slice())
}


/// `s` without the leading occurrences of `c`.
pub open spec fn trim_char_start(s: Seq<char>, c: char) -> Seq<char>
    decreases s.len(),
{
    if s.len() > 0 && s[0] == c {
        trim_char_start(s.drop_first(), c)
    } else {
        s
    }
}

/// `s` without the trailing occurrences of `c`.
pub open spec fn trim_char_end(s: Seq<char>, c: char) -> Seq<char>
    decreases s.len(),
{
    if s.len() > 0 && s.last() == c {
        trim_char_end(s.drop_last(), c)
    } else {
        s
    }
}

/// `str::trim_matches(c)`: `s` without leading and trailing `c`.
pub open spec fn trim_char(s: Seq<char>, c: char) -> Seq<char> {
    trim_char_end(trim_char_start(s, c), c)
}

/// `str::trim_matches(c)` on a character slice.
pub fn trim_char_exec(s: &[char], c: char) -> (r: Vec<char>)
    ensures
        r@ == trim_char(s@, c),
    decreases s.len(),
{
    let mut i: usize = 0;
    let ghost mut t = s@;
    while i < s.len() && s[i] == c
        invariant
            i <= s@.len(),
            t == s@.skip(i as int),
            trim_char_start(t, c) == trim_char_start(s@, c),
        decreases s.len() - i,
    {
        proof {
            assert(t.drop_first() =~= s@.skip(i + 1));
            t = t.drop_first();
        }
        i = i + 1;
    }
    let mut k: usize = s.len();
    let ghost mut u = s@.skip(i as int);
    proof {
        assert(trim_char_start(s@, c) == u);
    }
    while k > i && s[k - 1] == c
        invariant
            i <= k <= s@.len(),
            u == s@.subrange(i as int, k as int),
            trim_char_end(u, c) == trim_char(s@, c),
        decreases k,
    {
        proof {
            assert(u.drop_last() =~= s@.subrange(i as int, k - 1));
            u = u.drop_last();
        }
        k = k - 1;
    }
    proof {
        assert(trim_char_end(u, c) == u);
    }
    sub_chars(s, i, k)
}


/// Whether two strings hold the same characters.
pub fn str_eq(a: &str, b: &str) -> (r: bool)
    ensures
        r == (a@ == b@),
{
    let x = chars_of(a);
    let y = chars_of(b);
    chars_eq(x.as_slice(), y.as_slice())
}

} // verus!
