use vstd::prelude::*;
use crate::bytes::{bytes_eq, copy_bytes};

verus! {

/// The methods of the protocol.
#[derive(Debug, Clone, Copy, PartialEq, Eq, Structural)]
pub enum Method {
    List,
    Get,
    Put,
    Delete,
    Lock,
    Unlock,
}

/// Why a command line was refused.
#[derive(Debug, Clone, Copy, PartialEq, Eq, Structural)]
pub enum ParseError {
    /// The line does not start with a known method.
    EmptyMethod,
    /// A field that the method needs is absent or empty.
    MissingArgument,
    /// The declared body length is not a decimal number that fits in 64 bits.
    BadLength,
}

/// What a command holds, as plain values.
pub struct CommandView {
    pub method: Method,
    pub value: Seq<u8>,
    pub length: u64,
    pub hash: Seq<u8>,
}

/// One parsed command line: its method, the file name it names (empty for
/// LIST), and for PUT the declared body length and content hash.
#[derive(Debug)]
pub struct Command {
    pub method: Method,
    pub value: Vec<u8>,
    pub length: u64,
    pub hash: Vec<u8>,
}

impl View for Command {
    type V = CommandView;

    open spec fn view(&self) -> CommandView {
        CommandView { method: self.method, value: self.value@, length: self.length, hash: self.hash@ }
    }
}

impl Command {
    pub fn new(method: Method, value: Vec<u8>, length: u64, hash: Vec<u8>) -> (r: Command)
        ensures
            r@ == (CommandView { method, value: value@, length, hash: hash@ }),
    {
        Command { method, value, length, hash }
    }
}

pub open spec fn is_digit(b: u8) -> bool {
    48 <= b <= 57
}

pub open spec fn is_decimal(s: Seq<u8>) -> bool {
    s.len() > 0 && forall|i: int| 0 <= i < s.len() ==> is_digit(#[trigger] s[i])
}

/// The number that a string of decimal digits denotes.
pub open spec fn decimal_value(s: Seq<u8>) -> nat
    decreases s.len(),
{
    if s.len() == 0 {
        0
    } else {
        decimal_value(s.drop_last()) * 10 + (s.last() - 48) as nat
    }
}

proof fn lemma_prefix_value_le(s: Seq<u8>, k: int)
    requires
        0 <= k <= s.len(),
        forall|i: int| 0 <= i < s.len() ==> is_digit(#[trigger] s[i]),
    ensures
        decimal_value(s.subrange(0, k)) <= decimal_value(s),
    decreases s.len(),
{
    if k < s.len() {
        let t = s.drop_last();
        assert(t.subrange(0, k) == s.subrange(0, k));
        lemma_prefix_value_le(t, k);
    } else {
        assert(s.subrange(0, k) == s);
    }
}

/// Reads a decimal number; `None` when the text is not all digits, or is
/// empty, or denotes a number above `u64::MAX`.
pub fn parse_decimal(s: &Vec<u8>) -> (r: Option<u64>)
    ensures
        r is Some <==> is_decimal(s@) && decimal_value(s@) <= u64::MAX,
        r matches Some(v) ==> v == decimal_value(s@),
{
    if s.len() == 0 {
        return None;
    }
    let mut i: usize = 0;
    while i < s.len()
        invariant
            i <= s@.len(),
            forall|k: int| 0 <= k < i ==> is_digit(#[trigger] s@[k]),
        decreases s@.len() - i,
    {
        if s[i] < 48 || s[i] > 57 {
            return None;
        }
        i = i + 1;
    }
    let mut v: u64 = 0;
    let mut j: usize = 0;
    while j < s.len()
        invariant
            j <= s@.len(),
            forall|k: int| 0 <= k < s@.len() ==> is_digit(#[trigger] s@[k]),
            v == decimal_value(s@.subrange(0, j as int)),
        decreases s@.len() - j,
    {
        let d: u64 = (s[j] - 48) as u64;
        assert(s@.subrange(0, j + 1).drop_last() == s@.subrange(0, j as int));
        if v > (u64::MAX - d) / 10 {
            proof {
                lemma_prefix_value_le(s@, j + 1);
            }
            return None;
        }
        v = v * 10 + d;
        j = j + 1;
    }
    assert(s@.subrange(0, s@.len() as int) == s@);
    Some(v)
}

pub open spec fn is_space(b: u8) -> bool {
    b == 32 || b == 9 || b == 10 || b == 13
}

/// The words of a line: its maximal runs of bytes other than space, tab,
/// carriage return and newline, in order.
pub open spec fn words(s: Seq<u8>) -> Seq<Seq<u8>>
    decreases s.len(),
{
    if s.len() == 0 {
        Seq::empty()
    } else {
        let w = words(s.drop_last());
        if is_space(s.last()) {
            w
        } else if s.len() > 1 && !is_space(s[s.len() - 2]) {
            w.update(w.len() - 1, w.last().push(s.last()))
        } else {
            w.push(seq![s.last()])
        }
    }
}

proof fn lemma_words_after_word_byte(s: Seq<u8>)
    requires
        s.len() > 0,
        !is_space(s.last()),
    ensures
        words(s).len() > 0,
    decreases s.len(),
{
    if s.len() > 1 && !is_space(s[s.len() - 2]) {
        lemma_words_after_word_byte(s.drop_last());
    }
}

/// Splits a line into its whitespace-separated words.
pub fn split_words(s: &Vec<u8>) -> (r: Vec<Vec<u8>>)
    ensures
        r@.len() == words(s@).len(),
        forall|k: int| 0 <= k < r@.len() ==> #[trigger] r@[k]@ == words(s@)[k],
{
    let mut out: Vec<Vec<u8>> = Vec::new();
    let mut i: usize = 0;
    while i < s.len()
        invariant
            i <= s@.len(),
            out@.len() == words(s@.subrange(0, i as int)).len(),
            forall|k: int| 0 <= k < out@.len() ==> #[trigger] out@[k]@ == words(
                s@.subrange(0, i as int),
            )[k],
        decreases s@.len() - i,
    {
        let ghost before = s@.subrange(0, i as int);
        let ghost after = s@.subrange(0, i + 1);
        assert(after.drop_last() == before);
        let c = s[i];
        let word_byte = !(c == 32 || c == 9 || c == 10 || c == 13);
        if word_byte && i > 0 && !(s[i - 1] == 32 || s[i - 1] == 9 || s[i - 1] == 10 || s[i
            - 1] == 13) {
            proof {
                assert(before.last() == s@[i - 1]);
                lemma_words_after_word_byte(before);
            }
            let mut last = out.pop().unwrap();
            last.push(c);
            out.push(last);
        } else if word_byte {
            out.push(vec![c]);
        }
        i = i + 1;
    }
    assert(s@.subrange(0, s@.len() as int) == s@);
    out
}

pub open spec fn lit_list() -> Seq<u8> {
    seq![76u8, 73, 83, 84]
}

pub open spec fn lit_get() -> Seq<u8> {
    seq![71u8, 69, 84]
}

pub open spec fn lit_put() -> Seq<u8> {
    seq![80u8, 85, 84]
}

pub open spec fn lit_delete() -> Seq<u8> {
    seq![68u8, 69, 76, 69, 84, 69]
}

pub open spec fn lit_lock() -> Seq<u8> {
    seq![76u8, 79, 67, 75]
}

pub open spec fn lit_unlock() -> Seq<u8> {
    seq![85u8, 78, 76, 79, 67, 75]
}

/// The method that a field names, if any.
pub open spec fn method_named(t: Seq<u8>) -> Option<Method> {
    if t == lit_list() {
        Some(Method::List)
    } else if t == lit_get() {
        Some(Method::Get)
    } else if t == lit_put() {
        Some(Method::Put)
    } else if t == lit_delete() {
        Some(Method::Delete)
    } else if t == lit_lock() {
        Some(Method::Lock)
    } else if t == lit_unlock() {
        Some(Method::Unlock)
    } else {
        None
    }
}

fn method_of(t: &Vec<u8>) -> (r: Option<Method>)
    ensures
        r == method_named(t@),
{
    let list: Vec<u8> = vec![76u8, 73, 83, 84];
    let get: Vec<u8> = vec![71u8, 69, 84];
    let put: Vec<u8> = vec![80u8, 85, 84];
    let delete: Vec<u8> = vec![68u8, 69, 76, 69, 84, 69];
    let lock: Vec<u8> = vec![76u8, 79, 67, 75];
    let unlock: Vec<u8> = vec![85u8, 78, 76, 79, 67, 75];
    assert(list@ == lit_list());
    assert(get@ == lit_get());
    assert(put@ == lit_put());
    assert(delete@ == lit_delete());
    assert(lock@ == lit_lock());
    assert(unlock@ == lit_unlock());
    if bytes_eq(t, &list) {
        Some(Method::List)
    } else if bytes_eq(t, &get) {
        Some(Method::Get)
    } else if bytes_eq(t, &put) {
        Some(Method::Put)
    } else if bytes_eq(t, &delete) {
        Some(Method::Delete)
    } else if bytes_eq(t, &lock) {
        Some(Method::Lock)
    } else if bytes_eq(t, &unlock) {
        Some(Method::Unlock)
    } else {
        None
    }
}

/// What a command line means: `<METHOD> [name] [length] [hash]`, words
/// separated by whitespace. LIST takes no word; GET, DELETE, LOCK and UNLOCK
/// take a name; PUT takes a name, a decimal length and a hash. Words beyond
/// those are ignored.
pub open spec fn parse_spec(line: Seq<u8>) -> Result<CommandView, ParseError> {
    let f = words(line);
    match if f.len() == 0 { None } else { method_named(f[0]) } {
        None => Err(ParseError::EmptyMethod),
        Some(Method::List) => Ok(
            CommandView { method: Method::List, value: Seq::empty(), length: 0, hash: Seq::empty() },
        ),
        Some(Method::Put) => if f.len() < 4 {
            Err(ParseError::MissingArgument)
        } else if !(is_decimal(f[2]) && decimal_value(f[2]) <= u64::MAX) {
            Err(ParseError::BadLength)
        } else {
            Ok(
                CommandView {
                    method: Method::Put,
                    value: f[1],
                    length: decimal_value(f[2]) as u64,
                    hash: f[3],
                },
            )
        },
        Some(m) => if f.len() < 2 {
            Err(ParseError::MissingArgument)
        } else {
            Ok(CommandView { method: m, value: f[1], length: 0, hash: Seq::empty() })
        },
    }
}

/// Parses one command line (with or without its final newline).
pub fn parse_command(line: &Vec<u8>) -> (r: Result<Command, ParseError>)
    ensures
        match r {
            Ok(c) => parse_spec(line@) == Ok::<CommandView, ParseError>(c@),
            Err(e) => parse_spec(line@) == Err::<CommandView, ParseError>(e),
        },
{
    let f = split_words(line);
    let m = if f.len() == 0 {
        None
    } else {
        method_of(&f[0])
    };
    match m {
        None => Err(ParseError::EmptyMethod),
        Some(Method::List) => Ok(Command::new(Method::List, Vec::new(), 0, Vec::new())),
        Some(Method::Put) => {
            if f.len() < 4 {
                Err(ParseError::MissingArgument)
            } else {
                match parse_decimal(&f[2]) {
                    None => Err(ParseError::BadLength),
                    Some(n) => Ok(
                        Command::new(Method::Put, copy_bytes(&f[1]), n, copy_bytes(&f[3])),
                    ),
                }
            }
        },
        Some(m) => {
            if f.len() < 2 {
                Err(ParseError::MissingArgument)
            } else {
                Ok(Command::new(m, copy_bytes(&f[1]), 0, Vec::new()))
            }
        },
    }
}

} // verus!
