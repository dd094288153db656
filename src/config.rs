//! The five positional configuration fields and their validation.
use vstd::prelude::*;
use vstd::string::StrSliceExecFns;
use vstd::string::StringExecFns;

verus! {

/// Which synthetic workload drives the requests and responses.
#[derive(Clone, Copy, Debug, PartialEq, Eq, Structural)]
pub enum Workload {
    CarSales,
    CatRank,
    Eval,
}

/// How a request and its response travel between the two parties.
#[derive(Clone, Copy, Debug, PartialEq, Eq, Structural)]
pub enum Mode {
    /// Hand the built request to the workload directly.
    Object,
    /// Encode and decode both messages within one process.
    Bytes,
    /// Send requests on standard output, read responses on standard input.
    Client,
    /// Read requests on standard input, send responses on standard output.
    Server,
    /// Run a server against a child process running as client.
    Pipe,
}

/// Whether message buffers are allocated afresh or drawn from a pool.
#[derive(Clone, Copy, Debug, PartialEq, Eq, Structural)]
pub enum Reuse {
    NoReuse,
    Reuse,
}

/// The wire framing of encoded messages.
#[derive(Clone, Copy, Debug, PartialEq, Eq, Structural)]
pub enum Compression {
    /// The direct framing.
    Uncompressed,
    /// The framing that elides runs of zero bytes.
    Packed,
}

/// A validated configuration.
#[derive(Clone, Copy, Debug, PartialEq, Eq, Structural)]
pub struct Config {
    pub workload: Workload,
    pub mode: Mode,
    pub reuse: Reuse,
    pub compression: Compression,
    pub iterations: u64,
}

/// Why a command line was refused. Each variant names the offending field.
#[derive(Clone, Copy, Debug, PartialEq, Eq, Structural)]
pub enum ConfigError {
    /// Not exactly five fields; carries the number that was given.
    FieldCount(usize),
    UnknownWorkload,
    UnknownMode,
    UnknownReuse,
    UnknownCompression,
    BadIterationCount,
}

/// The number of positional configuration fields.
pub const FIELD_COUNT: usize = 5;

/// Index of the transport-mode field among the five.
pub const MODE_FIELD: usize = 1;

pub open spec fn workload_of(t: Seq<char>) -> Option<Workload> {
    if t == "carsales"@ {
        Some(Workload::CarSales)
    } else if t == "catrank"@ {
        Some(Workload::CatRank)
    } else if t == "eval"@ {
        Some(Workload::Eval)
    } else {
        None
    }
}

pub open spec fn mode_of(t: Seq<char>) -> Option<Mode> {
    if t == "object"@ {
        Some(Mode::Object)
    } else if t == "bytes"@ {
        Some(Mode::Bytes)
    } else if t == "client"@ {
        Some(Mode::Client)
    } else if t == "server"@ {
        Some(Mode::Server)
    } else if t == "pipe"@ {
        Some(Mode::Pipe)
    } else {
        None
    }
}

pub open spec fn reuse_of(t: Seq<char>) -> Option<Reuse> {
    if t == "no-reuse"@ {
        Some(Reuse::NoReuse)
    } else if t == "reuse"@ {
        Some(Reuse::Reuse)
    } else {
        None
    }
}

pub open spec fn compression_of(t: Seq<char>) -> Option<Compression> {
    if t == "none"@ {
        Some(Compression::Uncompressed)
    } else if t == "packed"@ {
        Some(Compression::Packed)
    } else {
        None
    }
}

pub open spec fn is_digit(c: char) -> bool {
    '0' <= c && c <= '9'
}

pub open spec fn all_digits(t: Seq<char>) -> bool {
    forall|i: int| 0 <= i < t.len() ==> is_digit(#[trigger] t[i])
}

/// The number that a string of decimal digits denotes.
pub open spec fn decimal_value(t: Seq<char>) -> nat
    decreases t.len(),
{
    if t.len() == 0 {
        0
    } else {
        decimal_value(t.drop_last()) * 10 + (t.last() as nat - '0' as nat) as nat
    }
}

/// The digits of an iteration count: one optional leading `+` is skipped.
pub open spec fn count_digits(t: Seq<char>) -> Seq<char> {
    if t.len() > 0 && t[0] == '+' {
        t.drop_first()
    } else {
        t
    }
}

/// An iteration count: a non-empty run of decimal digits, after an optional
/// `+`, whose value fits in 64 bits.
pub open spec fn iterations_of(t: Seq<char>) -> Option<u64> {
    let d = count_digits(t);
    if d.len() > 0 && all_digits(d) && decimal_value(d) <= u64::MAX {
        Some(decimal_value(d) as u64)
    } else {
        None
    }
}

/// The outcome of validating five fields, checked in the order: iteration
/// count, compression, reuse, workload, mode.
pub open spec fn config_of(f: Seq<Seq<char>>) -> Result<Config, ConfigError> {
    if f.len() != 5 {
        Err(ConfigError::FieldCount(f.len() as usize))
    } else if iterations_of(f[4]).is_none() {
        Err(ConfigError::BadIterationCount)
    } else if compression_of(f[3]).is_none() {
        Err(ConfigError::UnknownCompression)
    } else if reuse_of(f[2]).is_none() {
        Err(ConfigError::UnknownReuse)
    } else if workload_of(f[0]).is_none() {
        Err(ConfigError::UnknownWorkload)
    } else if mode_of(f[1]).is_none() {
        Err(ConfigError::UnknownMode)
    } else {
        Ok(
            Config {
                workload: workload_of(f[0]).unwrap(),
                mode: mode_of(f[1]).unwrap(),
                reuse: reuse_of(f[2]).unwrap(),
                compression: compression_of(f[3]).unwrap(),
                iterations: iterations_of(f[4]).unwrap(),
            },
        )
    }
}

/// The texts of a list of strings.
pub open spec fn texts(v: Seq<String>) -> Seq<Seq<char>> {
    v.map_values(|s: String| s@)
}

/// Whether two strings hold the same characters.
pub fn same_text(a: &str, b: &str) -> (r: bool)
    ensures
        r == (a@ == b@),
{
    let n = a.unicode_len();
    if n != b.unicode_len() {
        return false;
    }
    let mut i: usize = 0;
    while i < n
        invariant
            n == a@.len(),
            n == b@.len(),
            i <= n,
            a@.subrange(0, i as int) == b@.subrange(0, i as int),
        decreases n - i,
    {
        if a.get_char(i) != b.get_char(i) {
            return false;
        }
        assert(a@.subrange(0, i + 1) == a@.subrange(0, i as int).push(a@[i as int]));
        assert(b@.subrange(0, i + 1) == b@.subrange(0, i as int).push(b@[i as int]));
        i = i + 1;
    }
    assert(a@ == a@.subrange(0, n as int));
    assert(b@ == b@.subrange(0, n as int));
    true
}

pub fn parse_workload(s: &str) -> (r: Option<Workload>)
    ensures
        r == workload_of(s@),
{
    if same_text(s, "carsales") {
        Some(Workload::CarSales)
    } else if same_text(s, "catrank") {
        Some(Workload::CatRank)
    } else if same_text(s, "eval") {
        Some(Workload::Eval)
    } else {
        None
    }
}

pub fn parse_mode(s: &str) -> (r: Option<Mode>)
    ensures
        r == mode_of(s@),
{
    if same_text(s, "object") {
        Some(Mode::Object)
    } else if same_text(s, "bytes") {
        Some(Mode::Bytes)
    } else if same_text(s, "client") {
        Some(Mode::Client)
    } else if same_text(s, "server") {
        Some(Mode::Server)
    } else if same_text(s, "pipe") {
        Some(Mode::Pipe)
    } else {
        None
    }
}

pub fn parse_reuse(s: &str) -> (r: Option<Reuse>)
    ensures
        r == reuse_of(s@),
{
    if same_text(s, "no-reuse") {
        Some(Reuse::NoReuse)
    } else if same_text(s, "reuse") {
        Some(Reuse::Reuse)
    } else {
        None
    }
}

pub fn parse_compression(s: &str) -> (r: Option<Compression>)
    ensures
        r == compression_of(s@),
{
    if same_text(s, "none") {
        Some(Compression::Uncompressed)
    } else if same_text(s, "packed") {
        Some(Compression::Packed)
    } else {
        None
    }
}

proof fn lemma_decimal_push(t: Seq<char>, c: char)
    ensures
        decimal_value(t.push(c)) == decimal_value(t) * 10 + (c as nat - '0' as nat) as nat,
{
    assert(t.push(c).drop_last() == t);
}

/// Appending digits never makes the value smaller.
proof fn lemma_decimal_prefix(t: Seq<char>, i: int)
    requires
        0 <= i <= t.len(),
        all_digits(t),
    ensures
        decimal_value(t.subrange(0, i)) <= decimal_value(t),
    decreases t.len() - i,
{
    if i < t.len() {
        lemma_decimal_prefix(t, i + 1);
        assert(t.subrange(0, i + 1) == t.subrange(0, i).push(t[i]));
        lemma_decimal_push(t.subrange(0, i), t[i]);
    } else {
        assert(t.subrange(0, i) == t);
    }
}

pub fn parse_iterations(s: &str) -> (r: Option<u64>)
    ensures
        r == iterations_of(s@),
{
    let n = s.unicode_len();
    let start: usize = if n > 0 && s.get_char(0) == '+' { 1 } else { 0 };
    let ghost d = count_digits(s@);
    assert(d == s@.subrange(start as int, n as int));
    if start >= n {
        return None;
    }
    let mut acc: u64 = 0;
    let mut i: usize = start;
    while i < n
        invariant
            n == s@.len(),
            d == count_digits(s@),
            d == s@.subrange(start as int, n as int),
            start <= i <= n,
            all_digits(d.subrange(0, i - start)),
            acc == decimal_value(d.subrange(0, i - start)),
        decreases n - i,
    {
        let c = s.get_char(i);
        let ghost k = i - start;
        assert(d.subrange(0, k + 1) == d.subrange(0, k).push(c));
        proof {
            lemma_decimal_push(d.subrange(0, k), c);
        }
        if !('0' <= c && c <= '9') {
            assert(d[k] == c);
            assert(!is_digit(d[k]));
            assert(!all_digits(d));
            return None;
        }
        let v = (c as u32 - '0' as u32) as u64;
        if acc > (u64::MAX - v) / 10 {
            assert(decimal_value(d.subrange(0, k + 1)) > u64::MAX) by (nonlinear_arith)
                requires
                    acc > (u64::MAX - v) / 10,
                    decimal_value(d.subrange(0, k + 1)) == acc * 10 + v,
                    v <= 9,
            ;
            proof {
                if all_digits(d) {
                    lemma_decimal_prefix(d, k + 1);
                        }
            }
            return None;
        }
        assert(acc * 10 + v <= u64::MAX) by (nonlinear_arith)
            requires
                acc <= (u64::MAX - v) / 10,
                v <= 9,
        ;
        acc = acc * 10 + v;
        i = i + 1;
    }
    assert(d.subrange(0, n - start) == d);
    Some(acc)
}

/// Validates the five positional fields: workload, mode, reuse,
/// compression, iteration count.
pub fn parse_config(fields: &Vec<String>) -> (r: Result<Config, ConfigError>)
    ensures
        r == config_of(texts(fields@)),
{
    if fields.len() != FIELD_COUNT {
        return Err(ConfigError::FieldCount(fields.len()));
    }
    let ghost f = texts(fields@);
    assert(f[0] == fields@[0]@ && f[1] == fields@[1]@ && f[2] == fields@[2]@);
    assert(f[3] == fields@[3]@ && f[4] == fields@[4]@);
    let iterations = match parse_iterations(fields[4].as_str()) {
        Some(n) => n,
        None => return Err(ConfigError::BadIterationCount),
    };
    let compression = match parse_compression(fields[3].as_str()) {
        Some(c) => c,
        None => return Err(ConfigError::UnknownCompression),
    };
    let reuse = match parse_reuse(fields[2].as_str()) {
        Some(x) => x,
        None => return Err(ConfigError::UnknownReuse),
    };
    let workload = match parse_workload(fields[0].as_str()) {
        Some(w) => w,
        None => return Err(ConfigError::UnknownWorkload),
    };
    let mode = match parse_mode(fields[1].as_str()) {
        Some(m) => m,
        None => return Err(ConfigError::UnknownMode),
    };
    Ok(Config { workload, mode, reuse, compression, iterations })
}

/// The fields that a child peer is started with in pipe mode: the same
/// fields, with the mode field set to `client`.
pub fn client_fields(fields: &Vec<String>) -> (r: Vec<String>)
    ensures
        r@.len() == fields@.len(),
        forall|i: int|
            0 <= i < fields@.len() ==> #[trigger] r@[i]@ == (if i == MODE_FIELD {
                "client"@
            } else {
                fields@[i]@
            }),
{
    let mut r: Vec<String> = Vec::new();
    let mut i: usize = 0;
    while i < fields.len()
        invariant
            i <= fields@.len(),
            r@.len() == i,
            forall|j: int|
                0 <= j < i ==> #[trigger] r@[j]@ == (if j == MODE_FIELD {
                    "client"@
                } else {
                    fields@[j]@
                }),
        decreases fields@.len() - i,
    {
        if i == MODE_FIELD {
            r.push(String::from_str("client"));
        } else {
            r.push(fields[i].clone());
        }
        i = i + 1;
    }
    r
}

} // verus!
