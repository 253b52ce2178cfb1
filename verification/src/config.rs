//! Service configuration: read from environment values and command-line
//! arguments (handed in as plain strings), and the order in which ports are
//! tried when the configured one is taken.

use vstd::prelude::*;
use crate::text::{chars_of, string_from_chars, trim_chars, trimmed, str_equals, decimal, digit_char};

verus! {

/// The service settings.
#[derive(Debug, Clone)]
pub struct Config {
    pub mimo_api_key: String,
    pub server_port: u16,
    pub allowed_origins: Vec<String>,
    pub max_concurrent_tasks: usize,
    pub task_cleanup_hours: u64,
}

/// The environment variables the settings are read from (`None` when unset).
#[derive(Debug, Clone)]
pub struct EnvValues {
    pub mimo_api_key: Option<String>,
    pub server_port: Option<String>,
    pub allowed_origins: Option<String>,
    pub max_concurrent_tasks: Option<String>,
    pub task_cleanup_hours: Option<String>,
}

/// An ASCII digit.
pub open spec fn is_digit(c: char) -> bool {
    '0' <= c && c <= '9'
}

/// The value of a run of ASCII digits.
pub open spec fn digits_value(s: Seq<char>) -> nat
    decreases s.len(),
{
    if s.len() == 0 {
        0
    } else {
        digits_value(s.drop_last()) * 10 + ((s.last() as u32) - ('0' as u32)) as nat
    }
}

/// The number an unsigned integer's `FromStr` reads from a text, before the
/// range check: an optional `+`, then one or more ASCII digits.
pub open spec fn unsigned_text(s: Seq<char>) -> Option<nat> {
    let d = digit_part(s);
    if d.len() > 0 && all_digits(d) {
        Some(digits_value(d))
    } else {
        None
    }
}

/// The text after an optional leading `+`.
pub open spec fn digit_part(s: Seq<char>) -> Seq<char> {
    if s.len() > 0 && s[0] == '+' {
        s.drop_first()
    } else {
        s
    }
}

/// Every character is an ASCII digit.
pub open spec fn all_digits(d: Seq<char>) -> bool {
    forall|i: int| 0 <= i < d.len() ==> is_digit(#[trigger] d[i])
}

/// `s.parse::<u64>().ok()`.
pub open spec fn parsed_u64(s: Seq<char>) -> Option<u64> {
    match unsigned_text(s) {
        Some(v) => if v <= u64::MAX { Some(v as u64) } else { None },
        None => None,
    }
}

/// Parses an unsigned decimal integer as `str::parse::<u64>` does.
pub fn parse_u64(s: &str) -> (r: Option<u64>)
    ensures
        r == parsed_u64(s@),
{
    let v = chars_of(s);
    let start: usize = if v.len() > 0 && v[0] == '+' { 1 } else { 0 };
    let ghost d = digit_part(s@);
    assert(d =~= v@.skip(start as int));
    if start >= v.len() {
        return None;
    }
    let mut acc: u64 = 0;
    let mut overflow = false;
    let mut i: usize = start;
    while i < v.len()
        invariant
            start <= i <= v@.len(),
            v@ == s@,
            d == digit_part(s@),
            d =~= v@.skip(start as int),
            forall|k: int| start <= k < i ==> is_digit(#[trigger] v@[k]),
            !overflow ==> acc == digits_value(v@.subrange(start as int, i as int)),
            overflow ==> digits_value(v@.subrange(start as int, i as int)) > u64::MAX,
        decreases v@.len() - i,
    {
        let c = v[i];
        if !('0' <= c && c <= '9') {
            proof {
                assert(d[i - start] == v@[i as int]);
                assert(!is_digit(d[i - start]));
                assert(!all_digits(d));
            }
            return None;
        }
        let digit: u64 = ((c as u32) - ('0' as u32)) as u64;
        let ghost prev = v@.subrange(start as int, i as int);
        assert(v@.subrange(start as int, i + 1).drop_last() =~= prev);
        proof {
            assert(digits_value(v@.subrange(start as int, i + 1)) == digits_value(prev) * 10 + digit);
        }
        if !overflow {
            if acc > (u64::MAX - digit) / 10 {
                overflow = true;
                assert(digits_value(prev) * 10 + digit > u64::MAX) by (nonlinear_arith)
                    requires
                        digits_value(prev) == acc,
                        acc > (u64::MAX - digit) / 10,
                        digit <= 9,
                ;
            } else {
                assert(acc * 10 + digit <= u64::MAX) by (nonlinear_arith)
                    requires
                        acc <= (u64::MAX - digit) / 10,
                        digit <= 9,
                ;
                acc = acc * 10 + digit;
            }
        } else {
            assert(digits_value(prev) * 10 + digit > u64::MAX) by (nonlinear_arith)
                requires
                    digits_value(prev) > u64::MAX,
                    digit <= 9,
            ;
        }
        i = i + 1;
    }
    assert(v@.subrange(start as int, v@.len() as int) =~= d);
    if overflow {
        None
    } else {
        Some(acc)
    }
}

/// `s.parse::<u16>().ok()`.
pub open spec fn parsed_u16(s: Seq<char>) -> Option<u16> {
    match unsigned_text(s) {
        Some(v) => if v <= u16::MAX { Some(v as u16) } else { None },
        None => None,
    }
}

/// Parses a port number as `str::parse::<u16>` does.
pub fn parse_u16(s: &str) -> (r: Option<u16>)
    ensures
        r == parsed_u16(s@),
{
    match parse_u64(s) {
        Some(v) => if v <= 0xffff {
            Some(v as u16)
        } else {
            None
        },
        None => None,
    }
}

/// `s.parse::<usize>().ok()`.
pub open spec fn parsed_usize(s: Seq<char>) -> Option<usize> {
    match unsigned_text(s) {
        Some(v) => if v <= usize::MAX { Some(v as usize) } else { None },
        None => None,
    }
}

/// Parses a count as `str::parse::<usize>` does.
pub fn parse_usize(s: &str) -> (r: Option<usize>)
    ensures
        r == parsed_usize(s@),
{
    match parse_u64(s) {
        Some(v) => if v <= usize::MAX as u64 {
            Some(v as usize)
        } else {
            None
        },
        None => {
            None
        },
    }
}

/// The pieces of `s` between commas (`s.split(',')`), in order.
pub open spec fn split_commas(s: Seq<char>) -> Seq<Seq<char>>
    decreases s.len(),
{
    if s.len() == 0 {
        seq![Seq::empty()]
    } else {
        let rest = split_commas(s.drop_last());
        if s.last() == ',' {
            rest.push(Seq::empty())
        } else {
            rest.update(rest.len() - 1, rest.last().push(s.last()))
        }
    }
}

proof fn lemma_split_commas_nonempty(s: Seq<char>)
    ensures
        split_commas(s).len() >= 1,
    decreases s.len(),
{
    if s.len() > 0 {
        lemma_split_commas_nonempty(s.drop_last());
    }
}

/// The allowed origins listed in a comma-separated text, each trimmed.
pub open spec fn origins_of(s: Seq<char>) -> Seq<Seq<char>> {
    split_commas(s).map_values(|p: Seq<char>| trimmed(p))
}

fn split_pieces(s: &str) -> (r: Vec<Vec<char>>)
    ensures
        r@.len() == split_commas(s@).len(),
        forall|i: int| 0 <= i < r@.len() ==> (#[trigger] r@[i])@ == split_commas(s@)[i],
{
    let v = chars_of(s);
    let mut out: Vec<Vec<char>> = Vec::new();
    let mut cur: Vec<char> = Vec::new();
    let mut i: usize = 0;
    while i < v.len()
        invariant
            i <= v@.len(),
            v@ == s@,
            out@.len() + 1 == split_commas(v@.take(i as int)).len(),
            forall|k: int| 0 <= k < out@.len() ==> (#[trigger] out@[k])@ == split_commas(v@.take(i as int))[k],
            cur@ == split_commas(v@.take(i as int)).last(),
        decreases v@.len() - i,
    {
        proof {
            lemma_split_commas_nonempty(v@.take(i as int));
        }
        assert(v@.take(i + 1).drop_last() =~= v@.take(i as int));
        if v[i] == ',' {
            let done = cur;
            out.push(done);
            cur = Vec::new();
        } else {
            cur.push(v[i]);
        }
        i = i + 1;
    }
    assert(v@.take(v@.len() as int) =~= v@);
    proof {
        lemma_split_commas_nonempty(v@);
    }
    out.push(cur);
    out
}

/// The allowed origins of a comma-separated list.
pub fn parse_origins(s: &str) -> (r: Vec<String>)
    ensures
        r@.len() == origins_of(s@).len(),
        forall|i: int| 0 <= i < r@.len() ==> (#[trigger] r@[i])@ == origins_of(s@)[i],
{
    let pieces = split_pieces(s);
    let mut out: Vec<String> = Vec::new();
    let mut i: usize = 0;
    while i < pieces.len()
        invariant
            i <= pieces@.len(),
            pieces@.len() == split_commas(s@).len(),
            forall|k: int| 0 <= k < pieces@.len() ==> (#[trigger] pieces@[k])@ == split_commas(s@)[k],
            out@.len() == i,
            forall|k: int| 0 <= k < i ==> (#[trigger] out@[k])@ == trimmed(split_commas(s@)[k]),
        decreases pieces@.len() - i,
    {
        let t = trim_chars(pieces[i].as_slice());
        out.push(string_from_chars(t.as_slice()));
        i = i + 1;
    }
    out
}

/// Port of the service when none is configured.
pub const DEFAULT_PORT: u16 = 30231;

/// Origin allowed when none is configured.
pub const DEFAULT_ORIGIN: &'static str = "http://localhost:5173";

/// The settings read from the environment: unset or unreadable numbers fall
/// back to their defaults (port 30231, 5 concurrent tasks, 24 h cleanup), an
/// unset key is empty, unset origins allow the local front end.
pub open spec fn config_from_env_spec(e: EnvValues, c: Config) -> bool {
    &&& c.mimo_api_key@ == match e.mimo_api_key {
        Some(k) => k@,
        None => Seq::empty(),
    }
    &&& c.server_port == match e.server_port {
        Some(p) => match parsed_u16(p@) {
            Some(v) => v,
            None => DEFAULT_PORT,
        },
        None => DEFAULT_PORT,
    }
    &&& c.max_concurrent_tasks == match e.max_concurrent_tasks {
        Some(p) => match parsed_usize(p@) {
            Some(v) => v,
            None => 5,
        },
        None => 5,
    }
    &&& c.task_cleanup_hours == match e.task_cleanup_hours {
        Some(p) => match parsed_u64(p@) {
            Some(v) => v,
            None => 24,
        },
        None => 24,
    }
    &&& match e.allowed_origins {
        Some(o) => c.allowed_origins@.len() == origins_of(o@).len() && forall|i: int|
            0 <= i < c.allowed_origins@.len() ==> (#[trigger] c.allowed_origins@[i])@ == origins_of(o@)[i],
        None => c.allowed_origins@.len() == 1 && c.allowed_origins@[0]@ == DEFAULT_ORIGIN@,
    }
}

impl Config {
    /// The settings given by environment values.
    pub fn from_env_values(e: &EnvValues) -> (r: Config)
        ensures
            config_from_env_spec(*e, r),
    {
        let mimo_api_key = match &e.mimo_api_key {
            Some(k) => k.clone(),
            None => String::new(),
        };
        let server_port = match &e.server_port {
            Some(p) => match parse_u16(p.as_str()) {
                Some(v) => v,
                None => DEFAULT_PORT,
            },
            None => DEFAULT_PORT,
        };
        let allowed_origins = match &e.allowed_origins {
            Some(o) => parse_origins(o.as_str()),
            None => {
                let mut v: Vec<String> = Vec::new();
                v.push(String::from_str(DEFAULT_ORIGIN));
                v
            },
        };
        let max_concurrent_tasks = match &e.max_concurrent_tasks {
            Some(p) => match parse_usize(p.as_str()) {
                Some(v) => v,
                None => 5,
            },
            None => 5,
        };
        let task_cleanup_hours = match &e.task_cleanup_hours {
            Some(p) => match parse_u64(p.as_str()) {
                Some(v) => v,
                None => 24,
            },
            None => 24,
        };
        Config { mimo_api_key, server_port, allowed_origins, max_concurrent_tasks, task_cleanup_hours }
    }
}

/// What the command line asks for.
#[derive(Debug, Clone, Copy, PartialEq, Eq, Structural)]
pub enum ArgsAction {
    /// Run, on this port (the configured one unless `--port` changed it).
    Run { port: u16 },
    /// Print the help and stop.
    Help,
}

/// A `--port`/`-p` flag.
pub open spec fn is_port_flag(a: Seq<char>) -> bool {
    a == "--port"@ || a == "-p"@
}

/// A `--help`/`-h` flag.
pub open spec fn is_help_flag(a: Seq<char>) -> bool {
    a == "--help"@ || a == "-h"@
}

/// Reading the arguments from index `i` with the port so far: a port flag
/// takes the next argument when it parses (and skips it either way), a help
/// flag stops; anything else is ignored.
pub open spec fn args_from(args: Seq<Seq<char>>, i: int, port: u16) -> ArgsAction
    decreases args.len() + 1 - i,
{
    if i >= args.len() || i < 0 {
        ArgsAction::Run { port }
    } else if is_port_flag(args[i]) {
        let p = if i + 1 < args.len() {
            match parsed_u16(args[i + 1]) {
                Some(v) => v,
                None => port,
            }
        } else {
            port
        };
        args_from(args, i + 2, p)
    } else if is_help_flag(args[i]) {
        ArgsAction::Help
    } else {
        args_from(args, i + 1, port)
    }
}

/// The views of a list of strings.
pub open spec fn views(v: Seq<String>) -> Seq<Seq<char>> {
    v.map_values(|s: String| s@)
}

/// Reads the command line (`args[0]` is the program) over the configured
/// port.
pub fn parse_args(args: &[String], configured_port: u16) -> (r: ArgsAction)
    ensures
        r == args_from(views(args@), 1, configured_port),
{
    let ghost a = views(args@);
    let mut port = configured_port;
    let mut i: usize = 1;
    while i < args.len()
        invariant
            a == views(args@),
            1 <= i,
            args_from(a, i as int, port) == args_from(a, 1, configured_port),
        decreases args@.len() - i,
    {
        let arg = args[i].as_str();
        assert(a[i as int] == arg@);
        if str_equals(arg, "--port") || str_equals(arg, "-p") {
            if i + 1 < args.len() {
                assert(a[i + 1] == args@[i + 1]@);
                match parse_u16(args[i + 1].as_str()) {
                    Some(v) => {
                        port = v;
                    },
                    None => {},
                }
            }
            if i + 1 >= args.len() {
                assert(args_from(a, i + 2, port) == ArgsAction::Run { port });
                return ArgsAction::Run { port };
            }
            i = i + 2;
        } else if str_equals(arg, "--help") || str_equals(arg, "-h") {
            return ArgsAction::Help;
        } else {
            i = i + 1;
        }
    }
    ArgsAction::Run { port }
}

/// The ports tried after the configured one is found taken: the next hundred
/// (wrapping around 65535) that are not below 1024, then 10000 to 65534.
pub open spec fn fallback_ports(port: u16) -> Seq<u16> {
    Seq::new(100, |k: int| ((port + k + 1) % 65536) as u16).filter(|c: u16| c >= 1024) + Seq::new(
        55535,
        |k: int| (10000 + k) as u16,
    )
}

/// The fallback ports in the order they are tried.
pub fn port_candidates(port: u16) -> (r: Vec<u16>)
    ensures
        r@ == fallback_ports(port),
{
    let ghost near = Seq::new(100, |k: int| ((port + k + 1) % 65536) as u16);
    let ghost keep = |c: u16| c >= 1024;
    let mut out: Vec<u16> = Vec::new();
    let mut off: u16 = 1;
    while off <= 100
        invariant
            1 <= off <= 101,
            near == Seq::new(100, |k: int| ((port + k + 1) % 65536) as u16),
            keep == (|c: u16| c >= 1024),
            out@ == near.take(off - 1).filter(keep),
        decreases 101 - off,
    {
        let c = port.wrapping_add(off);
        assert(near.take(off as int).drop_last() =~= near.take(off - 1));
        assert(near[off - 1] == c);
        assert(near.take(off as int).last() == c);
        assert(keep(c) == (c >= 1024));
        assert(near.take(off as int) =~= near.take(off - 1).push(c));
        proof {
            near.take(off - 1).lemma_filter_push(c, keep);
        }
        if c >= 1024 {
            out.push(c);
            assert(near.take(off as int).filter(keep) == near.take(off - 1).filter(keep).push(c));
        } else {
            assert(near.take(off as int).filter(keep) == near.take(off - 1).filter(keep));
        }
        off = off + 1;
    }
    assert(near.take(100) =~= near);
    let ghost first = out@;
    let mut p: u16 = 10000;
    while p < 65535
        invariant
            10000 <= p <= 65535,
            out@ == first + Seq::new((p - 10000) as nat, |k: int| (10000 + k) as u16),
        decreases 65535 - p,
    {
        out.push(p);
        p = p + 1;
        assert(out@ =~= first + Seq::new((p - 10000) as nat, |k: int| (10000 + k) as u16));
    }
    out
}

} // verus!

verus! {

proof fn lemma_decimal_digits(n: nat)
    ensures
        decimal(n).len() > 0,
        all_digits(decimal(n)),
        digits_value(decimal(n)) == n,
    decreases n,
{
    let d = n % 10;
    assert((digit_char(d) as u32) == 48 + d);
    let s = decimal(n);
    if n < 10 {
        assert(s.drop_last() =~= Seq::<char>::empty());
        assert(s.last() == digit_char(d));
        assert(digits_value(s) == digits_value(s.drop_last()) * 10 + d);
    }
    if n >= 10 {
        lemma_decimal_digits(n / 10);
        assert(s.drop_last() =~= decimal(n / 10));
        assert(s.last() == digit_char(d));
        assert(digits_value(s) == digits_value(s.drop_last()) * 10 + d);
        assert forall|i: int| 0 <= i < s.len() implies is_digit(#[trigger] s[i]) by {
            if i < s.len() - 1 {
                assert(s[i] == decimal(n / 10)[i]);
            }
        }
    }
}

/// Parsing the decimal notation of a number gives the number back.
pub proof fn lemma_parse_decimal_roundtrip(n: u64)
    ensures
        parsed_u64(decimal(n as nat)) == Some(n),
{
    lemma_decimal_digits(n as nat);
    assert(digit_part(decimal(n as nat)) == decimal(n as nat));
}

} // verus!
