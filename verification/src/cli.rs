//! The command line of the `conjure` program.
use vstd::prelude::*;

use crate::text::{chars_of, concat3, copy_range, decimal, digit_char, str_eq, string_of};

verus! {

/// What the program is asked to do.
#[derive(Debug, Clone, Copy, PartialEq, Eq, Structural)]
pub enum Command {
    /// Serve the UI and API, on the given port or the default one.
    Serve { port: Option<u16> },
    /// Run the stdio MCP server.
    Mcp,
    /// Print the usage.
    Help,
}

/// Why text is not a port number (the kinds of `ParseIntError`).
#[derive(Debug, Clone, Copy, PartialEq, Eq, Structural)]
pub enum PortError {
    Empty,
    InvalidDigit,
    PosOverflow,
}

/// The text of a port error, as `ParseIntError` displays it.
pub open spec fn port_error_text(e: PortError) -> Seq<char> {
    match e {
        PortError::Empty => "cannot parse integer from empty string"@,
        PortError::InvalidDigit => "invalid digit found in string"@,
        PortError::PosOverflow => "number too large to fit in target type"@,
    }
}

/// Reading decimal digits onto `acc`: a non-digit fails, and so does a
/// value above 65535 (a non-digit is reported first at the same place).
pub open spec fn digits_value(s: Seq<char>, acc: nat) -> Result<nat, PortError>
    decreases s.len(),
{
    if s.len() == 0 {
        Ok(acc)
    } else if !('0' <= s[0] && s[0] <= '9') {
        Err(PortError::InvalidDigit)
    } else {
        let next = acc * 10 + (s[0] as nat - '0' as nat);
        if next > 65535 {
            Err(PortError::PosOverflow)
        } else {
            digits_value(s.drop_first(), next as nat)
        }
    }
}

/// `u16::from_str`: decimal digits with an optional leading `+`.
pub open spec fn port_value(s: Seq<char>) -> Result<u16, PortError> {
    if s.len() == 0 {
        Err(PortError::Empty)
    } else if s.len() == 1 && (s[0] == '+' || s[0] == '-') {
        Err(PortError::InvalidDigit)
    } else {
        let digits = if s[0] == '+' {
            s.drop_first()
        } else {
            s
        };
        match digits_value(digits, 0) {
            Ok(v) => Ok(v as u16),
            Err(e) => Err(e),
        }
    }
}

proof fn lemma_digits_push(s: Seq<char>, c: char, acc: nat)
    ensures
        digits_value(s.push(c), acc) == match digits_value(s, acc) {
            Ok(v) => digits_value(seq![c], v),
            Err(e) => Err(e),
        },
    decreases s.len(),
{
    if s.len() > 0 {
        assert(s.push(c).drop_first() =~= s.drop_first().push(c));
        assert(s.push(c)[0] == s[0]);
        if '0' <= s[0] && s[0] <= '9' {
            let next = acc * 10 + (s[0] as nat - '0' as nat);
            if next <= 65535 {
                lemma_digits_push(s.drop_first(), c, next as nat);
            }
        }
    } else {
        assert(s.push(c) =~= seq![c]);
    }
}

proof fn lemma_decimal_digits(n: nat)
    requires
        n <= 65535,
    ensures
        digits_value(decimal(n), 0) == Ok::<nat, PortError>(n),
        decimal(n).len() >= 1,
        decimal(n)[0] != '+' && decimal(n)[0] != '-',
    decreases n,
{
    if n < 10 {
        let s = decimal(n);
        assert(digit_char(n) as nat == 48 + n);
        assert(s.drop_first() =~= Seq::<char>::empty());
        assert(digits_value(s.drop_first(), n) == Ok::<nat, PortError>(n));
    } else {
        let q = n / 10;
        let d = n % 10;
        assert(q * 10 + d == n && d < 10 && q < n) by (nonlinear_arith)
            requires
                q == n / 10,
                d == n % 10,
                n >= 10,
        ;
        lemma_decimal_digits(q);
        lemma_digits_push(decimal(q), digit_char(d), 0);
        let one = seq![digit_char(d)];
        assert(digit_char(d) as nat == 48 + d);
        assert(one.drop_first() =~= Seq::<char>::empty());
        assert(digits_value(one.drop_first(), n) == Ok::<nat, PortError>(n));
        assert(digits_value(one, q) == Ok::<nat, PortError>(n));
        assert(decimal(n)[0] == decimal(q)[0]);
    }
}

/// Every port, written in decimal, reads back as itself.
pub proof fn lemma_port_text_round_trip(port: u16)
    ensures
        port_value(decimal(port as nat)) == Ok::<u16, PortError>(port),
{
    lemma_decimal_digits(port as nat);
}

/// Reads a port number.
pub fn parse_u16(value: &str) -> (r: Result<u16, PortError>)
    ensures
        r == port_value(value@),
{
    let cs = chars_of(value);
    if cs.len() == 0 {
        return Err(PortError::Empty);
    }
    if cs.len() == 1 && (cs[0] == '+' || cs[0] == '-') {
        return Err(PortError::InvalidDigit);
    }
    let start: usize = if cs[0] == '+' {
        1
    } else {
        0
    };
    let ghost digits = if cs@[0] == '+' {
        cs@.drop_first()
    } else {
        cs@
    };
    assert(digits =~= cs@.subrange(start as int, cs@.len() as int));
    assert(port_value(value@) == match digits_value(digits, 0) {
        Ok(v) => Ok(v as u16),
        Err(e) => Err(e),
    });
    let mut acc: u32 = 0;
    let mut i = start;
    while i < cs.len()
        invariant
            port_value(value@) == match digits_value(digits, 0) {
                Ok(v) => Ok(v as u16),
                Err(e) => Err::<u16, PortError>(e),
            },
            start <= i <= cs@.len(),
            acc <= 65535,
            digits_value(digits, 0) == digits_value(cs@.subrange(i as int, cs@.len() as int), acc as nat),
        decreases cs@.len() - i,
    {
        let c = cs[i];
        let ghost rest = cs@.subrange(i as int, cs@.len() as int);
        assert(rest[0] == c);
        assert(rest.drop_first() =~= cs@.subrange(i + 1, cs@.len() as int));
        if !('0' <= c && c <= '9') {
            return Err(PortError::InvalidDigit);
        }
        let d: u32 = (c as u32) - ('0' as u32);
        let next = acc * 10 + d;
        if next > 65535 {
            return Err(PortError::PosOverflow);
        }
        acc = next;
        i = i + 1;
    }
    Ok(acc as u16)
}

/// The text of a port error.
pub fn port_error_message(e: PortError) -> (r: &'static str)
    ensures
        r@ == port_error_text(e),
{
    match e {
        PortError::Empty => "cannot parse integer from empty string",
        PortError::InvalidDigit => "invalid digit found in string",
        PortError::PosOverflow => "number too large to fit in target type",
    }
}

/// The message for text that is not a port.
pub open spec fn invalid_port_message(value: Seq<char>, e: PortError) -> Seq<char> {
    "invalid port `"@ + value + "`: "@ + port_error_text(e)
}

/// Reads the value of a port option.
pub fn parse_port(value: &str) -> (r: Result<u16, String>)
    ensures
        match port_value(value@) {
            Ok(p) => r == Ok::<u16, String>(p),
            Err(e) => r matches Err(m) && m@ == invalid_port_message(value@, e),
        },
{
    match parse_u16(value) {
        Ok(p) => Ok(p),
        Err(e) => {
            let tail = crate::text::concat2("`: ", port_error_message(e));
            let m = concat3("invalid port `", value, tail.as_str());
            assert(m@ =~= invalid_port_message(value@, e));
            Err(m)
        },
    }
}

/// Reads the value that follows `--port`, which must be there.
pub fn parse_port_argument(value: Option<&str>) -> (r: Result<u16, String>)
    ensures
        match value {
            None => r matches Err(m) && m@ == "`--port` requires a value"@,
            Some(v) => match port_value(v@) {
                Ok(p) => r == Ok::<u16, String>(p),
                Err(e) => r matches Err(m) && m@ == invalid_port_message(v@, e),
            },
        },
{
    match value {
        None => Err(String::from_str("`--port` requires a value")),
        Some(v) => parse_port(v),
    }
}

/// `s` without every leading copy of `prefix` (`str::trim_start_matches`).
pub open spec fn strip_prefixes(s: Seq<char>, prefix: Seq<char>) -> Seq<char>
    decreases s.len(),
{
    if prefix.len() > 0 && prefix.is_prefix_of(s) {
        strip_prefixes(s.subrange(prefix.len() as int, s.len() as int), prefix)
    } else {
        s
    }
}

/// The value of an `--port=` option.
pub fn port_option_value(arg: &str) -> (r: String)
    ensures
        r@ == strip_prefixes(arg@, "--port="@),
{
    proof {
        reveal_strlit("--port=");
    }
    let cs = chars_of(arg);
    let p = chars_of("--port=");
    let n = cs.len();
    let mut i: usize = 0;
    assert(cs@.subrange(0, cs@.len() as int) =~= cs@);
    while i <= n && n - i >= p.len() && crate::text::chars_occur_at(&cs, &p, i)
        invariant
            p@ == "--port="@,
            p@.len() == 7,
            n == cs@.len(),
            i <= cs@.len(),
            strip_prefixes(cs@, p@) == strip_prefixes(cs@.subrange(i as int, cs@.len() as int), p@),
        decreases cs@.len() - i,
    {
        let ghost rest = cs@.subrange(i as int, cs@.len() as int);
        assert(p@.is_prefix_of(rest)) by {
            assert(cs@.subrange(i as int, i + p@.len()) =~= p@);
            assert forall|k: int| 0 <= k < p@.len() implies p@[k] == rest[k] by {
                assert(cs@.subrange(i as int, i + p@.len())[k] == cs@[i + k]);
            }
        }
        assert(rest.subrange(p@.len() as int, rest.len() as int) =~= cs@.subrange(
            i + p@.len(),
            cs@.len() as int,
        ));
        i = i + p.len();
    }
    proof {
        let rest = cs@.subrange(i as int, cs@.len() as int);
        if p@.is_prefix_of(rest) {
            assert(rest.subrange(0, p@.len() as int) =~= p@);
            assert(cs@.subrange(i as int, i + p@.len()) =~= p@);
        }
    }
    let kept = copy_range(&cs, i, cs.len());
    string_of(kept.as_slice())
}

/// Whether `arg` starts with `--port=`.
pub open spec fn is_port_option(arg: Seq<char>) -> bool {
    "--port="@.is_prefix_of(arg)
}

/// Reading the arguments from position `i` on, with the options seen so
/// far.
pub open spec fn command_from(args: Seq<String>, i: nat, mcp: bool, port: Option<u16>) -> Result<
    Command,
    Seq<char>,
>
    decreases args.len() - i,
{
    if i >= args.len() {
        if mcp && port is Some {
            Err("`--mcp` and `--port` cannot be used together"@)
        } else if mcp {
            Ok(Command::Mcp)
        } else {
            Ok(Command::Serve { port })
        }
    } else {
        let arg = args[i as int]@;
        if arg == "--mcp"@ {
            command_from(args, i + 1, true, port)
        } else if arg == "--port"@ {
            if i + 1 >= args.len() {
                Err("`--port` requires a value"@)
            } else {
                match port_value(args[i + 1 as int]@) {
                    Ok(p) => command_from(args, i + 2, mcp, Some(p)),
                    Err(e) => Err(invalid_port_message(args[i + 1 as int]@, e)),
                }
            }
        } else if arg == "--help"@ || arg == "-h"@ {
            Ok(Command::Help)
        } else if is_port_option(arg) {
            let v = strip_prefixes(arg, "--port="@);
            match port_value(v) {
                Ok(p) => command_from(args, i + 1, mcp, Some(p)),
                Err(e) => Err(invalid_port_message(v, e)),
            }
        } else {
            Err("unknown argument `"@ + arg + "`"@)
        }
    }
}

/// Reads the command line (without the program name).
pub fn parse_command(args: &Vec<String>) -> (r: Result<Command, String>)
    ensures
        match command_from(args@, 0, false, None) {
            Ok(c) => r == Ok::<Command, String>(c),
            Err(m) => r matches Err(x) && x@ == m,
        },
{
    let mut mcp = false;
    let mut port: Option<u16> = None;
    let mut i: usize = 0;
    proof {
        reveal_strlit("--port=");
    }
    while i < args.len()
        invariant
            i <= args@.len(),
            command_from(args@, 0, false, None) == command_from(args@, i as nat, mcp, port),
        decreases args@.len() - i,
    {
        let arg = args[i].as_str();
        if str_eq(arg, "--mcp") {
            mcp = true;
            i = i + 1;
        } else if str_eq(arg, "--port") {
            let next = if i + 1 < args.len() {
                Some(args[i + 1].as_str())
            } else {
                None
            };
            match parse_port_argument(next) {
                Ok(p) => {
                    port = Some(p);
                    i = i + 2;
                },
                Err(m) => {
                    return Err(m);
                },
            }
        } else if str_eq(arg, "--help") || str_eq(arg, "-h") {
            return Ok(Command::Help);
        } else {
            let cs = chars_of(arg);
            let p = chars_of("--port=");
            let is_option = p.len() <= cs.len() && crate::text::chars_occur_at(&cs, &p, 0);
            proof {
                if p@.len() <= cs@.len() {
                    assert(cs@.subrange(0, p@.len() as int) == p@ <==> p@.is_prefix_of(cs@)) by {
                        if p@.is_prefix_of(cs@) {
                            assert(cs@.subrange(0, p@.len() as int) =~= p@);
                        }
                        if cs@.subrange(0, p@.len() as int) == p@ {
                            assert forall|k: int| 0 <= k < p@.len() implies p@[k] == cs@[k] by {
                                assert(cs@.subrange(0, p@.len() as int)[k] == cs@[k]);
                            }
                        }
                    }
                }
            }
            if is_option {
                let v = port_option_value(arg);
                match parse_port(v.as_str()) {
                    Ok(p) => {
                        port = Some(p);
                        i = i + 1;
                    },
                    Err(m) => {
                        return Err(m);
                    },
                }
            } else {
                return Err(concat3("unknown argument `", arg, "`"));
            }
        }
    }
    if mcp && port.is_some() {
        return Err(String::from_str("`--mcp` and `--port` cannot be used together"));
    }
    if mcp {
        Ok(Command::Mcp)
    } else {
        Ok(Command::Serve { port })
    }
}

/// The HTTP port: the one given on the command line, else the one named
/// by the environment when it is a valid port, else 5174.
pub fn http_port(port_override: Option<u16>, from_env: Option<&str>) -> (r: u16)
    ensures
        r == match port_override {
            Some(p) => p,
            None => match from_env {
                Some(v) => match port_value(v@) {
                    Ok(p) => p,
                    Err(_) => 5174,
                },
                None => 5174,
            },
        },
{
    match port_override {
        Some(p) => p,
        None => match from_env {
            Some(v) => match parse_u16(v) {
                Ok(p) => p,
                Err(_) => 5174,
            },
            None => 5174,
        },
    }
}

} // verus!
