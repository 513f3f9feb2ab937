//! The command line and the choice of the listening port.

use vstd::prelude::*;
use vstd::string::*;

use rand::Rng;

use crate::dedupe::lines_view;
use crate::text::chars_of;
use crate::transcript::{decimal, decimal_string};

verus! {

/// The port used when none, or an invalid one, is given.
pub const DEFAULT_PORT: u16 = 8080;

/// The lowest port drawn at random.
pub const RANDOM_PORT_LOW: u16 = 1024;

/// One past the highest port drawn at random.
pub const RANDOM_PORT_HIGH: u16 = 65535;

/// An ASCII decimal digit.
pub open spec fn is_digit(c: char) -> bool {
    '0' <= c && c <= '9'
}

/// Every character of `s` is a decimal digit.
pub open spec fn all_digits(s: Seq<char>) -> bool {
    forall|i: int| 0 <= i < s.len() ==> is_digit(#[trigger] s[i])
}

/// The value of the decimal digits `s`.
pub open spec fn digits_value(s: Seq<char>) -> nat
    decreases s.len(),
{
    if s.len() == 0 {
        0
    } else {
        digits_value(s.drop_last()) * 10 + ((s.last() as u32) - 48) as nat
    }
}

/// `s` without one leading `+`, if it has one.
pub open spec fn unsigned_part(s: Seq<char>) -> Seq<char> {
    if s.len() > 0 && s[0] == '+' {
        s.drop_first()
    } else {
        s
    }
}

/// The port number written in `s`: an optional `+`, then one or more decimal
/// digits whose value fits in 16 bits.
pub open spec fn port_number(s: Seq<char>) -> Option<u16> {
    let d = unsigned_part(s);
    if d.len() > 0 && all_digits(d) && digits_value(d) <= 65535 {
        Some(digits_value(d) as u16)
    } else {
        None
    }
}

/// The value of a prefix of a run of digits is at most the value of the run.
proof fn lemma_prefix_value_le(s: Seq<char>, k: int)
    requires
        all_digits(s),
        0 <= k <= s.len(),
    ensures
        digits_value(s.subrange(0, k)) <= digits_value(s),
    decreases s.len(),
{
    if k < s.len() {
        let p = s.drop_last();
        assert(all_digits(p)) by {
            assert forall|i: int| 0 <= i < p.len() implies is_digit(#[trigger] p[i]) by {
                assert(p[i] == s[i]);
            }
        }
        lemma_prefix_value_le(p, k);
        assert(p.subrange(0, k) == s.subrange(0, k));
        assert(is_digit(s[s.len() - 1]));
    } else {
        assert(s.subrange(0, k) == s);
    }
}

/// Reads a port number as `u16`'s `FromStr` does.
pub fn parse_port(s: &str) -> (r: Option<u16>)
    ensures
        r == port_number(s@),
{
    let cs = chars_of(s);
    let start: usize = if cs.len() > 0 && cs[0] == '+' {
        1
    } else {
        0
    };
    let ghost d = unsigned_part(s@);
    proof {
        assert(d == cs@.subrange(start as int, cs@.len() as int));
    }
    if start >= cs.len() {
        return None;
    }
    let mut acc: u32 = 0;
    let mut i: usize = start;
    while i < cs.len()
        invariant
            start <= i <= cs@.len(),
            d == unsigned_part(s@),
            d == cs@.subrange(start as int, cs@.len() as int),
            all_digits(cs@.subrange(start as int, i as int)),
            acc == digits_value(cs@.subrange(start as int, i as int)),
            acc <= 65535,
        decreases cs@.len() - i,
    {
        let c = cs[i];
        if !('0' <= c && c <= '9') {
            proof {
                assert(d[i - start] == c);
                assert(!is_digit(d[i - start]));
                assert(!all_digits(d));
            }
            return None;
        }
        proof {
            let p = cs@.subrange(start as int, i + 1);
            assert(p.drop_last() == cs@.subrange(start as int, i as int));
            assert(p.last() == c);
            assert forall|j: int| 0 <= j < p.len() implies is_digit(#[trigger] p[j]) by {
                if j < p.len() - 1 {
                    assert(p[j] == cs@.subrange(start as int, i as int)[j]);
                }
            }
        }
        acc = acc * 10 + (c as u32 - 48);
        proof {
            assert(acc == digits_value(cs@.subrange(start as int, i + 1)));
        }
        if acc > 65535 {
            proof {
                if all_digits(d) {
                    lemma_prefix_value_le(d, i + 1 - start);
                    assert(d.subrange(0, i + 1 - start) == cs@.subrange(start as int, i + 1));
                }
            }
            return None;
        }
        i = i + 1;
    }
    Some(acc as u16)
}

/// What the second command-line argument (the port) says.
#[derive(Clone, Copy, Debug, PartialEq, Eq, Structural)]
pub enum PortArg {
    /// A valid port number.
    Given(u16),
    /// Something that is no port number.
    Invalid,
    /// No port argument.
    Missing,
}

/// What the command line asks for.
#[derive(Clone, Copy, Debug, PartialEq, Eq, Structural)]
pub enum CliCommand {
    /// Too few arguments: print the usage line.
    Usage,
    /// `help`: print the program's description.
    Help,
    /// `init [port]`: start the server.
    Init(PortArg),
    /// Any other command word.
    Unknown,
}

/// The command that the arguments `args` (the program's name first) ask for.
pub open spec fn command_line(args: Seq<Seq<char>>) -> CliCommand {
    if args.len() < 2 {
        CliCommand::Usage
    } else if args[1] == "help"@ {
        CliCommand::Help
    } else if args[1] == "init"@ {
        if args.len() > 2 {
            match port_number(args[2]) {
                Some(p) => CliCommand::Init(PortArg::Given(p)),
                None => CliCommand::Init(PortArg::Invalid),
            }
        } else {
            CliCommand::Init(PortArg::Missing)
        }
    } else {
        CliCommand::Unknown
    }
}

/// Reads the command line, the program's name first.
pub fn parse_command_line(args: &Vec<String>) -> (r: CliCommand)
    ensures
        r == command_line(lines_view(args@)),
{
    if args.len() < 2 {
        return CliCommand::Usage;
    }
    let ghost v = lines_view(args@);
    proof {
        assert(v[1] == args@[1]@);
    }
    if args[1] == String::from_str("help") {
        CliCommand::Help
    } else if args[1] == String::from_str("init") {
        if args.len() > 2 {
            proof {
                assert(v[2] == args@[2]@);
            }
            match parse_port(args[2].as_str()) {
                Some(p) => CliCommand::Init(PortArg::Given(p)),
                None => CliCommand::Init(PortArg::Invalid),
            }
        } else {
            CliCommand::Init(PortArg::Missing)
        }
    } else {
        CliCommand::Unknown
    }
}

/// The port to ask for: the given one, else the default.
pub fn requested_port(arg: PortArg) -> (r: u16)
    ensures
        r == match arg {
            PortArg::Given(p) => p,
            _ => DEFAULT_PORT,
        },
{
    match arg {
        PortArg::Given(p) => p,
        _ => DEFAULT_PORT,
    }
}

/// The port to listen on when `requested` (if any) is or is not in use:
/// `None` when a random free port has to be drawn instead.
pub fn initial_port(requested: Option<u16>, requested_in_use: bool) -> (r: Option<u16>)
    ensures
        r == match requested {
            Some(p) => if requested_in_use {
                None
            } else {
                Some(p)
            },
            None => None,
        },
{
    match requested {
        Some(p) => if requested_in_use {
            None
        } else {
            Some(p)
        },
        None => None,
    }
}

/// Relies on `rand::Rng::gen_range` on `rand::thread_rng()`: a value in
/// `[low, high)`; it panics only on an empty range, which `requires` rules out.
#[verifier::external_body]
fn random_in_range(low: u16, high: u16) -> (r: u16)
    requires
        low < high,
    ensures
        low <= r < high,
{
    rand::thread_rng().gen_range(low..high)
}

/// A port drawn at random from `[RANDOM_PORT_LOW, RANDOM_PORT_HIGH)`.
pub fn random_port() -> (r: u16)
    ensures
        RANDOM_PORT_LOW <= r < RANDOM_PORT_HIGH,
{
    random_in_range(RANDOM_PORT_LOW, RANDOM_PORT_HIGH)
}

/// The loopback address prefix the server listens on.
pub const LOOPBACK_PREFIX: &'static str = "127.0.0.1:";

/// The loopback socket address for `port`.
pub fn port_address(port: u16) -> (r: String)
    ensures
        r@ == LOOPBACK_PREFIX@ + decimal(port as nat),
{
    let digits = decimal_string(port as u64);
    String::from_str(LOOPBACK_PREFIX).concat(digits.as_str())
}

} // verus!
