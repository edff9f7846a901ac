//! The command line of the monitor: the kind of probe, the port, and the
//! report to read the hosts from.

use crate::stats::AppMode;
use crate::text::texts_of;
use vstd::prelude::*;
use vstd::string::StrSliceExecFns;
use vstd::string::StringSliceAdditionalSpecFns;
use vstd::utf8::encode_utf8_decode_utf8;

verus! {

/// The port that HTTP probes go to unless the command line names one.
pub const DEFAULT_PORT: u16 = 80;

/// How the reading of a command line ended.
#[derive(Clone, Debug)]
pub enum CliEnd {
    /// Every argument was taken in: run the session.
    Run,
    /// Help was asked for: print it and leave.
    Help,
    /// `--port` was the last argument: say so and leave.
    MissingPortValue,
    /// An option that the monitor does not know: name it, print the help
    /// and leave.
    UnknownOption(String),
}

/// What a command line asks for.
#[derive(Clone, Debug)]
pub struct CliRequest {
    pub mode: AppMode,
    pub port: u16,
    pub xml_path: String,
    /// The values of `--port` that are no port, in order; each is to be
    /// reported, and the default port was taken in its place.
    pub invalid_ports: Vec<String>,
    pub end: CliEnd,
}

/// How the reading of a command line ended, as mathematical values.
pub enum EndModel {
    Run,
    Help,
    MissingPortValue,
    UnknownOption(Seq<char>),
}

/// What a command line asks for, as mathematical values.
pub struct RequestModel {
    pub mode: AppMode,
    pub port: u16,
    pub xml_path: Seq<char>,
    pub invalid_ports: Seq<Seq<char>>,
    pub end: EndModel,
}

/// The value of a decimal digit, where the character is one.
pub open spec fn digit_value(c: char) -> Option<nat> {
    if c == '0' {
        Some(0)
    } else if c == '1' {
        Some(1)
    } else if c == '2' {
        Some(2)
    } else if c == '3' {
        Some(3)
    } else if c == '4' {
        Some(4)
    } else if c == '5' {
        Some(5)
    } else if c == '6' {
        Some(6)
    } else if c == '7' {
        Some(7)
    } else if c == '8' {
        Some(8)
    } else if c == '9' {
        Some(9)
    } else {
        None
    }
}

/// Whether every character is a decimal digit.
pub open spec fn all_digits(s: Seq<char>) -> bool {
    forall|i: int| 0 <= i < s.len() ==> digit_value(#[trigger] s[i]) is Some
}

/// The number that the decimal digits spell.
pub open spec fn digits_value(s: Seq<char>) -> nat
    decreases s.len(),
{
    if s.len() == 0 {
        0
    } else {
        digits_value(s.drop_last()) * 10 + match digit_value(s.last()) {
            Some(d) => d,
            None => 0,
        }
    }
}

/// The text without a plus sign in front.
pub open spec fn unsigned_part(text: Seq<char>) -> Seq<char> {
    if text.len() > 0 && text[0] == '+' {
        text.drop_first()
    } else {
        text
    }
}

/// The port that the text spells: one or more decimal digits, after a plus
/// sign or without, that make a number up to 65535.
pub open spec fn port_of(text: Seq<char>) -> Option<u16> {
    let digits = unsigned_part(text);
    if digits.len() > 0 && all_digits(digits) && digits_value(digits) <= u16::MAX {
        Some(digits_value(digits) as u16)
    } else {
        None
    }
}

/// Whether the text starts with two dashes.
pub open spec fn is_long_option(arg: Seq<char>) -> bool {
    arg.len() >= 2 && arg[0] == '-' && arg[1] == '-'
}

/// The request as it stands before the first argument: echo probes, the
/// default port, and the report `output.xml`.
pub open spec fn default_request() -> RequestModel {
    RequestModel {
        mode: AppMode::Icmp,
        port: DEFAULT_PORT,
        xml_path: "output.xml"@,
        invalid_ports: Seq::empty(),
        end: EndModel::Run,
    }
}

/// The request of the arguments from position `from` on, given the request
/// that the arguments before it made. `--help` or `-h` ends the reading
/// with help; `--http` selects HTTP probes; `--port` takes the next
/// argument as the port, or the default port where that is none; any other
/// argument is the path of the report, unless it starts with two dashes,
/// which ends the reading with that option as unknown.
pub open spec fn request_from(args: Seq<Seq<char>>, from: nat, so_far: RequestModel) -> RequestModel
    decreases args.len() - from,
{
    if from >= args.len() {
        so_far
    } else {
        let arg = args[from as int];
        if arg == "--help"@ || arg == "-h"@ {
            RequestModel { end: EndModel::Help, ..so_far }
        } else if arg == "--http"@ {
            request_from(args, from + 1, RequestModel { mode: AppMode::Http, ..so_far })
        } else if arg == "--port"@ {
            if from + 1 < args.len() {
                let value = args[from as int + 1];
                match port_of(value) {
                    Some(port) => request_from(args, from + 2, RequestModel { port, ..so_far }),
                    None => request_from(
                        args,
                        from + 2,
                        RequestModel {
                            port: DEFAULT_PORT,
                            invalid_ports: so_far.invalid_ports.push(value),
                            ..so_far
                        },
                    ),
                }
            } else {
                RequestModel { end: EndModel::MissingPortValue, ..so_far }
            }
        } else if !is_long_option(arg) {
            request_from(args, from + 1, RequestModel { xml_path: arg, ..so_far })
        } else {
            RequestModel { end: EndModel::UnknownOption(arg), ..so_far }
        }
    }
}

impl View for CliEnd {
    type V = EndModel;

    open spec fn view(&self) -> EndModel {
        match self {
            CliEnd::Run => EndModel::Run,
            CliEnd::Help => EndModel::Help,
            CliEnd::MissingPortValue => EndModel::MissingPortValue,
            CliEnd::UnknownOption(option) => EndModel::UnknownOption(option@),
        }
    }
}

impl View for CliRequest {
    type V = RequestModel;

    open spec fn view(&self) -> RequestModel {
        RequestModel {
            mode: self.mode,
            port: self.port,
            xml_path: self.xml_path@,
            invalid_ports: texts_of(self.invalid_ports@),
            end: self.end@,
        }
    }
}

/// Whether the two texts are the same.
pub fn same_text(a: &str, b: &str) -> (same: bool)
    ensures
        same == (a@ == b@),
{
    let x = a.as_bytes();
    let y = b.as_bytes();
    proof {
        encode_utf8_decode_utf8(a@);
        encode_utf8_decode_utf8(b@);
    }
    if x.len() != y.len() {
        return false;
    }
    let mut i: usize = 0;
    while i < x.len()
        invariant
            i <= x@.len(),
            x@.len() == y@.len(),
            x@ == a.spec_bytes(),
            y@ == b.spec_bytes(),
            forall|k: int| 0 <= k < i ==> x@[k] == y@[k],
        decreases x@.len() - i,
    {
        if x[i] != y[i] {
            return false;
        }
        i = i + 1;
    }
    assert(x@ =~= y@);
    true
}

/// The value of a decimal digit, where the character is one.
fn digit_of(c: char) -> (d: Option<u32>)
    ensures
        match d {
            Some(v) => digit_value(c) == Some(v as nat),
            None => digit_value(c) is None,
        },
{
    if c == '0' {
        Some(0)
    } else if c == '1' {
        Some(1)
    } else if c == '2' {
        Some(2)
    } else if c == '3' {
        Some(3)
    } else if c == '4' {
        Some(4)
    } else if c == '5' {
        Some(5)
    } else if c == '6' {
        Some(6)
    } else if c == '7' {
        Some(7)
    } else if c == '8' {
        Some(8)
    } else if c == '9' {
        Some(9)
    } else {
        None
    }
}

/// The port that the text spells, if it spells one.
pub fn parse_port(text: &str) -> (port: Option<u16>)
    ensures
        port == port_of(text@),
{
    let n = text.unicode_len();
    if n == 0 {
        return None;
    }
    let start: usize = if text.get_char(0) == '+' {
        1
    } else {
        0
    };
    let ghost digits = unsigned_part(text@);
    if start == n {
        return None;
    }
    let mut value: u32 = 0;
    let mut i: usize = start;
    while i < n
        invariant
            start <= i <= n,
            n == text@.len(),
            digits == unsigned_part(text@),
            digits == text@.subrange(start as int, n as int),
            all_digits(digits.subrange(0, i - start)),
            value == digits_value(digits.subrange(0, i - start)),
            value <= u16::MAX,
        decreases n - i,
    {
        let c = text.get_char(i);
        let ghost upto = digits.subrange(0, i - start + 1);
        proof {
            assert(upto.drop_last() =~= digits.subrange(0, i - start));
        }
        match digit_of(c) {
            Some(d) => {
                let next = value * 10 + d;
                if next > 65535 {
                    proof {
                        lemma_prefix_bounds(digits, i - start + 1);
                    }
                    return None;
                }
                value = next;
            },
            None => {
                return None;
            },
        }
        i = i + 1;
    }
    assert(digits.subrange(0, n - start) =~= digits);
    Some(value as u16)
}

/// The number that a prefix of the digits spells is at most the number
/// that all of them spell.
proof fn lemma_prefix_bounds(s: Seq<char>, len: int)
    requires
        0 <= len <= s.len(),
    ensures
        digits_value(s.subrange(0, len)) <= digits_value(s),
    decreases s.len() - len,
{
    if len < s.len() {
        lemma_prefix_bounds(s, len + 1);
        assert(s.subrange(0, len + 1).drop_last() =~= s.subrange(0, len));
    } else {
        assert(s.subrange(0, len) =~= s);
    }
}

/// Whether the text starts with two dashes.
pub fn starts_with_dashes(arg: &str) -> (long: bool)
    ensures
        long == is_long_option(arg@),
{
    arg.unicode_len() >= 2 && arg.get_char(0) == '-' && arg.get_char(1) == '-'
}

/// The request as it stands before the first argument.
fn first_request() -> (request: CliRequest)
    ensures
        request@ == default_request(),
{
    let request = CliRequest {
        mode: AppMode::Icmp,
        port: DEFAULT_PORT,
        xml_path: "output.xml".to_owned(),
        invalid_ports: Vec::new(),
        end: CliEnd::Run,
    };
    assert(request@.invalid_ports =~= Seq::<Seq<char>>::empty());
    request
}

/// Reads the command line, whose first argument is the name of the program
/// and is passed over.
pub fn parse_args(args: &Vec<String>) -> (request: CliRequest)
    ensures
        request@ == request_from(texts_of(args@), 1, default_request()),
{
    let mut request = first_request();
    let ghost all = texts_of(args@);
    let mut i: usize = 1;
    while i < args.len()
        invariant
            1 <= i,
            all == texts_of(args@),
            request@.end is Run,
            request.end is Run,
            request_from(all, 1, default_request()) == request_from(all, i as nat, request@),
        decreases args@.len() - i,
    {
        let arg = args[i].as_str();
        if same_text(arg, "--help") || same_text(arg, "-h") {
            request.end = CliEnd::Help;
            return request;
        } else if same_text(arg, "--http") {
            request.mode = AppMode::Http;
            i = i + 1;
        } else if same_text(arg, "--port") {
            if i + 1 < args.len() {
                let value = args[i + 1].as_str();
                match parse_port(value) {
                    Some(port) => {
                        request.port = port;
                    },
                    None => {
                        let ghost before = request.invalid_ports@;
                        request.port = DEFAULT_PORT;
                        request.invalid_ports.push(value.to_owned());
                        assert(texts_of(request.invalid_ports@) =~= texts_of(before).push(value@));
                    },
                }
                i = i + 2;
            } else {
                request.end = CliEnd::MissingPortValue;
                return request;
            }
        } else if !starts_with_dashes(arg) {
            request.xml_path = arg.to_owned();
            i = i + 1;
        } else {
            request.end = CliEnd::UnknownOption(arg.to_owned());
            return request;
        }
    }
    request
}

} // verus!
