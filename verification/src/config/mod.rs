//! The configuration model of the client and of the server.
//!
//! These are the values that command-line parsing and configuration files
//! produce. Addresses and paths are kept as the text they were given in; the
//! parsing of addresses and the reading of files happen outside the library.

pub mod client;
pub mod server;

use vstd::prelude::*;

verus! {

/// The default of a numeric configuration field.
pub fn default_u64<const DEFAULT: u64>() -> (v: u64)
    ensures
        v == DEFAULT,
{
    DEFAULT
}

/// The default of a boolean configuration field.
pub fn default_bool<const DEFAULT: bool>() -> (v: bool)
    ensures
        v == DEFAULT,
{
    DEFAULT
}

/// Whether `c` is an ASCII decimal digit.
pub open spec fn is_digit(c: char) -> bool {
    '0' <= c && c <= '9'
}

/// The number that a string of decimal digits denotes.
pub open spec fn decimal_value(ds: Seq<char>) -> nat
    decreases ds.len(),
{
    if ds.len() == 0 {
        0
    } else {
        decimal_value(ds.drop_last()) * 10 + (ds.last() as nat - '0' as nat) as nat
    }
}

/// The text after an optional leading `+` sign.
pub open spec fn unsigned_part(s: Seq<char>) -> Seq<char> {
    if s.len() > 0 && s[0] == '+' {
        s.drop_first()
    } else {
        s
    }
}

/// The `u16` that `s` denotes as Rust's integer parsing reads it: an optional
/// `+` sign followed by at least one decimal digit and nothing else, with a
/// value that fits; `None` otherwise.
pub open spec fn u16_from_text(s: Seq<char>) -> Option<u16> {
    let ds = unsigned_part(s);
    if ds.len() > 0 && (forall|i: int| 0 <= i < ds.len() ==> is_digit(#[trigger] ds[i]))
        && decimal_value(ds) <= u16::MAX {
        Some(decimal_value(ds) as u16)
    } else {
        None
    }
}

/// The decimal digits of `n`, without leading zeros.
pub open spec fn decimal_text(n: nat) -> Seq<char>
    decreases n,
{
    if n < 10 {
        seq![('0' as nat + n) as char]
    } else {
        decimal_text(n / 10).push(('0' as nat + n % 10) as char)
    }
}

proof fn lemma_decimal_text_digits(n: nat)
    ensures
        decimal_text(n).len() >= 1,
        forall|i: int| 0 <= i < decimal_text(n).len() ==> is_digit(#[trigger] decimal_text(n)[i]),
        decimal_value(decimal_text(n)) == n,
    decreases n,
{
    let t = decimal_text(n);
    let d = n % 10;
    let c = ('0' as nat + d) as char;
    assert(c as nat == '0' as nat + d);
    assert(is_digit(c));
    if n >= 10 {
        lemma_decimal_text_digits(n / 10);
        let u = decimal_text(n / 10);
        assert(t == u.push(c));
        assert(t.drop_last() =~= u);
        assert(t.last() == c);
        assert forall|i: int| 0 <= i < t.len() implies is_digit(#[trigger] t[i]) by {
            if i < u.len() {
                assert(t[i] == u[i]);
            }
        }
        assert(decimal_value(t) == decimal_value(u) * 10 + d);
        assert((n / 10) * 10 + d == n);
    } else {
        assert(t == seq![c]);
        assert(t.drop_last() =~= Seq::<char>::empty());
        assert(decimal_value(t) == decimal_value(Seq::<char>::empty()) * 10 + d);
    }
}

/// A port written out in decimal reads back as the same port, and so does the
/// same text after a `+` sign.
pub proof fn lemma_port_text_roundtrip(n: u16)
    ensures
        u16_from_text(decimal_text(n as nat)) == Some(n),
        u16_from_text(seq!['+'].add(decimal_text(n as nat))) == Some(n),
{
    lemma_decimal_text_digits(n as nat);
    let t = decimal_text(n as nat);
    assert(t[0] != '+') by {
        assert(is_digit(t[0]));
    }
    assert(seq!['+'].add(t).drop_first() =~= t);
}

/// A text that holds anything but decimal digits, after an optional leading
/// `+`, is not a port; nor is an empty text or a lone `+`.
pub proof fn lemma_port_text_refused(s: Seq<char>, i: int)
    requires
        0 <= i < s.len(),
        !('0' <= s[i] && s[i] <= '9'),
        !(i == 0 && s[i] == '+'),
    ensures
        u16_from_text(s) is None,
        u16_from_text(Seq::<char>::empty()) is None,
        u16_from_text(seq!['+']) is None,
{
    if s[0] == '+' {
        let ds = s.drop_first();
        assert(ds[i - 1] == s[i]);
        assert(!is_digit(ds[i - 1]));
        assert(!(forall|k: int| 0 <= k < ds.len() ==> is_digit(#[trigger] ds[k])));
    } else {
        assert(!is_digit(s[i]));
        assert(!(forall|k: int| 0 <= k < s.len() ==> is_digit(#[trigger] s[k])));
    }
    assert(seq!['+'].drop_first().len() == 0);
}

/// `str::parse::<u16>`: the port that `s` denotes, or the parser's message.
/// Nothing is stated of the message.
#[verifier::external_body]
fn parse_u16(s: &str) -> (r: Result<u16, String>)
    ensures
        match u16_from_text(s@) {
            Some(v) => r == Ok::<u16, String>(v),
            None => r is Err,
        },
{
    s.parse::<u16>().map_err(|e| e.to_string())
}

/// `u16::to_string`: the decimal digits of `n`.
#[verifier::external_body]
fn u16_text(n: u16) -> (t: String)
    ensures
        t@ == decimal_text(n as nat),
{
    n.to_string()
}

/// Whether `s` holds a colon.
pub fn contains_colon(s: &str) -> (b: bool)
    ensures
        b == s@.contains(':'),
{
    let n = s.unicode_len();
    let mut i: usize = 0;
    while i < n
        invariant
            n == s@.len(),
            i <= n,
            forall|k: int| 0 <= k < i ==> s@[k] != ':',
        decreases n - i,
    {
        if s.get_char(i) == ':' {
            return true;
        }
        i = i + 1;
    }
    false
}

/// How an address given on the command line is to be read.
#[derive(Debug, PartialEq, Eq)]
pub enum AddrText {
    /// A `HOST:PORT` text, to be resolved.
    Resolve(String),
    /// An IPv4 address and a port.
    Ipv4 { ip: (u8, u8, u8, u8), port: u16 },
}

/// Reads `HOST:PORT`, to be resolved, or a bare port, which is then taken on
/// the default host `A.B.C.D`; a bare port must be a valid port number.
pub fn parse_addr_with_default_host<const A: u8, const B: u8, const C: u8, const D: u8>(
    s: &str,
) -> (r: Result<AddrText, String>)
    ensures
        s@.contains(':') ==> (r matches Ok(AddrText::Resolve(t)) && t@ == s@),
        !s@.contains(':') ==> match u16_from_text(s@) {
            Some(p) => r == Ok::<AddrText, String>(AddrText::Ipv4 { ip: (A, B, C, D), port: p }),
            None => r matches Err(m) && m@.len() >= "Invalid port number: "@.len() && m@.take(
                "Invalid port number: "@.len() as int,
            ) == "Invalid port number: "@,
        },
{
    if contains_colon(s) {
        Ok(AddrText::Resolve(s.to_string()))
    } else {
        match parse_u16(s) {
            Ok(port) => Ok(AddrText::Ipv4 { ip: (A, B, C, D), port }),
            Err(e) => {
                let prefix = String::from_str("Invalid port number: ");
                let msg = prefix.concat(e.as_str());
                Err(msg)
            },
        }
    }
}

/// Reads `HOST:PORT` as it is, and a bare host as `HOST:P`; the text is then
/// resolved.
pub fn parse_addr_with_default_port<const P: u16>(s: &str) -> (t: String)
    ensures
        s@.contains(':') ==> t@ == s@,
        !s@.contains(':') ==> t@ == s@ + ":"@ + decimal_text(P as nat),
{
    if contains_colon(s) {
        s.to_string()
    } else {
        let host = s.to_string();
        let with_colon = host.concat(":");
        let port = u16_text(P);
        with_colon.concat(port.as_str())
    }
}

} // verus!
