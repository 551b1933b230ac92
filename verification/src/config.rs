//! Server configuration.
//!
//! The configuration holds the host and port the server binds. It is
//! built from the raw environment values handed in by the caller, with
//! the documented defaults where a value is absent, and a port value is
//! accepted exactly when it is a decimal numeral that fits a `u16`.

use vstd::prelude::*;
use vstd::string::StrSliceExecFns;
use vstd::string::StringExecFns;

verus! {

/// The settings of the listening socket.
#[derive(Debug, Clone)]
pub struct ServerConfig {
    pub host: String,
    pub port: u16,
}

/// The sidecar's whole configuration.
#[derive(Debug)]
pub struct Config {
    pub server: ServerConfig,
}

/// Why a configuration was rejected: the port value could not be read
/// as a port number.
#[derive(Debug)]
pub enum ConfigError {
    InvalidPort { value: String },
}

impl ConfigError {
    /// Renders the error for a log line.
    pub fn message(&self) -> (r: String)
        ensures
            self matches ConfigError::InvalidPort { value } && r@ == "invalid server port: "@
                + value@,
    {
        match self {
            ConfigError::InvalidPort { value } => {
                let mut out = String::from_str("invalid server port: ");
                out.append(value.as_str());
                out
            },
        }
    }
}

/// True of the ten decimal digit characters.
pub open spec fn spec_is_digit(c: char) -> bool {
    48 <= c as u32 <= 57
}

/// The value of a decimal digit character.
pub open spec fn spec_digit_val(c: char) -> int {
    c as u32 - 48
}

/// The decimal digit character for a value below ten.
pub open spec fn spec_digit_char(n: int) -> char {
    if n == 0 {
        '0'
    } else if n == 1 {
        '1'
    } else if n == 2 {
        '2'
    } else if n == 3 {
        '3'
    } else if n == 4 {
        '4'
    } else if n == 5 {
        '5'
    } else if n == 6 {
        '6'
    } else if n == 7 {
        '7'
    } else if n == 8 {
        '8'
    } else {
        '9'
    }
}

/// True when every character of `s` is a decimal digit.
pub open spec fn spec_all_digits(s: Seq<char>) -> bool {
    forall|i: int| 0 <= i < s.len() ==> spec_is_digit(#[trigger] s[i])
}

/// The value of `s` read as a decimal numeral.
pub open spec fn spec_dec_val(s: Seq<char>) -> int
    decreases s.len(),
{
    if s.len() == 0 {
        0
    } else {
        spec_dec_val(s.drop_last()) * 10 + spec_digit_val(s.last())
    }
}

/// The port number a value stands for: a non-empty all-digit numeral
/// whose value fits a `u16`, and nothing else.
pub open spec fn spec_parse_u16(s: Seq<char>) -> Option<u16> {
    if s.len() == 0 || !spec_all_digits(s) {
        None
    } else if spec_dec_val(s) > 65535 {
        None
    } else {
        Some(spec_dec_val(s) as u16)
    }
}

/// The decimal numeral of a non-negative value, most significant digit
/// first and without leading zeros.
pub open spec fn spec_dec_str(n: int) -> Seq<char>
    decreases n,
{
    if n < 10 {
        seq![spec_digit_char(n)]
    } else {
        spec_dec_str(n / 10) + seq![spec_digit_char(n % 10)]
    }
}

/// The bind address: the host, a colon, and the port numeral.
pub open spec fn spec_bind_addr(host: Seq<char>, port: u16) -> Seq<char> {
    host + seq![':'] + spec_dec_str(port as int)
}

/// The host a configuration resolves to: the given value, or `0.0.0.0`
/// where none was given.
pub open spec fn spec_resolved_host(host: Option<String>) -> Seq<char> {
    match host {
        None => "0.0.0.0"@,
        Some(h) => h@,
    }
}

/// The port a configuration resolves to: the parse of the given value,
/// or `9999` where none was given.
pub open spec fn spec_resolved_port(port: Option<String>) -> Option<u16> {
    match port {
        None => Some(9999u16),
        Some(p) => spec_parse_u16(p@),
    }
}

/// An all-digit numeral's value is not negative.
proof fn lemma_dec_val_nonneg(s: Seq<char>)
    requires
        spec_all_digits(s),
    ensures
        spec_dec_val(s) >= 0,
    decreases s.len(),
{
    if s.len() > 0 {
        assert(spec_is_digit(s[s.len() - 1]));
        assert(spec_all_digits(s.drop_last()));
        lemma_dec_val_nonneg(s.drop_last());
    }
}

/// A numeral's value never shrinks when more digits follow.
proof fn lemma_dec_val_take(s: Seq<char>, k: int)
    requires
        spec_all_digits(s),
        0 <= k <= s.len(),
    ensures
        spec_dec_val(s) >= spec_dec_val(s.take(k)),
        spec_dec_val(s.take(k)) >= 0,
    decreases s.len() - k,
{
    assert(spec_all_digits(s.take(k)));
    lemma_dec_val_nonneg(s.take(k));
    if k == s.len() {
        assert(s.take(k) =~= s);
    } else {
        lemma_dec_val_take(s, k + 1);
        assert(s.take(k + 1).drop_last() =~= s.take(k));
        assert(s.take(k + 1).last() == s[k]);
        assert(spec_is_digit(s[k]));
        assert(spec_dec_val(s.take(k + 1)) == spec_dec_val(s.take(k)) * 10 + spec_digit_val(
            s[k],
        ));
    }
}

/// Reads a string as a port number, exactly as [`spec_parse_u16`] says.
fn parse_u16(s: &str) -> (r: Option<u16>)
    ensures
        r == spec_parse_u16(s@),
{
    let n = s.unicode_len();
    if n == 0 {
        return None;
    }
    let mut acc: u32 = 0;
    let mut i: usize = 0;
    while i < n
        invariant
            n == s@.len(),
            n >= 1,
            i <= n,
            spec_all_digits(s@.take(i as int)),
            acc == spec_dec_val(s@.take(i as int)),
            acc <= 65535,
        decreases n - i,
    {
        let c = s.get_char(i);
        let cv = c as u32;
        if cv < 48 || cv > 57 {
            assert(!spec_is_digit(s@[i as int]));
            assert(!spec_all_digits(s@));
            return None;
        }
        let d: u32 = cv - 48;
        proof {
            assert(s@.take(i as int + 1).drop_last() =~= s@.take(i as int));
            assert(s@.take(i as int + 1).last() == s@[i as int]);
        }
        let next: u32 = acc * 10 + d;
        if next > 65535 {
            proof {
                if spec_all_digits(s@) {
                    lemma_dec_val_take(s@, i as int + 1);
                }
            }
            return None;
        }
        acc = next;
        i = i + 1;
    }
    proof {
        assert(s@.take(n as int) =~= s@);
    }
    Some(acc as u16)
}

/// The one-character string slice holding the decimal digit for a value
/// below ten.
fn digit_str(n: u16) -> (r: &'static str)
    requires
        n < 10,
    ensures
        r@ == seq![spec_digit_char(n as int)],
{
    proof {
        reveal_strlit("0");
        reveal_strlit("1");
        reveal_strlit("2");
        reveal_strlit("3");
        reveal_strlit("4");
        reveal_strlit("5");
        reveal_strlit("6");
        reveal_strlit("7");
        reveal_strlit("8");
        reveal_strlit("9");
    }
    if n == 0 {
        "0"
    } else if n == 1 {
        "1"
    } else if n == 2 {
        "2"
    } else if n == 3 {
        "3"
    } else if n == 4 {
        "4"
    } else if n == 5 {
        "5"
    } else if n == 6 {
        "6"
    } else if n == 7 {
        "7"
    } else if n == 8 {
        "8"
    } else {
        "9"
    }
}

/// Appends to `out` the decimal numeral of `n`.
fn append_u16(out: &mut String, n: u16)
    ensures
        final(out)@ == old(out)@ + spec_dec_str(n as int),
    decreases n,
{
    if n < 10 {
        out.append(digit_str(n));
    } else {
        append_u16(out, n / 10);
        out.append(digit_str(n % 10));
        assert(out@ =~= old(out)@ + spec_dec_str(n as int));
    }
}

impl Config {
    /// Builds the configuration from the raw environment values of the
    /// host and port settings. An absent host falls back to `0.0.0.0`
    /// and an absent port to `9999`; a present port value must be a
    /// decimal port number, and is otherwise reported back as invalid.
    pub fn load(host: Option<String>, port: Option<String>) -> (r: Result<Config, ConfigError>)
        ensures
            match spec_resolved_port(port) {
                Some(v) => r matches Ok(c) && c.server.port == v && c.server.host@
                    == spec_resolved_host(host),
                None => r matches Err(ConfigError::InvalidPort { value }) && port matches Some(p)
                    && value@ == p@,
            },
    {
        let port_value: u16 = match port {
            None => 9999,
            Some(p) => match parse_u16(p.as_str()) {
                Some(v) => v,
                None => {
                    return Err(ConfigError::InvalidPort { value: p });
                },
            },
        };
        let host_value: String = match host {
            None => String::from_str("0.0.0.0"),
            Some(h) => h,
        };
        Ok(Config { server: ServerConfig { host: host_value, port: port_value } })
    }

    /// Renders the address the server binds: the host, a colon, and the
    /// port in decimal.
    pub fn bind_addr(&self) -> (r: String)
        ensures
            r@ == spec_bind_addr(self.server.host@, self.server.port),
    {
        proof {
            reveal_strlit(":");
        }
        let mut out = self.server.host.clone();
        out.append(":");
        append_u16(&mut out, self.server.port);
        proof {
            assert(out@ =~= spec_bind_addr(self.server.host@, self.server.port));
        }
        out
    }
}

/// Rendering a port and reading the numeral back returns the port: the
/// bind address names the configured port exactly.
pub proof fn lemma_port_round_trip(n: u16)
    ensures
        spec_parse_u16(spec_dec_str(n as int)) == Some(n),
    decreases n,
{
    if n < 10 {
        let one = seq![spec_digit_char(n as int)];
        assert(spec_dec_str(n as int) =~= one);
        assert(one.drop_last() =~= Seq::<char>::empty());
        assert(spec_dec_val(Seq::<char>::empty()) == 0);
        assert(one.last() == spec_digit_char(n as int));
        assert(spec_digit_val(spec_digit_char(n as int)) == n);
        assert(spec_dec_val(one) == n);
        assert(spec_all_digits(one));
    } else {
        lemma_port_round_trip(n / 10);
        let prefix = spec_dec_str((n / 10) as int);
        assert(spec_all_digits(prefix));
        lemma_dec_val_take(prefix, prefix.len() as int);
        let whole = spec_dec_str(n as int);
        assert(whole == prefix + seq![spec_digit_char(n as int % 10)]);
        assert(whole.drop_last() =~= prefix);
        assert(whole.last() == spec_digit_char(n as int % 10));
        assert(spec_dec_val(whole) == spec_dec_val(prefix) * 10 + spec_digit_val(
            spec_digit_char(n as int % 10),
        ));
        assert(spec_dec_val(whole) == n);
        assert forall|i: int| 0 <= i < whole.len() implies spec_is_digit(#[trigger] whole[i]) by {
            if i < prefix.len() {
                assert(whole[i] == prefix[i]);
            } else {
                assert(whole[i] == spec_digit_char(n as int % 10));
            }
        }
        assert(spec_all_digits(whole));
    }
}

} // verus!
