//! Process-wide settings: the listening port, and the scheme, host name and
//! port that the advertised URLs are built from.

use vstd::prelude::*;

verus! {

/// Port used when none is configured.
pub const DEFAULT_PORT: u16 = 3000;

/// A setting that could not be read.
#[derive(Clone, Copy, Debug, PartialEq, Eq, Structural)]
pub enum SettingsError {
    /// The port is not a decimal number from 0 to 65535.
    InvalidPort,
}

pub open spec fn is_digit(c: char) -> bool {
    '0' <= c && c <= '9'
}

pub open spec fn digit_value(c: char) -> nat {
    (c as int - '0' as int) as nat
}

/// The number that a string of decimal digits writes.
pub open spec fn digits_value(s: Seq<char>) -> nat
    decreases s.len(),
{
    if s.len() == 0 {
        0
    } else {
        digits_value(s.drop_last()) * 10 + digit_value(s.last())
    }
}

/// The digits of an unsigned number, after an optional leading `+`.
pub open spec fn unsigned_digits(s: Seq<char>) -> Seq<char> {
    if s.len() > 0 && s[0] == '+' {
        s.drop_first()
    } else {
        s
    }
}

/// `s` writes a port number: an optional `+`, then one or more decimal
/// digits whose value fits in 16 bits.
pub open spec fn is_port_text(s: Seq<char>) -> bool {
    let d = unsigned_digits(s);
    &&& d.len() > 0
    &&& forall|i: int| 0 <= i < d.len() ==> is_digit(#[trigger] d[i])
    &&& digits_value(d) <= 65535
}

pub open spec fn port_value(s: Seq<char>) -> nat {
    digits_value(unsigned_digits(s))
}

proof fn lemma_digits_value_prefix(s: Seq<char>, j: int)
    requires
        0 <= j <= s.len(),
    ensures
        digits_value(s.subrange(0, j)) <= digits_value(s),
    decreases s.len(),
{
    if j < s.len() {
        lemma_digits_value_prefix(s.drop_last(), j);
        assert(s.drop_last().subrange(0, j) =~= s.subrange(0, j));
    } else {
        assert(s.subrange(0, j) =~= s);
    }
}

/// Reads a port number written in decimal, with an optional leading `+`.
pub fn parse_port(s: &str) -> (r: Result<u16, SettingsError>)
    ensures
        r is Ok <==> is_port_text(s@),
        r matches Ok(p) ==> p == port_value(s@),
        r matches Err(e) ==> e == SettingsError::InvalidPort,
{
    let n = s.unicode_len();
    let mut start: usize = 0;
    if n > 0 && s.get_char(0) == '+' {
        start = 1;
    }
    let ghost d = unsigned_digits(s@);
    assert(d =~= s@.subrange(start as int, n as int));
    if start == n {
        return Err(SettingsError::InvalidPort);
    }
    let mut value: u32 = 0;
    let mut i: usize = start;
    while i < n
        invariant
            start <= i <= n,
            n == s@.len(),
            start < n,
            d == s@.subrange(start as int, n as int),
            d == unsigned_digits(s@),
            value <= 65535,
            value == digits_value(d.subrange(0, i - start)),
            forall|k: int| 0 <= k < i - start ==> is_digit(#[trigger] d[k]),
        decreases n - i,
    {
        let c = s.get_char(i);
        assert(c == d[i - start]);
        if !('0' <= c && c <= '9') {
            assert(!is_digit(d[i - start]));
            return Err(SettingsError::InvalidPort);
        }
        let ghost before = d.subrange(0, i - start);
        value = value * 10 + (c as u32 - '0' as u32);
        assert(d.subrange(0, i + 1 - start).drop_last() =~= before);
        assert(d.subrange(0, i + 1 - start).last() == c);
        assert(value == digits_value(d.subrange(0, i + 1 - start)));
        if value > 65535 {
            proof {
                lemma_digits_value_prefix(d, i + 1 - start);
            }
            return Err(SettingsError::InvalidPort);
        }
        i = i + 1;
    }
    assert(d.subrange(0, n - start) =~= d);
    Ok(value as u16)
}

/// The port a setting asks for: the default where there is none.
pub open spec fn port_setting(port: Option<Seq<char>>) -> nat {
    match port {
        Some(s) => port_value(s),
        None => DEFAULT_PORT as nat,
    }
}

pub open spec fn port_setting_ok(port: Option<Seq<char>>) -> bool {
    match port {
        Some(s) => is_port_text(s),
        None => true,
    }
}

pub open spec fn view_text(port: Option<&str>) -> Option<Seq<char>> {
    match port {
        Some(s) => Some(s@),
        None => None,
    }
}

/// The port to listen on, from the setting where there is one.
pub fn listen_port(port: Option<&str>) -> (r: Result<u16, SettingsError>)
    ensures
        r is Ok <==> port_setting_ok(view_text(port)),
        r matches Ok(p) ==> p == port_setting(view_text(port)),
        r matches Err(e) ==> e == SettingsError::InvalidPort,
{
    match port {
        Some(s) => parse_port(s),
        None => Ok(DEFAULT_PORT),
    }
}

pub open spec fn digit_char(d: nat) -> char {
    seq!['0', '1', '2', '3', '4', '5', '6', '7', '8', '9'][d as int]
}

/// `n` written in decimal, without leading zeros.
pub open spec fn decimal_text(n: nat) -> Seq<char>
    decreases n,
{
    if n < 10 {
        seq![digit_char(n)]
    } else {
        decimal_text(n / 10) + seq![digit_char(n % 10)]
    }
}

fn digit_text(d: u16) -> (r: &'static str)
    requires
        d < 10,
    ensures
        r@ == seq![digit_char(d as nat)],
{
    match d {
        0 => { proof { reveal_strlit("0"); } "0" },
        1 => { proof { reveal_strlit("1"); } "1" },
        2 => { proof { reveal_strlit("2"); } "2" },
        3 => { proof { reveal_strlit("3"); } "3" },
        4 => { proof { reveal_strlit("4"); } "4" },
        5 => { proof { reveal_strlit("5"); } "5" },
        6 => { proof { reveal_strlit("6"); } "6" },
        7 => { proof { reveal_strlit("7"); } "7" },
        8 => { proof { reveal_strlit("8"); } "8" },
        _ => { proof { reveal_strlit("9"); } "9" },
    }
}

/// Appends `n` in decimal to `out`.
pub fn push_decimal(out: &mut String, n: u16)
    ensures
        final(out)@ == old(out)@ + decimal_text(n as nat),
    decreases n,
{
    if n >= 10 {
        push_decimal(out, n / 10);
    }
    out.append(digit_text(n % 10));
}

/// Where the service can be reached: a scheme, a host name and a port, the
/// port left out where it is the scheme's own.
pub struct AppInfo {
    pub protocol: String,
    pub hostname: String,
    pub port: Option<u16>,
}

/// Host name used when none is configured.
pub open spec fn default_hostname() -> Seq<char> {
    "localhost"@
}

/// The scheme for a port: HTTPS on 443, HTTP on any other.
pub open spec fn scheme_for(port: nat) -> Seq<char> {
    if port == 443 {
        "https"@
    } else {
        "http"@
    }
}

/// The port that URLs show: none on 80 and 443, the schemes' own ports.
pub open spec fn shown_port(port: nat) -> Option<u16> {
    if port == 80 || port == 443 {
        None
    } else {
        Some(port as u16)
    }
}

/// `scheme://host`, then `:port` where a port is shown.
pub open spec fn url_text(protocol: Seq<char>, hostname: Seq<char>, port: Option<u16>) -> Seq<char> {
    protocol + seq![':', '/', '/'] + hostname + match port {
        Some(p) => seq![':'] + decimal_text(p as nat),
        None => Seq::empty(),
    }
}

impl AppInfo {
    /// The base URL that this value describes.
    pub open spec fn url(&self) -> Seq<char> {
        url_text(self.protocol@, self.hostname@, self.port)
    }

    /// The settings for a configured port (default 3000) and host name
    /// (default `localhost`).
    pub fn from_settings(port: Option<&str>, hostname: Option<String>) -> (r: Result<
        AppInfo,
        SettingsError,
    >)
        ensures
            r is Ok <==> port_setting_ok(view_text(port)),
            r matches Err(e) ==> e == SettingsError::InvalidPort,
            r matches Ok(info) ==> {
                let p = port_setting(view_text(port));
                &&& info.protocol@ == scheme_for(p)
                &&& info.hostname@ == match hostname {
                    Some(h) => h@,
                    None => default_hostname(),
                }
                &&& info.port == shown_port(p)
            },
    {
        let port = match listen_port(port) {
            Ok(p) => p,
            Err(e) => return Err(e),
        };
        let protocol = if port == 443 {
            String::from_str("https")
        } else {
            String::from_str("http")
        };
        let hostname = match hostname {
            Some(h) => h,
            None => String::from_str("localhost"),
        };
        let port = if port == 80 || port == 443 {
            None
        } else {
            Some(port)
        };
        Ok(AppInfo { protocol, hostname, port })
    }

    /// The base URL: `scheme://host`, then `:port` where a port is shown.
    pub fn base_url(&self) -> (r: String)
        ensures
            r@ == self.url(),
    {
        let mut out = self.protocol.clone();
        out.append("://");
        proof {
            reveal_strlit("://");
        }
        out.append(self.hostname.as_str());
        match self.port {
            Some(p) => {
                out.append(":");
                proof {
                    reveal_strlit(":");
                }
                push_decimal(&mut out, p);
            },
            None => {},
        }
        assert(out@ =~= self.url());
        out
    }
}

} // verus!
