//! Addresses of migration connections.
use vstd::prelude::*;

use crate::text::{
    all_digits, dec_value, find_char, index_of, is_digit, lemma_index_of, lemma_index_of_char, lemma_rindex_of,
    rfind_char, rindex_of, slice_chars, string_from, string_of, unsigned_digits,
};
use crate::values::u16_value;

verus! {

/// The largest number of parallel connections a migration may use.
pub const MAX_MIGRATION_CONNECTIONS: u32 = 128;

/// Why a `<host>:<port>` address is malformed.
#[derive(Clone, Copy, Debug, PartialEq, Eq, Structural)]
pub enum TcpAddressParseError {
    /// No `:<port>` follows the host.
    MissingPort,
    /// A bracketed host (`[..]`) is not followed by `:`.
    MissingPortSeparatorAfterBracketedHost,
    /// A `[` opens the host and no `]` closes it.
    MissingClosingBracket,
    /// The host is empty.
    EmptyHost,
    /// The port is not a number in `0..=65535`.
    InvalidPort,
}

impl TcpAddressParseError {
    /// The message of the error, as it is displayed.
    pub fn message(&self) -> (r: String)
        ensures
            r@ == tcp_error_message(*self),
    {
        match self {
            TcpAddressParseError::MissingPort => string_from("Missing TCP port"),
            TcpAddressParseError::MissingPortSeparatorAfterBracketedHost => {
                string_from("Missing port separator after bracketed host")
            },
            TcpAddressParseError::MissingClosingBracket => {
                string_from("Missing closing bracket of the host")
            },
            TcpAddressParseError::EmptyHost => string_from("Missing TCP host"),
            TcpAddressParseError::InvalidPort => string_from("Invalid TCP port"),
        }
    }
}

pub open spec fn tcp_error_message(e: TcpAddressParseError) -> Seq<char> {
    match e {
        TcpAddressParseError::MissingPort => "Missing TCP port"@,
        TcpAddressParseError::MissingPortSeparatorAfterBracketedHost => "Missing port separator after bracketed host"@,
        TcpAddressParseError::MissingClosingBracket => "Missing closing bracket of the host"@,
        TcpAddressParseError::EmptyHost => "Missing TCP host"@,
        TcpAddressParseError::InvalidPort => "Invalid TCP port"@,
    }
}

/// Host and port of `a`: a bracketed host `[h]:p`, or `h:p` split at the last `:`.
pub open spec fn split_host_port(a: Seq<char>) -> Result<(Seq<char>, Seq<char>), TcpAddressParseError> {
    if a.len() > 0 && a[0] == '[' {
        match index_of(a, ']') {
            None => Err(TcpAddressParseError::MissingClosingBracket),
            Some(i) => {
                let rest = a.subrange(i + 1, a.len() as int);
                if rest.len() == 0 || rest[0] != ':' {
                    Err(TcpAddressParseError::MissingPortSeparatorAfterBracketedHost)
                } else {
                    Ok((a.subrange(1, i), rest.subrange(1, rest.len() as int)))
                }
            },
        }
    } else {
        match rindex_of(a, ':') {
            None => Err(TcpAddressParseError::MissingPort),
            Some(i) => Ok((a.subrange(0, i), a.subrange(i + 1, a.len() as int))),
        }
    }
}

/// The server name (the host) of the address `a`, or why `a` is malformed.
pub open spec fn tcp_server_name(a: Seq<char>) -> Result<Seq<char>, TcpAddressParseError> {
    match split_host_port(a) {
        Err(e) => Err(e),
        Ok((host, port)) => if port.len() == 0 {
            Err(TcpAddressParseError::MissingPort)
        } else if host.len() == 0 {
            Err(TcpAddressParseError::EmptyHost)
        } else if u16_value(port) is None {
            Err(TcpAddressParseError::InvalidPort)
        } else {
            Ok(host)
        },
    }
}

proof fn lemma_port_value(p: Seq<char>)
    requires
        p.len() > 0,
        all_digits(p),
        dec_value(p) <= 65535,
    ensures
        u16_value(p) is Some,
        forall|j: int| 0 <= j < p.len() ==> p[j] != ':',
{
    assert(is_digit(p[0]));
    assert(unsigned_digits(p) == p);
    assert forall|j: int| 0 <= j < p.len() implies p[j] != ':' by {
        assert(is_digit(p[j]));
    }
}

/// An address `<host>:<port>`, with a host that does not start with `[` and
/// a port that is a 16-bit number, names that host; so does
/// `[<host>]:<port>` with a host without `]`.
pub proof fn lemma_tcp_server_names(h: Seq<char>, p: Seq<char>)
    requires
        h.len() > 0,
        p.len() > 0,
        all_digits(p),
        dec_value(p) <= 65535,
    ensures
        h[0] != '[' ==> tcp_server_name(h + ":"@ + p) == Ok::<Seq<char>, TcpAddressParseError>(h),
        (forall|j: int| 0 <= j < h.len() ==> h[j] != ']') ==> tcp_server_name("["@ + h + "]:"@ + p)
            == Ok::<Seq<char>, TcpAddressParseError>(h),
{
    reveal_strlit(":");
    reveal_strlit("[");
    reveal_strlit("]:");
    lemma_port_value(p);
    if h[0] != '[' {
        let a = h + ":"@ + p;
        let k = h.len() as int;
        assert(a[k] == ':');
        assert(a[0] == h[0]);
        lemma_rindex_of(a, ':');
        match rindex_of(a, ':') {
            Some(i) => {
                if i > k {
                    assert(a[i] == p[i - k - 1]);
                } else if i < k {
                    assert(a[k] != ':');
                }
            },
            None => {},
        }
        assert(a.subrange(0, k) =~= h);
        assert(a.subrange(k + 1, a.len() as int) =~= p);
    }
    if forall|j: int| 0 <= j < h.len() ==> h[j] != ']' {
        let a = "["@ + h + "]:"@ + p;
        let k = h.len() as int + 1;
        assert(a[0] == '[');
        assert(a[k] == ']');
        assert forall|j: int| 0 <= j < k implies a[j] != ']' by {
            if j > 0 {
                assert(a[j] == h[j - 1]);
            }
        }
        lemma_index_of_char(a, ']', k);
        let rest = a.subrange(k + 1, a.len() as int);
        assert(rest[0] == ':');
        assert(a.subrange(1, k) =~= h);
        assert(rest.subrange(1, rest.len() as int) =~= p);
    }
}

/// The host of a `<host>:<port>` address, without the brackets of an IPv6 host.
pub fn tcp_address_to_server_name(address: &str) -> (r: Result<String, TcpAddressParseError>)
    ensures
        match r {
            Ok(h) => tcp_server_name(address@) == Ok::<Seq<char>, TcpAddressParseError>(h@),
            Err(e) => tcp_server_name(address@) == Err::<Seq<char>, TcpAddressParseError>(e),
        },
{
    let a = crate::text::chars_of(address);
    let n = a.len();
    let host;
    let port;
    if n > 0 && a[0] == '[' {
        match find_char(&a, ']') {
            None => return Err(TcpAddressParseError::MissingClosingBracket),
            Some(i) => {
                proof {
                    lemma_index_of(a@, ']');
                }
                let rest = slice_chars(&a, i + 1, n);
                if rest.len() == 0 || rest[0] != ':' {
                    return Err(TcpAddressParseError::MissingPortSeparatorAfterBracketedHost);
                }
                host = slice_chars(&a, 1, i);
                port = slice_chars(&rest, 1, rest.len());
            },
        }
    } else {
        match rfind_char(&a, ':') {
            None => return Err(TcpAddressParseError::MissingPort),
            Some(i) => {
                host = slice_chars(&a, 0, i);
                port = slice_chars(&a, i + 1, n);
            },
        }
    }
    assert(split_host_port(address@) == Ok::<(Seq<char>, Seq<char>), TcpAddressParseError>((host@, port@)));
    if port.len() == 0 {
        return Err(TcpAddressParseError::MissingPort);
    }
    if host.len() == 0 {
        return Err(TcpAddressParseError::EmptyHost);
    }
    if crate::text::parse_u16(&port).is_none() {
        return Err(TcpAddressParseError::InvalidPort);
    }
    Ok(string_of(&host))
}

} // verus!
