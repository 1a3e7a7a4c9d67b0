//! The files a TLS-secured migration needs in its certificate directory.
use vstd::prelude::*;

use crate::text::{chars_of, concat_chars, concat_str, string_from, string_of};

verus! {

/// Which side of a migration connection a TLS directory serves.
#[derive(Clone, Copy, Debug, PartialEq, Eq, Structural)]
pub enum TlsEndpoint {
    Client,
    Server,
}

/// What is wrong with a TLS directory.
#[derive(Clone, Debug, PartialEq, Eq)]
pub enum TlsDirError {
    /// The path (the field) is not a directory.
    NotADirectory(String),
    /// A required file (the field, its full path) is missing.
    MissingFile(String),
}

pub enum TlsDirErrorSpec {
    NotADirectory(Seq<char>),
    MissingFile(Seq<char>),
}

impl View for TlsDirError {
    type V = TlsDirErrorSpec;

    open spec fn view(&self) -> TlsDirErrorSpec {
        match self {
            TlsDirError::NotADirectory(p) => TlsDirErrorSpec::NotADirectory(p@),
            TlsDirError::MissingFile(p) => TlsDirErrorSpec::MissingFile(p@),
        }
    }
}

pub open spec fn tls_message(e: TlsDirErrorSpec) -> Seq<char> {
    match e {
        TlsDirErrorSpec::NotADirectory(p) => "not a directory: "@ + p,
        TlsDirErrorSpec::MissingFile(p) => "missing file: "@ + p,
    }
}

impl TlsDirError {
    /// The message of the error, as it is displayed.
    pub fn message(&self) -> (r: String)
        ensures
            r@ == tls_message(self@),
    {
        match self {
            TlsDirError::NotADirectory(p) => concat_str("not a directory: ", p.as_str()),
            TlsDirError::MissingFile(p) => concat_str("missing file: ", p.as_str()),
        }
    }
}

/// The files of a TLS directory: the root CA certificate, then the
/// certificate and the key of the endpoint.
pub open spec fn tls_file_names(endpoint: TlsEndpoint) -> Seq<Seq<char>> {
    match endpoint {
        TlsEndpoint::Client => seq!["ca-cert.pem"@, "client-cert.pem"@, "client-key.pem"@],
        TlsEndpoint::Server => seq!["ca-cert.pem"@, "server-cert.pem"@, "server-key.pem"@],
    }
}

/// The path of `name` inside the directory `dir`.
pub open spec fn join_path(dir: Seq<char>, name: Seq<char>) -> Seq<char> {
    if dir.len() > 0 && dir.last() == '/' {
        dir + name
    } else {
        dir + seq!['/'] + name
    }
}

fn join(dir: &Vec<char>, name: &str) -> (r: String)
    ensures
        r@ == join_path(dir@, name@),
{
    let mut v = dir.clone();
    if !(v.len() > 0 && v[v.len() - 1] == '/') {
        v.push('/');
    }
    let n = chars_of(name);
    crate::text::append_chars(&mut v, &n);
    string_of(&v)
}

/// `std::path::Path::is_dir`: whether `path` names a directory. What is on
/// disk decides; nothing is stated of the result.
#[verifier::external_body]
pub(crate) fn path_is_dir(path: &str) -> bool {
    std::path::Path::new(path).is_dir()
}

/// `std::path::Path::is_file`: whether `path` names a regular file. What is on
/// disk decides; nothing is stated of the result.
#[verifier::external_body]
fn path_is_file(path: &str) -> bool {
    std::path::Path::new(path).is_file()
}

/// What a check of the directory `dir` can report, whatever is on disk: that
/// it is fine, that `dir` is no directory, or that one of its files is missing.
pub open spec fn tls_outcome(dir: Seq<char>, endpoint: TlsEndpoint, r: Result<(), TlsDirErrorSpec>) -> bool {
    match r {
        Ok(()) => true,
        Err(TlsDirErrorSpec::NotADirectory(p)) => p == dir,
        Err(TlsDirErrorSpec::MissingFile(p)) => exists|i: int|
            0 <= i < 3 && p == #[trigger] join_path(dir, tls_file_names(endpoint)[i]),
    }
}

pub open spec fn tls_rview(r: Result<(), TlsDirError>) -> Result<(), TlsDirErrorSpec> {
    match r {
        Ok(()) => Ok(()),
        Err(e) => Err(e@),
    }
}

/// The verdict on the TLS directory `dir` of `endpoint`, given whether it is
/// a directory and, for each of its three files in order, whether it is
/// there: the first thing missing is reported.
pub open spec fn tls_verdict(dir: Seq<char>, endpoint: TlsEndpoint, is_dir: bool, present: Seq<bool>) -> Result<(), TlsDirErrorSpec> {
    let names = tls_file_names(endpoint);
    if !is_dir {
        Err(TlsDirErrorSpec::NotADirectory(dir))
    } else if !present[0] {
        Err(TlsDirErrorSpec::MissingFile(join_path(dir, names[0])))
    } else if !present[1] {
        Err(TlsDirErrorSpec::MissingFile(join_path(dir, names[1])))
    } else if !present[2] {
        Err(TlsDirErrorSpec::MissingFile(join_path(dir, names[2])))
    } else {
        Ok(())
    }
}

/// `r` is the verdict on `dir` for some answers that the checks on disk can
/// give.
pub open spec fn tls_dir_outcome(dir: Seq<char>, endpoint: TlsEndpoint, r: Result<(), TlsDirErrorSpec>) -> bool {
    exists|is_dir: bool, present: Seq<bool>| present.len() == 3 && r == #[trigger] tls_verdict(dir, endpoint, is_dir, present)
}

fn file_of(endpoint: TlsEndpoint, i: usize) -> (r: &'static str)
    requires
        i < 3,
    ensures
        r@ == tls_file_names(endpoint)[i as int],
{
    proof {
        reveal_strlit("ca-cert.pem");
        reveal_strlit("client-cert.pem");
        reveal_strlit("client-key.pem");
        reveal_strlit("server-cert.pem");
        reveal_strlit("server-key.pem");
    }
    if i == 0 {
        "ca-cert.pem"
    } else {
        match endpoint {
            TlsEndpoint::Client => if i == 1 { "client-cert.pem" } else { "client-key.pem" },
            TlsEndpoint::Server => if i == 1 { "server-cert.pem" } else { "server-key.pem" },
        }
    }
}

/// The verdict on the TLS directory `dir` of `endpoint`, given whether it is
/// a directory and whether each of its three files is there.
pub fn tls_dir_verdict(dir: &str, endpoint: TlsEndpoint, is_dir: bool, present: [bool; 3]) -> (r: Result<(), TlsDirError>)
    ensures
        tls_rview(r) == tls_verdict(dir@, endpoint, is_dir, present@),
{
    if !is_dir {
        return Err(TlsDirError::NotADirectory(string_from(dir)));
    }
    let d = chars_of(dir);
    let mut i: usize = 0;
    while i < 3
        invariant
            i <= 3,
            d@ == dir@,
            is_dir,
            forall|k: int| 0 <= k < i ==> present@[k],
        decreases 3 - i,
    {
        if !present[i] {
            let missing = join(&d, file_of(endpoint, i));
            proof {
                if i == 1 {
                    assert(present@[0]);
                } else if i == 2 {
                    assert(present@[0] && present@[1]);
                }
            }
            return Err(TlsDirError::MissingFile(missing));
        }
        i = i + 1;
    }
    Ok(())
}

/// Checks that `dir` is a directory holding the root CA certificate and the
/// certificate and key of `endpoint`. What is on disk decides; the result
/// is the verdict for the answers of the checks.
pub fn validate_tls_dir(dir: &str, endpoint: TlsEndpoint) -> (r: Result<(), TlsDirError>)
    ensures
        tls_dir_outcome(dir@, endpoint, tls_rview(r)),
        tls_outcome(dir@, endpoint, tls_rview(r)),
{
    let is_dir = path_is_dir(dir);
    let d = chars_of(dir);
    let mut present = [true, true, true];
    if is_dir {
        let mut i: usize = 0;
        while i < 3
            invariant
                i <= 3,
                present@.len() == 3,
            decreases 3 - i,
        {
            let file = join(&d, file_of(endpoint, i));
            if !path_is_file(file.as_str()) {
                present.set(i, false);
                break;
            }
            i = i + 1;
        }
    }
    let r = tls_dir_verdict(dir, endpoint, is_dir, present);
    proof {
        assert(present@.len() == 3);
        assert(tls_dir_outcome(dir@, endpoint, tls_rview(r)));
        let names = tls_file_names(endpoint);
        if let Err(TlsDirErrorSpec::MissingFile(p)) = tls_rview(r) {
            if !present@[0] {
                assert(p == join_path(dir@, names[0]));
            } else if !present@[1] {
                assert(p == join_path(dir@, names[1]));
            } else {
                assert(p == join_path(dir@, names[2]));
            }
        }
    }
    r
}

} // verus!
