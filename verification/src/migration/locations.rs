//! Where snapshots and core dumps are read and written, and the VM's part of a
//! snapshot.
use vstd::prelude::*;

use crate::migration::tls::path_is_dir;
use crate::text::{chars_of, concat_chars, concat_str, string_of, strip_prefix, strip_prefix_str};

verus! {

/// The file of a snapshot that holds the VM's state.
pub const SNAPSHOT_STATE_FILE: &'static str = "state.json";

/// The file of a snapshot that holds the VM's configuration.
pub const SNAPSHOT_CONFIG_FILE: &'static str = "config.json";

/// Errors of migrations, snapshots and restores, with their messages.
#[derive(Clone, Debug, PartialEq, Eq)]
pub enum MigratableError {
    MigrateSend(String),
    MigrateReceive(String),
    Restore(String),
}

pub enum MigratableErrorSpec {
    MigrateSend(Seq<char>),
    MigrateReceive(Seq<char>),
    Restore(Seq<char>),
}

impl View for MigratableError {
    type V = MigratableErrorSpec;

    open spec fn view(&self) -> MigratableErrorSpec {
        match self {
            MigratableError::MigrateSend(m) => MigratableErrorSpec::MigrateSend(m@),
            MigratableError::MigrateReceive(m) => MigratableErrorSpec::MigrateReceive(m@),
            MigratableError::Restore(m) => MigratableErrorSpec::Restore(m@),
        }
    }
}

/// Errors of guest debugging, with their messages.
#[derive(Clone, Debug, PartialEq, Eq)]
pub enum GuestDebuggableError {
    Coredump(String),
}

/// The path that a `file://` URL names.
pub open spec fn url_path(url: Seq<char>) -> Option<Seq<char>> {
    strip_prefix(url, "file://"@)
}

/// How `Debug` formatting writes the path `path`: in double quotes, with
/// quotes, backslashes and characters that do not print escaped.
pub uninterp spec fn path_debug(path: Seq<char>) -> Seq<char>;

/// `<std::path::Path as Debug>::fmt`: the path as `{:?}` writes it; the
/// result is what [`path_debug`] names.
#[verifier::external_body]
fn debug_path(path: &str) -> (r: String)
    ensures
        r@ == path_debug(path@),
{
    format!("{:?}", std::path::Path::new(path))
}

/// The error for a destination that is not a directory, given the path as
/// `Debug` formatting writes it.
pub fn not_a_directory(quoted_path: &str) -> (e: MigratableError)
    ensures
        e@ == MigratableErrorSpec::MigrateSend("Destination is not a directory: "@ + quoted_path@),
{
    MigratableError::MigrateSend(concat_str("Destination is not a directory: ", quoted_path))
}

/// The verdict on the directory `path`, given whether it is a directory.
pub open spec fn dir_verdict_spec(path: Seq<char>, is_dir: bool) -> Result<Seq<char>, MigratableErrorSpec> {
    if is_dir {
        Ok(path)
    } else {
        Err(MigratableErrorSpec::MigrateSend("Destination is not a directory: "@ + path_debug(path)))
    }
}

pub open spec fn dir_rview(r: Result<String, MigratableError>) -> Result<Seq<char>, MigratableErrorSpec> {
    match r {
        Ok(x) => Ok(x@),
        Err(e) => Err(e@),
    }
}

/// `r` is the verdict on the directory `path` for one of the answers that
/// the directory check can give.
pub open spec fn dir_outcome(path: Seq<char>, r: Result<Seq<char>, MigratableErrorSpec>) -> bool {
    exists|is_dir: bool| r == #[trigger] dir_verdict_spec(path, is_dir)
}

/// The directory `path` when `is_dir` says that it is one; the
/// not-a-directory error otherwise.
pub fn dir_verdict(path: String, is_dir: bool) -> (r: Result<String, MigratableError>)
    ensures
        dir_rview(r) == dir_verdict_spec(path@, is_dir),
{
    if is_dir {
        Ok(path)
    } else {
        let quoted = debug_path(path.as_str());
        Err(not_a_directory(quoted.as_str()))
    }
}

/// The directory that the `file://` URL `url` names, when it is a directory.
/// Whether it is one, what is on disk decides: the function states that a
/// non-`file://` URL is refused, and that otherwise the result is the
/// verdict on the path for the answer of the directory check.
pub fn url_to_path(url: &str) -> (r: Result<String, MigratableError>)
    ensures
        match url_path(url@) {
            None => r matches Err(e) && e@ == MigratableErrorSpec::MigrateSend(
                "Could not extract path from URL: "@ + url@,
            ),
            Some(p) => dir_outcome(p, dir_rview(r)),
        },
{
    let u = chars_of(url);
    let path = match strip_prefix_str(&u, "file://") {
        Some(p) => string_of(&p),
        None => return Err(MigratableError::MigrateSend(concat_str("Could not extract path from URL: ", url))),
    };
    let is_dir = path_is_dir(path.as_str());
    let ghost p = path@;
    assert(url_path(url@) == Some(p));
    let r = dir_verdict(path, is_dir);
    assert(dir_rview(r) == dir_verdict_spec(p, is_dir));
    assert(dir_outcome(p, dir_rview(r)));
    r
}

/// The file that the `file://` URL `url` names.
pub fn url_to_file(url: &str) -> (r: Result<String, GuestDebuggableError>)
    ensures
        match url_path(url@) {
            Some(p) => r matches Ok(x) && x@ == p,
            None => r matches Err(GuestDebuggableError::Coredump(m)) && m@
                == "Could not extract file from URL: "@ + url@,
        },
{
    let u = chars_of(url);
    match strip_prefix_str(&u, "file://") {
        Some(p) => Ok(string_of(&p)),
        None => Err(GuestDebuggableError::Coredump(concat_str("Could not extract file from URL: ", url))),
    }
}

/// The serialized state of one component of a snapshot.
#[derive(Clone, Debug, PartialEq, Eq)]
pub struct SnapshotData {
    pub state: String,
}

/// A snapshot of a component: its id and, when it has one, its state.
#[derive(Clone, Debug, PartialEq, Eq)]
pub struct Snapshot {
    pub id: String,
    pub snapshot_data: Option<SnapshotData>,
}

/// The serialized state of the VM in `snapshot`, when the snapshot has one.
pub fn get_vm_snapshot(snapshot: &Snapshot) -> (r: Result<String, MigratableError>)
    ensures
        match snapshot.snapshot_data {
            Some(d) => r matches Ok(s) && s@ == d.state@,
            None => r matches Err(e) && e@ == MigratableErrorSpec::Restore(
                "Could not find VM config snapshot section"@,
            ),
        },
{
    if let Some(snapshot_data) = &snapshot.snapshot_data {
        return Ok(snapshot_data.state.clone());
    }
    Err(MigratableError::Restore(crate::text::string_from("Could not find VM config snapshot section")))
}

} // verus!
