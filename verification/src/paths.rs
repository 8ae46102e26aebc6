//! Paths as texts: the directories of the user, joining, and the last part
//! of a path.

use crate::config::option_text;
use crate::text::{join, join3, owned};
use vstd::prelude::*;
use vstd::string::StrSliceExecFns;

verus! {

/// The last part of a path as `std::path::Path::file_name` gives it: the
/// name of the file or directory that the path ends in, or nothing where it
/// ends in `..` or is the root.
pub uninterp spec fn path_file_name(path: Seq<char>) -> Option<Seq<char>>;

/// `std::path::Path::file_name`: the last part of the path, if it has one.
#[verifier::external_body]
fn path_last_part(path: &str) -> (r: Option<String>)
    ensures
        option_text(r) == path_file_name(path@),
{
    match std::path::Path::new(path).file_name() {
        Some(name) => Some(name.to_string_lossy().into_owned()),
        None => None,
    }
}

/// The last part of the path, if it has one.
pub fn file_name_part(path: &str) -> (r: Option<String>)
    ensures
        option_text(r) == path_file_name(path@),
{
    path_last_part(path)
}

/// The name by which an image is shown to a user: the last part of its
/// path, or the whole path where it has none.
pub open spec fn shown_name(path: Seq<char>) -> Seq<char> {
    match path_file_name(path) {
        Some(name) => name,
        None => path,
    }
}

/// The name by which an image is shown to a user: the last part of its
/// path, or the whole path where it has none.
pub fn file_name(path: &str) -> (r: String)
    ensures
        r@ == shown_name(path@),
{
    match path_last_part(path) {
        Some(name) => name,
        None => owned(path),
    }
}

/// `dirs::runtime_dir`: the user's directory for sockets and the like, if
/// the environment names one. Nothing is known of it.
#[verifier::external_body]
fn user_runtime_dir() -> (r: Option<String>) {
    match dirs::runtime_dir() {
        Some(p) => Some(p.to_string_lossy().into_owned()),
        None => None,
    }
}

/// `dirs::state_dir`: the user's directory for state that is kept between
/// sessions, if the environment names one. Nothing is known of it.
#[verifier::external_body]
fn user_state_dir() -> (r: Option<String>) {
    match dirs::state_dir() {
        Some(p) => Some(p.to_string_lossy().into_owned()),
        None => None,
    }
}

/// `dirs::config_dir`: the user's directory for configuration, if the
/// environment names one. Nothing is known of it.
#[verifier::external_body]
fn user_config_dir() -> (r: Option<String>) {
    match dirs::config_dir() {
        Some(p) => Some(p.to_string_lossy().into_owned()),
        None => None,
    }
}

/// A relative name under a directory: the two with a slash between them,
/// unless the directory is empty or ends in a slash already.
pub open spec fn joined(base: Seq<char>, name: Seq<char>) -> Seq<char> {
    if base.len() > 0 && base.last() != '/' {
        base + "/"@ + name
    } else {
        base + name
    }
}

/// A relative name under a directory.
pub fn join_path(base: &str, name: &str) -> (r: String)
    ensures
        r@ == joined(base@, name@),
{
    let n = base.unicode_len();
    if n > 0 && base.get_char(n - 1) != '/' {
        join3(base, "/", name)
    } else {
        join(base, name)
    }
}

/// The directory `dir`, or `/tmp` where there is none.
pub open spec fn or_tmp(dir: Option<Seq<char>>) -> Seq<char> {
    match dir {
        Some(d) => d,
        None => "/tmp"@,
    }
}

/// The path of the control socket under the runtime directory `dir`.
pub open spec fn socket_path_text(dir: Option<Seq<char>>) -> Seq<char> {
    joined(or_tmp(dir), "swwws.sock"@)
}

/// The path of the snapshot file under the state directory `dir`.
pub open spec fn state_file_text(dir: Option<Seq<char>>) -> Seq<char> {
    joined(joined(or_tmp(dir), "swwws"@), "state.json"@)
}

/// The path of the configuration file under the configuration directory.
pub open spec fn config_file_text(dir: Seq<char>) -> Seq<char> {
    joined(joined(dir, "swwws"@), "config.toml"@)
}

/// The path of the control socket under the runtime directory `dir`, or
/// under `/tmp` where there is none.
pub fn socket_path_in(dir: Option<String>) -> (r: String)
    ensures
        r@ == socket_path_text(option_text(dir)),
{
    let base = match dir {
        Some(d) => d,
        None => owned("/tmp"),
    };
    join_path(base.as_str(), "swwws.sock")
}

/// The path of the snapshot file under the state directory `dir`, or under
/// `/tmp` where there is none.
pub fn state_file_in(dir: Option<String>) -> (r: String)
    ensures
        r@ == state_file_text(option_text(dir)),
{
    let base = match dir {
        Some(d) => d,
        None => owned("/tmp"),
    };
    let home = join_path(base.as_str(), "swwws");
    join_path(home.as_str(), "state.json")
}

/// The path of the configuration file under the configuration directory
/// `dir`.
pub fn config_file_in(dir: &str) -> (r: String)
    ensures
        r@ == config_file_text(dir@),
{
    let home = join_path(dir, "swwws");
    join_path(home.as_str(), "config.toml")
}

/// The path of the control socket of this user.
pub fn socket_path() -> (r: String)
    ensures
        exists|dir: Option<Seq<char>>| r@ == #[trigger] socket_path_text(dir),
{
    let dir = user_runtime_dir();
    assert(socket_path_text(option_text(dir)) == socket_path_text(option_text(dir)));
    socket_path_in(dir)
}

/// The path of the snapshot file of this user.
pub fn get_state_file() -> (r: String)
    ensures
        exists|dir: Option<Seq<char>>| r@ == #[trigger] state_file_text(dir),
{
    let dir = user_state_dir();
    assert(state_file_text(option_text(dir)) == state_file_text(option_text(dir)));
    state_file_in(dir)
}

/// The path of the configuration file of this user, if the environment
/// names a directory for configuration.
pub fn config_path() -> (r: Option<String>)
    ensures
        r matches Some(p) ==> exists|dir: Seq<char>| p@ == #[trigger] config_file_text(dir),
{
    let dir = user_config_dir();
    let ghost named = option_text(dir);
    proof {
        if named is Some {
            assert(config_file_text(named->0) == config_file_text(named->0));
        }
    }
    config_path_in(dir)
}

/// The path of the configuration file under the configuration directory
/// `dir`; none where there is no such directory.
pub fn config_path_in(dir: Option<String>) -> (r: Option<String>)
    ensures
        option_text(r) == match dir {
            Some(d) => Some(config_file_text(d@)),
            None => None,
        },
{
    match dir {
        Some(d) => Some(config_file_in(d.as_str())),
        None => None,
    }
}

} // verus!
