//! Which file holds the profile, and which host it is read for. Both are
//! decided from what the caller found on the machine.

use vstd::prelude::*;
use crate::lines::texts;
use crate::profile::{LoadError, DEFAULT_HOST};

verus! {

/// The directory, below the user's configuration directory, that holds the
/// profile file.
pub const PROFILE_DIR_NAME: &'static str = "funixtools";

/// The name of the profile file.
pub const PROFILE_FILE_NAME: &'static str = "my.toml";

/// The path of the profile file, as its components from the outermost on.
///
/// A path that the caller gives is taken as it is, in one component. Without
/// one, the file is `my.toml` in the directory `funixtools` of the user's
/// configuration directory, and there is no path where the platform names no
/// such directory.
pub fn profile_path(path_override: Option<String>, config_dir: Option<String>) -> (out: Result<
    Vec<String>,
    LoadError,
>)
    ensures
        match (path_override, config_dir) {
            (Some(path), _) => out matches Ok(parts) && texts(parts@) == seq![path@],
            (None, Some(dir)) => out matches Ok(parts) && texts(parts@) == seq![
                dir@,
                PROFILE_DIR_NAME@,
                PROFILE_FILE_NAME@,
            ],
            (None, None) => out matches Err(LoadError::ConfigDirUnavailable),
        },
{
    let mut parts: Vec<String> = Vec::new();
    match path_override {
        Some(path) => {
            parts.push(path);
        },
        None => match config_dir {
            Some(dir) => {
                parts.push(dir);
                parts.push(PROFILE_DIR_NAME.to_owned());
                parts.push(PROFILE_FILE_NAME.to_owned());
            },
            None => {
                return Err(LoadError::ConfigDirUnavailable);
            },
        },
    }
    Ok(parts)
}

/// The host whose profile is loaded: the one that the caller names, else the
/// machine's own name, else `localhost`.
pub fn effective_host(machine: Option<String>, hostname: Option<String>) -> (out: String)
    ensures
        out@ == match (machine, hostname) {
            (Some(name), _) => name@,
            (None, Some(name)) => name@,
            (None, None) => DEFAULT_HOST@,
        },
{
    match machine {
        Some(name) => name,
        None => match hostname {
            Some(name) => name,
            None => DEFAULT_HOST.to_owned(),
        },
    }
}

} // verus!
