//! Checks of the command line and of the Immich directory, made on facts
//! that the caller has gathered.

use vstd::prelude::*;

use crate::report::{message0, message1, message_is, Message};

verus! {

/// The `--combined` and `--monitor` modes exclude each other: when both are
/// asked for, the three messages that explain the conflict, in the order in
/// which they are printed before the program stops.
pub fn validate_args(combined: bool, monitor: bool) -> (r: Result<(), Vec<Message>>)
    ensures
        !(combined && monitor) ==> r is Ok,
        combined && monitor ==> (r matches Err(ms) && ms@.len() == 3 && message_is(
            ms@[0],
            "error.incompatible_flags"@,
            seq![],
        ) && message_is(ms@[1], "error.combined_monitor_conflict"@, seq![]) && message_is(
            ms@[2],
            "error.use_combined_or_monitor"@,
            seq![],
        )),
{
    if combined && monitor {
        let mut ms: Vec<Message> = Vec::new();
        ms.push(message0("error.incompatible_flags"));
        ms.push(message0("error.combined_monitor_conflict"));
        ms.push(message0("error.use_combined_or_monitor"));
        return Err(ms);
    }
    Ok(())
}

/// The Immich directory must exist and be a directory; otherwise the message
/// that says which, for the path as displayed.
pub fn validate_immich_directory(path_display: &str, exists: bool, is_dir: bool) -> (r: Result<
    (),
    Message,
>)
    ensures
        !exists ==> (r matches Err(m) && message_is(
            m,
            "error.directory_not_found"@,
            seq![("path"@, path_display@)],
        )),
        exists && !is_dir ==> (r matches Err(m) && message_is(
            m,
            "error.not_a_directory"@,
            seq![("path"@, path_display@)],
        )),
        exists && is_dir ==> r is Ok,
{
    if !exists {
        return Err(message1("error.directory_not_found", "path", path_display.to_owned()));
    }
    if !is_dir {
        return Err(message1("error.not_a_directory", "path", path_display.to_owned()));
    }
    Ok(())
}

} // verus!
