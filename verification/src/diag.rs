//! Diagnostic and verbose-line texts.
//!
//! Every diagnostic line names the command, the offending path and the
//! underlying system error text; these builders pin that shape down.

use vstd::prelude::*;

verus! {

/// The diagnostic for an entry that cannot be examined.
pub fn cannot_access_message(prog: &str, path: &str, err: &str) -> (r: String)
    ensures
        r@ == prog@ + ": cannot access '"@ + path@ + "': "@ + err@,
{
    let mut m = String::from_str(prog);
    m.append(": cannot access '");
    m.append(path);
    m.append("': ");
    m.append(err);
    m
}

/// The diagnostic for a directory that cannot be enumerated.
pub fn cannot_read_dir_message(prog: &str, path: &str, err: &str) -> (r: String)
    ensures
        r@ == prog@ + ": cannot read directory '"@ + path@ + "': "@ + err@,
{
    let mut m = String::from_str(prog);
    m.append(": cannot read directory '");
    m.append(path);
    m.append("': ");
    m.append(err);
    m
}

/// The diagnostic for an entry that cannot be removed.
pub fn cannot_remove_message(prog: &str, path: &str, err: &str) -> (r: String)
    ensures
        r@ == prog@ + ": cannot remove '"@ + path@ + "': "@ + err@,
{
    let mut m = String::from_str(prog);
    m.append(": cannot remove '");
    m.append(path);
    m.append("': ");
    m.append(err);
    m
}

/// A diagnostic that already names its subject, prefixed with the
/// command name.
pub fn prefixed_message(prog: &str, err: &str) -> (r: String)
    ensures
        r@ == prog@ + ": "@ + err@,
{
    let mut m = String::from_str(prog);
    m.append(": ");
    m.append(err);
    m
}

/// The verbose line of one successful removal.
pub fn removed_message(is_dir: bool, path: &str) -> (r: String)
    ensures
        is_dir ==> r@ == "removed directory '"@ + path@ + "'"@,
        !is_dir ==> r@ == "removed '"@ + path@ + "'"@,
{
    let mut m = if is_dir {
        String::from_str("removed directory '")
    } else {
        String::from_str("removed '")
    };
    m.append(path);
    m.append("'");
    m
}

/// The policy error refusing to operate recursively on the root.
pub fn dangerous_recursive_message(path: &str) -> (r: String)
    ensures
        r@ == "it is dangerous to operate recursively on '"@ + path@ + "'"@,
{
    let mut m = String::from_str("it is dangerous to operate recursively on '");
    m.append(path);
    m.append("'");
    m
}

/// The policy error refusing to remove a dot-component path.
pub fn refusing_dot_message(path: &str) -> (r: String)
    ensures
        r@ == "refusing to remove '.' or '..' directory: skipping '"@ + path@ + "'"@,
{
    let mut m = String::from_str("refusing to remove '.' or '..' directory: skipping '");
    m.append(path);
    m.append("'");
    m
}

} // verus!
