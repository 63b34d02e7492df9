//! The rules of the template store: how a stored template's file is named, and
//! which file a template name stands for.

use vstd::prelude::*;
use crate::error::{concat3, concat5, AppError};
use crate::text::{chars_of, push_str, string_of, trim, trimmed};

verus! {

/// The file name of the stored template `name`: the name with the extension
/// `tpl`.
pub open spec fn template_file(name: Seq<char>) -> Seq<char> {
    name + ".tpl"@
}

/// The message for a template that is neither a local file nor stored.
pub open spec fn not_found_message(name: Seq<char>, dir: Seq<char>) -> Seq<char> {
    "Template '"@ + name + "' not found locally or in the global template directory ("@ + dir
        + ")."@
}

/// The file that a template name stands for: the local file of that name if
/// there is one, else the stored template of that name if there is one.
pub open spec fn resolved(
    name: Seq<char>,
    local_exists: bool,
    global_path: Seq<char>,
    global_exists: bool,
    dir: Seq<char>,
) -> Result<Seq<char>, Seq<char>> {
    if local_exists {
        Ok(name)
    } else if global_exists {
        Ok(global_path)
    } else {
        Err(not_found_message(name, dir))
    }
}

/// The file name of a stored template.
pub fn get_template_path(name: &str) -> (file: String)
    ensures
        file@ == template_file(name@),
{
    let mut out = chars_of(name);
    push_str(&mut out, ".tpl");
    string_of(out.as_slice())
}

/// Resolves a template name to a file, from what the file system says: whether
/// a local file of that name exists, where the stored template of that name
/// lies, whether it exists, and where the store lies.
pub fn resolve_template_path(
    name: &str,
    local_exists: bool,
    global_path: &str,
    global_exists: bool,
    dir: &str,
) -> (r: Result<String, AppError>)
    ensures
        match r {
            Ok(path) => resolved(name@, local_exists, global_path@, global_exists, dir@) == Ok::<
                Seq<char>,
                Seq<char>,
            >(path@),
            Err(e) => e is InvalidArgument && resolved(
                name@,
                local_exists,
                global_path@,
                global_exists,
                dir@,
            ) == Err::<Seq<char>, Seq<char>>(e->InvalidArgument_0@),
        },
{
    if local_exists {
        Ok(name.to_owned())
    } else if global_exists {
        Ok(global_path.to_owned())
    } else {
        let n = chars_of(name);
        let d = chars_of(dir);
        Err(
            AppError::InvalidArgument(
                concat5(
                    "Template '",
                    n.as_slice(),
                    "' not found locally or in the global template directory (",
                    d.as_slice(),
                    ").",
                ),
            ),
        )
    }
}

/// The message for a new template whose name is taken.
pub open spec fn exists_message(name: Seq<char>) -> Seq<char> {
    "Template '"@ + name + "' already exists. Use 'runtpl template edit "@ + name
        + "' to edit it."@
}

/// The message for a template to edit that is not stored.
pub open spec fn edit_missing_message(name: Seq<char>) -> Seq<char> {
    "Template '"@ + name + "' not found. Use 'runtpl template new "@ + name + "' to create it."@
}

/// The message for a template to remove that is not stored.
pub open spec fn remove_missing_message(name: Seq<char>) -> Seq<char> {
    "Template '"@ + name + "' not found. Use 'runtpl template list' to see available templates."@
}

/// Whether an answer confirms a removal: it is `y` or `Y`, white space at its
/// ends aside.
pub open spec fn confirms(answer: Seq<char>) -> bool {
    trimmed(answer) == seq!['y'] || trimmed(answer) == seq!['Y']
}

/// Whether a new template may be created: no template of the name is stored.
pub fn new_template(name: &str, exists: bool) -> (r: Result<(), AppError>)
    ensures
        r is Ok == !exists,
        r matches Err(e) ==> e == AppError::InvalidArgument(e->InvalidArgument_0)
            && e->InvalidArgument_0@ == exists_message(name@),
{
    if exists {
        let n = chars_of(name);
        Err(
            AppError::InvalidArgument(
                concat5(
                    "Template '",
                    n.as_slice(),
                    "' already exists. Use 'runtpl template edit ",
                    n.as_slice(),
                    "' to edit it.",
                ),
            ),
        )
    } else {
        Ok(())
    }
}

/// Whether a new template is kept after the editor closed: an empty one is
/// discarded.
pub fn keeps_new_template(length: u64) -> (keep: bool)
    ensures
        keep == (length != 0),
{
    length != 0
}

/// Whether a template may be edited: a template of the name is stored.
pub fn edit_template(name: &str, exists: bool) -> (r: Result<(), AppError>)
    ensures
        r is Ok == exists,
        r matches Err(e) ==> e == AppError::InvalidArgument(e->InvalidArgument_0)
            && e->InvalidArgument_0@ == edit_missing_message(name@),
{
    if exists {
        Ok(())
    } else {
        let n = chars_of(name);
        Err(
            AppError::InvalidArgument(
                concat5(
                    "Template '",
                    n.as_slice(),
                    "' not found. Use 'runtpl template new ",
                    n.as_slice(),
                    "' to create it.",
                ),
            ),
        )
    }
}

/// Whether a template may be removed: a template of the name is stored.
pub fn remove_template(name: &str, exists: bool) -> (r: Result<(), AppError>)
    ensures
        r is Ok == exists,
        r matches Err(e) ==> e == AppError::InvalidArgument(e->InvalidArgument_0)
            && e->InvalidArgument_0@ == remove_missing_message(name@),
{
    if exists {
        Ok(())
    } else {
        let n = chars_of(name);
        Err(
            AppError::InvalidArgument(
                concat3(
                    "Template '",
                    n.as_slice(),
                    "' not found. Use 'runtpl template list' to see available templates.",
                ),
            ),
        )
    }
}

/// Tests whether an answer confirms a removal.
pub fn confirmed(answer: &str) -> (r: bool)
    ensures
        r == confirms(answer@),
{
    let chars = chars_of(answer);
    let t = trim(chars.as_slice());
    if t.len() == 1 {
        let c = t[0];
        proof {
            if c == 'y' {
                assert(t@ =~= seq!['y']);
            }
            if c == 'Y' {
                assert(t@ =~= seq!['Y']);
            }
            if c != 'y' {
                assert(t@[0] != seq!['y'][0]);
            }
            if c != 'Y' {
                assert(t@[0] != seq!['Y'][0]);
            }
        }
        c == 'y' || c == 'Y'
    } else {
        assert(seq!['y'].len() == 1 && seq!['Y'].len() == 1);
        false
    }
}

} // verus!
