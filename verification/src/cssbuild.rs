use vstd::prelude::*;

use crate::text::owned;

verus! {

/// One component of a file-system path, as the platform splits it.
#[derive(Clone, Debug, PartialEq, Eq)]
pub enum PathPart {
    Prefix,
    RootDir,
    CurDir,
    ParentDir,
    Normal(String),
}

/// An output name is acceptable when it is one plain file name: exactly one
/// component, and a normal one.
pub open spec fn is_plain_file_name(parts: Seq<PathPart>) -> bool {
    parts.len() == 1 && parts[0] is Normal
}

/// Why a stylesheet build refuses its paths, if it does.
pub open spec fn build_path_refusal(parts: Seq<PathPart>, compiler_is_absolute: bool) -> Option<
    Seq<char>,
> {
    if !is_plain_file_name(parts) {
        Some("output must be a file name without directory components"@)
    } else if !compiler_is_absolute {
        Some("LYNX_CSSC must be an absolute path"@)
    } else {
        None
    }
}

/// Checks the paths of a stylesheet build before anything is read or
/// written: the output must be a plain file name (so that it stays inside
/// the output directory), and the compiler must be named by an absolute
/// path.
pub fn check_build_paths(output_parts: &Vec<PathPart>, compiler_is_absolute: bool) -> (r: Result<
    (),
    String,
>)
    ensures
        match build_path_refusal(output_parts@, compiler_is_absolute) {
            None => r is Ok,
            Some(m) => r matches Err(e) && e@ == m,
        },
{
    let plain = output_parts.len() == 1 && matches!(output_parts[0], PathPart::Normal(_));
    if !plain {
        return Err(owned("output must be a file name without directory components"));
    }
    if !compiler_is_absolute {
        return Err(owned("LYNX_CSSC must be an absolute path"));
    }
    Ok(())
}

/// The compiler's fragment counts only if it is a file with content.
pub fn fragment_is_fresh(is_file: bool, length: u64) -> (r: bool)
    ensures
        r == (is_file && length > 0),
{
    is_file && length > 0
}

} // verus!
