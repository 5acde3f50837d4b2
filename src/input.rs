use crate::errors::InputError;
use vstd::prelude::*;

verus! {

/// Where the lines of one argument come from.
pub enum InputSource {
    /// Standard input, named by `-`.
    Stdin,
    /// The file at this path.
    File(String),
}

/// Whether `arg` is the `-` that names standard input.
pub open spec fn is_stdin_arg(arg: Seq<char>) -> bool {
    arg == seq!['-']
}

/// Relies on std's `Path::exists`: whether a file system entry is at `path`.
/// Nothing is stated of the answer, which depends on the file system.
#[verifier::external_body]
fn path_exists(path: &str) -> bool {
    std::path::Path::new(path).exists()
}

/// The path `path_str` if `exists` says an entry is there, else the error
/// that names it.
pub fn checked_path(path_str: String, exists: bool) -> (r: Result<String, InputError>)
    ensures
        exists ==> r == Ok::<String, InputError>(path_str),
        !exists ==> r == Err::<String, InputError>(InputError::NotFound(path_str)),
{
    if exists {
        Ok(path_str)
    } else {
        Err(InputError::NotFound(path_str))
    }
}

/// Checks on the file system that `path_str` names an existing entry, and
/// returns it as a path if so.
pub fn validate_file_path(path_str: String) -> (r: Result<String, InputError>)
    ensures
        r == Ok::<String, InputError>(path_str) || r == Err::<String, InputError>(
            InputError::NotFound(path_str),
        ),
{
    let exists = path_exists(path_str.as_str());
    checked_path(path_str, exists)
}

/// Decides what `arg` names, given whether an entry exists at that path:
/// `-` is standard input whatever the file system holds.
pub fn resolve_input(arg: String, exists: bool) -> (r: Result<InputSource, InputError>)
    ensures
        is_stdin_arg(arg@) ==> r == Ok::<InputSource, InputError>(InputSource::Stdin),
        !is_stdin_arg(arg@) && exists ==> r == Ok::<InputSource, InputError>(
            InputSource::File(arg),
        ),
        !is_stdin_arg(arg@) && !exists ==> r == Err::<InputSource, InputError>(
            InputError::NotFound(arg),
        ),
{
    if is_dash(&arg) {
        Ok(InputSource::Stdin)
    } else {
        match checked_path(arg, exists) {
            Ok(p) => Ok(InputSource::File(p)),
            Err(e) => Err(e),
        }
    }
}

/// Decides what `arg` names, looking on the file system only when it is not `-`.
pub fn resolve_arg(arg: String) -> (r: Result<InputSource, InputError>)
    ensures
        is_stdin_arg(arg@) ==> r == Ok::<InputSource, InputError>(InputSource::Stdin),
        !is_stdin_arg(arg@) ==> r == Ok::<InputSource, InputError>(InputSource::File(arg))
            || r == Err::<InputSource, InputError>(InputError::NotFound(arg)),
{
    if is_dash(&arg) {
        Ok(InputSource::Stdin)
    } else {
        let exists = path_exists(arg.as_str());
        resolve_input(arg, exists)
    }
}

fn is_dash(arg: &String) -> (r: bool)
    ensures
        r == is_stdin_arg(arg@),
{
    let s = arg.as_str();
    if s.unicode_len() != 1 {
        return false;
    }
    let c = s.get_char(0);
    assert(c == '-' ==> s@ =~= seq!['-']);
    c == '-'
}

} // verus!
