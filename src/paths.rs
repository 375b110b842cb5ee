//! Validation of a candidate game directory.
use vstd::prelude::*;
use crate::text::contains;

verus! {

/// Where the game's executable lies inside an installation directory.
pub open spec fn expected_exe_path(game_path: Seq<char>) -> Seq<char> {
    game_path + "/iw3mp.exe"@
}

/// The message that rejects a directory.
pub open spec fn incorrect_path_message(game_path: Seq<char>) -> Seq<char> {
    "Incorrect game path \""@ + game_path + "\""@
}

/// Relies on std::path::Path::is_file: whether a regular file is at the
/// path. What it reports depends on the file system, so nothing is stated
/// of it.
#[verifier::external_body]
fn path_is_file(p: &str) -> bool {
    std::path::Path::new(p).is_file()
}

/// The path of the executable that marks `game_path` as a game installation.
pub fn game_exe_path(game_path: &str) -> (r: String)
    ensures
        r@ == expected_exe_path(game_path@),
{
    let mut out = String::from_str(game_path);
    out.append("/iw3mp.exe");
    out
}

/// The verdict on `game_install_path`, given whether its executable was found.
pub fn classify_game_path(game_install_path: &str, exe_present: bool) -> (r: Result<(), String>)
    ensures
        exe_present ==> r == Ok::<(), String>(()),
        !exe_present ==> r is Err && r->Err_0@ == incorrect_path_message(game_install_path@),
{
    if exe_present {
        Ok(())
    } else {
        let mut msg = String::from_str("Incorrect game path \"");
        msg.append(game_install_path);
        msg.append("\"");
        Err(msg)
    }
}

/// Checks whether the provided path is a game installation: whether
/// `<path>/iw3mp.exe` is a file.
pub fn check_is_valid_game_path(game_install_path: &str) -> (r: Result<(), String>)
    ensures
        r is Err ==> r->Err_0@ == incorrect_path_message(game_install_path@),
{
    let exe = game_exe_path(game_install_path);
    let present = path_is_file(exe.as_str());
    classify_game_path(game_install_path, present)
}

/// The answer of the validator as a boolean: whether the check accepted
/// the directory.
pub fn validation_verdict(check: &Result<(), String>) -> (r: bool)
    ensures
        r == check is Ok,
{
    check.is_ok()
}

/// Whether `game_path` holds a game installation; the reason of a rejection
/// is dropped.
pub fn verify_install_location(game_path: String) -> bool {
    let check = check_is_valid_game_path(game_path.as_str());
    validation_verdict(&check)
}

/// A rejected directory is named in the rejection.
pub proof fn lemma_rejection_names_directory(game_path: Seq<char>)
    ensures
        contains(incorrect_path_message(game_path), game_path),
{
    let m = incorrect_path_message(game_path);
    let i: int = "Incorrect game path \""@.len() as int;
    assert(m.subrange(i, i + game_path.len()) =~= game_path);
}

} // verus!
