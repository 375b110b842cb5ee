//! Whether the game is running.
use vstd::prelude::*;
use sysinfo::{ProcessExt, SystemExt};

verus! {

/// The name of a process that counts as the game running: the modified
/// launcher binary or the game's own one.
pub open spec fn is_game_process_name(name: Seq<char>) -> bool {
    name == "yacc.exe"@ || name == "iw3mp.exe"@
}

#[verifier::external_type_specification]
#[verifier::external_body]
pub struct ExSystem(sysinfo::System);

/// Relies on sysinfo's `SystemExt::new_all`: a snapshot of this host's
/// state, process table included. It is read afresh at each call, so
/// nothing is stated of it.
#[verifier::external_body]
fn system_snapshot() -> sysinfo::System {
    sysinfo::System::new_all()
}

/// Relies on sysinfo's `SystemExt::processes` and `ProcessExt::name`: the
/// names of the processes in the snapshot, in no particular order.
#[verifier::external_body]
fn process_names(system: &sysinfo::System) -> Vec<String> {
    system.processes().values().map(|p| p.name().to_string()).collect()
}

/// Whether a process table with these names holds the game.
pub fn game_process_present(names: &Vec<String>) -> (r: bool)
    ensures
        r == exists|i: int| 0 <= i < names@.len() && is_game_process_name(#[trigger] names@[i]@),
{
    let yacc = String::from_str("yacc.exe");
    let iw3mp = String::from_str("iw3mp.exe");
    let mut i: usize = 0;
    while i < names.len()
        invariant
            i <= names@.len(),
            yacc@ == "yacc.exe"@,
            iw3mp@ == "iw3mp.exe"@,
            forall|k: int| 0 <= k < i ==> !is_game_process_name(#[trigger] names@[k]@),
        decreases names@.len() - i,
    {
        if names[i] == yacc || names[i] == iw3mp {
            assert(is_game_process_name(names@[i as int]@));
            return true;
        }
        i = i + 1;
    }
    false
}

/// Checks whether the game is currently running on this host.
pub fn check_yacc_running() -> bool {
    let system = system_snapshot();
    let names = process_names(&system);
    game_process_present(&names)
}

} // verus!
