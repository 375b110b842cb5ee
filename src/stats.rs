//! Player and server statistics.
use vstd::prelude::*;

verus! {

/// Total player count and server count. The master server is not queried
/// yet: fixed figures stand in for its answer.
pub fn get_server_player_count() -> (r: Result<(i32, usize), String>)
    ensures
        r == Ok::<(i32, usize), String>((1337, 420)),
{
    Ok((1337, 420))
}

} // verus!
