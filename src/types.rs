use vstd::prelude::*;

verus! {

/// The distribution channel through which the base game was obtained.
#[derive(Clone, Copy, Debug, PartialEq, Eq, Structural)]
pub enum InstallType {
    STEAM,
    UNKNOWN,
}

/// A located or user-supplied game installation.
#[derive(Clone, Debug)]
pub struct GameInstall {
    pub game_path: String,
    pub install_type: InstallType,
}

/// A modification installed into the game.
#[derive(Clone, Debug)]
pub struct YACCMod {
    pub name: String,
    pub version: Option<String>,
    pub enabled: bool,
    pub directory: String,
}

/// One entry of the master server's server list.
#[derive(Clone, Copy, Debug)]
pub struct YACCServer {
    pub player_count: i32,
}

/// Stage of an installation in progress.
#[derive(Clone, Copy, Debug, PartialEq, Eq, Structural)]
pub enum InstallState {
    Downloading,
    Extracting,
    Done,
}

/// Snapshot of download or extraction progress.
#[derive(Clone, Copy, Debug)]
pub struct InstallProgress {
    pub current_downloaded: u64,
    pub total_size: u64,
    pub state: InstallState,
}

impl InstallType {
    /// The variant's name, as it is shown to the user.
    pub open spec fn spec_name(self) -> Seq<char> {
        match self {
            InstallType::STEAM => "STEAM"@,
            InstallType::UNKNOWN => "UNKNOWN"@,
        }
    }

    pub fn name(&self) -> (r: String)
        ensures
            r@ == self.spec_name(),
    {
        match self {
            InstallType::STEAM => String::from_str("STEAM"),
            InstallType::UNKNOWN => String::from_str("UNKNOWN"),
        }
    }
}

} // verus!
