//! The decision whether and how to launch the game.
use vstd::prelude::*;
use crate::text::contains;
use crate::types::{GameInstall, InstallType};

verus! {

/// What the launch does once accepted: enter `working_dir`, then start
/// `executable` without waiting for it to exit.
pub struct LaunchPlan {
    pub working_dir: String,
    pub executable: String,
}

/// Why a launch does not happen.
pub enum LaunchError {
    /// The host system and install type are not supported together.
    Unsupported { host_os: String, install_type: InstallType },
    /// The installation directory could not be entered.
    DirectoryUnavailable,
    /// The executable could not be started.
    SpawnFailed,
}

/// Whether a launch is supported on `host_os` for an install of type `t`.
pub open spec fn launch_supported(host_os: Seq<char>, t: InstallType) -> bool {
    host_os == "windows"@ && t == InstallType::STEAM
}

/// The executable started inside an installation directory.
pub open spec fn launch_exe_path(game_path: Seq<char>) -> Seq<char> {
    game_path + "/YACC.exe"@
}

/// The message that refuses a launch on `host_os` for an install of type `t`.
pub open spec fn unsupported_message(host_os: Seq<char>, t: InstallType) -> Seq<char> {
    "Not yet implemented for \""@ + host_os + "\" with COD4 installed via \""@ + t.spec_name()
        + "\""@
}

impl LaunchError {
    pub open spec fn spec_message(&self) -> Seq<char> {
        match self {
            LaunchError::Unsupported { host_os, install_type } => unsupported_message(
                host_os@,
                *install_type,
            ),
            LaunchError::DirectoryUnavailable => "Couldn't access COD4 directory"@,
            LaunchError::SpawnFailed => "Couldn't start the game"@,
        }
    }

    /// The text shown to the user.
    pub fn message(&self) -> (r: String)
        ensures
            r@ == self.spec_message(),
    {
        match self {
            LaunchError::Unsupported { host_os, install_type } => {
                let mut m = String::from_str("Not yet implemented for \"");
                m.append(host_os.as_str());
                m.append("\" with COD4 installed via \"");
                let name = install_type.name();
                m.append(name.as_str());
                m.append("\"");
                m
            },
            LaunchError::DirectoryUnavailable => String::from_str("Couldn't access COD4 directory"),
            LaunchError::SpawnFailed => String::from_str("Couldn't start the game"),
        }
    }
}

/// Decides whether `game_install` can be launched on `host_os` and, if so,
/// how. Only Steam installs on Windows are supported.
pub fn plan_launch(host_os: &str, game_install: &GameInstall) -> (r: Result<LaunchPlan, LaunchError>)
    ensures
        r is Ok <==> launch_supported(host_os@, game_install.install_type),
        r is Ok ==> r->Ok_0.working_dir@ == game_install.game_path@
            && r->Ok_0.executable@ == launch_exe_path(game_install.game_path@),
        r is Err ==> r->Err_0.spec_message() == unsupported_message(
            host_os@,
            game_install.install_type,
        ),
{
    let windows = String::from_str("windows");
    let os = String::from_str(host_os);
    if os != windows || game_install.install_type != InstallType::STEAM {
        return Err(LaunchError::Unsupported { host_os: os, install_type: game_install.install_type });
    }
    let mut exe = game_install.game_path.clone();
    exe.append("/YACC.exe");
    Ok(LaunchPlan { working_dir: game_install.game_path.clone(), executable: exe })
}

/// The message of a launch that went through.
pub open spec fn launched_message() -> Seq<char> {
    "Launched game"@
}

/// The result of an accepted launch, given whether the installation
/// directory was entered and, after that, whether the game was started.
pub fn launch_outcome(dir_entered: bool, spawned: bool) -> (r: Result<String, LaunchError>)
    ensures
        !dir_entered ==> r matches Err(LaunchError::DirectoryUnavailable),
        dir_entered && !spawned ==> r matches Err(LaunchError::SpawnFailed),
        dir_entered && spawned ==> r is Ok && r->Ok_0@ == launched_message(),
{
    if !dir_entered {
        Err(LaunchError::DirectoryUnavailable)
    } else if !spawned {
        Err(LaunchError::SpawnFailed)
    } else {
        Ok(String::from_str("Launched game"))
    }
}

/// A refused launch names both the host system and the install type.
pub proof fn lemma_unsupported_message_names_both(host_os: Seq<char>, t: InstallType)
    ensures
        contains(unsupported_message(host_os, t), host_os),
        contains(unsupported_message(host_os, t), t.spec_name()),
{
    let m = unsupported_message(host_os, t);
    let a = "Not yet implemented for \""@;
    let b = "\" with COD4 installed via \""@;
    let i: int = a.len() as int;
    assert(m.subrange(i, i + host_os.len()) =~= host_os);
    let j: int = i + host_os.len() + b.len();
    assert(m.subrange(j, j + t.spec_name().len()) =~= t.spec_name());
}

} // verus!
