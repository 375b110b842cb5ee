//! Locating the game's Steam installation.
use vstd::prelude::*;
use crate::types::{GameInstall, InstallType};

verus! {

/// The game's application identifier on Steam.
pub const COD4_STEAM_ID: u32 = 7940;

#[verifier::external_type_specification]
#[verifier::external_body]
pub struct ExSteamDir(steamlocate::SteamDir);

/// The error that asks the user to give the location by hand.
pub open spec fn not_found_message() -> Seq<char> {
    "Could not auto-detect game install location! Please enter it manually."@
}

/// Relies on steamlocate's `SteamDir::locate`: the Steam installation of
/// this computer, if one is found. It depends on the file system, so
/// nothing is stated of it.
#[verifier::external_body]
fn locate_steam() -> Option<steamlocate::SteamDir> {
    steamlocate::SteamDir::locate()
}

/// Relies on steamlocate's `SteamDir::app`: the install directory of the
/// Steam application `app_id`, if any of Steam's libraries holds it, and
/// within it `None` where that path is not valid UTF-8. It depends on the
/// file system, so nothing is stated of it.
#[verifier::external_body]
fn steam_app_path(dir: &mut steamlocate::SteamDir, app_id: u32) -> Option<Option<String>> {
    dir.app(&app_id).map(|app| app.path.to_str().map(|p| p.to_string()))
}

/// The result of the lookup, given what Steam reported for the game: no
/// install, an install whose path is not valid UTF-8 (`Some(None)`), or an
/// install at a path.
pub fn install_from_steam_lookup(found: Option<Option<String>>) -> (r: Result<GameInstall, String>)
    ensures
        found matches Some(Some(p)) ==> r is Ok && r->Ok_0.game_path == p
            && r->Ok_0.install_type == InstallType::STEAM,
        !(found matches Some(Some(_))) ==> r is Err && r->Err_0@ == not_found_message(),
{
    match found {
        Some(Some(game_path)) => Ok(GameInstall { game_path, install_type: InstallType::STEAM }),
        _ => Err(
            String::from_str("Could not auto-detect game install location! Please enter it manually."),
        ),
    }
}

/// Attempts to find the game's install location in the local Steam
/// libraries.
pub fn find_game_install_location() -> (r: Result<GameInstall, String>)
    ensures
        r is Ok ==> r->Ok_0.install_type == InstallType::STEAM,
        r is Err ==> r->Err_0@ == not_found_message(),
{
    let found = match locate_steam() {
        Some(mut dir) => steam_app_path(&mut dir, COD4_STEAM_ID),
        None => None,
    };
    install_from_steam_lookup(found)
}

} // verus!
