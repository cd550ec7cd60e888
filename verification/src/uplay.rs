//! Ubisoft launcher games and their conversion to steam shortcut records.
//!
//! A discovered game is launched through its uplay URI; the shortcut record
//! itself is built by the `steam_shortcuts_util` crate, which also derives
//! the 32-bit app id from the executable string and the name.

use vstd::prelude::*;
use vstd::string::*;
use steam_shortcuts_util::shortcut::ShortcutOwned;

verus! {

/// A game found in a Ubisoft launcher installation.
pub struct Game {
    pub name: String,
    pub icon: String,
    pub id: String,
}

/// The uplay launch URI for a game id.
pub open spec fn launch_uri_spec(id: Seq<char>) -> Seq<char> {
    "uplay://launch/"@ + id
}

/// Builds the uplay launch URI for a game id.
pub fn launch_uri(id: &str) -> (r: String)
    ensures
        r@ == launch_uri_spec(id@),
{
    let mut s = String::from_str("uplay://launch/");
    s.append(id);
    s
}

/// Declares `steam_shortcuts_util`'s owned shortcut record, so that its
/// public fields can appear in contracts.
#[verifier::external_type_specification]
pub struct ExShortcutOwned(ShortcutOwned);

/// The 32-bit app id that `steam_shortcuts_util` derives from an exe string
/// and a name (a checksum of their concatenation, with the top bit set).
pub uninterp spec fn app_id_of(exe: Seq<char>, app_name: Seq<char>) -> u32;

/// Relies on `steam_shortcuts_util`'s `Shortcut::new` (and its `to_owned`
/// conversion): the given fields are stored as passed, the app id is derived
/// from exe and name alone, and the remaining fields take the crate's
/// documented defaults.
#[verifier::external_body]
fn new_shortcut_owned(
    order: &str,
    app_name: &str,
    exe: &str,
    start_dir: &str,
    icon: &str,
    shortcut_path: &str,
    launch_options: &str,
) -> (r: ShortcutOwned)
    ensures
        r.order@ == order@,
        r.app_id == app_id_of(exe@, app_name@),
        r.app_name@ == app_name@,
        r.exe@ == exe@,
        r.start_dir@ == start_dir@,
        r.icon@ == icon@,
        r.shortcut_path@ == shortcut_path@,
        r.launch_options@ == launch_options@,
        !r.is_hidden,
        r.allow_desktop_config,
        r.allow_overlay,
        r.open_vr == 0,
        r.dev_kit == 0,
        r.dev_kit_game_id@.len() == 0,
        r.dev_kit_overrite_app_id == 0,
        r.last_play_time == 0,
        r.tags@.len() == 0,
        r.app_id >= 0x80000000u32,
{
    steam_shortcuts_util::shortcut::Shortcut::new(
        order,
        app_name,
        exe,
        start_dir,
        icon,
        shortcut_path,
        launch_options,
    ).to_owned()
}

/// The steam shortcut record for a Ubisoft game: named after the game,
/// launched through its uplay URI, showing the game's icon, everything
/// else defaulted.
pub fn game_to_steam_shortcut(game: &Game) -> (r: ShortcutOwned)
    ensures
        r.app_name@ == game.name@,
        r.exe@ == launch_uri_spec(game.id@),
        r.icon@ == game.icon@,
        r.app_id == app_id_of(launch_uri_spec(game.id@), game.name@),
        r.order@ == "0"@,
        r.start_dir@ == ""@,
        r.shortcut_path@ == ""@,
        r.launch_options@ == ""@,
        r.app_id >= 0x80000000u32,
{
    let launch = launch_uri(game.id.as_str());
    new_shortcut_owned(
        "0",
        game.name.as_str(),
        launch.as_str(),
        "",
        game.icon.as_str(),
        "",
        "",
    )
}

} // verus!
