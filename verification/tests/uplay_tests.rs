//! Conversion of Ubisoft launcher games into steam shortcut records,
//! exercised against the real shortcut crate.

use shortcut_sync::uplay::{game_to_steam_shortcut, launch_uri, Game};
use steam_shortcuts_util::app_id_generator::calculate_app_id;

#[test]
fn launch_uri_embeds_the_id() {
    assert_eq!(launch_uri("1234"), "uplay://launch/1234");
    assert_eq!(launch_uri(""), "uplay://launch/");
}

#[test]
fn game_becomes_a_steam_shortcut() {
    let game = Game {
        name: "Some Game".to_string(),
        icon: "/icons/some.png".to_string(),
        id: "77".to_string(),
    };
    let s = game_to_steam_shortcut(&game);
    assert_eq!(s.app_name, "Some Game");
    assert_eq!(s.exe, "uplay://launch/77");
    assert_eq!(s.icon, "/icons/some.png");
    assert_eq!(s.order, "0");
    assert_eq!(s.start_dir, "");
    assert_eq!(s.shortcut_path, "");
    assert_eq!(s.launch_options, "");
    assert!(!s.is_hidden);
    assert!(s.tags.is_empty());
    // The app id is derived from the exe string and the name alone.
    assert_eq!(s.app_id, calculate_app_id("uplay://launch/77", "Some Game"));
    assert!(s.app_id >= 0x8000_0000);
}

#[test]
fn equal_games_get_equal_app_ids() {
    let a = Game {
        name: "N".to_string(),
        icon: "i1".to_string(),
        id: "5".to_string(),
    };
    let b = Game {
        name: "N".to_string(),
        icon: "i2".to_string(),
        id: "5".to_string(),
    };
    assert_eq!(game_to_steam_shortcut(&a).app_id, game_to_steam_shortcut(&b).app_id);
}
