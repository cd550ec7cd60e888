//! GOG discovery decisions on concrete inputs.

use shortcut_sync::gog::{
    fix_paths, gog_game_to_shortcut, install_locations, is_gog_info_file, GogConfig, GogErrors,
    GogGame, GogPlatform, GogSettings, GogTask,
};

fn settings(enabled: bool) -> GogSettings {
    GogSettings {
        enabled,
        location: None,
        wine_c_drive: None,
        create_symlinks: false,
    }
}

#[test]
fn platform_reports_its_settings() {
    let p = GogPlatform {
        settings: settings(true),
    };
    assert!(p.enabled());
    assert_eq!(p.name(), "Gog");
    assert!(!p.create_symlinks());
}

#[test]
fn install_locations_prefer_installation_paths() {
    let config = GogConfig {
        library_path: Some("/library".to_string()),
        installation_paths: Some(vec!["/a".to_string(), "/b".to_string()]),
    };
    assert_eq!(install_locations(config), vec!["/a", "/b"]);
}

#[test]
fn install_locations_fall_back_to_library_path() {
    let config = GogConfig {
        library_path: Some("/library".to_string()),
        installation_paths: None,
    };
    assert_eq!(install_locations(config), vec!["/library"]);

    let empty = GogConfig {
        library_path: None,
        installation_paths: None,
    };
    assert!(install_locations(empty).is_empty());
}

#[test]
fn info_file_names() {
    assert!(is_gog_info_file("goggame-123.info"));
    assert!(!is_gog_info_file("goggame-123.json"));
    assert!(!is_gog_info_file("other-123.info"));
    assert!(!is_gog_info_file(""));
}

#[test]
fn game_with_primary_task_becomes_shortcut() {
    let game = GogGame {
        name: "Game".to_string(),
        game_id: "g1".to_string(),
        play_tasks: vec![
            GogTask {
                is_primary: false,
                path: Some("other.exe".to_string()),
                working_dir: None,
            },
            GogTask {
                is_primary: true,
                path: Some("bin\\game.exe".to_string()),
                working_dir: Some("bin".to_string()),
            },
        ],
    };
    let s = gog_game_to_shortcut(&game, "/games/game").expect("primary task with path");
    assert_eq!(s.name, "Game");
    assert_eq!(s.game_id, "g1");
    assert_eq!(s.game_folder, "/games/game");
    assert_eq!(s.path, "/games/game/bin/game.exe");
    assert_eq!(s.working_dir, "/games/game/bin");
}

#[test]
fn game_without_primary_task_yields_nothing() {
    let game = GogGame {
        name: "Game".to_string(),
        game_id: "g2".to_string(),
        play_tasks: vec![GogTask {
            is_primary: false,
            path: Some("a.exe".to_string()),
            working_dir: None,
        }],
    };
    assert!(gog_game_to_shortcut(&game, "/f").is_none());

    let pathless = GogGame {
        name: "Game".to_string(),
        game_id: "g3".to_string(),
        play_tasks: vec![GogTask {
            is_primary: true,
            path: None,
            working_dir: None,
        }],
    };
    assert!(gog_game_to_shortcut(&pathless, "/f").is_none());
}

#[test]
fn game_without_working_dir_uses_the_folder() {
    let game = GogGame {
        name: "G".to_string(),
        game_id: "id".to_string(),
        play_tasks: vec![GogTask {
            is_primary: true,
            path: Some("run.exe".to_string()),
            working_dir: None,
        }],
    };
    let s = gog_game_to_shortcut(&game, "/games/g").unwrap();
    assert_eq!(s.working_dir, "/games/g");
    assert_eq!(s.path, "/games/g/run.exe");
}

#[test]
fn wine_paths_are_rewritten() {
    let paths = vec![
        "C:\\Games\\One".to_string(),
        "D:\\Elsewhere".to_string(),
        "C:\\Two".to_string(),
    ];
    let fixed = fix_paths("/home/user/wine_c", &paths);
    assert_eq!(
        fixed,
        vec!["/home/user/wine_c/Games/One", "/home/user/wine_c/Two"]
    );
}

#[test]
fn error_messages_name_the_path() {
    let e = GogErrors::PathNotFound {
        path: "/gog".to_string(),
    };
    assert_eq!(
        e.message(),
        "Gog path: /gog could not be found. Try to specify a different path for Gog."
    );
    let e = GogErrors::ConfigFileNotFound {
        path: "/gog/config.json".to_string(),
    };
    assert_eq!(e.message(), "Gog config file not found at path: /gog/config.json");
    let e = GogErrors::ConfigFileCouldNotBeRead {
        path: "/gog/config.json".to_string(),
        error: "bad json".to_string(),
    };
    assert_eq!(
        e.message(),
        "Gog config file at path: /gog/config.json could not be read bad json"
    );
}
