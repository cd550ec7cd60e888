//! GOG discovery: the decisions of the GOG platform collaborator.
//!
//! Scanning directories and reading configuration files is I/O and lives in
//! the application; the rules applied to what was read — which install
//! locations count, which files describe a game, how a parsed game record
//! becomes a shortcut, and how wine paths are rewritten — are verified here
//! on plain values.

use vstd::prelude::*;
use vstd::string::*;
use crate::text::{
    drop_prefix,
    has_prefix,
    has_suffix,
    is_prefix,
    is_suffix,
    join_path,
    join_path_spec,
    replace_backslashes,
    slashed,
};

verus! {

/// Settings of the GOG platform.
pub struct GogSettings {
    pub enabled: bool,
    pub location: Option<String>,
    pub wine_c_drive: Option<String>,
    pub create_symlinks: bool,
}

/// The GOG platform: discovery of installed GOG games.
pub struct GogPlatform {
    pub settings: GogSettings,
}

impl GogPlatform {
    /// Whether the platform takes part in a sync.
    pub fn enabled(&self) -> (b: bool)
        ensures
            b == self.settings.enabled,
    {
        self.settings.enabled
    }

    /// The platform's display name.
    pub fn name(&self) -> (r: &'static str)
        ensures
            r@ == "Gog"@,
    {
        "Gog"
    }

    /// Whether shortcut icons should be symlinked.
    pub fn create_symlinks(&self) -> (b: bool)
        ensures
            b == self.settings.create_symlinks,
    {
        self.settings.create_symlinks
    }
}

/// What can go wrong while discovering GOG games.
pub enum GogErrors {
    /// The GOG installation folder does not exist.
    PathNotFound { path: String },
    /// The installation folder exists but holds no configuration file.
    ConfigFileNotFound { path: String },
    /// The configuration file could not be read or parsed.
    ConfigFileCouldNotBeRead { path: String, error: String },
}

/// The wording of each discovery error.
pub open spec fn gog_error_message(e: GogErrors) -> Seq<char> {
    match e {
        GogErrors::PathNotFound { path } => "Gog path: "@ + path@
            + " could not be found. Try to specify a different path for Gog."@,
        GogErrors::ConfigFileNotFound { path } => "Gog config file not found at path: "@ + path@,
        GogErrors::ConfigFileCouldNotBeRead { path, error } => "Gog config file at path: "@ + path@
            + " could not be read "@ + error@,
    }
}

impl GogErrors {
    /// A human-readable description of the error.
    pub fn message(&self) -> (r: String)
        ensures
            r@ == gog_error_message(*self),
    {
        match self {
            GogErrors::PathNotFound { path } => {
                let mut s = String::from_str("Gog path: ");
                s.append(path.as_str());
                s.append(" could not be found. Try to specify a different path for Gog.");
                s
            },
            GogErrors::ConfigFileNotFound { path } => {
                let mut s = String::from_str("Gog config file not found at path: ");
                s.append(path.as_str());
                s
            },
            GogErrors::ConfigFileCouldNotBeRead { path, error } => {
                let mut s = String::from_str("Gog config file at path: ");
                s.append(path.as_str());
                s.append(" could not be read ");
                s.append(error.as_str());
                s
            },
        }
    }
}

/// The launcher's configuration, as far as discovery reads it.
pub struct GogConfig {
    pub library_path: Option<String>,
    pub installation_paths: Option<Vec<String>>,
}

/// Where installed games are looked for: the configured installation paths
/// if present, else the single library path, else nowhere.
pub open spec fn spec_install_locations(
    installation_paths: Option<Seq<Seq<char>>>,
    library_path: Option<Seq<char>>,
) -> Seq<Seq<char>> {
    match installation_paths {
        Some(v) => v,
        None => match library_path {
            Some(p) => seq![p],
            None => Seq::empty(),
        },
    }
}

/// Decides the install locations from a parsed configuration.
pub fn install_locations(config: GogConfig) -> (r: Vec<String>)
    ensures
        r.deep_view() == spec_install_locations(
            config.installation_paths.deep_view(),
            config.library_path.deep_view(),
        ),
{
    match config.installation_paths {
        Some(v) => v,
        None => match config.library_path {
            Some(p) => {
                let mut r: Vec<String> = Vec::new();
                let ghost pv = p@;
                r.push(p);
                proof {
                    assert(r.deep_view() =~= seq![pv]);
                }
                r
            },
            None => {
                let r: Vec<String> = Vec::new();
                proof {
                    assert(r.deep_view() =~= Seq::<Seq<char>>::empty());
                }
                r
            },
        },
    }
}

/// Whether a directory entry's file name describes a GOG game: it starts
/// with the game-info prefix and carries the info extension.  (The prefix
/// guarantees a non-empty stem, so the suffix test coincides with the
/// file's extension being `info`.)
pub fn is_gog_info_file(name: &str) -> (b: bool)
    ensures
        b == (is_prefix(name@, "goggame-"@) && is_suffix(name@, ".info"@)),
{
    has_prefix(name, "goggame-") && has_suffix(name, ".info")
}

/// One launch task of a parsed GOG game record.
pub struct GogTask {
    pub is_primary: bool,
    pub path: Option<String>,
    pub working_dir: Option<String>,
}

/// The mathematical content of a [`GogTask`].
pub struct GogTaskModel {
    pub is_primary: bool,
    pub path: Option<Seq<char>>,
    pub working_dir: Option<Seq<char>>,
}

impl View for GogTask {
    type V = GogTaskModel;

    open spec fn view(&self) -> GogTaskModel {
        GogTaskModel {
            is_primary: self.is_primary,
            path: self.path.deep_view(),
            working_dir: self.working_dir.deep_view(),
        }
    }
}

impl DeepView for GogTask {
    type V = GogTaskModel;

    open spec fn deep_view(&self) -> GogTaskModel {
        self.view()
    }
}

/// A parsed GOG game record, as far as discovery reads it.
pub struct GogGame {
    pub name: String,
    pub game_id: String,
    pub play_tasks: Vec<GogTask>,
}

/// A discovered GOG game, ready to become a launcher shortcut.
pub struct GogShortcut {
    pub name: String,
    pub game_folder: String,
    pub working_dir: String,
    pub game_id: String,
    pub path: String,
}

/// The mathematical content of a [`GogShortcut`].
pub struct GogShortcutModel {
    pub name: Seq<char>,
    pub game_folder: Seq<char>,
    pub working_dir: Seq<char>,
    pub game_id: Seq<char>,
    pub path: Seq<char>,
}

impl View for GogShortcut {
    type V = GogShortcutModel;

    open spec fn view(&self) -> GogShortcutModel {
        GogShortcutModel {
            name: self.name@,
            game_folder: self.game_folder@,
            working_dir: self.working_dir@,
            game_id: self.game_id@,
            path: self.path@,
        }
    }
}

impl DeepView for GogShortcut {
    type V = GogShortcutModel;

    open spec fn deep_view(&self) -> GogShortcutModel {
        self.view()
    }
}

/// The index of the first primary task, if any.
pub open spec fn spec_first_primary(tasks: Seq<GogTaskModel>) -> Option<int>
    decreases tasks.len(),
{
    if tasks.len() == 0 {
        None
    } else if tasks[0].is_primary {
        Some(0int)
    } else {
        match spec_first_primary(tasks.drop_first()) {
            Some(i) => Some(i + 1),
            None => None,
        }
    }
}

/// Scanning past a non-primary prefix shifts the found index.
proof fn lemma_first_primary_skip(tasks: Seq<GogTaskModel>, k: int)
    requires
        0 <= k <= tasks.len(),
        forall|j: int| 0 <= j < k ==> !(#[trigger] tasks[j]).is_primary,
    ensures
        spec_first_primary(tasks) == match spec_first_primary(tasks.skip(k)) {
            Some(i) => Some(i + k),
            None => None::<int>,
        },
    decreases k,
{
    if k > 0 {
        assert(tasks.drop_first() =~= tasks.skip(1));
        assert forall|j: int| 0 <= j < k - 1 implies !(#[trigger] tasks.drop_first()[j]).is_primary
        by {
            assert(tasks.drop_first()[j] == tasks[j + 1]);
        }
        lemma_first_primary_skip(tasks.drop_first(), k - 1);
        assert(tasks.drop_first().skip(k - 1) =~= tasks.skip(k));
    } else {
        assert(tasks.skip(0) =~= tasks);
    }
}

/// What a game record yields: a shortcut exactly when its first primary
/// task exists and names a path.  The executable is that path joined onto
/// the game folder; the working directory is the task's own, joined
/// likewise, or else the game folder; both are normalized to forward
/// slashes.  The game folder itself is recorded as given.
pub open spec fn spec_gog_shortcut(
    name: Seq<char>,
    game_id: Seq<char>,
    tasks: Seq<GogTaskModel>,
    folder: Seq<char>,
) -> Option<GogShortcutModel> {
    match spec_first_primary(tasks) {
        None => None,
        Some(i) => match tasks[i].path {
            None => None,
            Some(p) => Some(
                GogShortcutModel {
                    name: name,
                    game_folder: folder,
                    working_dir: slashed(
                        match tasks[i].working_dir {
                            Some(wd) => join_path_spec(folder, wd),
                            None => folder,
                        },
                    ),
                    game_id: game_id,
                    path: slashed(join_path_spec(folder, p)),
                },
            ),
        },
    }
}

/// The index of the first primary task, by scanning from the front.
fn first_primary_index(tasks: &Vec<GogTask>) -> (r: Option<usize>)
    ensures
        match r {
            Some(i) => i < tasks@.len() && spec_first_primary(tasks.deep_view()) == Some(i as int),
            None => spec_first_primary(tasks.deep_view()) is None,
        },
{
    let n = tasks.len();
    for i in 0..n
        invariant
            n == tasks@.len(),
            forall|j: int| 0 <= j < i ==> !(#[trigger] tasks.deep_view()[j]).is_primary,
    {
        if tasks[i].is_primary {
            proof {
                lemma_first_primary_skip(tasks.deep_view(), i as int);
                assert(tasks.deep_view().skip(i as int)[0] == tasks.deep_view()[i as int]);
                assert(tasks.deep_view()[i as int].is_primary);
                assert(spec_first_primary(tasks.deep_view().skip(i as int)) == Some(0int));
            }
            return Some(i);
        }
    }
    proof {
        lemma_first_primary_skip(tasks.deep_view(), n as int);
        assert(tasks.deep_view().skip(n as int) =~= Seq::<GogTaskModel>::empty());
    }
    None
}

/// Turns a parsed game record into a shortcut, if its first primary task
/// names a path.
pub fn gog_game_to_shortcut(game: &GogGame, game_folder: &str) -> (r: Option<GogShortcut>)
    ensures
        r.deep_view() == spec_gog_shortcut(
            game.name@,
            game.game_id@,
            game.play_tasks.deep_view(),
            game_folder@,
        ),
{
    let ghost tasks = game.play_tasks.deep_view();
    let idx = match first_primary_index(&game.play_tasks) {
        None => {
            return None;
        },
        Some(i) => i,
    };
    let task = &game.play_tasks[idx];
    match &task.path {
        None => {
            proof {
                assert(tasks[idx as int].path is None);
            }
            None
        },
        Some(p) => {
            let joined = join_path(game_folder, p.as_str());
            let full_path = replace_backslashes(joined.as_str());
            let working_dir = match &task.working_dir {
                Some(wd) => {
                    let j = join_path(game_folder, wd.as_str());
                    replace_backslashes(j.as_str())
                },
                None => replace_backslashes(game_folder),
            };
            let r = GogShortcut {
                name: game.name.clone(),
                game_folder: game_folder.to_owned(),
                working_dir,
                game_id: game.game_id.clone(),
                path: full_path,
            };
            proof {
                assert(tasks[idx as int].path == Some(p@));
                assert(r.deep_view() == spec_gog_shortcut(
                    game.name@,
                    game.game_id@,
                    tasks,
                    game_folder@,
                ).unwrap());
            }
            Some(r)
        },
    }
}

/// Rewriting windows paths onto a wine C drive: a path under `C:\` maps to
/// the stripped remainder joined onto the wine drive, slash-normalized;
/// any other path is dropped.
pub open spec fn spec_fix_paths(wine: Seq<char>, paths: Seq<Seq<char>>) -> Seq<Seq<char>>
    decreases paths.len(),
{
    if paths.len() == 0 {
        Seq::empty()
    } else {
        let rest = spec_fix_paths(wine, paths.drop_last());
        if is_prefix(paths.last(), "C:\\"@) {
            rest.push(slashed(join_path_spec(wine, paths.last().skip("C:\\"@.len() as int))))
        } else {
            rest
        }
    }
}

/// Rewrites windows install locations onto a wine C drive.
pub fn fix_paths(wine_c_drive: &str, paths: &Vec<String>) -> (r: Vec<String>)
    ensures
        r.deep_view() == spec_fix_paths(wine_c_drive@, paths.deep_view()),
{
    let mut r: Vec<String> = Vec::new();
    let n = paths.len();
    for i in 0..n
        invariant
            n == paths@.len(),
            r.deep_view() == spec_fix_paths(wine_c_drive@, paths.deep_view().subrange(0, i as int)),
    {
        let ghost pre = paths.deep_view().subrange(0, i as int);
        let ghost post = paths.deep_view().subrange(0, i + 1);
        let p = &paths[i];
        if has_prefix(p.as_str(), "C:\\") {
            let k = "C:\\".unicode_len();
            let stripped = drop_prefix(p.as_str(), k);
            let joined = join_path(wine_c_drive, stripped.as_str());
            let fixed = replace_backslashes(joined.as_str());
            let ghost old_r = r.deep_view();
            r.push(fixed);
            proof {
                assert(p@.subrange(k as int, p@.len() as int) =~= p@.skip("C:\\"@.len() as int));
                assert(r.deep_view() =~= old_r.push(
                    slashed(join_path_spec(wine_c_drive@, p@.skip("C:\\"@.len() as int))),
                ));
            }
        }
        proof {
            assert(post.drop_last() =~= pre);
            assert(post.last() == paths.deep_view()[i as int]);
            assert(paths.deep_view()[i as int] == paths@[i as int]@);
        }
    }
    proof {
        assert(paths.deep_view().subrange(0, n as int) =~= paths.deep_view());
    }
    r
}

} // verus!
