use vstd::prelude::*;

use crate::error::ExtensionError;
use crate::model::{SteamGame, text_of};
use crate::paths::{Platform, join, join_path};

verus! {

/// The conventional executable names, in the order they are tried.
pub open spec fn executable_names() -> Seq<Seq<char>> {
    seq!["game.exe"@, "Game.exe"@, "launch.exe"@, "start.exe"@]
}

/// The paths, in order, at which a game in `game_dir` may keep its executable.
pub fn executable_candidates(game_dir: &str) -> (r: Vec<String>)
    ensures
        r@.len() == executable_names().len(),
        forall|i: int| 0 <= i < r@.len() ==> r@[i]@ == join(game_dir@, executable_names()[i]),
{
    let mut r: Vec<String> = Vec::new();
    r.push(join_path(game_dir, "game.exe"));
    r.push(join_path(game_dir, "Game.exe"));
    r.push(join_path(game_dir, "launch.exe"));
    r.push(join_path(game_dir, "start.exe"));
    r
}

/// Whether the game directory must be scanned for any native executable: only on the
/// platform whose naming convention the candidates follow, and only when none of them
/// exists.
pub fn needs_directory_scan(platform: Platform, exists: &Vec<bool>) -> (r: bool)
    ensures
        r == (platform == Platform::Windows && forall|i: int| 0 <= i < exists@.len() ==> !exists@[i]),
{
    if platform != Platform::Windows {
        return false;
    }
    let mut i: usize = 0;
    while i < exists.len()
        invariant
            i <= exists@.len(),
            forall|j: int| 0 <= j < i ==> !exists@[j],
        decreases exists@.len() - i,
    {
        if exists[i] {
            return false;
        }
        i = i + 1;
    }
    true
}

/// Picks the executable: the first candidate that exists, else `fallback` (what a scan
/// of the game directory found, if one was made).
pub fn choose_executable(candidates: &Vec<String>, exists: &Vec<bool>, fallback: Option<String>) -> (r:
    Option<String>)
    requires
        candidates@.len() == exists@.len(),
    ensures
        forall|i: int|
            0 <= i < exists@.len() && exists@[i] && (forall|j: int| 0 <= j < i ==> !exists@[j])
                ==> text_of(r) == Some(candidates@[i]@),
        (forall|i: int| 0 <= i < exists@.len() ==> !exists@[i]) ==> text_of(r) == text_of(fallback),
{
    let mut i: usize = 0;
    while i < candidates.len()
        invariant
            i <= candidates@.len(),
            candidates@.len() == exists@.len(),
            forall|j: int| 0 <= j < i ==> !exists@[j],
        decreases candidates@.len() - i,
    {
        if exists[i] {
            return Some(candidates[i].clone());
        }
        i = i + 1;
    }
    fallback
}

/// A process to start: the program and the directory it starts in.
#[derive(Debug)]
pub struct LaunchCommand {
    pub program: String,
    pub current_dir: String,
}

/// What launching a resolved game starts: its executable, in its working directory or
/// else in `.`. A game without an executable cannot be launched, and nothing is
/// started for it.
pub fn launch_game(game: &SteamGame) -> (r: Result<LaunchCommand, ExtensionError>)
    ensures
        game.executable is None <==> r is Err,
        r matches Err(e) ==> e matches ExtensionError::Validation(m) && m@
            == "No executable found for game"@,
        r matches Ok(cmd) ==> Some(cmd.program@) == text_of(game.executable) && cmd.current_dir@
            == match text_of(game.working_dir) {
            Some(d) => d,
            None => "."@,
        },
{
    match &game.executable {
        Some(exe) => {
            let dir = match &game.working_dir {
                Some(d) => d.clone(),
                None => ".".to_string(),
            };
            Ok(LaunchCommand { program: exe.clone(), current_dir: dir })
        },
        None => Err(ExtensionError::Validation("No executable found for game".to_string())),
    }
}

} // verus!
