use vstd::prelude::*;

use crate::error::ExtensionError;
use crate::model::{AppRecord, SteamApp, SteamGame, SteamLibrary, records, text_of, unique_ids};
use crate::number::{decimal, push_decimal};
use crate::paths::{first_stop, join, join_path, opt_view, select_install_path, stops_at};

verus! {

/// The kinds of extension a host can load.
#[derive(Clone, Copy, Debug, PartialEq, Eq, Structural)]
pub enum ExtensionType {
    GameLibrary,
}

/// What the extension tells its host about itself.
#[derive(Debug)]
pub struct ExtensionManifest {
    pub name: String,
    pub version: String,
    pub author: Option<String>,
    pub description: Option<String>,
    pub extension_type: ExtensionType,
    pub entry_point: String,
    pub permissions: Vec<String>,
    pub hooks: Option<Vec<String>>,
    pub provided_apis: Vec<String>,
}

/// The operations a host invokes by name.
#[derive(Clone, Copy, Debug, PartialEq, Eq, Structural)]
pub enum Hook {
    ScanGames,
    GetGameDetails,
    LaunchGame,
}

/// The hook that a name denotes.
pub open spec fn hook_named(name: Seq<char>) -> Option<Hook> {
    if name == "scan_games"@ {
        Some(Hook::ScanGames)
    } else if name == "get_game_details"@ {
        Some(Hook::GetGameDetails)
    } else if name == "launch_game"@ {
        Some(Hook::LaunchGame)
    } else {
        None
    }
}

fn same_text(a: &str, b: &str) -> (r: bool)
    ensures
        r == (a@ == b@),
{
    let n = a.unicode_len();
    if n != b.unicode_len() {
        return false;
    }
    let mut i: usize = 0;
    while i < n
        invariant
            i <= n,
            n == a@.len(),
            n == b@.len(),
            forall|t: int| 0 <= t < i ==> a@[t] == b@[t],
        decreases n - i,
    {
        if a.get_char(i) != b.get_char(i) {
            return false;
        }
        i = i + 1;
    }
    assert(a@ =~= b@);
    true
}

/// The hook a host names; an unknown name is a validation error that names it.
pub fn parse_hook(name: &str) -> (r: Result<Hook, ExtensionError>)
    ensures
        match hook_named(name@) {
            Some(h) => r == Ok::<Hook, ExtensionError>(h),
            None => r matches Err(ExtensionError::Validation(m)) && m@ == "Unknown hook: "@
                + name@,
        },
{
    if same_text(name, "scan_games") {
        Ok(Hook::ScanGames)
    } else if same_text(name, "get_game_details") {
        Ok(Hook::GetGameDetails)
    } else if same_text(name, "launch_game") {
        Ok(Hook::LaunchGame)
    } else {
        let mut m = "Unknown hook: ".to_string();
        m.append(name);
        Err(ExtensionError::Validation(m))
    }
}

/// The appid a hook call carries, from its integer `appid` parameter. Appids are `u32`,
/// so a larger value names no game.
pub fn appid_param(value: Option<u64>) -> (r: Result<u32, ExtensionError>)
    ensures
        match value {
            Some(v) => if v <= u32::MAX {
                r == Ok::<u32, ExtensionError>(v as u32)
            } else {
                r matches Err(ExtensionError::NotFound(m)) && m@ == "Game with appid "@ + decimal(
                    v as nat,
                ) + " not found"@
            },
            None => r matches Err(ExtensionError::Validation(m)) && m@
                == "appid parameter required"@,
        },
{
    match value {
        Some(v) => {
            if v <= u32::MAX as u64 {
                Ok(v as u32)
            } else {
                let mut m = "Game with appid ".to_string();
                push_decimal(&mut m, v);
                m.append(" not found");
                Err(ExtensionError::NotFound(m))
            }
        },
        None => Err(ExtensionError::Validation("appid parameter required".to_string())),
    }
}

/// The directory a game runs from: its install directory under the library's `common`
/// folder, or that folder itself.
pub open spec fn game_dir(library: Seq<char>, install_dir: Option<Seq<char>>) -> Seq<char> {
    join(
        join(library, "common"@),
        match install_dir {
            Some(d) => d,
            None => Seq::empty(),
        },
    )
}

/// Where the client caches the icon of an application.
pub open spec fn icon_location(root: Seq<char>, appid: u32) -> Seq<char> {
    join(join(join(root, "appcache"@), "librarycache"@), decimal(appid as nat) + "_icon.jpg"@)
}

/// The descriptor of this extension: its name, version, author and entry point, the
/// capability it declares, the permissions it needs, the hooks it serves and the APIs
/// it provides.
pub open spec fn describes_this_extension(m: ExtensionManifest) -> bool {
    &&& m.name@ == "Steam Game Library Extension"@
    &&& m.version@ == "0.1.0"@
    &&& m.author matches Some(a) && a@ == "Arcadia Team"@
    &&& m.description matches Some(d) && d@
        == "Extension for integrating Steam game library into Arcadia"@
    &&& m.extension_type == ExtensionType::GameLibrary
    &&& m.entry_point@ == "arcadia_steam_extension"@
    &&& m.permissions@.len() == 2
    &&& m.permissions@[0]@ == "filesystem"@
    &&& m.permissions@[1]@ == "native"@
    &&& m.hooks matches Some(h) && h@.len() == 3 && h@[0]@ == "scan_games"@ && h@[1]@
        == "get_game_details"@ && h@[2]@ == "launch_game"@
    &&& m.provided_apis@.len() == 2
    &&& m.provided_apis@[0]@ == "steam_games"@
    &&& m.provided_apis@[1]@ == "steam_launcher"@
}

/// The message for an appid that no library holds.
pub open spec fn not_found_message(appid: u32) -> Seq<char> {
    "Game with appid "@ + decimal(appid as nat) + " not found"@
}

/// `i` is the first library, in discovery order, that holds `appid`.
pub open spec fn first_library(libs: Seq<SteamLibrary>, appid: u32, i: int) -> bool {
    &&& 0 <= i < libs.len()
    &&& libs[i].holds(appid)
    &&& forall|k: int| 0 <= k < i ==> !libs[k].holds(appid)
}

/// The record of `appid` that the libraries hold, from the first library holding it.
pub open spec fn catalog_entry(libs: Seq<SteamLibrary>, appid: u32, i: int, j: int) -> bool {
    &&& first_library(libs, appid, i)
    &&& 0 <= j < libs[i].apps@.len()
    &&& libs[i].apps@[j].appid == appid
}

/// The summaries of every application of the libraries, library by library.
pub open spec fn catalog_records(libs: Seq<SteamLibrary>) -> Seq<AppRecord>
    decreases libs.len(),
{
    if libs.len() == 0 {
        Seq::empty()
    } else {
        catalog_records(libs.drop_last()) + records(libs.last().apps@)
    }
}

/// The extension: the client's install root once found, and the libraries found under
/// it with their applications.
#[derive(Debug)]
pub struct SteamExtension {
    pub manifest: ExtensionManifest,
    pub libraries: Vec<SteamLibrary>,
    pub steam_install_path: Option<String>,
}

impl SteamExtension {
    pub open spec fn wf(&self) -> bool {
        &&& describes_this_extension(self.manifest)
        &&& forall|i: int| 0 <= i < self.libraries@.len() ==> (#[trigger] self.libraries@[i]).wf()
    }

    /// A new extension: no install root known and no libraries.
    pub fn new() -> (r: SteamExtension)
        ensures
            r.wf(),
            r.libraries@.len() == 0,
            r.steam_install_path is None,
            describes_this_extension(r.manifest),
    {
        let manifest = ExtensionManifest {
            name: "Steam Game Library Extension".to_string(),
            version: "0.1.0".to_string(),
            author: Some("Arcadia Team".to_string()),
            description: Some(
                "Extension for integrating Steam game library into Arcadia".to_string(),
            ),
            extension_type: ExtensionType::GameLibrary,
            entry_point: "arcadia_steam_extension".to_string(),
            permissions: vec!["filesystem".to_string(), "native".to_string()],
            hooks: Some(
                vec![
                    "scan_games".to_string(),
                    "get_game_details".to_string(),
                    "launch_game".to_string(),
                ],
            ),
            provided_apis: vec!["steam_games".to_string(), "steam_launcher".to_string()],
        };
        SteamExtension { manifest, libraries: Vec::new(), steam_install_path: None }
    }

    /// The identifier the host knows this extension by.
    pub fn get_id(&self) -> (r: &'static str)
        ensures
            r@ == "steam_extension"@,
    {
        "steam_extension"
    }

    pub fn get_type(&self) -> (r: ExtensionType)
        ensures
            r == ExtensionType::GameLibrary,
    {
        ExtensionType::GameLibrary
    }

    pub fn get_manifest(&self) -> (r: &ExtensionManifest)
        ensures
            r == &self.manifest,
            self.wf() ==> describes_this_extension(*r),
    {
        &self.manifest
    }

    /// Nothing to release.
    pub fn shutdown(&mut self) -> (r: Result<(), ExtensionError>)
        ensures
            r is Ok,
            *final(self) == *old(self),
    {
        Ok(())
    }

    /// Records the install root: the first candidate that exists, given whether each
    /// does. A candidate reached that needs the unknown home directory fails with
    /// `Validation`, and no candidate existing fails with `NotFound`; on failure nothing
    /// changes.
    pub fn find_steam_install_path(&mut self, candidates: &Vec<Option<String>>, exists: &Vec<bool>) -> (r:
        Result<(), ExtensionError>)
        requires
            old(self).wf(),
            candidates@.len() == exists@.len(),
        ensures
            final(self).wf(),
            final(self).manifest == old(self).manifest,
            final(self).libraries == old(self).libraries,
            r is Err ==> final(self).steam_install_path == old(self).steam_install_path,
            ({
                let c = candidates@.map_values(|o: Option<String>| opt_view(o));
                &&& r is Ok ==> exists|i: int|
                    first_stop(c, exists@, i) && c[i] is Some && c[i] == opt_view(
                        final(self).steam_install_path,
                    )
                &&& (r matches Err(ExtensionError::Validation(_))) <==> exists|i: int|
                    first_stop(c, exists@, i) && c[i] is None
                &&& (r matches Err(ExtensionError::NotFound(_))) <==> forall|i: int|
                    0 <= i < c.len() ==> !stops_at(c, exists@, i)
                &&& r is Ok || (r matches Err(ExtensionError::Validation(_))) || (r matches Err(
                    ExtensionError::NotFound(_),
                ))
            }),
    {
        match select_install_path(candidates, exists) {
            Ok(p) => {
                self.steam_install_path = Some(p);
                Ok(())
            },
            Err(e) => Err(e),
        }
    }

    /// The folder of the default library under the install root.
    pub fn default_library_path(&self) -> (r: Result<String, ExtensionError>)
        ensures
            match self.steam_install_path {
                Some(root) => r matches Ok(p) && p@ == join(root@, "steamapps"@),
                None => r matches Err(ExtensionError::Validation(m)) && m@ == "Steam path not set"@,
            },
    {
        match &self.steam_install_path {
            Some(root) => Ok(join_path(root.as_str(), "steamapps")),
            None => Err(ExtensionError::Validation("Steam path not set".to_string())),
        }
    }

    /// Discovers the libraries anew: the default library under the install root, with
    /// no applications yet, where its folder exists, and none otherwise.
    pub fn scan_steam_libraries(&mut self, library_exists: bool) -> (r: Result<(), ExtensionError>)
        requires
            old(self).wf(),
        ensures
            final(self).wf(),
            final(self).manifest == old(self).manifest,
            final(self).steam_install_path == old(self).steam_install_path,
            old(self).steam_install_path is None <==> r is Err,
            r matches Err(e) ==> e matches ExtensionError::Validation(m) && m@ == "Steam path not set"@
                && final(self).libraries@ == old(self).libraries@,
            r is Ok && !library_exists ==> final(self).libraries@.len() == 0,
            r is Ok && library_exists ==> ({
                let libs = final(self).libraries@;
                &&& libs.len() == 1
                &&& libs[0].apps@.len() == 0
                &&& old(self).steam_install_path matches Some(root) && libs[0].path@ == join(
                    root@,
                    "steamapps"@,
                )
            }),
    {
        let path = self.default_library_path()?;
        let mut libraries: Vec<SteamLibrary> = Vec::new();
        if library_exists {
            libraries.push(SteamLibrary { path, apps: Vec::new() });
            assert(records(libraries@[0].apps@) =~= Seq::<AppRecord>::empty());
        }
        self.libraries = libraries;
        Ok(())
    }

    /// The folders of the libraries, in discovery order.
    pub fn library_paths(&self) -> (r: Vec<String>)
        ensures
            r@.len() == self.libraries@.len(),
            forall|i: int| 0 <= i < r@.len() ==> r@[i]@ == self.libraries@[i].path@,
    {
        let mut r: Vec<String> = Vec::new();
        let mut i: usize = 0;
        while i < self.libraries.len()
            invariant
                i <= self.libraries@.len(),
                r@.len() == i,
                forall|t: int| 0 <= t < i ==> r@[t]@ == self.libraries@[t].path@,
            decreases self.libraries@.len() - i,
        {
            r.push(self.libraries[i].path.clone());
            i = i + 1;
        }
        r
    }

    /// Replaces the applications of library `index` with what a scan found.
    pub fn set_library_apps(&mut self, index: usize, apps: Vec<SteamApp>)
        requires
            old(self).wf(),
            index < old(self).libraries@.len(),
            unique_ids(records(apps@)),
        ensures
            final(self).wf(),
            final(self).manifest == old(self).manifest,
            final(self).steam_install_path == old(self).steam_install_path,
            final(self).libraries@.len() == old(self).libraries@.len(),
            final(self).libraries@[index as int].path == old(self).libraries@[index as int].path,
            records(final(self).libraries@[index as int].apps@) == records(apps@),
            forall|i: int|
                0 <= i < old(self).libraries@.len() && i != index ==> final(self).libraries@[i]
                    == old(self).libraries@[i],
    {
        let path = self.libraries[index].path.clone();
        self.libraries.set(index, SteamLibrary { path, apps });
        assert forall|i: int| 0 <= i < self.libraries@.len() implies (
        #[trigger] self.libraries@[i]).wf() by {
            if i != index {
                assert(self.libraries@[i] == old(self).libraries@[i]);
            }
        }
    }
    /// A summary of every application in the catalog, library by library in discovery
    /// order, each library's applications in their order there.
    pub fn scan_games(&self) -> (r: Vec<SteamGame>)
        ensures
            r@.len() == catalog_records(self.libraries@).len(),
            forall|k: int| 0 <= k < r@.len() ==> (#[trigger] r@[k]).is_summary_of(
                catalog_records(self.libraries@)[k],
            ),
    {
        let ghost libs = self.libraries@;
        let mut r: Vec<SteamGame> = Vec::new();
        let mut i: usize = 0;
        assert(libs.take(0) =~= Seq::<SteamLibrary>::empty());
        while i < self.libraries.len()
            invariant
                i <= libs.len(),
                libs == self.libraries@,
                r@.len() == catalog_records(libs.take(i as int)).len(),
                forall|k: int| 0 <= k < r@.len() ==> (#[trigger] r@[k]).is_summary_of(
                    catalog_records(libs.take(i as int))[k],
                ),
            decreases libs.len() - i,
        {
            let ghost before = catalog_records(libs.take(i as int));
            let apps = &self.libraries[i].apps;
            let mut j: usize = 0;
            while j < apps.len()
                invariant
                    j <= apps@.len(),
                    r@.len() == before.len() + j,
                    forall|k: int| 0 <= k < r@.len() ==> (#[trigger] r@[k]).is_summary_of(
                        (before + records(apps@.take(j as int)))[k],
                    ),
                decreases apps@.len() - j,
            {
                r.push(SteamGame::summary(&apps[j]));
                j = j + 1;
                assert(before + records(apps@.take(j as int)) =~= (before + records(
                    apps@.take(j - 1),
                )).push(apps@[j - 1]@));
            }
            assert(apps@.take(apps@.len() as int) =~= apps@);
            assert(libs.take(i + 1).drop_last() =~= libs.take(i as int));
            assert(catalog_records(libs.take(i + 1)) == before + records(apps@));
            i = i + 1;
        }
        assert(libs.take(libs.len() as int) =~= libs);
        r
    }

    /// Where `appid` stands in the catalog: the first library holding it, and its index
    /// there.
    fn find_entry(&self, appid: u32) -> (r: Option<(usize, usize)>)
        ensures
            match r {
                Some((i, j)) => catalog_entry(self.libraries@, appid, i as int, j as int),
                None => forall|i: int|
                    0 <= i < self.libraries@.len() ==> !self.libraries@[i].holds(appid),
            },
    {
        let mut i: usize = 0;
        while i < self.libraries.len()
            invariant
                i <= self.libraries@.len(),
                forall|k: int| 0 <= k < i ==> !self.libraries@[k].holds(appid),
            decreases self.libraries@.len() - i,
        {
            let apps = &self.libraries[i].apps;
            let mut j: usize = 0;
            while j < apps.len()
                invariant
                    i < self.libraries@.len(),
                    apps@ == self.libraries@[i as int].apps@,
                    forall|k: int| 0 <= k < i ==> !self.libraries@[k].holds(appid),
                    j <= apps@.len(),
                    forall|t: int| 0 <= t < j ==> apps@[t].appid != appid,
                decreases apps@.len() - j,
            {
                if apps[j].appid == appid {
                    assert(self.libraries@[i as int].apps@[j as int].appid == appid);
                    return Some((i, j));
                }
                j = j + 1;
            }
            i = i + 1;
        }
        None
    }

    /// The error for an appid that no library holds.
    fn game_not_found(appid: u32) -> (r: ExtensionError)
        ensures
            r matches ExtensionError::NotFound(m) && m@ == not_found_message(appid),
    {
        let mut m = "Game with appid ".to_string();
        push_decimal(&mut m, appid as u64);
        m.append(" not found");
        ExtensionError::NotFound(m)
    }

    /// The directory the game `appid` runs from, as `game_dir` gives it for the first
    /// library holding it; `NotFound` when no library does.
    pub fn game_directory(&self, appid: u32) -> (r: Result<String, ExtensionError>)
        ensures
            r is Err <==> forall|i: int|
                0 <= i < self.libraries@.len() ==> !self.libraries@[i].holds(appid),
            r matches Err(e) ==> e matches ExtensionError::NotFound(m) && m@ == not_found_message(
                appid,
            ),
            r matches Ok(d) ==> exists|i: int, j: int|
                catalog_entry(self.libraries@, appid, i, j) && d@ == game_dir(
                    self.libraries@[i].path@,
                    self.libraries@[i].apps@[j]@.install_dir,
                ),
    {
        match self.find_entry(appid) {
            Some((i, j)) => Ok(self.dir_of(i, j)),
            None => Err(Self::game_not_found(appid)),
        }
    }

    fn dir_of(&self, i: usize, j: usize) -> (d: String)
        requires
            i < self.libraries@.len(),
            j < self.libraries@[i as int].apps@.len(),
        ensures
            d@ == game_dir(
                self.libraries@[i as int].path@,
                self.libraries@[i as int].apps@[j as int]@.install_dir,
            ),
    {
        let lib = &self.libraries[i];
        let common = join_path(lib.path.as_str(), "common");
        match &lib.apps[j].install_dir {
            Some(dir) => join_path(common.as_str(), dir.as_str()),
            None => {
                proof {
                    reveal_strlit("");
                }
                assert(""@ =~= Seq::<char>::empty());
                join_path(common.as_str(), "")
            },
        }
    }

    /// Where the client would cache the icon of `appid`, once the install root is known.
    pub fn icon_candidate(&self, appid: u32) -> (r: Option<String>)
        ensures
            opt_view(r) == match self.steam_install_path {
                Some(root) => Some(icon_location(root@, appid)),
                None => None,
            },
    {
        match &self.steam_install_path {
            Some(root) => {
                let cache = join_path(root.as_str(), "appcache");
                let lib_cache = join_path(cache.as_str(), "librarycache");
                let mut file = String::new();
                push_decimal(&mut file, appid as u64);
                file.append("_icon.jpg");
                assert(file@ =~= decimal(appid as nat) + "_icon.jpg"@);
                Some(join_path(lib_cache.as_str(), file.as_str()))
            },
            None => None,
        }
    }

    /// The full record of `appid` from the first library holding it: its working
    /// directory is `game_dir` of that library and the record's install directory, its
    /// executable is `executable` (what the probe of that directory found), and its
    /// icon is `icon_candidate`'s path where `icon_exists`. `NotFound` when no library
    /// holds `appid`.
    pub fn get_game_details(&self, appid: u32, executable: Option<String>, icon_exists: bool) -> (r:
        Result<SteamGame, ExtensionError>)
        ensures
            r is Err <==> forall|i: int|
                0 <= i < self.libraries@.len() ==> !self.libraries@[i].holds(appid),
            r matches Err(e) ==> e matches ExtensionError::NotFound(m) && m@ == not_found_message(
                appid,
            ),
            r matches Ok(g) ==> exists|i: int, j: int|
                catalog_entry(self.libraries@, appid, i, j) && g.app@
                    == self.libraries@[i].apps@[j]@ && text_of(g.working_dir) == Some(
                    game_dir(self.libraries@[i].path@, self.libraries@[i].apps@[j]@.install_dir),
                ),
            r matches Ok(g) ==> text_of(g.executable) == text_of(executable),
            r matches Ok(g) ==> text_of(g.icon_path) == if icon_exists {
                match self.steam_install_path {
                    Some(root) => Some(icon_location(root@, appid)),
                    None => None,
                }
            } else {
                None
            },
            r matches Ok(g) ==> g.launch_args is None && g.banner_path is None,
    {
        match self.find_entry(appid) {
            Some((i, j)) => {
                let dir = self.dir_of(i, j);
                let icon_path = if icon_exists {
                    self.icon_candidate(appid)
                } else {
                    None
                };
                Ok(
                    SteamGame {
                        app: self.libraries[i].apps[j].copy_record(),
                        executable,
                        working_dir: Some(dir),
                        launch_args: None,
                        icon_path,
                        banner_path: None,
                    },
                )
            },
            None => Err(Self::game_not_found(appid)),
        }
    }
}

} // verus!
