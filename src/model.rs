use vstd::prelude::*;

verus! {

/// One installed application, as its manifest describes it.
#[derive(Debug)]
pub struct SteamApp {
    pub appid: u32,
    pub name: String,
    pub install_dir: Option<String>,
    pub size_on_disk: Option<u64>,
    pub last_updated: Option<u64>,
    pub launch_options: Option<String>,
}

/// The contents of a `SteamApp`, with text as character sequences.
pub struct AppRecord {
    pub appid: u32,
    pub name: Seq<char>,
    pub install_dir: Option<Seq<char>>,
    pub size_on_disk: Option<u64>,
    pub last_updated: Option<u64>,
    pub launch_options: Option<Seq<char>>,
}

pub open spec fn text_of(o: Option<String>) -> Option<Seq<char>> {
    match o {
        Some(s) => Some(s@),
        None => None,
    }
}

impl View for SteamApp {
    type V = AppRecord;

    open spec fn view(&self) -> AppRecord {
        AppRecord {
            appid: self.appid,
            name: self.name@,
            install_dir: text_of(self.install_dir),
            size_on_disk: self.size_on_disk,
            last_updated: self.last_updated,
            launch_options: text_of(self.launch_options),
        }
    }
}

fn copy_text(o: &Option<String>) -> (r: Option<String>)
    ensures
        text_of(r) == text_of(*o),
{
    match o {
        Some(s) => Some(s.clone()),
        None => None,
    }
}

impl SteamApp {
    /// A copy of this record.
    pub fn copy_record(&self) -> (r: SteamApp)
        ensures
            r@ == self@,
    {
        SteamApp {
            appid: self.appid,
            name: self.name.clone(),
            install_dir: copy_text(&self.install_dir),
            size_on_disk: self.size_on_disk,
            last_updated: self.last_updated,
            launch_options: copy_text(&self.launch_options),
        }
    }
}

/// An application together with what resolution found for it: where its executable
/// is, which directory it runs in, and its artwork.
#[derive(Debug)]
pub struct SteamGame {
    pub app: SteamApp,
    pub executable: Option<String>,
    pub working_dir: Option<String>,
    pub launch_args: Option<String>,
    pub icon_path: Option<String>,
    pub banner_path: Option<String>,
}

impl SteamGame {
    /// The summary of an application: nothing resolved yet.
    pub open spec fn is_summary_of(self, app: AppRecord) -> bool {
        &&& self.app@ == app
        &&& self.executable is None
        &&& self.working_dir is None
        &&& self.launch_args is None
        &&& self.icon_path is None
        &&& self.banner_path is None
    }

    /// The summary of an application, with every resolved field absent.
    pub fn summary(app: &SteamApp) -> (r: SteamGame)
        ensures
            r.is_summary_of(app@),
    {
        SteamGame {
            app: app.copy_record(),
            executable: None,
            working_dir: None,
            launch_args: None,
            icon_path: None,
            banner_path: None,
        }
    }
}

/// No two records share an appid.
pub open spec fn unique_ids(recs: Seq<AppRecord>) -> bool {
    forall|i: int, j: int|
        0 <= i < recs.len() && 0 <= j < recs.len() && #[trigger] recs[i].appid
            == #[trigger] recs[j].appid ==> i == j
}

pub open spec fn records(apps: Seq<SteamApp>) -> Seq<AppRecord> {
    apps.map_values(|a: SteamApp| a@)
}

/// A library folder and the applications found in it, each appid once. They are kept
/// in the order their manifests were read, so that the catalog lists them in a definite
/// order.
#[derive(Debug)]
pub struct SteamLibrary {
    pub path: String,
    pub apps: Vec<SteamApp>,
}

impl SteamLibrary {
    pub open spec fn wf(&self) -> bool {
        unique_ids(records(self.apps@))
    }

    /// The library holds an application with this appid.
    pub open spec fn holds(&self, appid: u32) -> bool {
        exists|j: int| 0 <= j < self.apps@.len() && (#[trigger] self.apps@[j]).appid == appid
    }
}

} // verus!
