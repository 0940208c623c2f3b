use vstd::prelude::*;
use vstd::string::StringExecFns;
use serde_json::Value;

verus! {

/// The command line that launches the game through Epic: the game binary,
/// the given arguments, then `-EpicPortal`.
pub open spec fn spec_epic_argv(exe: Seq<char>, ideal_args: Seq<Seq<char>>) -> Seq<Seq<char>> {
    seq![exe] + ideal_args + seq!["-EpicPortal"@]
}

/// The command line that launches the game through Epic, for a located
/// (non-empty) binary path.
pub fn epic_launch_argv(epic_rl_exe_path: String, ideal_args: Vec<String>) -> (argv: Vec<String>)
    requires
        epic_rl_exe_path@.len() > 0,
    ensures
        argv@.map_values(|s: String| s@) == spec_epic_argv(
            epic_rl_exe_path@,
            ideal_args@.map_values(|s: String| s@),
        ),
{
    let ghost exe = epic_rl_exe_path@;
    let ghost args = ideal_args@;
    let mut argv: Vec<String> = Vec::new();
    argv.push(epic_rl_exe_path);
    let mut ideal_args = ideal_args;
    argv.append(&mut ideal_args);
    argv.push(String::from_str("-EpicPortal"));
    assert(argv@.map_values(|s: String| s@) =~= spec_epic_argv(
        exe,
        args.map_values(|s: String| s@),
    ));
    argv
}


/// One value of an Epic manifest, as the launcher logic reads it.
#[derive(Clone, Debug)]
pub enum ManifestField {
    /// The key is not in the manifest.
    Missing,
    /// The key holds a string.
    Text(String),
    /// The key holds a value that is not a string.
    NotText,
}

/// The values that locating the game reads of one Epic manifest file.
#[derive(Clone, Debug)]
pub struct EpicManifest {
    pub mandatory_app_folder_name: ManifestField,
    pub install_location: ManifestField,
    pub launch_executable: ManifestField,
}

impl EpicManifest {
    /// A manifest with none of the keys, which is what a search that read
    /// no file gives.
    pub fn empty() -> (m: EpicManifest)
        ensures
            m.mandatory_app_folder_name is Missing,
            m.install_location is Missing,
            m.launch_executable is Missing,
    {
        EpicManifest {
            mandatory_app_folder_name: ManifestField::Missing,
            install_location: ManifestField::Missing,
            launch_executable: ManifestField::Missing,
        }
    }
}

/// Whether a manifest file was read and names the game's folder, `rocketleague`.
pub open spec fn spec_is_game_manifest(entry: Option<EpicManifest>) -> bool {
    &&& entry is Some
    &&& entry->0.mandatory_app_folder_name is Text
    &&& entry->0.mandatory_app_folder_name->0@ == "rocketleague"@
}

/// The manifest at `k` is the one a search keeps: the first game manifest,
/// or, when no file names the game, the last file that could be read.
pub open spec fn spec_is_selected(found: Seq<Option<EpicManifest>>, k: int) -> bool {
    &&& 0 <= k < found.len()
    &&& found[k] is Some
    &&& {
        ||| (spec_is_game_manifest(found[k]) && forall|j: int|
            0 <= j < k ==> !spec_is_game_manifest(#[trigger] found[j]))
        ||| ((forall|j: int| 0 <= j < found.len() ==> !spec_is_game_manifest(#[trigger] found[j]))
            && forall|j: int| k < j < found.len() ==> (#[trigger] found[j]) is None)
    }
}

/// Which of the manifest files found in a folder, in the order they were
/// listed, the search keeps (`None` where a file could not be read or
/// parsed): the first that names `rocketleague`, else the last one read;
/// `None` when none could be read.
pub fn select_manifest(found: &Vec<Option<EpicManifest>>) -> (r: Option<usize>)
    ensures
        match r {
            Some(k) => spec_is_selected(found@, k as int),
            None => forall|j: int| 0 <= j < found@.len() ==> (#[trigger] found@[j]) is None,
        },
{
    let game = String::from_str("rocketleague");
    proof {
        reveal_strlit("rocketleague");
    }
    let mut sel: Option<usize> = None;
    let mut i: usize = 0;
    while i < found.len()
        invariant
            i <= found@.len(),
            game@ == "rocketleague"@,
            forall|j: int| 0 <= j < i ==> !spec_is_game_manifest(#[trigger] found@[j]),
            match sel {
                Some(k) => k < i && found@[k as int] is Some && forall|j: int|
                    k < j < i ==> (#[trigger] found@[j]) is None,
                None => forall|j: int| 0 <= j < i ==> (#[trigger] found@[j]) is None,
            },
        decreases found@.len() - i,
    {
        match &found[i] {
            Some(m) => {
                sel = Some(i);
                match &m.mandatory_app_folder_name {
                    ManifestField::Text(name) => {
                        if *name == game {
                            return Some(i);
                        }
                    },
                    _ => {},
                }
            },
            None => {},
        }
        i = i + 1;
    }
    sel
}

/// The install path that a manifest gives: its install location, the
/// separator and its launch executable; `None` when it has no install
/// location. Where it has one, both values must be strings.
pub fn install_path(manifest: &EpicManifest, separator: &str) -> (r: Option<String>)
    requires
        !(manifest.install_location is Missing) ==> manifest.install_location is Text
            && manifest.launch_executable is Text,
    ensures
        match r {
            None => manifest.install_location is Missing,
            Some(p) => p@ == manifest.install_location->0@ + separator@
                + manifest.launch_executable->0@,
        },
{
    match &manifest.install_location {
        ManifestField::Text(location) => {
            match &manifest.launch_executable {
                ManifestField::Text(exe) => {
                    let mut p = location.clone();
                    p.append(separator);
                    p.append(exe.as_str());
                    Some(p)
                },
                _ => None,
            }
        },
        _ => None,
    }
}

/// The install path that a folder of manifests gives (see `select_manifest`
/// and `install_path`); `None` when the kept manifest has no install location
/// or no file could be read.
pub fn found_install_path(found: &Vec<Option<EpicManifest>>, separator: &str) -> (r: Option<String>)
    requires
        forall|k: int|
            spec_is_selected(found@, k) && !(found@[k]->0.install_location is Missing) ==> {
                &&& (#[trigger] found@[k])->0.install_location is Text
                &&& found@[k]->0.launch_executable is Text
            },
    ensures
        match r {
            None => forall|k: int|
                spec_is_selected(found@, k) ==> (#[trigger] found@[k])->0.install_location is Missing,
            Some(p) => exists|k: int|
                spec_is_selected(found@, k) && p@ == (#[trigger] found@[k])->0.install_location->0@
                    + separator@ + found@[k]->0.launch_executable->0@,
        },
{
    match select_manifest(found) {
        Some(k) => {
            match &found[k] {
                Some(m) => {
                    let r = install_path(m, separator);
                    proof {
                        lemma_selected_unique(found@, k as int);
                    }
                    r
                },
                None => None,
            }
        },
        None => None,
    }
}

/// What `parse_manifest` reads of the bytes of a manifest file.
pub uninterp spec fn spec_parse_manifest(bytes: Seq<u8>) -> Option<EpicManifest>;

/// Calls `serde_json::from_slice` to parse the bytes of a manifest file as a
/// JSON object (`Map<String, Value>`), then `Map::get` for the three keys the
/// search reads. The result is named by `spec_parse_manifest`: `None` where
/// the bytes are not a JSON object, else for each key `Missing` when it is
/// absent, its string when it holds one, `NotText` when it holds another value.
#[verifier::external_body]
pub(crate) fn parse_manifest(bytes: &[u8]) -> (m: Option<EpicManifest>)
    ensures
        m == spec_parse_manifest(bytes@),
{
    let map = match serde_json::from_slice::<serde_json::Map<String, Value>>(bytes) {
        Ok(map) => map,
        Err(_) => return None,
    };
    let field = |key: &str| match map.get(key) {
        None => ManifestField::Missing,
        Some(Value::String(s)) => ManifestField::Text(s.clone()),
        Some(Value::Null) | Some(Value::Bool(_)) | Some(Value::Number(_)) => ManifestField::NotText,
        Some(Value::Array(_)) | Some(Value::Object(_)) => ManifestField::NotText,
    };
    let folder = field("MandatoryAppFolderName");
    Some(EpicManifest { mandatory_app_folder_name: folder, install_location: field("InstallLocation"), launch_executable: field("LaunchExecutable") })
}

/// What a manifest file gives the search: nothing where it could not be
/// read, else what its bytes parse to.
pub open spec fn spec_parsed_file(file: Option<Vec<u8>>) -> Option<EpicManifest> {
    match file {
        Some(bytes) => spec_parse_manifest(bytes@),
        None => None,
    }
}

/// What each manifest file of a folder gives the search, in listing order.
pub open spec fn spec_parsed_files(files: Seq<Option<Vec<u8>>>) -> Seq<Option<EpicManifest>> {
    files.map_values(|f: Option<Vec<u8>>| spec_parsed_file(f))
}

/// The kept manifest's values can be read: where it has an install location,
/// that location and its launch executable are both strings.
pub open spec fn spec_kept_values_text(found: Seq<Option<EpicManifest>>) -> bool {
    forall|k: int|
        spec_is_selected(found, k) && !(found[k]->0.install_location is Missing) ==> {
            &&& (#[trigger] found[k])->0.install_location is Text
            &&& found[k]->0.launch_executable is Text
        }
}

/// Whether the kept manifest's values can be read (see `spec_kept_values_text`).
pub fn kept_values_are_text(found: &Vec<Option<EpicManifest>>) -> (r: bool)
    ensures
        r == spec_kept_values_text(found@),
{
    match select_manifest(found) {
        Some(k) => {
            proof {
                lemma_selected_unique(found@, k as int);
            }
            match &found[k] {
                Some(m) => match (&m.install_location, &m.launch_executable) {
                    (ManifestField::Missing, _) => true,
                    (ManifestField::Text(_), ManifestField::Text(_)) => true,
                    _ => false,
                },
                None => true,
            }
        },
        None => true,
    }
}

/// Why a folder of manifests gives no install path.
#[derive(Clone, Copy, Debug, PartialEq, Eq, Structural)]
pub enum ManifestError {
    /// The kept manifest has an install location, but it or the launch
    /// executable is not a string.
    KeptValuesNotText,
}

/// The install path that the manifest files of a folder give (`None` for a
/// file that could not be read), in listing order: each is parsed, and the
/// kept one gives the path as `found_install_path` says. An error where the
/// kept manifest's values are not strings.
pub fn install_path_from_files(files: &Vec<Option<Vec<u8>>>, separator: &str) -> (r: Result<
    Option<String>,
    ManifestError,
>)
    ensures
        r is Err <==> !spec_kept_values_text(spec_parsed_files(files@)),
        r matches Ok(None) ==> forall|k: int|
            spec_is_selected(spec_parsed_files(files@), k) ==> (#[trigger] spec_parsed_files(
                files@,
            )[k])->0.install_location is Missing,
        r matches Ok(Some(p)) ==> exists|k: int|
            spec_is_selected(spec_parsed_files(files@), k) && p@ == (#[trigger] spec_parsed_files(
                files@,
            )[k])->0.install_location->0@ + separator@ + spec_parsed_files(
                files@,
            )[k]->0.launch_executable->0@,
{
    let mut found: Vec<Option<EpicManifest>> = Vec::new();
    let mut i: usize = 0;
    while i < files.len()
        invariant
            i <= files@.len(),
            found@.len() == i,
            forall|k: int| 0 <= k < i ==> #[trigger] found@[k] == spec_parsed_file(files@[k]),
        decreases files@.len() - i,
    {
        let m = match &files[i] {
            Some(bytes) => parse_manifest(bytes.as_slice()),
            None => None,
        };
        found.push(m);
        i = i + 1;
    }
    assert(found@ =~= spec_parsed_files(files@));
    if !kept_values_are_text(&found) {
        return Err(ManifestError::KeptValuesNotText);
    }
    Ok(found_install_path(&found, separator))
}

/// At most one index is the kept manifest.
pub proof fn lemma_selected_unique(found: Seq<Option<EpicManifest>>, k: int)
    requires
        spec_is_selected(found, k),
    ensures
        forall|j: int| #[trigger] spec_is_selected(found, j) ==> j == k,
{
    assert forall|j: int| #[trigger] spec_is_selected(found, j) implies j == k by {
        if j < k {
            if spec_is_game_manifest(found[k]) {
                assert(!spec_is_game_manifest(found[j]));
                assert(found[j] is Some);
            } else {
                assert(found[j] is Some);
            }
        } else if k < j {
            if spec_is_game_manifest(found[j]) {
                assert(!spec_is_game_manifest(found[k]));
            } else {
                assert(found[j] is None);
            }
        }
    }
}

/// The folder that holds the manifests under a launcher data path read from
/// the registry.
pub fn registry_manifest_dir(app_data_path: String) -> (dir: String)
    ensures
        dir@ == app_data_path@ + "Manifests\\"@,
{
    let mut dir = app_data_path;
    dir.append("Manifests\\");
    dir
}

/// The folder that holds the manifests under the machine's program data folder.
pub fn program_data_manifest_dir(program_data: String) -> (dir: String)
    ensures
        dir@ == program_data@ + "Epic\\EpicGamesLauncher\\Data\\Manifests\\"@,
{
    let mut dir = program_data;
    dir.append("Epic\\EpicGamesLauncher\\Data\\Manifests\\");
    dir
}

/// The file pattern that lists the manifests in a folder.
pub fn manifest_pattern(dir: &String) -> (pattern: String)
    ensures
        pattern@ == dir@ + "*.item"@,
{
    let mut pattern = dir.clone();
    pattern.append("*.item");
    pattern
}

} // verus!
