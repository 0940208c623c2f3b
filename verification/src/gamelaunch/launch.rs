use vstd::prelude::*;
use vstd::string::StringExecFns;

verus! {

/// What identifies the game's process.
#[allow(non_camel_case_types, non_snake_case)]
pub struct ROCKET_LEAGUE_PROCESS_INFO {
    pub GAMEID: usize,
    pub PROGRAM_NAME: String,
    pub PROGRAM: String,
    pub REQUIRED_ARGS: String,
}

#[allow(non_snake_case)]
impl ROCKET_LEAGUE_PROCESS_INFO {
    pub fn new() -> (info: ROCKET_LEAGUE_PROCESS_INFO)
        ensures
            info.GAMEID == 252950,
            info.PROGRAM_NAME@ == "RocketLeague.exe"@,
            info.PROGRAM@ == "RocketLeague.exe"@,
            info.REQUIRED_ARGS@ == "-pipe"@,
    {
        ROCKET_LEAGUE_PROCESS_INFO {
            GAMEID: 252950,
            PROGRAM_NAME: String::from_str("RocketLeague.exe"),
            PROGRAM: String::from_str("RocketLeague.exe"),
            REQUIRED_ARGS: String::from_str("-pipe"),
        }
    }

    /// Command-line arguments that make the game talk on the given pipe and
    /// skip its intro movies.
    pub fn get_ideal_args(pipe_id: String) -> (args: [String; 3])
        ensures
            args@[0]@ == "-pipe"@,
            args@[1]@ == pipe_id@,
            args@[2]@ == "-nomovie"@,
    {
        [String::from_str("-pipe"), pipe_id, String::from_str("-nomovie")]
    }
}

/// The ways the game can be launched.
#[allow(non_snake_case)]
pub struct LaunchPreference {
    pub STEAM: String,
    pub EPIC: String,
    pub EPIC_LOGIN_TRICK: String,
}

impl LaunchPreference {
    pub fn new() -> (p: LaunchPreference)
        ensures
            p.STEAM@ == "steam"@,
            p.EPIC@ == "epic"@,
            p.EPIC_LOGIN_TRICK@ == "_login_trick"@,
    {
        LaunchPreference {
            STEAM: String::from_str("steam"),
            EPIC: String::from_str("epic"),
            EPIC_LOGIN_TRICK: String::from_str("_login_trick"),
        }
    }
}


/// Whether launching tries the preference as a path to the game first. The
/// test asks whether the preference differs from `epic` or from `steam`, so
/// it holds for every preference.
pub fn tries_custom_path(launch_preference: &String) -> (r: bool)
    ensures
        r == (launch_preference@ != "epic"@ || launch_preference@ != "steam"@),
{
    let prefs = LaunchPreference::new();
    !(*launch_preference == prefs.EPIC) || !(*launch_preference == prefs.STEAM)
}

/// No preference is both `epic` and `steam`, so a launch always looks for
/// the preference as a path before it falls back to Epic.
pub proof fn lemma_custom_path_always_tried(launch_preference: Seq<char>)
    ensures
        launch_preference != "epic"@ || launch_preference != "steam"@,
{
    reveal_strlit("epic");
    reveal_strlit("steam");
    if launch_preference == "epic"@ {
        assert(launch_preference[0] == 'e');
        assert("steam"@[0] == 's');
    }
}

} // verus!
