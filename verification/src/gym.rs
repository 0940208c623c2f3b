use vstd::prelude::*;
use vstd::string::StringExecFns;

verus! {

/// The gym's launch and window settings, with their defaults applied.
#[derive(Debug)]
pub struct GymOptions {
    /// Id of the pipe the game talks on (`0` by default).
    pub pipe_id: usize,
    /// How to launch the game: `epic` by default, or a path to the game.
    pub launch_preference: String,
    /// Whether to run the plugin injector after the launch (yes by default).
    pub use_injector: bool,
    pub force_paging: bool,
    pub raise_on_crash: bool,
    /// Whether to minimize the game's windows after the first reset.
    pub auto_minimize: bool,
}

impl GymOptions {
    /// Applies the defaults: pipe `0`, the Epic launcher, the injector on,
    /// and no paging, raising or minimizing.
    pub fn new(
        pipe_id: Option<usize>,
        launch_preference: Option<String>,
        use_injector: Option<bool>,
        force_paging: Option<bool>,
        raise_on_crash: Option<bool>,
        auto_minimize: Option<bool>,
    ) -> (o: GymOptions)
        ensures
            o.pipe_id == (match pipe_id {
                Some(p) => p,
                None => 0usize,
            }),
            o.launch_preference@ == (match launch_preference {
                Some(p) => p@,
                None => "epic"@,
            }),
            o.use_injector == (use_injector != Some(false)),
            o.force_paging == (force_paging == Some(true)),
            o.raise_on_crash == (raise_on_crash == Some(true)),
            o.auto_minimize == (auto_minimize == Some(true)),
    {
        let pipe_id = match pipe_id {
            Some(pipe_id) => pipe_id,
            None => 0,
        };
        let launch_preference = match launch_preference {
            Some(preference) => preference,
            None => String::from_str("epic"),
        };
        let use_injector = match use_injector {
            Some(use_injector) => use_injector,
            None => true,
        };
        let force_paging = match force_paging {
            Some(force_paging) => force_paging,
            None => false,
        };
        let raise_on_crash = match raise_on_crash {
            Some(raise) => raise,
            None => false,
        };
        let auto_minimize = match auto_minimize {
            Some(auto_minimize) => auto_minimize,
            None => false,
        };
        GymOptions {
            pipe_id,
            launch_preference,
            use_injector,
            force_paging,
            raise_on_crash,
            auto_minimize,
        }
    }
}

/// Every action sent to the game holds the eight controls.
pub open spec fn spec_actions_well_sized<T>(actions: Seq<Vec<T>>) -> bool {
    forall|i: int| 0 <= i < actions.len() ==> (#[trigger] actions[i])@.len() == 8
}

/// Whether every action holds the eight controls, which sending requires.
pub fn actions_well_sized<T>(actions: &Vec<Vec<T>>) -> (r: bool)
    ensures
        r == spec_actions_well_sized(actions@),
{
    let mut i: usize = 0;
    while i < actions.len()
        invariant
            i <= actions@.len(),
            forall|j: int| 0 <= j < i ==> (#[trigger] actions@[j])@.len() == 8,
        decreases actions@.len() - i,
    {
        if actions[i].len() != 8 {
            return false;
        }
        i = i + 1;
    }
    true
}

} // verus!
