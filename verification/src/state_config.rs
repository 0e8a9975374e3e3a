//! The desktop side's configuration: which animation state each trigger
//! selects (`state-config.json`, with migration from the older format), and
//! the pet list shown to the user.
use vstd::prelude::*;
use crate::order::{sort_by_text_key, sorted_prefix, TextKeyed};
use crate::text::{chars_of, string_of};
use crate::types::{default_atlas, is_default_atlas, PetAtlas, PetManifest};

verus! {

/// What makes the pet switch to an animation state.
#[derive(Debug, Clone)]
pub enum TriggerConfig {
    /// One of these processes has the focus.
    ProcessFocus { processes: Vec<String> },
    /// A resource is used above the threshold (percent).
    HighResource { resource: String, threshold: u32 },
    /// Sound is playing.
    AudioPlaying,
    /// The microphone is in use.
    MicrophoneActive,
    /// The same window has had the focus for this many minutes.
    ContinuousFocus { minutes: u32 },
    /// No input for this many minutes.
    ComputerIdle { minutes: u32 },
}

/// One state and the trigger that selects it.
#[derive(Debug, Clone)]
pub struct StateMapping {
    pub state: String,
    pub trigger: TriggerConfig,
}

/// Contents of `state-config.json`.
#[derive(Debug, Clone)]
pub struct StateConfig {
    pub mappings: Vec<StateMapping>,
}

/// A mapping in the older format: a process list, or a trigger.
#[derive(Debug, Clone)]
pub struct LegacyStateMapping {
    pub state: String,
    pub processes: Vec<String>,
    pub trigger: Option<TriggerConfig>,
}

/// `state-config.json` in the older format.
#[derive(Debug, Clone)]
pub struct LegacyStateConfig {
    pub mappings: Vec<LegacyStateMapping>,
}

/// The text of each string of a list.
pub open spec fn string_views(v: Seq<String>) -> Seq<Seq<char>> {
    v.map_values(|s: String| s@)
}

/// The mapping is `state` triggered by a focus on one of `processes`.
pub open spec fn is_process_mapping(m: StateMapping, state: Seq<char>, processes: Seq<Seq<char>>) -> bool {
    &&& m.state@ == state
    &&& m.trigger matches TriggerConfig::ProcessFocus { processes: p } && string_views(p@)
        == processes
}

/// The configuration shipped with the app.
pub open spec fn is_default_state_config(c: StateConfig) -> bool {
    let m = c.mappings@;
    &&& m.len() == 7
    &&& m[0].state@ == "jumping"@ && m[0].trigger is MicrophoneActive
    &&& m[1].state@ == "waiting"@ && m[1].trigger == TriggerConfig::ComputerIdle { minutes: 5 }
    &&& m[2].state@ == "idle"@ && m[2].trigger == TriggerConfig::ContinuousFocus { minutes: 60 }
    &&& m[3].state@ == "failed"@
    &&& m[3].trigger matches TriggerConfig::HighResource { resource, threshold } && resource@
        == "cpu"@ && threshold == 90
    &&& m[4].state@ == "waving"@ && m[4].trigger is AudioPlaying
    &&& is_process_mapping(
        m[5],
        "running"@,
        seq!["cursor.exe"@, "code.exe"@, "rider.exe"@, "unity.exe"@, "devenv.exe"@],
    )
    &&& is_process_mapping(
        m[6],
        "review"@,
        seq!["photoshop.exe"@, "ps.exe"@, "afterfx.exe"@, "ae.exe"@],
    )
}

fn mapping(state: &str, trigger: TriggerConfig) -> (r: StateMapping)
    ensures
        r.state@ == state@,
        r.trigger == trigger,
{
    StateMapping { state: string_of(state), trigger }
}

impl Default for StateConfig {
    /// Microphone → jumping, five idle minutes → waiting, an hour on one
    /// window → idle, CPU above 90% → failed, sound → waving, an editor or IDE
    /// → running, an image or video tool → review.
    fn default() -> (r: Self)
        ensures
            is_default_state_config(r),
    {
        let running_apps = vec![
            string_of("cursor.exe"),
            string_of("code.exe"),
            string_of("rider.exe"),
            string_of("unity.exe"),
            string_of("devenv.exe"),
        ];
        let review_apps = vec![
            string_of("photoshop.exe"),
            string_of("ps.exe"),
            string_of("afterfx.exe"),
            string_of("ae.exe"),
        ];
        assert(string_views(running_apps@) =~= seq![
            "cursor.exe"@,
            "code.exe"@,
            "rider.exe"@,
            "unity.exe"@,
            "devenv.exe"@,
        ]);
        assert(string_views(review_apps@) =~= seq![
            "photoshop.exe"@,
            "ps.exe"@,
            "afterfx.exe"@,
            "ae.exe"@,
        ]);
        let mappings = vec![
            mapping("jumping", TriggerConfig::MicrophoneActive),
            mapping("waiting", TriggerConfig::ComputerIdle { minutes: 5 }),
            mapping("idle", TriggerConfig::ContinuousFocus { minutes: 60 }),
            mapping(
                "failed",
                TriggerConfig::HighResource { resource: string_of("cpu"), threshold: 90 },
            ),
            mapping("waving", TriggerConfig::AudioPlaying),
            mapping("running", TriggerConfig::ProcessFocus { processes: running_apps }),
            mapping("review", TriggerConfig::ProcessFocus { processes: review_apps }),
        ];
        StateConfig { mappings }
    }
}

/// What an old-format mapping becomes: its trigger when it has one, else a
/// focus trigger on its processes, and nothing when it has neither.
pub open spec fn migrated_mapping(m: LegacyStateMapping) -> Option<StateMapping> {
    match m.trigger {
        Some(t) => Some(StateMapping { state: m.state, trigger: t }),
        None => if m.processes@.len() == 0 {
            None
        } else {
            Some(
                StateMapping {
                    state: m.state,
                    trigger: TriggerConfig::ProcessFocus { processes: m.processes },
                },
            )
        },
    }
}

/// The migrated mappings of the first `k` old-format mappings, in order.
pub open spec fn migrated_prefix(ms: Seq<LegacyStateMapping>, k: int) -> Seq<StateMapping>
    decreases k,
{
    if k <= 0 {
        Seq::empty()
    } else {
        let rest = migrated_prefix(ms, k - 1);
        match migrated_mapping(ms[k - 1]) {
            Some(m) => rest.push(m),
            None => rest,
        }
    }
}

/// Convert an old-format configuration: every mapping that has a trigger or
/// processes is kept, in order; if none is left, the default configuration.
pub fn migrate_legacy_config(legacy: LegacyStateConfig) -> (r: StateConfig)
    ensures
        ({
            let kept = migrated_prefix(legacy.mappings@, legacy.mappings@.len() as int);
            if kept.len() == 0 {
                is_default_state_config(r)
            } else {
                r.mappings@ == kept
            }
        }),
{
    let ghost orig = legacy.mappings@;
    let mut mappings: Vec<StateMapping> = Vec::new();
    for m in it: legacy.mappings.into_iter()
        invariant
            it.seq() == orig,
            mappings@ == migrated_prefix(orig, it.index() as int),
    {
        let ghost i = it.index();
        let ghost cur = m;
        match m.trigger {
            Some(t) => {
                mappings.push(StateMapping { state: m.state, trigger: t });
            },
            None => {
                if m.processes.len() > 0 {
                    mappings.push(
                        StateMapping {
                            state: m.state,
                            trigger: TriggerConfig::ProcessFocus { processes: m.processes },
                        },
                    );
                }
            },
        }
        assert(cur == orig[i as int]);
    }
    if mappings.len() == 0 {
        return StateConfig::default();
    }
    StateConfig { mappings }
}

/// A pet in the list shown to the user.
#[derive(Debug, Clone)]
pub struct PetListItem {
    pub folder_id: String,
    pub display_name: String,
    pub description: String,
    pub spritesheet_path: String,
}

impl TextKeyed for PetListItem {
    open spec fn sort_key(&self) -> (Seq<char>, Seq<char>) {
        (self.display_name@, Seq::empty())
    }

    fn sort_key_exec(&self) -> (r: (Vec<char>, Vec<char>)) {
        (chars_of(self.display_name.as_str()), Vec::new())
    }
}

/// Sort the pet list by display name; pets with the same name keep their order.
pub fn sort_pet_list(items: Vec<PetListItem>) -> (r: Vec<PetListItem>)
    ensures
        r@ == sorted_prefix(items@, items@.len() as int),
        crate::order::keys_sorted(r@),
        r@.to_multiset() == items@.to_multiset(),
{
    sort_by_text_key(items)
}

/// A pet's details: folder, manifest and atlas layout.
#[derive(Debug, Clone)]
pub struct PetDetailDto {
    pub folder_id: String,
    pub manifest: PetManifest,
    pub atlas: PetAtlas,
}

/// The atlas of a pet folder, and whether it has to be written.
pub struct AtlasLoad {
    pub atlas: Result<PetAtlas, String>,
    pub write_default: bool,
}

/// The atlas layout of a pet folder: what `pet-atlas.json` holds (or the
/// error reading it) when the file exists; otherwise the standard layout,
/// which is then to be written to the folder.
pub fn load_or_create_atlas(stored: Option<Result<PetAtlas, String>>) -> (r: AtlasLoad)
    ensures
        r.write_default <==> stored is None,
        stored matches Some(s) ==> r.atlas == s,
        stored is None ==> (r.atlas matches Ok(a) && is_default_atlas(a)),
{
    match stored {
        Some(s) => AtlasLoad { atlas: s, write_default: false },
        None => AtlasLoad { atlas: Ok(default_atlas()), write_default: true },
    }
}

} // verus!
