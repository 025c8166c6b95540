//! Network presets: the built-in set and the decisions taken when presets are loaded.

use vstd::prelude::*;

verus! {

/// A named set of netem values, each with its unit (`50ms`, `5%`), or empty.
#[derive(Debug)]
pub struct Preset {
    pub name: String,
    pub delay: String,
    pub jitter: String,
    pub loss: String,
    pub loss_corr: String,
    pub reorder: String,
    pub reorder_corr: String,
    pub corrupt: String,
    pub corrupt_corr: String,
    pub duplicate: String,
    pub duplicate_corr: String,
    /// Whether the user made this preset (built-in ones are not).
    pub user_defined: bool,
}

/// A preset by the characters of its fields.
pub struct PresetView {
    pub name: Seq<char>,
    pub delay: Seq<char>,
    pub jitter: Seq<char>,
    pub loss: Seq<char>,
    pub loss_corr: Seq<char>,
    pub reorder: Seq<char>,
    pub reorder_corr: Seq<char>,
    pub corrupt: Seq<char>,
    pub corrupt_corr: Seq<char>,
    pub duplicate: Seq<char>,
    pub duplicate_corr: Seq<char>,
    pub user_defined: bool,
}

impl View for Preset {
    type V = PresetView;

    open spec fn view(&self) -> PresetView {
        PresetView {
            name: self.name@,
            delay: self.delay@,
            jitter: self.jitter@,
            loss: self.loss@,
            loss_corr: self.loss_corr@,
            reorder: self.reorder@,
            reorder_corr: self.reorder_corr@,
            corrupt: self.corrupt@,
            corrupt_corr: self.corrupt_corr@,
            duplicate: self.duplicate@,
            duplicate_corr: self.duplicate_corr@,
            user_defined: self.user_defined,
        }
    }
}

impl Clone for Preset {
    fn clone(&self) -> (res: Self)
        ensures
            res == *self,
    {
        Preset {
            name: self.name.clone(),
            delay: self.delay.clone(),
            jitter: self.jitter.clone(),
            loss: self.loss.clone(),
            loss_corr: self.loss_corr.clone(),
            reorder: self.reorder.clone(),
            reorder_corr: self.reorder_corr.clone(),
            corrupt: self.corrupt.clone(),
            corrupt_corr: self.corrupt_corr.clone(),
            duplicate: self.duplicate.clone(),
            duplicate_corr: self.duplicate_corr.clone(),
            user_defined: self.user_defined,
        }
    }
}

/// A list of presets by their views.
pub open spec fn presets_view(ps: Seq<Preset>) -> Seq<PresetView> {
    ps.map_values(|p: Preset| p@)
}

/// A built-in preset: delay, jitter, loss and loss correlation set, the rest empty.
pub open spec fn builtin_view(
    name: Seq<char>,
    delay: Seq<char>,
    jitter: Seq<char>,
    loss: Seq<char>,
    loss_corr: Seq<char>,
) -> PresetView {
    PresetView {
        name,
        delay,
        jitter,
        loss,
        loss_corr,
        reorder: Seq::empty(),
        reorder_corr: Seq::empty(),
        corrupt: Seq::empty(),
        corrupt_corr: Seq::empty(),
        duplicate: Seq::empty(),
        duplicate_corr: Seq::empty(),
        user_defined: false,
    }
}

/// The built-in presets, in their order.
pub open spec fn default_preset_views() -> Seq<PresetView> {
    seq![
        builtin_view("2G (GPRS)"@, "500ms"@, "100ms"@, "5%"@, "0%"@),
        builtin_view("3G"@, "100ms"@, "20ms"@, "1%"@, "0%"@),
        builtin_view("4G"@, "20ms"@, "5ms"@, "0.1%"@, "0%"@),
        builtin_view("WiFi"@, "2ms"@, "1ms"@, "0%"@, "0%"@),
        builtin_view("Bad Network"@, "250ms"@, "50ms"@, "10%"@, "25%"@),
        builtin_view("High Latency (Satellite)"@, "600ms"@, "50ms"@, "1%"@, "0%"@),
        builtin_view("Packet Loss 100%"@, "0ms"@, "0ms"@, "100%"@, "0%"@),
    ]
}

fn builtin(name: &str, delay: &str, jitter: &str, loss: &str, loss_corr: &str) -> (res: Preset)
    ensures
        res@ == builtin_view(name@, delay@, jitter@, loss@, loss_corr@),
{
    Preset {
        name: String::from_str(name),
        delay: String::from_str(delay),
        jitter: String::from_str(jitter),
        loss: String::from_str(loss),
        loss_corr: String::from_str(loss_corr),
        reorder: String::new(),
        reorder_corr: String::new(),
        corrupt: String::new(),
        corrupt_corr: String::new(),
        duplicate: String::new(),
        duplicate_corr: String::new(),
        user_defined: false,
    }
}

/// The built-in presets: 2G, 3G, 4G, WiFi, a bad network, a satellite link and total loss.
pub fn default_presets() -> (res: Vec<Preset>)
    ensures
        presets_view(res@) == default_preset_views(),
{
    let mut v: Vec<Preset> = Vec::new();
    v.push(builtin("2G (GPRS)", "500ms", "100ms", "5%", "0%"));
    v.push(builtin("3G", "100ms", "20ms", "1%", "0%"));
    v.push(builtin("4G", "20ms", "5ms", "0.1%", "0%"));
    v.push(builtin("WiFi", "2ms", "1ms", "0%", "0%"));
    v.push(builtin("Bad Network", "250ms", "50ms", "10%", "25%"));
    v.push(builtin("High Latency (Satellite)", "600ms", "50ms", "1%", "0%"));
    v.push(builtin("Packet Loss 100%", "0ms", "0ms", "100%", "0%"));
    assert(presets_view(v@) =~= default_preset_views());
    v
}


/// There are seven built-in presets, none of them is the user's, and no two of them
/// share a name.
pub proof fn default_presets_are_builtin_and_distinct()
    ensures
        default_preset_views().len() == 7,
        forall|i: int| 0 <= i < 7 ==> !(#[trigger] default_preset_views()[i]).user_defined,
        forall|i: int, j: int|
            0 <= i < j < 7 ==> (#[trigger] default_preset_views()[i]).name != (#[trigger] default_preset_views()[j]).name,
{
    reveal_strlit("2G (GPRS)");
    reveal_strlit("3G");
    reveal_strlit("4G");
    reveal_strlit("WiFi");
    reveal_strlit("Bad Network");
    reveal_strlit("High Latency (Satellite)");
    reveal_strlit("Packet Loss 100%");
    let d = default_preset_views();
    assert(d[0].name.len() == 9);
    assert(d[1].name.len() == 2);
    assert(d[2].name.len() == 2);
    assert(d[3].name.len() == 4);
    assert(d[4].name.len() == 11);
    assert(d[5].name.len() == 24);
    assert(d[6].name.len() == 16);
    assert(d[1].name[0] != d[2].name[0]);
    assert forall|i: int, j: int| 0 <= i < j < 7 implies (#[trigger] d[i]).name != (#[trigger] d[j]).name by {
        if i == 1 && j == 2 {
            assert(d[1].name[0] != d[2].name[0]);
        }
    }
}

/// A failure of reading or writing the presets file.
#[derive(Debug, PartialEq, Eq)]
pub enum PresetsError {
    /// Reading or writing failed; the payload is the system's message.
    Io(String),
    /// The presets could not be turned into JSON or back; the payload is the message.
    Serde(String),
    /// There is no configuration directory to keep the file in.
    NoConfigDir,
}

/// The message of a presets failure.
pub open spec fn presets_error_message(e: PresetsError) -> Seq<char> {
    match e {
        PresetsError::Io(m) => "IO error: "@ + m@,
        PresetsError::Serde(m) => "Serialization error: "@ + m@,
        PresetsError::NoConfigDir => "Cannot determine config directory"@,
    }
}

impl PresetsError {
    /// The message that describes this failure.
    pub fn to_string(&self) -> (res: String)
        ensures
            res@ == presets_error_message(*self),
    {
        match self {
            PresetsError::Io(m) => String::from_str("IO error: ").concat(m.as_str()),
            PresetsError::Serde(m) => String::from_str("Serialization error: ").concat(m.as_str()),
            PresetsError::NoConfigDir => String::from_str("Cannot determine config directory"),
        }
    }
}

/// What was found where the presets file should be.
pub enum PresetsSource {
    /// There is no configuration directory.
    NoConfigDir,
    /// The file does not exist.
    Missing,
    /// The file exists but could not be read.
    Unreadable,
    /// The file was read and held these presets.
    Parsed(Vec<Preset>),
    /// The file was read but is not a valid presets file.
    Corrupted,
}

/// What to do with the presets that were found.
pub struct LoadPlan {
    /// The presets to use.
    pub presets: Vec<Preset>,
    /// Move the unreadable file aside (to `presets.json.bak`) before anything is written.
    pub back_up_file: bool,
    /// Write the presets to the file.
    pub write_presets: bool,
}

/// The presets in use after loading: those of the file where it parsed, the built-in
/// ones otherwise. A missing file is created with the built-in presets; a corrupted
/// one is backed up and then replaced by them.
pub fn plan_load(source: PresetsSource) -> (res: LoadPlan)
    ensures
        match source {
            PresetsSource::Parsed(ps) => presets_view(res.presets@) == presets_view(ps@)
                && !res.back_up_file && !res.write_presets,
            PresetsSource::Missing => presets_view(res.presets@) == default_preset_views()
                && !res.back_up_file && res.write_presets,
            PresetsSource::Corrupted => presets_view(res.presets@) == default_preset_views()
                && res.back_up_file && res.write_presets,
            _ => presets_view(res.presets@) == default_preset_views() && !res.back_up_file
                && !res.write_presets,
        },
{
    match source {
        PresetsSource::Parsed(ps) => LoadPlan { presets: ps, back_up_file: false, write_presets: false },
        PresetsSource::Missing => LoadPlan {
            presets: default_presets(),
            back_up_file: false,
            write_presets: true,
        },
        PresetsSource::Corrupted => LoadPlan {
            presets: default_presets(),
            back_up_file: true,
            write_presets: true,
        },
        _ => LoadPlan { presets: default_presets(), back_up_file: false, write_presets: false },
    }
}

} // verus!
