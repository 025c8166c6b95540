//! The state of the application: the presets in use and the emulation status.

use vstd::prelude::*;
use crate::error::AppError;
use crate::presets::{default_preset_views, default_presets, presets_view, Preset, PresetView};

verus! {

/// The presets, whether emulation is on, the description of the active configuration
/// and the selected network interface.
pub struct AppState {
    presets: Vec<Preset>,
    active: bool,
    current_config: String,
    selected_iface: String,
}

/// The state by its contents.
pub struct AppStateView {
    pub presets: Seq<PresetView>,
    pub active: bool,
    pub current_config: Seq<char>,
    pub selected_iface: Seq<char>,
}

impl View for AppState {
    type V = AppStateView;

    closed spec fn view(&self) -> AppStateView {
        AppStateView {
            presets: presets_view(self.presets@),
            active: self.active,
            current_config: self.current_config@,
            selected_iface: self.selected_iface@,
        }
    }
}

/// The first preset named `name`, if any.
pub open spec fn find_named(ps: Seq<PresetView>, name: Seq<char>) -> Option<PresetView>
    decreases ps.len(),
{
    if ps.len() == 0 {
        None
    } else if ps[0].name == name {
        Some(ps[0])
    } else {
        find_named(ps.drop_first(), name)
    }
}

/// The presets not named `name`, in their order.
pub open spec fn without_name(ps: Seq<PresetView>, name: Seq<char>) -> Seq<PresetView>
    decreases ps.len(),
{
    if ps.len() == 0 {
        Seq::empty()
    } else if ps.last().name == name {
        without_name(ps.drop_last(), name)
    } else {
        without_name(ps.drop_last(), name).push(ps.last())
    }
}

/// The name of a built-in preset.
pub open spec fn is_builtin_name(name: Seq<char>) -> bool {
    exists|i: int| 0 <= i < default_preset_views().len() && (#[trigger] default_preset_views()[i]).name == name
}

/// No two presets share a name.
pub open spec fn names_distinct(ps: Seq<PresetView>) -> bool {
    forall|i: int, j: int| 0 <= i < j < ps.len() ==> (#[trigger] ps[i]).name != (#[trigger] ps[j]).name
}

/// An optional preset by its view.
pub open spec fn opt_preset_view(o: Option<Preset>) -> Option<PresetView> {
    match o {
        Some(p) => Some(p@),
        None => None,
    }
}

/// The presets without those named `name`.
fn remove_named(ps: &Vec<Preset>, name: &String) -> (res: Vec<Preset>)
    ensures
        presets_view(res@) == without_name(presets_view(ps@), name@),
{
    let ghost pv = presets_view(ps@);
    let mut out: Vec<Preset> = Vec::new();
    let mut i: usize = 0;
    while i < ps.len()
        invariant
            i <= ps.len(),
            pv == presets_view(ps@),
            presets_view(out@) == without_name(pv.subrange(0, i as int), name@),
        decreases ps.len() - i,
    {
        let ghost sub = pv.subrange(0, i + 1);
        assert(sub.drop_last() =~= pv.subrange(0, i as int));
        assert(sub.last() == ps@[i as int]@);
        if ps[i].name != *name {
            out.push(ps[i].clone());
            assert(presets_view(out@) =~= without_name(pv.subrange(0, i as int), name@).push(ps@[i as int]@));
        }
        i = i + 1;
    }
    assert(pv.subrange(0, ps.len() as int) =~= pv);
    out
}

impl AppState {
    /// A state with these presets, emulation off, no configuration and `lo` selected.
    pub fn new(presets: Vec<Preset>) -> (res: Self)
        ensures
            res@.presets == presets_view(presets@),
            !res@.active,
            res@.current_config == Seq::<char>::empty(),
            res@.selected_iface == "lo"@,
    {
        AppState {
            presets,
            active: false,
            current_config: String::new(),
            selected_iface: String::from_str("lo"),
        }
    }

    /// Whether emulation is on.
    pub fn is_active(&self) -> (res: bool)
        ensures
            res == self@.active,
    {
        self.active
    }

    /// Records whether emulation is on.
    pub fn set_active(&mut self, val: bool)
        ensures
            final(self)@ == (AppStateView { active: val, ..old(self)@ }),
    {
        self.active = val;
    }

    /// The description of the active configuration.
    pub fn current_config(&self) -> (res: String)
        ensures
            res@ == self@.current_config,
    {
        self.current_config.clone()
    }

    /// Records the description of the active configuration.
    pub fn set_current_config(&mut self, config: &str)
        ensures
            final(self)@ == (AppStateView { current_config: config@, ..old(self)@ }),
    {
        self.current_config = String::from_str(config);
    }

    /// The selected network interface.
    pub fn selected_iface(&self) -> (res: String)
        ensures
            res@ == self@.selected_iface,
    {
        self.selected_iface.clone()
    }

    /// Records the selected network interface.
    pub fn set_selected_iface(&mut self, iface: &str)
        ensures
            final(self)@ == (AppStateView { selected_iface: iface@, ..old(self)@ }),
    {
        self.selected_iface = String::from_str(iface);
    }

    /// A copy of the presets.
    pub fn get_presets(&self) -> (res: Vec<Preset>)
        ensures
            presets_view(res@) == self@.presets,
    {
        let mut out: Vec<Preset> = Vec::new();
        let mut i: usize = 0;
        while i < self.presets.len()
            invariant
                i <= self.presets.len(),
                presets_view(out@) == presets_view(self.presets@.subrange(0, i as int)),
            decreases self.presets.len() - i,
        {
            out.push(self.presets[i].clone());
            assert(presets_view(self.presets@.subrange(0, i + 1)) =~= presets_view(
                self.presets@.subrange(0, i as int),
            ).push(self.presets@[i as int]@));
            i = i + 1;
        }
        assert(self.presets@.subrange(0, self.presets.len() as int) =~= self.presets@);
        out
    }

    /// A copy of the first preset named `name`, if there is one.
    pub fn find_preset(&self, name: &str) -> (res: Option<Preset>)
        ensures
            opt_preset_view(res) == find_named(self@.presets, name@),
    {
        let ghost pv = presets_view(self.presets@);
        let key = String::from_str(name);
        let len = self.presets.len();
        let mut i: usize = 0;
        assert(pv.subrange(0, len as int) =~= pv);
        while i < len
            invariant
                len == self.presets.len(),
                i <= len,
                pv == presets_view(self.presets@),
                key@ == name@,
                find_named(pv, name@) == find_named(pv.subrange(i as int, len as int), name@),
            decreases len - i,
        {
            let ghost sub = pv.subrange(i as int, len as int);
            assert(sub[0] == self.presets@[i as int]@);
            if self.presets[i].name == key {
                return Some(self.presets[i].clone());
            }
            assert(sub.drop_first() =~= pv.subrange(i + 1, len as int));
            i = i + 1;
        }
        None
    }

    /// Replaces the presets by the built-in ones.
    pub fn reset_to_defaults(&mut self)
        ensures
            final(self)@ == (AppStateView { presets: default_preset_views(), ..old(self)@ }),
    {
        self.presets = default_presets();
    }

    /// Adds `preset`, in place of any preset of the same name, at the end. A built-in
    /// name is refused and nothing changes.
    pub fn upsert_preset(&mut self, preset: Preset) -> (res: Result<(), AppError>)
        ensures
            is_builtin_name(preset.name@) ==> (res matches Err(AppError::Other(m)) && m@
                == "Cannot overwrite built-in preset."@ && final(self)@ == old(self)@),
            !is_builtin_name(preset.name@) ==> res is Ok && final(self)@ == (AppStateView {
                presets: without_name(old(self)@.presets, preset.name@).push(preset@),
                ..old(self)@
            }),
    {
        let defaults = default_presets();
        let mut i: usize = 0;
        while i < defaults.len()
            invariant
                i <= defaults.len(),
                presets_view(defaults@) == default_preset_views(),
                forall|j: int| 0 <= j < i ==> (#[trigger] default_preset_views()[j]).name != preset.name@,
            decreases defaults.len() - i,
        {
            assert(defaults@[i as int]@ == default_preset_views()[i as int]);
            if defaults[i].name == preset.name {
                return Err(AppError::Other(String::from_str("Cannot overwrite built-in preset.")));
            }
            i = i + 1;
        }
        let mut kept = remove_named(&self.presets, &preset.name);
        kept.push(preset);
        assert(presets_view(kept@) =~= without_name(old(self)@.presets, preset.name@).push(preset@));
        self.presets = kept;
        Ok(())
    }

    /// Removes the presets named `name`. Refused, with nothing changed, when there is
    /// none or when the first of them is built-in.
    pub fn delete_preset(&mut self, name: &str) -> (res: Result<(), AppError>)
        ensures
            match find_named(old(self)@.presets, name@) {
                None => res matches Err(AppError::Other(m)) && m@ == "Preset not found."@
                    && final(self)@ == old(self)@,
                Some(p) => if p.user_defined {
                    res is Ok && final(self)@ == (AppStateView {
                        presets: without_name(old(self)@.presets, name@),
                        ..old(self)@
                    })
                } else {
                    res matches Err(AppError::Other(m)) && m@ == "Cannot delete built-in preset."@
                        && final(self)@ == old(self)@
                },
            },
    {
        match self.find_preset(name) {
            None => {
                return Err(AppError::Other(String::from_str("Preset not found.")));
            },
            Some(p) => {
                if !p.user_defined {
                    return Err(AppError::Other(String::from_str("Cannot delete built-in preset.")));
                }
            },
        }
        let key = String::from_str(name);
        self.presets = remove_named(&self.presets, &key);
        Ok(())
    }
}


/// No preset that `without_name` keeps is named `name`, and each of them is one of
/// the given presets.
proof fn lemma_without_name(ps: Seq<PresetView>, name: Seq<char>)
    ensures
        forall|k: int| 0 <= k < without_name(ps, name).len() ==> (#[trigger] without_name(ps, name)[k]).name != name,
        forall|k: int| 0 <= k < without_name(ps, name).len() ==> exists|j: int|
            0 <= j < ps.len() && ps[j] == #[trigger] without_name(ps, name)[k],
    decreases ps.len(),
{
    if ps.len() > 0 {
        let init = ps.drop_last();
        lemma_without_name(init, name);
        let r = without_name(init, name);
        assert forall|k: int| 0 <= k < without_name(ps, name).len() implies exists|j: int|
            0 <= j < ps.len() && ps[j] == #[trigger] without_name(ps, name)[k] by {
            if k < r.len() {
                let j = choose|j: int| 0 <= j < init.len() && init[j] == r[k];
                assert(ps[j] == init[j]);
            } else {
                assert(ps[ps.len() - 1] == without_name(ps, name)[k]);
            }
        }
    }
}

/// Keeping the presets not named `name` keeps names distinct.
proof fn lemma_without_name_distinct(ps: Seq<PresetView>, name: Seq<char>)
    requires
        names_distinct(ps),
    ensures
        names_distinct(without_name(ps, name)),
    decreases ps.len(),
{
    if ps.len() > 0 {
        let init = ps.drop_last();
        assert(names_distinct(init)) by {
            assert forall|i: int, j: int| 0 <= i < j < init.len() implies (#[trigger] init[i]).name
                != (#[trigger] init[j]).name by {
                assert(init[i] == ps[i] && init[j] == ps[j]);
            }
        }
        lemma_without_name_distinct(init, name);
        lemma_without_name(init, name);
        let r = without_name(init, name);
        if ps.last().name != name {
            let w = r.push(ps.last());
            assert forall|i: int, j: int| 0 <= i < j < w.len() implies (#[trigger] w[i]).name
                != (#[trigger] w[j]).name by {
                if j == r.len() {
                    let m = choose|m: int| 0 <= m < init.len() && init[m] == r[i];
                    assert(ps[m] == init[m]);
                    assert(ps[ps.len() - 1] == ps.last());
                } else {
                    assert(w[i] == r[i] && w[j] == r[j]);
                }
            }
        }
    }
}

/// There is no preset named `name` among presets of which none has that name.
proof fn lemma_find_absent(ps: Seq<PresetView>, name: Seq<char>)
    requires
        forall|k: int| 0 <= k < ps.len() ==> (#[trigger] ps[k]).name != name,
    ensures
        find_named(ps, name) is None,
    decreases ps.len(),
{
    if ps.len() > 0 {
        assert(ps[0].name != name);
        let rest = ps.drop_first();
        assert forall|k: int| 0 <= k < rest.len() implies (#[trigger] rest[k]).name != name by {
            assert(rest[k] == ps[k + 1]);
        }
        lemma_find_absent(rest, name);
    }
}

/// Looking a name up, where only the last preset has it, finds the last preset.
proof fn lemma_find_last(ps: Seq<PresetView>, p: PresetView)
    requires
        forall|k: int| 0 <= k < ps.len() ==> (#[trigger] ps[k]).name != p.name,
    ensures
        find_named(ps.push(p), p.name) == Some(p),
    decreases ps.len(),
{
    if ps.len() > 0 {
        let rest = ps.drop_first();
        assert(ps.push(p).drop_first() =~= rest.push(p));
        assert(ps.push(p)[0] == ps[0]);
        assert forall|k: int| 0 <= k < rest.len() implies (#[trigger] rest[k]).name != p.name by {
            assert(rest[k] == ps[k + 1]);
        }
        lemma_find_last(rest, p);
    } else {
        assert(ps.push(p)[0] == p);
    }
}

/// After a preset is saved under its name, looking that name up finds it.
pub proof fn saved_preset_is_found(presets: Seq<PresetView>, p: PresetView)
    ensures
        find_named(without_name(presets, p.name).push(p), p.name) == Some(p),
{
    lemma_without_name(presets, p.name);
    lemma_find_last(without_name(presets, p.name), p);
}

/// After the presets of a name are deleted, looking that name up finds nothing.
pub proof fn deleted_preset_is_gone(presets: Seq<PresetView>, name: Seq<char>)
    ensures
        find_named(without_name(presets, name), name) is None,
{
    lemma_without_name(presets, name);
    lemma_find_absent(without_name(presets, name), name);
}

/// Saving a preset keeps the names of the presets distinct, and so does deleting one.
pub proof fn preset_names_stay_distinct(presets: Seq<PresetView>, p: PresetView, name: Seq<char>)
    requires
        names_distinct(presets),
    ensures
        names_distinct(without_name(presets, p.name).push(p)),
        names_distinct(without_name(presets, name)),
{
    lemma_without_name_distinct(presets, p.name);
    lemma_without_name_distinct(presets, name);
    lemma_without_name(presets, p.name);
    let r = without_name(presets, p.name);
    let w = r.push(p);
    assert forall|i: int, j: int| 0 <= i < j < w.len() implies (#[trigger] w[i]).name != (#[trigger] w[j]).name by {
        if j == r.len() {
            assert(w[i] == r[i]);
        } else {
            assert(w[i] == r[i] && w[j] == r[j]);
        }
    }
}

/// The built-in presets have distinct names, so a state reset to them does too.
pub proof fn default_preset_names_distinct()
    ensures
        names_distinct(default_preset_views()),
{
    crate::presets::default_presets_are_builtin_and_distinct();
}

/// Every built-in preset's name is a built-in name, so saving a preset under any of the
/// seven names (2G (GPRS), 3G, 4G, WiFi, Bad Network, High Latency (Satellite), Packet
/// Loss 100%) is refused and changes nothing; a name that no built-in preset has is not
/// built-in.
pub proof fn every_builtin_name_is_protected(name: Seq<char>)
    ensures
        forall|i: int| 0 <= i < default_preset_views().len() ==> is_builtin_name(#[trigger] default_preset_views()[i].name),
        is_builtin_name("2G (GPRS)"@),
        is_builtin_name("3G"@),
        is_builtin_name("4G"@),
        is_builtin_name("WiFi"@),
        is_builtin_name("Bad Network"@),
        is_builtin_name("High Latency (Satellite)"@),
        is_builtin_name("Packet Loss 100%"@),
        (forall|i: int| 0 <= i < default_preset_views().len() ==> (#[trigger] default_preset_views()[i]).name != name)
            ==> !is_builtin_name(name),
{
    let d = default_preset_views();
    assert forall|i: int| 0 <= i < d.len() implies is_builtin_name(#[trigger] d[i].name) by {
        assert(d[i].name == d[i].name);
    }
    assert(is_builtin_name(d[0].name));
    assert(is_builtin_name(d[1].name));
    assert(is_builtin_name(d[2].name));
    assert(is_builtin_name(d[3].name));
    assert(is_builtin_name(d[4].name));
    assert(is_builtin_name(d[5].name));
    assert(is_builtin_name(d[6].name));
}

} // verus!
