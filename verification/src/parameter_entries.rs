//! The netem values as the user gave them, without units.

use vstd::prelude::*;
use crate::helpers::{filter_numeric, numeric_filtered, strip_units, units_stripped};
use crate::presets::{Preset, PresetView};
use crate::tc::NumberClass;

verus! {

/// How each of the ten netem values reads as a number (see `NumberClass`), in the
/// order delay, jitter, loss, loss correlation, reorder, reorder correlation, corrupt,
/// corrupt correlation, duplicate, duplicate correlation.
#[derive(Clone, Copy, Debug, PartialEq, Eq, Structural)]
pub struct NumberClasses {
    pub delay: NumberClass,
    pub jitter: NumberClass,
    pub loss: NumberClass,
    pub loss_corr: NumberClass,
    pub reorder: NumberClass,
    pub reorder_corr: NumberClass,
    pub corrupt: NumberClass,
    pub corrupt_corr: NumberClass,
    pub duplicate: NumberClass,
    pub duplicate_corr: NumberClass,
}

/// The netem values without units; an optional value that is absent was empty or zero.
#[derive(Debug, PartialEq, Eq)]
pub struct ParsedParams {
    pub delay: String,
    pub jitter: Option<String>,
    pub loss: Option<String>,
    pub loss_corr: Option<String>,
    pub reorder: Option<String>,
    pub reorder_corr: Option<String>,
    pub corrupt: Option<String>,
    pub corrupt_corr: Option<String>,
    pub duplicate: Option<String>,
    pub duplicate_corr: Option<String>,
}

/// The values by their characters.
pub struct ParsedParamsView {
    pub delay: Seq<char>,
    pub jitter: Option<Seq<char>>,
    pub loss: Option<Seq<char>>,
    pub loss_corr: Option<Seq<char>>,
    pub reorder: Option<Seq<char>>,
    pub reorder_corr: Option<Seq<char>>,
    pub corrupt: Option<Seq<char>>,
    pub corrupt_corr: Option<Seq<char>>,
    pub duplicate: Option<Seq<char>>,
    pub duplicate_corr: Option<Seq<char>>,
}

/// An optional string by its characters.
pub open spec fn opt_chars(o: Option<String>) -> Option<Seq<char>> {
    match o {
        Some(s) => Some(s@),
        None => None,
    }
}

impl View for ParsedParams {
    type V = ParsedParamsView;

    open spec fn view(&self) -> ParsedParamsView {
        ParsedParamsView {
            delay: self.delay@,
            jitter: opt_chars(self.jitter),
            loss: opt_chars(self.loss),
            loss_corr: opt_chars(self.loss_corr),
            reorder: opt_chars(self.reorder),
            reorder_corr: opt_chars(self.reorder_corr),
            corrupt: opt_chars(self.corrupt),
            corrupt_corr: opt_chars(self.corrupt_corr),
            duplicate: opt_chars(self.duplicate),
            duplicate_corr: opt_chars(self.duplicate_corr),
        }
    }
}

/// An optional value: absent when `s` is empty or reads as zero.
pub open spec fn optional_value(s: Seq<char>, class: NumberClass) -> Option<Seq<char>> {
    if s.len() == 0 || class is Zero {
        None
    } else {
        Some(s)
    }
}

/// `s`, or nothing when it is empty or reads as zero (`class`).
fn maybe_empty(s: String, class: NumberClass) -> (res: Option<String>)
    ensures
        opt_chars(res) == optional_value(s@, class),
{
    if s.unicode_len() == 0 {
        return None;
    }
    match class {
        NumberClass::Zero => None,
        _ => Some(s),
    }
}

/// The values of ten texts with units: the delay stripped of its unit, the others
/// stripped and left out when empty or zero.
pub open spec fn params_from_texts(
    delay: Seq<char>,
    jitter: Seq<char>,
    loss: Seq<char>,
    loss_corr: Seq<char>,
    reorder: Seq<char>,
    reorder_corr: Seq<char>,
    corrupt: Seq<char>,
    corrupt_corr: Seq<char>,
    duplicate: Seq<char>,
    duplicate_corr: Seq<char>,
    classes: NumberClasses,
) -> ParsedParamsView {
    ParsedParamsView {
        delay: units_stripped(delay),
        jitter: optional_value(units_stripped(jitter), classes.jitter),
        loss: optional_value(units_stripped(loss), classes.loss),
        loss_corr: optional_value(units_stripped(loss_corr), classes.loss_corr),
        reorder: optional_value(units_stripped(reorder), classes.reorder),
        reorder_corr: optional_value(units_stripped(reorder_corr), classes.reorder_corr),
        corrupt: optional_value(units_stripped(corrupt), classes.corrupt),
        corrupt_corr: optional_value(units_stripped(corrupt_corr), classes.corrupt_corr),
        duplicate: optional_value(units_stripped(duplicate), classes.duplicate),
        duplicate_corr: optional_value(units_stripped(duplicate_corr), classes.duplicate_corr),
    }
}

/// The values of a preset.
pub open spec fn params_from_preset(p: PresetView, classes: NumberClasses) -> ParsedParamsView {
    params_from_texts(
        p.delay,
        p.jitter,
        p.loss,
        p.loss_corr,
        p.reorder,
        p.reorder_corr,
        p.corrupt,
        p.corrupt_corr,
        p.duplicate,
        p.duplicate_corr,
        classes,
    )
}

/// " (corr: <c>%)" for a present correlation.
pub open spec fn corr_part(c: Option<Seq<char>>) -> Seq<char> {
    match c {
        Some(c) => " (corr: "@ + c + "%)"@,
        None => Seq::empty(),
    }
}

/// ", <label>: <v>%" and the correlation, for a present value.
pub open spec fn percent_part(label: Seq<char>, v: Option<Seq<char>>, c: Option<Seq<char>>) -> Seq<char> {
    match v {
        Some(v) => ", "@ + label + ": "@ + v + "%"@ + corr_part(c),
        None => Seq::empty(),
    }
}

/// "Delay: <d>ms", then the present values, separated by ", ".
pub open spec fn description(p: ParsedParamsView) -> Seq<char> {
    "Delay: "@ + p.delay + "ms"@ + match p.jitter {
        Some(j) => ", Jitter: "@ + j + "ms"@,
        None => Seq::empty(),
    } + percent_part("Loss"@, p.loss, p.loss_corr) + percent_part("Reorder"@, p.reorder, p.reorder_corr)
        + percent_part("Corrupt"@, p.corrupt, p.corrupt_corr) + percent_part(
        "Duplicate"@,
        p.duplicate,
        p.duplicate_corr,
    )
}

fn append_percent_part(s: &mut String, label: &str, v: &Option<String>, c: &Option<String>)
    ensures
        final(s)@ == old(s)@ + percent_part(label@, opt_chars(*v), opt_chars(*c)),
{
    if let Some(v) = v {
        s.append(", ");
        s.append(label);
        s.append(": ");
        s.append(v.as_str());
        s.append("%");
        if let Some(c) = c {
            s.append(" (corr: ");
            s.append(c.as_str());
            s.append("%)");
        }
    }
    assert(final(s)@ =~= old(s)@ + percent_part(label@, opt_chars(*v), opt_chars(*c)));
}

/// The text that an optional value gives to an entry: its digits and first dot, or
/// nothing.
pub open spec fn entry_text(v: Option<Seq<char>>) -> Seq<char> {
    match v {
        Some(v) => numeric_filtered(v),
        None => Seq::empty(),
    }
}

fn entry_text_of(v: &Option<String>) -> (res: String)
    ensures
        res@ == entry_text(opt_chars(*v)),
{
    match v {
        Some(s) => filter_numeric(s.as_str()),
        None => String::new(),
    }
}

impl ParsedParams {
    /// "Delay: <d>ms", then "Jitter: <j>ms" and "<Name>: <v>%" with " (corr: <c>%)" for
    /// each value that is present, separated by ", ".
    pub fn describe(&self) -> (res: String)
        ensures
            res@ == description(self@),
    {
        let mut s = String::from_str("Delay: ");
        s.append(self.delay.as_str());
        s.append("ms");
        if let Some(j) = &self.jitter {
            s.append(", Jitter: ");
            s.append(j.as_str());
            s.append("ms");
        }
        append_percent_part(&mut s, "Loss", &self.loss, &self.loss_corr);
        append_percent_part(&mut s, "Reorder", &self.reorder, &self.reorder_corr);
        append_percent_part(&mut s, "Corrupt", &self.corrupt, &self.corrupt_corr);
        append_percent_part(&mut s, "Duplicate", &self.duplicate, &self.duplicate_corr);
        assert(s@ =~= description(self@));
        s
    }

    /// The values of ten texts with units, each stripped of its unit; an optional value
    /// is left out when it is empty or zero. `classes` tells how each stripped text
    /// reads as a number.
    pub fn from_texts(
        delay: &str,
        jitter: &str,
        loss: &str,
        loss_corr: &str,
        reorder: &str,
        reorder_corr: &str,
        corrupt: &str,
        corrupt_corr: &str,
        duplicate: &str,
        duplicate_corr: &str,
        classes: &NumberClasses,
    ) -> (res: ParsedParams)
        ensures
            res@ == params_from_texts(
                delay@,
                jitter@,
                loss@,
                loss_corr@,
                reorder@,
                reorder_corr@,
                corrupt@,
                corrupt_corr@,
                duplicate@,
                duplicate_corr@,
                *classes,
            ),
    {
        ParsedParams {
            delay: strip_units(delay),
            jitter: maybe_empty(strip_units(jitter), classes.jitter),
            loss: maybe_empty(strip_units(loss), classes.loss),
            loss_corr: maybe_empty(strip_units(loss_corr), classes.loss_corr),
            reorder: maybe_empty(strip_units(reorder), classes.reorder),
            reorder_corr: maybe_empty(strip_units(reorder_corr), classes.reorder_corr),
            corrupt: maybe_empty(strip_units(corrupt), classes.corrupt),
            corrupt_corr: maybe_empty(strip_units(corrupt_corr), classes.corrupt_corr),
            duplicate: maybe_empty(strip_units(duplicate), classes.duplicate),
            duplicate_corr: maybe_empty(strip_units(duplicate_corr), classes.duplicate_corr),
        }
    }

    /// The values of a preset, each stripped of its unit; an optional value is left out
    /// when it is empty or zero. `classes` tells how each stripped value reads as a number.
    pub fn from_preset(preset: &Preset, classes: &NumberClasses) -> (res: ParsedParams)
        ensures
            res@ == params_from_preset(preset@, *classes),
    {
        ParsedParams::from_texts(
            preset.delay.as_str(),
            preset.jitter.as_str(),
            preset.loss.as_str(),
            preset.loss_corr.as_str(),
            preset.reorder.as_str(),
            preset.reorder_corr.as_str(),
            preset.corrupt.as_str(),
            preset.corrupt_corr.as_str(),
            preset.duplicate.as_str(),
            preset.duplicate_corr.as_str(),
            classes,
        )
    }

    /// The ten entry texts for these values, in the order of `NumberClasses`: the digits
    /// and first dot of each value, and the empty text for an absent one.
    pub fn entry_texts(&self) -> (res: Vec<String>)
        ensures
            res@.len() == 10,
            res@[0]@ == numeric_filtered(self.delay@),
            res@[1]@ == entry_text(opt_chars(self.jitter)),
            res@[2]@ == entry_text(opt_chars(self.loss)),
            res@[3]@ == entry_text(opt_chars(self.loss_corr)),
            res@[4]@ == entry_text(opt_chars(self.reorder)),
            res@[5]@ == entry_text(opt_chars(self.reorder_corr)),
            res@[6]@ == entry_text(opt_chars(self.corrupt)),
            res@[7]@ == entry_text(opt_chars(self.corrupt_corr)),
            res@[8]@ == entry_text(opt_chars(self.duplicate)),
            res@[9]@ == entry_text(opt_chars(self.duplicate_corr)),
    {
        let mut v: Vec<String> = Vec::new();
        v.push(filter_numeric(self.delay.as_str()));
        v.push(entry_text_of(&self.jitter));
        v.push(entry_text_of(&self.loss));
        v.push(entry_text_of(&self.loss_corr));
        v.push(entry_text_of(&self.reorder));
        v.push(entry_text_of(&self.reorder_corr));
        v.push(entry_text_of(&self.corrupt));
        v.push(entry_text_of(&self.corrupt_corr));
        v.push(entry_text_of(&self.duplicate));
        v.push(entry_text_of(&self.duplicate_corr));
        v
    }
}

/// Reading values keeps the delay as its stripped text, and drops an optional value
/// exactly when its stripped text is empty or reads as zero: any other value (negative,
/// no number, above zero, above 100) is kept as its stripped text.
pub proof fn optional_values_dropped_only_when_empty_or_zero(
    delay: Seq<char>,
    jitter: Seq<char>,
    loss: Seq<char>,
    loss_corr: Seq<char>,
    reorder: Seq<char>,
    reorder_corr: Seq<char>,
    corrupt: Seq<char>,
    corrupt_corr: Seq<char>,
    duplicate: Seq<char>,
    duplicate_corr: Seq<char>,
    classes: NumberClasses,
)
    ensures
        params_from_texts(delay, jitter, loss, loss_corr, reorder, reorder_corr, corrupt, corrupt_corr, duplicate, duplicate_corr, classes).delay
            == units_stripped(delay),
        params_from_texts(delay, jitter, loss, loss_corr, reorder, reorder_corr, corrupt, corrupt_corr, duplicate, duplicate_corr, classes).jitter
            == (if units_stripped(jitter).len() == 0 || classes.jitter is Zero { None } else { Some(units_stripped(jitter)) }),
        params_from_texts(delay, jitter, loss, loss_corr, reorder, reorder_corr, corrupt, corrupt_corr, duplicate, duplicate_corr, classes).loss
            == (if units_stripped(loss).len() == 0 || classes.loss is Zero { None } else { Some(units_stripped(loss)) }),
        params_from_texts(delay, jitter, loss, loss_corr, reorder, reorder_corr, corrupt, corrupt_corr, duplicate, duplicate_corr, classes).loss_corr
            == (if units_stripped(loss_corr).len() == 0 || classes.loss_corr is Zero { None } else { Some(units_stripped(loss_corr)) }),
        params_from_texts(delay, jitter, loss, loss_corr, reorder, reorder_corr, corrupt, corrupt_corr, duplicate, duplicate_corr, classes).reorder
            == (if units_stripped(reorder).len() == 0 || classes.reorder is Zero { None } else { Some(units_stripped(reorder)) }),
        params_from_texts(delay, jitter, loss, loss_corr, reorder, reorder_corr, corrupt, corrupt_corr, duplicate, duplicate_corr, classes).reorder_corr
            == (if units_stripped(reorder_corr).len() == 0 || classes.reorder_corr is Zero { None } else { Some(units_stripped(reorder_corr)) }),
        params_from_texts(delay, jitter, loss, loss_corr, reorder, reorder_corr, corrupt, corrupt_corr, duplicate, duplicate_corr, classes).corrupt
            == (if units_stripped(corrupt).len() == 0 || classes.corrupt is Zero { None } else { Some(units_stripped(corrupt)) }),
        params_from_texts(delay, jitter, loss, loss_corr, reorder, reorder_corr, corrupt, corrupt_corr, duplicate, duplicate_corr, classes).corrupt_corr
            == (if units_stripped(corrupt_corr).len() == 0 || classes.corrupt_corr is Zero { None } else { Some(units_stripped(corrupt_corr)) }),
        params_from_texts(delay, jitter, loss, loss_corr, reorder, reorder_corr, corrupt, corrupt_corr, duplicate, duplicate_corr, classes).duplicate
            == (if units_stripped(duplicate).len() == 0 || classes.duplicate is Zero { None } else { Some(units_stripped(duplicate)) }),
        params_from_texts(delay, jitter, loss, loss_corr, reorder, reorder_corr, corrupt, corrupt_corr, duplicate, duplicate_corr, classes).duplicate_corr
            == (if units_stripped(duplicate_corr).len() == 0 || classes.duplicate_corr is Zero { None } else { Some(units_stripped(duplicate_corr)) }),
{
}

/// `t` occurs in `d` as a contiguous part.
pub open spec fn has_infix(d: Seq<char>, t: Seq<char>) -> bool {
    exists|k: int| 0 <= k && k + t.len() <= d.len() && #[trigger] d.subrange(k, k + t.len()) == t
}

proof fn lemma_infix(a: Seq<char>, t: Seq<char>, b: Seq<char>)
    ensures
        has_infix(a + t + b, t),
{
    assert((a + t + b).subrange(a.len() as int, (a.len() + t.len()) as int) =~= t);
}

proof fn lemma_part_infix(pre: Seq<char>, label: Seq<char>, v: Seq<char>, c: Option<Seq<char>>, post: Seq<char>)
    ensures
        c is Some ==> has_infix(
            pre + percent_part(label, Some(v), c) + post,
            label + ": "@ + v + "%"@ + " (corr: "@ + c->Some_0 + "%)"@,
        ),
        c is None ==> has_infix(pre + percent_part(label, Some(v), c) + post, ", "@ + label + ": "@ + v + "%"@),
{
    let part = percent_part(label, Some(v), c);
    if c is Some {
        let t = label + ": "@ + v + "%"@ + " (corr: "@ + c->Some_0 + "%)"@;
        assert(pre + part + post =~= (pre + ", "@) + t + post);
        lemma_infix(pre + ", "@, t, post);
    } else {
        let t = ", "@ + label + ": "@ + v + "%"@;
        assert(pre + part + post =~= pre + t + post);
        lemma_infix(pre, t, post);
    }
}

/// The head of a description: the delay and the jitter.
spec fn description_head(p: ParsedParamsView) -> Seq<char> {
    "Delay: "@ + p.delay + "ms"@ + match p.jitter {
        Some(j) => ", Jitter: "@ + j + "ms"@,
        None => Seq::empty(),
    }
}

proof fn lemma_description_loss(p: ParsedParamsView)
    requires
        p.loss is Some,
    ensures
        p.loss_corr is Some ==> has_infix(
            description(p),
            "Loss"@ + ": "@ + p.loss->Some_0 + "%"@ + " (corr: "@ + p.loss_corr->Some_0 + "%)"@,
        ),
        p.loss_corr is None ==> has_infix(description(p), ", "@ + "Loss"@ + ": "@ + p.loss->Some_0 + "%"@),
{
    let h = description_head(p);
    let l = percent_part("Loss"@, p.loss, p.loss_corr);
    let r = percent_part("Reorder"@, p.reorder, p.reorder_corr);
    let c = percent_part("Corrupt"@, p.corrupt, p.corrupt_corr);
    let d = percent_part("Duplicate"@, p.duplicate, p.duplicate_corr);
    assert(description(p) == h + l + r + c + d);
    assert(h + l + r + c + d =~= (h) + percent_part("Loss"@, Some(p.loss->Some_0), p.loss_corr) + (r + c + d));
    lemma_part_infix(h, "Loss"@, p.loss->Some_0, p.loss_corr, r + c + d);
}

proof fn lemma_description_reorder(p: ParsedParamsView)
    requires
        p.reorder is Some,
    ensures
        p.reorder_corr is Some ==> has_infix(
            description(p),
            "Reorder"@ + ": "@ + p.reorder->Some_0 + "%"@ + " (corr: "@ + p.reorder_corr->Some_0 + "%)"@,
        ),
        p.reorder_corr is None ==> has_infix(description(p), ", "@ + "Reorder"@ + ": "@ + p.reorder->Some_0 + "%"@),
{
    let h = description_head(p);
    let l = percent_part("Loss"@, p.loss, p.loss_corr);
    let r = percent_part("Reorder"@, p.reorder, p.reorder_corr);
    let c = percent_part("Corrupt"@, p.corrupt, p.corrupt_corr);
    let d = percent_part("Duplicate"@, p.duplicate, p.duplicate_corr);
    assert(description(p) == h + l + r + c + d);
    assert(h + l + r + c + d =~= (h + l) + percent_part("Reorder"@, Some(p.reorder->Some_0), p.reorder_corr) + (c + d));
    lemma_part_infix(h + l, "Reorder"@, p.reorder->Some_0, p.reorder_corr, c + d);
}

proof fn lemma_description_corrupt(p: ParsedParamsView)
    requires
        p.corrupt is Some,
    ensures
        p.corrupt_corr is Some ==> has_infix(
            description(p),
            "Corrupt"@ + ": "@ + p.corrupt->Some_0 + "%"@ + " (corr: "@ + p.corrupt_corr->Some_0 + "%)"@,
        ),
        p.corrupt_corr is None ==> has_infix(description(p), ", "@ + "Corrupt"@ + ": "@ + p.corrupt->Some_0 + "%"@),
{
    let h = description_head(p);
    let l = percent_part("Loss"@, p.loss, p.loss_corr);
    let r = percent_part("Reorder"@, p.reorder, p.reorder_corr);
    let c = percent_part("Corrupt"@, p.corrupt, p.corrupt_corr);
    let d = percent_part("Duplicate"@, p.duplicate, p.duplicate_corr);
    assert(description(p) == h + l + r + c + d);
    assert(h + l + r + c + d =~= (h + l + r) + percent_part("Corrupt"@, Some(p.corrupt->Some_0), p.corrupt_corr) + (d));
    lemma_part_infix(h + l + r, "Corrupt"@, p.corrupt->Some_0, p.corrupt_corr, d);
}

proof fn lemma_description_duplicate(p: ParsedParamsView)
    requires
        p.duplicate is Some,
    ensures
        p.duplicate_corr is Some ==> has_infix(
            description(p),
            "Duplicate"@ + ": "@ + p.duplicate->Some_0 + "%"@ + " (corr: "@ + p.duplicate_corr->Some_0 + "%)"@,
        ),
        p.duplicate_corr is None ==> has_infix(description(p), ", "@ + "Duplicate"@ + ": "@ + p.duplicate->Some_0 + "%"@),
{
    let h = description_head(p);
    let l = percent_part("Loss"@, p.loss, p.loss_corr);
    let r = percent_part("Reorder"@, p.reorder, p.reorder_corr);
    let c = percent_part("Corrupt"@, p.corrupt, p.corrupt_corr);
    let d = percent_part("Duplicate"@, p.duplicate, p.duplicate_corr);
    assert(description(p) == h + l + r + c + d);
    assert(h + l + r + c + d =~= (h + l + r + c) + percent_part("Duplicate"@, Some(p.duplicate->Some_0), p.duplicate_corr) + (Seq::<char>::empty()));
    lemma_part_infix(h + l + r + c, "Duplicate"@, p.duplicate->Some_0, p.duplicate_corr, Seq::<char>::empty());
}

proof fn lemma_description_jitter(p: ParsedParamsView)
    requires
        p.jitter is Some,
    ensures
        has_infix(description(p), ", Jitter: "@ + p.jitter->Some_0 + "ms"@),
{
    let head = "Delay: "@ + p.delay + "ms"@;
    let t = ", Jitter: "@ + p.jitter->Some_0 + "ms"@;
    let l = percent_part("Loss"@, p.loss, p.loss_corr);
    let r = percent_part("Reorder"@, p.reorder, p.reorder_corr);
    let c = percent_part("Corrupt"@, p.corrupt, p.corrupt_corr);
    let d = percent_part("Duplicate"@, p.duplicate, p.duplicate_corr);
    let rest = l + r + c + d;
    assert(description(p) =~= head + t + rest);
    lemma_infix(head, t, rest);
}

proof fn lemma_description_head(p: ParsedParamsView)
    ensures
        description(p).subrange(0, ("Delay: "@ + p.delay + "ms"@).len() as int) == "Delay: "@ + p.delay + "ms"@,
{
    let head = "Delay: "@ + p.delay + "ms"@;
    let rest = description(p).subrange(head.len() as int, description(p).len() as int);
    assert(description(p) =~= head + rest);
    assert((head + rest).subrange(0, head.len() as int) =~= head);
}

/// The description shows the delay first, then ", Jitter: <j>ms" when there is a jitter,
/// and for each of loss, reorder, corrupt and
/// duplicate that is present "<Name>: <v>%", followed by " (corr: <c>%)" when its
/// correlation is present too (the same rule for all four).
pub proof fn description_shows_values_and_correlations(p: ParsedParamsView)
    ensures
        description(p).subrange(0, ("Delay: "@ + p.delay + "ms"@).len() as int) == "Delay: "@ + p.delay + "ms"@,
        p.jitter is Some ==> has_infix(description(p), ", Jitter: "@ + p.jitter->Some_0 + "ms"@),
        (p.loss is Some && p.loss_corr is Some) ==> has_infix(
            description(p),
            "Loss"@ + ": "@ + p.loss->Some_0 + "%"@ + " (corr: "@ + p.loss_corr->Some_0 + "%)"@,
        ),
        (p.loss is Some && p.loss_corr is None) ==> has_infix(description(p), ", "@ + "Loss"@ + ": "@ + p.loss->Some_0 + "%"@),
        (p.reorder is Some && p.reorder_corr is Some) ==> has_infix(
            description(p),
            "Reorder"@ + ": "@ + p.reorder->Some_0 + "%"@ + " (corr: "@ + p.reorder_corr->Some_0 + "%)"@,
        ),
        (p.reorder is Some && p.reorder_corr is None) ==> has_infix(description(p), ", "@ + "Reorder"@ + ": "@ + p.reorder->Some_0 + "%"@),
        (p.corrupt is Some && p.corrupt_corr is Some) ==> has_infix(
            description(p),
            "Corrupt"@ + ": "@ + p.corrupt->Some_0 + "%"@ + " (corr: "@ + p.corrupt_corr->Some_0 + "%)"@,
        ),
        (p.corrupt is Some && p.corrupt_corr is None) ==> has_infix(description(p), ", "@ + "Corrupt"@ + ": "@ + p.corrupt->Some_0 + "%"@),
        (p.duplicate is Some && p.duplicate_corr is Some) ==> has_infix(
            description(p),
            "Duplicate"@ + ": "@ + p.duplicate->Some_0 + "%"@ + " (corr: "@ + p.duplicate_corr->Some_0 + "%)"@,
        ),
        (p.duplicate is Some && p.duplicate_corr is None) ==> has_infix(description(p), ", "@ + "Duplicate"@ + ": "@ + p.duplicate->Some_0 + "%"@),
{
    lemma_description_head(p);
    if p.jitter is Some {
        lemma_description_jitter(p);
    }
    if p.loss is Some {
        lemma_description_loss(p);
    }
    if p.reorder is Some {
        lemma_description_reorder(p);
    }
    if p.corrupt is Some {
        lemma_description_corrupt(p);
    }
    if p.duplicate is Some {
        lemma_description_duplicate(p);
    }
}

} // verus!
