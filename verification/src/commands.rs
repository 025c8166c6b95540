//! Starting and stopping the emulation: the `tc` command lines and the state updates
//! that follow a run of `tc`.

use vstd::prelude::*;
use crate::error::AppError;
use crate::parameter_entries::{description, NumberClasses, ParsedParams, ParsedParamsView};
use crate::state::{AppState, AppStateView};
use crate::tc::{
    args_result_view, build_netem_args, netem_args, opt_view, push_arg, strings_view, NumberClass, Reading,
    ReadingView, TcError,
};

verus! {

/// `qdisc replace dev <iface> root netem`, the start of every command line.
pub open spec fn qdisc_prefix(iface: Seq<char>) -> Seq<Seq<char>> {
    seq!["qdisc"@, "replace"@, "dev"@, iface, "root"@, "netem"@]
}

/// An optional value with its class.
pub open spec fn opt_reading(v: Option<Seq<char>>, class: NumberClass) -> Option<ReadingView> {
    match v {
        Some(t) => Some((t, class)),
        None => None,
    }
}

/// The netem arguments for these values, or the message that refuses them.
pub open spec fn params_netem_args(p: ParsedParamsView, c: NumberClasses) -> Result<Seq<Seq<char>>, Seq<char>> {
    netem_args(
        (p.delay, c.delay),
        opt_reading(p.jitter, c.jitter),
        opt_reading(p.loss, c.loss),
        opt_reading(p.loss_corr, c.loss_corr),
        opt_reading(p.reorder, c.reorder),
        opt_reading(p.reorder_corr, c.reorder_corr),
        opt_reading(p.corrupt, c.corrupt),
        opt_reading(p.corrupt_corr, c.corrupt_corr),
        opt_reading(p.duplicate, c.duplicate),
        opt_reading(p.duplicate_corr, c.duplicate_corr),
    )
}

/// An optional owned reading, by its view.
pub open spec fn owned_reading_view(r: Option<Reading>) -> Option<ReadingView> {
    match r {
        Some(x) => Some(x@),
        None => None,
    }
}

fn reading_of(v: &Option<String>, class: NumberClass) -> (res: Option<Reading>)
    ensures
        owned_reading_view(res) == opt_reading(
            match v {
                Some(s) => Some(s@),
                None => None,
            },
            class,
        ),
{
    match v {
        Some(s) => Some(Reading { text: s.clone(), class }),
        None => None,
    }
}

fn qdisc_args(iface: &str) -> (res: Vec<String>)
    ensures
        strings_view(res@) == qdisc_prefix(iface@),
{
    let mut args: Vec<String> = Vec::new();
    push_arg(&mut args, String::from_str("qdisc"));
    push_arg(&mut args, String::from_str("replace"));
    push_arg(&mut args, String::from_str("dev"));
    push_arg(&mut args, String::from_str(iface));
    push_arg(&mut args, String::from_str("root"));
    push_arg(&mut args, String::from_str("netem"));
    assert(strings_view(args@) =~= qdisc_prefix(iface@));
    args
}

fn params_args(params: &ParsedParams, classes: &NumberClasses) -> (res: Result<Vec<String>, String>)
    ensures
        args_result_view(res) == params_netem_args(params@, *classes),
{
    let delay = Reading { text: params.delay.clone(), class: classes.delay };
    let jitter = reading_of(&params.jitter, classes.jitter);
    let loss = reading_of(&params.loss, classes.loss);
    let loss_corr = reading_of(&params.loss_corr, classes.loss_corr);
    let reorder = reading_of(&params.reorder, classes.reorder);
    let reorder_corr = reading_of(&params.reorder_corr, classes.reorder_corr);
    let corrupt = reading_of(&params.corrupt, classes.corrupt);
    let corrupt_corr = reading_of(&params.corrupt_corr, classes.corrupt_corr);
    let duplicate = reading_of(&params.duplicate, classes.duplicate);
    let duplicate_corr = reading_of(&params.duplicate_corr, classes.duplicate_corr);
    let r1 = jitter.as_ref();
    let r2 = loss.as_ref();
    let r3 = loss_corr.as_ref();
    let r4 = reorder.as_ref();
    let r5 = reorder_corr.as_ref();
    let r6 = corrupt.as_ref();
    let r7 = corrupt_corr.as_ref();
    let r8 = duplicate.as_ref();
    let r9 = duplicate_corr.as_ref();
    assert(opt_view(r1) == owned_reading_view(jitter));
    assert(opt_view(r2) == owned_reading_view(loss));
    assert(opt_view(r3) == owned_reading_view(loss_corr));
    assert(opt_view(r4) == owned_reading_view(reorder));
    assert(opt_view(r5) == owned_reading_view(reorder_corr));
    assert(opt_view(r6) == owned_reading_view(corrupt));
    assert(opt_view(r7) == owned_reading_view(corrupt_corr));
    assert(opt_view(r8) == owned_reading_view(duplicate));
    assert(opt_view(r9) == owned_reading_view(duplicate_corr));
    build_netem_args(&delay, r1, r2, r3, r4, r5, r6, r7, r8, r9)
}

/// The `tc` arguments that start emulation with `params` on `iface`:
/// `qdisc replace dev <iface> root netem` and the netem arguments. `classes` tells how
/// each value of `params` reads as a number.
pub fn netem_start_args(iface: &str, params: &ParsedParams, classes: &NumberClasses) -> (res: Result<Vec<String>, AppError>)
    ensures
        match params_netem_args(params@, *classes) {
            Ok(a) => res matches Ok(v) && strings_view(v@) == qdisc_prefix(iface@) + a,
            Err(m) => res matches Err(AppError::Other(e)) && e@ == m,
        },
{
    match params_args(params, classes) {
        Err(m) => Err(AppError::Other(m)),
        Ok(netem) => {
            let mut all = qdisc_args(iface);
            let ghost prefix = strings_view(all@);
            let mut i: usize = 0;
            while i < netem.len()
                invariant
                    i <= netem.len(),
                    strings_view(all@) == prefix + strings_view(netem@.subrange(0, i as int)),
                decreases netem.len() - i,
            {
                push_arg(&mut all, netem[i].clone());
                assert(strings_view(netem@.subrange(0, i + 1)) =~= strings_view(
                    netem@.subrange(0, i as int),
                ).push(netem@[i as int]@));
                i = i + 1;
            }
            assert(netem@.subrange(0, netem.len() as int) =~= netem@);
            Ok(all)
        },
    }
}

/// The `tc` arguments that reset emulation on `iface`: `qdisc replace dev <iface> root
/// netem` with no netem arguments.
pub fn netem_stop_args(iface: &str) -> (res: Vec<String>)
    ensures
        strings_view(res@) == qdisc_prefix(iface@),
{
    qdisc_args(iface)
}

/// Records the start of emulation with `params` on `iface`, given what the run of
/// `netem_start_args` gave (`outcome`). Values that `netem_start_args` refuses give its
/// message, a failed run gives its error; both leave the state as it was. A
/// successful run turns emulation on, selects `iface` and records the description of
/// `params`.
pub fn start_netem(
    state: &mut AppState,
    iface: &str,
    params: &ParsedParams,
    classes: &NumberClasses,
    outcome: Result<String, TcError>,
) -> (res: Result<(), AppError>)
    ensures
        match params_netem_args(params@, *classes) {
            Err(m) => (res matches Err(AppError::Other(e)) && e@ == m) && final(state)@ == old(state)@,
            Ok(_) => match outcome {
                Err(e) => res == Err::<(), AppError>(AppError::Tc(e)) && final(state)@ == old(state)@,
                Ok(_) => res is Ok && final(state)@ == (AppStateView {
                    active: true,
                    selected_iface: iface@,
                    current_config: description(params@),
                    ..old(state)@
                }),
            },
        },
{
    match netem_start_args(iface, params, classes) {
        Err(e) => {
            return Err(e);
        },
        Ok(_) => {},
    }
    match outcome {
        Err(e) => Err(AppError::Tc(e)),
        Ok(_) => {
            state.set_active(true);
            state.set_selected_iface(iface);
            let d = params.describe();
            state.set_current_config(d.as_str());
            Ok(())
        },
    }
}

/// Records the end of emulation, given what the run of `netem_stop_args` gave
/// (`outcome`). A failed run gives its error and leaves the state as it was; a
/// successful one turns emulation off and records that no configuration is active.
pub fn stop_netem(state: &mut AppState, outcome: Result<String, TcError>) -> (res: Result<(), AppError>)
    ensures
        match outcome {
            Err(e) => res == Err::<(), AppError>(AppError::Tc(e)) && final(state)@ == old(state)@,
            Ok(_) => res is Ok && final(state)@ == (AppStateView {
                active: false,
                current_config: "No active configuration"@,
                ..old(state)@
            }),
        },
{
    match outcome {
        Err(e) => Err(AppError::Tc(e)),
        Ok(_) => {
            state.set_active(false);
            state.set_current_config("No active configuration");
            Ok(())
        },
    }
}

} // verus!
