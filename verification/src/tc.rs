//! Validation of netem parameters and construction of the `tc` argument list.

use vstd::prelude::*;
use crate::text::{decimal, int_decimal, trim, trimmed};

verus! {

/// How a text reads as a floating-point number, as `str::parse::<f64>` reads it.
///
/// The library does not parse floating-point numbers itself: whoever hands a text to
/// it also hands the class of that text with surrounding whitespace removed.
#[derive(Clone, Copy, PartialEq, Eq, Debug, Structural)]
pub enum NumberClass {
    /// The text is no number, or reads as NaN.
    NotANumber,
    /// The number is below zero.
    Negative,
    /// The number is zero (of either sign).
    Zero,
    /// The number is above zero and at most 100.
    UpToHundred,
    /// The number is above 100.
    AboveHundred,
}

impl NumberClass {
    /// The number is at least zero.
    pub open spec fn spec_is_nonneg(self) -> bool {
        self is Zero || self is UpToHundred || self is AboveHundred
    }

    /// The number lies in 0..=100.
    pub open spec fn spec_is_percentage(self) -> bool {
        self is Zero || self is UpToHundred
    }

    /// The number is at least zero.
    #[verifier::when_used_as_spec(spec_is_nonneg)]
    pub fn is_nonneg(self) -> (res: bool)
        ensures
            res == self.spec_is_nonneg(),
    {
        match self {
            NumberClass::Zero | NumberClass::UpToHundred | NumberClass::AboveHundred => true,
            _ => false,
        }
    }

    /// The number lies in 0..=100.
    #[verifier::when_used_as_spec(spec_is_percentage)]
    pub fn is_percentage(self) -> (res: bool)
        ensures
            res == self.spec_is_percentage(),
    {
        match self {
            NumberClass::Zero | NumberClass::UpToHundred => true,
            _ => false,
        }
    }
}

/// A value as the user typed it, with the class of its trimmed text.
pub struct Reading {
    /// The text as typed.
    pub text: String,
    /// How the text, with surrounding whitespace removed, reads as a number.
    pub class: NumberClass,
}

/// The text of a reading and its class.
pub type ReadingView = (Seq<char>, NumberClass);

impl View for Reading {
    type V = ReadingView;

    open spec fn view(&self) -> ReadingView {
        (self.text@, self.class)
    }
}

/// An optional reading, by its view.
pub open spec fn opt_view(r: Option<&Reading>) -> Option<ReadingView> {
    match r {
        Some(x) => Some(x@),
        None => None,
    }
}

/// Empty (after trimming) or a number that is at least zero.
pub open spec fn valid_nonneg(s: Seq<char>, class: NumberClass) -> bool {
    trimmed(s).len() == 0 || class.spec_is_nonneg()
}

/// A non-empty (after trimming) number in 0..=100.
pub open spec fn valid_percentage(s: Seq<char>, class: NumberClass) -> bool {
    trimmed(s).len() != 0 && class.spec_is_percentage()
}

/// Whether `s` is empty once trimmed, or a number that is at least zero; `class` is
/// how `s`, trimmed, reads as a number.
pub fn is_valid_nonneg_number(s: &str, class: NumberClass) -> (res: bool)
    ensures
        res == valid_nonneg(s@, class),
{
    let t = trim(s);
    if t.unicode_len() == 0 {
        return true;
    }
    class.is_nonneg()
}

/// Whether `s` is, once trimmed, a non-empty number in 0..=100; `class` is how `s`,
/// trimmed, reads as a number.
pub fn is_valid_percentage(s: &str, class: NumberClass) -> (res: bool)
    ensures
        res == valid_percentage(s@, class),
{
    let t = trim(s);
    if t.unicode_len() == 0 {
        return false;
    }
    class.is_percentage()
}


/// A list of strings by the characters of each.
pub open spec fn strings_view(v: Seq<String>) -> Seq<Seq<char>> {
    v.map_values(|s: String| s@)
}

/// A result by the views of its payloads.
pub open spec fn args_result_view(r: Result<Vec<String>, String>) -> Result<Seq<Seq<char>>, Seq<char>> {
    match r {
        Ok(v) => Ok(strings_view(v@)),
        Err(e) => Err(e@),
    }
}

/// The arguments that a percentage parameter adds: its name, `random` where asked,
/// and its value.
pub open spec fn percent_head(name: Seq<char>, value: Seq<char>, insert_random: bool) -> Seq<Seq<char>> {
    if insert_random {
        seq![name, "random"@, value]
    } else {
        seq![name, value]
    }
}

/// The message for an invalid percentage parameter.
pub open spec fn invalid_percent_msg(name: Seq<char>, value: Seq<char>) -> Seq<char> {
    "Invalid "@ + name + ": "@ + value + " (must be 0-100)"@
}

/// The message for an invalid correlation of a percentage parameter.
pub open spec fn invalid_corr_msg(name: Seq<char>, value: Seq<char>) -> Seq<char> {
    "Invalid "@ + name + " correlation: "@ + value + " (must be 0-100)"@
}

/// The arguments of one percentage parameter with its optional correlation, or the
/// message that refuses it.
pub open spec fn percent_args(
    name: Seq<char>,
    value: ReadingView,
    corr: Option<ReadingView>,
    insert_random: bool,
) -> Result<Seq<Seq<char>>, Seq<char>> {
    if !valid_percentage(value.0, value.1) {
        Err(invalid_percent_msg(name, value.0))
    } else {
        match corr {
            None => Ok(percent_head(name, value.0, insert_random)),
            Some(c) => if valid_percentage(c.0, c.1) {
                Ok(percent_head(name, value.0, insert_random).push(c.0))
            } else {
                Err(invalid_corr_msg(name, c.0))
            },
        }
    }
}

/// `acc` followed by the arguments of an optional percentage parameter.
pub open spec fn then_percent(
    acc: Result<Seq<Seq<char>>, Seq<char>>,
    name: Seq<char>,
    value: Option<ReadingView>,
    corr: Option<ReadingView>,
    insert_random: bool,
) -> Result<Seq<Seq<char>>, Seq<char>> {
    match acc {
        Err(e) => Err(e),
        Ok(a) => match value {
            None => Ok(a),
            Some(v) => match percent_args(name, v, corr, insert_random) {
                Ok(p) => Ok(a + p),
                Err(e) => Err(e),
            },
        },
    }
}

/// The delay and jitter arguments (`delay <d>ms [<j>ms]`), or the message that refuses them.
pub open spec fn delay_args(delay: ReadingView, jitter: Option<ReadingView>) -> Result<Seq<Seq<char>>, Seq<char>> {
    if trimmed(delay.0).len() == 0 {
        Err("Delay must not be empty"@)
    } else if !valid_nonneg(delay.0, delay.1) {
        Err("Invalid delay: "@ + delay.0)
    } else {
        match jitter {
            None => Ok(seq!["delay"@, delay.0 + "ms"@]),
            Some(j) => if valid_nonneg(j.0, j.1) {
                Ok(seq!["delay"@, delay.0 + "ms"@, j.0 + "ms"@])
            } else {
                Err("Invalid jitter: "@ + j.0)
            },
        }
    }
}

/// The netem arguments for the given parameters, or the message of the first one that
/// is refused.
pub open spec fn netem_args(
    delay: ReadingView,
    jitter: Option<ReadingView>,
    loss: Option<ReadingView>,
    loss_corr: Option<ReadingView>,
    reorder: Option<ReadingView>,
    reorder_corr: Option<ReadingView>,
    corrupt: Option<ReadingView>,
    corrupt_corr: Option<ReadingView>,
    duplicate: Option<ReadingView>,
    duplicate_corr: Option<ReadingView>,
) -> Result<Seq<Seq<char>>, Seq<char>> {
    then_percent(
        then_percent(
            then_percent(
                then_percent(delay_args(delay, jitter), "loss"@, loss, loss_corr, true),
                "reorder"@,
                reorder,
                reorder_corr,
                false,
            ),
            "corrupt"@,
            corrupt,
            corrupt_corr,
            false,
        ),
        "duplicate"@,
        duplicate,
        duplicate_corr,
        false,
    )
}

/// Appends `s` to the argument list.
pub fn push_arg(args: &mut Vec<String>, s: String)
    ensures
        strings_view(final(args)@) == strings_view(old(args)@).push(s@),
{
    args.push(s);
    assert(strings_view(args@) =~= strings_view(old(args)@).push(s@));
}

/// Appends the arguments of a percentage parameter to `args`. On an invalid value
/// nothing is appended; on an invalid correlation the name and value stay appended.
fn add_percent_param(
    args: &mut Vec<String>,
    name: &str,
    value: &Reading,
    correlation: Option<&Reading>,
    insert_random: bool,
) -> (res: Result<(), String>)
    ensures
        res is Ok <==> percent_args(name@, value@, opt_view(correlation), insert_random) is Ok,
        res is Ok ==> strings_view(final(args)@) == strings_view(old(args)@) + percent_args(
            name@,
            value@,
            opt_view(correlation),
            insert_random,
        )->Ok_0,
        res matches Err(e) ==> Err::<Seq<Seq<char>>, Seq<char>>(e@) == percent_args(name@, value@, opt_view(correlation), insert_random),
        !valid_percentage(value.text@, value.class) ==> strings_view(final(args)@) == strings_view(old(args)@),
        valid_percentage(value.text@, value.class) && res is Err ==> strings_view(final(args)@)
            == strings_view(old(args)@) + percent_head(name@, value.text@, insert_random),
{
    let ghost before = strings_view(args@);
    if !is_valid_percentage(value.text.as_str(), value.class) {
        let mut m = String::from_str("Invalid ");
        m.append(name);
        m.append(": ");
        m.append(value.text.as_str());
        m.append(" (must be 0-100)");
        return Err(m);
    }
    push_arg(args, String::from_str(name));
    if insert_random {
        push_arg(args, String::from_str("random"));
    }
    push_arg(args, value.text.clone());
    assert(strings_view(args@) =~= before + percent_head(name@, value.text@, insert_random));
    if let Some(corr) = correlation {
        if !is_valid_percentage(corr.text.as_str(), corr.class) {
            let mut m = String::from_str("Invalid ");
            m.append(name);
            m.append(" correlation: ");
            m.append(corr.text.as_str());
            m.append(" (must be 0-100)");
            return Err(m);
        }
        push_arg(args, corr.text.clone());
        assert(strings_view(args@) =~= before + percent_head(name@, value.text@, insert_random).push(
            corr.text@,
        ));
    }
    Ok(())
}


/// Builds the netem arguments: `delay <d>ms [<j>ms]`, then `loss random <v> [<c>]`,
/// `reorder <v> [<c>]`, `corrupt <v> [<c>]` and `duplicate <v> [<c>]` for those that are
/// given. The delay must be non-empty and at least zero, the jitter at least zero, the
/// other values and the correlations in 0..=100; the first that is not gives the error.
pub fn build_netem_args(
    delay: &Reading,
    jitter: Option<&Reading>,
    loss: Option<&Reading>,
    loss_corr: Option<&Reading>,
    reorder: Option<&Reading>,
    reorder_corr: Option<&Reading>,
    corrupt: Option<&Reading>,
    corrupt_corr: Option<&Reading>,
    duplicate: Option<&Reading>,
    duplicate_corr: Option<&Reading>,
) -> (res: Result<Vec<String>, String>)
    ensures
        args_result_view(res) == netem_args(
            delay@,
            opt_view(jitter),
            opt_view(loss),
            opt_view(loss_corr),
            opt_view(reorder),
            opt_view(reorder_corr),
            opt_view(corrupt),
            opt_view(corrupt_corr),
            opt_view(duplicate),
            opt_view(duplicate_corr),
        ),
{
    let mut args: Vec<String> = Vec::new();
    if trim(delay.text.as_str()).unicode_len() == 0 {
        return Err(String::from_str("Delay must not be empty"));
    }
    if !is_valid_nonneg_number(delay.text.as_str(), delay.class) {
        let mut m = String::from_str("Invalid delay: ");
        m.append(delay.text.as_str());
        return Err(m);
    }
    push_arg(&mut args, String::from_str("delay"));
    push_arg(&mut args, delay.text.clone().concat("ms"));
    if let Some(j) = jitter {
        if !is_valid_nonneg_number(j.text.as_str(), j.class) {
            let mut m = String::from_str("Invalid jitter: ");
            m.append(j.text.as_str());
            return Err(m);
        }
        push_arg(&mut args, j.text.clone().concat("ms"));
        assert(strings_view(args@) =~= seq!["delay"@, delay.text@ + "ms"@, j.text@ + "ms"@]);
    } else {
        assert(strings_view(args@) =~= seq!["delay"@, delay.text@ + "ms"@]);
    }
    let ghost acc0 = delay_args(delay@, opt_view(jitter));
    assert(acc0 == Ok::<Seq<Seq<char>>, Seq<char>>(strings_view(args@)));
    if let Some(l) = loss {
        match add_percent_param(&mut args, "loss", l, loss_corr, true) {
            Ok(()) => {},
            Err(e) => {
                return Err(e);
            },
        }
    }
    let ghost acc1 = then_percent(acc0, "loss"@, opt_view(loss), opt_view(loss_corr), true);
    assert(acc1 == Ok::<Seq<Seq<char>>, Seq<char>>(strings_view(args@)));
    if let Some(r) = reorder {
        match add_percent_param(&mut args, "reorder", r, reorder_corr, false) {
            Ok(()) => {},
            Err(e) => {
                return Err(e);
            },
        }
    }
    let ghost acc2 = then_percent(acc1, "reorder"@, opt_view(reorder), opt_view(reorder_corr), false);
    assert(acc2 == Ok::<Seq<Seq<char>>, Seq<char>>(strings_view(args@)));
    if let Some(c) = corrupt {
        match add_percent_param(&mut args, "corrupt", c, corrupt_corr, false) {
            Ok(()) => {},
            Err(e) => {
                return Err(e);
            },
        }
    }
    let ghost acc3 = then_percent(acc2, "corrupt"@, opt_view(corrupt), opt_view(corrupt_corr), false);
    assert(acc3 == Ok::<Seq<Seq<char>>, Seq<char>>(strings_view(args@)));
    if let Some(d) = duplicate {
        match add_percent_param(&mut args, "duplicate", d, duplicate_corr, false) {
            Ok(()) => {},
            Err(e) => {
                return Err(e);
            },
        }
    }
    Ok(args)
}


/// A failure of running `tc`.
#[derive(Debug, PartialEq, Eq)]
pub enum TcError {
    /// The program could not be started; the payload is the system's message.
    Io(String),
    /// The program ran and failed with this exit code and error output.
    Command(i32, String),
    /// The privilege helper was refused or could not be run.
    AuthRequired,
}

/// The message of a `tc` failure.
pub open spec fn tc_error_message(e: TcError) -> Seq<char> {
    match e {
        TcError::Io(m) => "Failed to execute tc: "@ + m@,
        TcError::Command(code, err) => "tc command failed with exit code "@ + int_decimal(code as int)
            + ": "@ + err@,
        TcError::AuthRequired => "Root privileges required. Please authenticate."@,
    }
}

impl TcError {
    /// The message that describes this failure.
    pub fn to_string(&self) -> (res: String)
        ensures
            res@ == tc_error_message(*self),
    {
        match self {
            TcError::Io(m) => String::from_str("Failed to execute tc: ").concat(m.as_str()),
            TcError::Command(code, err) => {
                let mut s = String::from_str("tc command failed with exit code ");
                let d = decimal(*code);
                s.append(d.as_str());
                s.append(": ");
                s.append(err.as_str());
                s
            },
            TcError::AuthRequired => String::from_str("Root privileges required. Please authenticate."),
        }
    }
}

/// How `tc` is started: directly, or through `pkexec` and the privilege helper.
pub struct TcInvocation {
    /// The program to start.
    pub program: String,
    /// Its arguments.
    pub args: Vec<String>,
    /// Whether the privilege helper runs `tc`.
    pub via_helper: bool,
}

/// The program, the arguments and whether the helper is used.
pub type TcInvocationView = (Seq<char>, Seq<Seq<char>>, bool);

impl View for TcInvocation {
    type V = TcInvocationView;

    open spec fn view(&self) -> TcInvocationView {
        (self.program@, strings_view(self.args@), self.via_helper)
    }
}

/// The path of the privilege helper that runs `tc` for a user without root rights.
pub open spec fn helper_path() -> Seq<char> {
    "/usr/lib/badwire/badwire-tc-helper"@
}

/// `tc` with `args` for root; otherwise `pkexec` with the helper and then `args`.
pub open spec fn invocation_for(is_root: bool, args: Seq<Seq<char>>) -> TcInvocationView {
    if is_root {
        ("tc"@, args, false)
    } else {
        ("pkexec"@, seq![helper_path()] + args, true)
    }
}

/// How `tc` with `args` is started by a process that has root rights (`is_root`) or not.
pub fn tc_invocation_for(is_root: bool, args: &Vec<String>) -> (res: TcInvocation)
    ensures
        res@ == invocation_for(is_root, strings_view(args@)),
{
    let mut all: Vec<String> = Vec::new();
    if !is_root {
        push_arg(&mut all, String::from_str("/usr/lib/badwire/badwire-tc-helper"));
    }
    let mut i: usize = 0;
    let ghost start = strings_view(all@);
    while i < args.len()
        invariant
            i <= args.len(),
            strings_view(all@) == start + strings_view(args@.subrange(0, i as int)),
        decreases args.len() - i,
    {
        push_arg(&mut all, args[i].clone());
        assert(strings_view(args@.subrange(0, i + 1)) =~= strings_view(args@.subrange(0, i as int)).push(args@[i as int]@));
        i = i + 1;
    }
    assert(args@.subrange(0, args.len() as int) =~= args@);
    if is_root {
        assert(start =~= Seq::<Seq<char>>::empty());
        TcInvocation { program: String::from_str("tc"), args: all, via_helper: false }
    } else {
        TcInvocation { program: String::from_str("pkexec"), args: all, via_helper: true }
    }
}

/// Whether this process runs with effective user id 0, as
/// `nix::unistd::geteuid().is_root()` reports it. Nothing is stated of the result:
/// it depends on the process's credentials.
#[verifier::external_body]
fn running_as_root() -> bool {
    nix::unistd::geteuid().is_root()
}

/// How `tc` with `args` is started by this process: directly when it runs as root,
/// through the privilege helper otherwise.
pub fn tc_invocation(args: &Vec<String>) -> (res: TcInvocation)
    ensures
        res@ == invocation_for(true, strings_view(args@)) || res@ == invocation_for(false, strings_view(args@)),
{
    let is_root = running_as_root();
    tc_invocation_for(is_root, args)
}

/// What a finished `tc` run gives: its trimmed output on success; otherwise, through
/// the helper, `AuthRequired` for the exit codes 126 and 127; otherwise the exit code
/// (-1 where there is none) with the trimmed error output.
pub open spec fn tc_outcome_spec(
    via_helper: bool,
    success: bool,
    code: Option<i32>,
    stdout: Seq<char>,
    stderr: Seq<char>,
) -> Result<Seq<char>, (bool, i32, Seq<char>)> {
    if success {
        Ok(trimmed(stdout))
    } else {
        let c = match code {
            Some(c) => c,
            None => -1i32,
        };
        if via_helper && (c == 126 || c == 127) {
            Err((true, 0i32, Seq::empty()))
        } else {
            Err((false, c, trimmed(stderr)))
        }
    }
}

/// The result of a finished `tc` run started as `invocation`, from its exit status
/// (`success`, `code`) and its output.
pub fn tc_outcome(
    invocation: &TcInvocation,
    success: bool,
    code: Option<i32>,
    stdout: &str,
    stderr: &str,
) -> (res: Result<String, TcError>)
    ensures
        match tc_outcome_spec(invocation.via_helper, success, code, stdout@, stderr@) {
            Ok(out) => res matches Ok(o) && o@ == out,
            Err((true, _, _)) => res matches Err(TcError::AuthRequired),
            Err((false, c, err)) => res matches Err(TcError::Command(rc, re)) && rc == c && re@ == err,
        },
{
    if success {
        return Ok(String::from_str(trim(stdout)));
    }
    let c: i32 = match code {
        Some(c) => c,
        None => -1,
    };
    if invocation.via_helper && (c == 126 || c == 127) {
        Err(TcError::AuthRequired)
    } else {
        Err(TcError::Command(c, String::from_str(trim(stderr))))
    }
}

/// The jitter is a duration: with a non-empty delay that reads as a number of at least
/// zero and nothing but a jitter, any jitter that reads as a number of at least zero
/// (above 100 too) is accepted and given as `<jitter>ms` after `delay <delay>ms`; a
/// non-empty jitter is refused only when it is negative or no number, and a blank one is
/// always accepted.
pub proof fn jitter_is_any_nonnegative_duration(delay: ReadingView, jitter: ReadingView)
    requires
        trimmed(delay.0).len() != 0,
        delay.1 is Zero || delay.1 is UpToHundred || delay.1 is AboveHundred,
    ensures
        (jitter.1 is Zero || jitter.1 is UpToHundred || jitter.1 is AboveHundred || trimmed(jitter.0).len() == 0)
            ==> netem_args(delay, Some(jitter), None, None, None, None, None, None, None, None)
            == Ok::<Seq<Seq<char>>, Seq<char>>(seq!["delay"@, delay.0 + "ms"@, jitter.0 + "ms"@]),
        ((jitter.1 is Negative || jitter.1 is NotANumber) && trimmed(jitter.0).len() != 0)
            ==> netem_args(delay, Some(jitter), None, None, None, None, None, None, None, None)
            == Err::<Seq<Seq<char>>, Seq<char>>("Invalid jitter: "@ + jitter.0),
        netem_args(delay, None, None, None, None, None, None, None, None, None)
            == Ok::<Seq<Seq<char>>, Seq<char>>(seq!["delay"@, delay.0 + "ms"@]),
{
}

/// A value given as a percentage must be non-blank and read as a number in 0..=100.
pub open spec fn is_accepted_percentage(r: ReadingView) -> bool {
    trimmed(r.0).len() != 0 && (r.1 is Zero || r.1 is UpToHundred)
}

/// A percentage parameter gives its name, `random` where asked, its value and its
/// correlation when there is one, in that order; a value outside 0..=100 (or blank, or no
/// number) is refused first, then such a correlation.
pub proof fn percentage_parameter_arguments(name: Seq<char>, v: ReadingView, corr: Option<ReadingView>, random: bool)
    ensures
        !is_accepted_percentage(v) ==> percent_args(name, v, corr, random)
            == Err::<Seq<Seq<char>>, Seq<char>>("Invalid "@ + name + ": "@ + v.0 + " (must be 0-100)"@),
        is_accepted_percentage(v) && corr is None && random ==> percent_args(name, v, corr, random)
            == Ok::<Seq<Seq<char>>, Seq<char>>(seq![name, "random"@, v.0]),
        is_accepted_percentage(v) && corr is None && !random ==> percent_args(name, v, corr, random)
            == Ok::<Seq<Seq<char>>, Seq<char>>(seq![name, v.0]),
        is_accepted_percentage(v) && corr is Some && is_accepted_percentage(corr->Some_0) && random
            ==> percent_args(name, v, corr, random)
            == Ok::<Seq<Seq<char>>, Seq<char>>(seq![name, "random"@, v.0, corr->Some_0.0]),
        is_accepted_percentage(v) && corr is Some && is_accepted_percentage(corr->Some_0) && !random
            ==> percent_args(name, v, corr, random)
            == Ok::<Seq<Seq<char>>, Seq<char>>(seq![name, v.0, corr->Some_0.0]),
        is_accepted_percentage(v) && corr is Some && !is_accepted_percentage(corr->Some_0)
            ==> percent_args(name, v, corr, random)
            == Err::<Seq<Seq<char>>, Seq<char>>("Invalid "@ + name + " correlation: "@ + corr->Some_0.0 + " (must be 0-100)"@),
{
    if is_accepted_percentage(v) && corr is Some {
        assert(seq![name, "random"@, v.0].push(corr->Some_0.0) =~= seq![name, "random"@, v.0, corr->Some_0.0]);
        assert(seq![name, v.0].push(corr->Some_0.0) =~= seq![name, v.0, corr->Some_0.0]);
    }
}

/// After a valid delay, each percentage parameter adds its own arguments under its own
/// name: `loss` with `random`, `reorder`, `corrupt` and `duplicate` without; the
/// correlation given with another parameter, or a correlation without its value, adds
/// nothing.
pub proof fn each_percentage_under_its_name(delay: ReadingView, v: ReadingView, corr: Option<ReadingView>, stray: Option<ReadingView>)
    requires
        trimmed(delay.0).len() != 0,
        delay.1 is Zero || delay.1 is UpToHundred || delay.1 is AboveHundred,
    ensures
        netem_args(delay, None, Some(v), corr, None, stray, None, stray, None, stray)
            == then_percent(Ok(seq!["delay"@, delay.0 + "ms"@]), "loss"@, Some(v), corr, true),
        netem_args(delay, None, None, stray, Some(v), corr, None, stray, None, stray)
            == then_percent(Ok(seq!["delay"@, delay.0 + "ms"@]), "reorder"@, Some(v), corr, false),
        netem_args(delay, None, None, stray, None, stray, Some(v), corr, None, stray)
            == then_percent(Ok(seq!["delay"@, delay.0 + "ms"@]), "corrupt"@, Some(v), corr, false),
        netem_args(delay, None, None, stray, None, stray, None, stray, Some(v), corr)
            == then_percent(Ok(seq!["delay"@, delay.0 + "ms"@]), "duplicate"@, Some(v), corr, false),
        then_percent(Ok(seq!["delay"@, delay.0 + "ms"@]), "loss"@, Some(v), corr, true) == match percent_args("loss"@, v, corr, true) {
            Ok(a) => Ok(seq!["delay"@, delay.0 + "ms"@] + a),
            Err(e) => Err(e),
        },
{
}

/// What a finished `tc` run gives: success gives the trimmed output whatever the exit
/// code; through the helper, the exit codes 126 and 127 mean the authentication failed;
/// any other failure gives its exit code (-1 when there is none) and trimmed error output.
pub proof fn tc_outcome_cases(via_helper: bool, code: Option<i32>, out: Seq<char>, err: Seq<char>)
    ensures
        tc_outcome_spec(via_helper, true, code, out, err) == Ok::<Seq<char>, (bool, i32, Seq<char>)>(trimmed(out)),
        via_helper && (code == Some(126i32) || code == Some(127i32)) ==> tc_outcome_spec(via_helper, false, code, out, err) is Err
            && tc_outcome_spec(via_helper, false, code, out, err)->Err_0.0,
        !via_helper && code is Some ==> tc_outcome_spec(via_helper, false, code, out, err)
            == Err::<Seq<char>, (bool, i32, Seq<char>)>((false, code->Some_0, trimmed(err))),
        code is None ==> tc_outcome_spec(via_helper, false, code, out, err)
            == Err::<Seq<char>, (bool, i32, Seq<char>)>((false, -1i32, trimmed(err))),
        (code is Some && code->Some_0 != 126 && code->Some_0 != 127) ==> tc_outcome_spec(via_helper, false, code, out, err)
            == Err::<Seq<char>, (bool, i32, Seq<char>)>((false, code->Some_0, trimmed(err))),
{
}

} // verus!
