//! The decisions around `hyprctl`: which commands switch the effect,
//! whether the effect is on, the apply sequence, the toggle command,
//! and the status lines shown for each outcome.

use vstd::prelude::*;
use crate::text::{
    find_chars, find_seq, lemma_find_seq, occurs_at, same_text, skip_white_space, skip_white_space_back, to_chars, trim,
};

verus! {

/// The Lua code that `hyprctl eval` runs to switch the effect: on, it
/// points `screen_shader` at `shader` and keeps the output animating;
/// off, it clears `screen_shader` and restores damage tracking and VFR.
pub open spec fn effect_code(enabled: bool, shader: Seq<char>) -> Seq<char> {
    if enabled {
        "hl.config({ decoration = { screen_shader = \""@ + shader
            + "\" }, debug = { damage_tracking = 0, vfr = false } })"@
    } else {
        "hl.config({ decoration = { screen_shader = \"\" }, debug = { damage_tracking = 1, vfr = true } })"@
    }
}

/// The `hyprctl` arguments that switch the effect on (with the shader
/// at `shader`) or off.
pub fn set_effect(enabled: bool, shader: &str) -> (args: Vec<String>)
    ensures
        args.len() == 2,
        args[0]@ == "eval"@,
        args[1]@ == effect_code(enabled, shader@),
        enabled ==> args[1]@ == "hl.config({ decoration = { screen_shader = \""@ + shader@
            + "\" }, debug = { damage_tracking = 0, vfr = false } })"@,
        !enabled ==> args[1]@
            == "hl.config({ decoration = { screen_shader = \"\" }, debug = { damage_tracking = 1, vfr = true } })"@,
{
    let code = if enabled {
        String::from_str("hl.config({ decoration = { screen_shader = \"").concat(shader).concat(
            "\" }, debug = { damage_tracking = 0, vfr = false } })",
        )
    } else {
        String::from_str(
            "hl.config({ decoration = { screen_shader = \"\" }, debug = { damage_tracking = 1, vfr = true } })",
        )
    };
    let mut args: Vec<String> = Vec::new();
    args.push(String::from_str("eval"));
    args.push(code);
    args
}

/// The code that switches the effect on carries the whole shader path,
/// character for character, between its fixed head and tail, so two
/// different paths never give the same code; the code that switches it
/// off is one and the same whatever path is given.
pub proof fn law_effect_code(p: Seq<char>, q: Seq<char>)
    ensures
        ({
            let head = "hl.config({ decoration = { screen_shader = \""@;
            let tail = "\" }, debug = { damage_tracking = 0, vfr = false } })"@;
            let code = effect_code(true, p);
            let h = head.len() as int;
            let n = p.len() as int;
            &&& code.len() == h + n + tail.len()
            &&& code.subrange(0, h) == head
            &&& code.subrange(h, h + n) == p
            &&& code.subrange(h + n, code.len() as int) == tail
        }),
        effect_code(true, p) == effect_code(true, q) ==> p == q,
        effect_code(false, p) == effect_code(false, q),
{
    let head = "hl.config({ decoration = { screen_shader = \""@;
    let tail = "\" }, debug = { damage_tracking = 0, vfr = false } })"@;
    let code = effect_code(true, p);
    let h = head.len() as int;
    let n = p.len() as int;
    assert(code.subrange(0, h) =~= head);
    assert(code.subrange(h, h + n) =~= p);
    assert(code.subrange(h + n, code.len() as int) =~= tail);
    if effect_code(true, p) == effect_code(true, q) {
        let other = effect_code(true, q);
        assert(p.len() == q.len());
        assert(other.subrange(h, h + n) =~= q);
    }
}

/// The `hyprctl` arguments that ask for the current screen shader.
pub fn enabled_query() -> (args: Vec<String>)
    ensures
        args.len() == 2,
        args[0]@ == "getoption"@,
        args[1]@ == "decoration:screen_shader"@,
{
    let mut args: Vec<String> = Vec::new();
    args.push(String::from_str("getoption"));
    args.push(String::from_str("decoration:screen_shader"));
    args
}

/// `needle` occurs somewhere in `hay`.
pub open spec fn contains(hay: Seq<char>, needle: Seq<char>) -> bool {
    find_seq(hay, needle) is Some
}

/// `contains` holds exactly when `needle` stands, character for
/// character, as a contiguous run somewhere in `hay`.
pub proof fn law_contains(hay: Seq<char>, needle: Seq<char>)
    ensures
        contains(hay, needle) <==> exists|i: int| #[trigger] occurs_at(hay, needle, i),
{
    lemma_find_seq(hay, needle);
}

/// Whether the effect is on, judged from the reply to `enabled_query`
/// (`None` when `hyprctl` failed): a string option naming `crt.frag`.
pub fn detect_enabled(reply: Option<&str>) -> (on: bool)
    ensures
        on == match reply {
            Some(text) => contains(text@, "crt.frag"@) && contains(text@, "str:"@),
            None => false,
        },
        reply is None ==> !on,
        reply matches Some(text) ==> (on <==> (exists|i: int|
            #[trigger] occurs_at(text@, "crt.frag"@, i)) && (exists|j: int|
            #[trigger] occurs_at(text@, "str:"@, j))),
{
    match reply {
        None => false,
        Some(text) => {
            proof {
                law_contains(text@, "crt.frag"@);
                law_contains(text@, "str:"@);
            }
            let hay = to_chars(text);
            let shader_name = to_chars("crt.frag");
            let kind = to_chars("str:");
            find_chars(&hay, &shader_name).is_some() && find_chars(&hay, &kind).is_some()
        },
    }
}

/// Where an apply run stands: which command has just been carried out.
#[derive(Debug, Clone, Copy, PartialEq, Eq, Structural)]
pub enum ApplyStage {
    /// Nothing has been done yet.
    Start,
    /// The values have been written to the user shader.
    Written,
    /// The effect has been switched off.
    Disabled,
    /// The effect has been switched on again.
    Enabled,
}

/// A command of an apply run, carried out by the caller.
#[derive(Debug, Clone, Copy, PartialEq, Eq, Structural)]
pub enum ApplyCommand {
    /// Write the panel's values into the user shader.
    WriteValues,
    /// Run `hyprctl` with `set_effect(on, shader)`.
    SetEffect(bool),
}

/// The next thing to do in an apply run.
#[derive(Debug)]
pub enum ApplyStep {
    /// Carry out the command; the run is then at the given stage.
    Run(ApplyStage, ApplyCommand),
    /// The run is over with this result.
    Finish(Result<(), String>),
}

/// One step of an apply run: writing the values comes first; a failed
/// write ends the run with its error; when the effect is on it is then
/// switched off, whatever that gives, and on again, and the run ends with
/// the outcome of switching it on.
pub open spec fn apply_spec(stage: ApplyStage, effect_enabled: bool, outcome: Result<(), String>) -> ApplyStep {
    match stage {
        ApplyStage::Start => ApplyStep::Run(ApplyStage::Written, ApplyCommand::WriteValues),
        ApplyStage::Written => match outcome {
            Err(e) => ApplyStep::Finish(Err(e)),
            Ok(()) => if effect_enabled {
                ApplyStep::Run(ApplyStage::Disabled, ApplyCommand::SetEffect(false))
            } else {
                ApplyStep::Finish(Ok(()))
            },
        },
        ApplyStage::Disabled => ApplyStep::Run(ApplyStage::Enabled, ApplyCommand::SetEffect(true)),
        ApplyStage::Enabled => ApplyStep::Finish(outcome),
    }
}

/// Decides the next step of applying the panel's values, given the stage
/// reached, whether the effect is on, and the outcome of the command just
/// carried out (ignored at the start).
pub fn apply(stage: ApplyStage, effect_enabled: bool, outcome: Result<(), String>) -> (step: ApplyStep)
    ensures
        step == apply_spec(stage, effect_enabled, outcome),
{
    match stage {
        ApplyStage::Start => ApplyStep::Run(ApplyStage::Written, ApplyCommand::WriteValues),
        ApplyStage::Written => match outcome {
            Err(e) => ApplyStep::Finish(Err(e)),
            Ok(()) => if effect_enabled {
                ApplyStep::Run(ApplyStage::Disabled, ApplyCommand::SetEffect(false))
            } else {
                ApplyStep::Finish(Ok(()))
            },
        },
        ApplyStage::Disabled => ApplyStep::Run(ApplyStage::Enabled, ApplyCommand::SetEffect(true)),
        ApplyStage::Enabled => ApplyStep::Finish(outcome),
    }
}

/// Runs the apply steps from `stage`, feeding them `outcome` and then
/// `later` one by one: the commands issued, and the result if the run
/// finished within the outcomes given.
pub open spec fn apply_run(
    stage: ApplyStage,
    effect_enabled: bool,
    outcome: Result<(), String>,
    later: Seq<Result<(), String>>,
) -> (Seq<ApplyCommand>, Option<Result<(), String>>)
    decreases later.len(),
{
    match apply_spec(stage, effect_enabled, outcome) {
        ApplyStep::Finish(r) => (Seq::empty(), Some(r)),
        ApplyStep::Run(next, command) => if later.len() == 0 {
            (seq![command], None)
        } else {
            let (rest, r) = apply_run(next, effect_enabled, later[0], later.drop_first());
            (seq![command] + rest, r)
        },
    }
}

/// A whole apply run: the values are written first; only after a
/// successful write, and only when the effect is on, the effect is
/// switched off and on again; the result is the write's error, or else
/// the outcome of switching the effect on, whatever switching it off gave.
pub proof fn law_apply_run(
    effect_enabled: bool,
    write: Result<(), String>,
    disable: Result<(), String>,
    enable: Result<(), String>,
)
    ensures
        apply_run(ApplyStage::Start, effect_enabled, Ok(()), seq![write, disable, enable]) == (if write is Err {
            (seq![ApplyCommand::WriteValues], Some(write))
        } else if !effect_enabled {
            (seq![ApplyCommand::WriteValues], Some(Ok::<(), String>(())))
        } else {
            (
                seq![
                    ApplyCommand::WriteValues,
                    ApplyCommand::SetEffect(false),
                    ApplyCommand::SetEffect(true),
                ],
                Some(enable),
            )
        }),
{
    let outcomes = seq![write, disable, enable];
    assert(outcomes.drop_first() =~= seq![disable, enable]);
    assert(outcomes.drop_first().drop_first() =~= seq![enable]);
    assert(seq![enable].drop_first() =~= Seq::<Result<(), String>>::empty());
    reveal_with_fuel(apply_run, 4);
    if write is Ok && effect_enabled {
        assert(seq![ApplyCommand::WriteValues] + (seq![ApplyCommand::SetEffect(false)] + (seq![
            ApplyCommand::SetEffect(true),
        ] + Seq::empty())) =~= seq![
            ApplyCommand::WriteValues,
            ApplyCommand::SetEffect(false),
            ApplyCommand::SetEffect(true),
        ]);
    } else {
        assert(seq![ApplyCommand::WriteValues] + Seq::empty() =~= seq![ApplyCommand::WriteValues]);
    }
}

/// What the toggle command does and reports.
#[derive(Debug)]
pub struct TogglePlan {
    /// Whether the effect is to be switched on.
    pub enable: bool,
    /// The line printed once the switch succeeded.
    pub report: String,
    /// The `hyprctl` arguments of the desktop notification that follows.
    pub notify: Vec<String>,
}

/// The state the toggle command switches to, as reported.
pub open spec fn toggle_state(was_enabled: bool) -> Seq<char> {
    if was_enabled {
        "OFF"@
    } else {
        "ON"@
    }
}

/// The notification colour: green when switching off, blue when on.
pub open spec fn toggle_color(was_enabled: bool) -> Seq<char> {
    if was_enabled {
        "rgb(88cc88)"@
    } else {
        "rgb(88aaff)"@
    }
}

/// The toggle command, given whether the effect is on now: it switches
/// the effect to the other state, prints `CRT Shader: STATE (temporary)`
/// and shows a notification for 2500 ms.
pub fn toggle_plan(was_enabled: bool) -> (plan: TogglePlan)
    ensures
        plan.enable == !was_enabled,
        plan.report@ == "CRT Shader: "@ + toggle_state(was_enabled) + " (temporary)"@,
        plan.notify.len() == 5,
        plan.notify[0]@ == "notify"@,
        plan.notify[1]@ == "2"@,
        plan.notify[2]@ == "2500"@,
        plan.notify[3]@ == toggle_color(was_enabled),
        plan.notify[4]@ == "CRT Shader: "@ + toggle_state(was_enabled),
{
    let state = if was_enabled {
        "OFF"
    } else {
        "ON"
    };
    let color = if was_enabled {
        "rgb(88cc88)"
    } else {
        "rgb(88aaff)"
    };
    let mut notify: Vec<String> = Vec::new();
    notify.push(String::from_str("notify"));
    notify.push(String::from_str("2"));
    notify.push(String::from_str("2500"));
    notify.push(String::from_str(color));
    notify.push(String::from_str("CRT Shader: ").concat(state));
    TogglePlan {
        enable: !was_enabled,
        report: String::from_str("CRT Shader: ").concat(state).concat(" (temporary)"),
        notify,
    }
}

/// The status line after applying the values.
pub fn apply_status(result: &Result<(), String>) -> (line: String)
    ensures
        line@ == match result {
            Ok(()) => "已应用 / Applied"@,
            Err(e) => "应用失败: "@ + e@,
        },
{
    match result {
        Ok(()) => String::from_str("已应用 / Applied"),
        Err(e) => String::from_str("应用失败: ").concat(e.as_str()),
    }
}

/// The status line after restoring the installed defaults.
pub fn reset_status(result: &Result<(), String>) -> (line: String)
    ensures
        line@ == match result {
            Ok(()) => "已恢复默认 / Defaults restored"@,
            Err(e) => "恢复失败: "@ + e@,
        },
{
    match result {
        Ok(()) => String::from_str("已恢复默认 / Defaults restored"),
        Err(e) => String::from_str("恢复失败: ").concat(e.as_str()),
    }
}

/// The status line after the effect switch was flipped to `enable`.
pub fn toggle_status(enable: bool, succeeded: bool) -> (line: &'static str)
    ensures
        line@ == (if !succeeded {
            "切换失败 / Toggle failed"@
        } else if enable {
            "已启用 / Enabled"@
        } else {
            "已关闭 / Disabled"@
        }),
{
    if succeeded {
        if enable {
            "已启用 / Enabled"
        } else {
            "已关闭 / Disabled"
        }
    } else {
        "切换失败 / Toggle failed"
    }
}

/// The status line after asking to open the shader folder.
pub fn folder_status(opened: bool) -> (line: &'static str)
    ensures
        line@ == (if opened {
            "已打开目录 / Folder opened"@
        } else {
            "无法打开目录 / Open failed"@
        }),
{
    if opened {
        "已打开目录 / Folder opened"
    } else {
        "无法打开目录 / Open failed"
    }
}

/// The program runs as the toggle command when started under the name
/// `hypr-crt-toggle`, and as the control panel otherwise.
pub fn is_toggle_invocation(program: Option<&str>) -> (toggle: bool)
    ensures
        toggle == match program {
            Some(name) => name@ == "hypr-crt-toggle"@,
            None => false,
        },
{
    match program {
        Some(name) => same_text(name, "hypr-crt-toggle"),
        None => false,
    }
}

/// The name errors are reported under.
pub fn program_name(toggle: bool) -> (name: &'static str)
    ensures
        name@ == (if toggle {
            "hypr-crt-toggle"@
        } else {
            "hypr-crt-control"@
        }),
{
    if toggle {
        "hypr-crt-toggle"
    } else {
        "hypr-crt-control"
    }
}

/// What flipping the effect switch runs.
#[derive(Debug, Clone, Copy, PartialEq, Eq, Structural)]
pub enum SwitchAction {
    /// The whole apply run: the values are written and the effect
    /// recompiled.
    ApplyValues,
    /// Only `set_effect(false, ..)`.
    SwitchOff,
}

/// Switching the effect on applies the panel's values; switching it off
/// only turns the effect off.
pub fn switch_effect(enable: bool) -> (action: SwitchAction)
    ensures
        action == (if enable {
            SwitchAction::ApplyValues
        } else {
            SwitchAction::SwitchOff
        }),
{
    if enable {
        SwitchAction::ApplyValues
    } else {
        SwitchAction::SwitchOff
    }
}

/// After a slider moved: with live preview on, the next debounce
/// generation to announce (the counter wraps around); with it off, none,
/// and nothing is applied until asked.
pub fn preview_generation(live_preview: bool, generation: u64) -> (next: Option<u64>)
    ensures
        next == (if live_preview {
            Some(
                if generation == u64::MAX {
                    0u64
                } else {
                    (generation + 1) as u64
                },
            )
        } else {
            None::<u64>
        }),
{
    if live_preview {
        Some(generation.wrapping_add(1))
    } else {
        None
    }
}

/// The outcome of a `hyprctl` run that exited: success, or the trimmed
/// text of its error output.
pub fn command_outcome(succeeded: bool, error_output: &str) -> (outcome: Result<(), String>)
    ensures
        match outcome {
            Ok(()) => succeeded,
            Err(message) => !succeeded && message@ == trim(error_output@),
        },
        succeeded ==> outcome is Ok,
{
    if succeeded {
        return Ok(());
    }
    let v = to_chars(error_output);
    let a = skip_white_space(&v, 0, v.len());
    let b = skip_white_space_back(&v, a, v.len());
    assert(v@.subrange(0, v.len() as int) =~= error_output@);
    Err(String::from_str(error_output.substring_char(a, b)))
}

/// How long live preview waits after the latest slider event.
pub const DEBOUNCE_MS: u64 = 180;

/// Where the live-preview debouncer stands.
#[derive(Debug, Clone, Copy, PartialEq, Eq, Structural)]
pub enum DebounceState {
    /// No change waits to be applied.
    Idle,
    /// A change waits for the sliders to rest.
    Pending,
}

/// What the debouncer was told.
#[derive(Debug, Clone, Copy, PartialEq, Eq, Structural)]
pub enum DebounceEvent {
    /// A slider changed.
    Changed,
    /// The wait ran out without a change.
    TimedOut,
    /// The panel is gone: no more changes will come.
    Closed,
}

/// What the debouncer does next.
#[derive(Debug, Clone, Copy, PartialEq, Eq, Structural)]
pub enum DebounceAction {
    /// Wait for the next change, however long it takes.
    Listen,
    /// Wait for the next change at most this many milliseconds.
    WaitUpTo(u64),
    /// Apply the values, then wait for the next change.
    Apply,
    /// Stop.
    Stop,
}

/// One step of the debouncer: a change restarts the wait; a wait that
/// runs out, or ends because the panel closed, applies the values once;
/// a panel closing while nothing waits stops it.
pub open spec fn debounce_spec(state: DebounceState, event: DebounceEvent) -> (
    DebounceState,
    DebounceAction,
) {
    match (state, event) {
        (_, DebounceEvent::Changed) => (DebounceState::Pending, DebounceAction::WaitUpTo(
            DEBOUNCE_MS,
        )),
        (DebounceState::Pending, _) => (DebounceState::Idle, DebounceAction::Apply),
        (DebounceState::Idle, DebounceEvent::TimedOut) => (
            DebounceState::Idle,
            DebounceAction::Listen,
        ),
        (DebounceState::Idle, DebounceEvent::Closed) => (DebounceState::Idle, DebounceAction::Stop),
    }
}

/// Decides the debouncer's next state and action.
pub fn debounce_step(state: DebounceState, event: DebounceEvent) -> (next: (
    DebounceState,
    DebounceAction,
))
    ensures
        next == debounce_spec(state, event),
{
    match event {
        DebounceEvent::Changed => (DebounceState::Pending, DebounceAction::WaitUpTo(DEBOUNCE_MS)),
        _ => match state {
            DebounceState::Pending => (DebounceState::Idle, DebounceAction::Apply),
            DebounceState::Idle => match event {
                DebounceEvent::Closed => (DebounceState::Idle, DebounceAction::Stop),
                _ => (DebounceState::Idle, DebounceAction::Listen),
            },
        },
    }
}

/// The actions the debouncer takes for a sequence of events.
pub open spec fn debounce_run(state: DebounceState, events: Seq<DebounceEvent>) -> Seq<
    DebounceAction,
>
    decreases events.len(),
{
    if events.len() == 0 {
        Seq::empty()
    } else {
        let (next, action) = debounce_spec(state, events[0]);
        seq![action] + debounce_run(next, events.drop_first())
    }
}

/// `n` slider changes.
pub open spec fn changes(n: nat) -> Seq<DebounceEvent> {
    Seq::new(n, |i: int| DebounceEvent::Changed)
}

/// `n` waits of the debounce time.
pub open spec fn waits(n: nat) -> Seq<DebounceAction> {
    Seq::new(n, |i: int| DebounceAction::WaitUpTo(DEBOUNCE_MS))
}

/// A burst of changes, from any state, restarts the wait at each change
/// and applies the values exactly once, when the sliders have rested for
/// the debounce time (or the panel closed).
pub proof fn law_debounce_burst(state: DebounceState, n: nat, end: DebounceEvent)
    requires
        n > 0,
        end != DebounceEvent::Changed,
    ensures
        debounce_run(state, changes(n).push(end)) == waits(n).push(DebounceAction::Apply),
    decreases n,
{
    let events = changes(n).push(end);
    assert(events[0] == DebounceEvent::Changed);
    if n == 1 {
        assert(events.drop_first() =~= seq![end]);
        assert(seq![end].drop_first() =~= Seq::<DebounceEvent>::empty());
        assert(debounce_run(DebounceState::Idle, Seq::<DebounceEvent>::empty()) =~= Seq::empty());
        assert(debounce_run(DebounceState::Pending, seq![end]) =~= seq![DebounceAction::Apply]);
        assert(seq![DebounceAction::WaitUpTo(DEBOUNCE_MS)] + seq![DebounceAction::Apply]
            =~= waits(1).push(DebounceAction::Apply));
    } else {
        let m = (n - 1) as nat;
        assert(events.drop_first() =~= changes(m).push(end));
        law_debounce_burst(DebounceState::Pending, m, end);
        assert(seq![DebounceAction::WaitUpTo(DEBOUNCE_MS)] + waits(m).push(DebounceAction::Apply)
            =~= waits(n).push(DebounceAction::Apply));
    }
}

} // verus!
