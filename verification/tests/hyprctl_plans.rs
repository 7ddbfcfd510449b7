use hyprland_crt_shader::hypr::{
    apply, apply_status, command_outcome, debounce_step, DebounceAction, DebounceEvent,
    DebounceState, detect_enabled, enabled_query, folder_status, is_toggle_invocation,
    preview_generation, program_name, reset_status, set_effect, switch_effect, toggle_plan,
    toggle_status, ApplyCommand, ApplyStage, ApplyStep, SwitchAction,
};
use hyprland_crt_shader::paths::{config_root, system_shader_paths, ConfigRoot};
use hyprland_crt_shader::params::{
    group_titles, parameter_label, parameter_slot, parameters, GROUP_COUNT, PARAMETER_COUNT,
};

#[test]
fn enabling_points_hyprland_at_the_shader() {
    let args = set_effect(true, "/home/u/.config/hyprland-crt-shader/crt.frag");
    assert_eq!(
        args,
        vec![
            "eval".to_string(),
            "hl.config({ decoration = { screen_shader = \"/home/u/.config/hyprland-crt-shader/crt.frag\" }, debug = { damage_tracking = 0, vfr = false } })".to_string(),
        ]
    );
}

#[test]
fn disabling_is_the_documented_emergency_command() {
    let args = set_effect(false, "/anything/crt.frag");
    assert_eq!(args[0], "eval");
    assert_eq!(
        args[1],
        "hl.config({ decoration = { screen_shader = \"\" }, debug = { damage_tracking = 1, vfr = true } })"
    );
}

#[test]
fn query_asks_for_the_screen_shader() {
    assert_eq!(enabled_query(), vec!["getoption".to_string(), "decoration:screen_shader".to_string()]);
}

#[test]
fn detects_enabled_effect() {
    assert!(detect_enabled(Some(
        "str: /home/u/.config/hyprland-crt-shader/crt.frag\nset: true\n"
    )));
    assert!(!detect_enabled(Some("str: [[EMPTY]]\nset: false\n")));
    assert!(!detect_enabled(Some("crt.frag")));
    assert!(!detect_enabled(Some("")));
    assert!(!detect_enabled(None));
}

fn run_apply(enabled: bool, outcomes: &[Result<(), String>]) -> (Vec<ApplyCommand>, Result<(), String>) {
    let mut commands = Vec::new();
    let mut stage = ApplyStage::Start;
    let mut outcome = Ok(());
    let mut next = outcomes.iter();
    loop {
        match apply(stage, enabled, outcome) {
            ApplyStep::Run(s, c) => {
                commands.push(c);
                stage = s;
                outcome = next.next().cloned().expect("an outcome for each command");
            }
            ApplyStep::Finish(r) => return (commands, r),
        }
    }
}

#[test]
fn apply_with_effect_off_only_writes() {
    let (cmds, r) = run_apply(false, &[Ok(())]);
    assert_eq!(cmds, vec![ApplyCommand::WriteValues]);
    assert_eq!(r, Ok(()));
}

#[test]
fn apply_with_effect_on_recompiles() {
    let (cmds, r) = run_apply(true, &[Ok(()), Err("busy".to_string()), Ok(())]);
    assert_eq!(
        cmds,
        vec![ApplyCommand::WriteValues, ApplyCommand::SetEffect(false), ApplyCommand::SetEffect(true)]
    );
    assert_eq!(r, Ok(()));
}

#[test]
fn apply_reports_enable_failure() {
    let (_, r) = run_apply(true, &[Ok(()), Ok(()), Err("no".to_string())]);
    assert_eq!(r, Err("no".to_string()));
}

#[test]
fn apply_stops_after_failed_write() {
    let (cmds, r) = run_apply(true, &[Err("disk full".to_string())]);
    assert_eq!(cmds, vec![ApplyCommand::WriteValues]);
    assert_eq!(r, Err("disk full".to_string()));
}

#[test]
fn toggle_switches_off_when_on() {
    let plan = toggle_plan(true);
    assert!(!plan.enable);
    assert_eq!(plan.report, "CRT Shader: OFF (temporary)");
    assert_eq!(plan.notify, vec!["notify", "2", "2500", "rgb(88cc88)", "CRT Shader: OFF"]);
}

#[test]
fn toggle_switches_on_when_off() {
    let plan = toggle_plan(false);
    assert!(plan.enable);
    assert_eq!(plan.report, "CRT Shader: ON (temporary)");
    assert_eq!(plan.notify, vec!["notify", "2", "2500", "rgb(88aaff)", "CRT Shader: ON"]);
}

#[test]
fn status_lines() {
    assert_eq!(apply_status(&Ok(())), "已应用 / Applied");
    assert_eq!(apply_status(&Err("x".to_string())), "应用失败: x");
    assert_eq!(reset_status(&Ok(())), "已恢复默认 / Defaults restored");
    assert_eq!(reset_status(&Err("y".to_string())), "恢复失败: y");
    assert_eq!(toggle_status(true, true), "已启用 / Enabled");
    assert_eq!(toggle_status(false, true), "已关闭 / Disabled");
    assert_eq!(toggle_status(true, false), "切换失败 / Toggle failed");
    assert_eq!(folder_status(true), "已打开目录 / Folder opened");
    assert_eq!(folder_status(false), "无法打开目录 / Open failed");
}

#[test]
fn invocation_name() {
    assert!(is_toggle_invocation(Some("hypr-crt-toggle")));
    assert!(!is_toggle_invocation(Some("hypr-crt-control")));
    assert!(!is_toggle_invocation(None));
    assert_eq!(program_name(true), "hypr-crt-toggle");
    assert_eq!(program_name(false), "hypr-crt-control");
}

#[test]
fn parameter_table_shape() {
    let ps = parameters();
    assert_eq!(ps.len(), PARAMETER_COUNT);
    assert_eq!(group_titles().len(), GROUP_COUNT);
    assert_eq!(ps[0].key, "GLITCH_INTERVAL");
    assert_eq!(ps[PARAMETER_COUNT - 1].key, "OVERSCAN");
    for w in ps.windows(2) {
        assert!(w[0].group <= w[1].group);
    }
    let mut keys: Vec<&str> = ps.iter().map(|p| p.key).collect();
    keys.sort();
    keys.dedup();
    assert_eq!(keys.len(), PARAMETER_COUNT);
}

#[test]
fn slider_labels() {
    let ps = parameters();
    assert_eq!(parameter_label(&ps[0]), "故障周期  Interval");
    assert_eq!(parameter_label(&ps[22]), "画面裁边/缩小  Overscan");
}

#[test]
fn slider_indices() {
    assert_eq!(parameter_slot(0), Some(0));
    assert_eq!(parameter_slot(22), Some(22));
    assert_eq!(parameter_slot(23), None);
    assert_eq!(parameter_slot(-1), None);
    assert_eq!(parameter_slot(i32::MIN), None);
}

#[test]
fn switch_decides_between_apply_and_off() {
    assert_eq!(switch_effect(true), SwitchAction::ApplyValues);
    assert_eq!(switch_effect(false), SwitchAction::SwitchOff);
}

#[test]
fn live_preview_counts_generations() {
    assert_eq!(preview_generation(true, 4), Some(5));
    assert_eq!(preview_generation(true, u64::MAX), Some(0));
    assert_eq!(preview_generation(false, 4), None);
}

#[test]
fn configuration_base() {
    let some = |s: &str| Some(s.as_bytes().to_vec());
    assert_eq!(config_root(some("/x"), some("/home/u")), ConfigRoot::Xdg(b"/x".to_vec()));
    assert_eq!(config_root(some(""), some("/home/u")), ConfigRoot::Home(b"/home/u".to_vec()));
    assert_eq!(config_root(None, some("/home/u")), ConfigRoot::Home(b"/home/u".to_vec()));
    assert_eq!(config_root(some(""), None), ConfigRoot::WorkingDir);
    assert_eq!(config_root(None, None), ConfigRoot::WorkingDir);
}

#[test]
fn installed_shader_search_order() {
    assert_eq!(
        system_shader_paths(),
        vec!["/usr/share/hyprland-crt-shader/crt.frag", "/usr/local/share/hyprland-crt-shader/crt.frag"]
    );
}

#[test]
fn command_outcome_trims_error_output() {
    assert_eq!(command_outcome(true, "ignored"), Ok(()));
    assert_eq!(command_outcome(false, "  no such option\n"), Err("no such option".to_string()));
    assert_eq!(command_outcome(false, ""), Err(String::new()));
}

#[test]
fn debounce_applies_once_after_a_burst() {
    let mut state = DebounceState::Idle;
    let mut actions = Vec::new();
    for event in [
        DebounceEvent::Changed,
        DebounceEvent::Changed,
        DebounceEvent::Changed,
        DebounceEvent::TimedOut,
        DebounceEvent::Closed,
    ] {
        let (next, action) = debounce_step(state, event);
        state = next;
        actions.push(action);
    }
    assert_eq!(
        actions,
        vec![
            DebounceAction::WaitUpTo(180),
            DebounceAction::WaitUpTo(180),
            DebounceAction::WaitUpTo(180),
            DebounceAction::Apply,
            DebounceAction::Stop,
        ]
    );
}

#[test]
fn debounce_applies_pending_change_when_closed() {
    let (state, action) = debounce_step(DebounceState::Pending, DebounceEvent::Closed);
    assert_eq!(action, DebounceAction::Apply);
    assert_eq!(debounce_step(state, DebounceEvent::Closed).1, DebounceAction::Stop);
}
