use minishell::dispatch::{
    decide_action, plan_line, report_for_outcome, Action, Diagnostic, LinePlan, ProcessOutcome,
};

#[test]
fn plan_cd_alone_changes_to_root() {
    assert_eq!(plan_line("cd"), LinePlan::Do(Action::ChangeToRoot));
}

#[test]
fn plan_cd_with_path_changes_to_it() {
    assert_eq!(
        plan_line("cd /tmp"),
        LinePlan::Do(Action::ChangeTo("/tmp".to_string()))
    );
}

#[test]
fn plan_cd_with_two_args_is_usage_error() {
    assert_eq!(plan_line("cd a b"), LinePlan::Do(Action::CdUsage));
}

#[test]
fn plan_exit_terminates() {
    assert_eq!(plan_line("exit"), LinePlan::Do(Action::Exit));
}

#[test]
fn plan_exit_ignores_trailing_arguments() {
    assert_eq!(plan_line("exit extra"), LinePlan::Do(Action::Exit));
}

#[test]
fn decide_exit_matches_first_token_only() {
    let tokens = vec!["exit".to_string(), "now".to_string(), "really".to_string()];
    assert_eq!(decide_action(tokens), Action::Exit);
}

#[test]
fn plan_blank_line_is_no_action() {
    assert_eq!(plan_line("   "), LinePlan::EmptyInput);
    assert_eq!(plan_line(""), LinePlan::EmptyInput);
    assert_eq!(plan_line("\t\n"), LinePlan::EmptyInput);
}

#[test]
fn plan_unbalanced_quote_is_parse_error() {
    assert_eq!(plan_line("echo \"unterminated"), LinePlan::BadQuoting);
}

#[test]
fn plan_other_command_runs_externally() {
    assert_eq!(
        plan_line("ls -l /"),
        LinePlan::Do(Action::Run {
            program: "ls".to_string(),
            args: vec!["-l".to_string(), "/".to_string()],
        })
    );
}

#[test]
fn plan_trims_outer_whitespace() {
    assert_eq!(plan_line("  exit  \n"), LinePlan::Do(Action::Exit));
}

#[test]
fn report_clean_exit_is_silent() {
    assert_eq!(report_for_outcome("true", ProcessOutcome::Exited(0)), None);
}

#[test]
fn report_nonzero_exit_code() {
    assert_eq!(
        report_for_outcome("false", ProcessOutcome::Exited(3)),
        Some(Diagnostic::NonZeroExit(3))
    );
}

#[test]
fn report_signal_termination() {
    assert_eq!(
        report_for_outcome("sleep", ProcessOutcome::SignalTerminated),
        Some(Diagnostic::KilledBySignal)
    );
}

#[test]
fn report_command_not_found_names_program() {
    assert_eq!(
        report_for_outcome("nosuchprogram", ProcessOutcome::NotFound),
        Some(Diagnostic::CommandNotFound("nosuchprogram".to_string()))
    );
}

#[test]
fn report_other_spawn_failure_keeps_text() {
    assert_eq!(
        report_for_outcome("prog", ProcessOutcome::SpawnFailed("permission denied".to_string())),
        Some(Diagnostic::SpawnError("permission denied".to_string()))
    );
}
