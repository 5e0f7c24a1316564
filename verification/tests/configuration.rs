use xwin_test::{runner_env_key, str_has_substring, termination_code, CommandDescription,
    ExitOutcome, Test};

fn base_command() -> CommandDescription {
    let mut cmd = CommandDescription::new("cargo".to_string());
    cmd.push_arg("test".to_string());
    cmd
}

fn request_with_targets(targets: &[&str]) -> Test {
    let mut t = Test::new(None);
    t.target = targets.iter().map(|s| s.to_string()).collect();
    t
}

fn env_value<'a>(cmd: &'a CommandDescription, key: &str) -> Option<&'a str> {
    cmd.envs
        .iter()
        .find(|e| e.key == key)
        .map(|e| e.value.as_str())
}

#[test]
fn new_request_has_defaults() {
    let t = Test::new(Some("Cargo.toml".to_string()));
    assert_eq!(t.manifest_path.as_deref(), Some("Cargo.toml"));
    assert!(t.target.is_empty());
    assert!(!t.doc);
    assert!(!t.no_run);
    assert!(!t.no_fail_fast);
    assert!(t.test_name.is_none());
    assert!(t.args.is_empty());
}

#[test]
fn no_targets_leaves_overlay_empty() {
    let t = Test::new(None);
    let cmd = t.configure(base_command(), &Vec::new());
    assert!(cmd.envs.is_empty());
    assert_eq!(cmd.args, vec!["test".to_string()]);
}

#[test]
fn msvc_target_gets_runner_and_diagnostics_off() {
    let t = request_with_targets(&["x86_64-pc-windows-msvc"]);
    let cmd = t.configure(base_command(), &Vec::new());
    assert_eq!(cmd.program, "cargo");
    assert_eq!(cmd.args, vec!["test".to_string()]);
    assert_eq!(cmd.envs.len(), 2);
    assert_eq!(env_value(&cmd, "WINEDEBUG"), Some("-all"));
    assert_eq!(
        env_value(&cmd, "CARGO_TARGET_X86_64_PC_WINDOWS_MSVC_RUNNER"),
        Some("wine")
    );
}

#[test]
fn preset_runner_key_is_not_overwritten() {
    let t = request_with_targets(&["x86_64-pc-windows-msvc"]);
    let ambient = vec!["CARGO_TARGET_X86_64_PC_WINDOWS_MSVC_RUNNER".to_string()];
    let cmd = t.configure(base_command(), &ambient);
    assert_eq!(cmd.envs.len(), 1);
    assert_eq!(env_value(&cmd, "WINEDEBUG"), Some("-all"));
    assert_eq!(
        env_value(&cmd, "CARGO_TARGET_X86_64_PC_WINDOWS_MSVC_RUNNER"),
        None
    );
}

#[test]
fn preset_diagnostics_key_is_not_overwritten() {
    let t = request_with_targets(&["x86_64-pc-windows-msvc"]);
    let ambient = vec!["WINEDEBUG".to_string()];
    let cmd = t.configure(base_command(), &ambient);
    assert_eq!(cmd.envs.len(), 1);
    assert_eq!(env_value(&cmd, "WINEDEBUG"), None);
    assert_eq!(
        env_value(&cmd, "CARGO_TARGET_X86_64_PC_WINDOWS_MSVC_RUNNER"),
        Some("wine")
    );
}

#[test]
fn non_msvc_target_adds_no_env() {
    let mut t = request_with_targets(&["x86_64-unknown-linux-gnu"]);
    t.doc = true;
    t.no_fail_fast = true;
    let cmd = t.configure(base_command(), &Vec::new());
    assert!(cmd.envs.is_empty());
}

#[test]
fn duplicate_msvc_targets_set_each_key_once() {
    let t = request_with_targets(&["x86_64-pc-windows-msvc", "x86_64-pc-windows-msvc"]);
    let cmd = t.configure(base_command(), &Vec::new());
    assert_eq!(cmd.envs.len(), 2);
    assert_eq!(env_value(&cmd, "WINEDEBUG"), Some("-all"));
    assert_eq!(
        env_value(&cmd, "CARGO_TARGET_X86_64_PC_WINDOWS_MSVC_RUNNER"),
        Some("wine")
    );
}

#[test]
fn two_msvc_targets_each_get_a_runner_key() {
    let t = request_with_targets(&["x86_64-pc-windows-msvc", "aarch64-pc-windows-msvc"]);
    let cmd = t.configure(base_command(), &Vec::new());
    assert_eq!(cmd.envs.len(), 3);
    assert_eq!(env_value(&cmd, "WINEDEBUG"), Some("-all"));
    assert_eq!(
        env_value(&cmd, "CARGO_TARGET_X86_64_PC_WINDOWS_MSVC_RUNNER"),
        Some("wine")
    );
    assert_eq!(
        env_value(&cmd, "CARGO_TARGET_AARCH64_PC_WINDOWS_MSVC_RUNNER"),
        Some("wine")
    );
}

#[test]
fn mixed_targets_configure_only_msvc() {
    let t = request_with_targets(&["x86_64-unknown-linux-gnu", "x86_64-pc-windows-msvc"]);
    let cmd = t.configure(base_command(), &Vec::new());
    assert_eq!(cmd.envs.len(), 2);
    assert_eq!(
        env_value(&cmd, "CARGO_TARGET_X86_64_UNKNOWN_LINUX_GNU_RUNNER"),
        None
    );
    assert_eq!(
        env_value(&cmd, "CARGO_TARGET_X86_64_PC_WINDOWS_MSVC_RUNNER"),
        Some("wine")
    );
}

#[test]
fn all_flags_appear_in_order() {
    let mut t = Test::new(None);
    t.no_run = true;
    t.no_fail_fast = true;
    t.test_name = Some("mytests".to_string());
    t.args = vec!["--".to_string(), "extra".to_string()];
    let cmd = t.configure(base_command(), &Vec::new());
    assert_eq!(
        cmd.args,
        vec![
            "test".to_string(),
            "--no-run".to_string(),
            "--no-fail-fast".to_string(),
            "mytests".to_string(),
            "--".to_string(),
            "--".to_string(),
            "extra".to_string(),
        ]
    );
    assert!(cmd.envs.is_empty());
}

#[test]
fn doc_flag_alone() {
    let mut t = Test::new(None);
    t.doc = true;
    let cmd = t.configure(base_command(), &Vec::new());
    assert_eq!(cmd.args, vec!["test".to_string(), "--doc".to_string()]);
}

#[test]
fn doc_flag_unaffected_by_no_fail_fast() {
    for &nff in &[false, true] {
        let mut t = Test::new(None);
        t.doc = true;
        t.no_fail_fast = nff;
        let cmd = t.configure(base_command(), &Vec::new());
        assert!(cmd.args.iter().any(|a| a == "--doc"));
        assert_eq!(cmd.args.iter().any(|a| a == "--no-fail-fast"), nff);
    }
}

#[test]
fn no_fail_fast_flag_unaffected_by_doc() {
    for &doc in &[false, true] {
        let mut t = Test::new(None);
        t.no_fail_fast = true;
        t.doc = doc;
        let cmd = t.configure(base_command(), &Vec::new());
        assert!(cmd.args.iter().any(|a| a == "--no-fail-fast"));
        assert_eq!(cmd.args.iter().any(|a| a == "--doc"), doc);
    }
}

#[test]
fn passthrough_args_follow_separator_in_order() {
    let mut t = Test::new(None);
    t.args = vec!["a".to_string(), "b".to_string(), "a".to_string()];
    let cmd = t.configure(base_command(), &Vec::new());
    assert_eq!(
        cmd.args,
        vec![
            "test".to_string(),
            "--".to_string(),
            "a".to_string(),
            "b".to_string(),
            "a".to_string(),
        ]
    );
}

#[test]
fn no_passthrough_args_no_separator() {
    let t = Test::new(None);
    let cmd = t.configure(base_command(), &Vec::new());
    assert!(!cmd.args.iter().any(|a| a == "--"));
}

#[test]
fn runner_env_key_transforms_triple() {
    assert_eq!(
        runner_env_key("x86_64-pc-windows-msvc"),
        "CARGO_TARGET_X86_64_PC_WINDOWS_MSVC_RUNNER"
    );
    assert_eq!(
        runner_env_key("aarch64-pc-windows-msvc"),
        "CARGO_TARGET_AARCH64_PC_WINDOWS_MSVC_RUNNER"
    );
    assert_eq!(runner_env_key(""), "CARGO_TARGET__RUNNER");
}

#[test]
fn substring_search() {
    assert!(str_has_substring("x86_64-pc-windows-msvc", "msvc"));
    assert!(!str_has_substring("x86_64-unknown-linux-gnu", "msvc"));
    assert!(str_has_substring("msvc", "msvc"));
    assert!(!str_has_substring("msv", "msvc"));
    assert!(str_has_substring("anything", ""));
    assert!(str_has_substring("a-msvc-b", "msvc"));
    assert!(!str_has_substring("", "msvc"));
}

#[test]
fn child_exit_code_is_mirrored() {
    assert_eq!(termination_code(&ExitOutcome::Code(7)), Some(7));
    assert_eq!(termination_code(&ExitOutcome::Code(101)), Some(101));
    assert_eq!(termination_code(&ExitOutcome::Signal), Some(1));
    assert_eq!(termination_code(&ExitOutcome::Success), None);
}

#[test]
fn set_env_updates_existing_key() {
    let mut cmd = CommandDescription::new("cargo".to_string());
    cmd.set_env("K".to_string(), "one".to_string());
    cmd.set_env("L".to_string(), "two".to_string());
    cmd.set_env("K".to_string(), "three".to_string());
    assert_eq!(cmd.envs.len(), 2);
    assert_eq!(cmd.envs[0].key, "K");
    assert_eq!(cmd.envs[0].value, "three");
    assert_eq!(cmd.envs[1].key, "L");
    assert_eq!(cmd.envs[1].value, "two");
}
