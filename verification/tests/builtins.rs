use lsh::builtins::{
    builtin_echo, builtin_env, builtin_exit, builtin_set, builtin_unset, builtins, cd_record_success,
    cd_report_failure, cd_target, pwd_output, Builtin, ShellAction,
};
use lsh::environment::ShellEnv;
use lsh::sink::Sink;
use lsh::welcome::print_welcome;

#[test]
fn test_exit_returns_exit_action() {
    let registry = builtins();
    assert!(matches!(registry.lookup("exit"), Some(Builtin::Exit)));
    let mut buf = Sink::new();
    let mut err_buf = Sink::new();
    let mut env = ShellEnv::empty();
    let result = builtin_exit(&vec![], &mut env, &mut buf, &mut err_buf);
    assert_eq!(result, ShellAction::Exit);
    assert!(buf.is_empty());
}

#[test]
fn test_echo_writes_to_output() {
    let registry = builtins();
    assert!(matches!(registry.lookup("echo"), Some(Builtin::Echo)));
    let mut buf = Sink::new();
    let mut err_buf = Sink::new();
    let mut env = ShellEnv::empty();
    let result = builtin_echo(
        &vec!["hello".to_string(), "world".to_string()],
        &mut env,
        &mut buf,
        &mut err_buf,
    );
    assert_eq!(result, ShellAction::Continue);
    assert_eq!(buf.contents().trim(), "hello world");
}

#[test]
fn test_echo_exact_output() {
    let mut buf = Sink::new();
    let mut err_buf = Sink::new();
    let mut env = ShellEnv::empty();
    builtin_echo(
        &vec!["a".to_string(), "b".to_string(), "c".to_string()],
        &mut env,
        &mut buf,
        &mut err_buf,
    );
    assert_eq!(buf.contents(), "a b c\n");
    assert!(err_buf.is_empty());
}

#[test]
fn test_echo_no_args_writes_empty_line() {
    let mut buf = Sink::new();
    let mut err_buf = Sink::new();
    let mut env = ShellEnv::empty();
    builtin_echo(&vec![], &mut env, &mut buf, &mut err_buf);
    assert_eq!(buf.contents(), "\n");
}

#[test]
fn test_builtin_env_prints_all_vars() {
    let mut env = ShellEnv::empty();
    env.set_var("USER", "testuser");
    env.set_var("HOME", "/tmp");
    env.set_var("PATH", "/usr/bin");

    let mut output = Sink::new();
    let mut err_buf = Sink::new();

    let result = builtin_env(&vec![], &mut env, &mut output, &mut err_buf);
    assert!(matches!(result, ShellAction::Continue));

    let output_str = output.contents();
    assert!(output_str.contains("USER=testuser"));
    assert!(output_str.contains("HOME=/tmp"));
    assert!(output_str.contains("PATH=/usr/bin"));

    let lines: Vec<&str> = output_str.lines().collect();
    assert_eq!(lines.len(), 3);
}

#[test]
fn test_builtin_env_two_vars_each_on_own_line() {
    let mut env = ShellEnv::empty();
    env.set_var("USER", "alice");
    env.set_var("HOME", "/tmp");
    let mut output = Sink::new();
    let mut err_buf = Sink::new();
    builtin_env(&vec![], &mut env, &mut output, &mut err_buf);
    let lines: Vec<&str> = output.contents().lines().collect();
    assert_eq!(lines.len(), 2);
    assert!(lines.contains(&"USER=alice"));
    assert!(lines.contains(&"HOME=/tmp"));
}

#[test]
fn test_builtin_env_empty_store_writes_nothing() {
    let mut env = ShellEnv::empty();
    let mut output = Sink::new();
    let mut err_buf = Sink::new();
    let result = builtin_env(&vec![], &mut env, &mut output, &mut err_buf);
    assert_eq!(result, ShellAction::Continue);
    assert!(output.is_empty());
}

#[test]
fn test_builtin_set_sets_the_env() {
    let mut env = ShellEnv::empty();
    let mut buf = Sink::new();
    let mut err_buf = Sink::new();

    let result = builtin_set(
        &vec!["hello".to_string(), "world".to_string()],
        &mut env,
        &mut buf,
        &mut err_buf,
    );
    assert!(matches!(result, ShellAction::Continue));

    assert_eq!(env.get_var("hello").unwrap(), "world");
}

#[test]
fn test_builtin_set_without_args_raises_error() {
    let mut env = ShellEnv::empty();
    let mut buf = Sink::new();
    let mut err_buf = Sink::new();

    let result = builtin_set(&vec![], &mut env, &mut buf, &mut err_buf);
    assert!(matches!(result, ShellAction::Continue));

    assert_eq!(err_buf.contents().trim(), "usage: set VAR VALUE");
}

#[test]
fn test_builtin_set_wrong_arg_counts_mutate_nothing() {
    let mut env = ShellEnv::empty();
    for args in [
        vec![],
        vec!["A".to_string()],
        vec!["A".to_string(), "1".to_string(), "2".to_string()],
    ] {
        let mut buf = Sink::new();
        let mut err_buf = Sink::new();
        let result = builtin_set(&args, &mut env, &mut buf, &mut err_buf);
        assert_eq!(result, ShellAction::Continue);
        assert_eq!(err_buf.contents(), "usage: set VAR VALUE\n");
        assert!(buf.is_empty());
    }
    assert!(env.get_var("A").is_none());
}

#[test]
fn test_builtin_unset_with_args_unsets_the_var() {
    let mut env = ShellEnv::empty();
    let mut buf = Sink::new();
    let mut err_buf = Sink::new();

    env.set_var("hello", "world");

    let result = builtin_unset(&vec!["hello".to_string()], &mut env, &mut buf, &mut err_buf);
    assert!(matches!(result, ShellAction::Continue));

    assert_eq!(env.get_var("hello"), None);
}

#[test]
fn test_builtin_unset_without_args_raises_error() {
    let mut env = ShellEnv::empty();
    let mut buf = Sink::new();
    let mut err_buf = Sink::new();

    let result = builtin_unset(&vec![], &mut env, &mut buf, &mut err_buf);
    assert!(matches!(result, ShellAction::Continue));

    assert_eq!(err_buf.contents().trim(), "usage: unset VAR");
}

#[test]
fn test_builtin_unset_wrong_arg_counts_mutate_nothing() {
    let mut env = ShellEnv::empty();
    env.set_var("A", "1");
    for args in [vec![], vec!["A".to_string(), "B".to_string()]] {
        let mut buf = Sink::new();
        let mut err_buf = Sink::new();
        let result = builtin_unset(&args, &mut env, &mut buf, &mut err_buf);
        assert_eq!(result, ShellAction::Continue);
        assert_eq!(err_buf.contents(), "usage: unset VAR\n");
        assert!(buf.is_empty());
    }
    assert_eq!(env.get_var("A"), Some(&"1".to_string()));
}

#[test]
fn test_cd_dash_goes_writes_to_err_old_pwd_not_set() {
    let mut err_buf = Sink::new();
    let env = ShellEnv::empty();

    let target = cd_target(&vec!["-".to_string()], &env, &mut err_buf);
    assert!(target.is_none());
    assert_eq!(err_buf.contents().trim(), "cd: OLDPWD not set");
}

#[test]
fn test_cd_target_no_args_uses_home() {
    let mut env = ShellEnv::empty();
    env.set_var("HOME", "/tmp");
    let mut err_buf = Sink::new();
    let target = cd_target(&vec![], &env, &mut err_buf);
    assert_eq!(target, Some("/tmp".to_string()));
    assert!(err_buf.is_empty());
}

#[test]
fn test_cd_target_no_args_falls_back_to_root() {
    let env = ShellEnv::empty();
    let mut err_buf = Sink::new();
    let target = cd_target(&vec![], &env, &mut err_buf);
    assert_eq!(target, Some("/".to_string()));
    assert!(err_buf.is_empty());
}

#[test]
fn test_cd_target_plain_path_passes_through() {
    let env = ShellEnv::empty();
    let mut err_buf = Sink::new();
    let target = cd_target(&vec!["/usr/local".to_string()], &env, &mut err_buf);
    assert_eq!(target, Some("/usr/local".to_string()));
}

#[test]
fn test_cd_dash_toggles_between_two_directories() {
    let mut env = ShellEnv::empty();
    let mut err_buf = Sink::new();

    cd_record_success(&mut env, "/start", "/dir1");
    cd_record_success(&mut env, "/dir1", "/dir2");

    let back = cd_target(&vec!["-".to_string()], &env, &mut err_buf);
    assert_eq!(back, Some("/dir1".to_string()));

    cd_record_success(&mut env, "/dir2", "/dir1");
    let forth = cd_target(&vec!["-".to_string()], &env, &mut err_buf);
    assert_eq!(forth, Some("/dir2".to_string()));
    assert!(err_buf.is_empty());
}

#[test]
fn test_cd_record_success_updates_oldpwd_and_pwd() {
    let mut env = ShellEnv::empty();
    cd_record_success(&mut env, "/left", "/entered");
    assert_eq!(env.get_var("OLDPWD"), Some(&"/left".to_string()));
    assert_eq!(env.get_var("PWD"), Some(&"/entered".to_string()));
}

#[test]
fn test_cd_report_failure_prefixes_message() {
    let mut err_buf = Sink::new();
    cd_report_failure(&mut err_buf, "No such file or directory");
    assert!(err_buf.contents().starts_with("cd: "));
    assert_eq!(err_buf.contents(), "cd: No such file or directory\n");
}

#[test]
fn test_pwd_output_writes_directory_line() {
    let mut buf = Sink::new();
    let result = pwd_output("/home/someone", &mut buf);
    assert_eq!(result, ShellAction::Continue);
    assert_eq!(buf.contents(), "/home/someone\n");
}

#[test]
fn test_registry_knows_every_builtin_name() {
    let registry = builtins();
    assert!(matches!(registry.lookup("cd"), Some(Builtin::Cd)));
    assert!(matches!(registry.lookup("pwd"), Some(Builtin::Pwd)));
    assert!(matches!(registry.lookup("echo"), Some(Builtin::Echo)));
    assert!(matches!(registry.lookup("exit"), Some(Builtin::Exit)));
    assert!(matches!(registry.lookup("set"), Some(Builtin::SetVar)));
    assert!(matches!(registry.lookup("unset"), Some(Builtin::UnsetVar)));
    assert!(matches!(registry.lookup("env"), Some(Builtin::ShowEnv)));
}

#[test]
fn test_registry_lookup_is_case_sensitive_and_exact() {
    let registry = builtins();
    assert!(registry.lookup("CD").is_none());
    assert!(registry.lookup("Echo").is_none());
    assert!(registry.lookup("ech").is_none());
    assert!(registry.lookup("echoo").is_none());
    assert!(registry.lookup("").is_none());
}

#[test]
fn test_welcome() {
    let mut buf = Sink::new();
    print_welcome(&mut buf);
    let output = buf.contents();
    assert!(output.contains("Welcome"));
}
