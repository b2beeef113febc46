use rustpython_launcher::settings::{env_int_value, create_settings, split_paths, CliArgs, EnvSnapshot};

fn no_cli() -> CliArgs {
    CliArgs {
        script: None,
        command: None,
        module: None,
        optimize: 0,
        verbose: 0,
        debug: false,
        inspect: false,
        quiet: false,
        no_site: false,
        no_user_site: false,
        dont_write_bytecode: false,
        ignore_environment: false,
    }
}

fn no_env() -> EnvSnapshot {
    EnvSnapshot {
        runtime_path: None,
        general_path: None,
        debug_set: false,
        inspect_set: false,
        no_user_site_set: false,
        dont_write_bytecode_set: false,
        optimize: None,
        verbose: None,
        path_separator: ':',
    }
}

#[test]
fn env_int_well_formed() {
    assert_eq!(env_int_value("0"), 0);
    assert_eq!(env_int_value("7"), 7);
    assert_eq!(env_int_value("007"), 7);
    assert_eq!(env_int_value("255"), 255);
    assert_eq!(env_int_value("+12"), 12);
}

#[test]
fn env_int_malformed_is_one() {
    assert_eq!(env_int_value(""), 1);
    assert_eq!(env_int_value("abc"), 1);
    assert_eq!(env_int_value("1x"), 1);
    assert_eq!(env_int_value(" 1"), 1);
    assert_eq!(env_int_value("-1"), 1);
    assert_eq!(env_int_value("+"), 1);
    assert_eq!(env_int_value("256"), 1);
    assert_eq!(env_int_value("999999999999999999999"), 1);
}

#[test]
fn cli_flags_override_environment() {
    let mut cli = no_cli();
    cli.debug = true;
    cli.inspect = true;
    cli.no_user_site = true;
    cli.dont_write_bytecode = true;
    cli.optimize = 2;
    cli.verbose = 3;
    let mut env = no_env();
    env.debug_set = true;
    env.inspect_set = true;
    env.no_user_site_set = true;
    env.dont_write_bytecode_set = true;
    env.optimize = Some(String::from("7"));
    env.verbose = Some(String::from("9"));
    let s = create_settings(&cli, &env);
    assert!(s.debug);
    assert!(s.inspect);
    assert!(s.no_user_site);
    assert!(s.dont_write_bytecode);
    assert_eq!(s.optimize, 2);
    assert_eq!(s.verbose, 3);

    // the same command line resolves the same against an empty environment
    let s2 = create_settings(&cli, &no_env());
    assert_eq!(s2.debug, s.debug);
    assert_eq!(s2.inspect, s.inspect);
    assert_eq!(s2.no_user_site, s.no_user_site);
    assert_eq!(s2.dont_write_bytecode, s.dont_write_bytecode);
    assert_eq!(s2.optimize, s.optimize);
    assert_eq!(s2.verbose, s.verbose);
}

#[test]
fn environment_applies_without_cli_flags() {
    let mut env = no_env();
    env.debug_set = true;
    env.optimize = Some(String::from("2"));
    env.verbose = Some(String::from("junk"));
    let s = create_settings(&no_cli(), &env);
    assert!(s.debug);
    assert!(!s.inspect);
    assert_eq!(s.optimize, 2);
    // a malformed integer value resolves to exactly 1, never an error
    assert_eq!(s.verbose, 1);
}

#[test]
fn ignore_environment_blocks_everything() {
    let mut cli = no_cli();
    cli.ignore_environment = true;
    let mut env = no_env();
    env.debug_set = true;
    env.inspect_set = true;
    env.no_user_site_set = true;
    env.dont_write_bytecode_set = true;
    env.optimize = Some(String::from("7"));
    env.verbose = Some(String::from("9"));
    env.runtime_path = Some(String::from("/a:/b"));
    env.general_path = Some(String::from("/c"));
    let s = create_settings(&cli, &env);
    assert!(s.ignore_environment);
    assert!(!s.debug);
    assert!(!s.inspect);
    assert!(!s.no_user_site);
    assert!(!s.dont_write_bytecode);
    assert_eq!(s.optimize, 0);
    assert_eq!(s.verbose, 0);
    // with the environment ignored no environment-derived entries appear
    assert_eq!(s.path_list, vec![String::new()]);
}

#[test]
fn path_list_starts_empty_then_env_entries() {
    let mut env = no_env();
    env.runtime_path = Some(String::from("/rt/one:/rt/two"));
    env.general_path = Some(String::from("/gen"));
    let s = create_settings(&no_cli(), &env);
    assert_eq!(
        s.path_list,
        vec![
            String::new(),
            String::from("/rt/one"),
            String::from("/rt/two"),
            String::from("/gen"),
        ]
    );
}

#[test]
fn path_list_no_env_vars_is_just_cwd() {
    let s = create_settings(&no_cli(), &no_env());
    assert_eq!(s.path_list, vec![String::new()]);
}

#[test]
fn split_paths_keeps_empty_segments() {
    assert_eq!(split_paths("a:b", ':'), vec![String::from("a"), String::from("b")]);
    assert_eq!(split_paths("", ':'), vec![String::new()]);
    assert_eq!(
        split_paths(":a:", ':'),
        vec![String::new(), String::from("a"), String::new()]
    );
    assert_eq!(split_paths("a;b", ';'), vec![String::from("a"), String::from("b")]);
}

#[test]
fn argv_for_script_is_positional_values() {
    let mut cli = no_cli();
    cli.script = Some(vec![String::from("prog.py"), String::from("x"), String::from("y")]);
    let s = create_settings(&cli, &no_env());
    assert_eq!(
        s.argv,
        vec![String::from("prog.py"), String::from("x"), String::from("y")]
    );
}

#[test]
fn argv_for_module_uses_placeholder() {
    let mut cli = no_cli();
    cli.module = Some(vec![String::from("mymod"), String::from("x")]);
    let s = create_settings(&cli, &no_env());
    assert_eq!(s.argv, vec![String::from("PLACEHOLDER"), String::from("x")]);
}

#[test]
fn argv_for_command_uses_flag_token() {
    let mut cli = no_cli();
    cli.command = Some(vec![String::from("print(1)"), String::from("x")]);
    let s = create_settings(&cli, &no_env());
    assert_eq!(s.argv, vec![String::from("-c"), String::from("x")]);
}

#[test]
fn argv_empty_without_execution_source() {
    let s = create_settings(&no_cli(), &no_env());
    assert_eq!(s.argv, Vec::<String>::new());
}

#[test]
fn argv_follows_mode_precedence() {
    let mut cli = no_cli();
    cli.command = Some(vec![String::from("print(1)")]);
    cli.script = Some(vec![String::from("prog.py")]);
    let s = create_settings(&cli, &no_env());
    assert_eq!(s.argv, vec![String::from("-c")]);
}
