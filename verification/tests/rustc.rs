use dx_build::rustcwrapper::{
    command_file, exit_code, has_linking_args, run_rustc, Argument, Next, RustcArgs,
    WorkspaceRustcArgs,
};

fn plain(text: &str) -> Argument {
    Argument { text: text.to_string(), file: None }
}

fn with_file(text: &str, bytes: &[u8]) -> Argument {
    Argument { text: text.to_string(), file: Some(bytes.to_vec()) }
}

fn command(args: &[&str]) -> RustcArgs {
    RustcArgs {
        args: args.iter().map(|arg| arg.to_string()).collect(),
        ..RustcArgs::default()
    }
}

fn utf16(text: &str) -> Vec<u8> {
    text.encode_utf16().flat_map(|unit| unit.to_le_bytes()).collect()
}

#[test]
fn replay_restores_program_args_env_and_cwd() {
    let rustc_args = RustcArgs {
        args: vec![
            "/toolchain/bin/rustc".into(),
            "--crate-name".into(),
            "example".into(),
        ],
        envs: vec![("FOO".into(), "BAR".into())],
        cwd: "/tmp/example".into(),
        link_args: vec![],
    };

    let cmd = rustc_args.replay();

    assert_eq!(cmd.program, "/toolchain/bin/rustc");
    assert_eq!(cmd.args, vec!["--crate-name", "example"]);
    assert_eq!(cmd.envs, vec![("FOO".to_string(), "BAR".to_string())]);
    assert_eq!(cmd.current_dir, Some("/tmp/example".to_string()));
}

#[test]
fn replay_of_nothing_is_rustc_where_it_stands() {
    let cmd = RustcArgs::default().replay();
    assert_eq!(cmd.program, "rustc");
    assert!(cmd.args.is_empty());
    assert!(cmd.envs.is_empty());
    assert_eq!(cmd.current_dir, None);
}

#[test]
fn a_workspace_starts_with_its_link_args_alone() {
    let workspace = WorkspaceRustcArgs::new(vec!["-lc".to_string()]);
    assert_eq!(workspace.link_args, vec!["-lc".to_string()]);
    assert!(workspace.rustc_args.is_empty());
}

#[test]
fn commands_are_recorded_by_crate() {
    let record = |args: &[&str]| command(args).record_name();
    assert_eq!(
        record(&["rustc", "--crate-name", "a", "--crate-type", "lib"]),
        Some("a.json".to_string())
    );
    assert_eq!(
        record(&["rustc", "--crate-type", "rlib", "--crate-name", "a"]),
        Some("a.json".to_string())
    );
    assert_eq!(
        record(&["rustc", "--crate-name", "a", "--crate-type", "bin"]),
        Some("a.json".to_string())
    );
    assert_eq!(
        record(&["rustc", "--crate-name", "a", "--crate-type", "proc-macro"]),
        Some("a.json".to_string())
    );
    assert_eq!(
        record(&["rustc", "--crate-name", "a"]),
        Some("a.json".to_string())
    );
    assert_eq!(
        record(&["rustc", "--crate-name", "example", "--crate-type", "lib"]),
        Some("example.json".to_string())
    );
    assert_ne!(
        record(&["rustc", "--crate-name", "a"]),
        record(&["rustc", "--crate-name", "b"])
    );
    assert_eq!(record(&["rustc", "--crate-name", "___"]), None);
    assert_eq!(record(&["rustc", "--crate-name"]), None);
    assert_eq!(record(&["rustc", "-vV"]), None);
    assert_eq!(record(&[]), None);
    // The first flag decides.
    assert_eq!(
        record(&["rustc", "--crate-name", "a", "--crate-name", "b"]),
        Some("a.json".to_string())
    );
}

#[test]
fn link_steps_are_told_by_their_arguments() {
    assert!(has_linking_args(&vec![plain("dx"), plain("main.o")]));
    assert!(has_linking_args(&vec![plain("dx"), plain("-flavor")]));
    assert!(has_linking_args(&vec![plain(".o")]));
    assert!(!has_linking_args(&vec![plain("dx"), plain("main.obj"), plain("-flavors")]));
    assert!(!has_linking_args(&vec![plain("o"), plain("-o"), plain("")]));
    assert!(!has_linking_args(&vec![]));
}

#[test]
fn link_steps_are_told_by_command_files() {
    let links = |bytes: &[u8]| has_linking_args(&vec![plain("dx"), with_file("@args", bytes)]);
    assert!(links(b"-flavor"));
    assert!(links(b"first\n  \"dir/main.o\"\t\r\nlast\n"));
    assert!(links(b"\"\"main.o\"\""));
    assert!(!links(b"\" main.o \""));
    assert!(!links(b"main.o rest"));
    assert!(!links(b""));
    assert!(!links(b"\n\n"));
    assert!(links(&utf16("\u{feff}-x\r\n\"main.o\"\r\n")));
    assert!(!links(&utf16("\u{feff}main.obj\r\n")));
    // An odd byte at the end is no code unit.
    let mut odd = utf16("\u{feff}\n-flavor");
    odd.push(0x41);
    assert!(links(&odd));
    // A file that was not read says nothing, nor does one that no argument names.
    assert!(!has_linking_args(&vec![plain("@args")]));
    assert!(!has_linking_args(&vec![with_file("args", b"-flavor")]));
}

#[test]
fn command_files_are_named_behind_an_at_sign() {
    assert_eq!(command_file("@a/b"), Some("a/b"));
    assert_eq!(command_file("@"), Some(""));
    assert_eq!(command_file("a@b"), None);
    assert_eq!(command_file(""), None);
}

#[test]
fn a_compile_step_is_recorded_and_run() {
    let args = vec![
        plain("dx"),
        plain("rustc"),
        plain("--crate-name"),
        plain("app"),
    ];
    let envs = vec![("A".to_string(), "1".to_string())];
    let invocation = run_rustc(&args, envs.clone(), "/work".to_string());
    assert_eq!(invocation.rustc_args.args, vec!["rustc", "--crate-name", "app"]);
    assert_eq!(invocation.rustc_args.envs, envs);
    assert_eq!(invocation.rustc_args.cwd, "/work");
    assert!(invocation.rustc_args.link_args.is_empty());
    assert_eq!(invocation.record, Some("app.json".to_string()));
    match invocation.next {
        Next::Compile(replay) => {
            assert_eq!(replay.program, "rustc");
            assert_eq!(replay.args, vec!["--crate-name", "app"]);
            assert_eq!(replay.envs, envs);
            assert_eq!(replay.current_dir, Some("/work".to_string()));
        }
        Next::Link => panic!("a compile step was taken for a link step"),
    }
}

#[test]
fn a_link_step_is_recorded_too() {
    let args = vec![
        plain("dx"),
        plain("rustc"),
        plain("--crate-name"),
        plain("app"),
        plain("app.o"),
    ];
    let invocation = run_rustc(&args, vec![], String::new());
    assert_eq!(invocation.record, Some("app.json".to_string()));
    assert!(matches!(invocation.next, Next::Link));
}

#[test]
fn a_signal_ends_the_wrapper_with_one() {
    assert_eq!(exit_code(Some(0)), 0);
    assert_eq!(exit_code(Some(101)), 101);
    assert_eq!(exit_code(None), 1);
}
