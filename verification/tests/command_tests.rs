use yagit::command::{Cmd, CmdError, CmdTag, SubCmd};

fn args(list: &[&str]) -> Vec<String> {
    list.iter().map(|s| s.to_string()).collect()
}

#[test]
fn parse_render_batch() {
    let (cmd, trailing) = Cmd::parse(&args(&["render-batch"])).unwrap();
    assert!(matches!(cmd.sub_cmd, SubCmd::RenderBatch));
    assert!(!cmd.flags.full_build());
    assert!(!cmd.flags.private());
    assert!(!trailing);
}

#[test]
fn parse_flags_before_subcommand() {
    let (cmd, _) = Cmd::parse(&args(&["--full-build", "--private", "render-batch"])).unwrap();
    assert!(cmd.flags.full_build());
    assert!(cmd.flags.private());
}

#[test]
fn parse_render_with_name() {
    let (cmd, trailing) = Cmd::parse(&args(&["render", "myrepo"])).unwrap();
    match cmd.sub_cmd {
        SubCmd::Render { repo_name } => assert_eq!(repo_name, "myrepo"),
        _ => panic!("expected render"),
    }
    assert!(!trailing);
}

#[test]
fn parse_init_with_name_and_description() {
    let (cmd, _) = Cmd::parse(&args(&["init", "r", "a description"])).unwrap();
    match cmd.sub_cmd {
        SubCmd::Init { repo_name, description } => {
            assert_eq!(repo_name, "r");
            assert_eq!(description, "a description");
        }
        _ => panic!("expected init"),
    }
}

#[test]
fn parse_trailing_arguments_reported() {
    let (_, trailing) = Cmd::parse(&args(&["render", "r", "extra"])).unwrap();
    assert!(trailing);
}

#[test]
fn parse_errors() {
    assert!(matches!(Cmd::parse(&args(&[])), Err(CmdError::NoSubCmd)));
    match Cmd::parse(&args(&["--bogus"])) {
        Err(CmdError::UnknownFlag(s)) => assert_eq!(s, "--bogus"),
        _ => panic!("expected unknown flag"),
    }
    match Cmd::parse(&args(&["frobnicate"])) {
        Err(CmdError::UnknownSubCmd(s)) => assert_eq!(s, "frobnicate"),
        _ => panic!("expected unknown subcommand"),
    }
    assert!(matches!(
        Cmd::parse(&args(&["render"])),
        Err(CmdError::MissingRepoName(CmdTag::Render))
    ));
    assert!(matches!(
        Cmd::parse(&args(&["init"])),
        Err(CmdError::MissingRepoName(CmdTag::Init))
    ));
    assert!(matches!(
        Cmd::parse(&args(&["init", "r"])),
        Err(CmdError::MissingDescription)
    ));
}

#[test]
fn usage_lines() {
    assert_eq!(
        yagit::command::usage("yagit", None),
        "yagit [--full-build] [--private] <command> [<args>]"
    );
    assert_eq!(
        yagit::command::usage("yagit", Some(CmdTag::Render)),
        "yagit [--full-build] [--private] render <repo-name>"
    );
    assert_eq!(
        yagit::command::usage("yagit", Some(CmdTag::Init)),
        "yagit [--private] init <repo-name>"
    );
}
