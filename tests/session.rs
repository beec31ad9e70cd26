use clap_interactive::schema::{classify, ArgDescriptor, CommandDescriptor, Strategy};
use clap_interactive::session::{run_script, Reply, Request, Session};

fn arg(id: &str, positional: bool, required: bool, repeated: bool, delimiter: Option<&str>) -> ArgDescriptor {
    ArgDescriptor {
        id: id.to_string(),
        positional,
        required,
        repeated,
        delimiter: delimiter.map(|d| d.to_string()),
        help: None,
        type_hint: None,
    }
}

fn leaf(name: &str, args: Vec<ArgDescriptor>) -> CommandDescriptor {
    CommandDescriptor {
        name: name.to_string(),
        args,
        subcommands: vec![],
        subcommand_required: false,
        subcommand_label: None,
    }
}

fn git() -> CommandDescriptor {
    CommandDescriptor {
        name: "git".to_string(),
        args: vec![arg("my_arg", false, false, false, None)],
        subcommands: vec![
            leaf("commit", vec![arg("message", true, false, false, None)]),
            leaf("clone", vec![arg("address", true, false, true, None)]),
            leaf("merge", vec![arg("address", true, false, true, Some(",")), arg("bool", false, false, false, None)]),
        ],
        subcommand_required: false,
        subcommand_label: Some("my_subcommand".to_string()),
    }
}

fn entered(s: &str) -> Reply {
    Reply::Entered(s.to_string())
}

#[test]
fn declined_optionals_give_only_the_path() {
    let replies = vec![Reply::No, Reply::Yes, Reply::Chose(0), Reply::No];
    let tokens = run_script(&git(), false, &replies);
    assert_eq!(tokens, vec!["git".to_string(), "commit".to_string()]);
}

#[test]
fn delimited_values_collapse_into_one_token() {
    let replies = vec![
        Reply::Yes,
        entered("a,b"),
        Reply::Yes,
        Reply::Chose(2),
        Reply::Yes,
        entered("x"),
        Reply::Yes,
        entered("y"),
        Reply::No,
        Reply::No,
    ];
    let tokens = run_script(&git(), false, &replies);
    assert_eq!(tokens, vec!["git", "--my_arg=a,b", "merge", "x,y"]);
}

#[test]
fn repeated_values_without_delimiter_stay_apart() {
    let replies = vec![Reply::No, Reply::Yes, Reply::Chose(1), Reply::Yes, entered("x"), Reply::Yes, entered("y"), Reply::No];
    let tokens = run_script(&git(), false, &replies);
    assert_eq!(tokens, vec!["git", "clone", "x", "y"]);
}

#[test]
fn same_replies_give_same_tokens() {
    let replies = vec![Reply::Yes, entered("v"), Reply::Yes, Reply::Chose(0), Reply::Yes, entered("hello")];
    let a = run_script(&git(), false, &replies);
    let b = run_script(&git(), true, &replies);
    assert_eq!(a, b);
    assert_eq!(a, vec!["git", "--my_arg=v", "commit", "hello"]);
}

#[test]
fn required_argument_is_asked_without_confirmation() {
    let root = leaf("tool", vec![arg("path", true, true, false, None), arg("name", false, true, false, None)]);
    let mut s = Session::new(&root, false);
    assert!(matches!(s.request(&root), Request::Text { .. }));
    assert!(!s.step(&root, &Reply::No));
    assert!(s.step(&root, &entered("a")));
    assert!(s.step(&root, &entered("b")));
    assert!(s.is_finished());
    assert!(matches!(s.request(&root), Request::Done));
    assert_eq!(s.tokens, vec!["tool", "a", "--name=b"]);
}

#[test]
fn declining_the_subcommand_ends_the_session() {
    let mut s = Session::new(&git(), false);
    let root = git();
    assert!(s.step(&root, &Reply::No));
    match s.request(&root) {
        Request::Confirm { label, help } => {
            assert_eq!(label, "Add optional command?");
            assert_eq!(help, Some("my_subcommand".to_string()));
        }
        _ => panic!("expected a confirmation"),
    }
    assert!(s.step(&root, &Reply::No));
    assert!(s.is_finished());
    assert!(!s.step(&root, &Reply::Yes));
    assert_eq!(s.tokens, vec!["git"]);
}

#[test]
fn required_subcommand_is_chosen_directly() {
    let mut root = git();
    root.subcommand_required = true;
    root.args = vec![];
    let mut s = Session::new(&root, false);
    match s.request(&root) {
        Request::Select { label, options } => {
            assert_eq!(label, "git");
            assert_eq!(options, vec!["commit", "clone", "merge"]);
        }
        _ => panic!("expected a selection"),
    }
    assert!(!s.step(&root, &Reply::Chose(3)));
    assert!(s.step(&root, &Reply::Chose(1)));
    assert_eq!(s.tokens, vec!["git", "clone"]);
}

#[test]
fn value_prompts_carry_their_help() {
    let mut a = arg("port", false, true, false, None);
    a.help = Some("Port to use".to_string());
    a.type_hint = Some("<u16>".to_string());
    let root = leaf("srv", vec![a]);
    let quiet = Session::new(&root, false);
    match quiet.request(&root) {
        Request::Text { label, help_text } => {
            assert_eq!(label, "port");
            assert_eq!(help_text, "Port to use");
        }
        _ => panic!("expected a text prompt"),
    }
    let verbose = Session::new(&root, true);
    match verbose.request(&root) {
        Request::Text { help_text, .. } => assert_eq!(help_text, "<u16>: Port to use"),
        _ => panic!("expected a text prompt"),
    }
}

#[test]
fn optional_value_prompt_names_the_argument() {
    let root = git();
    let s = Session::new(&root, false);
    match s.request(&root) {
        Request::Confirm { label, help } => {
            assert_eq!(label, "Add optional value?");
            assert_eq!(help, Some("my_arg".to_string()));
        }
        _ => panic!("expected a confirmation"),
    }
}

#[test]
fn classify_follows_the_order_of_rules() {
    assert_eq!(classify(&arg("a", true, true, true, None)), Strategy::Repeated);
    assert_eq!(classify(&arg("a", true, true, false, None)), Strategy::Required);
    assert_eq!(classify(&arg("a", false, false, false, None)), Strategy::Optional);
}

#[test]
fn empty_command_finishes_at_once() {
    let root = leaf("x", vec![]);
    let tokens = run_script(&root, false, &vec![Reply::Yes]);
    assert_eq!(tokens, vec!["x"]);
}
