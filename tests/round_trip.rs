use clap_interactive::schema::{ArgDescriptor, CommandDescriptor};
use clap_interactive::session::{run_script, Reply};

fn schema() -> clap::Command {
    clap::Command::new("git")
        .arg(clap::Arg::new("my_arg").long("my_arg").required(false))
        .subcommand(
            clap::Command::new("commit").arg(clap::Arg::new("message").required(false)),
        )
        .subcommand(
            clap::Command::new("merge").arg(
                clap::Arg::new("address")
                    .num_args(1..)
                    .value_delimiter(','),
            ),
        )
}

fn descriptor(id: &str, positional: bool, repeated: bool, delimiter: Option<&str>) -> ArgDescriptor {
    ArgDescriptor {
        id: id.to_string(),
        positional,
        required: false,
        repeated,
        delimiter: delimiter.map(|d| d.to_string()),
        help: None,
        type_hint: None,
    }
}

fn tree() -> CommandDescriptor {
    let sub = |name: &str, args: Vec<ArgDescriptor>| CommandDescriptor {
        name: name.to_string(),
        args,
        subcommands: vec![],
        subcommand_required: false,
        subcommand_label: None,
    };
    CommandDescriptor {
        name: "git".to_string(),
        args: vec![descriptor("my_arg", false, false, None)],
        subcommands: vec![
            sub("commit", vec![descriptor("message", true, false, None)]),
            sub("merge", vec![descriptor("address", true, true, Some(","))]),
        ],
        subcommand_required: false,
        subcommand_label: None,
    }
}

#[test]
fn collected_tokens_reparse_to_the_answers() {
    let replies = vec![
        Reply::Yes,
        Reply::Entered("a,b".to_string()),
        Reply::Yes,
        Reply::Chose(1),
        Reply::Yes,
        Reply::Entered("x".to_string()),
        Reply::Yes,
        Reply::Entered("y".to_string()),
        Reply::No,
    ];
    let tokens = run_script(&tree(), false, &replies);
    let m = schema().try_get_matches_from(tokens).unwrap();
    assert_eq!(m.get_one::<String>("my_arg").map(|s| s.as_str()), Some("a,b"));
    let (name, sub) = m.subcommand().unwrap();
    assert_eq!(name, "merge");
    let addresses: Vec<&String> = sub.get_many::<String>("address").unwrap().collect();
    assert_eq!(addresses, vec!["x", "y"]);
}

#[test]
fn declined_answers_reparse_to_absent_values() {
    let replies = vec![Reply::No, Reply::Yes, Reply::Chose(0), Reply::No];
    let tokens = run_script(&tree(), false, &replies);
    let m = schema().try_get_matches_from(tokens).unwrap();
    assert!(m.get_one::<String>("my_arg").is_none());
    let (name, sub) = m.subcommand().unwrap();
    assert_eq!(name, "commit");
    assert!(sub.get_one::<String>("message").is_none());
}
