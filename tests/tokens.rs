use clap_interactive::schema::ArgDescriptor;
use clap_interactive::text::{get_type_string, short_type_name, type_hint};
use clap_interactive::tokens::{help_text, join_values, repeated_tokens, value_token};

fn flag(id: &str, delimiter: Option<&str>) -> ArgDescriptor {
    ArgDescriptor {
        id: id.to_string(),
        positional: false,
        required: false,
        repeated: true,
        delimiter: delimiter.map(|d| d.to_string()),
        help: None,
        type_hint: None,
    }
}

fn tuple_parser(s: &str) -> Result<(String, String), String> {
    let v: Vec<&str> = s.split(',').collect();
    Ok((v[0].to_string(), v[1].to_string()))
}

#[test]
fn test_get_type_string() {
    let command = clap::Command::new("git").arg(
        clap::Arg::new("my_arg")
            .long("my_arg")
            .required(false)
            .value_parser(tuple_parser),
    );
    let arg = command
        .get_arguments()
        .find(|x| x.get_id() == "my_arg")
        .unwrap()
        .clone();
    let type_string = get_type_string(&arg);
    assert_eq!(type_string.as_str(), "<String,String>")
}

#[test]
fn type_hint_shortens_each_item() {
    assert_eq!(type_hint("(alloc::string::String, alloc::string::String)"), "<String,String>");
    assert_eq!(type_hint("u16"), "<u16>");
    assert_eq!(type_hint(""), "<>");
}

#[test]
fn short_type_name_keeps_last_segment() {
    assert_eq!(short_type_name("my_crate::cli::Git"), "Git");
    assert_eq!(short_type_name("Git"), "Git");
    assert_eq!(short_type_name("a::"), "");
}

#[test]
fn flag_and_positional_tokens() {
    let mut a = flag("name", None);
    assert_eq!(value_token(&a, "v"), "--name=v");
    a.positional = true;
    assert_eq!(value_token(&a, "v"), "v");
}

#[test]
fn repeated_flag_with_delimiter_is_one_token() {
    let a = flag("tag", Some(","));
    let values = vec!["a".to_string(), "b".to_string(), "c".to_string()];
    assert_eq!(repeated_tokens(&a, &values), vec!["--tag=a,b,c"]);
    assert_eq!(repeated_tokens(&a, &vec![]), Vec::<String>::new());
    let b = flag("tag", None);
    assert_eq!(repeated_tokens(&b, &values), vec!["--tag=a", "--tag=b", "--tag=c"]);
}

#[test]
fn join_values_separates_with_delimiter() {
    let values = vec!["x".to_string(), "y".to_string()];
    assert_eq!(join_values(&values, ";"), "x;y");
    assert_eq!(join_values(&vec!["x".to_string()], ";"), "x");
    assert_eq!(join_values(&vec![], ";"), "");
}

#[test]
fn help_text_without_help() {
    let mut a = flag("n", None);
    assert_eq!(help_text(&a, false), "");
    a.type_hint = Some("<u8>".to_string());
    assert_eq!(help_text(&a, true), "<u8>");
    assert_eq!(help_text(&a, false), "");
}
