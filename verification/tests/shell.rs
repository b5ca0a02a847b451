use selene_lang::command::ShellCmd;
use selene_lang::config::Config;
use selene_lang::ty::Type;

fn command() -> ShellCmd {
    ShellCmd::new("cd".to_string(), "cd <dir>".to_string(), "change directory".to_string())
}

#[test]
fn new_command_is_plain() {
    let cmd = command();
    assert!(!cmd.is_builtin());
    assert!(!cmd.is_alias());
}

#[test]
fn marking_a_builtin() {
    let mut cmd = command();
    cmd.builtin();
    assert!(cmd.is_builtin());
    assert!(!cmd.is_alias());
}

#[test]
fn marking_an_alias() {
    let mut cmd = command();
    cmd.alias();
    assert!(cmd.is_alias());
    assert!(!cmd.is_builtin());
}

#[test]
fn marks_chain() {
    let mut cmd = command();
    assert!(cmd.builtin().alias().is_builtin());
    assert!(cmd.is_builtin() && cmd.is_alias());
}

#[test]
fn default_config_has_no_alias() {
    assert!(Config::default().aliases.is_empty());
}

#[test]
fn type_names() {
    assert_eq!(Type::Unit.to_string(), "Unit");
    assert_eq!(Type::String.to_string(), "String");
    assert_eq!(Type::Int.to_string(), "Int");
    assert_eq!(Type::Float.to_string(), "Float");
    assert_eq!(Type::Bool.to_string(), "Bool");
    assert_eq!(Type::List(Box::new(Type::Int)).to_string(), "List");
    assert_eq!(Type::List(Box::new(Type::List(Box::new(Type::Unit)))).to_string(), "List");
}
