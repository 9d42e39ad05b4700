use nil_ide::settings::{invalid_value_message, validate_formatting_command};

#[test]
fn invalid_value_text() {
    assert_eq!(
        invalid_value_message("nix.binary", "expected a string"),
        "Invalid value of `nix.binary`: expected a string"
    );
}

#[test]
fn formatting_command_must_not_be_empty() {
    assert_eq!(
        validate_formatting_command(Some(vec![])),
        Err("`formatting.command` must not be an empty list".to_string())
    );
    assert_eq!(validate_formatting_command(None), Ok(None));
    let cmd = Some(vec!["nixpkgs-fmt".to_string()]);
    assert_eq!(validate_formatting_command(cmd.clone()), Ok(cmd));
}
