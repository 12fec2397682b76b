use oxid::config::{parse_config, ConfigError};

#[test]
fn test_read_config_file() {
    let toml_str = r#"
            [[lsp]]
            filetype = "rust"
            command = "rust-analyzer"

            [[lsp]]
            filetype = "python"
            command = "pyrefly lsp"

            [[lsp]]
            filetype = "gleam"
            command = "gleam lsp"
        "#;
    let cfg = parse_config(toml_str).unwrap();
    assert_eq!(cfg.lsp.len(), 3);
    assert_eq!(cfg.lsp[0].filetype, "rust");
    assert_eq!(cfg.lsp[0].command, "rust-analyzer");
    assert_eq!(cfg.lsp[1].filetype, "python");
    assert_eq!(cfg.lsp[1].command, "pyrefly lsp");
    assert_eq!(cfg.lsp[2].filetype, "gleam");
    assert_eq!(cfg.lsp[2].command, "gleam lsp");
}

#[test]
fn empty_and_commented_configs_parse() {
    assert!(parse_config("").unwrap().lsp.is_empty());
    assert!(parse_config("# nothing here\n\n").unwrap().lsp.is_empty());
}

#[test]
fn malformed_configs_are_rejected() {
    // An assignment before any header names no block.
    assert!(matches!(
        parse_config("filetype = \"rust\""),
        Err(ConfigError::BadBlock)
    ));
    // A block without both keys is incomplete.
    assert!(matches!(
        parse_config("[[lsp]]\nfiletype = \"rust\""),
        Err(ConfigError::BadBlock)
    ));
    // An unquoted value is no assignment.
    assert!(matches!(
        parse_config("[[lsp]]\nfiletype = rust\ncommand = \"x\""),
        Err(ConfigError::BadLine)
    ));
    // A stray line is rejected.
    assert!(matches!(
        parse_config("[[lsp]]\nwhatever\n"),
        Err(ConfigError::BadLine)
    ));
    // A key given twice in one block is rejected.
    assert!(parse_config("[[lsp]]\nfiletype = \"a\"\nfiletype = \"b\"\ncommand = \"c\"").is_err());
}
