use termula::scanner::parse_delimiter_config;

#[test]
fn test_parse_default() {
    let config = parse_delimiter_config("block,display");
    assert!(config.block);
    assert!(config.display);
    assert!(!config.inline);
}

#[test]
fn test_parse_all() {
    let config = parse_delimiter_config("all");
    assert!(config.block);
    assert!(config.display);
    assert!(config.inline);
}

#[test]
fn test_parse_inline_only() {
    let config = parse_delimiter_config("inline");
    assert!(!config.block);
    assert!(!config.display);
    assert!(config.inline);
}

#[test]
fn parse_trims_and_ignores_unknown_words() {
    let config = parse_delimiter_config(" block , inline ,bogus");
    assert!(config.block);
    assert!(!config.display);
    assert!(config.inline);
    let config = parse_delimiter_config("display,all");
    assert!(config.block && config.display && config.inline);
    let config = parse_delimiter_config("");
    assert!(!config.block && !config.display && !config.inline);
    let config = parse_delimiter_config("Block");
    assert!(!config.block);
}
