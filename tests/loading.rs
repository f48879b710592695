use run_cli::config::{config_format, ends_with, Config, ConfigError, ConfigFormat};
use run_cli::literate::{literate_toml, toml_of_events, MdEvent};

#[test]
fn format_follows_the_extension() {
    assert_eq!(config_format("/a/run.toml"), Some(ConfigFormat::Toml));
    assert_eq!(config_format("/a/run.toml.md"), Some(ConfigFormat::LiterateToml));
    assert_eq!(config_format("/a/run.md"), None);
    assert_eq!(config_format("toml"), None);
    assert!(ends_with("abc", ""));
    assert!(ends_with("abc", "bc"));
    assert!(!ends_with("bc", "abc"));
}

#[test]
fn workdir_starts_from_the_config_directory() {
    let mut plain = Config::default();
    assert_eq!(plain.set_absolute_workdir("/etc/app/run.toml"), Ok(()));
    assert_eq!(plain.workdir, Some("/etc/app".to_string()));

    let mut relative = Config { workdir: Some("sub".to_string()), ..Default::default() };
    assert_eq!(relative.set_absolute_workdir("/etc/app/run.toml"), Ok(()));
    assert_eq!(relative.workdir, Some("/etc/app/sub".to_string()));

    let mut absolute = Config { workdir: Some("/srv".to_string()), ..Default::default() };
    assert_eq!(absolute.set_absolute_workdir("/etc/app/run.toml"), Ok(()));
    assert_eq!(absolute.workdir, Some("/srv".to_string()));
}

#[test]
fn root_has_no_config_directory() {
    let mut config = Config::default();
    assert_eq!(config.set_absolute_workdir("/"), Err(ConfigError::NoParentDirectory));
    assert_eq!(config.workdir, None);
}

#[test]
fn literate_config_keeps_the_toml_blocks() {
    let doc = "# Dev\n\nSome prose.\n\n```toml\nmode = \"parallel\"\n```\n\nMore prose.\n\n```toml\n[[run]]\ncmd = [\"ls\"]\n```\n";
    assert_eq!(
        literate_toml(doc),
        Ok("mode = \"parallel\"\n[[run]]\ncmd = [\"ls\"]\n".to_string())
    );
}

#[test]
fn literate_config_refuses_other_code_blocks() {
    assert_eq!(
        literate_toml("```sh\nls\n```\n"),
        Err(ConfigError::UntaggedCodeBlock)
    );
    assert_eq!(
        literate_toml("text\n\n    indented = true\n"),
        Err(ConfigError::UntaggedCodeBlock)
    );
}

#[test]
fn literate_text_outside_blocks_is_ignored() {
    let events = vec![
        MdEvent::Text("prose".to_string()),
        MdEvent::CodeStart(Some("toml".to_string())),
        MdEvent::Text("a = 1\n".to_string()),
        MdEvent::CodeEnd,
        MdEvent::Other,
        MdEvent::Text("after".to_string()),
    ];
    assert_eq!(toml_of_events(&events), Ok("a = 1\n".to_string()));
    assert_eq!(toml_of_events(&vec![]), Ok(String::new()));
}
