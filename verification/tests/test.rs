use daaku_dprint_plugin_sql::ConfigKeyMap;
use daaku_dprint_plugin_sql::ConfigKeyValue;
use daaku_dprint_plugin_sql::Configuration;
use daaku_dprint_plugin_sql::GlobalConfiguration;
use daaku_dprint_plugin_sql::NewLineKind;
use daaku_dprint_plugin_sql::SqlPluginHandler;
use daaku_dprint_plugin_sql::format_text;

#[test]
fn handle_global_config() {
    let global_config = GlobalConfiguration {
        use_tabs: Some(true),
        indent_width: None,
        new_line_kind: Some(NewLineKind::CarriageReturnLineFeed),
    };
    let sph = SqlPluginHandler::new();
    let config = sph
        .resolve_config(Default::default(), &global_config)
        .config;
    assert_eq!(config.new_line_kind, NewLineKind::CarriageReturnLineFeed);
    assert_eq!(config.use_tabs, true);
}

#[test]
fn use_defaults_when_global_not_set() {
    let config = Configuration::default();
    assert_eq!(config.indent_width, 2);
    assert_eq!(config.new_line_kind, NewLineKind::LineFeed);
}

#[test]
fn should_handle_windows_newlines() {
    let config = Configuration::default();
    assert_eq!(
        format_text("SELECT * FROM  dbo.Test\r\n", &config).unwrap(),
        "select\n  *\nfrom\n  dbo.Test\n",
    );
}

#[test]
fn formatting_twice_reports_no_change() {
    let config = Configuration::default();
    let first = format_text("SELECT * FROM  dbo.Test\r\n", &config).unwrap();
    assert_eq!(format_text(&first, &config), None);
}

#[test]
fn formatting_twice_reports_no_change_with_crlf() {
    let mut overrides = ConfigKeyMap::new();
    overrides.insert(
        String::from("newLineKind"),
        ConfigKeyValue::Str(String::from("crlf")),
    );
    let sph = SqlPluginHandler::new();
    let result = sph.resolve_config(overrides, &GlobalConfiguration::default());
    assert_eq!(result.diagnostics.len(), 0);
    let config = result.config;
    let first = format_text("SELECT * FROM  dbo.Test\n", &config).unwrap();
    assert_eq!(first, "select\r\n  *\r\nfrom\r\n  dbo.Test\r\n");
    assert_eq!(format_text(&first, &config), None);
}

#[test]
fn already_normalized_input_is_unchanged() {
    let config = Configuration::default();
    assert_eq!(format_text("select\n  *\nfrom\n  dbo.Test\n", &config), None);
}

#[test]
fn output_always_ends_with_newline() {
    let config = Configuration::default();
    let out = format_text("SELECT 1", &config).unwrap();
    assert!(out.ends_with('\n'));
    assert!(!out.ends_with("\n\n"));
}

#[test]
fn garbage_overrides_never_fail_and_each_yields_one_diagnostic() {
    let mut overrides = ConfigKeyMap::new();
    overrides.insert(String::from("useTabs"), ConfigKeyValue::Int(3));
    overrides.insert(String::from("bogusKey"), ConfigKeyValue::Bool(true));
    overrides.insert(
        String::from("indentWidth"),
        ConfigKeyValue::Str(String::from("wide")),
    );
    overrides.insert(String::from("anotherBogus"), ConfigKeyValue::Null);
    let sph = SqlPluginHandler::new();
    let result = sph.resolve_config(overrides, &GlobalConfiguration::default());
    let names: Vec<&str> = result
        .diagnostics
        .iter()
        .map(|d| d.property_name.as_str())
        .collect();
    assert_eq!(
        names,
        vec!["useTabs", "indentWidth", "bogusKey", "anotherBogus"]
    );
    let config = result.config;
    assert_eq!(config.use_tabs, false);
    assert_eq!(config.indent_width, 2);
}

#[test]
fn unknown_key_is_reported_and_has_no_effect() {
    let mut overrides = ConfigKeyMap::new();
    overrides.insert(
        String::from("somethingElse"),
        ConfigKeyValue::Str(String::from("x")),
    );
    let sph = SqlPluginHandler::new();
    let result = sph.resolve_config(overrides, &GlobalConfiguration::default());
    assert_eq!(result.diagnostics.len(), 1);
    assert_eq!(result.diagnostics[0].property_name, "somethingElse");
    assert_eq!(
        result.diagnostics[0].message,
        "Unknown property in configuration"
    );
    assert_eq!(result.config.indent_width, 2);
}

#[test]
fn invalid_value_falls_back_with_diagnostic() {
    let mut overrides = ConfigKeyMap::new();
    overrides.insert(String::from("indentWidth"), ConfigKeyValue::Int(0));
    overrides.insert(
        String::from("newLineKind"),
        ConfigKeyValue::Str(String::from("windows")),
    );
    let sph = SqlPluginHandler::new();
    let result = sph.resolve_config(overrides, &GlobalConfiguration::default());
    assert_eq!(result.diagnostics.len(), 2);
    assert_eq!(result.diagnostics[0].property_name, "indentWidth");
    assert_eq!(result.diagnostics[0].message, "Found invalid value");
    assert_eq!(result.diagnostics[1].property_name, "newLineKind");
    assert_eq!(result.config.indent_width, 2);
    assert_eq!(result.config.new_line_kind, NewLineKind::LineFeed);
}

#[test]
fn string_values_convert_to_their_types() {
    let mut overrides = ConfigKeyMap::new();
    overrides.insert(
        String::from("useTabs"),
        ConfigKeyValue::Str(String::from("true")),
    );
    overrides.insert(
        String::from("indentWidth"),
        ConfigKeyValue::Str(String::from("+8")),
    );
    overrides.insert(
        String::from("linesBetweenQueries"),
        ConfigKeyValue::Int(2),
    );
    let sph = SqlPluginHandler::new();
    let result = sph.resolve_config(overrides, &GlobalConfiguration::default());
    assert_eq!(result.diagnostics.len(), 0);
    assert_eq!(result.config.use_tabs, true);
    assert_eq!(result.config.indent_width, 8);
    assert_eq!(result.config.lines_between_queries, 2);
}

#[test]
fn out_of_range_integers_are_rejected() {
    let mut overrides = ConfigKeyMap::new();
    overrides.insert(String::from("indentWidth"), ConfigKeyValue::Int(300));
    overrides.insert(
        String::from("linesBetweenQueries"),
        ConfigKeyValue::Str(String::from("999")),
    );
    let sph = SqlPluginHandler::new();
    let result = sph.resolve_config(overrides, &GlobalConfiguration::default());
    assert_eq!(result.diagnostics.len(), 2);
    assert_eq!(result.config.indent_width, 2);
    assert_eq!(result.config.lines_between_queries, 1);
}

#[test]
fn null_values_count_as_absent_without_diagnostic() {
    let mut overrides = ConfigKeyMap::new();
    overrides.insert(String::from("useTabs"), ConfigKeyValue::Null);
    overrides.insert(String::from("maxInlineArguments"), ConfigKeyValue::Null);
    let sph = SqlPluginHandler::new();
    let result = sph.resolve_config(overrides, &GlobalConfiguration::default());
    assert_eq!(result.diagnostics.len(), 0);
    assert_eq!(result.config.use_tabs, false);
    assert_eq!(result.config.max_inline_arguments, None);
}

#[test]
fn override_beats_global_and_global_beats_default() {
    let mut overrides = ConfigKeyMap::new();
    overrides.insert(String::from("indentWidth"), ConfigKeyValue::Int(4));
    let global_config = GlobalConfiguration {
        use_tabs: None,
        indent_width: Some(6),
        new_line_kind: Some(NewLineKind::Auto),
    };
    let sph = SqlPluginHandler::new();
    let result = sph.resolve_config(overrides, &global_config);
    assert_eq!(result.diagnostics.len(), 0);
    assert_eq!(result.config.indent_width, 4);
    assert_eq!(result.config.new_line_kind, NewLineKind::Auto);
    assert_eq!(result.config.use_tabs, false);
}

#[test]
fn nullable_limits_resolve_to_values() {
    let mut overrides = ConfigKeyMap::new();
    overrides.insert(String::from("maxInlineArguments"), ConfigKeyValue::Int(40));
    overrides.insert(String::from("maxInlineTopLevel"), ConfigKeyValue::Int(0));
    let sph = SqlPluginHandler::new();
    let result = sph.resolve_config(overrides, &GlobalConfiguration::default());
    assert_eq!(result.diagnostics.len(), 0);
    assert_eq!(result.config.max_inline_arguments, Some(40));
    assert_eq!(result.config.max_inline_top_level, Some(0));
}

#[test]
fn file_matching_asks_for_sql_files() {
    let sph = SqlPluginHandler::new();
    let result = sph.resolve_config(Default::default(), &GlobalConfiguration::default());
    assert_eq!(result.file_matching.file_extensions, vec!["sql".to_string()]);
    assert!(result.file_matching.file_names.is_empty());
}

#[test]
fn auto_kind_follows_the_formatted_text() {
    let mut overrides = ConfigKeyMap::new();
    overrides.insert(
        String::from("newLineKind"),
        ConfigKeyValue::Str(String::from("auto")),
    );
    let sph = SqlPluginHandler::new();
    let config = sph
        .resolve_config(overrides, &GlobalConfiguration::default())
        .config;
    let out = format_text("SELECT * FROM  dbo.Test\r\n", &config).unwrap();
    assert_eq!(out, "select\n  *\nfrom\n  dbo.Test\n");
}

#[test]
fn tabs_override_reaches_the_formatter() {
    let mut overrides = ConfigKeyMap::new();
    overrides.insert(String::from("useTabs"), ConfigKeyValue::Bool(true));
    let sph = SqlPluginHandler::new();
    let config = sph
        .resolve_config(overrides, &GlobalConfiguration::default())
        .config;
    let out = format_text("SELECT * FROM  dbo.Test\n", &config).unwrap();
    assert_eq!(out, "select\n\t*\nfrom\n\tdbo.Test\n");
}

#[test]
fn uppercase_override_reaches_the_formatter() {
    let mut overrides = ConfigKeyMap::new();
    overrides.insert(String::from("uppercase"), ConfigKeyValue::Bool(true));
    let sph = SqlPluginHandler::new();
    let config = sph
        .resolve_config(overrides, &GlobalConfiguration::default())
        .config;
    let out = format_text("select * from  dbo.Test\n", &config).unwrap();
    assert_eq!(out, "SELECT\n  *\nFROM\n  dbo.Test\n");
}

#[test]
fn system_kind_resolves_from_the_text_alone() {
    let mut overrides = ConfigKeyMap::new();
    overrides.insert(
        String::from("newLineKind"),
        ConfigKeyValue::Str(String::from("system")),
    );
    let sph = SqlPluginHandler::new();
    let result = sph.resolve_config(overrides, &GlobalConfiguration::default());
    assert_eq!(result.diagnostics.len(), 0);
    assert_eq!(result.config.new_line_kind, NewLineKind::System);
    let out = format_text("SELECT 1\r\n", &result.config).unwrap();
    assert_eq!(out, "select\n  1\n");
}

#[test]
fn missing_trailing_newline_is_added() {
    let config = Configuration::default();
    let out = format_text("select\n  1", &config);
    assert_eq!(out.unwrap(), "select\n  1\n");
}
