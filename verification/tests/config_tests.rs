use powercrabx::config::{Config, ConfigError, ConfigSection, ConfigType, ConfigValue};

fn properties_config() -> Config {
    Config::new(Some("server.properties".to_string()), ConfigType::Properties)
}

#[test]
fn detect_falls_back_to_yaml() {
    let c = Config::new(None, ConfigType::Detect);
    assert_eq!(c.file_type, ConfigType::Yaml);
    let c = Config::new(None, ConfigType::Json);
    assert_eq!(c.file_type, ConfigType::Json);
}

#[test]
fn section_insert_and_get() {
    let mut s = ConfigSection::new();
    s.insert("motd".to_string(), ConfigValue::Text("hello".to_string()));
    s.insert("pvp".to_string(), ConfigValue::Bool(true));
    assert_eq!(s.get(&"motd".to_string()), Some(&ConfigValue::Text("hello".to_string())));
    assert_eq!(s.get(&"pvp".to_string()), Some(&ConfigValue::Bool(true)));
    assert_eq!(s.get(&"absent".to_string()), None);
    // Inserting over a key replaces its value and keeps its place.
    s.insert("motd".to_string(), ConfigValue::Text("bye".to_string()));
    assert_eq!(s.get(&"motd".to_string()), Some(&ConfigValue::Text("bye".to_string())));
    assert_eq!(s.keys(), vec!["motd".to_string(), "pvp".to_string()]);
    assert_eq!(s.get_all().len(), 2);
}

#[test]
fn properties_text_parses_line_by_line() {
    let mut c = properties_config();
    c.parse_properties("motd=hello world\nmax-players=20\nno equals sign\npvp=on");
    assert_eq!(
        c.get(&"motd".to_string()),
        Some(&ConfigValue::Text("hello world".to_string()))
    );
    assert_eq!(c.get(&"max-players".to_string()), Some(&ConfigValue::Text("20".to_string())));
    // A properties value is text even when it looks like a flag.
    assert_eq!(c.get(&"pvp".to_string()), Some(&ConfigValue::Text("on".to_string())));
    // A line without '=' contributes nothing.
    assert_eq!(c.get(&"no equals sign".to_string()), None);
    assert_eq!(c.get_keys().len(), 3);
}

#[test]
fn properties_value_keeps_later_equals_signs() {
    let mut c = properties_config();
    c.parse_properties("expr=a=b=c\n");
    assert_eq!(c.get(&"expr".to_string()), Some(&ConfigValue::Text("a=b=c".to_string())));
}

#[test]
fn properties_last_line_needs_no_terminator() {
    let mut c = properties_config();
    c.parse_properties("a=1\nb=2");
    assert_eq!(c.get(&"a".to_string()), Some(&ConfigValue::Text("1".to_string())));
    assert_eq!(c.get(&"b".to_string()), Some(&ConfigValue::Text("2".to_string())));
}

#[test]
fn properties_strips_carriage_returns_before_breaks() {
    let mut c = properties_config();
    c.parse_properties("a=1\r\nb=2\r\n");
    assert_eq!(c.get(&"a".to_string()), Some(&ConfigValue::Text("1".to_string())));
    assert_eq!(c.get(&"b".to_string()), Some(&ConfigValue::Text("2".to_string())));
}

#[test]
fn properties_later_lines_win() {
    let mut c = properties_config();
    c.parse_properties("k=first\nk=second\n");
    assert_eq!(c.get(&"k".to_string()), Some(&ConfigValue::Text("second".to_string())));
    assert_eq!(c.get_keys().len(), 1);
}

#[test]
fn writing_properties_prints_each_entry_as_a_line() {
    let mut c = properties_config();
    c.set("pvp".to_string(), ConfigValue::Bool(true));
    c.set("whitelist".to_string(), ConfigValue::Bool(false));
    c.set("motd".to_string(), ConfigValue::Text("hi".to_string()));
    c.set("weird".to_string(), ConfigValue::Other);
    assert_eq!(c.write_properties(), "pvp=on\nwhitelist=off\nmotd=hi\nweird=unknown\n");
    assert_eq!(c.save_content(), Ok("pvp=on\nwhitelist=off\nmotd=hi\nweird=unknown\n".to_string()));
}

#[test]
fn properties_round_trip_preserves_text_entries() {
    let mut c = properties_config();
    c.parse_properties("alpha=1\nbeta=two\n");
    let text = c.write_properties();
    let mut c2 = properties_config();
    c2.parse_properties(&text);
    assert_eq!(c2.get(&"alpha".to_string()), Some(&ConfigValue::Text("1".to_string())));
    assert_eq!(c2.get(&"beta".to_string()), Some(&ConfigValue::Text("two".to_string())));
}

#[test]
fn json_text_loads_booleans_and_strings() {
    let mut c = Config::new(None, ConfigType::Json);
    let r = c.load_from_str("{\"pvp\": true, \"motd\": \"hi\", \"count\": 3}");
    assert_eq!(r, Ok(()));
    assert_eq!(c.get(&"pvp".to_string()), Some(&ConfigValue::Bool(true)));
    assert_eq!(c.get(&"motd".to_string()), Some(&ConfigValue::Text("hi".to_string())));
    // A number is carried as an opaque value.
    assert_eq!(c.get(&"count".to_string()), Some(&ConfigValue::Other));
}

#[test]
fn bad_json_is_a_parse_error() {
    let mut c = Config::new(None, ConfigType::Json);
    assert_eq!(c.load_from_str("{nope"), Err(ConfigError::ParseFailed));
    assert_eq!(c.get_keys().len(), 0);
}

#[test]
fn yaml_text_loads_booleans_and_strings() {
    let mut c = Config::new(None, ConfigType::Yaml);
    let r = c.load_from_str("pvp: false\nmotd: welcome\n");
    assert_eq!(r, Ok(()));
    assert_eq!(c.get(&"pvp".to_string()), Some(&ConfigValue::Bool(false)));
    assert_eq!(c.get(&"motd".to_string()), Some(&ConfigValue::Text("welcome".to_string())));
}

#[test]
fn bad_yaml_is_a_parse_error() {
    let mut c = Config::new(None, ConfigType::Yaml);
    assert_eq!(c.load_from_str(": : :"), Err(ConfigError::ParseFailed));
}

#[test]
fn enum_format_supports_no_loading_or_saving() {
    let mut c = Config::new(None, ConfigType::Enum);
    assert_eq!(c.load_from_str("anything"), Err(ConfigError::UnsupportedType));
    assert_eq!(c.save_content(), Err(ConfigError::UnsupportedType));
}

#[test]
fn json_save_round_trips_through_load() {
    let mut c = Config::new(None, ConfigType::Json);
    c.set("pvp".to_string(), ConfigValue::Bool(true));
    c.set("motd".to_string(), ConfigValue::Text("hi".to_string()));
    let text = c.save_content().unwrap();
    let mut c2 = Config::new(None, ConfigType::Json);
    assert_eq!(c2.load_from_str(&text), Ok(()));
    assert_eq!(c2.get(&"pvp".to_string()), Some(&ConfigValue::Bool(true)));
    assert_eq!(c2.get(&"motd".to_string()), Some(&ConfigValue::Text("hi".to_string())));
}

#[test]
fn yaml_save_round_trips_through_load() {
    let mut c = Config::new(None, ConfigType::Yaml);
    c.set("whitelist".to_string(), ConfigValue::Bool(false));
    c.set("motd".to_string(), ConfigValue::Text("welcome".to_string()));
    let text = c.save_content().unwrap();
    let mut c2 = Config::new(None, ConfigType::Yaml);
    assert_eq!(c2.load_from_str(&text), Ok(()));
    assert_eq!(c2.get(&"whitelist".to_string()), Some(&ConfigValue::Bool(false)));
    assert_eq!(c2.get(&"motd".to_string()), Some(&ConfigValue::Text("welcome".to_string())));
}

#[test]
fn properties_load_goes_through_the_format_dispatch() {
    let mut c = properties_config();
    assert_eq!(c.load_from_str("a=1\n"), Ok(()));
    assert_eq!(c.get(&"a".to_string()), Some(&ConfigValue::Text("1".to_string())));
}
