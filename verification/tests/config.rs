use dahuavto::config::{AppConfig, ConfigError, DeviceConfig};
use dahuavto::table::Table;

const EXAMPLE: &str = "config dahuavto 'main'
    option listen ':2066'
    option username 'admin'
    option password 'real123'
    option userid '201'
    option gpio_out 'call_notify'
    option bafa_key ''
    option auto_open 'false'
    option sip_interface 'eth0'
    option mqtt_host ''
    option mqtt_user ''
    option mqtt_pass ''

config dahuavto_device 1
    option ip '192.168.13.1'
    option port '80'
    option userid ''
    option name 'admin'
    option password 'admin123'
    option gpio '516'
    option btn_name '一楼'

";

#[test]
fn example_is_read() {
    assert!(AppConfig::is_loadable(EXAMPLE));
    let config = AppConfig::from_str(EXAMPLE).unwrap();
    assert_eq!(config.listen, ":2066");
    assert_eq!(config.username, "admin");
    assert_eq!(config.password, "real123");
    assert_eq!(config.userid, "201");
    assert_eq!(config.gpio_out, "call_notify");
    assert_eq!(config.bafa_key, "");
    assert!(!config.auto_open);
    assert_eq!(config.sip_interface, "eth0");
    assert_eq!(config.mqtt_host, "");
    assert_eq!(config.mqtt_user, "");
    assert_eq!(config.mqtt_pass, "");
    assert_eq!(config.vtos.len(), 1);
    let device = &config.vtos[0];
    assert_eq!(device.id, "1");
    assert_eq!(device.ip, "192.168.13.1");
    assert_eq!(device.port, 80);
    assert_eq!(device.userid, "");
    assert_eq!(device.name, "admin");
    assert_eq!(device.password, "admin123");
    assert_eq!(device.gpio, 516);
    assert_eq!(device.btn_name, "一楼");
}

#[test]
fn written_config_is_the_example_again() {
    let config = AppConfig::from_str(EXAMPLE).unwrap();
    assert_eq!(config.to_file(), EXAMPLE);
}

#[test]
fn empty_text_sets_nothing() {
    let config = AppConfig::from_str("").unwrap();
    assert_eq!(config.vtos.len(), 0);
    assert_eq!(config.listen, "");
    assert!(!config.auto_open);
}

#[test]
fn comments_and_blank_lines_are_passed_over() {
    let text = "# config dahuavto 'main'\n\nconfig dahuavto 'main'\n# option listen 'a'\n\n  option listen 'b'\n";
    assert_eq!(AppConfig::from_str(text).unwrap().listen, "b");
}

#[test]
fn values_keep_spaces_and_inner_quotes() {
    let text = "config dahuavto 'main'\r\noption username  'a b'\r\noption password 'it''s'\r\noption userid\r\noption auto_open true";
    let config = AppConfig::from_str(text).unwrap();
    assert_eq!(config.username, " 'a b");
    assert_eq!(config.password, "it''s");
    assert_eq!(config.userid, "");
    assert!(config.auto_open);
}

#[test]
fn value_behind_two_spaces_keeps_the_second() {
    let text = "config dahuavto 'main'\noption listen  'x'";
    assert_eq!(AppConfig::from_str(text).unwrap().listen, " 'x");
}

#[test]
fn options_outside_any_section_are_lost() {
    let text = "option listen 'a'\nconfig dahuavto 'main'\noption userid '1'";
    let config = AppConfig::from_str(text).unwrap();
    assert_eq!(config.listen, "");
    assert_eq!(config.userid, "1");
}

#[test]
fn unknown_sections_are_passed_over() {
    let text = "config other 'x'\noption listen 'a'\nconfig dahuavto main\noption listen 'b'";
    assert_eq!(AppConfig::from_str(text).unwrap().listen, "");
}

#[test]
fn numbers_that_are_none_are_zero() {
    let text = "config dahuavto_device 门\noption port '99999'\noption gpio 'x'";
    let config = AppConfig::from_str(text).unwrap();
    assert_eq!(config.vtos[0].id, "门");
    assert_eq!(config.vtos[0].port, 0);
    assert_eq!(config.vtos[0].gpio, 0);
}

#[test]
fn device_without_a_name_is_not_loadable() {
    assert!(!AppConfig::is_loadable("config dahuavto_device\noption ip 'a'"));
    assert!(AppConfig::is_loadable("config dahuavto_device 1"));
    assert!(AppConfig::is_loadable("config dahuavto 'main'"));
}

#[test]
fn later_option_counts() {
    let text = "config dahuavto 'main'\noption listen 'a'\noption listen 'b'";
    assert_eq!(AppConfig::from_str(text).unwrap().listen, "b");
}

#[test]
fn section_sets_the_config() {
    let mut options: Table<String> = Table::new();
    options.insert("ip".to_string(), "10.0.0.1".to_string());
    options.insert("port".to_string(), "37777".to_string());
    let mut config = (*AppConfig::from_str("").unwrap()).clone();
    AppConfig::parse_section("dahuavto_device 2 x", &options, &mut config);
    assert_eq!(config.vtos.len(), 1);
    assert_eq!(config.vtos[0].id, "2");
    assert_eq!(config.vtos[0].ip, "10.0.0.1");
    assert_eq!(config.vtos[0].port, 37777);
    assert_eq!(config.vtos[0].name, "");
}

#[test]
fn unreadable_file_is_reported() {
    let ConfigError::Unreadable(reason) =
        AppConfig::from_file(Err("no such file".to_string())).unwrap_err();
    assert_eq!(reason, "no such file");
    assert_eq!(AppConfig::from_file(Ok(EXAMPLE.to_string())).unwrap().userid, "201");
}

#[test]
fn config_with_quotes_inside_reads_back() {
    let mut config = (*AppConfig::from_str(EXAMPLE).unwrap()).clone();
    config.password = "a'b # c  d".to_string();
    config.vtos.push(DeviceConfig {
        id: "two".to_string(),
        ip: "::1".to_string(),
        port: 65535,
        userid: "101".to_string(),
        name: "x y".to_string(),
        password: " p ".to_string(),
        gpio: 0,
        btn_name: "".to_string(),
    });
    let read = AppConfig::from_str(&config.to_file()).unwrap();
    assert_eq!(read.to_file(), config.to_file());
    assert_eq!(read.password, "a'b # c  d");
    assert_eq!(read.vtos[1].password, " p ");
    assert_eq!(read.vtos[1].port, 65535);
}

#[test]
fn quotes_at_the_ends_do_not_read_back() {
    let mut config = (*AppConfig::from_str(EXAMPLE).unwrap()).clone();
    config.password = "'quoted'".to_string();
    let read = AppConfig::from_str(&config.to_file()).unwrap();
    assert_eq!(read.password, "quoted");
}
