use event_forwarder::config::{
    ConfigError, ConfigField, MqttClientOptions, MySQLOptions, RedisOptions,
};

const MQTT_TEXT: &str = "# broker connection\n\
id: client1\n\
host: 127.0.0.1\n\
port: 1883\n\
user_name: user\n\
pass_word: hunter2\n\
channel_cap: 16\n\
subscribes: a/b, c/d\n";

#[test]
fn mqtt_options_parse_exact() {
    let o = MqttClientOptions::from_file(MQTT_TEXT).unwrap();
    assert_eq!(o.id, "client1");
    assert_eq!(o.host, "127.0.0.1");
    assert_eq!(o.port, 1883);
    assert_eq!(o.user_name, "user");
    assert_eq!(o.pass_word, "hunter2");
    assert_eq!(o.channel_cap, 16);
    assert_eq!(o.subscribes, vec!["a/b".to_owned(), "c/d".to_owned()]);
    assert!(o.validate().is_ok());
}

#[test]
fn mqtt_options_spaces_and_comments_ignored() {
    let text = "  id:  spaced client  \n\n# comment\n   # indented comment\nhost:h\nport:1\nuser_name:u\npass_word:p\nchannel_cap:1\nsubscribes:  one/topic  \n";
    let o = MqttClientOptions::from_file(text).unwrap();
    assert_eq!(o.id, "spaced client");
    assert_eq!(o.host, "h");
    assert_eq!(o.port, 1);
    assert_eq!(o.subscribes, vec!["one/topic".to_owned()]);
}

#[test]
fn mqtt_options_empty_subscribe_list() {
    let text = "id: c\nhost: h\nport: 1\nuser_name: u\npass_word: p\nchannel_cap: 4\nsubscribes:\n";
    let o = MqttClientOptions::from_file(text).unwrap();
    assert!(o.subscribes.is_empty());
    let text2 = "id: c\nhost: h\nport: 1\nuser_name: u\npass_word: p\nchannel_cap: 4\nsubscribes: , ,\n";
    let o2 = MqttClientOptions::from_file(text2).unwrap();
    assert!(o2.subscribes.is_empty());
}

#[test]
fn mqtt_options_missing_field() {
    let text = "id: c\nhost: h\nport: 1\nuser_name: u\npass_word: p\nchannel_cap: 4\n";
    assert_eq!(
        MqttClientOptions::from_file(text),
        Err(ConfigError::Missing(ConfigField::Subscribes))
    );
}

#[test]
fn mqtt_options_bad_numbers() {
    let text = "id: c\nhost: h\nport: 70000\nuser_name: u\npass_word: p\nchannel_cap: 4\nsubscribes: a\n";
    assert_eq!(
        MqttClientOptions::from_file(text),
        Err(ConfigError::BadNumber(ConfigField::Port))
    );
    let text = "id: c\nhost: h\nport: abc\nuser_name: u\npass_word: p\nchannel_cap: 4\nsubscribes: a\n";
    assert_eq!(
        MqttClientOptions::from_file(text),
        Err(ConfigError::BadNumber(ConfigField::Port))
    );
    let text = "id: c\nhost: h\nport: 1\nuser_name: u\npass_word: p\nchannel_cap: 12x\nsubscribes: a\n";
    assert_eq!(
        MqttClientOptions::from_file(text),
        Err(ConfigError::BadNumber(ConfigField::ChannelCap))
    );
}

#[test]
fn mqtt_options_malformed_line() {
    let text = "id: c\nnonsense without separator\nhost: h\n";
    assert_eq!(
        MqttClientOptions::from_file(text),
        Err(ConfigError::MalformedLine(1))
    );
}

#[test]
fn mqtt_options_validate_rules() {
    let mut o = MqttClientOptions::from_file(MQTT_TEXT).unwrap();
    o.channel_cap = 0;
    assert_eq!(
        o.validate(),
        Err(ConfigError::Invalid(ConfigField::ChannelCap))
    );
    let mut o = MqttClientOptions::from_file(MQTT_TEXT).unwrap();
    o.id = String::new();
    assert_eq!(o.validate(), Err(ConfigError::Invalid(ConfigField::Id)));
}

#[test]
fn mysql_options_parse_exact() {
    let text = "host: db.local\nport: 3306\nuser: root\npassword: hunter2\ndb_name: main\nstmt_cache_size: 32\npool_min: 2\npool_max: 10\n";
    let o = MySQLOptions::from_file(text).unwrap();
    assert_eq!(o.host, "db.local");
    assert_eq!(o.port, 3306);
    assert_eq!(o.user, "root");
    assert_eq!(o.db_name, "main");
    assert_eq!(o.stmt_cache_size, 32);
    assert_eq!(o.pool_min, 2);
    assert_eq!(o.pool_max, 10);
    assert!(o.validate().is_ok());
}

#[test]
fn mysql_options_pool_constraint() {
    let text = "host: db.local\nport: 3306\nuser: root\npassword: p\ndb_name: main\nstmt_cache_size: 32\npool_min: 11\npool_max: 10\n";
    let o = MySQLOptions::from_file(text).unwrap();
    assert_eq!(o.validate(), Err(ConfigError::Invalid(ConfigField::PoolMin)));
}

#[test]
fn redis_options_parse_exact() {
    let text = "host: cache.local\nport: 6379\npassword: hunter2\ndb: 0\npool_min: 1\npool_max: 8\n";
    let o = RedisOptions::from_file(text).unwrap();
    assert_eq!(o.host, "cache.local");
    assert_eq!(o.port, 6379);
    assert_eq!(o.password.as_deref(), Some("hunter2"));
    assert_eq!(o.db, 0);
    assert_eq!(o.pool_min, 1);
    assert_eq!(o.pool_max, 8);
    assert!(o.validate().is_ok());
}

#[test]
fn redis_options_password_optional() {
    let text = "host: cache.local\nport: 6379\ndb: 2\npool_min: 0\npool_max: 4\n";
    let o = RedisOptions::from_file(text).unwrap();
    assert_eq!(o.password, None);
    assert_eq!(o.db, 2);
    assert!(o.validate().is_ok());
}
