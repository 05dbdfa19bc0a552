use node_agent::config::{parse_tag_list, parse_u16, required_env, Config, ConfigError, EnvValues};

fn s(v: &str) -> Option<String> {
    Some(v.to_string())
}

fn base_env() -> EnvValues {
    EnvValues {
        hub_url: s("wss://hub.example/ws/node"),
        node_id: s("node-1"),
        auth_secret: s("secret"),
        public_ip: s("203.0.113.7"),
        xray_grpc_url: s("http://127.0.0.1:10085"),
        hysteria_api_url: None,
        hysteria_auth_addr: None,
        inbound_tags: None,
        name_en: None,
        name_ru: None,
        country_flag: None,
        xray_port: None,
        xray_sni: None,
        xray_public_key: None,
        xray_short_id: None,
        hysteria_port: None,
        hysteria_sni: None,
    }
}

#[test]
fn defaults_fill_the_optional_settings() {
    let c = Config::from_env_values(base_env()).unwrap();
    assert_eq!(c.hub_url, "wss://hub.example/ws/node");
    assert_eq!(c.node_id, "node-1");
    assert_eq!(c.hysteria_api_url, "disabled");
    assert_eq!(c.hysteria_auth_addr, "127.0.0.1:8080");
    assert_eq!(c.inbound_tags, vec!["vless-reality-in".to_string()]);
    assert_eq!(c.name_en, "Germany");
    assert_eq!(c.name_ru, "Германия");
    assert_eq!(c.country_flag, "🇩🇪");
    assert_eq!(c.xray_port, 443);
    assert_eq!(c.xray_sni, "www.yahoo.com");
    assert_eq!(c.xray_public_key, "");
    assert_eq!(c.xray_short_id, "");
    assert_eq!(c.hysteria_port, 443);
    assert_eq!(c.hysteria_sni, "fuckbook.pro");
    assert!(!c.uses_hysteria());
    assert!(c.hysteria_offer().is_none());
}

#[test]
fn given_values_override_defaults() {
    let mut env = base_env();
    env.inbound_tags = s(" vless-a , ,vless-b,");
    env.xray_port = s("8443");
    env.hysteria_port = s("+5443");
    env.hysteria_api_url = s("http://127.0.0.1:9999");
    env.hysteria_sni = s("example.org");
    let c = Config::from_env_values(env).unwrap();
    assert_eq!(c.inbound_tags, vec!["vless-a".to_string(), "vless-b".to_string()]);
    assert_eq!(c.xray_port, 8443);
    assert_eq!(c.hysteria_port, 5443);
    assert!(c.uses_hysteria());
    let h = c.hysteria_offer().unwrap();
    assert_eq!(h.port, 5443);
    assert_eq!(h.sni, "example.org");
    let x = c.xray_offer();
    assert_eq!(x.port, 8443);
    assert_eq!(x.sni, "www.yahoo.com");
}

#[test]
fn bad_ports_fall_back_to_443() {
    for bad in ["70000", "abc", "", "-1", "+", "12 ", "65536"] {
        let mut env = base_env();
        env.xray_port = s(bad);
        let c = Config::from_env_values(env).unwrap();
        assert_eq!(c.xray_port, 443, "value {:?}", bad);
    }
}

#[test]
fn first_missing_required_variable_is_reported() {
    let mut env = base_env();
    env.node_id = None;
    env.public_ip = s("   ");
    match Config::from_env_values(env) {
        Err(ConfigError::MissingEnv { name }) => assert_eq!(name, "NODE_ID"),
        Ok(_) => panic!("expected an error"),
    }
    let mut env = base_env();
    env.xray_grpc_url = s("\t");
    let err = Config::from_env_values(env).err().unwrap();
    assert_eq!(err.message(), "Required environment variable XRAY_GRPC_URL is not set");
    let mut env = base_env();
    env.hub_url = None;
    match Config::from_env_values(env) {
        Err(ConfigError::MissingEnv { name }) => assert_eq!(name, "HUB_URL"),
        Ok(_) => panic!("expected an error"),
    }
}

#[test]
fn required_env_keeps_the_untrimmed_value() {
    assert_eq!(required_env("X", s(" v ")).unwrap(), " v ");
    assert!(required_env("X", s(" ")).is_err());
    assert!(required_env("X", None).is_err());
}

#[test]
fn parse_u16_follows_std_parsing() {
    assert_eq!(parse_u16("0"), Some(0));
    assert_eq!(parse_u16("65535"), Some(65535));
    assert_eq!(parse_u16("0065535"), Some(65535));
    assert_eq!(parse_u16("+443"), Some(443));
    assert_eq!(parse_u16("65536"), None);
    assert_eq!(parse_u16("++1"), None);
    assert_eq!(parse_u16(""), None);
    assert_eq!(parse_u16("1_000"), None);
    for v in ["1", "80", "443", "8080", "+0", "99999", "x"] {
        assert_eq!(parse_u16(v), v.parse::<u16>().ok(), "value {:?}", v);
    }
}

#[test]
fn tag_list_trims_and_drops_empty_pieces() {
    assert_eq!(parse_tag_list("a,b"), vec!["a".to_string(), "b".to_string()]);
    assert_eq!(parse_tag_list(" , ,"), Vec::<String>::new());
    assert_eq!(parse_tag_list("\u{a0}x\u{a0}"), vec!["x".to_string()]);
}

#[test]
fn hysteria_offer_and_backend_differ_on_blank_address() {
    let mut env = base_env();
    env.hysteria_api_url = s("  ");
    let c = Config::from_env_values(env).unwrap();
    assert!(!c.uses_hysteria());
    assert!(c.hysteria_offer().is_some());
    let mut env = base_env();
    env.hysteria_api_url = s("");
    let c = Config::from_env_values(env).unwrap();
    assert!(!c.uses_hysteria());
    assert!(c.hysteria_offer().is_none());
}
