use cloudflare_ddns::{
    configs_from_env_values, DdnsConfig, DomainError, EnvConfigValues, IpType, DEFAULT_UPDATE_INTERVAL,
};

fn config() -> DdnsConfig {
    DdnsConfig {
        api_token: "token".to_string(),
        zone_id: "zone".to_string(),
        record_id: "rec".to_string(),
        record_name: "home.example.com".to_string(),
        update_interval: 300,
        ip_type: IpType::IPv4,
    }
}

#[test]
fn identity_joins_zone_and_record() {
    assert_eq!(config().config_id(), "zone-rec");
    let copy = config().duplicate();
    assert_eq!(copy.config_id(), "zone-rec");
    assert_eq!(copy.record_name, "home.example.com");
}

#[test]
fn family_names_and_record_types() {
    assert_eq!(IpType::IPv4.record_type(), "A");
    assert_eq!(IpType::IPv6.record_type(), "AAAA");
    assert_eq!(IpType::IPv4.name(), "ipv4");
    assert_eq!(IpType::IPv6.name(), "ipv6");
}

#[test]
fn validation_rejects_each_empty_field() {
    assert!(config().validate().is_ok());
    let mut c = config();
    c.update_interval = 0;
    assert!(matches!(c.validate(), Err(DomainError::Validation(_))));
    let mut c = config();
    c.api_token = String::new();
    assert!(matches!(c.validate(), Err(DomainError::Validation(_))));
    let mut c = config();
    c.zone_id = String::new();
    assert!(matches!(c.validate(), Err(DomainError::Validation(_))));
    let mut c = config();
    c.record_id = String::new();
    assert!(matches!(c.validate(), Err(DomainError::Validation(_))));
    let mut c = config();
    c.record_name = String::new();
    assert!(matches!(c.validate(), Err(DomainError::Validation(_))));
}

#[test]
fn error_kinds_map_to_status_and_code() {
    let cases = vec![
        (DomainError::Resolution("a".to_string()), 503, "ip_service_error"),
        (DomainError::Provider("b".to_string()), 502, "dns_service_error"),
        (DomainError::State("c".to_string()), 500, "state_error"),
        (DomainError::Validation("d".to_string()), 400, "validation_error"),
        (DomainError::NotFound("e".to_string()), 404, "not_found"),
    ];
    for (e, status, code) in cases {
        assert_eq!(e.http_status(), status);
        assert_eq!(e.error_code(), code);
    }
    assert_eq!(DomainError::Provider("rejected".to_string()).message(), "rejected");
}

fn env(v6: bool, interval: Option<u64>) -> EnvConfigValues {
    EnvConfigValues {
        api_token: Some("tok".to_string()),
        zone_id: Some("zone".to_string()),
        record_id: Some("r4".to_string()),
        record_name: Some("v4.example.com".to_string()),
        record_id_v6: if v6 { Some("r6".to_string()) } else { None },
        record_name_v6: if v6 { Some("v6.example.com".to_string()) } else { None },
        update_interval: interval,
    }
}

#[test]
fn env_values_give_both_families() {
    let cs = configs_from_env_values(&env(true, Some(60)));
    assert_eq!(cs.len(), 2);
    assert_eq!(cs[0].ip_type, IpType::IPv4);
    assert_eq!(cs[0].record_id, "r4");
    assert_eq!(cs[0].update_interval, 60);
    assert_eq!(cs[1].ip_type, IpType::IPv6);
    assert_eq!(cs[1].record_name, "v6.example.com");
    assert_eq!(cs[1].config_id(), "zone-r6");
}

#[test]
fn env_values_default_interval_and_missing_parts() {
    let cs = configs_from_env_values(&env(false, None));
    assert_eq!(cs.len(), 1);
    assert_eq!(cs[0].update_interval, DEFAULT_UPDATE_INTERVAL);
    assert_eq!(DEFAULT_UPDATE_INTERVAL, 300);
    let mut v = env(true, None);
    v.api_token = None;
    assert!(configs_from_env_values(&v).is_empty());
    let mut v = env(true, None);
    v.record_name = None;
    let cs = configs_from_env_values(&v);
    assert_eq!(cs.len(), 1);
    assert_eq!(cs[0].ip_type, IpType::IPv6);
}
