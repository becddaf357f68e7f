use cloudflare_ddns::{
    restart_ddns_service, DdnsConfig, IpType, ServiceFactory,
};

fn config(zone: &str, record: &str, name: &str) -> DdnsConfig {
    DdnsConfig {
        api_token: "token".to_string(),
        zone_id: zone.to_string(),
        record_id: record.to_string(),
        record_name: name.to_string(),
        update_interval: 60,
        ip_type: IpType::IPv4,
    }
}

#[test]
fn two_creations_leave_one_service() {
    let mut reg = ServiceFactory::new();
    let (g1, retired1) = reg.create_ddns_service(config("z", "r", "a.example.com"));
    let (g2, retired2) = reg.create_ddns_service(config("z", "r", "b.example.com"));
    assert_eq!(retired1, None);
    assert_eq!(retired2, Some(g1));
    assert_ne!(g1, g2);
    let list = reg.list_ddns_services();
    let hits: Vec<_> = list.iter().filter(|(id, _)| id == "z-r").collect();
    assert_eq!(hits.len(), 1);
    assert_eq!(hits[0].1, g2);
    let svc = reg.find_ddns_service("z-r").unwrap();
    assert_eq!(svc.config().record_name, "b.example.com");
}

#[test]
fn find_misses_unknown_identity() {
    let mut reg = ServiceFactory::new();
    reg.create_ddns_service(config("z", "r", "a.example.com"));
    assert!(reg.find_ddns_service("z-x").is_none());
    assert!(reg.find_ddns_service("z-r").is_some());
    assert_eq!(reg.len(), 1);
}

#[test]
fn restart_all_gives_fresh_handles() {
    let mut reg = ServiceFactory::new();
    let configs = vec![
        config("z1", "r1", "a.example.com"),
        config("z2", "r2", "b.example.com"),
    ];
    for c in &configs {
        reg.create_ddns_service(c.clone());
    }
    let before = reg.list_ddns_services();
    let retired = restart_ddns_service(&mut reg, &configs);
    let after = reg.list_ddns_services();
    assert_eq!(after.len(), 2);
    assert_eq!(retired.len(), 2);
    for (id, gen) in &after {
        let old = before.iter().find(|(i, _)| i == id).expect("identity kept");
        assert_ne!(old.1, *gen);
        assert!(retired.contains(&old.1));
    }
    let ids: Vec<&String> = after.iter().map(|(id, _)| id).collect();
    assert_eq!(ids, vec!["z1-r1", "z2-r2"]);
}

#[test]
fn restart_keeps_unconfigured_services() {
    let mut reg = ServiceFactory::new();
    let (g_old, _) = reg.create_ddns_service(config("z0", "r0", "old.example.com"));
    let retired = restart_ddns_service(&mut reg, &vec![config("z1", "r1", "a.example.com")]);
    assert!(retired.is_empty());
    let after = reg.list_ddns_services();
    assert_eq!(after.len(), 2);
    assert_eq!(after[0], ("z0-r0".to_string(), g_old));
    assert_eq!(after[1].0, "z1-r1");
}
