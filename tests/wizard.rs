use cloudflare_ddns::{collect_dns_records, collect_zones};

fn s(x: &str) -> Option<String> {
    Some(x.to_string())
}

#[test]
fn zones_need_id_and_name() {
    let zones = collect_zones(vec![
        (s("z1"), s("example.com")),
        (None, s("nameless.com")),
        (s("z3"), None),
        (s("z4"), s("example.org")),
    ]);
    assert_eq!(zones.len(), 2);
    assert_eq!(zones[0].id, "z1");
    assert_eq!(zones[0].name, "example.com");
    assert_eq!(zones[1].id, "z4");
}

#[test]
fn records_need_all_four_fields() {
    let records = collect_dns_records(vec![
        (s("r1"), s("a.example.com"), s("A"), s("192.0.2.1")),
        (s("r2"), s("b.example.com"), None, s("192.0.2.2")),
        (s("r3"), s("c.example.com"), s("AAAA"), s("2001:db8::3")),
    ]);
    assert_eq!(records.len(), 2);
    assert_eq!(records[0].record_type, "A");
    assert_eq!(records[1].id, "r3");
    assert_eq!(records[1].content, "2001:db8::3");
    assert!(collect_zones(Vec::new()).is_empty());
}
