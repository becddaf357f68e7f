use vstd::prelude::*;

verus! {

/// A DNS zone as the setup wizard lists it.
#[derive(Clone, Debug)]
pub struct ZoneItem {
    pub id: String,
    pub name: String,
}

/// A DNS record as the setup wizard lists it.
#[derive(Clone, Debug)]
pub struct DnsRecordItem {
    pub id: String,
    pub name: String,
    pub record_type: String,
    pub content: String,
}

/// The zones among `fields`, the id and name read from each zone entry of a
/// provider listing: the entries in which both are present, in order.
pub open spec fn zones_of(fields: Seq<(Option<String>, Option<String>)>) -> Seq<(Seq<char>, Seq<char>)> {
    fields.filter_map(
        |f: (Option<String>, Option<String>)|
            match f {
                (Some(id), Some(name)) => Some((id@, name@)),
                _ => None,
            },
    )
}

/// The records among `fields`, the id, name, type and content read from each
/// record entry of a provider listing: the entries in which all four are
/// present, in order.
pub open spec fn records_of(
    fields: Seq<(Option<String>, Option<String>, Option<String>, Option<String>)>,
) -> Seq<(Seq<char>, Seq<char>, Seq<char>, Seq<char>)> {
    fields.filter_map(
        |f: (Option<String>, Option<String>, Option<String>, Option<String>)|
            match f {
                (Some(id), Some(name), Some(t), Some(content)) => Some((id@, name@, t@, content@)),
                _ => None,
            },
    )
}

/// Keeps the zone entries that have both an id and a name.
pub fn collect_zones(fields: Vec<(Option<String>, Option<String>)>) -> (r: Vec<ZoneItem>)
    ensures
        r@.map_values(|z: ZoneItem| (z.id@, z.name@)) == zones_of(fields@),
{
    let ghost all = fields@;
    let mut out: Vec<ZoneItem> = Vec::new();
    let rest = fields;
    let mut i: usize = 0;
    let n = rest.len();
    while i < n
        invariant
            n == all.len(),
            i <= n,
            rest@ == all,
            out@.map_values(|z: ZoneItem| (z.id@, z.name@)) == zones_of(all.take(i as int)),
        decreases n - i,
    {
        assert(all.take(i + 1).drop_last() =~= all.take(i as int));
        let ghost prev = out@.map_values(|z: ZoneItem| (z.id@, z.name@));
        match &rest[i] {
            (Some(id), Some(name)) => {
                out.push(ZoneItem { id: id.clone(), name: name.clone() });
                assert(out@.map_values(|z: ZoneItem| (z.id@, z.name@)) =~= prev.push(
                    (id@, name@),
                ));
            },
            _ => {},
        }
        i = i + 1;
    }
    assert(all.take(n as int) =~= all);
    out
}

/// Keeps the record entries that have an id, a name, a type and a content.
pub fn collect_dns_records(
    fields: Vec<(Option<String>, Option<String>, Option<String>, Option<String>)>,
) -> (r: Vec<DnsRecordItem>)
    ensures
        r@.map_values(|d: DnsRecordItem| (d.id@, d.name@, d.record_type@, d.content@))
            == records_of(fields@),
{
    let ghost all = fields@;
    let mut out: Vec<DnsRecordItem> = Vec::new();
    let rest = fields;
    let mut i: usize = 0;
    let n = rest.len();
    while i < n
        invariant
            n == all.len(),
            i <= n,
            rest@ == all,
            out@.map_values(|d: DnsRecordItem| (d.id@, d.name@, d.record_type@, d.content@))
                == records_of(all.take(i as int)),
        decreases n - i,
    {
        assert(all.take(i + 1).drop_last() =~= all.take(i as int));
        let ghost prev = out@.map_values(
            |d: DnsRecordItem| (d.id@, d.name@, d.record_type@, d.content@),
        );
        match &rest[i] {
            (Some(id), Some(name), Some(t), Some(content)) => {
                out.push(
                    DnsRecordItem {
                        id: id.clone(),
                        name: name.clone(),
                        record_type: t.clone(),
                        content: content.clone(),
                    },
                );
                assert(out@.map_values(
                    |d: DnsRecordItem| (d.id@, d.name@, d.record_type@, d.content@),
                ) =~= prev.push((id@, name@, t@, content@)));
            },
            _ => {},
        }
        i = i + 1;
    }
    assert(all.take(n as int) =~= all);
    out
}

} // verus!
