use vstd::prelude::*;
use vstd::string::StringExecFns;

use crate::error::DomainError;

verus! {

/// Address family of a record.
#[derive(Clone, Copy, Debug, PartialEq, Eq, Structural)]
pub enum IpType {
    IPv4,
    IPv6,
}

impl IpType {
    /// DNS record type for the family: `A` for IPv4, `AAAA` for IPv6.
    pub open spec fn record_type_spec(self) -> Seq<char> {
        match self {
            IpType::IPv4 => seq!['A'],
            IpType::IPv6 => seq!['A', 'A', 'A', 'A'],
        }
    }

    /// Lower-case name of the family, as configuration files spell it.
    pub open spec fn name_spec(self) -> Seq<char> {
        match self {
            IpType::IPv4 => seq!['i', 'p', 'v', '4'],
            IpType::IPv6 => seq!['i', 'p', 'v', '6'],
        }
    }

    pub fn record_type(&self) -> (r: String)
        ensures
            r@ == self.record_type_spec(),
    {
        match self {
            IpType::IPv4 => {
                proof {
                    reveal_strlit("A");
                }
                String::from_str("A")
            },
            IpType::IPv6 => {
                proof {
                    reveal_strlit("AAAA");
                }
                String::from_str("AAAA")
            },
        }
    }

    pub fn name(&self) -> (r: String)
        ensures
            r@ == self.name_spec(),
    {
        match self {
            IpType::IPv4 => {
                proof {
                    reveal_strlit("ipv4");
                }
                String::from_str("ipv4")
            },
            IpType::IPv6 => {
                proof {
                    reveal_strlit("ipv6");
                }
                String::from_str("ipv6")
            },
        }
    }
}

/// The key of a record: its zone id and record id joined by a hyphen.
pub open spec fn identity_of(zone_id: Seq<char>, record_id: Seq<char>) -> Seq<char> {
    zone_id + seq!['-'] + record_id
}

/// Desired state of one DNS record.
#[derive(Clone, Debug)]
pub struct DdnsConfig {
    /// Reference to the provider credential.
    pub api_token: String,
    pub zone_id: String,
    pub record_id: String,
    /// Domain name of the record.
    pub record_name: String,
    /// Seconds between two scheduled passes.
    pub update_interval: u64,
    pub ip_type: IpType,
}

impl DdnsConfig {
    pub open spec fn identity(&self) -> Seq<char> {
        identity_of(self.zone_id@, self.record_id@)
    }

    /// Whether every field is usable: the text fields are not empty and the
    /// interval is positive.
    pub open spec fn is_valid(&self) -> bool {
        &&& self.api_token@.len() > 0
        &&& self.zone_id@.len() > 0
        &&& self.record_id@.len() > 0
        &&& self.record_name@.len() > 0
        &&& self.update_interval > 0
    }

    /// The identity string `"{zone_id}-{record_id}"` under which the record's
    /// service and state are kept.
    pub fn config_id(&self) -> (r: String)
        ensures
            r@ == self.identity(),
    {
        let mut id = self.zone_id.clone();
        proof {
            reveal_strlit("-");
        }
        id.append("-");
        id.append(self.record_id.as_str());
        id
    }

    /// A copy of the configuration, field by field.
    pub fn duplicate(&self) -> (r: DdnsConfig)
        ensures
            r == *self,
    {
        DdnsConfig {
            api_token: self.api_token.clone(),
            zone_id: self.zone_id.clone(),
            record_id: self.record_id.clone(),
            record_name: self.record_name.clone(),
            update_interval: self.update_interval,
            ip_type: self.ip_type,
        }
    }

    /// Checks the configuration before a service is built from it.
    pub fn validate(&self) -> (r: Result<(), DomainError>)
        ensures
            r is Ok <==> self.is_valid(),
            r is Err ==> r->Err_0 is Validation,
    {
        if self.api_token.as_str().is_empty() {
            Err(DomainError::Validation(String::from_str("api token is empty")))
        } else if self.zone_id.as_str().is_empty() {
            Err(DomainError::Validation(String::from_str("zone id is empty")))
        } else if self.record_id.as_str().is_empty() {
            Err(DomainError::Validation(String::from_str("record id is empty")))
        } else if self.record_name.as_str().is_empty() {
            Err(DomainError::Validation(String::from_str("record name is empty")))
        } else if self.update_interval == 0 {
            Err(DomainError::Validation(String::from_str("update interval must be positive")))
        } else {
            Ok(())
        }
    }
}

/// Poll interval used when the environment gives none, in seconds.
pub const DEFAULT_UPDATE_INTERVAL: u64 = 300;

/// The configuration values that the environment may provide. The update
/// interval is `None` when it is absent or not a number.
#[derive(Clone, Debug)]
pub struct EnvConfigValues {
    pub api_token: Option<String>,
    pub zone_id: Option<String>,
    pub record_id: Option<String>,
    pub record_name: Option<String>,
    pub record_id_v6: Option<String>,
    pub record_name_v6: Option<String>,
    pub update_interval: Option<u64>,
}

impl EnvConfigValues {
    /// Whether the values name an IPv4 record.
    pub open spec fn has_v4(&self) -> bool {
        self.api_token is Some && self.zone_id is Some && self.record_id is Some
            && self.record_name is Some
    }

    /// Whether the values name an IPv6 record.
    pub open spec fn has_v6(&self) -> bool {
        self.api_token is Some && self.zone_id is Some && self.record_id_v6 is Some
            && self.record_name_v6 is Some
    }

    pub open spec fn interval(&self) -> u64 {
        match self.update_interval {
            Some(n) => n,
            None => DEFAULT_UPDATE_INTERVAL,
        }
    }
}

/// Whether `c` is the configuration of family `ip_type` for record
/// `record_id` named `record_name`, under the token and zone of `v`.
pub open spec fn built_from(
    c: DdnsConfig,
    v: EnvConfigValues,
    record_id: Option<String>,
    record_name: Option<String>,
    ip_type: IpType,
) -> bool {
    &&& c.api_token@ == v.api_token->Some_0@
    &&& c.zone_id@ == v.zone_id->Some_0@
    &&& c.record_id@ == record_id->Some_0@
    &&& c.record_name@ == record_name->Some_0@
    &&& c.update_interval == v.interval()
    &&& c.ip_type == ip_type
}

fn build_config(
    v: &EnvConfigValues,
    record_id: &Option<String>,
    record_name: &Option<String>,
    ip_type: IpType,
) -> (r: Option<DdnsConfig>)
    ensures
        (v.api_token is Some && v.zone_id is Some && record_id is Some && record_name is Some)
            <==> r is Some,
        r matches Some(c) ==> built_from(c, *v, *record_id, *record_name, ip_type),
{
    match (&v.api_token, &v.zone_id, record_id, record_name) {
        (Some(token), Some(zone), Some(id), Some(name)) => Some(
            DdnsConfig {
                api_token: token.clone(),
                zone_id: zone.clone(),
                record_id: id.clone(),
                record_name: name.clone(),
                update_interval: match v.update_interval {
                    Some(n) => n,
                    None => DEFAULT_UPDATE_INTERVAL,
                },
                ip_type,
            },
        ),
        _ => None,
    }
}

/// The configurations that the environment describes: an IPv4 record when
/// token, zone, record id and record name are all given, then an IPv6 record
/// when token, zone and the IPv6 record id and name are all given.
pub fn configs_from_env_values(v: &EnvConfigValues) -> (r: Vec<DdnsConfig>)
    ensures
        r@.len() == (if v.has_v4() {
            1int
        } else {
            0int
        }) + (if v.has_v6() {
            1int
        } else {
            0int
        }),
        v.has_v4() ==> built_from(r@[0], *v, v.record_id, v.record_name, IpType::IPv4),
        v.has_v6() ==> built_from(
            r@[r@.len() - 1],
            *v,
            v.record_id_v6,
            v.record_name_v6,
            IpType::IPv6,
        ),
{
    let mut out: Vec<DdnsConfig> = Vec::new();
    if let Some(c) = build_config(v, &v.record_id, &v.record_name, IpType::IPv4) {
        out.push(c);
    }
    if let Some(c) = build_config(v, &v.record_id_v6, &v.record_name_v6, IpType::IPv6) {
        out.push(c);
    }
    out
}

} // verus!
