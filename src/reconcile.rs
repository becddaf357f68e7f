use vstd::prelude::*;

use crate::config::DdnsConfig;
use crate::error::DomainError;
use crate::state::{last_ip_in, last_update_time_in, RecordState, StateStore};

verus! {

/// Time to live, in seconds, of every record the engine writes.
pub const RECORD_TTL: u32 = 120;

/// A DNS record as the provider stores it.
#[derive(Clone, Debug)]
pub struct DnsRecord {
    pub id: Option<String>,
    pub name: String,
    pub record_type: String,
    pub content: String,
    pub ttl: u32,
    pub proxied: bool,
}

/// Result of one reconciliation pass: the record applied or observed, and
/// whether a provider write took place during the pass.
#[derive(Clone, Debug)]
pub struct DnsUpdateResult {
    pub record: DnsRecord,
    pub updated: bool,
}

/// Whether `r` is the record that `config` asks for when the host has
/// address `ip`: its id, name and family, content `ip`, the fixed time to
/// live, not proxied.
pub open spec fn is_desired_record(r: DnsRecord, config: DdnsConfig, ip: Seq<char>) -> bool {
    &&& r.id.deep_view() == Some(config.record_id@)
    &&& r.name@ == config.record_name@
    &&& r.record_type@ == config.ip_type.record_type_spec()
    &&& r.content@ == ip
    &&& r.ttl == RECORD_TTL
    &&& !r.proxied
}

/// Whether a pass must write: the store holds no address for the record, or
/// one that differs from `ip`.
pub open spec fn ip_changed(store: Map<Seq<char>, RecordState>, id: Seq<char>, ip: Seq<char>) -> bool {
    last_ip_in(store, id) != Some(ip)
}

/// What [`DdnsApplicationService::plan_dns_update`] decides for a record
/// configured by `config`, given the store contents and the resolver's
/// answer.
pub open spec fn planned(
    config: DdnsConfig,
    store: Map<Seq<char>, RecordState>,
    resolved: Result<String, DomainError>,
    plan: UpdatePlan,
) -> bool {
    match resolved {
        Err(e) => plan == UpdatePlan::Failed(e),
        Ok(ip) => if ip_changed(store, config.identity(), ip@) {
            plan matches UpdatePlan::Write(rec) && is_desired_record(rec, config, ip@)
        } else {
            plan matches UpdatePlan::Unchanged(res) && !res.updated && is_desired_record(
                res.record,
                config,
                ip@,
            )
        },
    }
}

/// What [`DdnsApplicationService::update_dns_record`] does to the store:
/// only a write that the provider confirms advances the record's state, to
/// `ip` at time `now`.
pub open spec fn settled(
    config: DdnsConfig,
    before: Map<Seq<char>, RecordState>,
    ip: Seq<char>,
    written: Result<DnsUpdateResult, DomainError>,
    now: i64,
    after: Map<Seq<char>, RecordState>,
) -> bool {
    if written matches Ok(res) && res.updated {
        after == before.insert(
            config.identity(),
            RecordState { last_ip: Some(ip), last_update_time: Some(now) },
        )
    } else {
        after == before
    }
}

/// What a pass does once the current address is known.
#[derive(Debug)]
pub enum UpdatePlan {
    /// The address could not be resolved; the pass ends with this error.
    Failed(DomainError),
    /// The address is the one last written; the pass ends with this result
    /// and the provider is not contacted.
    Unchanged(DnsUpdateResult),
    /// The provider must be asked to write this record.
    Write(DnsRecord),
}

/// The reconciliation service of one record.
///
/// It owns the record's configuration and a generation number that tells
/// apart the services that have been built, one after another, for the same
/// record.
#[derive(Debug)]
pub struct DdnsApplicationService {
    config: DdnsConfig,
    generation: u64,
}

impl DdnsApplicationService {
    pub closed spec fn spec_config(&self) -> DdnsConfig {
        self.config
    }

    pub closed spec fn spec_generation(&self) -> u64 {
        self.generation
    }

    pub open spec fn identity(&self) -> Seq<char> {
        self.spec_config().identity()
    }

    pub fn new(config: DdnsConfig, generation: u64) -> (r: DdnsApplicationService)
        ensures
            r.spec_config() == config,
            r.spec_generation() == generation,
    {
        DdnsApplicationService { config, generation }
    }

    pub fn config(&self) -> (r: &DdnsConfig)
        ensures
            *r == self.spec_config(),
    {
        &self.config
    }

    pub fn generation(&self) -> (r: u64)
        ensures
            r == self.spec_generation(),
    {
        self.generation
    }

    /// The identity under which the record's state is stored.
    pub fn config_id(&self) -> (r: String)
        ensures
            r@ == self.identity(),
    {
        self.config.config_id()
    }

    fn desired_record(&self, ip: String) -> (r: DnsRecord)
        ensures
            is_desired_record(r, self.spec_config(), ip@),
    {
        DnsRecord {
            id: Some(self.config.record_id.clone()),
            name: self.config.record_name.clone(),
            record_type: self.config.ip_type.record_type(),
            content: ip,
            ttl: RECORD_TTL,
            proxied: false,
        }
    }

    /// Whether `current_ip` differs from the last address stored for the
    /// record; a record with no stored address counts as changed.
    pub fn is_ip_changed(&self, store: &StateStore, current_ip: &String) -> (r: bool)
        requires
            store.wf(),
        ensures
            r == ip_changed(store@, self.identity(), current_ip@),
    {
        let id = self.config_id();
        match store.get_last_ip(&id) {
            Some(last) => last != *current_ip,
            None => true,
        }
    }

    /// The first half of a reconciliation pass, taken once the address
    /// resolver has answered with `resolved`.
    ///
    /// A resolver error ends the pass. An address equal to the stored one
    /// ends it with `updated == false` and no write. Any other address, or a
    /// record with nothing stored, asks for a write of the desired record.
    pub fn plan_dns_update(&self, store: &StateStore, resolved: Result<String, DomainError>) -> (r:
        UpdatePlan)
        requires
            store.wf(),
        ensures
            planned(self.spec_config(), store@, resolved, r),
    {
        match resolved {
            Err(e) => UpdatePlan::Failed(e),
            Ok(ip) => {
                if self.is_ip_changed(store, &ip) {
                    UpdatePlan::Write(self.desired_record(ip))
                } else {
                    UpdatePlan::Unchanged(DnsUpdateResult { record: self.desired_record(ip), updated: false })
                }
            },
        }
    }

    /// The second half of a pass that wrote: takes the provider's answer
    /// `written` for the record built from `current_ip`, and returns it
    /// unchanged.
    ///
    /// Only a write that the provider confirms with `updated == true`
    /// advances the store, to `current_ip` at time `now`.
    pub fn update_dns_record(
        &self,
        store: &mut StateStore,
        current_ip: &String,
        written: Result<DnsUpdateResult, DomainError>,
        now: i64,
    ) -> (r: Result<DnsUpdateResult, DomainError>)
        requires
            old(store).wf(),
        ensures
            r == written,
            final(store).wf(),
            settled(self.spec_config(), old(store)@, current_ip@, written, now, final(store)@),
    {
        if let Ok(res) = &written {
            if res.updated {
                let id = self.config_id();
                store.set_last_ip(&id, current_ip);
                store.set_last_update_time(&id, now);
                assert(store@ =~= old(store)@.insert(
                    self.identity(),
                    RecordState { last_ip: Some(current_ip@), last_update_time: Some(now) },
                ));
            }
        }
        written
    }

    /// The outcome of a pass as a force-update caller sees it: the record's
    /// domain name and the address the record now holds, whether or not a
    /// write took place.
    pub fn force_update(&self, pass: Result<DnsUpdateResult, DomainError>) -> (r: Result<
        (String, String),
        DomainError,
    >)
        ensures
            pass is Err ==> r == Err::<(String, String), DomainError>(pass->Err_0),
            pass is Ok ==> (r matches Ok(pair) && pair.0@ == self.spec_config().record_name@
                && pair.1@ == pass->Ok_0.record.content@),
    {
        match pass {
            Ok(res) => Ok((self.config.record_name.clone(), res.record.content)),
            Err(e) => Err(e),
        }
    }

    /// The address to report for the record: the last one written if the
    /// store holds one, otherwise `None`, and the caller asks the resolver.
    pub fn get_last_or_current_ip(&self, store: &StateStore) -> (r: Option<String>)
        requires
            store.wf(),
        ensures
            r.deep_view() == last_ip_in(store@, self.identity()),
    {
        let id = self.config_id();
        store.get_last_ip(&id)
    }
}

/// Suppression is idempotent: while the store holds the address that the
/// resolver returns, every pass ends without a write, with `updated ==
/// false` and that address as the record content. A pass that makes no
/// write leaves the store as it was, so the passes all see the same store.
pub proof fn lemma_suppression_is_idempotent(
    config: DdnsConfig,
    store: Map<Seq<char>, RecordState>,
    ip: String,
    passes: Seq<UpdatePlan>,
)
    requires
        last_ip_in(store, config.identity()) == Some(ip@),
        forall|k: int| 0 <= k < passes.len() ==> planned(config, store, Ok(ip), #[trigger] passes[k]),
    ensures
        forall|k: int|
            0 <= k < passes.len() ==> (#[trigger] passes[k] matches UpdatePlan::Unchanged(res)
                && !res.updated && res.record.content@ == ip@),
{
}

/// The first pass of a record writes: when the store has no entry for the
/// record, a resolved address always leads to a provider write of the
/// desired record.
pub proof fn lemma_first_pass_writes(
    config: DdnsConfig,
    store: Map<Seq<char>, RecordState>,
    ip: String,
    plan: UpdatePlan,
)
    requires
        !store.contains_key(config.identity()),
        planned(config, store, Ok(ip), plan),
    ensures
        plan matches UpdatePlan::Write(rec) && is_desired_record(rec, config, ip@),
{
}

/// State advances only on a confirmed write: when the provider reports no
/// write, or fails, the record's last address and last update time stay as
/// they were, and so does the rest of the store.
pub proof fn lemma_state_advances_only_on_confirmed_write(
    config: DdnsConfig,
    before: Map<Seq<char>, RecordState>,
    ip: Seq<char>,
    written: Result<DnsUpdateResult, DomainError>,
    now: i64,
    after: Map<Seq<char>, RecordState>,
)
    requires
        settled(config, before, ip, written, now, after),
        !(written matches Ok(res) && res.updated),
    ensures
        after == before,
        last_ip_in(after, config.identity()) == last_ip_in(before, config.identity()),
        last_update_time_in(after, config.identity()) == last_update_time_in(
            before,
            config.identity(),
        ),
{
}

} // verus!
