//! A multi-record dynamic DNS reconciliation engine.
//!
//! Each configured DNS record gets its own reconciliation service, which
//! compares the host's current address with the last address it wrote and
//! asks the DNS provider for a write only when the two differ. The services
//! live in a registry keyed by record identity, and a command layer routes
//! force-update and restart requests to them.
//!
//! The engine performs no I/O itself: resolving the address, writing the
//! record and reading the clock are done by the caller, which hands the
//! results to the functions here.

mod commands;
mod config;
mod error;
mod metrics;
mod reconcile;
mod registry;
mod response;
mod state;
mod wizard;

pub use commands::{
    configures, in_scope, lemma_restart_gives_fresh_services, reached_identities, reaches,
    resolve_scope, restart_ddns_service, restarted, submit, targets_of, Command, DeliveryMode,
    Dispatch, UpdateScope, UpdateSpecificRequest,
};
pub use config::{
    built_from, configs_from_env_values, identity_of, DdnsConfig, EnvConfigValues, IpType,
    DEFAULT_UPDATE_INTERVAL,
};
pub use error::DomainError;
pub use metrics::{
    api_totals, decrement_connection_count, elapsed_ms, fresh_metric, get_api_metrics,
    get_connection_count, increment_connection_count, record_api_metric, sat_add_u64,
    sat_add_usize, totals_of, with_call, ApiMetric, ApiMetricsMiddleware, ApiResponse, ApiStats,
};
pub use reconcile::{
    ip_changed, is_desired_record, lemma_first_pass_writes,
    lemma_state_advances_only_on_confirmed_write, lemma_suppression_is_idempotent, planned,
    settled, DdnsApplicationService, DnsRecord, DnsUpdateResult, UpdatePlan, RECORD_TTL,
};
pub use registry::{lemma_one_service_per_identity, lists, runs_identity, ServiceFactory};
pub use response::UpdateResponse;
pub use state::{
    last_ip_in, last_update_time_in, ReconciliationState, RecordState, StateStore,
};
pub use wizard::{
    collect_dns_records, collect_zones, records_of, zones_of, DnsRecordItem, ZoneItem,
};
