use vstd::prelude::*;
use vstd::string::StringExecFns;

use crate::config::DdnsConfig;
use crate::error::DomainError;
use crate::registry::{runs_identity, ServiceFactory};

verus! {

/// Which records a force-update is for.
#[derive(Clone, Debug)]
pub enum UpdateScope {
    All,
    ByDomainName(String),
    ByRecordId(String),
}

/// A request to the engine.
#[derive(Clone, Debug)]
pub enum Command {
    /// Run a pass now on the records of the scope.
    ForceUpdate(UpdateScope),
    /// Rebuild the service of every configured record.
    RestartAll,
}

/// How the caller of a command waits for it.
#[derive(Clone, Copy, Debug, PartialEq, Eq, Structural)]
pub enum DeliveryMode {
    /// The command is queued and the caller returns at once.
    FireAndForget,
    /// The caller runs the passes and waits for their outcomes.
    Synchronous,
}

/// Whether configuration `c` names a record of `scope`.
pub open spec fn in_scope(c: DdnsConfig, scope: UpdateScope) -> bool {
    match scope {
        UpdateScope::All => true,
        UpdateScope::ByDomainName(name) => c.record_name@ == name@,
        UpdateScope::ByRecordId(id) => c.record_id@ == id@,
    }
}

/// Whether a command for `scope` reaches configuration `c`: `c` is in the
/// scope and a service runs its record.
pub open spec fn reaches(registry: ServiceFactory, c: DdnsConfig, scope: UpdateScope) -> bool {
    in_scope(c, scope) && runs_identity(registry.services(), c.identity())
}

/// The identities, in configuration order, of the configurations that a
/// command for `scope` reaches.
pub open spec fn reached_identities(
    registry: ServiceFactory,
    configs: Seq<DdnsConfig>,
    scope: UpdateScope,
) -> Seq<Seq<char>> {
    configs.filter_map(
        |c: DdnsConfig|
            if reaches(registry, c, scope) {
                Some(c.identity())
            } else {
                None
            },
    )
}

/// What [`resolve_scope`] answers: for all records, the identities that
/// the command reaches; for one domain name or record id, the identity of
/// the first configuration that the command reaches, or `NotFound` when it
/// reaches none.
pub open spec fn targets_of(
    registry: ServiceFactory,
    configs: Seq<DdnsConfig>,
    scope: UpdateScope,
    r: Result<Vec<String>, DomainError>,
) -> bool {
    if scope is All {
        r is Ok && r->Ok_0.deep_view() == reached_identities(registry, configs, scope)
    } else {
        match r {
            Ok(ids) => ids@.len() == 1 && exists|i: int|
                0 <= i < configs.len() && reaches(registry, configs[i], scope) && ids@[0]@
                    == configs[i].identity() && forall|j: int|
                    0 <= j < i ==> !reaches(registry, #[trigger] configs[j], scope),
            Err(e) => e is NotFound && forall|i: int|
                0 <= i < configs.len() ==> !reaches(registry, #[trigger] configs[i], scope),
        }
    }
}

fn config_in_scope(c: &DdnsConfig, scope: &UpdateScope) -> (r: bool)
    ensures
        r == in_scope(*c, *scope),
{
    match scope {
        UpdateScope::All => true,
        UpdateScope::ByDomainName(name) => c.record_name == *name,
        UpdateScope::ByRecordId(id) => c.record_id == *id,
    }
}

/// The records that a force-update for `scope` runs a pass on.
///
/// For all records: the identity of every configuration whose record has a
/// running service, in configuration order. For one domain name or record
/// id: the identity of the first configuration that matches it and whose
/// record has a running service, or `NotFound` when there is none.
pub fn resolve_scope(registry: &ServiceFactory, configs: &Vec<DdnsConfig>, scope: &UpdateScope) -> (r:
    Result<Vec<String>, DomainError>)
    ensures
        targets_of(*registry, configs@, *scope, r),
{
    let mut out: Vec<String> = Vec::new();
    let mut i: usize = 0;
    while i < configs.len()
        invariant
            i <= configs@.len(),
            out.deep_view() == reached_identities(*registry, configs@.take(i as int), *scope),
            !(scope is All) ==> out@.len() == 0 && forall|j: int|
                0 <= j < i ==> !reaches(*registry, #[trigger] configs@[j], *scope),
        decreases configs@.len() - i,
    {
        let c = &configs[i];
        let ghost prev = out.deep_view();
        assert(configs@.take(i + 1).drop_last() =~= configs@.take(i as int));
        if config_in_scope(c, scope) {
            let id = c.config_id();
            if registry.find_ddns_service(id.as_str()).is_some() {
                if !matches!(scope, UpdateScope::All) {
                    let mut one: Vec<String> = Vec::new();
                    one.push(id);
                    return Ok(one);
                }
                out.push(id);
                assert(out.deep_view() =~= prev.push(configs@[i as int].identity()));
            }
        }
        i = i + 1;
    }
    assert(configs@.take(configs@.len() as int) =~= configs@);
    if matches!(scope, UpdateScope::All) {
        Ok(out)
    } else {
        Err(DomainError::NotFound(String::from_str("no running service matches the request")))
    }
}

/// Whether some configuration among `configs` is for the record `id`.
pub open spec fn configures(configs: Seq<DdnsConfig>, id: Seq<char>) -> bool {
    exists|k: int| 0 <= k < configs.len() && #[trigger] configs[k].identity() == id
}

/// What a restart leaves: every configured record runs a service built
/// during the restart, every service built during the restart is for a
/// configured record, and every other service is one of `old` that no
/// configuration names. The generations of all services of `old` that a
/// configuration names are among the `retired` ones, and no service that is
/// left has a retired generation.
pub open spec fn restarted(
    old: ServiceFactory,
    configs: Seq<DdnsConfig>,
    new: ServiceFactory,
    retired: Seq<u64>,
) -> bool {
    let svcs = new.services();
    &&& new.wf()
    &&& new.next_generation() == old.next_generation() + configs.len()
    &&& forall|k: int|
        0 <= k < configs.len() ==> exists|j: int|
            0 <= j < svcs.len() && svcs[j].identity() == (#[trigger] configs[k]).identity()
                && svcs[j].spec_generation() >= old.next_generation()
    &&& forall|j: int|
        0 <= j < svcs.len() && (#[trigger] svcs[j]).spec_generation() >= old.next_generation()
            ==> configures(configs, svcs[j].identity())
    &&& forall|j: int|
        0 <= j < svcs.len() && (#[trigger] svcs[j]).spec_generation() < old.next_generation()
            ==> old.services().contains(svcs[j]) && !configures(configs, svcs[j].identity())
    &&& forall|j: int|
        0 <= j < old.services().len() && configures(configs, (#[trigger] old.services()[j]).identity())
            ==> retired.contains(old.services()[j].spec_generation())
    &&& forall|j: int| 0 <= j < svcs.len() ==> !retired.contains((#[trigger] svcs[j]).spec_generation())
    &&& forall|j: int|
        0 <= j < old.services().len() && !configures(configs, (#[trigger] old.services()[j]).identity())
            ==> svcs.contains(old.services()[j])
    &&& forall|k: int| 0 <= k < retired.len() ==> #[trigger] retired[k] < new.next_generation()
}

proof fn lemma_restart_step(
    old: ServiceFactory,
    done: Seq<DdnsConfig>,
    c: DdnsConfig,
    before: ServiceFactory,
    after: ServiceFactory,
    before_retired: Seq<u64>,
    after_retired: Seq<u64>,
    r: (u64, Option<u64>),
)
    requires
        old.wf(),
        restarted(old, done, before, before_retired),
        ServiceFactory::created(before, c, after, r),
        after_retired == (match r.1 {
            Some(g) => before_retired.push(g),
            None => before_retired,
        }),
    ensures
        restarted(old, done.push(c), after, after_retired),
{
    let s = before.services();
    let t = after.services();
    let n0 = old.next_generation();
    let all = done.push(c);
    assert forall|id: Seq<char>| configures(done, id) implies configures(all, id) by {
        let k = choose|k: int| 0 <= k < done.len() && #[trigger] done[k].identity() == id;
        assert(all[k] == done[k]);
    }
    assert(all[done.len() as int] == c);
    assert(configures(all, c.identity()));
    assert forall|id: Seq<char>| configures(all, id) && id != c.identity() implies configures(
        done,
        id,
    ) by {
        let k = choose|k: int| 0 <= k < all.len() && #[trigger] all[k].identity() == id;
        assert(done[k] == all[k]);
    }
    assert forall|k: int| 0 <= k < after_retired.len() implies #[trigger] after_retired[k]
        < after.next_generation() by {
        if k < before_retired.len() {
            assert(after_retired[k] == before_retired[k]);
        }
    }
    if runs_identity(s, c.identity()) {
        let i = choose|i: int|
            0 <= i < s.len() && s[i].identity() == c.identity() && r.1 == Some(
                s[i].spec_generation(),
            ) && t == s.update(i, t[i]) && t[i].spec_config() == c && t[i].spec_generation()
                == r.0;
        assert(after_retired == before_retired.push(s[i].spec_generation()));
        assert forall|k: int| 0 <= k < all.len() implies exists|j: int|
            0 <= j < t.len() && t[j].identity() == (#[trigger] all[k]).identity()
                && t[j].spec_generation() >= n0 by {
            if k < done.len() {
                assert(all[k] == done[k]);
                let j = choose|j: int|
                    0 <= j < s.len() && s[j].identity() == (#[trigger] done[k]).identity()
                        && s[j].spec_generation() >= n0;
                if j == i {
                    assert(t[i].identity() == all[k].identity());
                } else {
                    assert(t[j] == s[j]);
                }
            } else {
                assert(t[i].identity() == all[k].identity());
            }
        }
        assert forall|j: int|
            0 <= j < t.len() && (#[trigger] t[j]).spec_generation() >= n0 implies configures(
            all,
            t[j].identity(),
        ) by {
            if j != i {
                assert(t[j] == s[j]);
            }
        }
        assert forall|j: int|
            0 <= j < t.len() && (#[trigger] t[j]).spec_generation() < n0 implies old.services().contains(
            t[j],
        ) && !configures(all, t[j].identity()) by {
            assert(j != i);
            assert(t[j] == s[j]);
            assert(s[j].identity() != s[i].identity());
        }
        assert forall|j: int|
            0 <= j < old.services().len() && configures(
                all,
                (#[trigger] old.services()[j]).identity(),
            ) implies after_retired.contains(old.services()[j].spec_generation()) by {
            let o = old.services()[j];
            if configures(done, o.identity()) {
                let m = choose|m: int| 0 <= m < before_retired.len() && before_retired[m] == o.spec_generation();
                assert(after_retired[m] == before_retired[m]);
            } else {
                let m = choose|m: int| 0 <= m < s.len() && s[m] == o;
                assert(m == i);
                assert(after_retired[before_retired.len() as int] == o.spec_generation());
            }
        }
        assert forall|j: int| 0 <= j < t.len() implies !after_retired.contains(
            (#[trigger] t[j]).spec_generation(),
        ) by {
            if j == i {
                assert forall|m: int| 0 <= m < after_retired.len() implies after_retired[m] != t[j].spec_generation() by {
                    if m < before_retired.len() {
                        assert(before_retired[m] < before.next_generation());
                        assert(after_retired[m] == before_retired[m]);
                    } else {
                        assert(s[i].spec_generation() < before.next_generation());
                    }
                }
            } else {
                assert(t[j] == s[j]);
                assert(!before_retired.contains(s[j].spec_generation()));
                assert(s[j].spec_generation() != s[i].spec_generation());
            }
        }
        assert forall|j: int|
            0 <= j < old.services().len() && !configures(
                all,
                (#[trigger] old.services()[j]).identity(),
            ) implies t.contains(old.services()[j]) by {
            let o = old.services()[j];
            let m = choose|m: int| 0 <= m < s.len() && s[m] == o;
            assert(m != i);
            assert(t[m] == s[m]);
        }
    } else {
        let n = s.len() as int;
        assert forall|j: int| 0 <= j < n implies #[trigger] t[j] == s[j] by {
            assert(t.take(n)[j] == t[j]);
        }
        assert forall|k: int| 0 <= k < all.len() implies exists|j: int|
            0 <= j < t.len() && t[j].identity() == (#[trigger] all[k]).identity()
                && t[j].spec_generation() >= n0 by {
            if k < done.len() {
                assert(all[k] == done[k]);
                let j = choose|j: int|
                    0 <= j < s.len() && s[j].identity() == (#[trigger] done[k]).identity()
                        && s[j].spec_generation() >= n0;
                assert(t[j] == s[j]);
            } else {
                assert(t[n].identity() == all[k].identity());
            }
        }
        assert forall|j: int|
            0 <= j < t.len() && (#[trigger] t[j]).spec_generation() >= n0 implies configures(
            all,
            t[j].identity(),
        ) by {
            if j != n {
                assert(t[j] == s[j]);
            }
        }
        assert forall|j: int|
            0 <= j < t.len() && (#[trigger] t[j]).spec_generation() < n0 implies old.services().contains(
            t[j],
        ) && !configures(all, t[j].identity()) by {
            assert(j != n);
            assert(t[j] == s[j]);
            assert(s[j].identity() != c.identity());
        }
        assert forall|j: int|
            0 <= j < old.services().len() && configures(
                all,
                (#[trigger] old.services()[j]).identity(),
            ) implies after_retired.contains(old.services()[j].spec_generation()) by {
            let o = old.services()[j];
            if !configures(done, o.identity()) {
                let m = choose|m: int| 0 <= m < s.len() && s[m] == o;
                assert(s[m].identity() == c.identity());
            }
        }
        assert forall|j: int| 0 <= j < t.len() implies !after_retired.contains(
            (#[trigger] t[j]).spec_generation(),
        ) by {
            if j == n {
                assert forall|m: int| 0 <= m < after_retired.len() implies after_retired[m] != t[j].spec_generation() by {
                    assert(before_retired[m] < before.next_generation());
                }
            } else {
                assert(t[j] == s[j]);
            }
        }
        assert forall|j: int|
            0 <= j < old.services().len() && !configures(
                all,
                (#[trigger] old.services()[j]).identity(),
            ) implies t.contains(old.services()[j]) by {
            let o = old.services()[j];
            let m = choose|m: int| 0 <= m < s.len() && s[m] == o;
            assert(t[m] == s[m]);
        }
    }
}

/// A restart gives every configured record exactly one service, and a
/// fresh one: its generation differs from that of every service that ran
/// before the restart.
pub proof fn lemma_restart_gives_fresh_services(
    old: ServiceFactory,
    configs: Seq<DdnsConfig>,
    new: ServiceFactory,
    retired: Seq<u64>,
    k: int,
)
    requires
        old.wf(),
        restarted(old, configs, new, retired),
        0 <= k < configs.len(),
    ensures
        exists|j: int|
            0 <= j < new.services().len() && new.services()[j].identity() == configs[k].identity()
                && (forall|m: int|
                0 <= m < old.services().len() ==> #[trigger] old.services()[m].spec_generation()
                    != new.services()[j].spec_generation()) && forall|i: int|
                0 <= i < new.services().len() && #[trigger] new.services()[i].identity()
                    == configs[k].identity() ==> i == j,
{
    let t = new.services();
    let j = choose|j: int|
        0 <= j < t.len() && t[j].identity() == (#[trigger] configs[k]).identity()
            && t[j].spec_generation() >= old.next_generation();
    assert forall|i: int|
        0 <= i < t.len() && #[trigger] t[i].identity() == configs[k].identity() implies i == j by {
        if i < j {
            assert(t[i].identity() != t[j].identity());
        } else if j < i {
            assert(t[j].identity() != t[i].identity());
        }
    }
}

/// Tears down and rebuilds the service of every configuration in `configs`,
/// in order. Returns the generations of the services it retired; the caller
/// stops their scheduled passes.
pub fn restart_ddns_service(registry: &mut ServiceFactory, configs: &Vec<DdnsConfig>) -> (r: Vec<u64>)
    requires
        old(registry).wf(),
        old(registry).next_generation() + configs@.len() <= u64::MAX,
    ensures
        restarted(*old(registry), configs@, *final(registry), r@),
{
    let mut retired: Vec<u64> = Vec::new();
    let mut i: usize = 0;
    while i < configs.len()
        invariant
            i <= configs@.len(),
            old(registry).wf(),
            old(registry).next_generation() + configs@.len() <= u64::MAX,
            restarted(*old(registry), configs@.take(i as int), *registry, retired@),
        decreases configs@.len() - i,
    {
        let ghost before = *registry;
        let ghost before_retired = retired@;
        let ghost done = configs@.take(i as int);
        let ghost next = configs@.take(i + 1);
        assert(next =~= done.push(configs@[i as int]));
        let created = registry.create_ddns_service(configs[i].duplicate());
        match created.1 {
            Some(g) => {
                retired.push(g);
            },
            None => {},
        }
        proof {
            lemma_restart_step(
                *old(registry),
                done,
                configs@[i as int],
                before,
                *registry,
                before_retired,
                retired@,
                created,
            );
        }
        i = i + 1;
    }
    assert(configs@.take(configs@.len() as int) =~= configs@);
    retired
}

/// What the engine has to do for a submitted command.
#[derive(Debug)]
pub enum Dispatch {
    /// Run a pass on the service of each of these records.
    RunPasses(Vec<String>),
    /// The services were rebuilt; stop the retired generations.
    Restarted(Vec<u64>),
}

/// Routes `command` to the registry. A force-update only reads the registry
/// and names the records to run a pass on; a restart rebuilds the service of
/// every configuration. Whether the caller then waits for the passes is its
/// own choice (see [`DeliveryMode`]).
pub fn submit(registry: &mut ServiceFactory, configs: &Vec<DdnsConfig>, command: &Command) -> (r:
    Result<Dispatch, DomainError>)
    requires
        old(registry).wf(),
        command is RestartAll ==> old(registry).next_generation() + configs@.len() <= u64::MAX,
    ensures
        match *command {
            Command::ForceUpdate(scope) => {
                &&& *final(registry) == *old(registry)
                &&& match r {
                    Ok(Dispatch::RunPasses(ids)) => targets_of(*old(registry), configs@, scope, Ok(ids)),
                    Ok(Dispatch::Restarted(_)) => false,
                    Err(e) => targets_of(*old(registry), configs@, scope, Err(e)),
                }
            },
            Command::RestartAll => r matches Ok(Dispatch::Restarted(retired)) && restarted(
                *old(registry),
                configs@,
                *final(registry),
                retired@,
            ),
        },
{
    match command {
        Command::ForceUpdate(scope) => match resolve_scope(registry, configs, scope) {
            Ok(ids) => Ok(Dispatch::RunPasses(ids)),
            Err(e) => Err(e),
        },
        Command::RestartAll => Ok(Dispatch::Restarted(restart_ddns_service(registry, configs))),
    }
}

/// A force-update request as the HTTP API receives it.
#[derive(Clone, Debug)]
pub struct UpdateSpecificRequest {
    pub domain: Option<String>,
    pub record_id: Option<String>,
    /// Whether the caller waits for the outcome.
    pub wait_for_result: Option<bool>,
}

impl UpdateSpecificRequest {
    /// The scope of the request: a domain name if one is given, else a record
    /// id if one is given, else all records.
    pub fn scope(&self) -> (r: UpdateScope)
        ensures
            self.domain matches Some(d) ==> r matches UpdateScope::ByDomainName(n) && n@ == d@,
            self.domain is None ==> (self.record_id matches Some(id) ==> r matches UpdateScope::ByRecordId(
                n,
            ) && n@ == id@),
            self.domain is None && self.record_id is None ==> r is All,
    {
        match &self.domain {
            Some(d) => UpdateScope::ByDomainName(d.clone()),
            None => match &self.record_id {
                Some(id) => UpdateScope::ByRecordId(id.clone()),
                None => UpdateScope::All,
            },
        }
    }

    /// Synchronous only when the request asks to wait for the result.
    pub fn mode(&self) -> (r: DeliveryMode)
        ensures
            r == (if self.wait_for_result == Some(true) {
                DeliveryMode::Synchronous
            } else {
                DeliveryMode::FireAndForget
            }),
    {
        match self.wait_for_result {
            Some(true) => DeliveryMode::Synchronous,
            _ => DeliveryMode::FireAndForget,
        }
    }
}

} // verus!
