use vstd::prelude::*;

use crate::config::DdnsConfig;
use crate::reconcile::DdnsApplicationService;

verus! {

/// The live reconciliation services, at most one per record identity.
///
/// Every service gets a generation number when it is built, taken from a
/// counter that only grows, so a service that replaces another one for the
/// same record can be told apart from it.
pub struct ServiceFactory {
    services: Vec<DdnsApplicationService>,
    next_generation: u64,
}

/// Whether some service in `svcs` runs the record `id`.
pub open spec fn runs_identity(svcs: Seq<DdnsApplicationService>, id: Seq<char>) -> bool {
    exists|i: int| 0 <= i < svcs.len() && #[trigger] svcs[i].identity() == id
}

/// Whether `listing` names the services of `svcs`, in order, by identity and
/// generation.
pub open spec fn lists(svcs: Seq<DdnsApplicationService>, listing: Seq<(Seq<char>, u64)>) -> bool {
    &&& listing.len() == svcs.len()
    &&& forall|i: int|
        0 <= i < svcs.len() ==> #[trigger] listing[i] == (svcs[i].identity(), svcs[i].spec_generation())
}

impl ServiceFactory {
    pub closed spec fn services(&self) -> Seq<DdnsApplicationService> {
        self.services@
    }

    pub closed spec fn next_generation(&self) -> u64 {
        self.next_generation
    }

    /// Identities are distinct, generations are distinct, and every
    /// generation handed out is below the counter.
    pub open spec fn wf(&self) -> bool {
        &&& forall|i: int, j: int|
            0 <= i < j < self.services().len() ==> self.services()[i].identity()
                != self.services()[j].identity()
        &&& forall|i: int, j: int|
            0 <= i < j < self.services().len() ==> self.services()[i].spec_generation()
                != self.services()[j].spec_generation()
        &&& forall|i: int|
            0 <= i < self.services().len() ==> #[trigger] self.services()[i].spec_generation()
                < self.next_generation()
    }

    /// What [`ServiceFactory::create_ddns_service`] does: the service built
    /// from `config`, with generation `r.0`, takes the place of the one that
    /// ran the same record, whose generation is `r.1`, or is appended.
    pub open spec fn created(
        old: ServiceFactory,
        config: DdnsConfig,
        new: ServiceFactory,
        r: (u64, Option<u64>),
    ) -> bool {
        &&& new.wf()
        &&& r.0 == old.next_generation()
        &&& new.next_generation() == old.next_generation() + 1
        &&& if runs_identity(old.services(), config.identity()) {
            exists|i: int|
                0 <= i < old.services().len() && old.services()[i].identity() == config.identity()
                    && r.1 == Some(old.services()[i].spec_generation()) && new.services()
                    == old.services().update(i, new.services()[i]) && new.services()[i].spec_config()
                    == config && new.services()[i].spec_generation() == r.0
        } else {
            let n = old.services().len() as int;
            &&& r.1 is None
            &&& new.services().len() == n + 1
            &&& new.services().take(n) == old.services()
            &&& new.services()[n].spec_config() == config
            &&& new.services()[n].spec_generation() == r.0
        }
    }

    pub fn new() -> (r: ServiceFactory)
        ensures
            r.wf(),
            r.services() == Seq::<DdnsApplicationService>::empty(),
            r.next_generation() == 0,
    {
        ServiceFactory { services: Vec::new(), next_generation: 0 }
    }

    fn position(&self, id: &String) -> (r: Option<usize>)
        ensures
            match r {
                Some(i) => i < self.services().len() && self.services()[i as int].identity() == id@,
                None => !runs_identity(self.services(), id@),
            },
    {
        let mut i: usize = 0;
        while i < self.services.len()
            invariant
                i <= self.services@.len(),
                forall|j: int| 0 <= j < i ==> self.services@[j].identity() != id@,
            decreases self.services@.len() - i,
        {
            if self.services[i].config_id() == *id {
                return Some(i);
            }
            i = i + 1;
        }
        None
    }

    /// The service that runs the record `config_id`, if there is one.
    pub fn find_ddns_service(&self, config_id: &str) -> (r: Option<&DdnsApplicationService>)
        ensures
            match r {
                Some(s) => exists|i: int|
                    0 <= i < self.services().len() && self.services()[i] == *s && s.identity()
                        == config_id@,
                None => !runs_identity(self.services(), config_id@),
            },
    {
        let id = config_id.to_owned();
        match self.position(&id) {
            Some(i) => Some(&self.services[i]),
            None => None,
        }
    }

    /// Builds a service for `config` and puts it in place of the one that ran
    /// the same record, if any. Returns the new service's generation and the
    /// generation of the one it retired, which the caller must stop.
    pub fn create_ddns_service(&mut self, config: DdnsConfig) -> (r: (u64, Option<u64>))
        requires
            old(self).wf(),
            old(self).next_generation() < u64::MAX,
        ensures
            Self::created(*old(self), config, *final(self), r),
    {
        let generation = self.next_generation;
        let id = config.config_id();
        let svc = DdnsApplicationService::new(config, generation);
        let ghost n = self.services@.len();
        let retired = match self.position(&id) {
            Some(i) => {
                let prior = self.services[i].generation();
                self.services[i] = svc;
                Some(prior)
            },
            None => {
                self.services.push(svc);
                assert(self.services@.take(n as int) =~= old(self).services@);
                None
            },
        };
        self.next_generation = generation + 1;
        (generation, retired)
    }

    /// A snapshot of the live services: identity and generation of each.
    pub fn list_ddns_services(&self) -> (r: Vec<(String, u64)>)
        ensures
            lists(self.services(), r.deep_view()),
    {
        let mut out: Vec<(String, u64)> = Vec::new();
        let mut i: usize = 0;
        while i < self.services.len()
            invariant
                i <= self.services@.len(),
                out@.len() == i,
                forall|j: int|
                    0 <= j < i ==> #[trigger] out.deep_view()[j] == (
                        self.services@[j].identity(),
                        self.services@[j].spec_generation(),
                    ),
            decreases self.services@.len() - i,
        {
            let svc = &self.services[i];
            let ghost prev = out.deep_view();
            out.push((svc.config_id(), svc.generation()));
            assert(out.deep_view() =~= prev.push(
                (self.services@[i as int].identity(), self.services@[i as int].spec_generation()),
            ));
            i = i + 1;
        }
        out
    }

    /// Whether `n` more services can still get a generation number.
    pub fn has_generations_for(&self, n: usize) -> (r: bool)
        ensures
            r == (self.next_generation() + n <= u64::MAX),
    {
        n as u64 <= u64::MAX - self.next_generation
    }

    pub fn len(&self) -> (r: usize)
        ensures
            r == self.services().len(),
    {
        self.services.len()
    }
}

/// At most one service per record: after two creations from configurations
/// of the same record, a listing of the registry names that record exactly
/// once, with the generation of the second service.
pub proof fn lemma_one_service_per_identity(
    r0: ServiceFactory,
    c1: DdnsConfig,
    r1: ServiceFactory,
    x1: (u64, Option<u64>),
    c2: DdnsConfig,
    r2: ServiceFactory,
    x2: (u64, Option<u64>),
    listing: Seq<(Seq<char>, u64)>,
)
    requires
        r0.wf(),
        ServiceFactory::created(r0, c1, r1, x1),
        ServiceFactory::created(r1, c2, r2, x2),
        c1.identity() == c2.identity(),
        lists(r2.services(), listing),
    ensures
        exists|i: int|
            0 <= i < listing.len() && listing[i] == (c1.identity(), x2.0) && forall|j: int|
                0 <= j < listing.len() && (#[trigger] listing[j]).0 == c1.identity() ==> j == i,
{
    let s = r2.services();
    assert(runs_identity(r1.services(), c1.identity())) by {
        if !runs_identity(r0.services(), c1.identity()) {
            let n = r0.services().len() as int;
            assert(r1.services()[n].identity() == c1.identity());
        } else {
            let i = choose|i: int|
                0 <= i < r0.services().len() && r0.services()[i].identity() == c1.identity() && r1.services()
                    == r0.services().update(i, r1.services()[i]) && r1.services()[i].spec_config() == c1;
            assert(r1.services()[i].identity() == c1.identity());
        }
    }
    let i = choose|i: int|
        0 <= i < r1.services().len() && r1.services()[i].identity() == c2.identity() && x2.1 == Some(
            r1.services()[i].spec_generation(),
        ) && s == r1.services().update(i, s[i]) && s[i].spec_config() == c2 && s[i].spec_generation()
            == x2.0;
    assert(listing[i] == (s[i].identity(), s[i].spec_generation()));
    assert forall|j: int|
        0 <= j < listing.len() && (#[trigger] listing[j]).0 == c1.identity() implies j == i by {
        assert(listing[j] == (s[j].identity(), s[j].spec_generation()));
        if j != i {
            if j < i {
                assert(s[j].identity() != s[i].identity());
            } else {
                assert(s[i].identity() != s[j].identity());
            }
        }
    }
}

} // verus!
