//! The declarative manifest: typed services, the dependency resolver, and
//! the whole-document checks.

use vstd::prelude::*;

use crate::config::docker_file::{opt_view, pairs_view, strings_view};
use crate::config::env_vars::{EnvironmentVars, clone_string, str_eq};
use crate::config::health::{HealthCheck, HealthCheckView};
use crate::config::requirements::{SystemRequirements, SystemRequirementsView};
use crate::config::volume::{Volume, VolumeView, opt_str_view};
use crate::error::DockerError;
use crate::text::{split_all, string_of};

verus! {

/// How one service's image is built, when it is built rather than pulled.
pub struct BuildConfig {
    pub context: String,
    pub dockerfile: Option<String>,
}

/// The mathematical form of a build configuration.
pub struct BuildConfigView {
    pub context: Seq<char>,
    pub dockerfile: Option<Seq<char>>,
}

impl View for BuildConfig {
    type V = BuildConfigView;

    open spec fn view(&self) -> BuildConfigView {
        BuildConfigView { context: self.context@, dockerfile: opt_str_view(self.dockerfile) }
    }
}

/// One named service of a manifest.
pub struct Service {
    pub image: Option<String>,
    pub build: Option<BuildConfig>,
    pub command: Option<Vec<String>>,
    pub environment: Option<EnvironmentVars>,
    pub env_file: Option<Vec<String>>,
    pub volumes: Option<Vec<Volume>>,
    pub depends_on: Option<Vec<String>>,
    pub ports: Option<Vec<String>>,
    pub networks: Option<Vec<String>>,
    pub requirements: Option<SystemRequirements>,
    pub healthcheck: Option<HealthCheck>,
    pub restart: Option<String>,
    pub user: Option<String>,
    pub labels: Option<Vec<(String, String)>>,
    pub platform: Option<String>,
}

/// The mathematical form of a service.
pub struct ServiceView {
    pub image: Option<Seq<char>>,
    pub build: Option<BuildConfigView>,
    pub command: Option<Seq<Seq<char>>>,
    pub environment: Option<Map<Seq<char>, Seq<char>>>,
    pub env_file: Option<Seq<Seq<char>>>,
    pub volumes: Option<Seq<VolumeView>>,
    pub depends_on: Option<Seq<Seq<char>>>,
    pub ports: Option<Seq<Seq<char>>>,
    pub networks: Option<Seq<Seq<char>>>,
    pub requirements: Option<SystemRequirementsView>,
    pub healthcheck: Option<HealthCheckView>,
    pub restart: Option<Seq<char>>,
    pub user: Option<Seq<char>>,
    pub labels: Option<Seq<(Seq<char>, Seq<char>)>>,
    pub platform: Option<Seq<char>>,
}

/// The views of an optional list of strings.
pub open spec fn opt_strings_view(s: Option<Vec<String>>) -> Option<Seq<Seq<char>>> {
    match s {
        Some(v) => Some(strings_view(v@)),
        None => None,
    }
}

/// The mathematical form of a service value.
pub open spec fn service_view(s: Service) -> ServiceView {
    ServiceView {
        image: opt_str_view(s.image),
        build: match s.build {
            Some(b) => Some(b@),
            None => None,
        },
        command: opt_strings_view(s.command),
        environment: match s.environment {
            Some(e) => Some(e@),
            None => None,
        },
        env_file: opt_strings_view(s.env_file),
        volumes: match s.volumes {
            Some(v) => Some(v@.map_values(|x: Volume| x@)),
            None => None,
        },
        depends_on: opt_strings_view(s.depends_on),
        ports: opt_strings_view(s.ports),
        networks: opt_strings_view(s.networks),
        requirements: match s.requirements {
            Some(r) => Some(r@),
            None => None,
        },
        healthcheck: match s.healthcheck {
            Some(h) => Some(h@),
            None => None,
        },
        restart: opt_str_view(s.restart),
        user: opt_str_view(s.user),
        labels: match s.labels {
            Some(l) => Some(pairs_view(l@)),
            None => None,
        },
        platform: opt_str_view(s.platform),
    }
}

impl View for Service {
    type V = ServiceView;

    open spec fn view(&self) -> ServiceView {
        service_view(*self)
    }
}

impl Service {
    /// The service's internal invariant: its environment map, when present,
    /// has unique keys.
    pub open spec fn wf(&self) -> bool {
        match self.environment {
            Some(e) => e.wf(),
            None => true,
        }
    }

    /// A service with nothing set.
    pub fn new() -> (r: Service)
        ensures
            r@.image is None,
            r@.build is None,
            r@.command is None,
            r@.environment is None,
            r@.env_file is None,
            r@.volumes is None,
            r@.depends_on is None,
            r@.ports is None,
            r@.networks is None,
            r@.requirements is None,
            r@.healthcheck is None,
            r@.restart is None,
            r@.user is None,
            r@.labels is None,
            r@.platform is None,
    {
        Service {
            image: None,
            build: None,
            command: None,
            environment: None,
            env_file: None,
            volumes: None,
            depends_on: None,
            ports: None,
            networks: None,
            requirements: None,
            healthcheck: None,
            restart: None,
            user: None,
            labels: None,
            platform: None,
        }
    }
}

/// A parsed manifest: its version, its services and its top-level volumes,
/// both as insertion-ordered association lists with unique keys.
pub struct ComposeConfig {
    pub version: String,
    pub services: Vec<(String, Service)>,
    pub volumes: Vec<(String, Volume)>,
}

/// The mathematical form of a manifest.
pub struct ComposeConfigView {
    pub version: Seq<char>,
    pub services: Seq<(Seq<char>, ServiceView)>,
    pub volumes: Seq<(Seq<char>, VolumeView)>,
}

impl View for ComposeConfig {
    type V = ComposeConfigView;

    open spec fn view(&self) -> ComposeConfigView {
        ComposeConfigView {
            version: self.version@,
            services: self.services@.map_values(
                |p: (String, Service)| (p.0@, service_view(p.1)),
            ),
            volumes: self.volumes@.map_values(|p: (String, Volume)| (p.0@, p.1@)),
        }
    }
}

/// The names of the services, in order.
pub open spec fn svc_names(services: Seq<(String, Service)>) -> Seq<Seq<char>> {
    services.map_values(|p: (String, Service)| p.0@)
}

/// The declared dependencies of a service.
pub open spec fn deps_view(s: Service) -> Seq<Seq<char>> {
    match s.depends_on {
        Some(d) => strings_view(d@),
        None => Seq::empty(),
    }
}

/// Whether some service named `a` declares a dependency on `b`.
pub open spec fn edge(services: Seq<(String, Service)>, a: Seq<char>, b: Seq<char>) -> bool {
    exists|i: int|
        0 <= i < services.len() && (#[trigger] services[i]).0@ == a && deps_view(
            services[i].1,
        ).contains(b)
}

/// A dependency cycle: a path of at least one edge that returns to its
/// start.
pub open spec fn is_cycle(services: Seq<(String, Service)>, p: Seq<Seq<char>>) -> bool {
    p.len() >= 2 && p[0] == p.last() && forall|k: int|
        0 <= k < p.len() - 1 ==> edge(services, #[trigger] p[k], p[k + 1])
}

/// Whether the dependency graph holds a cycle.
pub open spec fn has_cycle(services: Seq<(String, Service)>) -> bool {
    exists|p: Seq<Seq<char>>| is_cycle(services, p)
}

/// A valid deployment order: a permutation of the service names in which
/// every declared dependency on another service comes before its dependent.
pub open spec fn topo_ok(services: Seq<(String, Service)>, order: Seq<Seq<char>>) -> bool {
    &&& order.to_multiset() == svc_names(services).to_multiset()
    &&& order.no_duplicates()
    &&& forall|i: int, j: int|
        0 <= i < order.len() && 0 <= j < order.len() && edge(services, order[i], order[j]) ==> j
            < i
}

impl ComposeConfig {
    /// Key uniqueness of the two maps, kept by every operation.
    pub open spec fn wf(&self) -> bool {
        &&& svc_names(self.services@).no_duplicates()
        &&& self.volumes@.map_values(|p: (String, Volume)| p.0@).no_duplicates()
        &&& forall|i: int| 0 <= i < self.services@.len() ==> (#[trigger] self.services@[i]).1.wf()
    }

    /// An empty manifest of the default version.
    pub fn new() -> (r: ComposeConfig)
        ensures
            r.wf(),
            r.version@ == "3"@,
            r.services@.len() == 0,
            r.volumes@.len() == 0,
    {
        let mut version = String::new();
        version.append("3");
        proof {
            reveal_strlit("3");
            reveal_strlit("");
        }
        ComposeConfig { version, services: Vec::new(), volumes: Vec::new() }
    }

    /// The service with the given name, if any.
    pub fn get_service(&self, name: &str) -> (r: Option<&Service>)
        requires
            self.wf(),
        ensures
            match r {
                Some(s) => exists|i: int|
                    0 <= i < self.services@.len() && (#[trigger] self.services@[i]).0@ == name@
                        && self.services@[i].1 == *s,
                None => !svc_names(self.services@).contains(name@),
            },
    {
        let n = self.services.len();
        let mut i: usize = 0;
        while i < n
            invariant
                i <= n,
                n == self.services@.len(),
                forall|j: int| 0 <= j < i ==> (#[trigger] self.services@[j]).0@ != name@,
            decreases n - i,
        {
            if str_eq(self.services[i].0.as_str(), name) {
                return Some(&self.services[i].1);
            }
            i = i + 1;
        }
        proof {
            let mapped = svc_names(self.services@);
            assert forall|j: int| 0 <= j < mapped.len() implies #[trigger] mapped[j] != name@ by {
                assert(mapped[j] == self.services@[j].0@);
            }
        }
        None
    }

    /// Whether a service of that name exists.
    fn has_service(&self, name: &String) -> (r: bool)
        ensures
            r == svc_names(self.services@).contains(name@),
    {
        let n = self.services.len();
        let mut i: usize = 0;
        while i < n
            invariant
                i <= n,
                n == self.services@.len(),
                forall|j: int| 0 <= j < i ==> (#[trigger] self.services@[j]).0@ != name@,
            decreases n - i,
        {
            if str_eq(self.services[i].0.as_str(), name.as_str()) {
                proof {
                    assert(svc_names(self.services@)[i as int] == name@);
                }
                return true;
            }
            i = i + 1;
        }
        proof {
            let mapped = svc_names(self.services@);
            assert forall|j: int| 0 <= j < mapped.len() implies #[trigger] mapped[j] != name@ by {
                assert(mapped[j] == self.services@[j].0@);
            }
        }
        false
    }

    /// Resolve the order in which the services should be deployed: a
    /// permutation of the service names in which every service follows the
    /// services it depends on; dependencies naming no known service are
    /// treated as leaves.  On a dependency cycle, an error.
    pub fn resolve_service_order(&self) -> (r: Result<Vec<String>, DockerError>)
        requires
            self.wf(),
        ensures
            match r {
                Ok(order) => topo_ok(self.services@, order@.map_values(|s: String| s@)),
                Err(e) => has_cycle(self.services@) && e is ValidationError && e.text()
                    == "Circular dependency detected"@,
            },
    {
        let ghost services = self.services@;
        let n = self.services.len();
        let mut result: Vec<String> = Vec::new();
        let mut rem: Vec<usize> = Vec::new();
        let mut i: usize = 0;
        while i < n
            invariant
                i <= n,
                n == self.services@.len(),
                rem@.len() == i,
                forall|j: int| 0 <= j < i ==> rem@[j] == j,
            decreases n - i,
        {
            rem.push(i);
            i = i + 1;
        }
        proof {
            assert(rem@.map_values(|j: usize| services[j as int].0@) =~= svc_names(services));
            broadcast use vstd::seq_lib::group_to_multiset_ensures;

            assert(result@.map_values(|s: String| s@).to_multiset().add(
                rem@.map_values(|j: usize| services[j as int].0@).to_multiset(),
            ) =~= svc_names(services).to_multiset());
        }
        loop
            invariant
                self.wf(),
                services == self.services@,
                n == services.len(),
                inv_state(services, result@.map_values(|s: String| s@), rem@),
            ensures
                rem@.len() == 0,
            decreases rem@.len(),
        {
            if rem.len() == 0 {
                break ;
            }
            let mut picked: Option<usize> = None;
            let mut k: usize = 0;
            while k < rem.len() && picked.is_none()
                invariant
                    k <= rem@.len(),
                    services == self.services@,
                    n == services.len(),
                    inv_state(services, result@.map_values(|s: String| s@), rem@),
                    match picked {
                        Some(kk) => kk < rem@.len() && ready(
                            services,
                            rem@[kk as int] as int,
                            result@.map_values(|s: String| s@),
                        ),
                        None => forall|j: int|
                            0 <= j < k ==> !ready(
                                services,
                                rem@[j] as int,
                                result@.map_values(|s: String| s@),
                            ),
                    },
                decreases rem@.len() - k,
            {
                if self.deps_ready(rem[k], &result) {
                    picked = Some(k);
                }
                k = k + 1;
            }
            match picked {
                Some(kk) => {
                    let si = rem[kk];
                    let name = clone_string(&self.services[si].0);
                    let ghost old_result = result@;
                    let ghost old_rem = rem@;
                    result.push(name);
                    rem.remove(kk);
                    proof {
                        assert(result@ =~= old_result.push(result@.last()));
                        assert(result@.last().view() == services[old_rem[kk as int] as int].0@);
                        lemma_pick_step(services, old_result, old_rem, result@, rem@, kk as int);
                    }
                },
                None => {
                    proof {
                        assert(forall|j: int|
                            0 <= j < rem@.len() ==> !ready(
                                services,
                                rem@[j] as int,
                                result@.map_values(|s: String| s@),
                            ));
                        lemma_stuck_has_cycle(services, result@.map_values(|s: String| s@), rem@);
                    }
                    let mut msg = String::new();
                    msg.append("Circular dependency detected");
                    proof {
                        reveal_strlit("Circular dependency detected");
                        reveal_strlit("");
                    }
                    return Err(DockerError::ValidationError(msg));
                },
            }
        }
        proof {
            broadcast use vstd::seq_lib::group_to_multiset_ensures;

            assert(rem@.map_values(|j: usize| services[j as int].0@) =~= Seq::<Seq<char>>::empty());
            assert(result@.map_values(|s: String| s@).to_multiset().add(
                Seq::<Seq<char>>::empty().to_multiset(),
            ) =~= result@.map_values(|s: String| s@).to_multiset());
            lemma_topo_from_invariants(services, result@.map_values(|s: String| s@));
        }
        Ok(result)
    }

    /// Whether every known-service dependency of service `si` already stands
    /// in `placed`.
    fn deps_ready(&self, si: usize, placed: &Vec<String>) -> (r: bool)
        requires
            si < self.services@.len(),
        ensures
            r == ready(self.services@, si as int, placed@.map_values(|s: String| s@)),
    {
        let deps: &Option<Vec<String>> = &self.services[si].1.depends_on;
        match deps {
            None => {
                assert(deps_view(self.services@[si as int].1).len() == 0);
                true
            },
            Some(dl) => {
                let m = dl.len();
                let mut k: usize = 0;
                while k < m
                    invariant
                        k <= m,
                        si < self.services@.len(),
                        self.services@[si as int].1.depends_on == Some(*dl),
                        m == dl@.len(),
                        forall|j: int|
                            0 <= j < k ==> (svc_names(self.services@).contains(
                                #[trigger] deps_view(self.services@[si as int].1)[j],
                            ) ==> placed@.map_values(|s: String| s@).contains(
                                deps_view(self.services@[si as int].1)[j],
                            )),
                    decreases m - k,
                {
                    proof {
                        assert(deps_view(self.services@[si as int].1)[k as int] == dl@[k as int]@);
                    }
                    if self.has_service(&dl[k]) && !name_in(placed, &dl[k]) {
                        return false;
                    }
                    k = k + 1;
                }
                true
            },
        }
    }
}

/// Whether every known-service dependency of `services[si]` is in `placed`.
pub open spec fn ready(
    services: Seq<(String, Service)>,
    si: int,
    placed: Seq<Seq<char>>,
) -> bool {
    forall|k: int|
        0 <= k < deps_view(services[si].1).len() && svc_names(services).contains(
            #[trigger] deps_view(services[si].1)[k],
        ) ==> placed.contains(deps_view(services[si].1)[k])
}


/// Every placed service's known dependencies stand earlier in the order.
pub open spec fn inv_deps_earlier(
    services: Seq<(String, Service)>,
    names: Seq<Seq<char>>,
) -> bool {
    forall|pos: int, si: int|
        #![trigger services[si], names[pos]]
        0 <= pos < names.len() && 0 <= si < services.len() && services[si].0@ == names[pos]
            ==> forall|k: int|
            0 <= k < deps_view(services[si].1).len() && svc_names(services).contains(
                #[trigger] deps_view(services[si].1)[k],
            ) ==> exists|q: int|
                0 <= q < pos && names[q] == deps_view(services[si].1)[k]
}

/// The resolver's working state: the placed names and the remaining service
/// indices partition the services, and every placed service is ready.
pub open spec fn inv_state(
    services: Seq<(String, Service)>,
    names: Seq<Seq<char>>,
    rem: Seq<usize>,
) -> bool {
    &&& forall|j: int| 0 <= j < rem.len() ==> (#[trigger] rem[j]) < services.len()
    &&& rem.no_duplicates()
    &&& names.len() + rem.len() == services.len()
    &&& names.to_multiset().add(
        rem.map_values(|j: usize| services[j as int].0@).to_multiset(),
    ) == svc_names(services).to_multiset()
    &&& names.no_duplicates()
    &&& inv_deps_earlier(services, names)
    &&& forall|j: int|
        0 <= j < rem.len() ==> !names.contains(services[(#[trigger] rem[j]) as int].0@)
}

/// Placing a ready service keeps the resolver's state.
proof fn lemma_pick_step(
    services: Seq<(String, Service)>,
    old_result: Seq<String>,
    old_rem: Seq<usize>,
    new_result: Seq<String>,
    new_rem: Seq<usize>,
    kk: int,
)
    requires
        svc_names(services).no_duplicates(),
        inv_state(services, old_result.map_values(|s: String| s@), old_rem),
        0 <= kk < old_rem.len(),
        ready(services, old_rem[kk] as int, old_result.map_values(|s: String| s@)),
        new_result.len() == old_result.len() + 1,
        new_result == old_result.push(new_result.last()),
        new_result.last()@ == services[old_rem[kk] as int].0@,
        new_rem == old_rem.remove(kk),
    ensures
        inv_state(services, new_result.map_values(|s: String| s@), new_rem),
{
    broadcast use vstd::seq_lib::group_to_multiset_ensures;

    let old_names = old_result.map_values(|s: String| s@);
    let new_names = new_result.map_values(|s: String| s@);
    let x = services[old_rem[kk] as int].0@;
    let si0 = old_rem[kk] as int;
    assert(new_names =~= old_names.push(x));
    let old_rem_names = old_rem.map_values(|j: usize| services[j as int].0@);
    let new_rem_names = new_rem.map_values(|j: usize| services[j as int].0@);
    assert(new_rem_names =~= old_rem_names.remove(kk));
    assert(old_rem_names[kk] == x);
    // bounds and uniqueness of the remaining indices
    assert(new_rem =~= old_rem.subrange(0, kk) + old_rem.subrange(kk + 1, old_rem.len() as int));
    assert(forall|j: int| 0 <= j < new_rem.len() ==> (#[trigger] new_rem[j]) < services.len());
    assert(new_rem.no_duplicates()) by {
        assert forall|a: int, b: int| 0 <= a < b < new_rem.len() implies new_rem[a] != new_rem[b] by {
            let a0 = if a < kk { a } else { a + 1 };
            let b0 = if b < kk { b } else { b + 1 };
            assert(new_rem[a] == old_rem[a0]);
            assert(new_rem[b] == old_rem[b0]);
        }
    }
    // the multiset partition
    assert(new_names.to_multiset() =~= old_names.to_multiset().insert(x));
    assert(new_rem_names.to_multiset() =~= old_rem_names.to_multiset().remove(x));
    assert(old_rem_names.to_multiset().count(x) >= 1) by {
        assert(old_rem_names.contains(x)) by {
            assert(old_rem_names[kk] == x);
        }
    }
    assert(new_names.to_multiset().add(new_rem_names.to_multiset()) =~= old_names.to_multiset().add(
        old_rem_names.to_multiset(),
    ));
    // no duplicate placed names
    assert(!old_names.contains(x));
    assert(new_names.no_duplicates()) by {
        assert forall|a: int, b: int| 0 <= a < b < new_names.len() implies new_names[a]
            != new_names[b] by {
            if b == new_names.len() - 1 {
                assert(new_names[b] == x);
                assert(old_names[a] == new_names[a]);
                assert(old_names.contains(old_names[a]));
            }
        }
    }
    // dependencies stand earlier
    assert(inv_deps_earlier(services, new_names)) by {
        assert forall|pos: int, si: int|
            #![trigger services[si], new_names[pos]]
            0 <= pos < new_names.len() && 0 <= si < services.len() && services[si].0@
                == new_names[pos] implies forall|k: int|
            0 <= k < deps_view(services[si].1).len() && svc_names(services).contains(
                #[trigger] deps_view(services[si].1)[k],
            ) ==> exists|q: int|
                0 <= q < pos && new_names[q] == deps_view(services[si].1)[k] by {
            if pos < old_names.len() {
                assert(services[si].0@ == old_names[pos]);
                assert forall|k: int|
                    0 <= k < deps_view(services[si].1).len() && svc_names(services).contains(
                        #[trigger] deps_view(services[si].1)[k],
                    ) implies exists|q: int|
                    0 <= q < pos && new_names[q] == deps_view(services[si].1)[k] by {
                    let q = choose|q: int|
                        0 <= q < pos && old_names[q] == deps_view(services[si].1)[k];
                    assert(new_names[q] == deps_view(services[si].1)[k]);
                }
            } else {
                assert(new_names[pos] == x);
                assert(svc_names(services)[si] == services[si].0@);
                assert(svc_names(services)[si0] == x);
                assert(si == si0);
                assert forall|k: int|
                    0 <= k < deps_view(services[si].1).len() && svc_names(services).contains(
                        #[trigger] deps_view(services[si].1)[k],
                    ) implies exists|q: int|
                    0 <= q < pos && new_names[q] == deps_view(services[si].1)[k] by {
                    assert(old_names.contains(deps_view(services[si].1)[k]));
                    let q = choose|q: int|
                        0 <= q < old_names.len() && old_names[q] == deps_view(services[si].1)[k];
                    assert(new_names[q] == deps_view(services[si].1)[k]);
                }
            }
        }
    }
    // remaining names stay outside the placed names
    assert forall|j: int|
        0 <= j < new_rem.len() implies !new_names.contains(
        services[(#[trigger] new_rem[j]) as int].0@,
    ) by {
        let j0 = if j < kk { j } else { j + 1 };
        assert(new_rem[j] == old_rem[j0]);
        let nm = services[new_rem[j] as int].0@;
        assert(!old_names.contains(nm));
        assert(new_rem[j] != old_rem[kk]);
        assert(svc_names(services)[new_rem[j] as int] == nm);
        assert(svc_names(services)[si0] == x);
        assert(nm != x);
        if new_names.contains(nm) {
            let q = choose|q: int| 0 <= q < new_names.len() && new_names[q] == nm;
            assert(q < old_names.len() ==> old_names[q] == nm);
        }
    }
}

/// A forward path in the dependency graph, staying inside `s_set`, of any
/// requested length.
proof fn lemma_build_path(
    services: Seq<(String, Service)>,
    s_set: Set<Seq<char>>,
    s0: Seq<char>,
    len: nat,
) -> (p: Seq<Seq<char>>)
    requires
        s_set.finite(),
        s_set.contains(s0),
        forall|s: Seq<char>|
            #[trigger] s_set.contains(s) ==> exists|d: Seq<char>|
                s_set.contains(d) && edge(services, s, d),
    ensures
        p.len() == len + 1,
        p[0] == s0,
        forall|k: int| 0 <= k < p.len() ==> s_set.contains(#[trigger] p[k]),
        forall|k: int| 0 <= k < p.len() - 1 ==> edge(services, #[trigger] p[k], p[k + 1]),
    decreases len,
{
    if len == 0 {
        let p = seq![s0];
        assert(p[0] == s0);
        p
    } else {
        let q = lemma_build_path(services, s_set, s0, (len - 1) as nat);
        let last = q.last();
        assert(s_set.contains(last));
        let d = choose|d: Seq<char>| s_set.contains(d) && edge(services, last, d);
        let p = q.push(d);
        assert(forall|k: int| 0 <= k < q.len() ==> p[k] == q[k]);
        assert(p.last() == d);
        assert(edge(services, p[p.len() - 2], p[p.len() - 1]));
        p
    }
}

/// When every remaining service waits on another remaining service, the
/// graph holds a cycle.
#[verifier::rlimit(100)]
proof fn lemma_stuck_has_cycle(
    services: Seq<(String, Service)>,
    names: Seq<Seq<char>>,
    rem: Seq<usize>,
)
    requires
        svc_names(services).no_duplicates(),
        inv_state(services, names, rem),
        rem.len() > 0,
        forall|j: int| 0 <= j < rem.len() ==> !ready(services, (#[trigger] rem[j]) as int, names),
    ensures
        has_cycle(services),
{
    broadcast use vstd::seq_lib::group_to_multiset_ensures;

    let rem_names = rem.map_values(|j: usize| services[j as int].0@);
    let s_set = rem_names.to_set();
    assert(s_set.finite());
    // every member has an outgoing edge staying in the set
    assert forall|s: Seq<char>| #[trigger] s_set.contains(s) implies exists|d: Seq<char>|
        s_set.contains(d) && edge(services, s, d) by {
        let j = choose|j: int| 0 <= j < rem_names.len() && rem_names[j] == s;
        let si = rem[j] as int;
        assert(services[si].0@ == s);
        assert(!ready(services, si, names));
        let k = choose|k: int|
            0 <= k < deps_view(services[si].1).len() && svc_names(services).contains(
                deps_view(services[si].1)[k],
            ) && !names.contains(deps_view(services[si].1)[k]);
        let d = deps_view(services[si].1)[k];
        assert(edge(services, s, d)) by {
            assert(deps_view(services[si].1).contains(d));
        }
        // d is a service name not placed, so it remains
        assert(svc_names(services).to_multiset().count(d) > 0);
        assert(names.to_multiset().count(d) == 0) by {
            if names.to_multiset().count(d) > 0 {
                assert(names.contains(d));
            }
        }
        assert(names.to_multiset().add(rem_names.to_multiset()).count(d) == names.to_multiset()
            .count(d) + rem_names.to_multiset().count(d));
        assert(rem_names.to_multiset().count(d) > 0);
        assert(rem_names.contains(d));
        assert(s_set.contains(d));
    }
    // a path longer than the set must repeat a member
    assert(rem_names.no_duplicates()) by {
        assert forall|a: int, b: int| 0 <= a < b < rem_names.len() implies rem_names[a]
            != rem_names[b] by {
            assert(rem_names[a] == services[rem[a] as int].0@);
            assert(rem_names[b] == services[rem[b] as int].0@);
            assert(rem[a] != rem[b]);
            assert(svc_names(services)[rem[a] as int] == rem_names[a]);
            assert(svc_names(services)[rem[b] as int] == rem_names[b]);
        }
    }
    rem_names.unique_seq_to_set();
    let card = s_set.len();
    let s0 = rem_names[0];
    assert(s_set.contains(s0));
    let p = lemma_build_path(services, s_set, s0, (card + 1) as nat);
    assert(p.len() > card);
    assert(!p.no_duplicates()) by {
        if p.no_duplicates() {
            p.unique_seq_to_set();
            assert(p.to_set().len() == p.len());
            assert(p.to_set().subset_of(s_set)) by {
                assert forall|x: Seq<char>| #[trigger] p.to_set().contains(x) implies s_set
                    .contains(x) by {
                    assert(p.contains(x));
                    let k = choose|k: int| 0 <= k < p.len() && p[k] == x;
                    assert(s_set.contains(p[k]));
                }
            }
            vstd::set_lib::lemma_len_subset(p.to_set(), s_set);
        }
    }
    let (a, b) = choose|a: int, b: int| 0 <= a < b < p.len() && p[a] == p[b];
    let cyc = p.subrange(a, b + 1);
    assert(cyc.len() >= 2);
    assert(cyc[0] == p[a]);
    assert(cyc.last() == p[b]);
    assert(is_cycle(services, cyc)) by {
        assert forall|k: int| 0 <= k < cyc.len() - 1 implies edge(services, #[trigger] cyc[k], cyc[k + 1]) by {
            assert(cyc[k] == p[a + k]);
            assert(cyc[k + 1] == p[a + k + 1]);
            assert(edge(services, p[a + k], p[a + k + 1]));
        }
    }
}

/// An order that places every dependency earlier, over all the services, is
/// a valid deployment order.
proof fn lemma_topo_from_invariants(services: Seq<(String, Service)>, names: Seq<Seq<char>>)
    requires
        svc_names(services).no_duplicates(),
        names.to_multiset() == svc_names(services).to_multiset(),
        names.no_duplicates(),
        inv_deps_earlier(services, names),
    ensures
        topo_ok(services, names),
{
    broadcast use vstd::seq_lib::group_to_multiset_ensures;

    assert forall|i: int, j: int|
        0 <= i < names.len() && 0 <= j < names.len() && edge(services, names[i], names[j]) implies j
        < i by {
        let si = choose|si: int|
            0 <= si < services.len() && (#[trigger] services[si]).0@ == names[i] && deps_view(
                services[si].1,
            ).contains(names[j]);
        let k = choose|k: int|
            0 <= k < deps_view(services[si].1).len() && deps_view(services[si].1)[k] == names[j];
        assert(svc_names(services).contains(names[j])) by {
            assert(names.contains(names[j]));
            assert(names.to_multiset().count(names[j]) > 0);
            assert(svc_names(services).to_multiset().count(names[j]) > 0);
        }
        let q = choose|q: int| 0 <= q < i && names[q] == deps_view(services[si].1)[k];
        assert(names[q] == names[j]);
        assert(q == j);
    }
}


/// The first of the required variables missing from an environment map.
pub open spec fn first_missing_var(
    env: Map<Seq<char>, Seq<char>>,
    vars: Seq<Seq<char>>,
    j: int,
) -> Option<Seq<char>>
    recommends
        0 <= j <= vars.len(),
    decreases vars.len() - j when 0 <= j <= vars.len()
{
    if j >= vars.len() {
        None
    } else if !env.contains_key(vars[j]) {
        Some(vars[j])
    } else {
        first_missing_var(env, vars, j + 1)
    }
}

/// The required-variables check over the services in order: a service with
/// an environment must hold every required variable; a service without one
/// fails when any variable is required.  The first failure names the service
/// and the variable.
pub open spec fn spec_validate_env(
    services: Seq<(Seq<char>, ServiceView)>,
    vars: Seq<Seq<char>>,
    i: int,
) -> Result<(), Seq<char>>
    recommends
        0 <= i <= services.len(),
    decreases services.len() - i when 0 <= i <= services.len()
{
    if i >= services.len() {
        Ok(())
    } else {
        match services[i].1.environment {
            Some(env) => match first_missing_var(env, vars, 0) {
                Some(v) => Err(
                    "Service '"@ + services[i].0
                        + "' is missing required environment variable: "@ + v,
                ),
                None => spec_validate_env(services, vars, i + 1),
            },
            None => if vars.len() > 0 {
                Err("Service '"@ + services[i].0 + "' has no environment variables configured"@)
            } else {
                spec_validate_env(services, vars, i + 1)
            },
        }
    }
}

/// Whether a volume answers to a required name: a named volume by the text
/// before its first `:`, a bind mount by its target, a definition by its
/// name.
pub open spec fn vol_matches(v: VolumeView, name: Seq<char>) -> bool {
    match v {
        VolumeView::Named(n) => crate::text::split_all(n, ':')[0] == name,
        VolumeView::Bind { target, .. } => target == name,
        VolumeView::Config { name: vn, .. } => vn == name,
    }
}

/// The first required name no volume of the list answers to.
pub open spec fn first_missing_volume(
    vols: Seq<VolumeView>,
    req: Seq<Seq<char>>,
    j: int,
) -> Option<Seq<char>>
    recommends
        0 <= j <= req.len(),
    decreases req.len() - j when 0 <= j <= req.len()
{
    if j >= req.len() {
        None
    } else if !(exists|k: int| 0 <= k < vols.len() && vol_matches(#[trigger] vols[k], req[j])) {
        Some(req[j])
    } else {
        first_missing_volume(vols, req, j + 1)
    }
}

/// The required-volumes check over the services in order: a service that
/// declares volumes must answer every required name; a service without
/// volumes is passed over.  The first failure names the service and the
/// volume.
pub open spec fn spec_validate_vols(
    services: Seq<(Seq<char>, ServiceView)>,
    req: Seq<Seq<char>>,
    i: int,
) -> Result<(), Seq<char>>
    recommends
        0 <= i <= services.len(),
    decreases services.len() - i when 0 <= i <= services.len()
{
    if i >= services.len() {
        Ok(())
    } else {
        match services[i].1.volumes {
            Some(vols) => match first_missing_volume(vols, req, 0) {
                Some(v) => Err(
                    "Service '"@ + services[i].0 + "' is missing required volume: "@ + v,
                ),
                None => spec_validate_vols(services, req, i + 1),
            },
            None => spec_validate_vols(services, req, i + 1),
        }
    }
}

impl ComposeConfig {
    /// Check that every service's environment holds all the required
    /// variables.
    pub fn validate_required_env_vars(&self, vars: &Vec<String>) -> (r: Result<(), DockerError>)
        requires
            self.wf(),
        ensures
            ({
                let sp = spec_validate_env(
                    self@.services,
                    crate::config::docker_file::strings_view(vars@),
                    0,
                );
                match r {
                    Ok(_) => sp is Ok,
                    Err(e) => sp is Err && e is ValidationError && e.text() == sp->Err_0,
                }
            }),
    {
        let ghost services_view = self@.services;
        let ghost vars_view = crate::config::docker_file::strings_view(vars@);
        let n = self.services.len();
        let mut i: usize = 0;
        while i < n
            invariant
                i <= n,
                n == self.services@.len(),
                self.wf(),
                services_view == self@.services,
                vars_view == crate::config::docker_file::strings_view(vars@),
                spec_validate_env(services_view, vars_view, 0) == spec_validate_env(
                    services_view,
                    vars_view,
                    i as int,
                ),
            decreases n - i,
        {
            proof {
                assert(services_view[i as int] == (
                    self.services@[i as int].0@,
                    service_view(self.services@[i as int].1),
                ));
            }
            match &self.services[i].1.environment {
                Some(env) => {
                    let m = vars.len();
                    let mut j: usize = 0;
                    while j < m
                        invariant
                            j <= m,
                            m == vars@.len(),
                            self.wf(),
                            services_view == self@.services,
                            vars_view == crate::config::docker_file::strings_view(vars@),
                            i < self.services@.len(),
                            services_view[i as int].0 == self.services@[i as int].0@,
                            services_view[i as int].1.environment == Some(env@),
                            self.services@[i as int].1.environment == Some(*env),
                            env.wf(),
                            spec_validate_env(services_view, vars_view, 0) == spec_validate_env(
                                services_view,
                                vars_view,
                                i as int,
                            ),
                            first_missing_var(env@, vars_view, 0) == first_missing_var(
                                env@,
                                vars_view,
                                j as int,
                            ),
                        decreases m - j,
                    {
                        proof {
                            assert(vars_view[j as int] == vars@[j as int]@);
                        }
                        if !env.contains_key(vars[j].as_str()) {
                            let mut out: Vec<char> = Vec::new();
                            crate::config::docker_file::append_str(&mut out, "Service '");
                            crate::config::docker_file::append_string(
                                &mut out,
                                &self.services[i].0,
                            );
                            crate::config::docker_file::append_str(
                                &mut out,
                                "' is missing required environment variable: ",
                            );
                            crate::config::docker_file::append_string(&mut out, &vars[j]);
                            proof {
                                reveal_strlit("Service '");
                                reveal_strlit("' is missing required environment variable: ");
                            }
                            return Err(
                                DockerError::ValidationError(crate::text::string_of(&out)),
                            );
                        }
                        j = j + 1;
                    }
                },
                None => {
                    if vars.len() > 0 {
                        let mut out: Vec<char> = Vec::new();
                        crate::config::docker_file::append_str(&mut out, "Service '");
                        crate::config::docker_file::append_string(&mut out, &self.services[i].0);
                        crate::config::docker_file::append_str(
                            &mut out,
                            "' has no environment variables configured",
                        );
                        proof {
                            reveal_strlit("Service '");
                            reveal_strlit("' has no environment variables configured");
                        }
                        return Err(DockerError::ValidationError(crate::text::string_of(&out)));
                    }
                },
            }
            i = i + 1;
        }
        Ok(())
    }

    /// Check that every service that declares volumes answers all the
    /// required names.
    pub fn validate_required_volumes(&self, required: &Vec<String>) -> (r: Result<
        (),
        DockerError,
    >)
        ensures
            ({
                let sp = spec_validate_vols(
                    self@.services,
                    crate::config::docker_file::strings_view(required@),
                    0,
                );
                match r {
                    Ok(_) => sp is Ok,
                    Err(e) => sp is Err && e is ValidationError && e.text() == sp->Err_0,
                }
            }),
    {
        let ghost services_view = self@.services;
        let ghost req_view = crate::config::docker_file::strings_view(required@);
        let n = self.services.len();
        let mut i: usize = 0;
        while i < n
            invariant
                i <= n,
                n == self.services@.len(),
                services_view == self@.services,
                req_view == crate::config::docker_file::strings_view(required@),
                spec_validate_vols(services_view, req_view, 0) == spec_validate_vols(
                    services_view,
                    req_view,
                    i as int,
                ),
            decreases n - i,
        {
            proof {
                assert(services_view[i as int] == (
                    self.services@[i as int].0@,
                    service_view(self.services@[i as int].1),
                ));
            }
            match &self.services[i].1.volumes {
                Some(vols) => {
                    let ghost vols_view = vols@.map_values(|x: Volume| x@);
                    let m = required.len();
                    let mut j: usize = 0;
                    while j < m
                        invariant
                            j <= m,
                            m == required@.len(),
                            services_view == self@.services,
                            req_view == crate::config::docker_file::strings_view(required@),
                            i < self.services@.len(),
                            services_view[i as int].0 == self.services@[i as int].0@,
                            services_view[i as int].1.volumes == Some(vols_view),
                            self.services@[i as int].1.volumes == Some(*vols),
                            vols_view == vols@.map_values(|x: Volume| x@),
                            spec_validate_vols(services_view, req_view, 0) == spec_validate_vols(
                                services_view,
                                req_view,
                                i as int,
                            ),
                            first_missing_volume(vols_view, req_view, 0) == first_missing_volume(
                                vols_view,
                                req_view,
                                j as int,
                            ),
                        decreases m - j,
                    {
                        proof {
                            assert(req_view[j as int] == required@[j as int]@);
                        }
                        let mut found = false;
                        let mut k: usize = 0;
                        while k < vols.len()
                            invariant
                                k <= vols@.len(),
                                vols_view == vols@.map_values(|x: Volume| x@),
                                j < required@.len(),
                                req_view == crate::config::docker_file::strings_view(required@),
                                req_view[j as int] == required@[j as int]@,
                                found ==> exists|q: int|
                                    0 <= q < vols_view.len() && vol_matches(
                                        #[trigger] vols_view[q],
                                        req_view[j as int],
                                    ),
                                !found ==> forall|q: int|
                                    0 <= q < k ==> !vol_matches(
                                        #[trigger] vols_view[q],
                                        req_view[j as int],
                                    ),
                            decreases vols@.len() - k,
                        {
                            proof {
                                assert(vols_view[k as int] == vols@[k as int]@);
                            }
                            if vols[k].matches_name(required[j].as_str()) {
                                found = true;
                            }
                            k = k + 1;
                        }
                        if !found {
                            let mut out: Vec<char> = Vec::new();
                            crate::config::docker_file::append_str(&mut out, "Service '");
                            crate::config::docker_file::append_string(
                                &mut out,
                                &self.services[i].0,
                            );
                            crate::config::docker_file::append_str(
                                &mut out,
                                "' is missing required volume: ",
                            );
                            crate::config::docker_file::append_string(&mut out, &required[j]);
                            proof {
                                reveal_strlit("Service '");
                                reveal_strlit("' is missing required volume: ");
                            }
                            return Err(
                                DockerError::ValidationError(crate::text::string_of(&out)),
                            );
                        }
                        j = j + 1;
                    }
                },
                None => {},
            }
            i = i + 1;
        }
        Ok(())
    }
}



impl ComposeConfig {
    /// Executable test of the manifest's invariant — unique service names,
    /// unique volume names, unique keys in every environment — so a caller
    /// outside the proofs can check it before using the resolver or the
    /// collector.
    pub fn is_well_formed(&self) -> (r: bool)
        ensures
            r == self.wf(),
    {
        let n = self.services.len();
        let mut i: usize = 0;
        while i < n
            invariant
                i <= n,
                n == self.services@.len(),
                forall|a: int, b: int|
                    0 <= a < b < i ==> (#[trigger] self.services@[a]).0@ != (
                    #[trigger] self.services@[b]).0@,
                forall|j: int| 0 <= j < i ==> (#[trigger] self.services@[j]).1.wf(),
            decreases n - i,
        {
            let mut j: usize = 0;
            while j < i
                invariant
                    j <= i,
                    i < n,
                    n == self.services@.len(),
                    forall|a: int|
                        0 <= a < j ==> (#[trigger] self.services@[a]).0@ != self.services@[
                        i as int].0@,
                decreases i - j,
            {
                if str_eq(self.services[j].0.as_str(), self.services[i].0.as_str()) {
                    proof {
                        assert(svc_names(self.services@)[j as int] == svc_names(
                            self.services@,
                        )[i as int]);
                    }
                    return false;
                }
                j = j + 1;
            }
            match &self.services[i].1.environment {
                None => {},
                Some(env) => {
                    let m = env.entries.len();
                    let mut a: usize = 0;
                    while a < m
                        invariant
                            a <= m,
                            i < n,
                            n == self.services@.len(),
                            m == env.entries@.len(),
                            self.services@[i as int].1.environment == Some(*env),
                            forall|x: int, y: int|
                                0 <= x < y < a ==> (#[trigger] env.entries@[x]).0@ != (
                                #[trigger] env.entries@[y]).0@,
                        decreases m - a,
                    {
                        let mut b: usize = 0;
                        while b < a
                            invariant
                                b <= a,
                                a < m,
                                i < n,
                                n == self.services@.len(),
                                m == env.entries@.len(),
                                self.services@[i as int].1.environment == Some(*env),
                                forall|x: int|
                                    0 <= x < b ==> (#[trigger] env.entries@[x]).0@ != env.entries@[
                                    a as int].0@,
                            decreases a - b,
                        {
                            if str_eq(env.entries[b].0.as_str(), env.entries[a].0.as_str()) {
                                proof {
                                    assert(!crate::config::env_vars::unique_keys(env.entries@));
                                    assert(!self.services@[i as int].1.wf());
                                }
                                return false;
                            }
                            b = b + 1;
                        }
                        a = a + 1;
                    }
                    proof {
                        assert(crate::config::env_vars::unique_keys(env.entries@)) by {
                            assert forall|x: int, y: int|
                                0 <= x < y < env.entries@.len() implies (#[trigger] env.entries@[
                                x]).0@ != (#[trigger] env.entries@[y]).0@ by {}
                        }
                        assert(self.services@[i as int].1.wf());
                    }
                },
            }
            i = i + 1;
        }
        proof {
            assert(svc_names(self.services@).no_duplicates()) by {
                let names = svc_names(self.services@);
                assert forall|a: int, b: int| 0 <= a < b < names.len() implies names[a]
                    != names[b] by {
                    assert(names[a] == self.services@[a].0@);
                    assert(names[b] == self.services@[b].0@);
                }
            }
        }
        let nv = self.volumes.len();
        let mut i: usize = 0;
        while i < nv
            invariant
                i <= nv,
                nv == self.volumes@.len(),
                svc_names(self.services@).no_duplicates(),
                forall|j: int| 0 <= j < self.services@.len() ==> (#[trigger] self.services@[j]).1.wf(),
                forall|a: int, b: int|
                    0 <= a < b < i ==> (#[trigger] self.volumes@[a]).0@ != (
                    #[trigger] self.volumes@[b]).0@,
            decreases nv - i,
        {
            let mut j: usize = 0;
            while j < i
                invariant
                    j <= i,
                    i < nv,
                    nv == self.volumes@.len(),
                    forall|a: int|
                        0 <= a < j ==> (#[trigger] self.volumes@[a]).0@ != self.volumes@[
                        i as int].0@,
                decreases i - j,
            {
                if str_eq(self.volumes[j].0.as_str(), self.volumes[i].0.as_str()) {
                    proof {
                        let vn = self.volumes@.map_values(|p: (String, Volume)| p.0@);
                        assert(vn[j as int] == vn[i as int]);
                    }
                    return false;
                }
                j = j + 1;
            }
            i = i + 1;
        }
        proof {
            let vn = self.volumes@.map_values(|p: (String, Volume)| p.0@);
            assert(vn.no_duplicates()) by {
                assert forall|a: int, b: int| 0 <= a < b < vn.len() implies vn[a] != vn[b] by {
                    assert(vn[a] == self.volumes@[a].0@);
                    assert(vn[b] == self.volumes@[b].0@);
                }
            }
        }
        true
    }
}

/// Whether `name` occurs in `list`.
pub(crate) fn name_in(list: &Vec<String>, name: &String) -> (r: bool)
    ensures
        r == list@.map_values(|s: String| s@).contains(name@),
{
    let n = list.len();
    let mut i: usize = 0;
    while i < n
        invariant
            i <= n,
            n == list@.len(),
            forall|j: int| 0 <= j < i ==> (#[trigger] list@[j])@ != name@,
        decreases n - i,
    {
        if str_eq(list[i].as_str(), name.as_str()) {
            proof {
                assert(list@.map_values(|s: String| s@)[i as int] == name@);
            }
            return true;
        }
        i = i + 1;
    }
    proof {
        let mapped = list@.map_values(|s: String| s@);
        assert forall|j: int| 0 <= j < mapped.len() implies #[trigger] mapped[j] != name@ by {
            assert(mapped[j] == list@[j]@);
        }
    }
    false
}

} // verus!
