//! In-place resolution of variable references over a parsed manifest — the
//! same fixed-order substitution as the whole-text pass, applied field by
//! field — and the lifting of referenced named volumes into the top-level
//! volume map.

use vstd::prelude::*;

use crate::config::compose::{
    ComposeConfig, ComposeConfigView, Service, ServiceView, name_in, service_view, svc_names,
};
use crate::config::env_vars::{EnvironmentVars, clone_string};
use crate::config::volume::{Volume, VolumeView};
use crate::text::{chars_of, split_all, split_all_vec, string_of, subvec};

verus! {

/// Resolve the variable references of one value: the same fixed-order
/// substitution that runs over the whole manifest text, so a set but empty
/// variable falls back to its default.
pub fn resolve_env_value(value: &str, env_vars: &EnvironmentVars) -> (r: String)
    requires
        env_vars.wf(),
    ensures
        r@ == crate::parser::env::substituted(value@, env_vars@),
{
    crate::parser::env::substitute_env_vars(value, env_vars)
}

/// A volume with its strings resolved: a named volume's whole name, a bind
/// mount's source and target, a definition's name, driver and driver-option
/// values.
pub open spec fn resolved_volume(v: VolumeView, vars: Map<Seq<char>, Seq<char>>) -> VolumeView {
    match v {
        VolumeView::Named(n) => VolumeView::Named(crate::parser::env::substituted(n, vars)),
        VolumeView::Bind { source, target, read_only } => VolumeView::Bind {
            source: crate::parser::env::substituted(source, vars),
            target: crate::parser::env::substituted(target, vars),
            read_only,
        },
        VolumeView::Config { name, driver, driver_opts } => VolumeView::Config {
            name: crate::parser::env::substituted(name, vars),
            driver: match driver {
                Some(d) => Some(crate::parser::env::substituted(d, vars)),
                None => None,
            },
            driver_opts: match driver_opts {
                Some(opts) => Some(
                    opts.map_values(
                        |p: (Seq<char>, Seq<char>)| (p.0, crate::parser::env::substituted(p.1, vars)),
                    ),
                ),
                None => None,
            },
        },
    }
}

/// An environment map with every value resolved, keys kept.
pub open spec fn resolved_env_map(
    m: Map<Seq<char>, Seq<char>>,
    vars: Map<Seq<char>, Seq<char>>,
) -> Map<Seq<char>, Seq<char>> {
    Map::<Seq<char>, Seq<char>>::new(
        |k: Seq<char>| m.contains_key(k),
        |k: Seq<char>| crate::parser::env::substituted(m[k], vars),
    )
}

/// A service with its environment values and volume strings resolved; every
/// other field stands unchanged.
pub open spec fn resolved_service(sv: ServiceView, vars: Map<Seq<char>, Seq<char>>) -> ServiceView {
    ServiceView {
        environment: match sv.environment {
            Some(m) => Some(resolved_env_map(m, vars)),
            None => None,
        },
        volumes: match sv.volumes {
            Some(vs) => Some(vs.map_values(|vv: VolumeView| resolved_volume(vv, vars))),
            None => None,
        },
        ..sv
    }
}

/// A manifest with every service and top-level volume resolved.
pub open spec fn resolved_config(
    c: ComposeConfigView,
    vars: Map<Seq<char>, Seq<char>>,
) -> ComposeConfigView {
    ComposeConfigView {
        version: c.version,
        services: c.services.map_values(
            |p: (Seq<char>, ServiceView)| (p.0, resolved_service(p.1, vars)),
        ),
        volumes: c.volumes.map_values(
            |p: (Seq<char>, VolumeView)| (p.0, resolved_volume(p.1, vars)),
        ),
    }
}

/// Resolve one owned volume.
fn resolve_volume_exec(v: Volume, env_vars: &EnvironmentVars) -> (r: Volume)
    requires
        env_vars.wf(),
    ensures
        r@ == resolved_volume(v@, env_vars@),
{
    match v {
        Volume::Named(n) => Volume::Named(resolve_env_value(n.as_str(), env_vars)),
        Volume::Bind { source, target, read_only } => Volume::Bind {
            source: resolve_env_value(source.as_str(), env_vars),
            target: resolve_env_value(target.as_str(), env_vars),
            read_only,
        },
        Volume::Config { name, driver, driver_opts } => {
            let new_opts: Option<Vec<(String, String)>> = match driver_opts {
                Some(mut opts) => {
                    let ghost orig = opts@;
                    let mut done: Vec<(String, String)> = Vec::new();
                    while opts.len() > 0
                        invariant
                            env_vars.wf(),
                            done@.len() + opts@.len() == orig.len(),
                            opts@ == orig.subrange(done@.len() as int, orig.len() as int),
                            forall|j: int|
                                0 <= j < done@.len() ==> (#[trigger] done@[j]).0 == orig[j].0
                                    && done@[j].1@ == crate::parser::env::substituted(orig[j].1@, env_vars@),
                        decreases opts@.len(),
                    {
                        let ghost before = opts@;
                        let (key, val) = opts.remove(0);
                        let resolved = resolve_env_value(val.as_str(), env_vars);
                        done.push((key, resolved));
                        proof {
                            assert(opts@ =~= orig.subrange(done@.len() as int, orig.len() as int));
                        }
                    }
                    proof {
                        assert(crate::config::docker_file::pairs_view(done@)
                            =~~= crate::config::docker_file::pairs_view(orig).map_values(
                            |p: (Seq<char>, Seq<char>)| (p.0, crate::parser::env::substituted(p.1, env_vars@)),
                        ));
                    }
                    Some(done)
                },
                None => None,
            };
            Volume::Config {
                name: resolve_env_value(name.as_str(), env_vars),
                driver: match driver {
                    Some(d) => Some(resolve_env_value(d.as_str(), env_vars)),
                    None => None,
                },
                driver_opts: new_opts,
            }
        },
    }
}

/// Resolve one owned service.
fn resolve_service_exec(svc: Service, env_vars: &EnvironmentVars) -> (r: Service)
    requires
        svc.wf(),
        env_vars.wf(),
    ensures
        r@ == resolved_service(svc@, env_vars@),
        r.wf(),
{
    let Service {
        image,
        build,
        command,
        environment,
        env_file,
        volumes,
        depends_on,
        ports,
        networks,
        requirements,
        healthcheck,
        restart,
        user,
        labels,
        platform,
    } = svc;
    let environment: Option<EnvironmentVars> = match environment {
        Some(mut env) => {
            let ghost orig_entries = env.entries@;
            let ghost orig_map = env@;
            let n = env.len();
            let mut i: usize = 0;
            while i < n
                invariant
                    i <= n,
                    env.wf(),
                    env_vars.wf(),
                    n == env.entries@.len(),
                    orig_entries.len() == n,
                    crate::config::env_vars::unique_keys(orig_entries),
                    orig_map == crate::config::env_vars::assoc_map(orig_entries),
                    forall|j: int|
                        0 <= j < n ==> (#[trigger] env.entries@[j]).0 == orig_entries[j].0,
                    forall|j: int|
                        0 <= j < i ==> (#[trigger] env.entries@[j]).1@ == crate::parser::env::substituted(
                            orig_entries[j].1@,
                            env_vars@,
                        ),
                    forall|j: int|
                        i <= j < n ==> (#[trigger] env.entries@[j]).1 == orig_entries[j].1,
                decreases n - i,
            {
                let resolved = resolve_env_value(env.entries[i].1.as_str(), env_vars);
                env.set_value(i, resolved);
                i = i + 1;
            }
            proof {
                crate::config::env_vars::lemma_assoc_map_value_transform(
                    orig_entries,
                    env.entries@,
                    |val: Seq<char>| crate::parser::env::substituted(val, env_vars@),
                );
                assert(env@ =~= resolved_env_map(orig_map, env_vars@));
            }
            Some(env)
        },
        None => None,
    };
    let volumes: Option<Vec<Volume>> = match volumes {
        Some(mut vs) => {
            let ghost orig = vs@;
            let mut done: Vec<Volume> = Vec::new();
            while vs.len() > 0
                invariant
                    env_vars.wf(),
                    done@.len() + vs@.len() == orig.len(),
                    vs@ == orig.subrange(done@.len() as int, orig.len() as int),
                    forall|j: int|
                        0 <= j < done@.len() ==> (#[trigger] done@[j])@ == resolved_volume(
                            orig[j]@,
                            env_vars@,
                        ),
                decreases vs@.len(),
            {
                let vol = vs.remove(0);
                done.push(resolve_volume_exec(vol, env_vars));
                proof {
                    assert(vs@ =~= orig.subrange(done@.len() as int, orig.len() as int));
                }
            }
            proof {
                assert(done@.map_values(|x: Volume| x@) =~= orig.map_values(
                    |x: Volume| x@,
                ).map_values(|vv: VolumeView| resolved_volume(vv, env_vars@)));
            }
            Some(done)
        },
        None => None,
    };
    Service {
        image,
        build,
        command,
        environment,
        env_file,
        volumes,
        depends_on,
        ports,
        networks,
        requirements,
        healthcheck,
        restart,
        user,
        labels,
        platform,
    }
}


/// The name a referenced named volume is keyed by: the text before its
/// first `:`.
pub open spec fn named_key(n: Seq<char>) -> Seq<char> {
    split_all(n, ':')[0]
}

/// The named volumes collected from one service's volume list: each named
/// volume whose key is not yet present is appended under its key, first
/// reference winning.
pub open spec fn collect_vols(
    vols: Seq<VolumeView>,
    j: int,
    have: Seq<Seq<char>>,
    acc: Seq<(Seq<char>, VolumeView)>,
) -> (Seq<Seq<char>>, Seq<(Seq<char>, VolumeView)>)
    recommends
        0 <= j <= vols.len(),
    decreases vols.len() - j when 0 <= j <= vols.len()
{
    if j >= vols.len() {
        (have, acc)
    } else {
        match vols[j] {
            VolumeView::Named(n) => {
                let k = named_key(n);
                if have.contains(k) {
                    collect_vols(vols, j + 1, have, acc)
                } else {
                    collect_vols(vols, j + 1, have.push(k), acc.push((k, VolumeView::Named(n))))
                }
            },
            _ => collect_vols(vols, j + 1, have, acc),
        }
    }
}

/// The named volumes collected from all the services, in order.
pub open spec fn collect_services(
    services: Seq<(Seq<char>, ServiceView)>,
    i: int,
    have: Seq<Seq<char>>,
    acc: Seq<(Seq<char>, VolumeView)>,
) -> (Seq<Seq<char>>, Seq<(Seq<char>, VolumeView)>)
    recommends
        0 <= i <= services.len(),
    decreases services.len() - i when 0 <= i <= services.len()
{
    if i >= services.len() {
        (have, acc)
    } else {
        match services[i].1.volumes {
            Some(vs) => {
                let p = collect_vols(vs, 0, have, acc);
                collect_services(services, i + 1, p.0, p.1)
            },
            None => collect_services(services, i + 1, have, acc),
        }
    }
}

/// The names of the top-level volumes, in order.
pub open spec fn volume_names(volumes: Seq<(Seq<char>, VolumeView)>) -> Seq<Seq<char>> {
    volumes.map_values(|p: (Seq<char>, VolumeView)| p.0)
}

impl ComposeConfig {
    /// Resolve the variable references held in the document: every service
    /// environment value and every volume string, in place; everything else
    /// stands unchanged.
    pub fn resolve_env(&mut self, env_vars: &EnvironmentVars)
        requires
            old(self).wf(),
            env_vars.wf(),
        ensures
            final(self).wf(),
            final(self)@ == resolved_config(old(self)@, env_vars@),
    {
        let ghost orig = old(self).services@;
        let mut done: Vec<(String, Service)> = Vec::new();
        while self.services.len() > 0
            invariant
                env_vars.wf(),
                self.version == old(self).version,
                self.volumes == old(self).volumes,
                done@.len() + self.services@.len() == orig.len(),
                self.services@ == orig.subrange(done@.len() as int, orig.len() as int),
                forall|j: int|
                    0 <= j < orig.len() ==> (#[trigger] orig[j]).1.wf() && orig[j].1
                        == old(self).services@[j].1,
                svc_names(orig).no_duplicates(),
                forall|j: int|
                    0 <= j < done@.len() ==> (#[trigger] done@[j]).0 == orig[j].0 && service_view(
                        done@[j].1,
                    ) == resolved_service(service_view(orig[j].1), env_vars@) && done@[j].1.wf(),
            decreases self.services@.len(),
        {
            let ghost k = done@.len();
            let (name, svc) = self.services.remove(0);
            proof {
                assert(orig.subrange(k as int, orig.len() as int)[0] == orig[k as int]);
                assert(svc == orig[k as int].1);
                assert(svc.wf());
            }
            let resolved = resolve_service_exec(svc, env_vars);
            done.push((name, resolved));
            proof {
                assert(self.services@ =~= orig.subrange(done@.len() as int, orig.len() as int));
            }
        }
        self.services = done;
        let ghost origv = old(self).volumes@;
        let mut vdone: Vec<(String, Volume)> = Vec::new();
        while self.volumes.len() > 0
            invariant
                env_vars.wf(),
                self.version == old(self).version,
                self.services@.len() == orig.len(),
                forall|j: int|
                    0 <= j < orig.len() ==> (#[trigger] self.services@[j]).0 == orig[j].0
                        && service_view(self.services@[j].1) == resolved_service(
                        service_view(orig[j].1),
                        env_vars@,
                    ) && self.services@[j].1.wf(),
                svc_names(orig).no_duplicates(),
                forall|j: int| 0 <= j < orig.len() ==> (#[trigger] orig[j]).1 == old(self).services@[j].1 && orig[j].0 == old(self).services@[j].0,
                vdone@.len() + self.volumes@.len() == origv.len(),
                self.volumes@ == origv.subrange(vdone@.len() as int, origv.len() as int),
                forall|j: int|
                    0 <= j < vdone@.len() ==> (#[trigger] vdone@[j]).0 == origv[j].0 && vdone@[
                        j].1@ == resolved_volume(origv[j].1@, env_vars@),
            decreases self.volumes@.len(),
        {
            let ghost k = vdone@.len();
            let (name, vol) = self.volumes.remove(0);
            proof {
                assert(origv.subrange(k as int, origv.len() as int)[0] == origv[k as int]);
                assert(vol == origv[k as int].1);
            }
            let resolved = resolve_volume_exec(vol, env_vars);
            vdone.push((name, resolved));
            proof {
                assert(self.volumes@ =~= origv.subrange(vdone@.len() as int, origv.len() as int));
            }
        }
        self.volumes = vdone;
        proof {
            assert(self@.services =~= resolved_config(old(self)@, env_vars@).services);
            assert(self@.volumes =~= resolved_config(old(self)@, env_vars@).volumes);
            assert(svc_names(self.services@) =~= svc_names(old(self).services@));
            assert(self.volumes@.map_values(|p: (String, Volume)| p.0@) =~= old(self).volumes@
                .map_values(|p: (String, Volume)| p.0@));
        }
    }

    /// Lift every named volume a service references, keyed by the text
    /// before its first `:`, into the top-level volumes, first reference
    /// winning; entries already present keep their values.
    pub fn collect_volumes(&mut self)
        requires
            old(self).wf(),
        ensures
            final(self).wf(),
            final(self)@.services == old(self)@.services,
            final(self).version == old(self).version,
            final(self)@.volumes == old(self)@.volumes + collect_services(
                old(self)@.services,
                0,
                volume_names(old(self)@.volumes),
                Seq::empty(),
            ).1,
    {
        let ghost services_view = self@.services;
        let ghost have0 = volume_names(self@.volumes);
        let mut have: Vec<String> = Vec::new();
        let nv = self.volumes.len();
        let mut i: usize = 0;
        while i < nv
            invariant
                i <= nv,
                nv == self.volumes@.len(),
                self.volumes == old(self).volumes,
                have@.len() == i,
                forall|j: int| 0 <= j < i ==> (#[trigger] have@[j])@ == self.volumes@[j].0@,
            decreases nv - i,
        {
            have.push(clone_string(&self.volumes[i].0));
            i = i + 1;
        }
        proof {
            assert(have@.map_values(|s: String| s@) =~= have0);
            assert(have0 =~= self.volumes@.map_values(|p: (String, Volume)| p.0@));
        }
        let mut adds: Vec<(String, Volume)> = Vec::new();
        let n = self.services.len();
        let mut i: usize = 0;
        proof {
            assert(crate::config::docker_file::pairs_view(Seq::<(String, String)>::empty())
                =~= Seq::<(Seq<char>, Seq<char>)>::empty());
            assert(adds@.map_values(|p: (String, Volume)| (p.0@, p.1@)) =~= Seq::<(
                Seq<char>,
                VolumeView,
            )>::empty());
        }
        while i < n
            invariant
                i <= n,
                n == self.services@.len(),
                self.services == old(self).services,
                self.volumes == old(self).volumes,
                services_view == self@.services,
                have0 == volume_names(self@.volumes),
                collect_services(services_view, 0, have0, Seq::empty()) == collect_services(
                    services_view,
                    i as int,
                    have@.map_values(|s: String| s@),
                    adds@.map_values(|p: (String, Volume)| (p.0@, p.1@)),
                ),
                have@.map_values(|s: String| s@) == have0 + adds@.map_values(
                    |p: (String, Volume)| p.0@,
                ),
                old(self).wf() ==> have@.map_values(|s: String| s@).no_duplicates(),
            decreases n - i,
        {
            proof {
                assert(services_view[i as int] == (
                    self.services@[i as int].0@,
                    service_view(self.services@[i as int].1),
                ));
            }
            match &self.services[i].1.volumes {
                None => {},
                Some(vols) => {
                    let ghost vols_view = vols@.map_values(|x: Volume| x@);
                    let m = vols.len();
                    let mut j: usize = 0;
                    while j < m
                        invariant
                            j <= m,
                            m == vols@.len(),
                            self.services == old(self).services,
                            self.volumes == old(self).volumes,
                            services_view == self@.services,
                            have0 == volume_names(self@.volumes),
                            i < self.services@.len(),
                            services_view[i as int].1.volumes == Some(vols_view),
                            self.services@[i as int].1.volumes == Some(*vols),
                            vols_view == vols@.map_values(|x: Volume| x@),
                            collect_services(services_view, 0, have0, Seq::empty())
                                == collect_services(
                                services_view,
                                i + 1,
                                collect_vols(
                                    vols_view,
                                    j as int,
                                    have@.map_values(|s: String| s@),
                                    adds@.map_values(|p: (String, Volume)| (p.0@, p.1@)),
                                ).0,
                                collect_vols(
                                    vols_view,
                                    j as int,
                                    have@.map_values(|s: String| s@),
                                    adds@.map_values(|p: (String, Volume)| (p.0@, p.1@)),
                                ).1,
                            ),
                            have@.map_values(|s: String| s@) == have0 + adds@.map_values(
                                |p: (String, Volume)| p.0@,
                            ),
                            old(self).wf() ==> have@.map_values(|s: String| s@).no_duplicates(),
                        decreases m - j,
                    {
                        proof {
                            assert(vols_view[j as int] == vols@[j as int]@);
                        }
                        match &vols[j] {
                            Volume::Named(nm) => {
                                let nv = chars_of(nm.as_str());
                                let parts = split_all_vec(&nv, ':');
                                proof {
                                    assert(parts@.map_values(|p: Vec<char>| p@)[0] == split_all(
                                        nm@,
                                        ':',
                                    )[0]);
                                }
                                let key = string_of(&parts[0]);
                                if !name_in(&have, &key) {
                                    let ghost pre_have = have@.map_values(|s: String| s@);
                                    let ghost pre_adds = adds@.map_values(
                                        |p: (String, Volume)| (p.0@, p.1@),
                                    );
                                    have.push(clone_string(&key));
                                    adds.push((key, Volume::Named(clone_string(nm))));
                                    proof {
                                        assert(have@.map_values(|s: String| s@) =~= pre_have.push(
                                            named_key(nm@),
                                        ));
                                        assert(adds@.map_values(|p: (String, Volume)| (p.0@, p.1@))
                                            =~= pre_adds.push(
                                            (named_key(nm@), VolumeView::Named(nm@)),
                                        ));
                                        assert(have@.map_values(|s: String| s@) =~= have0
                                            + adds@.map_values(|p: (String, Volume)| p.0@));
                                        if old(self).wf() {
                                            assert(have@.map_values(
                                                |s: String| s@,
                                            ).no_duplicates()) by {
                                                let hs = have@.map_values(|s: String| s@);
                                                assert(hs.drop_last() =~= pre_have);
                                                assert(!pre_have.contains(named_key(nm@)));
                                                assert forall|a: int, b: int|
                                                    0 <= a < b < hs.len() implies hs[a]
                                                    != hs[b] by {
                                                    assert(hs[a] == pre_have[a]);
                                                    if b < hs.len() - 1 {
                                                        assert(hs[b] == pre_have[b]);
                                                    } else {
                                                        assert(pre_have.contains(pre_have[a]));
                                                    }
                                                }
                                            }
                                        }
                                    }
                                }
                            },
                            _ => {},
                        }
                        j = j + 1;
                    }
                },
            }
            i = i + 1;
        }
        let ghost final_adds = adds@.map_values(|p: (String, Volume)| (p.0@, p.1@));
        let ghost pre_volumes = self.volumes@;
        self.volumes.append(&mut adds);
        proof {
            assert(self@.volumes =~= old(self)@.volumes + final_adds);
            assert(collect_services(services_view, n as int, have@.map_values(|s: String| s@),
                final_adds) == (have@.map_values(|s: String| s@), final_adds));
            assert(self.volumes@.map_values(|p: (String, Volume)| p.0@) =~= have@.map_values(
                |s: String| s@,
            ));
            assert(svc_names(self.services@) == svc_names(old(self).services@));
        }
    }
}

} // verus!
