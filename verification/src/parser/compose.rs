//! The manifest parser: the surface syntaxes of the declarative format
//! normalized into the one typed document.
//!
//! The structural reading of the text is the outside reader's work (see
//! [`crate::yaml`]); everything after it — the string-or-list command form,
//! the map-or-list environment form, the three volume forms, the typed
//! service records and the required-variable check — is verified here
//! against exact specifications over the raw tree.

use vstd::prelude::*;

use crate::config::compose::{
    BuildConfig, BuildConfigView, ComposeConfig, Service, ServiceView, svc_names,
};
use crate::config::env_vars::EnvironmentVars;
use crate::config::health::{HealthCheck, HealthCheckView, Method};
use crate::config::requirements::{SystemRequirements, SystemRequirementsView};
use crate::config::volume::{Volume, VolumeView, short_volume, volume_from_short};
use crate::error::DockerError;
use crate::text::{
    chars_of, split_first, split_first_vec, string_of, subvec, trim, trim_char, trim_char_vec,
    trim_vec,
};
use crate::yaml::{RawValue, RawView, raw_get, raw_get_exec, raw_view};

verus! {

/// The environment map denoted by a mapping node: each value must be a
/// string; values are stripped of surrounding double quotes.
pub open spec fn spec_env_mapping(
    entries: Seq<(Seq<char>, RawView)>,
    i: int,
    acc: Map<Seq<char>, Seq<char>>,
) -> Result<Map<Seq<char>, Seq<char>>, Seq<char>>
    recommends
        0 <= i <= entries.len(),
    decreases entries.len() - i when 0 <= i <= entries.len()
{
    if i >= entries.len() {
        Ok(acc)
    } else {
        match entries[i].1 {
            RawView::Str(s) => spec_env_mapping(
                entries,
                i + 1,
                acc.insert(entries[i].0, trim_char(s, '"')),
            ),
            _ => Err("Environment value must be a string"@),
        }
    }
}

/// The environment map denoted by a sequence node: each item must be a
/// string; a `KEY=VALUE` item contributes a trimmed key and a trimmed,
/// quote-stripped value; an item without `=` contributes nothing.
pub open spec fn spec_env_list(
    items: Seq<RawView>,
    i: int,
    acc: Map<Seq<char>, Seq<char>>,
) -> Result<Map<Seq<char>, Seq<char>>, Seq<char>>
    recommends
        0 <= i <= items.len(),
    decreases items.len() - i when 0 <= i <= items.len()
{
    if i >= items.len() {
        Ok(acc)
    } else {
        match items[i] {
            RawView::Str(s) => match split_first(s, '=') {
                Some(kv) => spec_env_list(
                    items,
                    i + 1,
                    acc.insert(trim(kv.0), trim_char(trim(kv.1), '"')),
                ),
                None => spec_env_list(items, i + 1, acc),
            },
            _ => Err("Environment list item must be a string"@),
        }
    }
}

/// The environment map denoted by a raw node: a mapping or a sequence, both
/// normalized to one map.
pub open spec fn spec_env_from_raw(rv: RawView) -> Result<Map<Seq<char>, Seq<char>>, Seq<char>> {
    match rv {
        RawView::Mapping(entries) => spec_env_mapping(entries, 0, Map::empty()),
        RawView::List(items) => spec_env_list(items, 0, Map::empty()),
        _ => Err("Environment must be a mapping or sequence"@),
    }
}

/// Normalize a raw node into an environment map.
pub fn env_from_raw(raw: &RawValue) -> (r: Result<EnvironmentVars, DockerError>)
    ensures
        match r {
            Ok(env) => env.wf() && spec_env_from_raw(raw@) == Ok::<_, Seq<char>>(env@),
            Err(e) => spec_env_from_raw(raw@) is Err && e is YamlError && e.text()
                == spec_env_from_raw(raw@)->Err_0,
        },
{
    match raw {
        RawValue::Mapping(entries) => {
            let ghost entries_view = entries@.map_values(
                |e: (String, RawValue)| (e.0@, raw_view(e.1)),
            );
            proof {
                assert(raw_view(*raw)->Mapping_0 =~= entries_view);
            }
            let mut env = EnvironmentVars::new();
            let n = entries.len();
            let mut i: usize = 0;
            while i < n
                invariant
                    i <= n,
                    n == entries@.len(),
                    entries_view == entries@.map_values(
                        |e: (String, RawValue)| (e.0@, raw_view(e.1)),
                    ),
                    raw@ == RawView::Mapping(entries_view),
                    env.wf(),
                    spec_env_mapping(entries_view, 0, Map::empty()) == spec_env_mapping(
                        entries_view,
                        i as int,
                        env@,
                    ),
                decreases n - i,
            {
                proof {
                    assert(entries_view[i as int] == (
                        entries@[i as int].0@,
                        raw_view(entries@[i as int].1),
                    ));
                }
                match &entries[i].1 {
                    RawValue::Str(s) => {
                        let sv = chars_of(s.as_str());
                        let value = trim_char_vec(&sv, '"');
                        let key = crate::config::env_vars::clone_string(&entries[i].0);
                        env.insert(key, string_of(&value));
                    },
                    _ => {
                        let mut msg = String::new();
                        msg.append("Environment value must be a string");
                        proof {
                            reveal_strlit("Environment value must be a string");
                            reveal_strlit("");
                        }
                        return Err(DockerError::YamlError(msg));
                    },
                }
                i = i + 1;
            }
            Ok(env)
        },
        RawValue::List(items) => {
            let ghost items_view = items@.map_values(|x: RawValue| raw_view(x));
            let mut env = EnvironmentVars::new();
            let n = items.len();
            let mut i: usize = 0;
            proof {
                assert(raw_view(*raw)->List_0 =~= items_view);
            }
            while i < n
                invariant
                    i <= n,
                    n == items@.len(),
                    items_view == items@.map_values(|x: RawValue| raw_view(x)),
                    raw@ == RawView::List(items_view),
                    env.wf(),
                    spec_env_list(items_view, 0, Map::empty()) == spec_env_list(
                        items_view,
                        i as int,
                        env@,
                    ),
                decreases n - i,
            {
                proof {
                    assert(items_view[i as int] == raw_view(items@[i as int]));
                }
                match &items[i] {
                    RawValue::Str(s) => {
                        let sv = chars_of(s.as_str());
                        match split_first_vec(&sv, '=') {
                            Some(kv) => {
                                let key = trim_vec(&kv.0);
                                let value = trim_char_vec(&trim_vec(&kv.1), '"');
                                env.insert(string_of(&key), string_of(&value));
                            },
                            None => {},
                        }
                    },
                    _ => {
                        let mut msg = String::new();
                        msg.append("Environment list item must be a string");
                        proof {
                            reveal_strlit("Environment list item must be a string");
                            reveal_strlit("");
                        }
                        return Err(DockerError::YamlError(msg));
                    },
                }
                i = i + 1;
            }
            Ok(env)
        },
        _ => {
            let mut msg = String::new();
            msg.append("Environment must be a mapping or sequence");
            proof {
                reveal_strlit("Environment must be a mapping or sequence");
                reveal_strlit("");
            }
            Err(DockerError::YamlError(msg))
        },
    }
}

/// The command list denoted by a raw node: a string becomes the one-element
/// list, a sequence of strings stays itself, null is no command.
pub open spec fn spec_command_from_raw(rv: RawView) -> Result<
    Option<Seq<Seq<char>>>,
    Seq<char>,
> {
    match rv {
        RawView::Str(s) => Ok(Some(seq![s])),
        RawView::List(items) => match spec_string_items(items, 0, Seq::empty()) {
            Ok(ws) => Ok(Some(ws)),
            Err(_) => Err("Invalid command item"@),
        },
        RawView::Null => Ok(None),
        _ => Err("Invalid command format"@),
    }
}

/// The strings of a list of raw nodes, each of which must be a string.
pub open spec fn spec_string_items(
    items: Seq<RawView>,
    i: int,
    acc: Seq<Seq<char>>,
) -> Result<Seq<Seq<char>>, Seq<char>>
    recommends
        0 <= i <= items.len(),
    decreases items.len() - i when 0 <= i <= items.len()
{
    if i >= items.len() {
        Ok(acc)
    } else {
        match items[i] {
            RawView::Str(s) => spec_string_items(items, i + 1, acc.push(s)),
            _ => Err("expected a string"@),
        }
    }
}

/// Collect a list of raw strings.
fn string_items(items: &Vec<RawValue>) -> (r: Option<Vec<String>>)
    ensures
        ({
            let items_view = items@.map_values(|x: RawValue| raw_view(x));
            match r {
                Some(ws) => spec_string_items(items_view, 0, Seq::empty()) == Ok::<_, Seq<char>>(
                    crate::config::docker_file::strings_view(ws@),
                ),
                None => spec_string_items(items_view, 0, Seq::empty()) is Err,
            }
        }),
{
    let ghost items_view = items@.map_values(|x: RawValue| raw_view(x));
    let mut out: Vec<String> = Vec::new();
    let n = items.len();
    let mut i: usize = 0;
    proof {
        assert(crate::config::docker_file::strings_view(out@) =~= Seq::<Seq<char>>::empty());
    }
    while i < n
        invariant
            i <= n,
            n == items@.len(),
            items_view == items@.map_values(|x: RawValue| raw_view(x)),
            spec_string_items(items_view, 0, Seq::empty()) == spec_string_items(
                items_view,
                i as int,
                crate::config::docker_file::strings_view(out@),
            ),
        decreases n - i,
    {
        proof {
            assert(items_view[i as int] == raw_view(items@[i as int]));
        }
        match &items[i] {
            RawValue::Str(s) => {
                let ghost pre = out@;
                out.push(crate::config::env_vars::clone_string(s));
                proof {
                    assert(crate::config::docker_file::strings_view(out@)
                        =~= crate::config::docker_file::strings_view(pre).push(
                        items_view[i as int]->Str_0,
                    ));
                }
            },
            _ => {
                return None;
            },
        }
        i = i + 1;
    }
    Some(out)
}

/// Collect a list of raw strings, connecting the node's view.
fn string_items_checked(raw: &RawValue, items: &Vec<RawValue>) -> (r: Option<Vec<String>>)
    requires
        *raw == RawValue::List(*items),
    ensures
        ({
            let items_view = raw_view(*raw)->List_0;
            match r {
                Some(ws) => spec_string_items(items_view, 0, Seq::empty()) == Ok::<_, Seq<char>>(
                    crate::config::docker_file::strings_view(ws@),
                ),
                None => spec_string_items(items_view, 0, Seq::empty()) is Err,
            }
        }),
{
    proof {
        assert(raw_view(*raw)->List_0 =~= items@.map_values(|x: RawValue| raw_view(x)));
    }
    string_items(items)
}

/// Normalize a raw node into an optional command list.
pub fn command_from_raw(raw: &RawValue) -> (r: Result<Option<Vec<String>>, DockerError>)
    ensures
        match r {
            Ok(Some(ws)) => spec_command_from_raw(raw@) == Ok::<_, Seq<char>>(
                Some(crate::config::docker_file::strings_view(ws@)),
            ),
            Ok(None) => spec_command_from_raw(raw@) == Ok::<Option<Seq<Seq<char>>>, Seq<char>>(
                None,
            ),
            Err(e) => spec_command_from_raw(raw@) is Err && e is YamlError && e.text()
                == spec_command_from_raw(raw@)->Err_0,
        },
{
    match raw {
        RawValue::Str(s) => {
            let mut out: Vec<String> = Vec::new();
            out.push(crate::config::env_vars::clone_string(s));
            proof {
                assert(crate::config::docker_file::strings_view(out@) =~= seq![s@]);
            }
            Ok(Some(out))
        },
        RawValue::List(items) => match string_items_checked(raw, items) {
            Some(ws) => Ok(Some(ws)),
            None => {
                let mut msg = String::new();
                msg.append("Invalid command item");
                proof {
                    reveal_strlit("Invalid command item");
                    reveal_strlit("");
                }
                Err(DockerError::YamlError(msg))
            },
        },
        RawValue::Null => Ok(None),
        _ => {
            let mut msg = String::new();
            msg.append("Invalid command format");
            proof {
                reveal_strlit("Invalid command format");
                reveal_strlit("");
            }
            Err(DockerError::YamlError(msg))
        },
    }
}


/// The string pairs of a mapping node whose values must all be strings.
pub open spec fn spec_string_map_items(
    entries: Seq<(Seq<char>, RawView)>,
    i: int,
    acc: Seq<(Seq<char>, Seq<char>)>,
) -> Result<Seq<(Seq<char>, Seq<char>)>, Seq<char>>
    recommends
        0 <= i <= entries.len(),
    decreases entries.len() - i when 0 <= i <= entries.len()
{
    if i >= entries.len() {
        Ok(acc)
    } else {
        match entries[i].1 {
            RawView::Str(s) => spec_string_map_items(entries, i + 1, acc.push((entries[i].0, s))),
            _ => Err("expected a mapping of strings"@),
        }
    }
}

/// Collect a mapping of raw strings.
fn string_map_items(entries: &Vec<(String, RawValue)>) -> (r: Option<Vec<(String, String)>>)
    ensures
        ({
            let entries_view = entries@.map_values(|e: (String, RawValue)| (e.0@, raw_view(e.1)));
            match r {
                Some(ps) => spec_string_map_items(entries_view, 0, Seq::empty()) == Ok::<
                    _,
                    Seq<char>,
                >(crate::config::docker_file::pairs_view(ps@)),
                None => spec_string_map_items(entries_view, 0, Seq::empty()) is Err,
            }
        }),
{
    let ghost entries_view = entries@.map_values(|e: (String, RawValue)| (e.0@, raw_view(e.1)));
    let mut out: Vec<(String, String)> = Vec::new();
    let n = entries.len();
    let mut i: usize = 0;
    proof {
        assert(crate::config::docker_file::pairs_view(out@) =~= Seq::<(
            Seq<char>,
            Seq<char>,
        )>::empty());
    }
    while i < n
        invariant
            i <= n,
            n == entries@.len(),
            entries_view == entries@.map_values(|e: (String, RawValue)| (e.0@, raw_view(e.1))),
            spec_string_map_items(entries_view, 0, Seq::empty()) == spec_string_map_items(
                entries_view,
                i as int,
                crate::config::docker_file::pairs_view(out@),
            ),
        decreases n - i,
    {
        proof {
            assert(entries_view[i as int] == (
                entries@[i as int].0@,
                raw_view(entries@[i as int].1),
            ));
        }
        match &entries[i].1 {
            RawValue::Str(s) => {
                let ghost pre = out@;
                out.push(
                    (
                        crate::config::env_vars::clone_string(&entries[i].0),
                        crate::config::env_vars::clone_string(s),
                    ),
                );
                proof {
                    assert(crate::config::docker_file::pairs_view(out@)
                        =~= crate::config::docker_file::pairs_view(pre).push(
                        (entries_view[i as int].0, entries_view[i as int].1->Str_0),
                    ));
                }
            },
            _ => {
                return None;
            },
        }
        i = i + 1;
    }
    Some(out)
}

/// Whether the long volume form applies to a mapping: `source` and `target`
/// present as strings, `read_only` absent or boolean, `type` absent, null or
/// a string.
pub open spec fn long_form_ok(m: Seq<(Seq<char>, RawView)>) -> bool {
    &&& raw_get(m, "source"@) matches Some(RawView::Str(_))
    &&& raw_get(m, "target"@) matches Some(RawView::Str(_))
    &&& match raw_get(m, "read_only"@) {
        None => true,
        Some(RawView::Bool(_)) => true,
        _ => false,
    }
    &&& match raw_get(m, "type"@) {
        None => true,
        Some(RawView::Null) => true,
        Some(RawView::Str(_)) => true,
        _ => false,
    }
}

/// Whether the top-level volume-definition form applies to a mapping:
/// `driver` absent, null or a string; `driver_opts` absent, null or a
/// mapping of strings.
pub open spec fn top_level_ok(m: Seq<(Seq<char>, RawView)>) -> bool {
    &&& match raw_get(m, "driver"@) {
        None => true,
        Some(RawView::Null) => true,
        Some(RawView::Str(_)) => true,
        _ => false,
    }
    &&& match raw_get(m, "driver_opts"@) {
        None => true,
        Some(RawView::Null) => true,
        Some(RawView::Mapping(es)) => spec_string_map_items(es, 0, Seq::empty()) is Ok,
        _ => false,
    }
}

/// The volume denoted by a raw node.  A string is the short form; a mapping
/// with a string `source` and `target` is the long form, whose `type` must
/// be `bind`, `volume` or absent; any other mapping is a top-level volume
/// definition; null is an empty definition.
pub open spec fn spec_volume_from_raw(rv: RawView) -> Result<VolumeView, Seq<char>> {
    match rv {
        RawView::Str(s) => Ok(short_volume(s)),
        RawView::Null => Ok(VolumeView::Config { name: Seq::empty(), driver: None, driver_opts: None }),
        RawView::Mapping(m) => {
            if long_form_ok(m) {
                let source = raw_get(m, "source"@)->Some_0->Str_0;
                let target = raw_get(m, "target"@)->Some_0->Str_0;
                let ro = match raw_get(m, "read_only"@) {
                    Some(RawView::Bool(b)) => b,
                    _ => false,
                };
                match raw_get(m, "type"@) {
                    Some(RawView::Str(t)) => if t == "bind"@ {
                        Ok(VolumeView::Bind { source, target, read_only: ro })
                    } else if t == "volume"@ {
                        Ok(
                            VolumeView::Named(
                                if ro {
                                    source + ":"@ + target + ":ro"@
                                } else {
                                    source + ":"@ + target
                                },
                            ),
                        )
                    } else {
                        Err("Invalid volume type: "@ + t)
                    },
                    _ => Ok(
                        VolumeView::Named(
                            if ro {
                                source + ":"@ + target + ":ro"@
                            } else {
                                source + ":"@ + target
                            },
                        ),
                    ),
                }
            } else if top_level_ok(m) {
                Ok(
                    VolumeView::Config {
                        name: Seq::empty(),
                        driver: match raw_get(m, "driver"@) {
                            Some(RawView::Str(d)) => Some(d),
                            _ => None,
                        },
                        driver_opts: match raw_get(m, "driver_opts"@) {
                            Some(RawView::Mapping(es)) => Some(
                                spec_string_map_items(es, 0, Seq::empty())->Ok_0,
                            ),
                            _ => None,
                        },
                    },
                )
            } else {
                Err("data did not match any variant of untagged enum VolumeInput"@)
            }
        },
        _ => Err("data did not match any variant of untagged enum VolumeInput"@),
    }
}

/// Normalize a raw node into a volume.
pub fn volume_from_raw(raw: &RawValue) -> (r: Result<Volume, DockerError>)
    ensures
        match r {
            Ok(v) => spec_volume_from_raw(raw@) == Ok::<_, Seq<char>>(v@),
            Err(e) => spec_volume_from_raw(raw@) is Err && e is YamlError && e.text()
                == spec_volume_from_raw(raw@)->Err_0,
        },
{
    match raw {
        RawValue::Str(s) => {
            let sv = chars_of(s.as_str());
            Ok(volume_from_short(&sv))
        },
        RawValue::Null => {
            Ok(Volume::Config { name: String::new(), driver: None, driver_opts: None })
        },
        RawValue::Mapping(entries) => {
            let ghost m = entries@.map_values(|e: (String, RawValue)| (e.0@, raw_view(e.1)));
            proof {
                assert(raw_view(*raw)->Mapping_0 =~= m);
            }
            let source_v = raw_get_exec(entries, "source");
            let target_v = raw_get_exec(entries, "target");
            let ro_v = raw_get_exec(entries, "read_only");
            let type_v = raw_get_exec(entries, "type");
            let source_s: Option<&String> = match source_v {
                Some(RawValue::Str(s)) => Some(s),
                _ => None,
            };
            let target_s: Option<&String> = match target_v {
                Some(RawValue::Str(s)) => Some(s),
                _ => None,
            };
            let ro_ok: bool = match ro_v {
                None => true,
                Some(RawValue::Bool(_)) => true,
                _ => false,
            };
            let type_ok: bool = match type_v {
                None => true,
                Some(RawValue::Null) => true,
                Some(RawValue::Str(_)) => true,
                _ => false,
            };
            if source_s.is_some() && target_s.is_some() && ro_ok && type_ok {
                assert(long_form_ok(m));
                let source = crate::config::env_vars::clone_string(source_s.unwrap());
                let target = crate::config::env_vars::clone_string(target_s.unwrap());
                let ro: bool = match ro_v {
                    Some(RawValue::Bool(b)) => *b,
                    _ => false,
                };
                match type_v {
                    Some(RawValue::Str(t)) => {
                        if crate::config::env_vars::str_eq(t.as_str(), "bind") {
                            proof {
                                reveal_strlit("bind");
                            }
                            Ok(Volume::Bind { source, target, read_only: ro })
                        } else if crate::config::env_vars::str_eq(t.as_str(), "volume") {
                            proof {
                                reveal_strlit("bind");
                                reveal_strlit("volume");
                            }
                            Ok(Volume::Named(join_volume_name(&source, &target, ro)))
                        } else {
                            proof {
                                reveal_strlit("bind");
                                reveal_strlit("volume");
                            }
                            let mut msg = String::new();
                            msg.append("Invalid volume type: ");
                            msg.append(t.as_str());
                            proof {
                                reveal_strlit("Invalid volume type: ");
                                reveal_strlit("");
                            }
                            Err(DockerError::YamlError(msg))
                        }
                    },
                    _ => Ok(Volume::Named(join_volume_name(&source, &target, ro))),
                }
            } else if exec_top_level_ok(entries) {
                let driver: Option<String> = match raw_get_exec(entries, "driver") {
                    Some(RawValue::Str(d)) => Some(crate::config::env_vars::clone_string(d)),
                    _ => None,
                };
                let opts_v = raw_get_exec(entries, "driver_opts");
                let driver_opts: Option<Vec<(String, String)>> = match opts_v {
                    Some(v) => match v {
                        RawValue::Mapping(es) => {
                            proof {
                                assert(raw_view(*v)->Mapping_0 =~= es@.map_values(
                                    |e: (String, RawValue)| (e.0@, raw_view(e.1)),
                                ));
                            }
                            match string_map_items(es) {
                                Some(ps) => Some(ps),
                                None => None,
                            }
                        },
                        _ => None,
                    },
                    None => None,
                };
                Ok(Volume::Config { name: String::new(), driver, driver_opts })
            } else {
                let mut msg = String::new();
                msg.append("data did not match any variant of untagged enum VolumeInput");
                proof {
                    reveal_strlit("data did not match any variant of untagged enum VolumeInput");
                    reveal_strlit("");
                }
                Err(DockerError::YamlError(msg))
            }
        },
        _ => {
            let mut msg = String::new();
            msg.append("data did not match any variant of untagged enum VolumeInput");
            proof {
                reveal_strlit("data did not match any variant of untagged enum VolumeInput");
                reveal_strlit("");
            }
            Err(DockerError::YamlError(msg))
        },
    }
}

/// The `source:target[:ro]` name of a long-form named volume.
fn join_volume_name(source: &String, target: &String, ro: bool) -> (r: String)
    ensures
        r@ == (if ro {
            source@ + ":"@ + target@ + ":ro"@
        } else {
            source@ + ":"@ + target@
        }),
{
    let mut out = chars_of(source.as_str());
    let mut colon = chars_of(":");
    out.append(&mut colon);
    let mut t = chars_of(target.as_str());
    out.append(&mut t);
    if ro {
        let mut rv = chars_of(":ro");
        out.append(&mut rv);
    }
    string_of(&out)
}

/// Executable test matching [`top_level_ok`].
fn exec_top_level_ok(entries: &Vec<(String, RawValue)>) -> (r: bool)
    ensures
        r == top_level_ok(entries@.map_values(|e: (String, RawValue)| (e.0@, raw_view(e.1)))),
{
    let driver_ok: bool = match raw_get_exec(entries, "driver") {
        None => true,
        Some(RawValue::Null) => true,
        Some(RawValue::Str(_)) => true,
        _ => false,
    };
    let opts_v = raw_get_exec(entries, "driver_opts");
    let opts_ok: bool = match opts_v {
        None => true,
        Some(v) => match v {
            RawValue::Null => true,
            RawValue::Mapping(es) => {
                proof {
                    assert(raw_view(*v)->Mapping_0 =~= es@.map_values(
                        |e: (String, RawValue)| (e.0@, raw_view(e.1)),
                    ));
                }
                string_map_items(es).is_some()
            },
            _ => false,
        },
    };
    driver_ok && opts_ok
}


/// An optional string field of a mapping: absent or null is nothing.
pub open spec fn spec_opt_str_field(m: Seq<(Seq<char>, RawView)>, key: Seq<char>) -> Result<
    Option<Seq<char>>,
    Seq<char>,
> {
    match raw_get(m, key) {
        None => Ok(None),
        Some(RawView::Null) => Ok(None),
        Some(RawView::Str(s)) => Ok(Some(s)),
        Some(_) => Err("invalid type: expected a string"@),
    }
}

/// A required string field of a mapping.
pub open spec fn spec_req_str_field(m: Seq<(Seq<char>, RawView)>, key: Seq<char>) -> Result<
    Seq<char>,
    Seq<char>,
> {
    match raw_get(m, key) {
        None => Err("missing field `"@ + key + "`"@),
        Some(RawView::Str(s)) => Ok(s),
        Some(_) => Err("invalid type: expected a string"@),
    }
}

/// An optional list-of-strings field of a mapping.
pub open spec fn spec_opt_strings_field(m: Seq<(Seq<char>, RawView)>, key: Seq<char>) -> Result<
    Option<Seq<Seq<char>>>,
    Seq<char>,
> {
    match raw_get(m, key) {
        None => Ok(None),
        Some(RawView::Null) => Ok(None),
        Some(RawView::List(items)) => match spec_string_items(items, 0, Seq::empty()) {
            Ok(ws) => Ok(Some(ws)),
            Err(_) => Err("invalid type: expected a sequence of strings"@),
        },
        Some(_) => Err("invalid type: expected a sequence of strings"@),
    }
}

/// A required non-negative integer field of a mapping, within `max`.
pub open spec fn spec_req_uint_field(
    m: Seq<(Seq<char>, RawView)>,
    key: Seq<char>,
    max: int,
) -> Result<int, Seq<char>> {
    match raw_get(m, key) {
        None => Err("missing field `"@ + key + "`"@),
        Some(RawView::Int(i)) => if 0 <= i <= max {
            Ok(i as int)
        } else {
            Err("invalid value: integer out of range"@)
        },
        Some(_) => Err("invalid type: expected an integer"@),
    }
}

/// An optional signed integer field of a mapping.
pub open spec fn spec_opt_i64_field(m: Seq<(Seq<char>, RawView)>, key: Seq<char>) -> Result<
    Option<i64>,
    Seq<char>,
> {
    match raw_get(m, key) {
        None => Ok(None),
        Some(RawView::Null) => Ok(None),
        Some(RawView::Int(i)) => Ok(Some(i)),
        Some(_) => Err("invalid type: expected an integer"@),
    }
}

/// Executable lookup matching [`spec_opt_str_field`].
fn opt_str_field(entries: &Vec<(String, RawValue)>, key: &str) -> (r: Result<
    Option<String>,
    DockerError,
>)
    ensures
        ({
            let m = entries@.map_values(|e: (String, RawValue)| (e.0@, raw_view(e.1)));
            match r {
                Ok(Some(s)) => spec_opt_str_field(m, key@) == Ok::<_, Seq<char>>(Some(s@)),
                Ok(None) => spec_opt_str_field(m, key@) == Ok::<Option<Seq<char>>, Seq<char>>(
                    None,
                ),
                Err(e) => spec_opt_str_field(m, key@) is Err && e is YamlError && e.text()
                    == spec_opt_str_field(m, key@)->Err_0,
            }
        }),
{
    match raw_get_exec(entries, key) {
        None => Ok(None),
        Some(RawValue::Null) => Ok(None),
        Some(RawValue::Str(s)) => Ok(Some(crate::config::env_vars::clone_string(s))),
        Some(_) => {
            let mut msg = String::new();
            msg.append("invalid type: expected a string");
            proof {
                reveal_strlit("invalid type: expected a string");
                reveal_strlit("");
            }
            Err(DockerError::YamlError(msg))
        },
    }
}

/// Executable lookup matching [`spec_req_str_field`].
fn req_str_field(entries: &Vec<(String, RawValue)>, key: &str) -> (r: Result<String, DockerError>)
    ensures
        ({
            let m = entries@.map_values(|e: (String, RawValue)| (e.0@, raw_view(e.1)));
            match r {
                Ok(s) => spec_req_str_field(m, key@) == Ok::<_, Seq<char>>(s@),
                Err(e) => spec_req_str_field(m, key@) is Err && e is YamlError && e.text()
                    == spec_req_str_field(m, key@)->Err_0,
            }
        }),
{
    match raw_get_exec(entries, key) {
        None => {
            let mut msg = String::new();
            msg.append("missing field `");
            msg.append(key);
            msg.append("`");
            proof {
                reveal_strlit("missing field `");
                reveal_strlit("`");
                reveal_strlit("");
            }
            Err(DockerError::YamlError(msg))
        },
        Some(RawValue::Str(s)) => Ok(crate::config::env_vars::clone_string(s)),
        Some(_) => {
            let mut msg = String::new();
            msg.append("invalid type: expected a string");
            proof {
                reveal_strlit("invalid type: expected a string");
                reveal_strlit("");
            }
            Err(DockerError::YamlError(msg))
        },
    }
}

/// Executable lookup matching [`spec_opt_strings_field`].
fn opt_strings_field(entries: &Vec<(String, RawValue)>, key: &str) -> (r: Result<
    Option<Vec<String>>,
    DockerError,
>)
    ensures
        ({
            let m = entries@.map_values(|e: (String, RawValue)| (e.0@, raw_view(e.1)));
            match r {
                Ok(Some(ws)) => spec_opt_strings_field(m, key@) == Ok::<_, Seq<char>>(
                    Some(crate::config::docker_file::strings_view(ws@)),
                ),
                Ok(None) => spec_opt_strings_field(m, key@) == Ok::<
                    Option<Seq<Seq<char>>>,
                    Seq<char>,
                >(None),
                Err(e) => spec_opt_strings_field(m, key@) is Err && e is YamlError && e.text()
                    == spec_opt_strings_field(m, key@)->Err_0,
            }
        }),
{
    let found = raw_get_exec(entries, key);
    match found {
        None => Ok(None),
        Some(v) => match v {
            RawValue::Null => Ok(None),
            RawValue::List(items) => {
                proof {
                    assert(raw_view(*v)->List_0 =~= items@.map_values(
                        |x: RawValue| raw_view(x),
                    ));
                }
                match string_items(items) {
                    Some(ws) => Ok(Some(ws)),
                    None => {
                        let mut msg = String::new();
                        msg.append("invalid type: expected a sequence of strings");
                        proof {
                            reveal_strlit("invalid type: expected a sequence of strings");
                            reveal_strlit("");
                        }
                        Err(DockerError::YamlError(msg))
                    },
                }
            },
            _ => {
                let mut msg = String::new();
                msg.append("invalid type: expected a sequence of strings");
                proof {
                    reveal_strlit("invalid type: expected a sequence of strings");
                    reveal_strlit("");
                }
                Err(DockerError::YamlError(msg))
            },
        },
    }
}

/// Executable lookup matching [`spec_req_uint_field`].
fn req_uint_field(entries: &Vec<(String, RawValue)>, key: &str, max: u64) -> (r: Result<
    u64,
    DockerError,
>)
    ensures
        ({
            let m = entries@.map_values(|e: (String, RawValue)| (e.0@, raw_view(e.1)));
            match r {
                Ok(v) => spec_req_uint_field(m, key@, max as int) == Ok::<_, Seq<char>>(v as int),
                Err(e) => spec_req_uint_field(m, key@, max as int) is Err && e is YamlError
                    && e.text() == spec_req_uint_field(m, key@, max as int)->Err_0,
            }
        }),
{
    match raw_get_exec(entries, key) {
        None => {
            let mut msg = String::new();
            msg.append("missing field `");
            msg.append(key);
            msg.append("`");
            proof {
                reveal_strlit("missing field `");
                reveal_strlit("`");
                reveal_strlit("");
            }
            Err(DockerError::YamlError(msg))
        },
        Some(RawValue::Int(i)) => {
            if 0 <= *i && *i as u64 <= max {
                Ok(*i as u64)
            } else {
                let mut msg = String::new();
                msg.append("invalid value: integer out of range");
                proof {
                    reveal_strlit("invalid value: integer out of range");
                    reveal_strlit("");
                }
                Err(DockerError::YamlError(msg))
            }
        },
        Some(_) => {
            let mut msg = String::new();
            msg.append("invalid type: expected an integer");
            proof {
                reveal_strlit("invalid type: expected an integer");
                reveal_strlit("");
            }
            Err(DockerError::YamlError(msg))
        },
    }
}

/// Executable lookup matching [`spec_opt_i64_field`].
fn opt_i64_field(entries: &Vec<(String, RawValue)>, key: &str) -> (r: Result<
    Option<i64>,
    DockerError,
>)
    ensures
        ({
            let m = entries@.map_values(|e: (String, RawValue)| (e.0@, raw_view(e.1)));
            match r {
                Ok(v) => spec_opt_i64_field(m, key@) == Ok::<_, Seq<char>>(v),
                Err(e) => spec_opt_i64_field(m, key@) is Err && e is YamlError && e.text()
                    == spec_opt_i64_field(m, key@)->Err_0,
            }
        }),
{
    match raw_get_exec(entries, key) {
        None => Ok(None),
        Some(RawValue::Null) => Ok(None),
        Some(RawValue::Int(i)) => Ok(Some(*i)),
        Some(_) => {
            let mut msg = String::new();
            msg.append("invalid type: expected an integer");
            proof {
                reveal_strlit("invalid type: expected an integer");
                reveal_strlit("");
            }
            Err(DockerError::YamlError(msg))
        },
    }
}


/// An optional mapping-of-strings field of a mapping.
pub open spec fn spec_opt_pairs_field(m: Seq<(Seq<char>, RawView)>, key: Seq<char>) -> Result<
    Option<Seq<(Seq<char>, Seq<char>)>>,
    Seq<char>,
> {
    match raw_get(m, key) {
        None => Ok(None),
        Some(RawView::Null) => Ok(None),
        Some(RawView::Mapping(es)) => match spec_string_map_items(es, 0, Seq::empty()) {
            Ok(ps) => Ok(Some(ps)),
            Err(_) => Err("invalid type: expected a mapping of strings"@),
        },
        Some(_) => Err("invalid type: expected a mapping of strings"@),
    }
}

/// Executable lookup matching [`spec_opt_pairs_field`].
fn opt_pairs_field(entries: &Vec<(String, RawValue)>, key: &str) -> (r: Result<
    Option<Vec<(String, String)>>,
    DockerError,
>)
    ensures
        ({
            let m = entries@.map_values(|e: (String, RawValue)| (e.0@, raw_view(e.1)));
            match r {
                Ok(Some(ps)) => spec_opt_pairs_field(m, key@) == Ok::<_, Seq<char>>(
                    Some(crate::config::docker_file::pairs_view(ps@)),
                ),
                Ok(None) => spec_opt_pairs_field(m, key@) == Ok::<
                    Option<Seq<(Seq<char>, Seq<char>)>>,
                    Seq<char>,
                >(None),
                Err(e) => spec_opt_pairs_field(m, key@) is Err && e is YamlError && e.text()
                    == spec_opt_pairs_field(m, key@)->Err_0,
            }
        }),
{
    let found = raw_get_exec(entries, key);
    match found {
        None => Ok(None),
        Some(v) => match v {
            RawValue::Null => Ok(None),
            RawValue::Mapping(es) => {
                proof {
                    assert(raw_view(*v)->Mapping_0 =~= es@.map_values(
                        |e: (String, RawValue)| (e.0@, raw_view(e.1)),
                    ));
                }
                match string_map_items(es) {
                    Some(ps) => Ok(Some(ps)),
                    None => {
                        let mut msg = String::new();
                        msg.append("invalid type: expected a mapping of strings");
                        proof {
                            reveal_strlit("invalid type: expected a mapping of strings");
                            reveal_strlit("");
                        }
                        Err(DockerError::YamlError(msg))
                    },
                }
            },
            _ => {
                let mut msg = String::new();
                msg.append("invalid type: expected a mapping of strings");
                proof {
                    reveal_strlit("invalid type: expected a mapping of strings");
                    reveal_strlit("");
                }
                Err(DockerError::YamlError(msg))
            },
        },
    }
}

/// The volumes of a list of raw nodes.
pub open spec fn spec_volume_items(
    items: Seq<RawView>,
    i: int,
    acc: Seq<VolumeView>,
) -> Result<Seq<VolumeView>, Seq<char>>
    recommends
        0 <= i <= items.len(),
    decreases items.len() - i when 0 <= i <= items.len()
{
    if i >= items.len() {
        Ok(acc)
    } else {
        match spec_volume_from_raw(items[i]) {
            Ok(v) => spec_volume_items(items, i + 1, acc.push(v)),
            Err(e) => Err(e),
        }
    }
}

/// Collect the volumes of a list of raw nodes.
fn volume_items(items: &Vec<RawValue>) -> (r: Result<Vec<Volume>, DockerError>)
    ensures
        ({
            let items_view = items@.map_values(|x: RawValue| raw_view(x));
            match r {
                Ok(vs) => spec_volume_items(items_view, 0, Seq::empty()) == Ok::<_, Seq<char>>(
                    vs@.map_values(|v: Volume| v@),
                ),
                Err(e) => spec_volume_items(items_view, 0, Seq::empty()) is Err && e is YamlError
                    && e.text() == spec_volume_items(items_view, 0, Seq::empty())->Err_0,
            }
        }),
{
    let ghost items_view = items@.map_values(|x: RawValue| raw_view(x));
    let mut out: Vec<Volume> = Vec::new();
    let n = items.len();
    let mut i: usize = 0;
    proof {
        assert(out@.map_values(|v: Volume| v@) =~= Seq::<VolumeView>::empty());
    }
    while i < n
        invariant
            i <= n,
            n == items@.len(),
            items_view == items@.map_values(|x: RawValue| raw_view(x)),
            spec_volume_items(items_view, 0, Seq::empty()) == spec_volume_items(
                items_view,
                i as int,
                out@.map_values(|v: Volume| v@),
            ),
        decreases n - i,
    {
        proof {
            assert(items_view[i as int] == raw_view(items@[i as int]));
        }
        match volume_from_raw(&items[i]) {
            Ok(v) => {
                let ghost pre = out@;
                out.push(v);
                proof {
                    assert(out@.map_values(|v: Volume| v@) =~= pre.map_values(
                        |v: Volume| v@,
                    ).push(out@.last()@));
                }
            },
            Err(e) => {
                return Err(e);
            },
        }
        i = i + 1;
    }
    Ok(out)
}

/// The health check denoted by a raw mapping: endpoint, method, expected
/// status, optional body, interval and timeout in nanoseconds, and retries.
pub open spec fn spec_hc_from_raw(rv: RawView) -> Result<HealthCheckView, Seq<char>> {
    match rv {
        RawView::Mapping(m) => match spec_req_str_field(m, "endpoint"@) {
            Err(e) => Err(e),
            Ok(endpoint) => match spec_req_str_field(m, "method"@) {
                Err(e) => Err(e),
                Ok(method_name) => {
                    let method: Option<Method> = if method_name == "Get"@ {
                        Some(Method::Get)
                    } else if method_name == "Post"@ {
                        Some(Method::Post)
                    } else {
                        None
                    };
                    match method {
                        None => Err("unknown variant: expected Get or Post"@),
                        Some(method) => match spec_req_uint_field(m, "expected_status"@, 65535) {
                            Err(e) => Err(e),
                            Ok(status) => match spec_opt_str_field(m, "body"@) {
                                Err(e) => Err(e),
                                Ok(body) => match spec_req_uint_field(
                                    m,
                                    "interval"@,
                                    0xffffffffffffffff,
                                ) {
                                    Err(e) => Err(e),
                                    Ok(interval) => match spec_req_uint_field(
                                        m,
                                        "timeout"@,
                                        0xffffffffffffffff,
                                    ) {
                                        Err(e) => Err(e),
                                        Ok(timeout) => match spec_req_uint_field(
                                            m,
                                            "retries"@,
                                            4294967295,
                                        ) {
                                            Err(e) => Err(e),
                                            Ok(retries) => Ok(
                                                HealthCheckView {
                                                    endpoint,
                                                    method,
                                                    expected_status: status as u16,
                                                    body,
                                                    interval: interval as u64,
                                                    timeout: timeout as u64,
                                                    retries: retries as u32,
                                                },
                                            ),
                                        },
                                    },
                                },
                            },
                        },
                    }
                },
            },
        },
        _ => Err("invalid type: expected a mapping"@),
    }
}

/// Normalize a raw node into a health check.
fn hc_from_raw(raw: &RawValue) -> (r: Result<HealthCheck, DockerError>)
    ensures
        match r {
            Ok(h) => spec_hc_from_raw(raw@) == Ok::<_, Seq<char>>(h@),
            Err(e) => spec_hc_from_raw(raw@) is Err && e is YamlError && e.text()
                == spec_hc_from_raw(raw@)->Err_0,
        },
{
    match raw {
        RawValue::Mapping(entries) => {
            proof {
                assert(raw_view(*raw)->Mapping_0 =~= entries@.map_values(
                    |e: (String, RawValue)| (e.0@, raw_view(e.1)),
                ));
            }
            let endpoint = match req_str_field(entries, "endpoint") {
                Ok(v) => v,
                Err(e) => {
                    return Err(e);
                },
            };
            let method_name = match req_str_field(entries, "method") {
                Ok(v) => v,
                Err(e) => {
                    return Err(e);
                },
            };
            let method: Method = if crate::config::env_vars::str_eq(method_name.as_str(), "Get") {
                proof {
                    reveal_strlit("Get");
                }
                Method::Get
            } else if crate::config::env_vars::str_eq(method_name.as_str(), "Post") {
                proof {
                    reveal_strlit("Get");
                    reveal_strlit("Post");
                }
                Method::Post
            } else {
                proof {
                    reveal_strlit("Get");
                    reveal_strlit("Post");
                }
                let mut msg = String::new();
                msg.append("unknown variant: expected Get or Post");
                proof {
                    reveal_strlit("unknown variant: expected Get or Post");
                    reveal_strlit("");
                }
                return Err(DockerError::YamlError(msg));
            };
            let status = match req_uint_field(entries, "expected_status", 65535) {
                Ok(v) => v,
                Err(e) => {
                    return Err(e);
                },
            };
            let body = match opt_str_field(entries, "body") {
                Ok(v) => v,
                Err(e) => {
                    return Err(e);
                },
            };
            let interval = match req_uint_field(entries, "interval", 0xffffffffffffffff) {
                Ok(v) => v,
                Err(e) => {
                    return Err(e);
                },
            };
            let timeout = match req_uint_field(entries, "timeout", 0xffffffffffffffff) {
                Ok(v) => v,
                Err(e) => {
                    return Err(e);
                },
            };
            let retries = match req_uint_field(entries, "retries", 4294967295) {
                Ok(v) => v,
                Err(e) => {
                    return Err(e);
                },
            };
            Ok(
                HealthCheck {
                    endpoint,
                    method,
                    expected_status: status as u16,
                    body,
                    interval,
                    timeout,
                    retries: retries as u32,
                },
            )
        },
        _ => {
            let mut msg = String::new();
            msg.append("invalid type: expected a mapping");
            proof {
                reveal_strlit("invalid type: expected a mapping");
                reveal_strlit("");
            }
            Err(DockerError::YamlError(msg))
        },
    }
}

/// The text of a signed integer.
pub open spec fn int_text(i: int) -> Seq<char> {
    if i >= 0 {
        crate::text::dec_str(i)
    } else {
        "-"@ + crate::text::dec_str(-i)
    }
}

/// Render a signed integer as text.
fn render_i64(i: i64) -> (r: String)
    ensures
        r@ == int_text(i as int),
{
    if i >= 0 {
        let v = crate::text::render_u64(i as u64);
        string_of(&v)
    } else {
        let mag: u64 = if i == -0x7fffffffffffffff - 1 {
            0x8000000000000000
        } else {
            (-i) as u64
        };
        let mut out = chars_of("-");
        let mut digits = crate::text::render_u64(mag);
        out.append(&mut digits);
        proof {
            reveal_strlit("-");
        }
        string_of(&out)
    }
}

/// The processor-count limit kept as raw text: a string keeps itself, an
/// integer keeps its decimal text, and any other scalar (a fractional
/// count, say) keeps its raw text.
pub open spec fn spec_cpu_limit_field(m: Seq<(Seq<char>, RawView)>) -> Result<
    Option<Seq<char>>,
    Seq<char>,
> {
    match raw_get(m, "cpu_limit"@) {
        None => Ok(None),
        Some(RawView::Null) => Ok(None),
        Some(RawView::Str(s)) => Ok(Some(s)),
        Some(RawView::Scalar(s)) => Ok(Some(s)),
        Some(RawView::Int(i)) => Ok(Some(int_text(i as int))),
        Some(_) => Err("invalid type: expected a number"@),
    }
}

/// The ports of a list of raw nodes, each an integer within the port range.
pub open spec fn spec_port_items(
    items: Seq<RawView>,
    i: int,
    acc: Seq<u16>,
) -> Result<Seq<u16>, Seq<char>>
    recommends
        0 <= i <= items.len(),
    decreases items.len() - i when 0 <= i <= items.len()
{
    if i >= items.len() {
        Ok(acc)
    } else {
        match items[i] {
            RawView::Int(p) => if 0 <= p <= 65535 {
                spec_port_items(items, i + 1, acc.push(p as u16))
            } else {
                Err("invalid value: integer out of range"@)
            },
            _ => Err("invalid type: expected an integer"@),
        }
    }
}

/// The resource expectations denoted by a raw mapping.
pub open spec fn spec_reqs_from_raw(rv: RawView) -> Result<SystemRequirementsView, Seq<char>> {
    match rv {
        RawView::Mapping(m) => match spec_req_uint_field(
            m,
            "min_memory_gb"@,
            0xffffffffffffffff,
        ) {
            Err(e) => Err(e),
            Ok(mem) => match spec_req_uint_field(m, "min_disk_gb"@, 0xffffffffffffffff) {
                Err(e) => Err(e),
                Ok(disk) => match spec_req_uint_field(
                    m,
                    "min_bandwidth_mbps"@,
                    0xffffffffffffffff,
                ) {
                    Err(e) => Err(e),
                    Ok(bw) => match raw_get(m, "required_ports"@) {
                        Some(RawView::List(items)) => match spec_port_items(
                            items,
                            0,
                            Seq::empty(),
                        ) {
                            Err(e) => Err(e),
                            Ok(ports) => match spec_req_str_field(m, "data_directory"@) {
                                Err(e) => Err(e),
                                Ok(dir) => match spec_cpu_limit_field(m) {
                                    Err(e) => Err(e),
                                    Ok(cpu) => match spec_opt_str_field(m, "memory_limit"@) {
                                        Err(e) => Err(e),
                                        Ok(ml) => match spec_opt_str_field(m, "memory_swap"@) {
                                            Err(e) => Err(e),
                                            Ok(ms) => match spec_opt_str_field(
                                                m,
                                                "memory_reservation"@,
                                            ) {
                                                Err(e) => Err(e),
                                                Ok(mr) => match spec_opt_i64_field(
                                                    m,
                                                    "cpu_shares"@,
                                                ) {
                                                    Err(e) => Err(e),
                                                    Ok(cs) => match spec_opt_str_field(
                                                        m,
                                                        "cpuset_cpus"@,
                                                    ) {
                                                        Err(e) => Err(e),
                                                        Ok(cc) => Ok(
                                                            SystemRequirementsView {
                                                                min_memory_gb: mem as u64,
                                                                min_disk_gb: disk as u64,
                                                                min_bandwidth_mbps: bw as u64,
                                                                required_ports: ports,
                                                                data_directory: dir,
                                                                cpu_limit: cpu,
                                                                memory_limit: ml,
                                                                memory_swap: ms,
                                                                memory_reservation: mr,
                                                                cpu_shares: cs,
                                                                cpuset_cpus: cc,
                                                            },
                                                        ),
                                                    },
                                                },
                                            },
                                        },
                                    },
                                },
                            },
                        },
                        None => Err("missing field `required_ports`"@),
                        Some(_) => Err("invalid type: expected a sequence of integers"@),
                    },
                },
            },
        },
        _ => Err("invalid type: expected a mapping"@),
    }
}

/// Normalize a raw node into resource expectations.
fn reqs_from_raw(raw: &RawValue) -> (r: Result<SystemRequirements, DockerError>)
    ensures
        match r {
            Ok(q) => spec_reqs_from_raw(raw@) == Ok::<_, Seq<char>>(q@),
            Err(e) => spec_reqs_from_raw(raw@) is Err && e is YamlError && e.text()
                == spec_reqs_from_raw(raw@)->Err_0,
        },
{
    match raw {
        RawValue::Mapping(entries) => {
            proof {
                assert(raw_view(*raw)->Mapping_0 =~= entries@.map_values(
                    |e: (String, RawValue)| (e.0@, raw_view(e.1)),
                ));
            }
            let mem = match req_uint_field(entries, "min_memory_gb", 0xffffffffffffffff) {
                Ok(v) => v,
                Err(e) => {
                    return Err(e);
                },
            };
            let disk = match req_uint_field(entries, "min_disk_gb", 0xffffffffffffffff) {
                Ok(v) => v,
                Err(e) => {
                    return Err(e);
                },
            };
            let bw = match req_uint_field(entries, "min_bandwidth_mbps", 0xffffffffffffffff) {
                Ok(v) => v,
                Err(e) => {
                    return Err(e);
                },
            };
            let ports_v = raw_get_exec(entries, "required_ports");
            let ports: Vec<u16> = match ports_v {
                Some(v) => match v {
                    RawValue::List(items) => {
                        proof {
                            assert(raw_view(*v)->List_0 =~= items@.map_values(
                                |x: RawValue| raw_view(x),
                            ));
                        }
                        match port_items(items) {
                            Ok(ps) => ps,
                            Err(e) => {
                                return Err(e);
                            },
                        }
                    },
                    _ => {
                        let mut msg = String::new();
                        msg.append("invalid type: expected a sequence of integers");
                        proof {
                            reveal_strlit("invalid type: expected a sequence of integers");
                            reveal_strlit("");
                        }
                        return Err(DockerError::YamlError(msg));
                    },
                },
                None => {
                    let mut msg = String::new();
                    msg.append("missing field `required_ports`");
                    proof {
                        reveal_strlit("missing field `required_ports`");
                        reveal_strlit("");
                    }
                    return Err(DockerError::YamlError(msg));
                },
            };
            let dir = match req_str_field(entries, "data_directory") {
                Ok(v) => v,
                Err(e) => {
                    return Err(e);
                },
            };
            let cpu: Option<String> = match raw_get_exec(entries, "cpu_limit") {
                None => None,
                Some(RawValue::Null) => None,
                Some(RawValue::Str(cs)) => Some(crate::config::env_vars::clone_string(cs)),
                Some(RawValue::Scalar(cs)) => Some(crate::config::env_vars::clone_string(cs)),
                Some(RawValue::Int(i)) => Some(render_i64(*i)),
                Some(_) => {
                    let mut msg = String::new();
                    msg.append("invalid type: expected a number");
                    proof {
                        reveal_strlit("invalid type: expected a number");
                        reveal_strlit("");
                    }
                    return Err(DockerError::YamlError(msg));
                },
            };
            let ml = match opt_str_field(entries, "memory_limit") {
                Ok(v) => v,
                Err(e) => {
                    return Err(e);
                },
            };
            let ms = match opt_str_field(entries, "memory_swap") {
                Ok(v) => v,
                Err(e) => {
                    return Err(e);
                },
            };
            let mr = match opt_str_field(entries, "memory_reservation") {
                Ok(v) => v,
                Err(e) => {
                    return Err(e);
                },
            };
            let cs = match opt_i64_field(entries, "cpu_shares") {
                Ok(v) => v,
                Err(e) => {
                    return Err(e);
                },
            };
            let cc = match opt_str_field(entries, "cpuset_cpus") {
                Ok(v) => v,
                Err(e) => {
                    return Err(e);
                },
            };
            Ok(
                SystemRequirements {
                    min_memory_gb: mem,
                    min_disk_gb: disk,
                    min_bandwidth_mbps: bw,
                    required_ports: ports,
                    data_directory: dir,
                    cpu_limit: cpu,
                    memory_limit: ml,
                    memory_swap: ms,
                    memory_reservation: mr,
                    cpu_shares: cs,
                    cpuset_cpus: cc,
                },
            )
        },
        _ => {
            let mut msg = String::new();
            msg.append("invalid type: expected a mapping");
            proof {
                reveal_strlit("invalid type: expected a mapping");
                reveal_strlit("");
            }
            Err(DockerError::YamlError(msg))
        },
    }
}

/// Collect the ports of a list of raw nodes.
fn port_items(items: &Vec<RawValue>) -> (r: Result<Vec<u16>, DockerError>)
    ensures
        ({
            let items_view = items@.map_values(|x: RawValue| raw_view(x));
            match r {
                Ok(ps) => spec_port_items(items_view, 0, Seq::empty()) == Ok::<_, Seq<char>>(ps@),
                Err(e) => spec_port_items(items_view, 0, Seq::empty()) is Err && e is YamlError
                    && e.text() == spec_port_items(items_view, 0, Seq::empty())->Err_0,
            }
        }),
{
    let ghost items_view = items@.map_values(|x: RawValue| raw_view(x));
    let mut out: Vec<u16> = Vec::new();
    let n = items.len();
    let mut i: usize = 0;
    proof {
        assert(out@ =~= Seq::<u16>::empty());
    }
    while i < n
        invariant
            i <= n,
            n == items@.len(),
            items_view == items@.map_values(|x: RawValue| raw_view(x)),
            spec_port_items(items_view, 0, Seq::empty()) == spec_port_items(
                items_view,
                i as int,
                out@,
            ),
        decreases n - i,
    {
        proof {
            assert(items_view[i as int] == raw_view(items@[i as int]));
        }
        match &items[i] {
            RawValue::Int(p) => {
                if 0 <= *p && *p <= 65535 {
                    out.push(*p as u16);
                } else {
                    let mut msg = String::new();
                    msg.append("invalid value: integer out of range");
                    proof {
                        reveal_strlit("invalid value: integer out of range");
                        reveal_strlit("");
                    }
                    return Err(DockerError::YamlError(msg));
                }
            },
            _ => {
                let mut msg = String::new();
                msg.append("invalid type: expected an integer");
                proof {
                    reveal_strlit("invalid type: expected an integer");
                    reveal_strlit("");
                }
                return Err(DockerError::YamlError(msg));
            },
        }
        i = i + 1;
    }
    Ok(out)
}


/// The build configuration denoted by a raw mapping.
pub open spec fn spec_build_from_raw(rv: RawView) -> Result<BuildConfigView, Seq<char>> {
    match rv {
        RawView::Mapping(m) => match spec_req_str_field(m, "context"@) {
            Err(e) => Err(e),
            Ok(context) => match spec_opt_str_field(m, "dockerfile"@) {
                Err(e) => Err(e),
                Ok(dockerfile) => Ok(BuildConfigView { context, dockerfile }),
            },
        },
        _ => Err("invalid type: expected a mapping"@),
    }
}

/// Normalize a raw node into a build configuration.
fn build_from_raw(raw: &RawValue) -> (r: Result<BuildConfig, DockerError>)
    ensures
        match r {
            Ok(b) => spec_build_from_raw(raw@) == Ok::<_, Seq<char>>(b@),
            Err(e) => spec_build_from_raw(raw@) is Err && e is YamlError && e.text()
                == spec_build_from_raw(raw@)->Err_0,
        },
{
    match raw {
        RawValue::Mapping(entries) => {
            proof {
                assert(raw_view(*raw)->Mapping_0 =~= entries@.map_values(
                    |e: (String, RawValue)| (e.0@, raw_view(e.1)),
                ));
            }
            let context = match req_str_field(entries, "context") {
                Ok(v) => v,
                Err(e) => {
                    return Err(e);
                },
            };
            let dockerfile = match opt_str_field(entries, "dockerfile") {
                Ok(v) => v,
                Err(e) => {
                    return Err(e);
                },
            };
            Ok(BuildConfig { context, dockerfile })
        },
        _ => {
            let mut msg = String::new();
            msg.append("invalid type: expected a mapping");
            proof {
                reveal_strlit("invalid type: expected a mapping");
                reveal_strlit("");
            }
            Err(DockerError::YamlError(msg))
        },
    }
}

/// An optional sub-document field of a mapping, read by the given rule.
pub open spec fn spec_service_from_raw(rv: RawView) -> Result<ServiceView, Seq<char>> {
    match rv {
        RawView::Mapping(m) => match spec_opt_str_field(m, "image"@) {
            Err(e) => Err(e),
            Ok(image) => match (match raw_get(m, "build"@) {
                None => Ok(None),
                Some(RawView::Null) => Ok(None),
                Some(b) => match spec_build_from_raw(b) {
                    Ok(bv) => Ok(Some(bv)),
                    Err(e) => Err(e),
                },
            }) {
                Err(e) => Err(e),
                Ok(build) => match (match raw_get(m, "command"@) {
                    None => Ok(None),
                    Some(c) => spec_command_from_raw(c),
                }) {
                    Err(e) => Err(e),
                    Ok(command) => match (match raw_get(m, "environment"@) {
                        None => Ok(None),
                        Some(RawView::Null) => Ok(None),
                        Some(ev) => match spec_env_from_raw(ev) {
                            Ok(env) => Ok(Some(env)),
                            Err(e) => Err(e),
                        },
                    }) {
                        Err(e) => Err(e),
                        Ok(environment) => match spec_opt_strings_field(m, "env_file"@) {
                            Err(e) => Err(e),
                            Ok(env_file) => match (match raw_get(m, "volumes"@) {
                                None => Ok(None),
                                Some(RawView::Null) => Ok(None),
                                Some(RawView::List(items)) => match spec_volume_items(
                                    items,
                                    0,
                                    Seq::empty(),
                                ) {
                                    Ok(vs) => Ok(Some(vs)),
                                    Err(e) => Err(e),
                                },
                                Some(_) => Err("invalid type: expected a sequence"@),
                            }) {
                                Err(e) => Err(e),
                                Ok(volumes) => match spec_opt_strings_field(m, "depends_on"@) {
                                    Err(e) => Err(e),
                                    Ok(depends_on) => match spec_opt_strings_field(m, "ports"@) {
                                        Err(e) => Err(e),
                                        Ok(ports) => match spec_opt_strings_field(
                                            m,
                                            "networks"@,
                                        ) {
                                            Err(e) => Err(e),
                                            Ok(networks) => match (match raw_get(
                                                m,
                                                "requirements"@,
                                            ) {
                                                None => Ok(None),
                                                Some(RawView::Null) => Ok(None),
                                                Some(q) => match spec_reqs_from_raw(q) {
                                                    Ok(qv) => Ok(Some(qv)),
                                                    Err(e) => Err(e),
                                                },
                                            }) {
                                                Err(e) => Err(e),
                                                Ok(requirements) => match (match raw_get(
                                                    m,
                                                    "healthcheck"@,
                                                ) {
                                                    None => Ok(None),
                                                    Some(RawView::Null) => Ok(None),
                                                    Some(h) => match spec_hc_from_raw(h) {
                                                        Ok(hv) => Ok(Some(hv)),
                                                        Err(e) => Err(e),
                                                    },
                                                }) {
                                                    Err(e) => Err(e),
                                                    Ok(healthcheck) => match spec_opt_str_field(
                                                        m,
                                                        "restart"@,
                                                    ) {
                                                        Err(e) => Err(e),
                                                        Ok(restart) => match spec_opt_str_field(
                                                            m,
                                                            "user"@,
                                                        ) {
                                                            Err(e) => Err(e),
                                                            Ok(user) => match spec_opt_pairs_field(
                                                                m,
                                                                "labels"@,
                                                            ) {
                                                                Err(e) => Err(e),
                                                                Ok(labels) => match spec_opt_str_field(
                                                                    m,
                                                                    "platform"@,
                                                                ) {
                                                                    Err(e) => Err(e),
                                                                    Ok(platform) => Ok(
                                                                        ServiceView {
                                                                            image,
                                                                            build,
                                                                            command,
                                                                            environment,
                                                                            env_file,
                                                                            volumes,
                                                                            depends_on,
                                                                            ports,
                                                                            networks,
                                                                            requirements,
                                                                            healthcheck,
                                                                            restart,
                                                                            user,
                                                                            labels,
                                                                            platform,
                                                                        },
                                                                    ),
                                                                },
                                                            },
                                                        },
                                                    },
                                                },
                                            },
                                        },
                                    },
                                },
                            },
                        },
                    },
                },
            },
        },
        _ => Err("invalid type: expected a mapping"@),
    }
}

/// Normalize a raw node into a service record.
#[verifier::rlimit(100)]
pub fn service_from_raw(raw: &RawValue) -> (r: Result<Service, DockerError>)
    ensures
        match r {
            Ok(s) => spec_service_from_raw(raw@) == Ok::<_, Seq<char>>(s@) && s.wf(),
            Err(e) => spec_service_from_raw(raw@) is Err && e is YamlError && e.text()
                == spec_service_from_raw(raw@)->Err_0,
        },
{
    match raw {
        RawValue::Mapping(entries) => {
            proof {
                assert(raw_view(*raw)->Mapping_0 =~= entries@.map_values(
                    |e: (String, RawValue)| (e.0@, raw_view(e.1)),
                ));
            }
            let image = match opt_str_field(entries, "image") {
                Ok(v) => v,
                Err(e) => {
                    return Err(e);
                },
            };
            let build_v = raw_get_exec(entries, "build");
            let build: Option<BuildConfig> = match build_v {
                None => None,
                Some(RawValue::Null) => None,
                Some(b) => match build_from_raw(b) {
                    Ok(bv) => Some(bv),
                    Err(e) => {
                        return Err(e);
                    },
                },
            };
            let command_v = raw_get_exec(entries, "command");
            let command: Option<Vec<String>> = match command_v {
                None => None,
                Some(c) => match command_from_raw(c) {
                    Ok(cv) => cv,
                    Err(e) => {
                        return Err(e);
                    },
                },
            };
            let env_v = raw_get_exec(entries, "environment");
            let environment: Option<EnvironmentVars> = match env_v {
                None => None,
                Some(RawValue::Null) => None,
                Some(ev) => match env_from_raw(ev) {
                    Ok(env) => Some(env),
                    Err(e) => {
                        return Err(e);
                    },
                },
            };
            let env_file = match opt_strings_field(entries, "env_file") {
                Ok(v) => v,
                Err(e) => {
                    return Err(e);
                },
            };
            let volumes_v = raw_get_exec(entries, "volumes");
            let volumes: Option<Vec<Volume>> = match volumes_v {
                None => None,
                Some(v) => match v {
                    RawValue::Null => None,
                    RawValue::List(items) => {
                        proof {
                            assert(raw_view(*v)->List_0 =~= items@.map_values(
                                |x: RawValue| raw_view(x),
                            ));
                        }
                        match volume_items(items) {
                            Ok(vs) => Some(vs),
                            Err(e) => {
                                return Err(e);
                            },
                        }
                    },
                    _ => {
                        let mut msg = String::new();
                        msg.append("invalid type: expected a sequence");
                        proof {
                            reveal_strlit("invalid type: expected a sequence");
                            reveal_strlit("");
                        }
                        return Err(DockerError::YamlError(msg));
                    },
                },
            };
            let depends_on = match opt_strings_field(entries, "depends_on") {
                Ok(v) => v,
                Err(e) => {
                    return Err(e);
                },
            };
            let ports = match opt_strings_field(entries, "ports") {
                Ok(v) => v,
                Err(e) => {
                    return Err(e);
                },
            };
            let networks = match opt_strings_field(entries, "networks") {
                Ok(v) => v,
                Err(e) => {
                    return Err(e);
                },
            };
            let reqs_v = raw_get_exec(entries, "requirements");
            let requirements: Option<SystemRequirements> = match reqs_v {
                None => None,
                Some(RawValue::Null) => None,
                Some(q) => match reqs_from_raw(q) {
                    Ok(qv) => Some(qv),
                    Err(e) => {
                        return Err(e);
                    },
                },
            };
            let hc_v = raw_get_exec(entries, "healthcheck");
            let healthcheck: Option<HealthCheck> = match hc_v {
                None => None,
                Some(RawValue::Null) => None,
                Some(h) => match hc_from_raw(h) {
                    Ok(hv) => Some(hv),
                    Err(e) => {
                        return Err(e);
                    },
                },
            };
            let restart = match opt_str_field(entries, "restart") {
                Ok(v) => v,
                Err(e) => {
                    return Err(e);
                },
            };
            let user = match opt_str_field(entries, "user") {
                Ok(v) => v,
                Err(e) => {
                    return Err(e);
                },
            };
            let labels = match opt_pairs_field(entries, "labels") {
                Ok(v) => v,
                Err(e) => {
                    return Err(e);
                },
            };
            let platform = match opt_str_field(entries, "platform") {
                Ok(v) => v,
                Err(e) => {
                    return Err(e);
                },
            };
            Ok(
                Service {
                    image,
                    build,
                    command,
                    environment,
                    env_file,
                    volumes,
                    depends_on,
                    ports,
                    networks,
                    requirements,
                    healthcheck,
                    restart,
                    user,
                    labels,
                    platform,
                },
            )
        },
        _ => {
            let mut msg = String::new();
            msg.append("invalid type: expected a mapping");
            proof {
                reveal_strlit("invalid type: expected a mapping");
                reveal_strlit("");
            }
            Err(DockerError::YamlError(msg))
        },
    }
}


/// Whether a name stands among the collected pairs.
pub open spec fn acc_has_name<T>(acc: Seq<(Seq<char>, T)>, name: Seq<char>) -> bool {
    exists|j: int| 0 <= j < acc.len() && (#[trigger] acc[j]).0 == name
}

/// The services of a raw mapping, in document order, names unique.
pub open spec fn spec_services(
    entries: Seq<(Seq<char>, RawView)>,
    i: int,
    acc: Seq<(Seq<char>, ServiceView)>,
) -> Result<Seq<(Seq<char>, ServiceView)>, Seq<char>>
    recommends
        0 <= i <= entries.len(),
    decreases entries.len() - i when 0 <= i <= entries.len()
{
    if i >= entries.len() {
        Ok(acc)
    } else if acc_has_name(acc, entries[i].0) {
        Err("duplicate entry"@)
    } else {
        match spec_service_from_raw(entries[i].1) {
            Err(e) => Err(e),
            Ok(sv) => spec_services(entries, i + 1, acc.push((entries[i].0, sv))),
        }
    }
}

/// The top-level volumes of a raw mapping, in document order, names unique.
pub open spec fn spec_volumes(
    entries: Seq<(Seq<char>, RawView)>,
    i: int,
    acc: Seq<(Seq<char>, VolumeView)>,
) -> Result<Seq<(Seq<char>, VolumeView)>, Seq<char>>
    recommends
        0 <= i <= entries.len(),
    decreases entries.len() - i when 0 <= i <= entries.len()
{
    if i >= entries.len() {
        Ok(acc)
    } else if acc_has_name(acc, entries[i].0) {
        Err("duplicate entry"@)
    } else {
        match spec_volume_from_raw(entries[i].1) {
            Err(e) => Err(e),
            Ok(vv) => spec_volumes(entries, i + 1, acc.push((entries[i].0, vv))),
        }
    }
}

/// The manifest denoted by a raw document: a mapping with a string
/// `version`, a `services` mapping, and an optional `volumes` mapping.
pub open spec fn spec_config_from_raw(rv: RawView) -> Result<
    crate::config::compose::ComposeConfigView,
    Seq<char>,
> {
    match rv {
        RawView::Mapping(m) => match spec_req_str_field(m, "version"@) {
            Err(e) => Err(e),
            Ok(version) => match raw_get(m, "services"@) {
                None => Err("missing field `services`"@),
                Some(RawView::Mapping(se)) => match spec_services(se, 0, Seq::empty()) {
                    Err(e) => Err(e),
                    Ok(services) => match raw_get(m, "volumes"@) {
                        None => Ok(
                            crate::config::compose::ComposeConfigView {
                                version,
                                services,
                                volumes: Seq::empty(),
                            },
                        ),
                        Some(RawView::Mapping(ve)) => match spec_volumes(ve, 0, Seq::empty()) {
                            Err(e) => Err(e),
                            Ok(volumes) => Ok(
                                crate::config::compose::ComposeConfigView {
                                    version,
                                    services,
                                    volumes,
                                },
                            ),
                        },
                        Some(_) => Err("invalid type: expected a mapping"@),
                    },
                },
                Some(_) => Err("invalid type: expected a mapping"@),
            },
        },
        _ => Err("invalid type: expected a mapping"@),
    }
}

/// Whether a name stands among collected service pairs.
fn service_name_in(out: &Vec<(String, Service)>, name: &String) -> (r: bool)
    ensures
        r == acc_has_name(
            out@.map_values(
                |p: (String, Service)| (p.0@, crate::config::compose::service_view(p.1)),
            ),
            name@,
        ),
{
    let ghost acc = out@.map_values(
        |p: (String, Service)| (p.0@, crate::config::compose::service_view(p.1)),
    );
    let n = out.len();
    let mut i: usize = 0;
    while i < n
        invariant
            i <= n,
            n == out@.len(),
            acc == out@.map_values(
                |p: (String, Service)| (p.0@, crate::config::compose::service_view(p.1)),
            ),
            forall|j: int| 0 <= j < i ==> (#[trigger] acc[j]).0 != name@,
        decreases n - i,
    {
        proof {
            assert(acc[i as int].0 == out@[i as int].0@);
        }
        if crate::config::env_vars::str_eq(out[i].0.as_str(), name.as_str()) {
            return true;
        }
        i = i + 1;
    }
    false
}

/// Whether a name stands among collected volume pairs.
fn volume_name_in(out: &Vec<(String, Volume)>, name: &String) -> (r: bool)
    ensures
        r == acc_has_name(out@.map_values(|p: (String, Volume)| (p.0@, p.1@)), name@),
{
    let ghost acc = out@.map_values(|p: (String, Volume)| (p.0@, p.1@));
    let n = out.len();
    let mut i: usize = 0;
    while i < n
        invariant
            i <= n,
            n == out@.len(),
            acc == out@.map_values(|p: (String, Volume)| (p.0@, p.1@)),
            forall|j: int| 0 <= j < i ==> (#[trigger] acc[j]).0 != name@,
        decreases n - i,
    {
        proof {
            assert(acc[i as int].0 == out@[i as int].0@);
        }
        if crate::config::env_vars::str_eq(out[i].0.as_str(), name.as_str()) {
            return true;
        }
        i = i + 1;
    }
    false
}

/// Normalize a raw document into a manifest.
#[verifier::rlimit(100)]
pub fn config_from_raw(raw: &RawValue) -> (r: Result<ComposeConfig, DockerError>)
    ensures
        match r {
            Ok(cfg) => cfg.wf() && spec_config_from_raw(raw@) == Ok::<_, Seq<char>>(cfg@),
            Err(e) => spec_config_from_raw(raw@) is Err && e is YamlError && e.text()
                == spec_config_from_raw(raw@)->Err_0,
        },
{
    match raw {
        RawValue::Mapping(entries) => {
            let ghost entries_view = entries@.map_values(
                |e: (String, RawValue)| (e.0@, raw_view(e.1)),
            );
            proof {
                assert(raw_view(*raw)->Mapping_0 =~= entries_view);
            }
            let version = match req_str_field(entries, "version") {
                Ok(v) => v,
                Err(e) => {
                    return Err(e);
                },
            };
            let services_v = raw_get_exec(entries, "services");
            let services: Vec<(String, Service)> = match services_v {
                None => {
                    let mut msg = String::new();
                    msg.append("missing field `services`");
                    proof {
                        reveal_strlit("missing field `services`");
                        reveal_strlit("");
                    }
                    return Err(DockerError::YamlError(msg));
                },
                Some(v) => match v {
                    RawValue::Mapping(se) => {
                        let ghost se_view = se@.map_values(
                            |e: (String, RawValue)| (e.0@, raw_view(e.1)),
                        );
                        proof {
                            assert(raw_view(*v)->Mapping_0 =~= se_view);
                        }
                        let mut out: Vec<(String, Service)> = Vec::new();
                        let n = se.len();
                        let mut i: usize = 0;
                        proof {
                            assert(out@.map_values(
                                |p: (String, Service)| (
                                    p.0@,
                                    crate::config::compose::service_view(p.1),
                                ),
                            ) =~= Seq::<(Seq<char>, ServiceView)>::empty());
                            assert(svc_names(out@) =~= Seq::<Seq<char>>::empty());
                        }
                        while i < n
                            invariant
                                i <= n,
                                n == se@.len(),
                                se_view == se@.map_values(
                                    |e: (String, RawValue)| (e.0@, raw_view(e.1)),
                                ),
                                raw@ == RawView::Mapping(entries_view),
                                spec_req_str_field(entries_view, "version"@) == Ok::<_, Seq<char>>(
                                    version@,
                                ),
                                raw_get(entries_view, "services"@) == Some(
                                    RawView::Mapping(se_view),
                                ),
                                spec_services(se_view, 0, Seq::empty()) == spec_services(
                                    se_view,
                                    i as int,
                                    out@.map_values(
                                        |p: (String, Service)| (
                                            p.0@,
                                            crate::config::compose::service_view(p.1),
                                        ),
                                    ),
                                ),
                                svc_names(out@) == out@.map_values(
                                    |p: (String, Service)| (
                                        p.0@,
                                        crate::config::compose::service_view(p.1),
                                    ),
                                ).map_values(|q: (Seq<char>, ServiceView)| q.0),
                                svc_names(out@).no_duplicates(),
                                forall|j: int|
                                    0 <= j < out@.len() ==> (#[trigger] out@[j]).1.wf(),
                            decreases n - i,
                        {
                            proof {
                                assert(se_view[i as int] == (
                                    se@[i as int].0@,
                                    raw_view(se@[i as int].1),
                                ));
                            }
                            let name = crate::config::env_vars::clone_string(&se[i].0);
                            if service_name_in(&out, &name) {
                                let mut msg = String::new();
                                msg.append("duplicate entry");
                                proof {
                                    reveal_strlit("duplicate entry");
                                    reveal_strlit("");
                                }
                                return Err(DockerError::YamlError(msg));
                            }
                            match service_from_raw(&se[i].1) {
                                Err(e) => {
                                    return Err(e);
                                },
                                Ok(svc) => {
                                    let ghost pre = out@;
                                    out.push((name, svc));
                                    proof {
                                        let f = |p: (String, Service)| (
                                            p.0@,
                                            crate::config::compose::service_view(p.1),
                                        );
                                        assert(out@.map_values(f) =~= pre.map_values(f).push(
                                            (se_view[i as int].0, out@.last().1@),
                                        ));
                                        assert(svc_names(out@) =~= out@.map_values(f).map_values(
                                            |q: (Seq<char>, ServiceView)| q.0,
                                        ));
                                        assert(svc_names(out@).drop_last() =~= svc_names(pre));
                                        assert(!svc_names(pre).contains(se_view[i as int].0)) by {
                                            if svc_names(pre).contains(se_view[i as int].0) {
                                                let j = choose|j: int|
                                                    0 <= j < svc_names(pre).len() && svc_names(
                                                        pre,
                                                    )[j] == se_view[i as int].0;
                                                assert(pre.map_values(f)[j].0 == se_view[
                                                    i as int].0);
                                            }
                                        }
                                        assert(svc_names(out@).last() == se_view[i as int].0);
                                        assert(svc_names(out@).no_duplicates()) by {
                                            let nm = svc_names(out@);
                                            assert forall|a: int, b: int|
                                                0 <= a < b < nm.len() implies nm[a] != nm[b] by {
                                                assert(nm[a] == svc_names(pre)[a]);
                                                if b == nm.len() - 1 {
                                                    assert(svc_names(pre).contains(
                                                        svc_names(pre)[a],
                                                    ));
                                                } else {
                                                    assert(nm[b] == svc_names(pre)[b]);
                                                }
                                            }
                                        }
                                    }
                                },
                            }
                            i = i + 1;
                        }
                        out
                    },
                    _ => {
                        let mut msg = String::new();
                        msg.append("invalid type: expected a mapping");
                        proof {
                            reveal_strlit("invalid type: expected a mapping");
                            reveal_strlit("");
                        }
                        return Err(DockerError::YamlError(msg));
                    },
                },
            };
            let volumes_v = raw_get_exec(entries, "volumes");
            let volumes: Vec<(String, Volume)> = match volumes_v {
                None => Vec::new(),
                Some(v) => match v {
                    RawValue::Mapping(ve) => {
                        let ghost ve_view = ve@.map_values(
                            |e: (String, RawValue)| (e.0@, raw_view(e.1)),
                        );
                        proof {
                            assert(raw_view(*v)->Mapping_0 =~= ve_view);
                        }
                        let mut out: Vec<(String, Volume)> = Vec::new();
                        let n = ve.len();
                        let mut i: usize = 0;
                        proof {
                            assert(out@.map_values(|p: (String, Volume)| (p.0@, p.1@)) =~= Seq::<
                                (Seq<char>, VolumeView),
                            >::empty());
                            assert(out@.map_values(|p: (String, Volume)| p.0@) =~= Seq::<
                                Seq<char>,
                            >::empty());
                        }
                        while i < n
                            invariant
                                i <= n,
                                n == ve@.len(),
                                ve_view == ve@.map_values(
                                    |e: (String, RawValue)| (e.0@, raw_view(e.1)),
                                ),
                                raw@ == RawView::Mapping(entries_view),
                                spec_req_str_field(entries_view, "version"@) == Ok::<_, Seq<char>>(
                                    version@,
                                ),
                                raw_get(entries_view, "services"@) matches Some(
                                    RawView::Mapping(se0),
                                ) && spec_services(se0, 0, Seq::empty()) == Ok::<_, Seq<char>>(
                                    services@.map_values(
                                        |p: (String, Service)| (
                                            p.0@,
                                            crate::config::compose::service_view(p.1),
                                        ),
                                    ),
                                ),
                                svc_names(services@).no_duplicates(),
                                raw_get(entries_view, "volumes"@) == Some(
                                    RawView::Mapping(ve_view),
                                ),
                                spec_volumes(ve_view, 0, Seq::empty()) == spec_volumes(
                                    ve_view,
                                    i as int,
                                    out@.map_values(|p: (String, Volume)| (p.0@, p.1@)),
                                ),
                                out@.map_values(|p: (String, Volume)| p.0@) == out@.map_values(
                                    |p: (String, Volume)| (p.0@, p.1@),
                                ).map_values(|q: (Seq<char>, VolumeView)| q.0),
                                out@.map_values(|p: (String, Volume)| p.0@).no_duplicates(),
                            decreases n - i,
                        {
                            proof {
                                assert(ve_view[i as int] == (
                                    ve@[i as int].0@,
                                    raw_view(ve@[i as int].1),
                                ));
                            }
                            let name = crate::config::env_vars::clone_string(&ve[i].0);
                            if volume_name_in(&out, &name) {
                                let mut msg = String::new();
                                msg.append("duplicate entry");
                                proof {
                                    reveal_strlit("duplicate entry");
                                    reveal_strlit("");
                                }
                                return Err(DockerError::YamlError(msg));
                            }
                            match volume_from_raw(&ve[i].1) {
                                Err(e) => {
                                    return Err(e);
                                },
                                Ok(vol) => {
                                    let ghost pre = out@;
                                    out.push((name, vol));
                                    proof {
                                        let f = |p: (String, Volume)| (p.0@, p.1@);
                                        let g = |p: (String, Volume)| p.0@;
                                        assert(out@.map_values(f) =~= pre.map_values(f).push(
                                            (ve_view[i as int].0, out@.last().1@),
                                        ));
                                        assert(out@.map_values(g) =~= out@.map_values(
                                            f,
                                        ).map_values(|q: (Seq<char>, VolumeView)| q.0));
                                        assert(out@.map_values(g).drop_last() =~= pre.map_values(
                                            g,
                                        ));
                                        assert(!pre.map_values(g).contains(
                                            ve_view[i as int].0,
                                        )) by {
                                            if pre.map_values(g).contains(ve_view[i as int].0) {
                                                let j = choose|j: int|
                                                    0 <= j < pre.map_values(g).len()
                                                        && pre.map_values(g)[j] == ve_view[
                                                        i as int].0;
                                                assert(pre.map_values(f)[j].0 == ve_view[
                                                    i as int].0);
                                            }
                                        }
                                        assert(out@.map_values(g).last() == ve_view[i as int].0);
                                        assert(out@.map_values(g).no_duplicates()) by {
                                            let nm = out@.map_values(g);
                                            let pm = pre.map_values(g);
                                            assert forall|a: int, b: int|
                                                0 <= a < b < nm.len() implies nm[a] != nm[b] by {
                                                assert(nm[a] == pm[a]);
                                                if b == nm.len() - 1 {
                                                    assert(pm.contains(pm[a]));
                                                } else {
                                                    assert(nm[b] == pm[b]);
                                                }
                                            }
                                        }
                                    }
                                },
                            }
                            i = i + 1;
                        }
                        out
                    },
                    _ => {
                        let mut msg = String::new();
                        msg.append("invalid type: expected a mapping");
                        proof {
                            reveal_strlit("invalid type: expected a mapping");
                            reveal_strlit("");
                        }
                        return Err(DockerError::YamlError(msg));
                    },
                },
            };
            let cfg = ComposeConfig { version, services, volumes };
            proof {
                assert(cfg@.services =~= services@.map_values(
                    |p: (String, Service)| (p.0@, crate::config::compose::service_view(p.1)),
                ));
                assert(cfg@.volumes =~= volumes@.map_values(|p: (String, Volume)| (p.0@, p.1@)));
                assert(svc_names(cfg.services@) =~= svc_names(services@));
                assert(cfg.volumes@.map_values(|p: (String, Volume)| p.0@) =~= volumes@.map_values(
                    |p: (String, Volume)| p.0@,
                ));
                if raw_get(entries_view, "volumes"@) is None {
                    assert(cfg@.volumes =~= Seq::<(Seq<char>, VolumeView)>::empty());
                    assert(cfg.volumes@.map_values(|p: (String, Volume)| p.0@) =~= Seq::<
                        Seq<char>,
                    >::empty());
                }
            }
            Ok(cfg)
        },
        _ => {
            let mut msg = String::new();
            msg.append("invalid type: expected a mapping");
            proof {
                reveal_strlit("invalid type: expected a mapping");
                reveal_strlit("");
            }
            Err(DockerError::YamlError(msg))
        },
    }
}


/// Whether an environment value still requires its variable: it holds a
/// `${` reference with no `:-` default.
pub open spec fn needs_var(value: Seq<char>) -> bool {
    crate::text::contains2(value, '$', '{') && !crate::text::contains2(value, ':', '-')
}

/// The still-required keys contributed by one environment's entries, in
/// stored order, duplicates dropped.
pub open spec fn missing_in_entries(
    entries: Seq<(String, String)>,
    j: int,
    vars: Map<Seq<char>, Seq<char>>,
    acc: Seq<Seq<char>>,
) -> Seq<Seq<char>>
    recommends
        0 <= j <= entries.len(),
    decreases entries.len() - j when 0 <= j <= entries.len()
{
    if j >= entries.len() {
        acc
    } else {
        let k = entries[j].0@;
        if needs_var(entries[j].1@) && !vars.contains_key(k) && !acc.contains(k) {
            missing_in_entries(entries, j + 1, vars, acc.push(k))
        } else {
            missing_in_entries(entries, j + 1, vars, acc)
        }
    }
}

/// The still-required keys of all the services, in service order.
pub open spec fn missing_keys(
    services: Seq<(String, Service)>,
    i: int,
    vars: Map<Seq<char>, Seq<char>>,
    acc: Seq<Seq<char>>,
) -> Seq<Seq<char>>
    recommends
        0 <= i <= services.len(),
    decreases services.len() - i when 0 <= i <= services.len()
{
    if i >= services.len() {
        acc
    } else {
        match services[i].1.environment {
            Some(env) => missing_keys(
                services,
                i + 1,
                vars,
                missing_in_entries(env.entries@, 0, vars, acc),
            ),
            None => missing_keys(services, i + 1, vars, acc),
        }
    }
}

/// The first `i` keys, each double-quoted, joined with comma and space.
pub open spec fn quoted_prefix(ks: Seq<Seq<char>>, i: int) -> Seq<char>
    recommends
        0 <= i <= ks.len(),
    decreases i when 0 <= i
{
    if i <= 0 {
        Seq::empty()
    } else {
        quoted_prefix(ks, i - 1) + (if i - 1 > 0 {
            ", "@
        } else {
            Seq::<char>::empty()
        }) + "\""@ + ks[i - 1] + "\""@
    }
}

/// Whether some service's environment marks `k` as required: its value
/// holds a `${` reference with no `:-` default.
pub open spec fn env_requires_key(sv: ServiceView, k: Seq<char>) -> bool {
    match sv.environment {
        Some(m) => m.contains_key(k) && crate::text::contains2(m[k], '$', '{')
            && !crate::text::contains2(m[k], ':', '-'),
        None => false,
    }
}

/// Whether every required environment key of every service is supplied.
pub open spec fn required_env_ok(
    services: Seq<(Seq<char>, ServiceView)>,
    vars: Map<Seq<char>, Seq<char>>,
) -> bool {
    forall|i: int, k: Seq<char>|
        0 <= i < services.len() && #[trigger] env_requires_key(services[i].1, k)
            ==> vars.contains_key(k)
}

/// Check that every variable a service's environment still references
/// without a default is supplied.  The error names the missing variables.
pub fn validate_required_env_vars(config: &ComposeConfig, env_vars: &EnvironmentVars) -> (r:
    Result<(), DockerError>)
    requires
        config.wf(),
        env_vars.wf(),
    ensures
        ({
            let missing = missing_keys(config.services@, 0, env_vars@, Seq::empty());
            match r {
                Ok(_) => required_env_ok(config@.services, env_vars@) && missing
                    == Seq::<Seq<char>>::empty(),
                Err(e) => !required_env_ok(config@.services, env_vars@) && e is ValidationError
                    && missing.len() > 0 && e.text()
                    == "Missing required environment variables: ["@ + quoted_prefix(
                    missing,
                    missing.len() as int,
                ) + "]"@,
            }
        }),
{
    let ghost services_view = config@.services;
    let ghost services_exec = config.services@;
    let ghost all_missing = missing_keys(services_exec, 0, env_vars@, Seq::empty());
    let mut missing: Vec<String> = Vec::new();
    let n = config.services.len();
    let mut i: usize = 0;
    proof {
        assert(missing@.map_values(|s: String| s@) =~= Seq::<Seq<char>>::empty());
    }
    while i < n
        invariant
            i <= n,
            n == config.services@.len(),
            config.wf(),
            env_vars.wf(),
            services_view == config@.services,
            services_exec == config.services@,
            missing_keys(services_exec, 0, env_vars@, Seq::empty()) == missing_keys(
                services_exec,
                i as int,
                env_vars@,
                missing@.map_values(|s: String| s@),
            ),
            missing@.len() > 0 ==> !required_env_ok(services_view, env_vars@),
            missing@.len() == 0 ==> forall|j: int, k: Seq<char>|
                0 <= j < i && #[trigger] env_requires_key(services_view[j].1, k)
                    ==> env_vars@.contains_key(k),
        decreases n - i,
    {
        proof {
            assert(services_view[i as int] == (
                config.services@[i as int].0@,
                crate::config::compose::service_view(config.services@[i as int].1),
            ));
        }
        match &config.services[i].1.environment {
            None => {},
            Some(env) => {
                assert(env.wf()) by {
                    assert(config.services@[i as int].1.wf());
                }
                let entries = env.iter();
                proof {
                    crate::config::env_vars::lemma_assoc_map_domain(entries@);
                }
                let ghost acc0 = missing@.map_values(|s: String| s@);
                proof {
                    assert(config.services@[i as int].1.environment == Some(*env));
                    assert(entries@ == env.entries@);
                    assert(missing_keys(services_exec, i as int, env_vars@, acc0) == missing_keys(
                        services_exec,
                        i + 1,
                        env_vars@,
                        missing_in_entries(env.entries@, 0, env_vars@, acc0),
                    ));
                }
                let m = entries.len();
                let mut k: usize = 0;
                while k < m
                    invariant
                        k <= m,
                        m == entries@.len(),
                        env.wf(),
                        env_vars.wf(),
                        services_view == config@.services,
                        services_exec == config.services@,
                        entries@ == env.entries@,
                        i < services_exec.len(),
                        services_exec[i as int].1.environment == Some(*env),
                        missing_keys(services_exec, 0, env_vars@, Seq::empty()) == missing_keys(
                            services_exec,
                            i + 1,
                            env_vars@,
                            missing_in_entries(
                                entries@,
                                k as int,
                                env_vars@,
                                missing@.map_values(|s: String| s@),
                            ),
                        ),
                        i < services_view.len(),
                        crate::config::compose::service_view(
                            config.services@[i as int].1,
                        ).environment == Some(env@),
                        services_view[i as int].1.environment == Some(env@),
                        forall|q: int|
                            0 <= q < entries@.len() ==> env@.contains_key(
                                (#[trigger] entries@[q]).0@,
                            ) && env@[entries@[q].0@] == entries@[q].1@,
                        forall|key: Seq<char>|
                            #[trigger] env@.contains_key(key) ==> exists|q: int|
                                0 <= q < entries@.len() && (#[trigger] entries@[q]).0@ == key,
                        missing@.len() > 0 ==> !required_env_ok(services_view, env_vars@),
                        missing@.len() == 0 ==> forall|j: int, key: Seq<char>|
                            0 <= j < i && #[trigger] env_requires_key(services_view[j].1, key)
                                ==> env_vars@.contains_key(key),
                        missing@.len() == 0 ==> forall|q: int|
                            0 <= q < k && env_requires_key(
                                services_view[i as int].1,
                                (#[trigger] entries@[q]).0@,
                            ) ==> env_vars@.contains_key(entries@[q].0@),
                    decreases m - k,
                {
                    let value = chars_of(entries[k].1.as_str());
                    if crate::text::contains2_vec(&value, '$', '{') && !crate::text::contains2_vec(
                        &value,
                        ':',
                        '-',
                    ) && !env_vars.contains_key(entries[k].0.as_str()) && !crate::config::compose::name_in(
                        &missing,
                        &entries[k].0,
                    ) {
                        proof {
                            assert(env_requires_key(services_view[i as int].1, entries@[
                                k as int].0@));
                            assert(needs_var(entries@[k as int].1@));
                        }
                        let ghost pre = missing@.map_values(|s: String| s@);
                        missing.push(crate::config::env_vars::clone_string(&entries[k].0));
                        proof {
                            assert(missing@.map_values(|s: String| s@) =~= pre.push(entries@[
                                k as int].0@));
                        }
                    }
                    k = k + 1;
                }
                proof {
                    if missing@.len() == 0 {
                        assert forall|key: Seq<char>| #[trigger]
                            env_requires_key(services_view[i as int].1, key) implies env_vars@
                            .contains_key(key) by {
                            let q = choose|q: int|
                                0 <= q < entries@.len() && (#[trigger] entries@[q]).0@ == key;
                            assert(env_requires_key(
                                services_view[i as int].1,
                                entries@[q].0@,
                            ));
                        }
                    }
                }
            },
        }
        i = i + 1;
    }
    proof {
        assert(all_missing == missing@.map_values(|s: String| s@));
        if missing@.len() == 0 {
            assert(missing@.map_values(|s: String| s@) =~= Seq::<Seq<char>>::empty());
        }
    }
    if missing.len() == 0 {
        Ok(())
    } else {
        let ghost ms = missing@.map_values(|s: String| s@);
        let mut out: Vec<char> = Vec::new();
        crate::config::docker_file::append_str(
            &mut out,
            "Missing required environment variables: [",
        );
        let mut i: usize = 0;
        proof {
            assert(out@ =~= "Missing required environment variables: ["@ + quoted_prefix(
                ms,
                0,
            ));
        }
        while i < missing.len()
            invariant
                i <= missing@.len(),
                ms == missing@.map_values(|s: String| s@),
                out@ == "Missing required environment variables: ["@ + quoted_prefix(
                    ms,
                    i as int,
                ),
            decreases missing@.len() - i,
        {
            proof {
                assert(ms[i as int] == missing@[i as int]@);
            }
            if i > 0 {
                crate::config::docker_file::append_str(&mut out, ", ");
            }
            crate::config::docker_file::append_str(&mut out, "\"");
            crate::config::docker_file::append_string(&mut out, &missing[i]);
            crate::config::docker_file::append_str(&mut out, "\"");
            i = i + 1;
            proof {
                assert(out@ =~= "Missing required environment variables: ["@ + quoted_prefix(
                    ms,
                    i as int,
                ));
            }
        }
        crate::config::docker_file::append_str(&mut out, "]");
        Err(DockerError::ValidationError(string_of(&out)))
    }
}

/// The manifest parser: environment substitution over the raw text, the
/// structural read, the normalization into the typed document, and the
/// required-variable check, in that order.
pub struct ComposeParser {
    /// The path of an environment file to merge, when one was named.  The
    /// core does no reading itself: the caller that owns I/O loads the file
    /// and hands its text to [`ComposeParser::env_file_content`].
    pub env_file_path: Option<String>,
    /// The text of the named environment file, once loaded.
    pub env_file_text: Option<String>,
    /// Explicitly supplied variables.
    pub vars: Option<EnvironmentVars>,
}

impl ComposeParser {
    /// A parser with no variables.
    pub fn new() -> (r: ComposeParser)
        ensures
            r.env_file_path is None,
            r.env_file_text is None,
            r.vars is None,
            r.wf(),
    {
        ComposeParser { env_file_path: None, env_file_text: None, vars: None }
    }

    /// The parser's invariant: supplied variables are well-formed.
    pub open spec fn wf(&self) -> bool {
        match self.vars {
            Some(v) => v.wf(),
            None => true,
        }
    }

    /// Whether parsing can proceed: a named environment file has its text.
    pub open spec fn ready(&self) -> bool {
        self.env_file_path is Some ==> self.env_file_text is Some
    }

    /// The variables substitution runs with: the supplied ones, the
    /// environment file's entries overriding same-named ones.
    pub open spec fn merged_vars(&self) -> Map<Seq<char>, Seq<char>> {
        let base = match self.vars {
            Some(v) => v@,
            None => Map::<Seq<char>, Seq<char>>::empty(),
        };
        match self.env_file_text {
            Some(t) => base.union_prefer_right(
                crate::parser::env::env_file_map(crate::text::split_all(t@, '\n')),
            ),
            None => base,
        }
    }

    /// Name an environment file for variable substitution.  Its text must be
    /// supplied through [`ComposeParser::env_file_content`] before parsing;
    /// reading the file is the caller's work.
    pub fn env_file(self, path: &str) -> (r: ComposeParser)
        requires
            self.wf(),
        ensures
            r.wf(),
            r.env_file_path matches Some(p) && p@ == path@,
            r.env_file_text == self.env_file_text,
            r.vars == self.vars,
    {
        let mut p = String::new();
        p.append(path);
        proof {
            reveal_strlit("");
        }
        ComposeParser { env_file_path: Some(p), env_file_text: self.env_file_text, vars: self.vars }
    }

    /// Supply the text of the named environment file.
    pub fn env_file_content(self, content: &str) -> (r: ComposeParser)
        requires
            self.wf(),
        ensures
            r.wf(),
            r.env_file_text matches Some(t) && t@ == content@,
            r.env_file_path == self.env_file_path,
            r.vars == self.vars,
    {
        let mut t = String::new();
        t.append(content);
        proof {
            reveal_strlit("");
        }
        ComposeParser {
            env_file_path: self.env_file_path,
            env_file_text: Some(t),
            vars: self.vars,
        }
    }

    /// Supply variables directly.
    pub fn env_vars(self, vars: EnvironmentVars) -> (r: ComposeParser)
        requires
            vars.wf(),
        ensures
            r.wf(),
            r.vars == Some(vars),
            r.env_file_path == self.env_file_path,
            r.env_file_text == self.env_file_text,
    {
        ComposeParser {
            env_file_path: self.env_file_path,
            env_file_text: self.env_file_text,
            vars: Some(vars),
        }
    }

    /// Parse a manifest: substitute the gathered variables over the raw
    /// text, read its structure, normalize it into the typed document, and
    /// check that every still-required variable is supplied.  A named but
    /// unloaded environment file is an error.  On success the document is
    /// exactly the verified normalization of the named decode of the
    /// substituted text, and every still-required variable is supplied.
    pub fn parse(self, content: &str) -> (r: Result<ComposeConfig, DockerError>)
        requires
            self.wf(),
        ensures
            ({
                let subbed = crate::parser::env::substituted(content@, self.merged_vars());
                match r {
                    Ok(cfg) => self.ready() && cfg.wf() && (match crate::yaml::doc_of(subbed) {
                        Ok(node) => spec_config_from_raw(node) == Ok::<_, Seq<char>>(cfg@),
                        Err(_) => false,
                    }) && required_env_ok(cfg@.services, self.merged_vars()),
                    Err(e) => (!self.ready() ==> e is ValidationError && e.text()
                        == "Failed to read env file: its text was not supplied"@) && (self.ready()
                        ==> match crate::yaml::doc_of(subbed) {
                        Err(m) => e is YamlError && e.text() == m,
                        Ok(node) => (e is YamlError && (e.text()
                            == "structure nested too deeply"@ || e.text()
                            == "mapping key must be a string"@ || e.text()
                            == "unsupported document value"@)) || (match spec_config_from_raw(
                            node,
                        ) {
                            Err(m) => e is YamlError && e.text() == m,
                            Ok(cv) => e is ValidationError && !required_env_ok(
                                cv.services,
                                self.merged_vars(),
                            ),
                        }),
                    }),
                }
            }),
    {
        let mut vars = match self.vars {
            Some(v) => v,
            None => EnvironmentVars::new(),
        };
        proof {
            if self.vars is None {
                assert(vars@ =~= Map::<Seq<char>, Seq<char>>::empty());
            }
        }
        match self.env_file_text {
            Some(text) => {
                let file_vars = crate::parser::env::parse_env_file(text.as_str());
                vars.extend(&file_vars);
            },
            None => {
                if self.env_file_path.is_some() {
                    let mut msg = String::new();
                    msg.append("Failed to read env file: its text was not supplied");
                    proof {
                        reveal_strlit("Failed to read env file: its text was not supplied");
                        reveal_strlit("");
                        assert(msg@ =~= "Failed to read env file: its text was not supplied"@);
                    }
                    return Err(DockerError::ValidationError(msg));
                }
            },
        }
        assert(vars@ == self.merged_vars());
        let processed = crate::parser::env::substitute_env_vars(content, &vars);
        let raw = match crate::yaml::parse_raw(processed.as_str()) {
            Ok(v) => v,
            Err(e) => {
                return Err(e);
            },
        };
        let config = match config_from_raw(&raw) {
            Ok(c) => c,
            Err(e) => {
                return Err(e);
            },
        };
        match validate_required_env_vars(&config, &vars) {
            Ok(_) => Ok(config),
            Err(e) => Err(e),
        }
    }
}

} // verus!
