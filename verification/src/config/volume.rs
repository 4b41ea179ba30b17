//! Volume mounts: named volumes, bind mounts, and top-level volume
//! definitions, with the short-form string syntax `source:target[:ro]`.

use vstd::prelude::*;

use crate::text::{
    chars_of, split_all, split_all_vec, starts_with, starts_with_vec, string_of, subvec,
};

verus! {

/// A volume, as a service references it or as the top level defines it.
pub enum Volume {
    /// A named volume reference, kept in its raw `name:target[:ro]` form.
    Named(String),
    /// A bind mount of a host path.
    Bind { source: String, target: String, read_only: bool },
    /// A top-level volume definition.
    Config { name: String, driver: Option<String>, driver_opts: Option<Vec<(String, String)>> },
}

/// The mathematical form of a volume.
pub enum VolumeView {
    Named(Seq<char>),
    Bind { source: Seq<char>, target: Seq<char>, read_only: bool },
    Config {
        name: Seq<char>,
        driver: Option<Seq<char>>,
        driver_opts: Option<Seq<(Seq<char>, Seq<char>)>>,
    },
}

/// The view of an optional string.
pub open spec fn opt_str_view(s: Option<String>) -> Option<Seq<char>> {
    match s {
        Some(x) => Some(x@),
        None => None,
    }
}

/// The mathematical form of a volume value.
pub open spec fn volume_view(v: Volume) -> VolumeView {
    match v {
        Volume::Named(n) => VolumeView::Named(n@),
        Volume::Bind { source, target, read_only } => VolumeView::Bind {
            source: source@,
            target: target@,
            read_only,
        },
        Volume::Config { name, driver, driver_opts } => VolumeView::Config {
            name: name@,
            driver: opt_str_view(driver),
            driver_opts: match driver_opts {
                Some(m) => Some(crate::config::docker_file::pairs_view(m@)),
                None => None,
            },
        },
    }
}

impl View for Volume {
    type V = VolumeView;

    open spec fn view(&self) -> VolumeView {
        volume_view(*self)
    }
}

/// Whether a short-form source looks like a filesystem path: absolute, or
/// `./`-relative.
pub open spec fn looks_like_path(s: Seq<char>) -> bool {
    (s.len() > 0 && s[0] == '/') || starts_with(s, "./"@)
}

/// The volume denoted by the short string form `source:target[:ro]`: a bind
/// mount when the source looks like a path, else a named volume holding the
/// whole string.  Any other shape is a named volume holding the whole
/// string.
pub open spec fn short_volume(s: Seq<char>) -> VolumeView {
    let parts = split_all(s, ':');
    if parts.len() == 2 {
        if looks_like_path(parts[0]) {
            VolumeView::Bind { source: parts[0], target: parts[1], read_only: false }
        } else {
            VolumeView::Named(s)
        }
    } else if parts.len() == 3 && parts[2] == "ro"@ {
        if looks_like_path(parts[0]) {
            VolumeView::Bind { source: parts[0], target: parts[1], read_only: true }
        } else {
            VolumeView::Named(s)
        }
    } else {
        VolumeView::Named(s)
    }
}

/// Parse the short string form of a volume.
pub fn volume_from_short(s: &Vec<char>) -> (r: Volume)
    ensures
        r@ == short_volume(s@),
{
    let parts = split_all_vec(s, ':');
    let ghost parts_spec = split_all(s@, ':');
    proof {
        assert(parts@.map_values(|p: Vec<char>| p@)[0] == parts_spec[0]);
        if parts@.len() >= 2 {
            assert(parts@.map_values(|p: Vec<char>| p@)[1] == parts_spec[1]);
        }
        if parts@.len() >= 3 {
            assert(parts@.map_values(|p: Vec<char>| p@)[2] == parts_spec[2]);
        }
        reveal_strlit("./");
        reveal_strlit("ro");
    }
    if parts.len() == 2 {
        if exec_looks_like_path(&parts[0]) {
            Volume::Bind {
                source: string_of(&parts[0]),
                target: string_of(&parts[1]),
                read_only: false,
            }
        } else {
            Volume::Named(string_of(s))
        }
    } else if parts.len() == 3 && crate::text::eq_chars(&parts[2], &chars_of("ro")) {
        if exec_looks_like_path(&parts[0]) {
            Volume::Bind {
                source: string_of(&parts[0]),
                target: string_of(&parts[1]),
                read_only: true,
            }
        } else {
            Volume::Named(string_of(s))
        }
    } else {
        Volume::Named(string_of(s))
    }
}

/// Executable test matching [`looks_like_path`].
fn exec_looks_like_path(s: &Vec<char>) -> (r: bool)
    ensures
        r == looks_like_path(s@),
{
    proof {
        reveal_strlit("./");
    }
    (s.len() > 0 && s[0] == '/') || starts_with_vec(s, &chars_of("./"))
}

/// The short string rendering of a volume, where one exists: the raw name of
/// a named volume, `source:target[:ro]` of a bind mount; a top-level
/// definition has none.
pub open spec fn render_short(v: VolumeView) -> Option<Seq<char>> {
    match v {
        VolumeView::Named(n) => Some(n),
        VolumeView::Bind { source, target, read_only } => Some(
            if read_only {
                source + ":"@ + target + ":ro"@
            } else {
                source + ":"@ + target
            },
        ),
        VolumeView::Config { .. } => None,
    }
}

impl Volume {
    /// The short string form of this volume, if it has one.
    pub fn to_short_string(&self) -> (r: Option<String>)
        ensures
            match r {
                Some(s) => render_short(self@) == Some(s@),
                None => render_short(self@) is None,
            },
    {
        match self {
            Volume::Named(n) => Some(crate::config::env_vars::clone_string(n)),
            Volume::Bind { source, target, read_only } => {
                let mut out = chars_of(source.as_str());
                let mut colon = chars_of(":");
                out.append(&mut colon);
                let mut t = chars_of(target.as_str());
                out.append(&mut t);
                if *read_only {
                    let mut ro = chars_of(":ro");
                    out.append(&mut ro);
                }
                Some(string_of(&out))
            },
            Volume::Config { .. } => None,
        }
    }

    /// Whether this volume answers to `name`: a named volume by the text
    /// before its first `:`, a bind mount by its target, a definition by its
    /// name.
    pub fn matches_name(&self, name: &str) -> (r: bool)
        ensures
            r == ({
                match self@ {
                    VolumeView::Named(n) => split_all(n, ':')[0] == name@,
                    VolumeView::Bind { target, .. } => target == name@,
                    VolumeView::Config { name: vn, .. } => vn == name@,
                }
            }),
    {
        match self {
            Volume::Named(n) => {
                let nv = chars_of(n.as_str());
                let parts = split_all_vec(&nv, ':');
                proof {
                    assert(parts@.map_values(|p: Vec<char>| p@)[0] == split_all(n@, ':')[0]);
                }
                crate::text::eq_chars(&parts[0], &chars_of(name))
            },
            Volume::Bind { target, .. } => crate::config::env_vars::str_eq(target.as_str(), name),
            Volume::Config { name: vn, .. } => crate::config::env_vars::str_eq(vn.as_str(), name),
        }
    }
}

} // verus!
