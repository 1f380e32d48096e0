//! Where the status-bar plugin goes.
//!
//! The desktop shell discovers user plugins under
//! `<config>/omarchy/plugins/<id>/`, where `<config>` is `XDG_CONFIG_HOME`
//! when that is set and non-empty, else `$HOME/.config`. Paths are bytes, as
//! the environment hands them over.

use vstd::prelude::*;
use vstd::string::StringSliceAdditionalSpecFns;

verus! {

/// The path separator, `/`.
pub const SEPARATOR: u8 = 0x2F;

/// `base` extended by the relative path `rel`: a separator goes between them
/// unless `base` is empty or already ends in one.
pub open spec fn joined(base: Seq<u8>, rel: Seq<u8>) -> Seq<u8> {
    if base.len() > 0 && base.last() != SEPARATOR {
        base + seq![SEPARATOR] + rel
    } else {
        base + rel
    }
}

/// A variable's value, when it is set and not empty.
pub open spec fn non_empty(v: Option<Vec<u8>>) -> Option<Seq<u8>> {
    match v {
        Some(d) if d@.len() > 0 => Some(d@),
        _ => None,
    }
}

/// The user's configuration directory, from the values of `XDG_CONFIG_HOME`
/// and `HOME`; `None` when neither is set to something non-empty.
pub open spec fn spec_config_dir(xdg: Option<Vec<u8>>, home: Option<Vec<u8>>) -> Option<Seq<u8>> {
    match non_empty(xdg) {
        Some(d) => Some(d),
        None => match non_empty(home) {
            Some(h) => Some(joined(h, ".config".spec_bytes())),
            None => None,
        },
    }
}

/// The plugin's install directory below a configuration directory.
pub open spec fn plugin_dir(config: Seq<u8>) -> Seq<u8> {
    joined(
        joined(joined(config, "omarchy".spec_bytes()), "plugins".spec_bytes()),
        "maono".spec_bytes(),
    )
}

/// The plugin's install directory, from the values of `XDG_CONFIG_HOME` and
/// `HOME`; `None` when neither is set to something non-empty.
pub open spec fn spec_install_dir(xdg: Option<Vec<u8>>, home: Option<Vec<u8>>) -> Option<Seq<u8>> {
    match spec_config_dir(xdg, home) {
        Some(c) => Some(plugin_dir(c)),
        None => None,
    }
}

/// Law: a path is extended with a separator between it and the relative
/// part, unless it is empty or already ends in one.
pub proof fn lemma_joined(base: Seq<u8>, rel: Seq<u8>)
    ensures
        base.len() == 0 ==> joined(base, rel) == rel,
        base.len() > 0 && base[base.len() - 1] == 0x2Fu8 ==> joined(base, rel) == base + rel,
        base.len() > 0 && base[base.len() - 1] != 0x2Fu8 ==> joined(base, rel) == base + seq![
            0x2Fu8,
        ] + rel,
{
    if base.len() == 0 {
        assert(base + rel =~= rel);
    }
}

/// Law: the configuration directory is `XDG_CONFIG_HOME` when it is set and
/// not empty, else `.config` under a set, non-empty `HOME`, else there is
/// none; the plugin goes in `omarchy/plugins/maono` under it.
pub proof fn lemma_config_dir(xdg: Option<Vec<u8>>, home: Option<Vec<u8>>)
    ensures
        (xdg matches Some(d) && d@.len() > 0) ==> spec_config_dir(xdg, home) == Some(xdg->0@),
        !(xdg matches Some(d) && d@.len() > 0) && (home matches Some(h) && h@.len() > 0)
            ==> spec_config_dir(xdg, home) == Some(joined(home->0@, ".config".spec_bytes())),
        !(xdg matches Some(d) && d@.len() > 0) && !(home matches Some(h) && h@.len() > 0)
            ==> spec_config_dir(xdg, home) is None,
        spec_install_dir(xdg, home) == match spec_config_dir(xdg, home) {
            Some(c) => Some(
                joined(
                    joined(joined(c, "omarchy".spec_bytes()), "plugins".spec_bytes()),
                    "maono".spec_bytes(),
                ),
            ),
            None => None,
        },
{
}

fn push_all(out: &mut Vec<u8>, s: &[u8])
    ensures
        final(out)@ == old(out)@ + s@,
{
    let ghost start = out@;
    let mut i: usize = 0;
    while i < s.len()
        invariant
            i <= s@.len(),
            out@ == start + s@.take(i as int),
        decreases s@.len() - i,
    {
        out.push(s[i]);
        i = i + 1;
        assert(out@ =~= start + s@.take(i as int));
    }
    assert(s@.take(i as int) =~= s@);
}

/// `base` extended by the relative path `rel`.
pub fn join(base: &[u8], rel: &str) -> (p: Vec<u8>)
    ensures
        p@ == joined(base@, rel.spec_bytes()),
{
    let mut p: Vec<u8> = Vec::new();
    push_all(&mut p, base);
    let n = base.len();
    if n > 0 && base[n - 1] != SEPARATOR {
        p.push(SEPARATOR);
    }
    push_all(&mut p, rel.as_bytes());
    p
}

fn non_empty_value(v: &Option<Vec<u8>>) -> (r: Option<&[u8]>)
    ensures
        match r {
            Some(d) => non_empty(*v) == Some(d@),
            None => non_empty(*v) is None,
        },
{
    match v {
        Some(d) => if d.len() > 0 {
            Some(d.as_slice())
        } else {
            None
        },
        None => None,
    }
}

/// The user's configuration directory: `XDG_CONFIG_HOME` when it is set and
/// non-empty, else `$HOME/.config`; `None` when neither variable helps.
pub fn config_dir(xdg: &Option<Vec<u8>>, home: &Option<Vec<u8>>) -> (d: Option<Vec<u8>>)
    ensures
        match d {
            Some(p) => spec_config_dir(*xdg, *home) == Some(p@),
            None => spec_config_dir(*xdg, *home) is None,
        },
{
    match non_empty_value(xdg) {
        Some(x) => {
            let mut p: Vec<u8> = Vec::new();
            push_all(&mut p, x);
            Some(p)
        },
        None => match non_empty_value(home) {
            Some(h) => Some(join(h, ".config")),
            None => None,
        },
    }
}

/// The plugin's install directory, `<config>/omarchy/plugins/maono`; `None`
/// when neither `XDG_CONFIG_HOME` nor `HOME` is set to something non-empty.
pub fn install_dir(xdg: &Option<Vec<u8>>, home: &Option<Vec<u8>>) -> (d: Option<Vec<u8>>)
    ensures
        match d {
            Some(p) => spec_install_dir(*xdg, *home) == Some(p@),
            None => spec_install_dir(*xdg, *home) is None,
        },
{
    match config_dir(xdg, home) {
        Some(c) => {
            let a = join(c.as_slice(), "omarchy");
            let b = join(a.as_slice(), "plugins");
            Some(join(b.as_slice(), "maono"))
        },
        None => None,
    }
}

} // verus!
