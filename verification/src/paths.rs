//! Where Codex, CC Switch and Codex++ keep the files the configuration is
//! read from.

use vstd::prelude::*;
use crate::text::{chars_of, starts_with_in};

verus! {

/// The path starts with a Windows verbatim prefix (`\\?\`), under which
/// `Path::join` rebuilds the path from its components.
pub open spec fn verbatim(base: Seq<char>) -> bool {
    base.len() >= 4 && base[0] == '\\' && base[1] == '\\' && base[2] == '?' && base[3] == '\\'
}

/// `joined` is `base` with the relative `name` appended, as `Path::join`
/// appends it on every platform: it ends with the name, and but for a
/// verbatim base it is the base, a separator where the base does not end in
/// one, and the name.
pub open spec fn joined_path(base: Seq<char>, name: Seq<char>, joined: Seq<char>) -> bool {
    &&& name.len() <= joined.len()
    &&& joined.subrange(joined.len() - name.len(), joined.len() as int) == name
    &&& !verbatim(base) ==> {
        &&& base.len() + name.len() <= joined.len() <= base.len() + name.len() + 1
        &&& joined.subrange(0, base.len() as int) == base
    }
}

/// A single relative path component: not empty, not `.` or `..` (which a
/// verbatim base would fold away), free of separators and of drive prefixes.
pub open spec fn plain_name(name: Seq<char>) -> bool {
    &&& name.len() > 0
    &&& !(name.len() == 1 && name[0] == '.')
    &&& !(name.len() == 2 && name[0] == '.' && name[1] == '.')
    &&& forall|i: int| 0 <= i < name.len() ==> #[trigger] name[i] != '/' && name[i] != '\\' && name[i]
        != ':'
}

/// `Path::new(base).join(name)`, as a string. The separator it puts in
/// between depends on the platform; the contract states what holds on all
/// of them.
#[verifier::external_body]
fn join_path(base: &str, name: &str) -> (r: String)
    requires
        plain_name(name@),
    ensures
        joined_path(base@, name@, r@),
{
    std::path::Path::new(base).join(name).to_string_lossy().into_owned()
}

/// The Codex home: `CODEX_HOME` when it is set, else `.codex` in the home
/// directory.
pub fn codex_home(codex_home_var: Option<&str>, home: Option<&str>) -> (r: Option<String>)
    ensures
        match codex_home_var {
            Some(v) => r is Some && r.unwrap()@ == v@,
            None => match home {
                Some(h) => r is Some && joined_path(h@, ".codex"@, r.unwrap()@),
                None => r is None,
            },
        },
{
    match codex_home_var {
        Some(v) => Some(v.to_owned()),
        None => match home {
            Some(h) => {
                proof {
                    reveal_strlit(".codex");
                }
                Some(join_path(h, ".codex"))
            },
            None => None,
        },
    }
}

/// A file in the Codex home.
fn home_file(codex_home: Option<&str>, name: &str) -> (r: Option<String>)
    requires
        plain_name(name@),
    ensures
        match codex_home {
            Some(h) => r is Some && joined_path(h@, name@, r.unwrap()@),
            None => r is None,
        },
{
    match codex_home {
        Some(h) => Some(join_path(h, name)),
        None => None,
    }
}

/// `auth.json` in the Codex home.
pub fn auth_path(codex_home: Option<&str>) -> (r: Option<String>)
    ensures
        match codex_home {
            Some(h) => r is Some && joined_path(h@, "auth.json"@, r.unwrap()@),
            None => r is None,
        },
{
    proof {
        reveal_strlit("auth.json");
    }
    home_file(codex_home, "auth.json")
}

/// `config.toml` in the Codex home.
pub fn config_path(codex_home: Option<&str>) -> (r: Option<String>)
    ensures
        match codex_home {
            Some(h) => r is Some && joined_path(h@, "config.toml"@, r.unwrap()@),
            None => r is None,
        },
{
    proof {
        reveal_strlit("config.toml");
    }
    home_file(codex_home, "config.toml")
}

/// The `backups` directory of the Codex home, where Codex++ keeps copies of
/// the live configuration.
pub fn backups_path(codex_home: Option<&str>) -> (r: Option<String>)
    ensures
        match codex_home {
            Some(h) => r is Some && joined_path(h@, "backups"@, r.unwrap()@),
            None => r is None,
        },
{
    proof {
        reveal_strlit("backups");
    }
    home_file(codex_home, "backups")
}

/// A file in a directory of the home directory.
fn home_dir_file(home: Option<&str>, dir: &str, name: &str) -> (r: Option<String>)
    requires
        plain_name(dir@),
        plain_name(name@),
    ensures
        match home {
            Some(h) => r is Some && exists|d: Seq<char>|
                #![trigger joined_path(h@, dir@, d)]
                joined_path(h@, dir@, d) && joined_path(d, name@, r.unwrap()@),
            None => r is None,
        },
{
    match home {
        Some(h) => {
            let d = join_path(h, dir);
            let f = join_path(d.as_str(), name);
            assert(joined_path(h@, dir@, d@));
            Some(f)
        },
        None => None,
    }
}

/// CC Switch's database: `.cc-switch/cc-switch.db` in the home directory.
pub fn cc_switch_db_path(home: Option<&str>) -> (r: Option<String>)
    ensures
        match home {
            Some(h) => r is Some && exists|d: Seq<char>|
                #![trigger joined_path(h@, ".cc-switch"@, d)]
                joined_path(h@, ".cc-switch"@, d) && joined_path(d, "cc-switch.db"@, r.unwrap()@),
            None => r is None,
        },
{
    proof {
        reveal_strlit(".cc-switch");
        reveal_strlit("cc-switch.db");
    }
    home_dir_file(home, ".cc-switch", "cc-switch.db")
}

/// Codex++'s settings: `.codex-session-delete/settings.json` in the home
/// directory.
pub fn codex_plus_settings_path(home: Option<&str>) -> (r: Option<String>)
    ensures
        match home {
            Some(h) => r is Some && exists|d: Seq<char>|
                #![trigger joined_path(h@, ".codex-session-delete"@, d)]
                joined_path(h@, ".codex-session-delete"@, d) && joined_path(
                    d,
                    "settings.json"@,
                    r.unwrap()@,
                ),
            None => r is None,
        },
{
    proof {
        reveal_strlit(".codex-session-delete");
        reveal_strlit("settings.json");
    }
    home_dir_file(home, ".codex-session-delete", "settings.json")
}

/// An entry of the Codex backups directory.
#[derive(Clone, Debug, PartialEq)]
pub struct BackupDir {
    pub path: String,
    /// The entry's file name.
    pub name: String,
    pub is_dir: bool,
    /// When it was last modified, in nanoseconds since the Unix epoch (the
    /// epoch itself when unknown).
    pub modified: i128,
}

/// A directory holding a copy of the live Codex++ configuration.
pub open spec fn live_backup(d: BackupDir) -> bool {
    d.is_dir && "codex-plus-live-"@.is_prefix_of(d.name@)
}

/// Entry `a` comes before entry `b`: it is newer, or as new and listed
/// earlier.
pub open spec fn newer_first(dirs: Seq<BackupDir>, a: int, b: int) -> bool {
    dirs[a].modified > dirs[b].modified || (dirs[a].modified == dirs[b].modified && a < b)
}

/// `order` lists the live backups among the first `upto` entries, newest
/// first, entries of the same age in their listed order.
pub open spec fn backup_order(dirs: Seq<BackupDir>, upto: int, order: Seq<int>) -> bool {
    &&& forall|i: int| 0 <= i < order.len() ==> 0 <= #[trigger] order[i] < upto && live_backup(
        dirs[order[i]],
    )
    &&& forall|i: int, j: int| 0 <= i < j < order.len() ==> newer_first(dirs, #[trigger] order[i], #[trigger] order[j])
    &&& forall|k: int| 0 <= k < upto && live_backup(#[trigger] dirs[k]) ==> order.contains(k)
}

fn is_live_backup(d: &BackupDir) -> (b: bool)
    ensures
        b == live_backup(*d),
{
    if !d.is_dir {
        return false;
    }
    let name = chars_of(d.name.as_str());
    let prefix = chars_of("codex-plus-live-");
    assert(name@.subrange(0, name@.len() as int) =~= name@);
    starts_with_in(&name, 0, name.len(), &prefix)
}

/// The Codex++ live backups among the entries of the backups directory,
/// newest first, entries of the same age in the order they were listed.
pub fn codex_plus_backup_order(dirs: &Vec<BackupDir>) -> (r: Vec<String>)
    ensures
        exists|order: Seq<int>|
            #![trigger backup_order(dirs@, dirs@.len() as int, order)]
            backup_order(dirs@, dirs@.len() as int, order) && order.len() == r@.len() && forall|i: int|
                0 <= i < order.len() ==> (#[trigger] r@[i])@ == dirs@[order[i]].path@,
{
    let mut order: Vec<usize> = Vec::new();
    let mut k: usize = 0;
    while k < dirs.len()
        invariant
            k <= dirs.len(),
            forall|i: int| 0 <= i < order@.len() ==> order@[i] < k,
            backup_order(dirs@, k as int, order@.map_values(|i: usize| i as int)),
        decreases dirs.len() - k,
    {
        let ghost os = order@.map_values(|i: usize| i as int);
        if is_live_backup(&dirs[k]) {
            let mut p: usize = 0;
            while p < order.len() && dirs[order[p]].modified >= dirs[k].modified
                invariant
                    p <= order.len(),
                    k < dirs.len(),
                    forall|i: int| 0 <= i < order@.len() ==> order@[i] < k,
                    forall|q: int| 0 <= q < p ==> dirs@[order@[q] as int].modified >= dirs@[k as int].modified,
                decreases order.len() - p,
            {
                p = p + 1;
            }
            order.insert(p, k);
            let ghost ns = order@.map_values(|i: usize| i as int);
            assert(ns =~= os.insert(p as int, k as int));
            assert forall|i: int, j: int| 0 <= i < j < ns.len() implies newer_first(
                dirs@,
                #[trigger] ns[i],
                #[trigger] ns[j],
            ) by {
                if j < p {
                    assert(ns[i] == os[i] && ns[j] == os[j]);
                } else if j == p {
                    assert(ns[i] == os[i]);
                } else if i == p {
                    assert(ns[j] == os[j - 1]);
                    assert(os[p as int] == os[p as int]);
                    if j - 1 > p {
                        assert(newer_first(dirs@, os[p as int], os[j - 1]));
                    }
                } else if i < p {
                    assert(ns[i] == os[i] && ns[j] == os[j - 1]);
                } else {
                    assert(ns[i] == os[i - 1] && ns[j] == os[j - 1]);
                }
            }
            assert forall|m: int| 0 <= m < k + 1 && live_backup(#[trigger] dirs@[m]) implies ns.contains(m) by {
                if m == k {
                    assert(ns[p as int] == m);
                } else {
                    let w = choose|w: int| 0 <= w < os.len() && os[w] == m;
                    if w < p {
                        assert(ns[w] == m);
                    } else {
                        assert(ns[w + 1] == m);
                    }
                }
            }
        } else {
            assert forall|m: int| 0 <= m < k + 1 && live_backup(#[trigger] dirs@[m]) implies os.contains(m) by {
                if m == k {
                    assert(false);
                }
            }
        }
        k = k + 1;
    }
    let ghost os = order@.map_values(|i: usize| i as int);
    let mut r: Vec<String> = Vec::new();
    let mut i: usize = 0;
    while i < order.len()
        invariant
            i <= order.len(),
            os == order@.map_values(|i: usize| i as int),
            forall|q: int| 0 <= q < order@.len() ==> order@[q] < dirs.len(),
            r@.len() == i,
            forall|q: int| 0 <= q < i ==> (#[trigger] r@[q])@ == dirs@[os[q]].path@,
        decreases order.len() - i,
    {
        r.push(dirs[order[i]].path.clone());
        i = i + 1;
    }
    assert(backup_order(dirs@, dirs@.len() as int, os));
    r
}

} // verus!
