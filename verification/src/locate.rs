//! Where things are found: the configuration file and the compositors'
//! sockets, from the environment values and directory entries the caller
//! reads.
use vstd::prelude::*;

use crate::order::{ascending, lemma_ascending_len, sort_strings, texts};
use crate::text::{is_blank, trim, trim_str};

verus! {

/// `p` joined with the relative path `c`, as `Path::join` does: no separator
/// after an empty path or one that ends in `/`.
pub open spec fn path_join(p: Seq<char>, c: Seq<char>) -> Seq<char> {
    if p.len() == 0 {
        c
    } else if p.last() == '/' {
        p + c
    } else {
        p + "/"@ + c
    }
}

fn join(p: &str, c: &str) -> (r: String)
    ensures
        r@ == path_join(p@, c@),
{
    let mut out = String::from_str(p);
    if p.is_empty() {
        return String::from_str(c);
    }
    let v = crate::text::chars_vec(p);
    if v[v.len() - 1] != '/' {
        out.append("/");
    }
    out.append(c);
    out
}

/// The value of an optional text as a list of zero or one items.
pub open spec fn opt_item(o: Option<Seq<char>>) -> Seq<Seq<char>> {
    match o {
        Some(x) => seq![x],
        None => seq![],
    }
}

/// The places a configuration file is looked for, in order: the file that
/// `LUSH_CONFIG` names, `lush/config.lua` under `XDG_CONFIG_HOME`,
/// `.config/lush/config.lua` under `HOME`, and `config.lua`.
pub open spec fn config_candidates_of(
    lush_config: Option<Seq<char>>,
    xdg_config_home: Option<Seq<char>>,
    home: Option<Seq<char>>,
) -> Seq<Seq<char>> {
    opt_item(lush_config) + opt_item(
        match xdg_config_home {
            Some(p) => Some(path_join(path_join(p, "lush"@), "config.lua"@)),
            None => None,
        },
    ) + opt_item(
        match home {
            Some(p) => Some(path_join(path_join(path_join(p, ".config"@), "lush"@), "config.lua"@)),
            None => None,
        },
    ) + seq!["config.lua"@]
}

/// The places a configuration file is looked for, from the values of
/// `LUSH_CONFIG`, `XDG_CONFIG_HOME` and `HOME`.
pub fn config_candidates(
    lush_config: Option<&str>,
    xdg_config_home: Option<&str>,
    home: Option<&str>,
) -> (r: Vec<String>)
    ensures
        texts(r@) == config_candidates_of(
            crate::selector::opt_view(lush_config),
            crate::selector::opt_view(xdg_config_home),
            crate::selector::opt_view(home),
        ),
{
    let mut out: Vec<String> = Vec::new();
    let ghost a = opt_item(crate::selector::opt_view(lush_config));
    match lush_config {
        Some(p) => {
            out.push(String::from_str(p));
        },
        None => {},
    }
    assert(texts(out@) =~= a);
    let ghost b = opt_item(
        match crate::selector::opt_view(xdg_config_home) {
            Some(p) => Some(path_join(path_join(p, "lush"@), "config.lua"@)),
            None => None,
        },
    );
    match xdg_config_home {
        Some(p) => {
            let d = join(p, "lush");
            out.push(join(d.as_str(), "config.lua"));
        },
        None => {},
    }
    assert(texts(out@) =~= a + b);
    let ghost c = opt_item(
        match crate::selector::opt_view(home) {
            Some(p) => Some(path_join(path_join(path_join(p, ".config"@), "lush"@), "config.lua"@)),
            None => None,
        },
    );
    match home {
        Some(p) => {
            let d = join(p, ".config");
            let e = join(d.as_str(), "lush");
            out.push(join(e.as_str(), "config.lua"));
        },
        None => {},
    }
    assert(texts(out@) =~= a + b + c);
    out.push(String::from_str("config.lua"));
    assert(texts(out@) =~= a + b + c + seq!["config.lua"@]);
    out
}

/// The first candidate that exists, else `config.lua`.
pub fn pick_config(candidates: &Vec<String>, exists: &Vec<bool>) -> (r: String)
    requires
        candidates.len() == exists.len(),
    ensures
        (exists|i: int| 0 <= i < exists.len() && exists@[i]) ==> exists|i: int|
            0 <= i < exists.len() && exists@[i] && r@ == candidates@[i]@ && forall|j: int|
                0 <= j < i ==> !exists@[j],
        (forall|i: int| 0 <= i < exists.len() ==> !exists@[i]) ==> r@ == "config.lua"@,
{
    let mut i: usize = 0;
    while i < candidates.len()
        invariant
            i <= candidates.len(),
            candidates.len() == exists.len(),
            forall|j: int| 0 <= j < i ==> !exists@[j],
        decreases candidates.len() - i,
    {
        if exists[i] {
            return candidates[i].clone();
        }
        i += 1;
    }
    String::from_str("config.lua")
}

/// Hyprland's instance signature: the environment value, trimmed, when it
/// is not blank.
pub fn hypr_instance_signature(env: Option<&str>) -> (r: Option<String>)
    ensures
        match env {
            Some(v) => if trim(v@).len() == 0 {
                r is None
            } else {
                r matches Some(s) && s@ == trim(v@)
            },
            None => r is None,
        },
{
    match env {
        Some(v) => {
            let t = trim_str(v);
            if t.as_str().is_empty() {
                None
            } else {
                Some(t)
            }
        },
        None => None,
    }
}

/// The paths at which a Hyprland socket is looked for: under `/tmp/hypr`,
/// then under the runtime directory when that is not blank. None without an
/// instance signature.
pub open spec fn hypr_socket_paths(
    signature: Option<Seq<char>>,
    runtime_dir: Option<Seq<char>>,
    socket_name: Seq<char>,
) -> Seq<Seq<char>> {
    match signature {
        None => seq![],
        Some(sig) => seq!["/tmp/hypr/"@ + sig + "/"@ + socket_name] + match runtime_dir {
            Some(rt) => if trim(rt).len() > 0 {
                seq![rt + "/hypr/"@ + sig + "/"@ + socket_name]
            } else {
                seq![]
            },
            None => seq![],
        },
    }
}

/// The paths at which a Hyprland socket is looked for.
pub fn hypr_socket_candidates(
    signature: Option<&str>,
    runtime_dir: Option<&str>,
    socket_name: &str,
) -> (r: Vec<String>)
    ensures
        texts(r@) == hypr_socket_paths(
            crate::selector::opt_view(signature),
            crate::selector::opt_view(runtime_dir),
            socket_name@,
        ),
{
    let mut out: Vec<String> = Vec::new();
    match signature {
        None => {
            assert(texts(out@) =~= seq![]);
            out
        },
        Some(sig) => {
            let mut first = String::from_str("/tmp/hypr/");
            first.append(sig);
            first.append("/");
            first.append(socket_name);
            out.push(first);
            match runtime_dir {
                Some(rt) => {
                    if !is_blank(rt) {
                        let mut second = String::from_str(rt);
                        second.append("/hypr/");
                        second.append(sig);
                        second.append("/");
                        second.append(socket_name);
                        out.push(second);
                    }
                },
                None => {},
            }
            assert(texts(out@) =~= hypr_socket_paths(
                crate::selector::opt_view(signature),
                crate::selector::opt_view(runtime_dir),
                socket_name@,
            ));
            out
        },
    }
}

/// A Sway socket file name: `sway-ipc.*.sock`.
pub open spec fn is_sway_socket_name(name: Seq<char>) -> bool {
    name.len() >= 14 && name.subrange(0, 9) == "sway-ipc."@ && name.subrange(
        name.len() - 5,
        name.len() as int,
    ) == ".sock"@
}

fn sway_socket_name(name: &str) -> (r: bool)
    ensures
        r == is_sway_socket_name(name@),
{
    let v = crate::text::chars_vec(name);
    if v.len() < 14 {
        return false;
    }
    let head = crate::text::string_from(&v.as_slice()[0..9]);
    let n = v.len();
    let tail = crate::text::string_from(&v.as_slice()[n - 5..n]);
    assert(v@.subrange(0, 9) =~= head@);
    assert(v@.subrange(n - 5, n as int) =~= tail@);
    crate::text::str_eq(head.as_str(), "sway-ipc.") && crate::text::str_eq(tail.as_str(), ".sock")
}

/// An environment value that is set and not blank.
pub open spec fn env_text(o: Option<&str>) -> Option<Seq<char>> {
    match o {
        Some(p) => if trim(p@).len() > 0 {
            Some(p@)
        } else {
            None
        },
        None => None,
    }
}

/// The paths of the `sway-ipc.*.sock` entries among directory entries
/// (name, path), in order.
pub open spec fn sway_socket_paths(es: Seq<(String, String)>) -> Seq<Seq<char>>
    decreases es.len(),
{
    if es.len() == 0 {
        seq![]
    } else if is_sway_socket_name(es.last().0@) {
        sway_socket_paths(es.drop_last()).push(es.last().1@)
    } else {
        sway_socket_paths(es.drop_last())
    }
}

/// The last of a list of texts, if any.
pub open spec fn last_text(s: Seq<Seq<char>>) -> Option<Seq<char>> {
    if s.len() == 0 {
        None
    } else {
        Some(s.last())
    }
}

/// Sway's socket: `SWAYSOCK`, else `I3SOCK`, when not blank; else the last,
/// in ascending order, of the paths of the `sway-ipc.*.sock` entries of the
/// runtime directory (given as name and path; `None` when it could not be
/// read).
pub fn sway_socket_path(
    swaysock: Option<&str>,
    i3sock: Option<&str>,
    runtime_entries: Option<&Vec<(String, String)>>,
) -> (r: Option<String>)
    ensures
        env_text(swaysock) is Some ==> crate::lua::opt_text(r) == env_text(swaysock),
        env_text(swaysock) is None && env_text(i3sock) is Some ==> crate::lua::opt_text(r)
            == env_text(i3sock),
        env_text(swaysock) is None && env_text(i3sock) is None ==> match runtime_entries {
            None => r is None,
            Some(es) => crate::lua::opt_text(r) == last_text(ascending(sway_socket_paths(es@))),
        },
{
    match swaysock {
        Some(p) => {
            if !is_blank(p) {
                return Some(String::from_str(p));
            }
        },
        None => {},
    }
    match i3sock {
        Some(p) => {
            if !is_blank(p) {
                return Some(String::from_str(p));
            }
        },
        None => {},
    }
    let es = match runtime_entries {
        Some(es) => es,
        None => {
            return None;
        },
    };
    let mut paths: Vec<String> = Vec::new();
    let mut i: usize = 0;
    while i < es.len()
        invariant
            i <= es.len(),
            texts(paths@) == sway_socket_paths(es@.take(i as int)),
        decreases es.len() - i,
    {
        assert(es@.take(i + 1).drop_last() =~= es@.take(i as int));
        assert(es@.take(i + 1).last() == es@[i as int]);
        if sway_socket_name(es[i].0.as_str()) {
            let ghost before = texts(paths@);
            paths.push(es[i].1.clone());
            assert(texts(paths@) =~= before.push(es@[i as int].1@));
        }
        i += 1;
    }
    assert(es@.take(es.len() as int) =~= es@);
    let mut sorted = sort_strings(paths);
    proof {
        lemma_ascending_len(sway_socket_paths(es@));
    }
    let ghost all = texts(sorted@);
    let r = sorted.pop();
    proof {
        if all.len() > 0 {
            assert(all.last() == r->0@);
        }
    }
    r
}

} // verus!
