//! Where the desktop app keeps its own files: under the root of its install
//! (`%LOCALAPPDATA%\Odyssey.Desktop`), settings at the root and logs in
//! `logs`. The caller reads the environment and hands its value in.
use vstd::prelude::*;

verus! {

/// Pack id of the installer; the install root is named after it.
pub const PACK_ID: &'static str = "Odyssey.Desktop";

/// A single relative path component: not empty, no separator, no drive colon.
pub open spec fn is_path_component(name: Seq<char>) -> bool {
    &&& name.len() > 0
    &&& forall|i: int| 0 <= i < name.len() ==> name[i] != '/' && name[i] != '\\' && name[i] != ':'
}

/// The component is neither `.` nor `..`.
pub open spec fn is_named_component(name: Seq<char>) -> bool {
    &&& is_path_component(name)
    &&& name != seq!['.']
    &&& name != seq!['.', '.']
}

pub open spec fn is_separator(c: char) -> bool {
    c == '/' || c == '\\'
}

/// `base` starts like a Windows verbatim path (`\\?\...`, with either
/// separator): joining onto such a path rebuilds it from its components.
pub open spec fn starts_verbatim(base: Seq<char>) -> bool {
    &&& base.len() >= 3
    &&& is_separator(base[0])
    &&& is_separator(base[1])
    &&& base[2] == '?'
}

/// `r` is `base` extended by the component `name`: `base`, at most one
/// separator, then `name`.
pub open spec fn joined(base: Seq<char>, name: Seq<char>, r: Seq<char>) -> bool {
    ||| r == base + name
    ||| r == base + seq!['/'] + name
    ||| r == base + seq!['\\'] + name
}

/// `Path::join` of one relative component (`std::path::Path::join`).
/// Claims that, unless `base` starts like a verbatim path, the result extends
/// `base` by `name` with at most one separator between them; which separator,
/// and whether one is added, depends on the platform and on how `base` ends,
/// and is left unsaid. On a verbatim base the path is rebuilt from its
/// components, and nothing is claimed of the result.
#[verifier::external_body]
pub(crate) fn join_component(base: &str, name: &str) -> (r: String)
    requires
        is_named_component(name@),
    ensures
        !starts_verbatim(base@) ==> joined(base@, name@, r@),
{
    std::path::Path::new(base).join(name).to_string_lossy().into_owned()
}

/// Joining a component without `?` onto a base that does not start like a
/// verbatim path gives a path that does not either.
pub proof fn lemma_join_keeps_non_verbatim(base: Seq<char>, name: Seq<char>, r: Seq<char>)
    requires
        !starts_verbatim(base),
        is_path_component(name),
        forall|i: int| 0 <= i < name.len() ==> name[i] != '?',
        joined(base, name, r),
    ensures
        !starts_verbatim(r),
{
    if r.len() >= 3 {
        if base.len() >= 3 {
            assert(r[0] == base[0] && r[1] == base[1] && r[2] == base[2]);
        } else if r == base + name {
            assert(r[2] == name[2 - base.len()]);
        } else if r == base + seq!['/'] + name {
            if base.len() == 2 {
                assert(r[2] == '/');
            } else {
                assert(r[2] == name[1 - base.len()]);
            }
        } else {
            if base.len() == 2 {
                assert(r[2] == '\\');
            } else {
                assert(r[2] == name[1 - base.len()]);
            }
        }
    }
}

/// The install root inside the local application-data directory, if that
/// directory is known. On a directory that starts like a verbatim path
/// nothing is claimed of the root beyond its presence.
pub fn app_root(local_app_data: Option<String>) -> (r: Option<String>)
    ensures
        match local_app_data {
            None => r is None,
            Some(d) => r matches Some(p) && (!starts_verbatim(d@) ==> joined(d@, PACK_ID@, p@)),
        },
{
    proof {
        reveal_strlit("Odyssey.Desktop");
    }
    match local_app_data {
        None => None,
        Some(d) => {
            assert(PACK_ID@.len() == 15);
            Some(join_component(d.as_str(), PACK_ID))
        },
    }
}

/// Directory of the log files: `logs` under the install root.
pub fn log_dir(local_app_data: Option<String>) -> (r: Option<String>)
    ensures
        match local_app_data {
            None => r is None,
            Some(d) => r matches Some(p) && (!starts_verbatim(d@) ==> exists|root: Seq<char>|
                joined(d@, PACK_ID@, root) && joined(root, "logs"@, p@)),
        },
{
    proof {
        reveal_strlit("logs");
        reveal_strlit("Odyssey.Desktop");
    }
    let ghost d = local_app_data;
    match app_root(local_app_data) {
        None => None,
        Some(root) => {
            proof {
                if let Some(dd) = d {
                    if !starts_verbatim(dd@) {
                        lemma_join_keeps_non_verbatim(dd@, PACK_ID@, root@);
                    }
                }
            }
            assert("logs"@.len() == 4);
            Some(join_component(root.as_str(), "logs"))
        },
    }
}

/// Directory of the settings files: the install root itself.
pub fn settings_dir(local_app_data: Option<String>) -> (r: Option<String>)
    ensures
        match local_app_data {
            None => r is None,
            Some(d) => r matches Some(p) && (!starts_verbatim(d@) ==> joined(d@, PACK_ID@, p@)),
        },
{
    app_root(local_app_data)
}

} // verus!
