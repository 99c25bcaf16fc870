use vstd::prelude::*;

use crate::error::ExtensionError;

verus! {

/// `base` followed by `part`, with one `/` between them where `base` does not already
/// end in one.
pub open spec fn join(base: Seq<char>, part: Seq<char>) -> Seq<char> {
    if base.len() == 0 || base.last() == '/' {
        base + part
    } else {
        base + seq!['/'] + part
    }
}

/// Joins a path component onto a base path.
pub fn join_path(base: &str, part: &str) -> (r: String)
    ensures
        r@ == join(base@, part@),
{
    let mut r = base.to_string();
    assert(r@ == base@);
    let n = base.unicode_len();
    if n == 0 || base.get_char(n - 1) == '/' {
        r.append(part);
        assert(r@ == base@ + part@);
    } else {
        r.append("/");
        proof {
            reveal_strlit("/");
        }
        r.append(part);
        assert(r@ =~= base@ + seq!['/'] + part@);
    }
    r
}

/// The extension of a file name: what follows its last `.`, where that dot is not the
/// name's first character.
pub open spec fn extension_of(name: Seq<char>) -> Option<Seq<char>> {
    if exists|k: int| last_dot(name, k) {
        let k = choose|k: int| last_dot(name, k);
        if k > 0 {
            Some(name.skip(k + 1))
        } else {
            None
        }
    } else {
        None
    }
}

/// `k` is the index of the last `.` in `name`.
pub open spec fn last_dot(name: Seq<char>, k: int) -> bool {
    &&& 0 <= k < name.len()
    &&& name[k] == '.'
    &&& forall|j: int| k < j < name.len() ==> name[j] != '.'
}

proof fn lemma_last_dot_unique(name: Seq<char>, k: int)
    requires
        last_dot(name, k),
    ensures
        (choose|j: int| last_dot(name, j)) == k,
{
    let j = choose|j: int| last_dot(name, j);
    assert(last_dot(name, j));
}

/// Whether the file name `name` has the extension `ext`.
pub fn has_extension(name: &str, ext: &str) -> (r: bool)
    ensures
        r == (extension_of(name@) == Some(ext@)),
{
    let n = name.unicode_len();
    let mut k: usize = n;
    while k > 0
        invariant
            k <= n,
            n == name@.len(),
            forall|j: int| k <= j < n ==> name@[j] != '.',
        decreases k,
    {
        if name.get_char(k - 1) == '.' {
            let dot = k - 1;
            proof {
                lemma_last_dot_unique(name@, dot as int);
            }
            if dot == 0 {
                return false;
            }
            let tail = name.substring_char(dot + 1, n);
            let m = ext.unicode_len();
            if tail.unicode_len() != m {
                return false;
            }
            let mut i: usize = 0;
            while i < m
                invariant
                    i <= m,
                    m == ext@.len(),
                    m == tail@.len(),
                    n == name@.len(),
                    dot + 1 <= n,
                    tail@ == name@.subrange(dot + 1, n as int),
                    forall|t: int| 0 <= t < i ==> tail@[t] == ext@[t],
                decreases m - i,
            {
                if tail.get_char(i) != ext.get_char(i) {
                    assert(tail@ =~= name@.skip(dot + 1));
                    assert(tail@[i as int] != ext@[i as int]);
                    return false;
                }
                i = i + 1;
            }
            assert(tail@ =~= ext@);
            assert(tail@ =~= name@.skip(dot + 1));
            return true;
        }
        k = k - 1;
    }
    assert(!exists|j: int| last_dot(name@, j));
    false
}

/// The families of operating systems whose install locations are known.
#[derive(Clone, Copy, Debug, PartialEq, Eq, Structural)]
pub enum Platform {
    Windows,
    MacOs,
    Linux,
}

/// Where each platform installs the client, most common first. A leading `~` stands
/// for the user's home directory.
pub open spec fn default_locations(platform: Platform) -> Seq<Seq<char>> {
    match platform {
        Platform::Windows => seq!["C:\\Program Files (x86)\\Steam"@, "C:\\Program Files\\Steam"@],
        Platform::MacOs => seq![
            "/Applications/Steam.app/Contents/MacOS"@,
            "~/Library/Application Support/Steam"@,
        ],
        Platform::Linux => seq!["~/.steam/steam"@, "~/.local/share/Steam"@],
    }
}

/// A location with its home marker `~/` replaced by the home directory; `None` when it
/// needs a home directory and none is known.
pub open spec fn expand_home(path: Seq<char>, home: Option<Seq<char>>) -> Option<Seq<char>> {
    if path.len() > 0 && path[0] == '~' {
        match home {
            Some(h) => Some(join(h, path.skip(2))),
            None => None,
        }
    } else {
        Some(path)
    }
}

pub open spec fn opt_view(o: Option<String>) -> Option<Seq<char>> {
    match o {
        Some(s) => Some(s@),
        None => None,
    }
}

/// The candidate install roots of `platform`, in order, expanded against `home`.
pub open spec fn expanded_locations(platform: Platform, home: Option<Seq<char>>) -> Seq<
    Option<Seq<char>>,
> {
    default_locations(platform).map_values(|p: Seq<char>| expand_home(p, home))
}

fn expand_location(path: &str, home: &Option<String>) -> (r: Option<String>)
    requires
        path@.len() > 0 && path@[0] == '~' ==> path@.len() >= 2 && path@[1] == '/',
    ensures
        opt_view(r) == expand_home(path@, opt_view(*home)),
{
    if path.unicode_len() > 0 && path.get_char(0) == '~' {
        match home {
            Some(h) => Some(join_path(h.as_str(), path.substring_char(2, path.unicode_len()))),
            None => None,
        }
    } else {
        Some(path.to_string())
    }
}

/// The candidate install roots of `platform`, most common first, with the home marker
/// expanded against `home`; a candidate that needs a home directory is `None` where
/// `home` is.
pub fn install_candidates(platform: Platform, home: &Option<String>) -> (r: Vec<Option<String>>)
    ensures
        r@.map_values(|o: Option<String>| opt_view(o)) == expanded_locations(platform, opt_view(*home)),
{
    let paths: Vec<&str> = match platform {
        Platform::Windows => vec!["C:\\Program Files (x86)\\Steam", "C:\\Program Files\\Steam"],
        Platform::MacOs => vec![
            "/Applications/Steam.app/Contents/MacOS",
            "~/Library/Application Support/Steam",
        ],
        Platform::Linux => vec!["~/.steam/steam", "~/.local/share/Steam"],
    };
    proof {
        reveal_strlit("C:\\Program Files (x86)\\Steam");
        reveal_strlit("C:\\Program Files\\Steam");
        reveal_strlit("/Applications/Steam.app/Contents/MacOS");
        reveal_strlit("~/Library/Application Support/Steam");
        reveal_strlit("~/.steam/steam");
        reveal_strlit("~/.local/share/Steam");
    }
    let ghost locs = default_locations(platform);
    assert(paths@.len() == locs.len());
    assert(forall|i: int| 0 <= i < locs.len() ==> paths@[i]@ == locs[i]);
    let mut r: Vec<Option<String>> = Vec::new();
    let mut i: usize = 0;
    while i < paths.len()
        invariant
            i <= paths@.len(),
            paths@.len() == locs.len(),
            locs == default_locations(platform),
            forall|t: int| 0 <= t < locs.len() ==> paths@[t]@ == locs[t],
            forall|t: int|
                0 <= t < locs.len() ==> (locs[t].len() > 0 && locs[t][0] == '~' ==> locs[t].len()
                    >= 2 && locs[t][1] == '/'),
            r@.len() == i,
            forall|t: int| 0 <= t < i ==> opt_view(r@[t]) == expand_home(locs[t], opt_view(*home)),
        decreases paths@.len() - i,
    {
        r.push(expand_location(paths[i], home));
        i = i + 1;
    }
    assert(r@.map_values(|o: Option<String>| opt_view(o)) =~= expanded_locations(
        platform,
        opt_view(*home),
    ));
    r
}

/// Relies on `dirs::home_dir`: the current user's home directory, if the platform
/// reports one. It depends on the environment, so nothing is stated of it.
#[verifier::external_body]
fn home_directory() -> (r: Option<String>) {
    dirs::home_dir().map(|p| p.to_string_lossy().into_owned())
}

/// The candidate install roots of `platform` for the current user.
pub fn locate_candidates(platform: Platform) -> (r: Vec<Option<String>>)
    ensures
        exists|home: Option<Seq<char>>|
            r@.map_values(|o: Option<String>| opt_view(o)) == expanded_locations(platform, home),
{
    let home = home_directory();
    install_candidates(platform, &home)
}

/// The probe stops at candidate `i`: it needs a home directory that is unknown, or it
/// exists.
pub open spec fn stops_at(candidates: Seq<Option<Seq<char>>>, exists: Seq<bool>, i: int) -> bool {
    candidates[i] is None || exists[i]
}

/// `i` is the first candidate at which the probe stops.
pub open spec fn first_stop(candidates: Seq<Option<Seq<char>>>, exists: Seq<bool>, i: int) -> bool {
    &&& 0 <= i < candidates.len()
    &&& stops_at(candidates, exists, i)
    &&& forall|j: int| 0 <= j < i ==> !stops_at(candidates, exists, j)
}

/// Picks the install root from the candidates, given whether each exists on disk: the
/// first that exists wins. A candidate reached that needs the unknown home directory
/// fails the probe with `Validation`; when none exists the probe fails with `NotFound`.
pub fn select_install_path(candidates: &Vec<Option<String>>, exists: &Vec<bool>) -> (r: Result<
    String,
    ExtensionError,
>)
    requires
        candidates@.len() == exists@.len(),
    ensures
        ({
            let c = candidates@.map_values(|o: Option<String>| opt_view(o));
            &&& r matches Ok(p) ==> exists|i: int|
                first_stop(c, exists@, i) && c[i] == Some(p@)
            &&& (r matches Err(ExtensionError::Validation(_))) <==> exists|i: int|
                first_stop(c, exists@, i) && c[i] is None
            &&& (r matches Err(ExtensionError::NotFound(_))) <==> forall|i: int|
                0 <= i < c.len() ==> !stops_at(c, exists@, i)
            &&& r is Ok || (r matches Err(ExtensionError::Validation(_))) || (r matches Err(
                ExtensionError::NotFound(_),
            ))
        }),
{
    let ghost c = candidates@.map_values(|o: Option<String>| opt_view(o));
    let mut i: usize = 0;
    while i < candidates.len()
        invariant
            i <= candidates@.len(),
            candidates@.len() == exists@.len(),
            c == candidates@.map_values(|o: Option<String>| opt_view(o)),
            forall|j: int| 0 <= j < i ==> !stops_at(c, exists@, j),
        decreases candidates@.len() - i,
    {
        match &candidates[i] {
            None => {
                assert(first_stop(c, exists@, i as int));
                proof {
                    assert forall|j: int| #[trigger] first_stop(c, exists@, j) implies j == i by {
                        if j < i {
                        } else if j > i {
                            assert(stops_at(c, exists@, i as int));
                        }
                    }
                }
                return Err(ExtensionError::Validation("Could not find home directory".to_string()));
            },
            Some(p) => {
                if exists[i] {
                    assert(first_stop(c, exists@, i as int));
                    proof {
                        assert forall|j: int| #[trigger] first_stop(c, exists@, j) implies j == i by {
                            if j < i {
                            } else if j > i {
                                assert(stops_at(c, exists@, i as int));
                            }
                        }
                    }
                    return Ok(p.clone());
                }
            },
        }
        i = i + 1;
    }
    Err(ExtensionError::NotFound("Steam installation not found".to_string()))
}

/// With the home directory known, every candidate of a platform is expanded, so the
/// probe stops exactly at the first of the platform's locations that exists; when none
/// exists it stops nowhere.
pub proof fn lemma_probe_with_home(platform: Platform, home: Seq<char>, exists: Seq<bool>)
    requires
        exists.len() == default_locations(platform).len(),
    ensures
        forall|i: int|
            0 <= i < exists.len() ==> (expanded_locations(platform, Some(home))[i] is Some),
        forall|i: int|
            0 <= i < exists.len() ==> (first_stop(expanded_locations(platform, Some(home)), exists, i)
                <==> exists[i] && forall|j: int| 0 <= j < i ==> !exists[j]),
{
    let c = expanded_locations(platform, Some(home));
    assert forall|i: int| 0 <= i < exists.len() implies (c[i] is Some) by {
        assert(c[i] == expand_home(default_locations(platform)[i], Some(home)));
    }
    assert forall|i: int| 0 <= i < exists.len() implies (first_stop(c, exists, i) <==> exists[i]
        && forall|j: int| 0 <= j < i ==> !exists[j]) by {
        assert(c[i] == expand_home(default_locations(platform)[i], Some(home)));
        assert forall|j: int| 0 <= j < i implies (stops_at(c, exists, j) <==> exists[j]) by {
            assert(c[j] == expand_home(default_locations(platform)[j], Some(home)));
        }
    }
}

} // verus!
