//! Project detection: git root, package manager, Biome config, Biome binary and
//! Biome version.
use vstd::prelude::*;
use crate::paths::{
    ancestor_chain, ancestors, is_absolute, lemma_join_absolute, first_hit, is_first_hit, join, join_path, lemma_first_hit_unique,
    no_hit, opt_string, probe_paths, probe_grid, grid_views, str_views, string_views, walk_result,
    walk_up_for,
};
use crate::text::{chars_to_string, contains_seq, push_chars, push_str, to_chars, trim, trim_ws};

verus! {

/// The Biome setup of a project.
pub struct BiomeSetup {
    pub config_path: String,
    pub binary_path: String,
    pub version: String,
}

/// What detection found, starting from a directory.
pub struct DetectedProject {
    pub start: String,
    pub repo_root: Option<String>,
    pub package_manager: Option<(PackageManager, String)>,
    pub biome: Option<BiomeSetup>,
}

// ---------------------------------------------------------------------------
// Package managers
// ---------------------------------------------------------------------------

#[derive(Clone, Copy, Debug, PartialEq, Eq, Structural)]
pub enum PackageManager {
    Npm,
    Pnpm,
    Yarn,
    Bun,
}

pub open spec fn lockfile_of(pm: PackageManager) -> Seq<char> {
    match pm {
        PackageManager::Bun => "bun.lockb"@,
        PackageManager::Pnpm => "pnpm-lock.yaml"@,
        PackageManager::Yarn => "yarn.lock"@,
        PackageManager::Npm => "package-lock.json"@,
    }
}

/// `{:?}` of a package manager.
pub open spec fn pm_name(pm: PackageManager) -> Seq<char> {
    match pm {
        PackageManager::Bun => "Bun"@,
        PackageManager::Pnpm => "Pnpm"@,
        PackageManager::Yarn => "Yarn"@,
        PackageManager::Npm => "Npm"@,
    }
}

/// Which lockfile wins when several lie in one directory: Bun, Pnpm, Yarn, Npm.
pub open spec fn priority(j: int) -> PackageManager {
    if j == 0 {
        PackageManager::Bun
    } else if j == 1 {
        PackageManager::Pnpm
    } else if j == 2 {
        PackageManager::Yarn
    } else {
        PackageManager::Npm
    }
}

pub open spec fn lockfile_candidates() -> Seq<Seq<char>> {
    seq![lockfile_of(priority(0)), lockfile_of(priority(1)), lockfile_of(priority(2)), lockfile_of(priority(3))]
}

impl PackageManager {
    pub fn lockfile_name(&self) -> (r: &'static str)
        ensures
            r@ == lockfile_of(*self),
    {
        match self {
            PackageManager::Bun => "bun.lockb",
            PackageManager::Pnpm => "pnpm-lock.yaml",
            PackageManager::Yarn => "yarn.lock",
            PackageManager::Npm => "package-lock.json",
        }
    }

    /// The name `{:?}` prints.
    pub fn debug_name(&self) -> (r: &'static str)
        ensures
            r@ == pm_name(*self),
    {
        match self {
            PackageManager::Bun => "Bun",
            PackageManager::Pnpm => "Pnpm",
            PackageManager::Yarn => "Yarn",
            PackageManager::Npm => "Npm",
        }
    }
}

fn priority_at(j: usize) -> (pm: PackageManager)
    requires
        j < 4,
    ensures
        pm == priority(j as int),
{
    if j == 0 {
        PackageManager::Bun
    } else if j == 1 {
        PackageManager::Pnpm
    } else if j == 2 {
        PackageManager::Yarn
    } else {
        PackageManager::Npm
    }
}

fn lockfile_names() -> (r: [&'static str; 4])
    ensures
        str_views(r@) == lockfile_candidates(),
{
    let r = [
        PackageManager::Bun.lockfile_name(),
        PackageManager::Pnpm.lockfile_name(),
        PackageManager::Yarn.lockfile_name(),
        PackageManager::Npm.lockfile_name(),
    ];
    assert(str_views(r@) =~= lockfile_candidates());
    r
}

/// The lockfiles a package-manager walk from `start` looks at.
pub fn package_manager_probes(start: &str) -> (r: Vec<Vec<String>>)
    ensures
        grid_views(r@) == probe_grid(ancestor_chain(start@), lockfile_candidates()),
{
    let names = lockfile_names();
    probe_paths(start, &names)
}

/// The package manager a walk up from `start` finds: the nearest directory with a
/// lockfile decides; within it Bun, Pnpm, Yarn, Npm is the order of preference.
pub open spec fn spec_detect_package_manager(start: Seq<char>, present: Seq<Vec<bool>>) -> Option<
    (PackageManager, Seq<char>),
> {
    let dirs = ancestor_chain(start);
    if exists|l: int, j: int| is_first_hit(present, dirs.len() as int, 4, l, j) {
        let (l, j) = choose|l: int, j: int| is_first_hit(present, dirs.len() as int, 4, l, j);
        Some((priority(j), join(dirs[l], lockfile_of(priority(j)))))
    } else {
        None
    }
}

pub open spec fn opt_pm(o: Option<(PackageManager, String)>) -> Option<(PackageManager, Seq<char>)> {
    match o {
        Some((pm, p)) => Some((pm, p@)),
        None => None,
    }
}

/// Walk up from the absolute directory `start` looking for a lockfile; `present[l][j]`
/// says whether `package_manager_probes(start)[l][j]` exists. The lockfile's path is
/// absolute.
pub fn detect_package_manager(start: &str, present: &Vec<Vec<bool>>) -> (r: Option<(PackageManager, String)>)
    requires
        is_absolute(start@),
    ensures
        opt_pm(r) == spec_detect_package_manager(start@, present@),
        r matches Some((_, p)) ==> is_absolute(p@),
{
    let dirs = ancestors(start);
    let ghost dv = string_views(dirs@);
    match first_hit(present, dirs.len(), 4) {
        Some((l, j)) => {
            let pm = priority_at(j);
            let p = join_path(dirs[l].as_str(), pm.lockfile_name());
            proof {
                let w = choose|l2: int, j2: int| is_first_hit(present@, dv.len() as int, 4, l2, j2);
                lemma_first_hit_unique(present@, dv.len() as int, 4, l as int, j as int, w.0, w.1);
                assert(dv[l as int] == dirs@[l as int]@);
                assert(is_absolute(dv[l as int]));
                lemma_join_absolute(dv[l as int], lockfile_of(pm));
            }
            Some((pm, p))
        },
        None => {
            assert(!exists|l: int, j: int| is_first_hit(present@, dv.len() as int, 4, l, j));
            None
        },
    }
}

// ---------------------------------------------------------------------------
// Biome config and binary
// ---------------------------------------------------------------------------

pub open spec fn config_candidates() -> Seq<Seq<char>> {
    seq!["biome.json"@, "biome.jsonc"@]
}

fn config_names() -> (r: [&'static str; 2])
    ensures
        str_views(r@) == config_candidates(),
{
    let r = ["biome.json", "biome.jsonc"];
    assert(str_views(r@) =~= config_candidates());
    r
}

/// The config files a walk from `start` looks at.
pub fn biome_config_probes(start: &str) -> (r: Vec<Vec<String>>)
    ensures
        grid_views(r@) == probe_grid(ancestor_chain(start@), config_candidates()),
{
    let names = config_names();
    probe_paths(start, &names)
}

/// The absolute path of the nearest `biome.json` or `biome.jsonc` walking up from the
/// absolute directory `start`; at one level `biome.json` is preferred. `present`
/// answers `biome_config_probes(start)`.
pub fn find_biome_config(start: &str, present: &Vec<Vec<bool>>) -> (r: Option<String>)
    requires
        is_absolute(start@),
    ensures
        opt_string(r) == walk_result(ancestor_chain(start@), config_candidates(), present@),
        r matches Some(p) ==> is_absolute(p@),
{
    let names = config_names();
    walk_up_for(start, &names, present)
}

pub open spec fn binary_candidates() -> Seq<Seq<char>> {
    seq!["node_modules/.bin/biome"@]
}

fn binary_names() -> (r: [&'static str; 1])
    ensures
        str_views(r@) == binary_candidates(),
{
    let r = ["node_modules/.bin/biome"];
    assert(str_views(r@) =~= binary_candidates());
    r
}

/// The `node_modules/.bin/biome` paths a walk from `start` looks at.
pub fn biome_binary_probes(start: &str) -> (r: Vec<Vec<String>>)
    ensures
        grid_views(r@) == probe_grid(ancestor_chain(start@), binary_candidates()),
{
    let names = binary_names();
    probe_paths(start, &names)
}

pub open spec fn spec_find_biome_binary(
    start: Seq<char>,
    present: Seq<Vec<bool>>,
    on_path: Result<Option<Seq<char>>, Seq<char>>,
) -> Result<Option<Seq<char>>, Seq<char>> {
    match walk_result(ancestor_chain(start), binary_candidates(), present) {
        Some(p) => Ok(Some(p)),
        None => match on_path {
            Ok(found) => Ok(found),
            Err(e) => Err("which biome: "@ + e),
        },
    }
}

pub open spec fn result_view(r: Result<Option<String>, String>) -> Result<Option<Seq<char>>, Seq<char>> {
    match r {
        Ok(Some(p)) => Ok(Some(p@)),
        Ok(None) => Ok(None),
        Err(e) => Err(e@),
    }
}

/// A Biome binary: the nearest `node_modules/.bin/biome` walking up from the absolute
/// directory `start` (`present` answers `biome_binary_probes(start)`), else what a
/// search of `PATH` for `biome` found (`on_path`: `Ok(None)` when it found none, `Err`
/// with the error text when the search itself failed).
pub fn find_biome_binary(
    start: &str,
    present: &Vec<Vec<bool>>,
    on_path: Result<Option<String>, String>,
) -> (r: Result<Option<String>, String>)
    requires
        is_absolute(start@),
    ensures
        result_view(r) == spec_find_biome_binary(start@, present@, result_view(on_path)),
{
    let names = binary_names();
    match walk_up_for(start, &names, present) {
        Some(p) => Ok(Some(p)),
        None => match on_path {
            Ok(found) => Ok(found),
            Err(e) => {
                let mut s: Vec<char> = Vec::new();
                push_str(&mut s, "which biome: ");
                push_str(&mut s, e.as_str());
                assert(s@ =~= "which biome: "@ + e@);
                Err(chars_to_string(&s))
            },
        },
    }
}

// ---------------------------------------------------------------------------
// Git root
// ---------------------------------------------------------------------------

/// What looking for one probe path found.
pub enum ProbeStatus {
    /// Something (a file or a directory) is there.
    Found,
    /// Nothing is there.
    Missing,
    /// The lookup failed for another reason; the error text is kept.
    Failed(String),
}

pub open spec fn decided(st: Seq<ProbeStatus>, l: int) -> bool {
    0 <= l < st.len() && !(st[l] is Missing)
}

pub open spec fn is_first_decided(st: Seq<ProbeStatus>, n: int, l: int) -> bool {
    0 <= l < n && decided(st, l) && forall|l2: int| 0 <= l2 < l ==> !decided(st, l2)
}

/// The git root a walk up from `start` finds: the nearest directory whose `.git`
/// probe found something; a failed probe before that is the error.
pub open spec fn spec_find_git_root(start: Seq<char>, status: Seq<ProbeStatus>) -> Result<
    Option<Seq<char>>,
    Seq<char>,
> {
    let dirs = ancestor_chain(start);
    if exists|l: int| is_first_decided(status, dirs.len() as int, l) {
        let l = choose|l: int| is_first_decided(status, dirs.len() as int, l);
        match status[l] {
            ProbeStatus::Failed(e) => Err(e@),
            _ => Ok(Some(dirs[l])),
        }
    } else {
        Ok(None)
    }
}

/// The `.git` entries a walk from `start` looks at, nearest first.
pub fn git_root_probes(start: &str) -> (r: Vec<String>)
    ensures
        string_views(r@) == ancestor_chain(start@).map_values(|d: Seq<char>| join(d, ".git"@)),
{
    let dirs = ancestors(start);
    let ghost dv = string_views(dirs@);
    let n = dirs.len();
    let mut r: Vec<String> = Vec::new();
    for l in 0..n
        invariant
            n == dirs@.len(),
            dv == string_views(dirs@),
            string_views(r@) == dv.take(l as int).map_values(|d: Seq<char>| join(d, ".git"@)),
    {
        let p = join_path(dirs[l].as_str(), ".git");
        assert(dv[l as int] == dirs@[l as int]@);
        let ghost before = r@;
        r.push(p);
        assert(string_views(r@) =~= string_views(before).push(join(dv[l as int], ".git"@)));
        assert(dv.take(l + 1) =~= dv.take(l as int).push(dv[l as int]));
        assert(string_views(r@) =~= dv.take(l + 1).map_values(|d: Seq<char>| join(d, ".git"@)));
    }
    assert(dv.take(n as int) =~= dv);
    r
}

/// The directory holding the nearest `.git` (a directory, or the file that worktrees
/// and submodules use), walking up from `start`; `status[l]` is what looking for
/// `git_root_probes(start)[l]` found.
pub fn find_git_root(start: &str, status: &Vec<ProbeStatus>) -> (r: Result<Option<String>, String>)
    ensures
        result_view(r) == spec_find_git_root(start@, status@),
{
    let dirs = ancestors(start);
    let ghost dv = string_views(dirs@);
    let n = dirs.len();
    for l in 0..n
        invariant
            n == dirs@.len(),
            dv == string_views(dirs@),
            dv == ancestor_chain(start@),
            forall|l2: int| 0 <= l2 < l ==> !decided(status@, l2),
    {
        if l < status.len() {
            match &status[l] {
                ProbeStatus::Missing => {},
                ProbeStatus::Found => {
                    proof {
                        assert(is_first_decided(status@, n as int, l as int));
                        let w = choose|l2: int| is_first_decided(status@, dv.len() as int, l2);
                        assert(w == l);
                        assert(dv[l as int] == dirs@[l as int]@);
                    }
                    return Ok(Some(dirs[l].clone()));
                },
                ProbeStatus::Failed(e) => {
                    proof {
                        assert(is_first_decided(status@, n as int, l as int));
                        let w = choose|l2: int| is_first_decided(status@, dv.len() as int, l2);
                        assert(w == l);
                    }
                    return Err(e.clone());
                },
            }
        }
    }
    assert(!exists|l: int| is_first_decided(status@, dv.len() as int, l));
    Ok(None)
}

// ---------------------------------------------------------------------------
// Biome version
// ---------------------------------------------------------------------------

#[verifier::external_type_specification]
#[verifier::external_body]
pub struct ExRegexError(regex::Error);

/// The text of the leftmost-first match of `pattern` in `haystack`.
pub uninterp spec fn regex_first_match(pattern: Seq<char>, haystack: Seq<char>) -> Option<Seq<char>>;

/// Compiles `pattern` with `regex::Regex::new` and runs `Regex::find` on `haystack`.
/// Claims: `SEMVER_PATTERN` compiles (`Regex::new` fails only on bad syntax or a
/// pattern over the size limit, and this short pattern is well formed); when the
/// pattern compiles, the result is `regex_first_match` of the two, and a match is a
/// substring of `haystack` (`Match::as_str` is documented as the substring of the
/// haystack that matched). Whether other patterns compile is not stated.
#[verifier::external_body]
fn regex_find(pattern: &str, haystack: &str) -> (r: Result<Option<String>, regex::Error>)
    ensures
        pattern@ == SEMVER_PATTERN@ ==> r is Ok,
        r matches Ok(m) ==> match m {
            Some(t) => regex_first_match(pattern@, haystack@) == Some(t@) && contains_seq(
                haystack@,
                t@,
            ),
            None => regex_first_match(pattern@, haystack@) is None,
        },
{
    match regex::Regex::new(pattern) {
        Ok(re) => match re.find(haystack) {
            Some(m) => Ok(Some(m.as_str().to_string())),
            None => Ok(None),
        },
        Err(e) => Err(e),
    }
}

/// A semver-shaped token: three runs of digits separated by dots.
pub const SEMVER_PATTERN: &'static str = r"\d+\.\d+\.\d+";

pub open spec fn version_error(combined: Seq<char>) -> Seq<char> {
    "could not parse biome version from: "@ + trim(combined)
}

/// The version found in `combined`, or the error that quotes the output.
pub fn version_from_match(found: Option<String>, combined: &str) -> (r: Result<String, String>)
    ensures
        match found {
            Some(v) => r == Ok::<String, String>(v),
            None => r matches Err(e) && e@ == version_error(combined@),
        },
{
    match found {
        Some(v) => Ok(v),
        None => {
            let mut s: Vec<char> = Vec::new();
            push_str(&mut s, "could not parse biome version from: ");
            let c = to_chars(combined);
            let t = trim_ws(&c);
            push_chars(&mut s, &t);
            Err(chars_to_string(&s))
        },
    }
}

/// The first semver-shaped token of `<biome> --version`'s stdout followed by its stderr.
pub fn probe_version(stdout: &str, stderr: &str) -> (r: Result<String, String>)
    ensures
        r matches Ok(v) ==> regex_first_match(SEMVER_PATTERN@, stdout@ + stderr@) == Some(v@),
        r matches Err(e) ==> e@ == version_error(stdout@ + stderr@),
        regex_first_match(SEMVER_PATTERN@, stdout@ + stderr@) matches Some(m) ==> (r matches Ok(v) && v@ == m),
        regex_first_match(SEMVER_PATTERN@, stdout@ + stderr@) is None ==> r is Err,
{
    let mut c: Vec<char> = to_chars(stdout);
    push_str(&mut c, stderr);
    let combined = chars_to_string(&c);
    match regex_find(SEMVER_PATTERN, combined.as_str()) {
        Ok(m) => version_from_match(m, combined.as_str()),
        Err(_) => version_from_match(None, combined.as_str()),
    }
}

} // verus!

