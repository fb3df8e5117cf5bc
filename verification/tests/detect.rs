//! Project detection on a laid-out tree: each scenario names the paths that exist and
//! hands the library which of its probes are present.
use cc_essentials::detect::{
    biome_binary_probes, biome_config_probes, detect_package_manager, find_biome_binary, find_biome_config,
    find_git_root, git_root_probes, package_manager_probes, PackageManager, ProbeStatus,
};
use cc_essentials::paths::{probe_paths, walk_up_for};

fn present_where(grid: &Vec<Vec<String>>, existing: &[&str]) -> Vec<Vec<bool>> {
    grid.iter()
        .map(|row| row.iter().map(|p| existing.contains(&p.as_str())).collect())
        .collect()
}

fn package_manager_in(start: &str, existing: &[&str]) -> Option<(PackageManager, String)> {
    detect_package_manager(start, &present_where(&package_manager_probes(start), existing))
}

fn biome_config_in(start: &str, existing: &[&str]) -> Option<String> {
    find_biome_config(start, &present_where(&biome_config_probes(start), existing))
}

fn git_root_in(start: &str, existing: &[&str]) -> Option<String> {
    let probes = git_root_probes(start);
    let status: Vec<ProbeStatus> = probes
        .iter()
        .map(|p| if existing.contains(&p.as_str()) { ProbeStatus::Found } else { ProbeStatus::Missing })
        .collect();
    find_git_root(start, &status).unwrap()
}

#[test]
fn detects_npm() {
    assert_eq!(package_manager_in("/t", &["/t/package-lock.json"]).unwrap().0, PackageManager::Npm);
}

#[test]
fn detects_pnpm() {
    assert_eq!(package_manager_in("/t", &["/t/pnpm-lock.yaml"]).unwrap().0, PackageManager::Pnpm);
}

#[test]
fn detects_yarn() {
    assert_eq!(package_manager_in("/t", &["/t/yarn.lock"]).unwrap().0, PackageManager::Yarn);
}

#[test]
fn detects_bun() {
    assert_eq!(package_manager_in("/t", &["/t/bun.lockb"]).unwrap().0, PackageManager::Bun);
}

#[test]
fn bun_wins_over_pnpm_at_same_level() {
    let (pm, _) = package_manager_in("/t", &["/t/bun.lockb", "/t/pnpm-lock.yaml"]).unwrap();
    assert_eq!(pm, PackageManager::Bun);
}

#[test]
fn pnpm_wins_over_yarn_at_same_level() {
    let (pm, _) = package_manager_in("/t", &["/t/pnpm-lock.yaml", "/t/yarn.lock"]).unwrap();
    assert_eq!(pm, PackageManager::Pnpm);
}

#[test]
fn yarn_wins_over_npm_at_same_level() {
    let (pm, _) = package_manager_in("/t", &["/t/yarn.lock", "/t/package-lock.json"]).unwrap();
    assert_eq!(pm, PackageManager::Yarn);
}

#[test]
fn nearest_ancestor_wins() {
    let child = "/t/packages/foo";
    let (pm, path) = package_manager_in(child, &["/t/pnpm-lock.yaml", "/t/packages/foo/package-lock.json"]).unwrap();
    assert_eq!(pm, PackageManager::Npm);
    assert!(path.starts_with(child));
}

#[test]
fn finds_biome_json_in_ancestor() {
    let found = biome_config_in("/t/src", &["/t/biome.json"]).unwrap();
    assert!(found.ends_with("biome.json"));
    assert_eq!(found, "/t/biome.json");
}

#[test]
fn finds_biome_jsonc_when_only_jsonc_exists() {
    let found = biome_config_in("/t", &["/t/biome.jsonc"]).unwrap();
    assert!(found.ends_with("biome.jsonc"));
}

#[test]
fn prefers_biome_json_over_jsonc_at_same_level() {
    let found = biome_config_in("/t", &["/t/biome.json", "/t/biome.jsonc"]).unwrap();
    assert!(found.ends_with("biome.json"));
}

#[test]
fn nested_config_wins_over_ancestor() {
    let found = biome_config_in("/t/packages/foo", &["/t/biome.json", "/t/packages/foo/biome.json"]).unwrap();
    assert_eq!(found, "/t/packages/foo/biome.json");
}

#[test]
fn finds_nearest_node_modules_bin() {
    let start = "/t/src";
    let present = present_where(&biome_binary_probes(start), &["/t/node_modules/.bin/biome"]);
    let got = find_biome_binary(start, &present, Ok(None)).unwrap().unwrap();
    assert_eq!(got, "/t/node_modules/.bin/biome");
}

#[test]
fn nested_node_modules_wins_over_ancestor() {
    let inner = "/t/packages/foo";
    let present = present_where(
        &biome_binary_probes(inner),
        &["/t/node_modules/.bin/biome", "/t/packages/foo/node_modules/.bin/biome"],
    );
    let got = find_biome_binary(inner, &present, Ok(Some("/usr/bin/biome".to_string()))).unwrap().unwrap();
    assert_eq!(got, "/t/packages/foo/node_modules/.bin/biome");
}

#[test]
fn find_git_root_finds_dir_ancestor() {
    assert_eq!(git_root_in("/t/a/b", &["/t/.git"]), Some("/t".to_string()));
}

#[test]
fn find_git_root_finds_file_ancestor() {
    // A `.git` file (worktrees, submodules) is reported as found just like a directory.
    assert_eq!(git_root_in("/t/pkg", &["/t/.git"]), Some("/t".to_string()));
}

#[test]
fn walk_up_for_finds_nearest_in_nested_dir() {
    let nested = "/t/a/b/c";
    let present = present_where(&probe_paths(nested, &["marker.txt"]), &["/t/marker.txt"]);
    assert_eq!(walk_up_for(nested, &["marker.txt"], &present), Some("/t/marker.txt".to_string()));
}

#[test]
fn walk_up_for_prefers_first_candidate_at_same_level() {
    let existing = ["/t/a", "/t/b"];
    let found = walk_up_for("/t", &["a", "b"], &present_where(&probe_paths("/t", &["a", "b"]), &existing)).unwrap();
    assert!(found.ends_with("a"));
    let found = walk_up_for("/t", &["b", "a"], &present_where(&probe_paths("/t", &["b", "a"]), &existing)).unwrap();
    assert!(found.ends_with("b"));
}

#[test]
fn walk_up_for_nearer_level_wins_over_ancestor() {
    let nested = "/t/a/b";
    let present = present_where(&probe_paths(nested, &["marker"]), &["/t/marker", "/t/a/b/marker"]);
    assert_eq!(walk_up_for(nested, &["marker"], &present), Some("/t/a/b/marker".to_string()));
}
