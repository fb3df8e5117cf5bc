use cc_essentials::detect::{
    biome_config_probes, detect_package_manager, find_biome_binary, find_biome_config, find_git_root,
    git_root_probes, package_manager_probes, probe_version, PackageManager, ProbeStatus,
};
use cc_essentials::error_dump::truncate_utf8;
use cc_essentials::paths::{ancestors, first_hit, join_path, probe_paths, walk_up_for};

#[test]
fn truncate_utf8_shortens_long_ascii() {
    let s = "a".repeat(10000);
    let result = truncate_utf8(&s, 4096);
    assert_eq!(result.len(), 4096);
    assert!(result.chars().all(|c| c == 'a'));
}

#[test]
fn truncate_utf8_respects_utf8_boundaries() {
    let s = "日本語".repeat(500);
    let result = truncate_utf8(&s, 10);
    assert!(result.len() <= 10);
    assert_eq!(result.len(), 9);
    assert!(result.chars().count() == 3);
}

#[test]
fn truncate_utf8_no_truncation_when_within_limit() {
    let s = "hello";
    assert_eq!(truncate_utf8(s, 100), "hello");
}

#[test]
fn truncate_utf8_mixed_widths() {
    assert_eq!(truncate_utf8("aé😀b", 6), "aé");
    assert_eq!(truncate_utf8("aé😀b", 7), "aé😀");
    assert_eq!(truncate_utf8("😀", 3), "");
    assert_eq!(truncate_utf8("", 0), "");
}

fn none_present(grid: &Vec<Vec<String>>) -> Vec<Vec<bool>> {
    grid.iter().map(|row| row.iter().map(|_| false).collect()).collect()
}

fn present_where(grid: &Vec<Vec<String>>, existing: &[&str]) -> Vec<Vec<bool>> {
    grid.iter()
        .map(|row| row.iter().map(|p| existing.contains(&p.as_str())).collect())
        .collect()
}

#[test]
fn ancestors_and_join() {
    assert_eq!(
        ancestors("/tmp/x/a"),
        vec!["/tmp/x/a".to_string(), "/tmp/x".to_string(), "/tmp".to_string(), "/".to_string()]
    );
    assert_eq!(join_path("/tmp", "a"), "/tmp/a");
    assert_eq!(join_path("/", "a"), "/a");
    assert_eq!(join_path("/tmp", "/abs"), "/abs");
    assert_eq!(join_path("", "a"), "a");
}

#[test]
fn walk_up_for_returns_none_when_absent() {
    let grid = probe_paths("/tmp/t", &["nope.txt"]);
    assert!(walk_up_for("/tmp/t", &["nope.txt"], &none_present(&grid)).is_none());
}

#[test]
fn walk_up_for_finds_nearest_and_first_candidate() {
    let grid = probe_paths("/r/a/b/c", &["marker.txt"]);
    let present = present_where(&grid, &["/r/marker.txt"]);
    assert_eq!(walk_up_for("/r/a/b/c", &["marker.txt"], &present), Some("/r/marker.txt".to_string()));
    let present = present_where(&grid, &["/r/marker.txt", "/r/a/b/marker.txt"]);
    assert_eq!(walk_up_for("/r/a/b/c", &["marker.txt"], &present), Some("/r/a/b/marker.txt".to_string()));
    let grid = probe_paths("/r", &["a", "b"]);
    let present = present_where(&grid, &["/r/a", "/r/b"]);
    assert_eq!(walk_up_for("/r", &["a", "b"], &present), Some("/r/a".to_string()));
    assert_eq!(walk_up_for("/r", &["b", "a"], &present_where(&probe_paths("/r", &["b", "a"]), &["/r/a", "/r/b"])), Some("/r/b".to_string()));
    assert_eq!(first_hit(&present, 2, 2), Some((0, 0)));
}

#[test]
fn returns_none_when_no_config_exists() {
    let grid = biome_config_probes("/tmp/t");
    assert!(find_biome_config("/tmp/t", &none_present(&grid)).is_none());
}

#[test]
fn biome_config_prefers_json_and_nearest() {
    let grid = biome_config_probes("/p/packages/foo");
    let present = present_where(&grid, &["/p/biome.json", "/p/packages/foo/biome.jsonc", "/p/packages/foo/biome.json"]);
    assert_eq!(find_biome_config("/p/packages/foo", &present), Some("/p/packages/foo/biome.json".to_string()));
    let present = present_where(&grid, &["/p/biome.json", "/p/packages/foo/biome.jsonc"]);
    assert_eq!(find_biome_config("/p/packages/foo", &present), Some("/p/packages/foo/biome.jsonc".to_string()));
}

#[test]
fn package_manager_priority_and_nearest() {
    let grid = package_manager_probes("/p/packages/foo");
    let present = present_where(&grid, &["/p/bun.lockb", "/p/pnpm-lock.yaml"]);
    assert_eq!(detect_package_manager("/p/packages/foo", &present), Some((PackageManager::Bun, "/p/bun.lockb".to_string())));
    let present = present_where(&grid, &["/p/pnpm-lock.yaml", "/p/packages/foo/package-lock.json"]);
    assert_eq!(
        detect_package_manager("/p/packages/foo", &present),
        Some((PackageManager::Npm, "/p/packages/foo/package-lock.json".to_string()))
    );
    let present = present_where(&grid, &["/p/yarn.lock", "/p/package-lock.json"]);
    assert_eq!(detect_package_manager("/p/packages/foo", &present).unwrap().0, PackageManager::Yarn);
    assert!(detect_package_manager("/p/packages/foo", &none_present(&grid)).is_none());
    assert_eq!(PackageManager::Pnpm.lockfile_name(), "pnpm-lock.yaml");
}

#[test]
fn find_git_root_returns_none_when_absent() {
    let probes = git_root_probes("/tmp/t");
    let status: Vec<ProbeStatus> = probes.iter().map(|_| ProbeStatus::Missing).collect();
    assert!(find_git_root("/tmp/t", &status).unwrap().is_none());
}

#[test]
fn git_root_nearest_and_errors() {
    let probes = git_root_probes("/r/a/b");
    assert_eq!(probes, vec!["/r/a/b/.git".to_string(), "/r/a/.git".to_string(), "/r/.git".to_string(), "/.git".to_string()]);
    let status = vec![ProbeStatus::Missing, ProbeStatus::Missing, ProbeStatus::Found, ProbeStatus::Missing];
    assert_eq!(find_git_root("/r/a/b", &status).unwrap(), Some("/r".to_string()));
    let status = vec![ProbeStatus::Missing, ProbeStatus::Failed("denied".to_string()), ProbeStatus::Found];
    assert_eq!(find_git_root("/r/a/b", &status), Err("denied".to_string()));
}

#[test]
fn biome_binary_walk_then_path() {
    let start = "/p/src";
    let grid = cc_essentials::detect::biome_binary_probes(start);
    let present = present_where(&grid, &["/p/node_modules/.bin/biome"]);
    assert_eq!(find_biome_binary(start, &present, Ok(None)), Ok(Some("/p/node_modules/.bin/biome".to_string())));
    let none = none_present(&grid);
    assert_eq!(find_biome_binary(start, &none, Ok(Some("/usr/bin/biome".to_string()))), Ok(Some("/usr/bin/biome".to_string())));
    assert_eq!(find_biome_binary(start, &none, Ok(None)), Ok(None));
    assert_eq!(find_biome_binary(start, &none, Err("bad PATH".to_string())), Err("which biome: bad PATH".to_string()));
}

#[test]
fn probe_version_extracts_semver() {
    let v = probe_version("Version: 1.9.4\n", "").unwrap();
    assert_eq!(v, "1.9.4");
}

#[test]
fn probe_version_errors_on_unparseable_output() {
    assert!(probe_version("hello world\n", "").is_err());
}

#[test]
fn probe_version_reads_stderr_and_quotes_output() {
    assert_eq!(probe_version("", "biome 2.0.10 (beta)").unwrap(), "2.0.10");
    assert_eq!(
        probe_version("  no version here \n", "").unwrap_err(),
        "could not parse biome version from: no version here"
    );
}
