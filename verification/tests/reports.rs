use cc_essentials::cache::{
    accept_cached, cache_key, cached_detection, copy_key, same_key, Cache, FileStamp, SCHEMA_VERSION,
};
use cc_essentials::resolve::{resolve_begin, resolve_step, ResolveAction, ResolveEvent, ResolveState};
use cc_essentials::detect::{BiomeSetup, DetectedProject, PackageManager};
use cc_essentials::doctor::render;
use cc_essentials::logs::{logs_report, recent_log_lines, FileRead};

fn project(repo: bool, pm: bool, biome: bool) -> DetectedProject {
    DetectedProject {
        start: "/w".to_string(),
        repo_root: if repo { Some("/w".to_string()) } else { None },
        package_manager: if pm { Some((PackageManager::Pnpm, "/w/pnpm-lock.yaml".to_string())) } else { None },
        biome: if biome {
            Some(BiomeSetup {
                config_path: "/w/biome.json".to_string(),
                binary_path: "/w/node_modules/.bin/biome".to_string(),
                version: "1.9.4".to_string(),
            })
        } else {
            None
        },
    }
}

#[test]
fn doctor_report_full_stack() {
    let out = render(&project(true, true, true), "/c", false);
    assert_eq!(
        out,
        "cc-essentials doctor\n  start: /w\n  git repo root: /w (found)\n  package manager: Pnpm (/w/pnpm-lock.yaml) (found)\n  biome config: /w/biome.json (found)\n  biome binary: /w/node_modules/.bin/biome (found)\n  biome version: 1.9.4\n  cache dir: /c\nready: biome detected\n"
    );
}

#[test]
fn doctor_report_empty_and_partial() {
    let out = render(&project(false, false, false), "/c", false);
    assert_eq!(
        out,
        "cc-essentials doctor\n  start: /w\n  git repo root: not in a git repo\n  package manager: no lockfile found (not a JS/TS project?)\n  biome config: not configured (no biome.json / biome.jsonc found)\n  biome binary: not applicable\n  cache dir: /c\nnot a supported project (no JS/TS lockfile, no biome config)\n"
    );
    let out = render(&project(true, true, false), "/c", false);
    assert!(out.ends_with("partial: JS/TS project detected but no biome config\n"));
}

#[test]
fn doctor_report_colours_when_asked() {
    let out = render(&project(true, true, true), "/c", true);
    assert!(out.contains("\u{1b}["));
    assert!(out.contains("cc-essentials doctor"));
    assert_ne!(out, render(&project(true, true, true), "/c", false));
    assert!(out.starts_with("\u{1b}[36m\u{1b}[1mcc-essentials doctor\u{1b}[0m\u{1b}[39m\n"));
    assert!(out.ends_with("\u{1b}[32mready: biome detected\u{1b}[39m\n"));
}

#[test]
fn logs_report_when_nothing_exists() {
    let out = logs_report(false, "/c/hooks.log", "/c/last-error.json", &FileRead::NotFound, &FileRead::NotFound, false);
    assert_eq!(
        out,
        "log enabled: no (set CC_ESSENTIALS_LOG=1)\nlog file: /c/hooks.log\nlast error: /c/last-error.json\nno last error recorded\nno log entries (logging disabled or no invocations yet)\n"
    );
}

#[test]
fn logs_report_shows_last_error_and_tail() {
    let last = FileRead::Contents("{\"event\":\"fallback_text\",\"stdout_first_4k\":\"this is the garbage output\"}".to_string());
    let mut log = String::new();
    for i in 0..12 {
        log.push_str(&format!("{{\"n\":{i}}}\n"));
    }
    log.push_str("not json\n\n");
    let out = logs_report(true, "/c/hooks.log", "/c/last-error.json", &last, &FileRead::Contents(log), false);
    assert!(out.starts_with("log enabled: yes\n"));
    assert!(out.contains("--- last error ---\n{\n  \"event\": \"fallback_text\",\n"));
    assert!(out.contains("this is the garbage output"));
    assert!(out.contains("--- recent events ---\n"));
    assert!(!out.contains("\"n\": 2\n"));
    assert!(out.contains("\"n\": 3\n"));
    assert!(out.ends_with("not json\n"));
    let err = logs_report(false, "l", "e", &FileRead::Failed("denied".to_string()), &FileRead::Failed("gone".to_string()), false);
    assert!(err.contains("could not read last-error.json: denied\n"));
    assert!(err.ends_with("could not read hooks.log: gone\n"));
}

#[test]
fn recent_lines_keep_last_ten_non_empty() {
    let lines = recent_log_lines("a\n\nb\n");
    assert_eq!(lines, vec![vec!['a'], vec!['b']]);
    let many: String = (0..15).map(|i| format!("{i}\n")).collect();
    let lines = recent_log_lines(&many);
    assert_eq!(lines.len(), 10);
    assert_eq!(lines[0], vec!['5']);
}

fn setup(config: &str, binary: &str) -> BiomeSetup {
    BiomeSetup { config_path: config.to_string(), binary_path: binary.to_string(), version: "1.9.4".to_string() }
}

#[test]
fn cache_paths_and_lookup_after_store() {
    let c = Cache::open("/home/u/.cache");
    assert_eq!(c.dir(), "/home/u/.cache/cc-essentials/detect");
    let mut c = Cache::open_at("/x".to_string());
    assert_eq!(c.dir(), "/x");
    let stamp = FileStamp { mtime_unix_nanos: 1, size: 2 };
    let key = cache_key("/w/biome.json".to_string(), stamp, Some(("/w/pnpm-lock.yaml".to_string(), stamp)));
    assert_eq!(key.lockfile_path.as_deref(), Some("/w/pnpm-lock.yaml"));
    assert_eq!(key.lockfile_stamp, Some(stamp));
    assert!(c.lookup(&key).unwrap().is_none());

    let entry = cached_detection(copy_key(&key), setup("/w/biome.json", "/b"));
    assert_eq!(entry.schema_version, SCHEMA_VERSION);
    assert!(c.store(&entry).is_ok());
    let hit = c.lookup(&key).unwrap().unwrap();
    assert_eq!(hit.biome.binary_path, "/b");
    assert!(same_key(&hit.key, &key));

    // Same config, edited since: a miss.
    let edited = cache_key("/w/biome.json".to_string(), FileStamp { mtime_unix_nanos: 3, size: 2 }, None);
    assert!(c.lookup(&edited).unwrap().is_none());
    // Storing for the same config replaces the entry.
    assert!(c.store(&cached_detection(copy_key(&edited), setup("/w/biome.json", "/b2"))).is_ok());
    assert_eq!(c.entries().len(), 1);
    assert!(c.lookup(&key).unwrap().is_none());
    assert_eq!(c.lookup(&edited).unwrap().unwrap().biome.binary_path, "/b2");
    // Another config is kept beside it.
    let other = cache_key("/v/biome.json".to_string(), stamp, None);
    assert!(c.store(&cached_detection(copy_key(&other), setup("/v/biome.json", "/c"))).is_ok());
    assert_eq!(c.entries().len(), 2);
    assert_eq!(c.lookup(&edited).unwrap().unwrap().biome.binary_path, "/b2");

    // An entry of an older schema is never found.
    let mut old = cached_detection(copy_key(&other), setup("/v/biome.json", "/c"));
    old.schema_version = SCHEMA_VERSION - 1;
    let c = Cache::with_entries("/x".to_string(), vec![old]);
    assert!(c.lookup(&other).unwrap().is_none());

    let entry = cached_detection(key, setup("/w/biome.json", "/b"));
    assert!(accept_cached(&entry, true, true));
    assert!(!accept_cached(&entry, false, true));
    assert!(!accept_cached(&entry, true, false));
}

fn finished(r: (ResolveState, ResolveAction)) -> Result<Option<BiomeSetup>, String> {
    match r {
        (ResolveState::Done, ResolveAction::Finish(result)) => result,
        _ => panic!("expected the resolution to finish"),
    }
}

#[test]
fn resolve_without_config_finds_no_biome() {
    let (state, action) = resolve_begin(None);
    assert!(matches!(action, ResolveAction::FindConfig));
    assert!(finished(resolve_step(state, ResolveEvent::Config(None))).unwrap().is_none());
}

#[test]
fn resolve_fresh_detection_is_stored_then_returned() {
    let stamp = FileStamp { mtime_unix_nanos: 5, size: 9 };
    let (state, _) = resolve_begin(Some("/w/pnpm-lock.yaml".to_string()));
    let (state, action) = resolve_step(state, ResolveEvent::Config(Some("/w/biome.json".to_string())));
    match &action {
        ResolveAction::Stamp { config_path, lockfile } => {
            assert_eq!(config_path, "/w/biome.json");
            assert_eq!(lockfile.as_deref(), Some("/w/pnpm-lock.yaml"));
        }
        _ => panic!("expected a stamp"),
    }
    let (state, action) = resolve_step(state, ResolveEvent::Stamps(Ok((stamp, Some(stamp)))));
    match &action {
        ResolveAction::CheckCache(key) => {
            assert_eq!(key.biome_config_path, "/w/biome.json");
            assert_eq!(key.lockfile_path.as_deref(), Some("/w/pnpm-lock.yaml"));
        }
        _ => panic!("expected a cache check"),
    }
    let (state, action) =
        resolve_step(state, ResolveEvent::Cached { hit: None, binary_exists: false, config_exists: false });
    match &action {
        ResolveAction::FindBinary { config_dir } => assert_eq!(config_dir, "/w"),
        _ => panic!("expected a binary search"),
    }
    let (state, action) =
        resolve_step(state, ResolveEvent::Binary(Ok(Some("/w/node_modules/.bin/biome".to_string()))));
    assert!(matches!(action, ResolveAction::ProbeVersion { .. }));
    let (state, action) = resolve_step(state, ResolveEvent::Version(Ok("1.9.4".to_string())));
    match &action {
        ResolveAction::Store(entry) => {
            assert_eq!(entry.schema_version, SCHEMA_VERSION);
            assert_eq!(entry.biome.version, "1.9.4");
        }
        _ => panic!("expected a store"),
    }
    let biome = finished(resolve_step(state, ResolveEvent::Stored(Ok(())))).unwrap().unwrap();
    assert_eq!(biome.config_path, "/w/biome.json");
    assert_eq!(biome.binary_path, "/w/node_modules/.bin/biome");
    assert_eq!(biome.version, "1.9.4");
}

#[test]
fn resolve_uses_an_accepted_cache_hit_and_reports_errors() {
    let stamp = FileStamp { mtime_unix_nanos: 5, size: 9 };
    let key = cache_key("/w/biome.json".to_string(), stamp, None);
    let hit = cached_detection(copy_key(&key), setup("/w/biome.json", "/cached/biome"));
    let state = ResolveState::CheckingCache { key: copy_key(&key) };
    let r = finished(resolve_step(state, ResolveEvent::Cached { hit: Some(hit), binary_exists: true, config_exists: true }));
    assert_eq!(r.unwrap().unwrap().binary_path, "/cached/biome");

    // A hit whose binary is gone is not used.
    let hit = cached_detection(copy_key(&key), setup("/w/biome.json", "/cached/biome"));
    let state = ResolveState::CheckingCache { key: copy_key(&key) };
    let (_, action) = resolve_step(state, ResolveEvent::Cached { hit: Some(hit), binary_exists: false, config_exists: true });
    assert!(matches!(action, ResolveAction::FindBinary { .. }));

    let state = ResolveState::FindingBinary { key: copy_key(&key) };
    assert_eq!(finished(resolve_step(state, ResolveEvent::Binary(Ok(None)))).unwrap().is_none(), true);
    let state = ResolveState::FindingBinary { key: copy_key(&key) };
    assert_eq!(finished(resolve_step(state, ResolveEvent::Binary(Err("which biome: x".to_string())))).err(), Some("which biome: x".to_string()));
    let state = ResolveState::Stamping { config_path: "/w/biome.json".to_string(), lockfile: None };
    assert_eq!(finished(resolve_step(state, ResolveEvent::Stamps(Err("gone".to_string())))).err(), Some("gone".to_string()));
    let state = ResolveState::Done;
    assert_eq!(
        finished(resolve_step(state, ResolveEvent::Stored(Ok(())))).err(),
        Some("unexpected event while resolving biome".to_string())
    );
}
