use mcp_inspector_desktop::config::{
    app_dir_path, config_file_path, AppConfig, AppSettings, ServerProfile,
};

fn profile(name: &str, last_used_at: i64) -> ServerProfile {
    ServerProfile {
        id: format!("id-{}", name),
        name: name.to_string(),
        command: "mcp-inspector".to_string(),
        working_directory: "/tmp/work".to_string(),
        env_vars: Vec::new(),
        created_at: last_used_at,
        last_used_at,
    }
}

#[test]
fn defaults_are_the_documented_ones() {
    let c = AppConfig::default();
    assert_eq!(c.version, "1.0.0");
    assert!(c.recent_profiles.is_empty());
    assert!(c.default_env_vars.is_empty());
    assert_eq!(c.settings.theme, "system");
    assert!(!c.settings.auto_start);
    let s = AppSettings::default();
    assert_eq!(s.theme, "system");
    assert!(!s.auto_start);
}

#[test]
fn missing_or_corrupt_document_falls_back_to_default() {
    let c = AppConfig::load_or_default(None);
    assert_eq!(c.version, "1.0.0");
    assert!(c.recent_profiles.is_empty());
    assert_eq!(c.settings.theme, "system");
    assert!(!c.settings.auto_start);
}

#[test]
fn parsed_document_is_used_as_it_is() {
    let mut given = AppConfig::default();
    given.version = "9.9.9".to_string();
    given.recent_profiles.push(profile("kept", 5));
    let c = AppConfig::load_or_default(Some(given));
    assert_eq!(c.version, "9.9.9");
    assert_eq!(c.recent_profiles.len(), 1);
    assert_eq!(c.recent_profiles[0].name, "kept");
}

#[test]
fn eleventh_profile_evicts_the_stalest() {
    let mut c = AppConfig::default();
    for i in 1..=11i64 {
        c.upsert(profile(&format!("p{}", i), i));
    }
    assert_eq!(c.recent_profiles.len(), 10);
    assert!(c.recent_profiles.iter().all(|p| p.name != "p1"));
    assert_eq!(c.recent_profiles[0].name, "p11");
    assert_eq!(c.recent_profiles[9].name, "p2");
}

#[test]
fn overflow_keeps_the_other_nine_unchanged() {
    let mut c = AppConfig::default();
    for i in 1..=10i64 {
        c.upsert(profile(&format!("p{}", i), i));
    }
    let before: Vec<String> = c.recent_profiles.iter().map(|p| p.id.clone()).collect();
    c.upsert(profile("p11", 11));
    assert_eq!(c.recent_profiles.len(), 10);
    assert_eq!(c.recent_profiles[0].name, "p11");
    for (idx, p) in c.recent_profiles.iter().skip(1).enumerate() {
        assert_eq!(p.id, before[idx]);
    }
    assert!(c.recent_profiles.iter().all(|p| p.name != "p1"));
}

#[test]
fn upsert_keeps_most_recently_used_order() {
    let mut c = AppConfig::default();
    c.upsert(profile("a", 30));
    c.upsert(profile("b", 10));
    c.upsert(profile("c", 20));
    let names: Vec<&str> = c.recent_profiles.iter().map(|p| p.name.as_str()).collect();
    assert_eq!(names, ["a", "c", "b"]);
}

#[test]
fn same_name_replaces_in_place() {
    let mut c = AppConfig::default();
    c.upsert(profile("a", 1));
    c.upsert(profile("b", 2));
    let mut again = profile("a", 3);
    again.working_directory = "/tmp/other".to_string();
    c.upsert(again);
    assert_eq!(c.recent_profiles.len(), 2);
    assert_eq!(c.recent_profiles[0].name, "a");
    assert_eq!(c.recent_profiles[0].working_directory, "/tmp/other");
    assert_eq!(c.recent_profiles[0].last_used_at, 3);
    assert_eq!(c.recent_profiles[1].name, "b");
}

#[test]
fn delete_removes_by_id_and_ignores_unknown_ids() {
    let mut c = AppConfig::default();
    c.upsert(profile("a", 1));
    c.upsert(profile("b", 2));
    c.delete_profile(&"id-a".to_string());
    assert_eq!(c.recent_profiles.len(), 1);
    assert_eq!(c.recent_profiles[0].name, "b");
    c.delete_profile(&"id-unknown".to_string());
    assert_eq!(c.recent_profiles.len(), 1);
}

#[test]
fn save_profile_generates_id_and_timestamps() {
    let mut c = AppConfig::default();
    c.save_profile(
        "mine".to_string(),
        "mcp-inspector".to_string(),
        "/tmp/work".to_string(),
        vec![("KEY".to_string(), "VALUE".to_string())],
    );
    assert_eq!(c.recent_profiles.len(), 1);
    let p = &c.recent_profiles[0];
    assert_eq!(p.name, "mine");
    assert_eq!(p.command, "mcp-inspector");
    assert_eq!(p.working_directory, "/tmp/work");
    assert_eq!(p.env_vars, [("KEY".to_string(), "VALUE".to_string())]);
    assert_eq!(p.id.len(), 36);
    assert_eq!(p.created_at, p.last_used_at);
}

#[test]
fn save_profile_overwrites_namesake() {
    let mut c = AppConfig::default();
    c.save_profile(
        "mine".to_string(),
        "mcp-inspector".to_string(),
        "/tmp/one".to_string(),
        Vec::new(),
    );
    let first_id = c.recent_profiles[0].id.clone();
    c.save_profile(
        "mine".to_string(),
        "mcp-inspector".to_string(),
        "/tmp/two".to_string(),
        Vec::new(),
    );
    assert_eq!(c.recent_profiles.len(), 1);
    assert_eq!(c.recent_profiles[0].working_directory, "/tmp/two");
    assert_ne!(c.recent_profiles[0].id, first_id);
}

#[test]
fn path_joins_are_exact() {
    assert_eq!(
        app_dir_path("/home/me/.config".to_string()),
        "/home/me/.config/mcp-inspector-desktop"
    );
    assert_eq!(
        config_file_path("/home/me/.config/mcp-inspector-desktop".to_string()),
        "/home/me/.config/mcp-inspector-desktop/config.json"
    );
}

#[test]
fn config_path_ends_with_the_documented_tail() {
    if let Some(dir) = AppConfig::config_dir() {
        assert!(dir.ends_with("/mcp-inspector-desktop"));
    }
    if let Some(path) = AppConfig::config_path() {
        assert!(path.ends_with("/mcp-inspector-desktop/config.json"));
    }
}
