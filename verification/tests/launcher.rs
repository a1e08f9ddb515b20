use pomc::downloader::{
    retry_decision, AttemptResult, RetryAction,
    extract_status, find_version, hash_matches, index_file_name, index_path, needs_download,
    object_path, object_prefix, object_url, plan_downloads, should_extract, version_not_found,
    AssetObject, DownloadProgress, VersionEntry,
};
use pomc::installations::{
    find_by_id, register, unregister, update, Installation, InstallationDraft, InstallationError,
};
use pomc::settings::{username_or_default, LaunchArgs, LauncherSettings};
use pomc::storage::{
    accounts_file, assets_dir, data_dir, data_dir_from, default_file_contents, indexes_dir,
    installations_dir, installations_file, objects_dir, settings_file, versions_dir,
};

fn install(id: &str, dir: &str) -> Installation {
    Installation {
        id: id.to_string(),
        name: format!("Install {id}"),
        version: "1.21.4".to_string(),
        directory: dir.to_string(),
        width: 854,
        height: 480,
    }
}

fn sep() -> char {
    std::path::MAIN_SEPARATOR
}

#[test]
fn needs_download_unless_both_present() {
    assert!(!needs_download(true, true));
    assert!(needs_download(false, true));
    assert!(needs_download(true, false));
    assert!(needs_download(false, false));
}

#[test]
fn index_names_and_paths() {
    assert_eq!(index_file_name("1.21.4"), "1.21.4.json");
    assert_eq!(index_path("indexes", "1.21.4"), format!("indexes{}1.21.4.json", sep()));
}

#[test]
fn object_locations() {
    let hash = "bdf48ef6b5d0d23bbb02e17d04865216179f510a";
    assert_eq!(object_prefix(hash), "bd");
    assert_eq!(
        object_url(hash),
        "https://resources.download.minecraft.net/bd/bdf48ef6b5d0d23bbb02e17d04865216179f510a"
    );
    assert_eq!(object_path("objects", hash), format!("objects{s}bd{s}{hash}", s = sep()));
}

#[test]
fn plan_skips_objects_already_present() {
    let objects = vec![
        AssetObject { hash: "aa11".to_string(), size: 10 },
        AssetObject { hash: "bb22".to_string(), size: 20 },
        AssetObject { hash: "cc33".to_string(), size: 5 },
    ];
    let on_disk = vec![Some(10), Some(3), None];
    let (plan, total) = plan_downloads(&objects, &on_disk);
    assert_eq!(plan.len(), 2);
    assert_eq!(plan[0].hash, "bb22");
    assert_eq!(plan[0].url, "https://resources.download.minecraft.net/bb/bb22");
    assert_eq!(plan[0].size, 20);
    assert_eq!(plan[1].hash, "cc33");
    assert_eq!(total, 25);
}

#[test]
fn plan_nothing_when_all_present() {
    let objects = vec![AssetObject { hash: "aa11".to_string(), size: 10 }];
    let (plan, total) = plan_downloads(&objects, &vec![Some(10)]);
    assert!(plan.is_empty());
    assert_eq!(total, 0);
}

#[test]
fn extraction_filter() {
    assert!(should_extract("assets/minecraft/textures/block/stone.png", false));
    assert!(!should_extract("assets/minecraft/", true));
    assert!(!should_extract("net/minecraft/Main.class", false));
    assert!(!should_extract("asset", false));
}

#[test]
fn sha1_hash_check() {
    assert!(hash_matches(b"abc", "a9993e364706816aba3e25717850c26c9cd0d89d"));
    assert!(!hash_matches(b"abd", "a9993e364706816aba3e25717850c26c9cd0d89d"));
    assert!(hash_matches(b"", "da39a3ee5e6b4b0d3255bfef95601890afd80709"));
}

#[test]
fn version_lookup() {
    let versions = vec![
        VersionEntry { id: "1.21.4".to_string(), url: "u1".to_string() },
        VersionEntry { id: "1.21.3".to_string(), url: "u2".to_string() },
    ];
    assert_eq!(find_version(&versions, "1.21.3"), Some(1));
    assert_eq!(find_version(&versions, "1.8"), None);
    assert_eq!(version_not_found("1.8"), "Version 1.8 not found");
}

#[test]
fn extraction_progress_text() {
    assert_eq!(extract_status(3, 120), "Extracting client JAR (3/120)");
    assert_eq!(extract_status(0, 0), "Extracting client JAR (0/0)");
    let p = DownloadProgress { downloaded: 3, total: 120, status: extract_status(3, 120) };
    assert_eq!(p.downloaded, 3);
}

#[test]
fn find_installation_by_id() {
    let list = vec![install("a", "/games/a"), install("b", "/games/b")];
    let found = find_by_id(list.clone(), "b").ok().unwrap();
    assert_eq!(found.directory, "/games/b");
    match find_by_id(list, "zz") {
        Err(InstallationError::InstallNotFound(id)) => assert_eq!(id, "zz"),
        _ => panic!("expected InstallNotFound"),
    }
}

#[test]
fn register_then_find() {
    let mut list = vec![install("a", "/games/a")];
    assert!(register(&mut list, install("b", "/games/b")).is_ok());
    assert_eq!(list.len(), 2);
    assert_eq!(find_by_id(list, "b").ok().unwrap().directory, "/games/b");
}

#[test]
fn register_refuses_shared_directory() {
    let mut list = vec![install("a", "/games/a")];
    let r = register(&mut list, install("b", "/games/a"));
    assert!(matches!(r, Err(InstallationError::DirectoryAlreadyExists)));
    assert_eq!(list.len(), 1);
    assert_eq!(list[0].id, "a");
}

#[test]
fn unregister_removes_all_with_id() {
    let mut list = vec![install("a", "/1"), install("b", "/2"), install("a", "/3")];
    unregister(&mut list, "a");
    assert_eq!(list.len(), 1);
    assert_eq!(list[0].id, "b");
    assert!(find_by_id(list, "a").is_err());
}

#[test]
fn update_edits_first_match() {
    let mut list = vec![install("a", "/1"), install("b", "/2")];
    let draft = InstallationDraft {
        name: "Renamed".to_string(),
        version: "1.20.1".to_string(),
        directory: "/9".to_string(),
        width: 1920,
        height: 1080,
    };
    let edited = update(&mut list, "b", draft).ok().unwrap();
    assert_eq!(edited.id, "b");
    assert_eq!(edited.name, "Renamed");
    assert_eq!(list[1].directory, "/9");
    assert_eq!(list[1].width, 1920);
    assert_eq!(list[0].name, "Install a");
    assert_eq!(find_by_id(list, "b").ok().unwrap().version, "1.20.1");
}

#[test]
fn update_unknown_id() {
    let mut list = vec![install("a", "/1")];
    let draft = InstallationDraft {
        name: "x".to_string(),
        version: "y".to_string(),
        directory: "/z".to_string(),
        width: 1,
        height: 1,
    };
    match update(&mut list, "q", draft) {
        Err(InstallationError::InstallNotFound(id)) => assert_eq!(id, "q"),
        _ => panic!("expected InstallNotFound"),
    }
    assert_eq!(list[0].directory, "/1");
}

#[test]
fn storage_paths() {
    let s = sep();
    assert_eq!(assets_dir("data"), format!("data{s}assets"));
    assert_eq!(versions_dir("data"), format!("data{s}versions"));
    assert_eq!(installations_dir("data"), format!("data{s}installations"));
    assert_eq!(indexes_dir("data"), format!("data{s}assets{s}indexes"));
    assert_eq!(objects_dir("data"), format!("data{s}assets{s}objects"));
    assert_eq!(settings_file("data"), format!("data{s}settings.json"));
    assert_eq!(accounts_file("data"), format!("data{s}accounts.json"));
    assert_eq!(installations_file("data"), format!("data{s}installations.json"));
}

#[test]
fn data_dir_fallback() {
    assert_eq!(data_dir_from(None), ".pomc");
    assert_eq!(data_dir_from(Some("/home/x/.local/share/.pomc".to_string())), "/home/x/.local/share/.pomc");
    let d = data_dir();
    assert!(d == ".pomc" || d.ends_with("/.pomc") || d.ends_with("\\.pomc\\data"));
}

#[test]
fn default_files() {
    assert_eq!(default_file_contents(true), "{}");
    assert_eq!(default_file_contents(false), "[]");
}

#[test]
fn launcher_settings_default() {
    let s = LauncherSettings::default();
    assert_eq!(s.language, "English");
    assert!(s.keep_launcher_open);
    assert!(!s.launch_with_console);
}

#[test]
fn default_username() {
    assert_eq!(username_or_default(&None), "Steve");
    assert_eq!(username_or_default(&Some("Alex".to_string())), "Alex");
    let args = LaunchArgs {
        username: None,
        uuid: None,
        access_token: None,
        server: Some("localhost".to_string()),
        assets_dir: None,
        game_dir: None,
        version: None,
        launch_token: None,
    };
    assert_eq!(username_or_default(&args.username), "Steve");
}

#[test]
fn nothing_left_after_download() {
    let objects = vec![
        AssetObject { hash: "aa11".to_string(), size: 10 },
        AssetObject { hash: "bb22".to_string(), size: 0 },
    ];
    let on_disk: Vec<Option<u64>> = objects.iter().map(|o| Some(o.size)).collect();
    let (plan, total) = plan_downloads(&objects, &on_disk);
    assert!(plan.is_empty());
    assert_eq!(total, 0);
}

#[test]
fn paths_join_with_one_separator() {
    let s = sep();
    assert_eq!(assets_dir("data"), format!("data{s}assets"));
    assert_eq!(assets_dir("data/"), "data/assets");
    assert_eq!(assets_dir(""), "assets");
    assert_eq!(indexes_dir("d"), format!("d{s}assets{s}indexes"));
    assert_eq!(settings_file("/x"), format!("/x{s}settings.json"));
}

#[test]
fn downloads_retry_only_unreadable_bodies() {
    assert_eq!(retry_decision(0, 3, AttemptResult::Received), RetryAction::Succeed);
    assert_eq!(retry_decision(0, 3, AttemptResult::SendFailed), RetryAction::Fail);
    assert_eq!(retry_decision(0, 3, AttemptResult::BodyFailed), RetryAction::Retry);
    assert_eq!(retry_decision(1, 3, AttemptResult::BodyFailed), RetryAction::Retry);
    assert_eq!(retry_decision(2, 3, AttemptResult::BodyFailed), RetryAction::Fail);
}
