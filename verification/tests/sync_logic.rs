use rustup_mirror::channel::count_failures;
use rustup_mirror::channel::sync_one_rustup_target;
use rustup_mirror::channel::sync_rustup_channel;
use rustup_mirror::config::ConfigRustup;
use rustup_mirror::driver::gc_decision;
use rustup_mirror::driver::pinned_failure_action;
use rustup_mirror::driver::sync;
use rustup_mirror::driver::GcDecision;
use rustup_mirror::driver::PinnedFailure;
use rustup_mirror::driver::SyncStep;
use rustup_mirror::errors::DownloadError;
use rustup_mirror::errors::MirrorError;
use rustup_mirror::errors::SyncError;
use rustup_mirror::gc::clean_old_files;
use rustup_mirror::gc::files_to_delete;
use rustup_mirror::gc::paths_under_dates;
use rustup_mirror::history::add_to_channel_history;
use rustup_mirror::history::history_toml;
use rustup_mirror::history::latest_dates_from_channel_history;
use rustup_mirror::history::ChannelHistoryFile;
use rustup_mirror::index_sync::sync_crates_repo;
use rustup_mirror::index_sync::update_crates_config;
use rustup_mirror::index_sync::IndexSyncAction;
use rustup_mirror::installer::rustup_init_jobs;
use rustup_mirror::installer::sync_one_init;
use rustup_mirror::installer::sync_rustup_init;
use rustup_mirror::manifest::get_rustup_version;
use rustup_mirror::manifest::rustup_download_list;
use rustup_mirror::manifest::Channel;
use rustup_mirror::manifest::Pkg;
use rustup_mirror::manifest::Release;
use rustup_mirror::manifest::Target;
use rustup_mirror::manifest::TargetUrls;
use rustup_mirror::platforms::get_platforms;
use rustup_mirror::platforms::platforms_unix_catalog;
use rustup_mirror::platforms::platforms_windows_catalog;
use rustup_mirror::platforms::Platforms;

fn base_config() -> ConfigRustup {
    ConfigRustup {
        source: "https://static.example.org".to_string(),
        download_threads: 4,
        download_dev: None,
        platforms_unix: Some(vec!["x86_64-unknown-linux-gnu".to_string()]),
        platforms_windows: Some(vec![]),
        keep_latest_stables: Some(1),
        keep_latest_betas: Some(0),
        keep_latest_nightlies: Some(0),
        pinned_rust_versions: None,
    }
}

fn one_platform() -> Platforms {
    Platforms {
        unix: vec!["x86_64-unknown-linux-gnu".to_string()],
        windows: vec![],
    }
}

fn ledger(entries: &[(&str, &[&str])]) -> ChannelHistoryFile {
    ChannelHistoryFile {
        versions: entries
            .iter()
            .map(|(d, ps)| {
                (d.to_string(), ps.iter().map(|p| p.to_string()).collect::<Vec<String>>())
            })
            .collect(),
    }
}

#[test]
fn get_platforms_validates_against_catalog() {
    let cfg = base_config();
    let platforms = get_platforms(&cfg).expect("configured platforms are known");
    assert_eq!(platforms.unix, vec!["x86_64-unknown-linux-gnu".to_string()]);
    assert!(platforms.windows.is_empty());

    let mut bad = base_config();
    bad.platforms_unix = Some(vec!["sparc-futuristic-os".to_string()]);
    assert!(matches!(get_platforms(&bad), Err(MirrorError::Config(_))));

    let mut defaulted = base_config();
    defaulted.platforms_unix = None;
    defaulted.platforms_windows = None;
    let all = get_platforms(&defaulted).expect("defaults are valid");
    assert_eq!(all.unix, platforms_unix_catalog());
    assert_eq!(all.windows, platforms_windows_catalog());
    assert_eq!(all.unix.len(), 75);
    assert_eq!(all.windows.len(), 5);
}

#[test]
fn release_pointer_version() {
    let release = Release {
        schema_version: "1".to_string(),
        version: "1.27.1".to_string(),
    };
    assert_eq!(get_rustup_version(&release), "1.27.1");
}

fn target(base: &str, name: &str) -> (String, Target) {
    (
        name.to_string(),
        Target::Available(TargetUrls {
            url: format!("{}/dist/2024-03-01/rust-{}.tar.gz", base, name),
            hash: format!("hash-{}", name),
            xz_url: format!("{}/dist/2024-03-01/rust-{}.tar.xz", base, name),
            xz_hash: format!("xzhash-{}", name),
        }),
    )
}

fn sample_channel() -> Channel {
    let base = "https://static.example.org";
    Channel {
        manifest_version: "2".to_string(),
        date: "2024-03-01".to_string(),
        pkg: vec![
            (
                "rust".to_string(),
                Pkg {
                    version: "1.77.0".to_string(),
                    target: vec![
                        target(base, "x86_64-unknown-linux-gnu"),
                        target(base, "aarch64-unknown-linux-gnu"),
                        ("wasm32-wasi".to_string(), Target::Unavailable),
                    ],
                },
            ),
            (
                "rust-src".to_string(),
                Pkg {
                    version: "1.77.0".to_string(),
                    target: vec![target(base, "*")],
                },
            ),
            (
                "rustc-dev".to_string(),
                Pkg {
                    version: "1.77.0".to_string(),
                    target: vec![target(base, "x86_64-unknown-linux-gnu")],
                },
            ),
        ],
    }
}

#[test]
fn download_list_keeps_configured_and_star_targets() {
    let channel = sample_channel();
    let (date, files) =
        rustup_download_list(&channel, false, &one_platform()).expect("URLs are well-formed");
    assert_eq!(date, "2024-03-01");
    assert_eq!(
        files,
        vec![
            (
                "dist/2024-03-01/rust-x86_64-unknown-linux-gnu.tar.gz".to_string(),
                "hash-x86_64-unknown-linux-gnu".to_string()
            ),
            (
                "dist/2024-03-01/rust-x86_64-unknown-linux-gnu.tar.xz".to_string(),
                "xzhash-x86_64-unknown-linux-gnu".to_string()
            ),
            ("dist/2024-03-01/rust-*.tar.gz".to_string(), "hash-*".to_string()),
            ("dist/2024-03-01/rust-*.tar.xz".to_string(), "xzhash-*".to_string()),
        ]
    );
}

#[test]
fn download_list_includes_dev_package_when_enabled() {
    let channel = sample_channel();
    let (_, files) =
        rustup_download_list(&channel, true, &one_platform()).expect("URLs are well-formed");
    assert_eq!(files.len(), 6);
    assert!(files.iter().any(|(p, _)| p == "dist/2024-03-01/rust-x86_64-unknown-linux-gnu.tar.gz"));
}

#[test]
fn download_list_rejects_malformed_urls() {
    let mut channel = sample_channel();
    channel.pkg[0].1.target[0].1 = Target::Available(TargetUrls {
        url: "no-slashes".to_string(),
        hash: "h".to_string(),
        xz_url: "also-none".to_string(),
        xz_hash: "x".to_string(),
    });
    assert!(matches!(
        rustup_download_list(&channel, false, &one_platform()),
        Err(SyncError::Parse(_))
    ));
}

#[test]
fn target_fetch_url() {
    let source = "https://static.example.org".to_string();
    let rel = "dist/2024-03-01/rust-std.tar.xz".to_string();
    assert_eq!(
        sync_one_rustup_target(&source, &rel),
        "https://static.example.org/dist/2024-03-01/rust-std.tar.xz"
    );
}

#[test]
fn ledger_insert_and_replace() {
    let mut history = ChannelHistoryFile::new();
    let files = vec![
        ("dist/2024-03-01/a".to_string(), "ha".to_string()),
        ("dist/2024-03-01/b".to_string(), "hb".to_string()),
    ];
    add_to_channel_history(&mut history, &"2024-03-01".to_string(), &files).expect("ISO date");
    assert_eq!(history.versions.len(), 1);
    assert_eq!(history.versions[0].0, "2024-03-01");
    assert_eq!(
        history.versions[0].1,
        vec!["dist/2024-03-01/a".to_string(), "dist/2024-03-01/b".to_string()]
    );

    let replacement = vec![("dist/2024-03-01/c".to_string(), "hc".to_string())];
    add_to_channel_history(&mut history, &"2024-03-01".to_string(), &replacement).expect("ISO");
    assert_eq!(history.versions.len(), 1);
    assert_eq!(history.versions[0].1, vec!["dist/2024-03-01/c".to_string()]);

    let bad = add_to_channel_history(&mut history, &"first of March".to_string(), &files);
    assert!(matches!(bad, Err(SyncError::Parse(_))));
    assert_eq!(history.versions.len(), 1);
}

#[test]
fn ledger_toml_rendering() {
    let h = ledger(&[
        ("2024-01-01", &["dist/2024-01-01/a", "dist/2024-01-01/b"]),
        ("2024-02-01", &[]),
    ]);
    let text = history_toml(&h).expect("paths are plain");
    assert_eq!(
        text,
        "[versions]\n\"2024-01-01\" = [\"dist/2024-01-01/a\", \"dist/2024-01-01/b\"]\n\"2024-02-01\" = []\n"
    );
    let table: toml::Table = text.parse().expect("the rendering is valid TOML");
    let versions = table["versions"].as_table().expect("a table");
    let listed = versions["2024-01-01"].as_array().expect("an array");
    assert_eq!(listed[0].as_str(), Some("dist/2024-01-01/a"));
    assert_eq!(listed[1].as_str(), Some("dist/2024-01-01/b"));
    assert!(versions["2024-02-01"].as_array().expect("an array").is_empty());
}

#[test]
fn ledger_toml_escapes_quotes_and_rejects_control_chars() {
    let tricky = ledger(&[("2024-01-01", &["dist/a\"b\\c"])]);
    let text = history_toml(&tricky).expect("quotes and backslashes are escapable");
    assert_eq!(text, "[versions]\n\"2024-01-01\" = [\"dist/a\\\"b\\\\c\"]\n");
    let table: toml::Table = text.parse().expect("the rendering is valid TOML");
    let listed = table["versions"]["2024-01-01"].as_array().expect("an array");
    assert_eq!(listed[0].as_str(), Some("dist/a\"b\\c"));

    let bad = ledger(&[("2024-01-01", &["dist/\x07bell"])]);
    assert!(history_toml(&bad).is_none());
}

#[test]
fn latest_dates_sorts_descending_and_truncates() {
    let history = ledger(&[
        ("2024-01-01", &["dist/2024-01-01/a"]),
        ("2024-03-01", &["dist/2024-03-01/a"]),
        ("2024-02-01", &["dist/2024-02-01/a"]),
    ]);
    let dates = latest_dates_from_channel_history(&history, 2);
    assert_eq!(dates, vec!["2024-03-01".to_string(), "2024-02-01".to_string()]);
    let all = latest_dates_from_channel_history(&history, 10);
    assert_eq!(
        all,
        vec!["2024-03-01".to_string(), "2024-02-01".to_string(), "2024-01-01".to_string()]
    );
    assert!(latest_dates_from_channel_history(&history, 0).is_empty());
}

#[test]
fn retention_rollover_keeps_two_latest() {
    let stable = ledger(&[
        ("2024-01-01", &["dist/2024-01-01/old.tar.gz"]),
        ("2024-02-01", &["dist/2024-02-01/mid.tar.gz"]),
        ("2024-03-01", &["dist/2024-03-01/new.tar.gz"]),
    ]);
    let empty = ChannelHistoryFile::new();
    let found = vec![
        "dist/2024-01-01/old.tar.gz".to_string(),
        "dist/2024-02-01/mid.tar.gz".to_string(),
        "dist/2024-03-01/new.tar.gz".to_string(),
        "dist/2024-03-01/untracked.tar.gz".to_string(),
    ];
    let deleted = clean_old_files(&stable, Some(2), &empty, None, &empty, None, &vec![], &found);
    assert_eq!(
        deleted,
        vec![
            "dist/2024-01-01/old.tar.gz".to_string(),
            "dist/2024-03-01/untracked.tar.gz".to_string()
        ]
    );
}

#[test]
fn full_retention_deletes_no_tracked_file() {
    let stable = ledger(&[
        ("2024-01-01", &["dist/2024-01-01/a"]),
        ("2024-02-01", &["dist/2024-02-01/b"]),
    ]);
    let beta = ledger(&[("2024-02-02", &["dist/2024-02-02/c"])]);
    let nightly = ledger(&[("2024-02-03", &["dist/2024-02-03/d"])]);
    let found = vec![
        "dist/2024-01-01/a".to_string(),
        "dist/2024-02-01/b".to_string(),
        "dist/2024-02-02/c".to_string(),
        "dist/2024-02-03/d".to_string(),
    ];
    let deleted = clean_old_files(
        &stable,
        Some(usize::MAX),
        &beta,
        Some(usize::MAX),
        &nightly,
        Some(usize::MAX),
        &vec![],
        &found,
    );
    assert!(deleted.is_empty());
}

#[test]
fn zero_retention_releases_a_channels_files() {
    let nightly = ledger(&[("2024-02-03", &["dist/2024-02-03/d"])]);
    let empty = ChannelHistoryFile::new();
    let found = vec!["dist/2024-02-03/d".to_string()];
    let deleted = clean_old_files(&empty, None, &empty, None, &nightly, Some(0), &vec![], &found);
    assert_eq!(deleted, found);
}

#[test]
fn pinned_versions_keep_their_latest_date() {
    let pinned = ledger(&[
        ("2023-06-01", &["dist/2023-06-01/pin-old"]),
        ("2023-07-01", &["dist/2023-07-01/pin-new"]),
    ]);
    let empty = ChannelHistoryFile::new();
    let found = vec![
        "dist/2023-06-01/pin-old".to_string(),
        "dist/2023-07-01/pin-new".to_string(),
    ];
    let deleted =
        clean_old_files(&empty, Some(1), &empty, None, &empty, None, &vec![pinned], &found);
    assert_eq!(deleted, vec!["dist/2023-06-01/pin-old".to_string()]);
}

#[test]
fn paths_under_dates_unions_listed_paths() {
    let h = ledger(&[
        ("2024-01-01", &["dist/2024-01-01/a", "dist/2024-01-01/b"]),
        ("2024-02-01", &["dist/2024-02-01/c"]),
    ]);
    let ps = paths_under_dates(&h, &vec!["2024-01-01".to_string(), "2099-01-01".to_string()]);
    assert_eq!(ps, vec!["dist/2024-01-01/a".to_string(), "dist/2024-01-01/b".to_string()]);
}

#[test]
fn files_to_delete_is_found_minus_keep() {
    let keep = vec!["a".to_string(), "b".to_string()];
    let found = vec!["b".to_string(), "c".to_string()];
    assert_eq!(files_to_delete(&keep, &found), vec!["c".to_string()]);
}

#[test]
fn channel_commit_requires_all_downloads() {
    let mut history = ChannelHistoryFile::new();
    let files = vec![
        ("dist/2024-03-01/a".to_string(), "ha".to_string()),
        ("dist/2024-03-01/b".to_string(), "hb".to_string()),
    ];
    let outcomes: Vec<Result<(), DownloadError>> = vec![
        Ok(()),
        Err(DownloadError::MismatchedHash("d1".to_string(), "d2".to_string())),
    ];
    let r = sync_rustup_channel(&mut history, &"2024-03-01".to_string(), &files, &outcomes);
    assert!(matches!(r, Err(SyncError::FailedDownloads { count: 1 })));
    assert!(history.versions.is_empty());

    let all_ok: Vec<Result<(), DownloadError>> = vec![Ok(()), Ok(())];
    sync_rustup_channel(&mut history, &"2024-03-01".to_string(), &files, &all_ok)
        .expect("no failures");
    assert_eq!(history.versions.len(), 1);
    assert_eq!(history.versions[0].0, "2024-03-01");
    assert_eq!(
        history.versions[0].1,
        vec!["dist/2024-03-01/a".to_string(), "dist/2024-03-01/b".to_string()]
    );
}

#[test]
fn failure_counting() {
    let outcomes: Vec<Result<(), DownloadError>> = vec![
        Ok(()),
        Err(DownloadError::NotFound),
        Err(DownloadError::Io("disk full".to_string())),
    ];
    assert_eq!(count_failures(&outcomes), 2);
}

#[test]
fn installer_plan_for_one_platform() {
    let source = "https://static.example.org".to_string();
    let version = "1.27.1".to_string();
    let platform = "x86_64-unknown-linux-gnu".to_string();
    let fetch = sync_one_init(&source, &platform, false, &version);
    assert_eq!(
        fetch.source_url,
        "https://static.example.org/rustup/dist/x86_64-unknown-linux-gnu/rustup-init"
    );
    assert_eq!(
        fetch.local_path,
        "rustup/archive/1.27.1/x86_64-unknown-linux-gnu/rustup-init"
    );
    assert_eq!(fetch.dist_path, "rustup/dist/x86_64-unknown-linux-gnu/rustup-init");

    let exe = sync_one_init(&source, &"x86_64-pc-windows-msvc".to_string(), true, &version);
    assert_eq!(
        exe.source_url,
        "https://static.example.org/rustup/dist/x86_64-pc-windows-msvc/rustup-init.exe"
    );

    let jobs = rustup_init_jobs(&source, &version, &one_platform());
    assert_eq!(jobs.len(), 1);
    assert_eq!(jobs[0].platform, "x86_64-unknown-linux-gnu");
    assert!(!jobs[0].is_exe);
}

#[test]
fn empty_platform_list_is_a_noop_success() {
    let jobs = rustup_init_jobs(
        &"https://static.example.org".to_string(),
        &"1.27.1".to_string(),
        &Platforms { unix: vec![], windows: vec![] },
    );
    assert!(jobs.is_empty());
    assert!(sync_rustup_init(&vec![]).is_ok());
}

#[test]
fn missing_installer_on_one_platform_is_benign() {
    let outcomes: Vec<Result<(), DownloadError>> =
        vec![Ok(()), Err(DownloadError::NotFound), Ok(())];
    assert!(sync_rustup_init(&outcomes).is_ok());
    let hard: Vec<Result<(), DownloadError>> =
        vec![Ok(()), Err(DownloadError::Download("500".to_string()))];
    assert!(matches!(
        sync_rustup_init(&hard),
        Err(SyncError::FailedDownloads { count: 1 })
    ));
}

#[test]
fn index_sync_action() {
    assert!(matches!(sync_crates_repo(false), IndexSyncAction::CloneFresh));
    assert!(matches!(sync_crates_repo(true), IndexSyncAction::FastForward));
}

#[test]
fn config_rewrite_contents() {
    let rewrite = update_crates_config(&Some("https://m/".to_string()))
        .expect("URL is escapable")
        .expect("a base URL is configured");
    assert_eq!(rewrite.contents, "{\n  \"dl\": \"https://m/\",\n  \"api\": \"https://m/\"\n}");
    assert_eq!(rewrite.message, "Rewrite config.json");

    let second = update_crates_config(&Some("https://n/".to_string()))
        .expect("URL is escapable")
        .expect("a base URL is configured");
    assert_eq!(second.contents, "{\n  \"dl\": \"https://n/\",\n  \"api\": \"https://n/\"\n}");

    assert!(update_crates_config(&None).expect("nothing to render").is_none());

    let quoted = update_crates_config(&Some("https://m/\"x\\y".to_string()))
        .expect("quotes and backslashes are escapable")
        .expect("a base URL is configured");
    assert_eq!(
        quoted.contents,
        "{\n  \"dl\": \"https://m/\\\"x\\\\y\",\n  \"api\": \"https://m/\\\"x\\\\y\"\n}"
    );
}

#[test]
fn sync_schedule_skips_zero_retention_channels() {
    let mut cfg = base_config();
    cfg.pinned_rust_versions = Some(vec!["1.9.9".to_string()]);
    let steps = sync(&cfg);
    assert_eq!(steps.len(), 5);
    assert!(matches!(steps[0], SyncStep::SyncInit));
    assert!(matches!(&steps[1], SyncStep::SyncChannel(c) if c == "stable"));
    assert!(matches!(&steps[2], SyncStep::SkipChannel(c) if c == "beta"));
    assert!(matches!(&steps[3], SyncStep::SkipChannel(c) if c == "nightly"));
    assert!(matches!(&steps[4], SyncStep::SyncPinned(v) if v == "1.9.9"));
}

#[test]
fn gc_runs_only_without_failures() {
    assert!(matches!(gc_decision(&None, &None, &None, false), GcDecision::SkipUntracked));
    assert!(matches!(gc_decision(&Some(1), &None, &None, true), GcDecision::SkipFailures));
    assert!(matches!(gc_decision(&Some(1), &Some(0), &None, false), GcDecision::Run));
}

#[test]
fn pinned_not_found_aborts_with_config_error() {
    let e = SyncError::Download(DownloadError::NotFound);
    assert!(matches!(pinned_failure_action(&e), PinnedFailure::AbortConfig));
    let other = SyncError::Download(DownloadError::Download("timeout".to_string()));
    assert!(matches!(pinned_failure_action(&other), PinnedFailure::Continue));
    let io = SyncError::Io("disk".to_string());
    assert!(matches!(pinned_failure_action(&io), PinnedFailure::Continue));
}
