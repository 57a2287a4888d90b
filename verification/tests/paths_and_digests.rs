use rustup_mirror::digest::sha256_hex;
use rustup_mirror::fetch::download;
use rustup_mirror::fetch::download_attempt_done;
use rustup_mirror::fetch::download_with_sha256_file;
use rustup_mirror::fetch::sidecar_digest;
use rustup_mirror::fetch::AttemptOutcome;
use rustup_mirror::fetch::DownloadStep;
use rustup_mirror::errors::DownloadError;
use rustup_mirror::paths::append_to_path;
use rustup_mirror::paths::channel_history_path;
use rustup_mirror::paths::channel_path;
use rustup_mirror::paths::channel_url;
use rustup_mirror::paths::move_if_exists_with_sha256;
use rustup_mirror::paths::part_path;
use rustup_mirror::paths::release_path;
use rustup_mirror::paths::release_url;
use rustup_mirror::paths::sha256_path;
use rustup_mirror::paths::url_rel_path;
use rustup_mirror::strutil::join_slash_exec;
use rustup_mirror::strutil::split_slash_exec;

const ABC_SHA256: &str = "ba7816bf8f01cfea414140de5dae2223b00361a396177a9cb410ff61f20015ad";
const EMPTY_SHA256: &str = "e3b0c44298fc1c149afbf4c8996fb92427ae41e4649b934ca495991b7852b855";

#[test]
fn append_to_path_concatenates() {
    let p = "dist/channel-rust-stable.toml".to_string();
    assert_eq!(append_to_path(&p, ".part"), "dist/channel-rust-stable.toml.part");
    assert_eq!(part_path(&p), "dist/channel-rust-stable.toml.part");
    assert_eq!(sha256_path(&p), "dist/channel-rust-stable.toml.sha256");
}

#[test]
fn layout_paths() {
    let source = "https://static.example.org".to_string();
    let stable = "stable".to_string();
    assert_eq!(
        channel_url(&source, &stable),
        "https://static.example.org/dist/channel-rust-stable.toml"
    );
    assert_eq!(channel_path(&stable), "dist/channel-rust-stable.toml");
    assert_eq!(channel_history_path(&stable), "mirror-stable-history.toml");
    assert_eq!(release_url(&source), "https://static.example.org/rustup/release-stable.toml");
    assert_eq!(release_path(), "rustup/release-stable.toml");
}

#[test]
fn move_with_sidecar_moves_the_file_before_its_sidecar() {
    let from = "a.toml.part".to_string();
    let to = "a.toml".to_string();
    let moves = move_if_exists_with_sha256(&from, &to);
    assert_eq!(moves.len(), 2);
    assert_eq!(moves[0], ("a.toml.part".to_string(), "a.toml".to_string()));
    assert_eq!(moves[1], ("a.toml.part.sha256".to_string(), "a.toml.sha256".to_string()));
}

#[test]
fn split_and_join() {
    let s = "https://host/dist/2024-01-01/a.tar.gz".to_string();
    let parts = split_slash_exec(&s);
    assert_eq!(parts, vec!["https:", "", "host", "dist", "2024-01-01", "a.tar.gz"]);
    assert_eq!(join_slash_exec(&parts), s);
}

#[test]
fn url_rel_path_drops_three_segments() {
    let url = "https://static.example.org/dist/2024-01-01/rust-std.tar.xz".to_string();
    assert_eq!(url_rel_path(&url), Some("dist/2024-01-01/rust-std.tar.xz".to_string()));
    let short = "a/b".to_string();
    assert_eq!(url_rel_path(&short), None);
    let bare = "a/b/c".to_string();
    assert_eq!(url_rel_path(&bare), Some(String::new()));
}

#[test]
fn split_of_empty_string_is_one_empty_segment() {
    let parts = split_slash_exec(&String::new());
    assert_eq!(parts, vec![""]);
    assert_eq!(join_slash_exec(&parts), "");
}

#[test]
fn sha256_hex_known_digests() {
    assert_eq!(sha256_hex(b"abc"), ABC_SHA256);
    assert_eq!(sha256_hex(b""), EMPTY_SHA256);
}

#[test]
fn download_skips_present_files() {
    assert!(matches!(download(true, false, 5), DownloadStep::Skip));
    assert!(matches!(download(false, false, 5), DownloadStep::Attempt { remaining: 5 }));
    assert!(matches!(download(true, true, 2), DownloadStep::Attempt { remaining: 2 }));
}

#[test]
fn attempt_commits_on_matching_digest() {
    let expected = Some(ABC_SHA256.to_string());
    let step = download_attempt_done(3, AttemptOutcome::Success(b"abc".to_vec()), &expected);
    assert!(matches!(step, DownloadStep::Commit));
    let step = download_attempt_done(0, AttemptOutcome::Success(b"abc".to_vec()), &None);
    assert!(matches!(step, DownloadStep::Commit));
}

#[test]
fn attempt_retries_on_mismatch() {
    let expected = Some(ABC_SHA256.to_string());
    let step = download_attempt_done(3, AttemptOutcome::Success(b"xyz".to_vec()), &expected);
    assert!(matches!(step, DownloadStep::Attempt { remaining: 2 }));
}

#[test]
fn attempt_fails_with_mismatch_when_exhausted() {
    let expected = Some(ABC_SHA256.to_string());
    let step = download_attempt_done(0, AttemptOutcome::Success(b"xyz".to_vec()), &expected);
    match step {
        DownloadStep::Fail(DownloadError::MismatchedHash(exp, act)) => {
            assert_eq!(exp, ABC_SHA256);
            assert_eq!(act, sha256_hex(b"xyz"));
        }
        _ => panic!("expected a hash-mismatch failure"),
    }
}

#[test]
fn not_found_is_never_retried() {
    let step = download_attempt_done(7, AttemptOutcome::NotFound, &None);
    assert!(matches!(step, DownloadStep::Fail(DownloadError::NotFound)));
}

#[test]
fn transient_error_retries_then_fails() {
    let step = download_attempt_done(1, AttemptOutcome::TransportError("reset".to_string()), &None);
    assert!(matches!(step, DownloadStep::Attempt { remaining: 0 }));
    let step = download_attempt_done(0, AttemptOutcome::TransportError("reset".to_string()), &None);
    assert!(matches!(step, DownloadStep::Fail(DownloadError::Download(_))));
}

#[test]
fn sidecar_digest_takes_first_64_chars() {
    let text = format!("{}  rust-std.tar.xz\n", ABC_SHA256);
    assert_eq!(sidecar_digest(&text), Some(ABC_SHA256.to_string()));
    assert_eq!(sidecar_digest(&"too short".to_string()), None);
}

#[test]
fn sidecar_download_plan() {
    let text = format!("{}  rust-std.tar.xz\n", ABC_SHA256);
    let plan = download_with_sha256_file(&text, false, true, 4).expect("sidecar is long enough");
    assert_eq!(plan.digest, ABC_SHA256);
    assert!(matches!(plan.first, DownloadStep::Attempt { remaining: 4 }));
    assert!(download_with_sha256_file(&"x".to_string(), false, true, 4).is_none());
}
