use rust_dnf::config::Repository as RepoConfig;
use rust_dnf::repo::{FetchOutcome, FetchPhase, Repository};
use std::io::Write;

fn test_config(name: &str) -> RepoConfig {
    RepoConfig {
        name: name.to_string(),
        url: "http://mirror.example/os".to_string(),
        enabled: true,
        gpg_check: false,
        gpg_key: None,
        metadata_sig: false,
    }
}

fn gzip(data: &[u8]) -> Vec<u8> {
    let mut enc = flate2::write::GzEncoder::new(Vec::new(), flate2::Compression::default());
    enc.write_all(data).unwrap();
    enc.finish().unwrap()
}

const MOCK_NAMES: [&str; 7] = ["nano", "vim", "curl", "rust", "firefox", "git", "python3"];

#[test]
fn cascade_all_failures_yields_mock_catalog() {
    let mut repo = Repository::new(test_config("fedora"));
    let p0 = repo.start_load();
    assert_eq!(p0.request_path().unwrap(), "repodata/repomd.xml");
    let p1 = repo.cascade_step(p0, FetchOutcome::Failed);
    assert_eq!(p1.request_path().unwrap(), "repodata/primary.xml.gz");
    let p2 = repo.cascade_step(p1, FetchOutcome::Failed);
    assert_eq!(p2.request_path().unwrap(), "repodata/primary.sqlite.gz");
    let p3 = repo.cascade_step(p2, FetchOutcome::Failed);
    assert!(matches!(p3, FetchPhase::FellBack));
    assert!(p3.request_path().is_none());
    let listed = repo.list_packages();
    assert_eq!(listed.len(), 7);
    for name in MOCK_NAMES {
        assert!(repo.find_package(name).is_some());
    }
    let vim = repo.find_package("vim").unwrap();
    assert_eq!(vim.version.version, "8.2");
    assert_eq!(vim.version.release, "1.fc39");
    assert_eq!(vim.description, "Vi Improved - enhanced vi editor");
}

#[test]
fn cascade_direct_primary_parses_gzip_payload() {
    let doc = "<metadata><package><name>htop</name><version>3.2-1</version>\
        <summary>interactive process viewer</summary></package></metadata>";
    let payload = gzip(doc.as_bytes());
    let mut repo = Repository::new(test_config("fedora"));
    let p1 = repo.cascade_step(FetchPhase::NeedIndex, FetchOutcome::Failed);
    let p2 = repo.cascade_step(p1, FetchOutcome::Fetched(payload));
    assert!(matches!(p2, FetchPhase::Loaded));
    let htop = repo.find_package("htop").unwrap();
    assert_eq!(htop.version.version, "3.2");
    assert_eq!(htop.summary, "interactive process viewer");
    assert!(repo.find_package("nano").is_none());
}

#[test]
fn cascade_index_resolves_located_primary() {
    let index = "<repomd><data type=\"primary\">\
        <location href=\"repodata/abc-primary.xml.gz\"/></data></repomd>";
    let mut repo = Repository::new(test_config("fedora"));
    let p1 = repo.cascade_step(
        FetchPhase::NeedIndex,
        FetchOutcome::Fetched(index.as_bytes().to_vec()),
    );
    assert_eq!(p1.request_path().unwrap(), "repodata/abc-primary.xml.gz");
    let doc = "<metadata><package><name>zsh</name><version>5.9-5</version></package></metadata>";
    let p2 = repo.cascade_step(p1, FetchOutcome::Fetched(gzip(doc.as_bytes())));
    assert!(matches!(p2, FetchPhase::Loaded));
    assert!(repo.find_package("zsh").is_some());
}

#[test]
fn cascade_corrupt_gzip_advances_then_falls_back() {
    let mut repo = Repository::new(test_config("fedora"));
    let p1 = repo.cascade_step(FetchPhase::NeedIndex, FetchOutcome::Failed);
    let garbage = vec![0u8, 1, 2, 3, 4, 5];
    let p2 = repo.cascade_step(p1, FetchOutcome::Fetched(garbage));
    assert!(matches!(p2, FetchPhase::NeedDatabase));
    let p3 = repo.cascade_step(p2, FetchOutcome::Fetched(vec![9u8; 16]));
    assert!(matches!(p3, FetchPhase::FellBack));
    assert_eq!(repo.list_packages().len(), 7);
}

#[test]
fn load_offline_equals_fallback_catalog() {
    let mut repo = Repository::new(test_config("updates"));
    repo.load_offline();
    let mut names: Vec<String> =
        repo.list_packages().iter().map(|p| p.name.name.clone()).collect();
    names.sort();
    let mut expected: Vec<String> = MOCK_NAMES.iter().map(|s| s.to_string()).collect();
    expected.sort();
    assert_eq!(names, expected);
}

#[test]
fn repo_search_is_case_insensitive() {
    let mut repo = Repository::new(test_config("fedora"));
    repo.load_mock_data();
    let lower = repo.search("vim");
    let upper = repo.search("VIM");
    assert_eq!(lower.len(), 1);
    assert_eq!(upper.len(), 1);
    assert_eq!(lower[0].name.name, upper[0].name.name);
    let by_desc = repo.search("text editor");
    assert_eq!(by_desc.len(), 1);
    assert_eq!(by_desc[0].name.name, "nano");
}

#[test]
fn repo_find_absent_is_none() {
    let mut repo = Repository::new(test_config("fedora"));
    repo.load_mock_data();
    assert!(repo.find_package("no-such-package").is_none());
}
