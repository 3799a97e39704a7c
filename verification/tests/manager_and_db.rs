use rust_dnf::config::{Config, Repository as RepoConfig};
use rust_dnf::db::{DbError, PackageDatabase};
use rust_dnf::manager::RepositoryManager;
use rust_dnf::pkg::{Package, PackageName, Version};

fn small_config() -> Config {
    let mut c = Config::default();
    c.repositories = vec![
        RepoConfig {
            name: "main".to_string(),
            url: "http://mirror.example/main".to_string(),
            enabled: true,
            gpg_check: false,
            gpg_key: None,
            metadata_sig: false,
        },
        RepoConfig {
            name: "extras".to_string(),
            url: "http://mirror.example/extras".to_string(),
            enabled: false,
            gpg_check: false,
            gpg_key: None,
            metadata_sig: false,
        },
    ];
    c
}

fn sample_package(name: &str, version: &str) -> Package {
    Package::new(
        PackageName::new(name, "x86_64").unwrap(),
        Version::parse(version).unwrap(),
        format!("{} description", name),
    )
}

#[test]
fn config_default_has_three_enabled_repositories() {
    let c = Config::default();
    assert_eq!(c.repositories.len(), 3);
    let names: Vec<&str> = c.repositories.iter().map(|r| r.name.as_str()).collect();
    assert_eq!(names, ["fedora", "updates", "fedora-modular"]);
    assert!(c.repositories.iter().all(|r| r.enabled && r.gpg_check && r.metadata_sig));
    assert_eq!(c.releasever, "39");
    assert_eq!(c.basearch, "x86_64");
    assert_eq!(c.cache_dir, "/var/cache/rust-dnf");
    assert_eq!(c.database_dir, "/var/lib/rust-dnf");
    assert!(c.repositories[0].url.contains("/releases/39/Everything/x86_64/"));
}

#[test]
fn manager_loads_enabled_repositories_only() {
    let mut mgr = RepositoryManager::new(small_config());
    mgr.load_repositories();
    assert_eq!(mgr.repositories.len(), 1);
    assert_eq!(mgr.repositories[0].config.name, "main");
    assert_eq!(mgr.repositories[0].list_packages().len(), 7);
}

#[test]
fn manager_update_rebuilds_from_scratch() {
    let mut mgr = RepositoryManager::new(small_config());
    mgr.load_repositories();
    mgr.update();
    assert_eq!(mgr.repositories.len(), 1);
    assert!(mgr.find_package("git").is_some());
}

#[test]
fn manager_find_absent_name_is_none() {
    let mut mgr = RepositoryManager::new(small_config());
    mgr.load_repositories();
    assert!(mgr.find_package("definitely-not-here").is_none());
}

#[test]
fn manager_search_case_insensitive_and_sorted() {
    let mut mgr = RepositoryManager::new(small_config());
    mgr.load_repositories();
    let lower: Vec<String> =
        mgr.search_packages("vim").iter().map(|p| p.name.name.clone()).collect();
    let upper: Vec<String> =
        mgr.search_packages("VIM").iter().map(|p| p.name.name.clone()).collect();
    assert!(!lower.is_empty());
    assert_eq!(lower, upper);
    let wide: Vec<String> = mgr.search_packages("r").iter().map(|p| p.name.name.clone()).collect();
    let mut sorted = wide.clone();
    sorted.sort();
    assert_eq!(wide, sorted);
    assert!(wide.contains(&"curl".to_string()));
    assert!(wide.contains(&"rust".to_string()));
}

#[test]
fn db_remove_missing_fails_and_leaves_store_unchanged() {
    let mut db = PackageDatabase::new("/tmp/packages.json".to_string());
    db.install_package(sample_package("vim", "8.2-1"), "2024-01-01T00:00:00Z".to_string());
    let before: Vec<String> =
        db.list_installed().iter().map(|e| e.package.name.name.clone()).collect();
    let r = db.remove_package("nano.x86_64");
    assert!(matches!(r, Err(DbError::NotFound(_))));
    let after: Vec<String> =
        db.list_installed().iter().map(|e| e.package.name.name.clone()).collect();
    assert_eq!(before, after);
    assert_eq!(db.list_installed().len(), 1);
}

#[test]
fn db_install_remove_round_trip() {
    let mut db = PackageDatabase::new("/tmp/packages.json".to_string());
    assert!(!db.is_installed("vim.x86_64"));
    db.install_package(sample_package("vim", "8.2-1"), "2024-01-01T00:00:00Z".to_string());
    assert!(db.is_installed("vim.x86_64"));
    let got = db.get_installed("vim.x86_64").unwrap();
    assert_eq!(got.package.version.version, "8.2");
    assert_eq!(got.install_time, "2024-01-01T00:00:00Z");
    assert!(db.remove_package("vim.x86_64").is_ok());
    assert!(!db.is_installed("vim.x86_64"));
    assert_eq!(db.list_installed().len(), 0);
}

#[test]
fn db_install_same_key_overwrites() {
    let mut db = PackageDatabase::new("/tmp/packages.json".to_string());
    db.install_package(sample_package("vim", "8.2-1"), "t1".to_string());
    db.install_package(sample_package("vim", "9.0-2"), "t2".to_string());
    assert_eq!(db.list_installed().len(), 1);
    let got = db.get_installed("vim.x86_64").unwrap();
    assert_eq!(got.package.version.version, "9.0");
    assert_eq!(got.install_time, "t2");
}
