use rust_dnf::locator::{locate_primary, LocateError};
use rust_dnf::pkg::{PackageError, PackageName, Version};
use rust_dnf::pkgset::PackageSet;
use rust_dnf::primary::parse_primary;

#[test]
fn locator_returns_primary_href() {
    let doc = "<repomd>\
        <data type=\"filelists\"><location href=\"repodata/filelists.xml.gz\"></location></data>\
        <data type=\"primary\"><location href=\"repodata/primary.xml.gz\"></location></data>\
        <data type=\"other\"><location href=\"repodata/other.xml.gz\"></location></data>\
        </repomd>";
    let href = locate_primary(doc).unwrap();
    assert_eq!(href, "repodata/primary.xml.gz");
}

#[test]
fn locator_handles_self_closing_location() {
    let doc = "<repomd>\
        <data type=\"primary\"><location href=\"repodata/primary.xml.gz\"/></data>\
        </repomd>";
    let href = locate_primary(doc).unwrap();
    assert_eq!(href, "repodata/primary.xml.gz");
}

#[test]
fn locator_without_primary_entry_fails() {
    let doc = "<repomd>\
        <data type=\"filelists\"><location href=\"repodata/filelists.xml.gz\"></location></data>\
        </repomd>";
    let r = locate_primary(doc);
    assert!(matches!(r, Err(LocateError::PrimaryNotFound)));
}

#[test]
fn locator_on_malformed_tail_fails() {
    let doc = "<repomd><data type=\"primary\"><location ";
    assert!(locate_primary(doc).is_err());
}

#[test]
fn parser_distinct_names_and_placeholder_drop() {
    let doc = "<metadata>\
        <package><name>alpha</name><arch>noarch</arch>\
        <version>1.0-1</version><summary>first</summary>\
        <description>first pkg</description></package>\
        <package><name>beta</name><version>2.0-2</version>\
        <summary>second</summary><description>second pkg</description></package>\
        <package><summary>nameless</summary></package>\
        </metadata>";
    let mut ps = PackageSet::new();
    parse_primary(doc, &mut ps);
    assert_eq!(ps.len(), 2);
    let a = ps.get("alpha").unwrap();
    assert_eq!(a.name.arch, "noarch");
    assert_eq!(a.version.version, "1.0");
    assert_eq!(a.version.release, "1");
    assert_eq!(a.summary, "first");
    assert_eq!(a.description, "first pkg");
    let b = ps.get("beta").unwrap();
    assert_eq!(b.name.arch, "x86_64");
    assert_eq!(b.version.version, "2.0");
    assert!(ps.get("unknown").is_none());
    assert!(ps.get("nameless").is_none());
}

#[test]
fn parser_same_name_last_write_wins() {
    let doc = "<metadata>\
        <package><name>tool</name><version>1.0-1</version><summary>old</summary></package>\
        <package><name>tool</name><version>3.5-2</version><summary>new</summary></package>\
        </metadata>";
    let mut ps = PackageSet::new();
    parse_primary(doc, &mut ps);
    assert_eq!(ps.len(), 1);
    let p = ps.get("tool").unwrap();
    assert_eq!(p.version.version, "3.5");
    assert_eq!(p.version.release, "2");
    assert_eq!(p.summary, "new");
}

#[test]
fn parser_tolerates_unknown_tags_and_text() {
    let doc = "<metadata>stray text\
        <package><name>gamma</name><odd>x</odd><version>9</version></package>\
        </metadata>";
    let mut ps = PackageSet::new();
    parse_primary(doc, &mut ps);
    let p = ps.get("gamma").unwrap();
    assert_eq!(p.version.version, "9");
    assert_eq!(p.version.release, "1");
}

#[test]
fn version_parse_splits_on_first_dash() {
    let v = Version::parse("1.2-3.fc39-extra").unwrap();
    assert_eq!(v.epoch, 0);
    assert_eq!(v.version, "1.2");
    assert_eq!(v.release, "3.fc39-extra");
}

#[test]
fn version_parse_defaults_release() {
    let v = Version::parse("7").unwrap();
    assert_eq!(v.version, "7");
    assert_eq!(v.release, "1");
}

#[test]
fn version_parse_rejects_empty_version() {
    assert!(matches!(Version::parse(""), Err(PackageError::InvalidVersion(_))));
    assert!(matches!(Version::parse("-rel"), Err(PackageError::InvalidVersion(_))));
    assert!(matches!(Version::new(1, "", "x"), Err(PackageError::InvalidVersion(_))));
}

#[test]
fn package_name_from_string_splits_arch() {
    let p = PackageName::from_string("vim.aarch64").unwrap();
    assert_eq!(p.name, "vim");
    assert_eq!(p.arch, "aarch64");
    let q = PackageName::from_string("vim").unwrap();
    assert_eq!(q.name, "vim");
    assert_eq!(q.arch, "x86_64");
}

#[test]
fn package_name_rejects_empty() {
    assert!(matches!(PackageName::new("", "x86_64"), Err(PackageError::InvalidName(_))));
    assert!(matches!(PackageName::from_string(""), Err(PackageError::InvalidName(_))));
    assert!(matches!(PackageName::from_string(".x86_64"), Err(PackageError::InvalidName(_))));
}

#[test]
fn locator_first_primary_entry_wins() {
    let doc = "<repomd>\
        <data type=\"primary\"><location href=\"repodata/first.xml.gz\"/></data>\
        <data type=\"primary\"><location href=\"repodata/second.xml.gz\"/></data>\
        </repomd>";
    assert_eq!(locate_primary(doc).unwrap(), "repodata/first.xml.gz");
}

#[test]
fn locator_ignores_location_outside_primary_entry() {
    let doc = "<repomd>\
        <location href=\"repodata/stray.xml.gz\"/>\
        <data type=\"filelists\"><location href=\"repodata/filelists.xml.gz\"/></data>\
        </repomd>";
    assert!(locate_primary(doc).is_err());
}

#[test]
fn parser_empty_document_adds_nothing() {
    let mut ps = PackageSet::new();
    parse_primary("", &mut ps);
    assert_eq!(ps.len(), 0);
    parse_primary("<metadata></metadata>", &mut ps);
    assert_eq!(ps.len(), 0);
}

#[test]
fn parser_invalid_version_text_keeps_prior_version() {
    let doc = "<metadata><package><name>delta</name>\
        <version>-broken</version></package></metadata>";
    let mut ps = PackageSet::new();
    parse_primary(doc, &mut ps);
    let p = ps.get("delta").unwrap();
    assert_eq!(p.version.version, "0");
    assert_eq!(p.version.release, "0");
}
