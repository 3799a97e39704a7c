use vstd::prelude::*;

verus! {

/// One repository's configuration entry. The gpg fields are carried but
/// never checked by this client.
pub struct Repository {
    pub name: String,
    pub url: String,
    pub enabled: bool,
    pub gpg_check: bool,
    pub gpg_key: Option<String>,
    pub metadata_sig: bool,
}

impl Repository {
    /// A field-for-field copy.
    pub fn duplicate(&self) -> (r: Self)
        ensures
            r == *self,
    {
        Repository {
            name: self.name.clone(),
            url: self.url.clone(),
            enabled: self.enabled,
            gpg_check: self.gpg_check,
            gpg_key: match &self.gpg_key {
                Some(k) => Some(k.clone()),
                None => None,
            },
            metadata_sig: self.metadata_sig,
        }
    }
}

/// Global client configuration: the repository entries plus directory and
/// release settings.
pub struct Config {
    pub repositories: Vec<Repository>,
    pub cache_dir: String,
    pub install_root: String,
    pub database_dir: String,
    pub releasever: String,
    pub basearch: String,
}

impl Default for Config {
    /// The built-in default: three enabled Fedora 39 repositories, produced
    /// as a plain value with no process-wide state.
    fn default() -> (c: Self)
        ensures
            c.repositories@.len() == 3,
            c.repositories@[0].name@ == "fedora"@,
            c.repositories@[0].url@
                == "https://download.fedoraproject.org/pub/fedora/linux/releases/39/Everything/x86_64/os/"@,
            c.repositories@[1].name@ == "updates"@,
            c.repositories@[1].url@
                == "https://download.fedoraproject.org/pub/fedora/linux/updates/39/Everything/x86_64/"@,
            c.repositories@[2].name@ == "fedora-modular"@,
            c.repositories@[2].url@
                == "https://download.fedoraproject.org/pub/fedora/linux/releases/39/Modular/x86_64/os/"@,
            forall|i: int|
                0 <= i < 3 ==> (#[trigger] c.repositories@[i]).enabled
                    && c.repositories@[i].gpg_check && c.repositories@[i].metadata_sig && (
                c.repositories@[i].gpg_key matches Some(k) && k@
                    == "/etc/pki/rpm-gpg/RPM-GPG-KEY-fedora-39-x86_64"@),
            c.cache_dir@ == "/var/cache/rust-dnf"@,
            c.install_root@ == "/"@,
            c.database_dir@ == "/var/lib/rust-dnf"@,
            c.releasever@ == "39"@,
            c.basearch@ == "x86_64"@,
    {
        let mut repos: Vec<Repository> = Vec::new();
        repos.push(
            Repository {
                name: "fedora".to_owned(),
                url:
                "https://download.fedoraproject.org/pub/fedora/linux/releases/39/Everything/x86_64/os/".to_owned(),
                enabled: true,
                gpg_check: true,
                gpg_key: Some("/etc/pki/rpm-gpg/RPM-GPG-KEY-fedora-39-x86_64".to_owned()),
                metadata_sig: true,
            },
        );
        repos.push(
            Repository {
                name: "updates".to_owned(),
                url:
                "https://download.fedoraproject.org/pub/fedora/linux/updates/39/Everything/x86_64/".to_owned(),
                enabled: true,
                gpg_check: true,
                gpg_key: Some("/etc/pki/rpm-gpg/RPM-GPG-KEY-fedora-39-x86_64".to_owned()),
                metadata_sig: true,
            },
        );
        repos.push(
            Repository {
                name: "fedora-modular".to_owned(),
                url:
                "https://download.fedoraproject.org/pub/fedora/linux/releases/39/Modular/x86_64/os/".to_owned(),
                enabled: true,
                gpg_check: true,
                gpg_key: Some("/etc/pki/rpm-gpg/RPM-GPG-KEY-fedora-39-x86_64".to_owned()),
                metadata_sig: true,
            },
        );
        Config {
            repositories: repos,
            cache_dir: "/var/cache/rust-dnf".to_owned(),
            install_root: "/".to_owned(),
            database_dir: "/var/lib/rust-dnf".to_owned(),
            releasever: "39".to_owned(),
            basearch: "x86_64".to_owned(),
        }
    }
}

} // verus!
