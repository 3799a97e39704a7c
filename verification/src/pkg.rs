use vstd::prelude::*;
use crate::strs::spec_find;
use crate::strs::find_char;

verus! {

use vstd::string::StrSliceExecFns;

/// A rejected package identity or version.
#[derive(Debug)]
pub enum PackageError {
    InvalidName(String),
    InvalidVersion(String),
}

/// Bare package identity: a name plus a target architecture.
#[derive(Clone)]
pub struct PackageName {
    pub name: String,
    pub arch: String,
}

pub struct NameV {
    pub name: Seq<char>,
    pub arch: Seq<char>,
}

impl View for PackageName {
    type V = NameV;

    open spec fn view(&self) -> NameV {
        NameV { name: self.name@, arch: self.arch@ }
    }
}

impl PackageName {
    /// A name is valid when it is non-empty; the architecture is free text.
    pub fn new(name: &str, arch: &str) -> (r: Result<Self, PackageError>)
        ensures
            match r {
                Ok(p) => name@.len() > 0 && p@ == (NameV { name: name@, arch: arch@ }),
                Err(e) => name@.len() == 0 && e is InvalidName,
            },
    {
        if name.is_empty() {
            Err(PackageError::InvalidName(name.to_owned()))
        } else {
            Ok(PackageName { name: name.to_owned(), arch: arch.to_owned() })
        }
    }

    /// Splits a bare identifier at its first `.` into name and architecture;
    /// without a dot the architecture defaults to `x86_64`.
    pub fn from_string(s: &str) -> (r: Result<Self, PackageError>)
        ensures
            match r {
                Ok(p) => spec_name_from_string(s@) == Some(p@),
                Err(e) => spec_name_from_string(s@) is None && e is InvalidName,
            },
    {
        match find_char(s, 0, '.') {
            Some(j) => {
                proof {
                    crate::strs::lemma_find(s@, 0, '.');
                }
                let n = s.unicode_len();
                let name = s.substring_char(0, j);
                let arch = s.substring_char(j + 1, n);
                Self::new(name, arch)
            },
            None => Self::new(s, "x86_64"),
        }
    }
}

/// The identity split of a bare identifier, when the name part is non-empty.
pub open spec fn spec_name_from_string(s: Seq<char>) -> Option<NameV> {
    match spec_find(s, 0, '.') {
        Some(j) => if j == 0 {
            None
        } else {
            Some(NameV { name: s.subrange(0, j), arch: s.subrange(j + 1, s.len() as int) })
        },
        None => if s.len() == 0 {
            None
        } else {
            Some(NameV { name: s, arch: "x86_64"@ })
        },
    }
}

/// Package version: epoch, upstream version and release, ordered
/// lexicographically in that field order.
#[derive(Clone)]
pub struct Version {
    pub epoch: u32,
    pub version: String,
    pub release: String,
}

pub struct VersionV {
    pub epoch: int,
    pub version: Seq<char>,
    pub release: Seq<char>,
}

impl View for Version {
    type V = VersionV;

    open spec fn view(&self) -> VersionV {
        VersionV { epoch: self.epoch as int, version: self.version@, release: self.release@ }
    }
}

/// The crude split of free version text at its first `-`: epoch is never
/// read from text, and a missing release defaults to `1`. The version part
/// must be non-empty.
pub open spec fn spec_version_parse(s: Seq<char>) -> Option<VersionV> {
    match spec_find(s, 0, '-') {
        Some(j) => if j == 0 {
            None
        } else {
            Some(
                VersionV {
                    epoch: 0,
                    version: s.subrange(0, j),
                    release: s.subrange(j + 1, s.len() as int),
                },
            )
        },
        None => if s.len() == 0 {
            None
        } else {
            Some(VersionV { epoch: 0, version: s, release: "1"@ })
        },
    }
}

impl Version {
    /// A version is valid when its version text is non-empty.
    pub fn new(epoch: u32, version: &str, release: &str) -> (r: Result<Self, PackageError>)
        ensures
            match r {
                Ok(v) => version@.len() > 0 && v@ == (VersionV {
                    epoch: epoch as int,
                    version: version@,
                    release: release@,
                }),
                Err(e) => version@.len() == 0 && e is InvalidVersion,
            },
    {
        if version.is_empty() {
            Err(PackageError::InvalidVersion(version.to_owned()))
        } else {
            Ok(Version { epoch, version: version.to_owned(), release: release.to_owned() })
        }
    }

    /// Parses free version text by the split rule of `spec_version_parse`.
    pub fn parse(s: &str) -> (r: Result<Self, PackageError>)
        ensures
            match r {
                Ok(v) => spec_version_parse(s@) == Some(v@),
                Err(e) => spec_version_parse(s@) is None && e is InvalidVersion,
            },
    {
        match find_char(s, 0, '-') {
            Some(j) => {
                proof {
                    crate::strs::lemma_find(s@, 0, '-');
                }
                let n = s.unicode_len();
                let version = s.substring_char(0, j);
                let release = s.substring_char(j + 1, n);
                Self::new(0, version, release)
            },
            None => Self::new(0, s, "1"),
        }
    }
}

/// A dependency edge: carried through parsing, never evaluated here.
#[derive(Clone)]
pub struct Dependency {
    pub name: String,
    pub version: Option<String>,
    pub comparator: Option<String>,
}

pub struct DependencyV {
    pub name: Seq<char>,
    pub version: Option<Seq<char>>,
    pub comparator: Option<Seq<char>>,
}

impl DeepView for Dependency {
    type V = DependencyV;

    open spec fn deep_view(&self) -> DependencyV {
        self.view()
    }
}

impl View for Dependency {
    type V = DependencyV;

    open spec fn view(&self) -> DependencyV {
        DependencyV {
            name: self.name@,
            version: match self.version {
                Some(ref v) => Some(v@),
                None => None,
            },
            comparator: match self.comparator {
                Some(ref c) => Some(c@),
                None => None,
            },
        }
    }
}

/// One package record of a repository's primary listing.
#[derive(Clone)]
pub struct Package {
    pub name: PackageName,
    pub version: Version,
    pub description: String,
    pub summary: String,
    pub dependencies: Vec<Dependency>,
    pub conflicts: Vec<String>,
    pub provides: Vec<String>,
    pub files: Vec<String>,
    pub size: u64,
    pub license: String,
    pub url: String,
}

pub struct PackageV {
    pub name: NameV,
    pub version: VersionV,
    pub description: Seq<char>,
    pub summary: Seq<char>,
    pub dependencies: Seq<DependencyV>,
    pub conflicts: Seq<Seq<char>>,
    pub provides: Seq<Seq<char>>,
    pub files: Seq<Seq<char>>,
    pub size: int,
    pub license: Seq<char>,
    pub url: Seq<char>,
}

impl View for Package {
    type V = PackageV;

    open spec fn view(&self) -> PackageV {
        PackageV {
            name: self.name@,
            version: self.version@,
            description: self.description@,
            summary: self.summary@,
            dependencies: self.dependencies.deep_view(),
            conflicts: self.conflicts.deep_view(),
            provides: self.provides.deep_view(),
            files: self.files.deep_view(),
            size: self.size as int,
            license: self.license@,
            url: self.url@,
        }
    }
}

/// The view of a freshly created package: given identity, version and
/// description, everything else empty or zero.
pub open spec fn fresh_pkg(name: NameV, version: VersionV, description: Seq<char>) -> PackageV {
    PackageV {
        name,
        version,
        description,
        summary: Seq::empty(),
        dependencies: Seq::empty(),
        conflicts: Seq::empty(),
        provides: Seq::empty(),
        files: Seq::empty(),
        size: 0,
        license: Seq::empty(),
        url: Seq::empty(),
    }
}

impl Package {
    /// A record created once per package element; all list fields start empty.
    pub fn new(name: PackageName, version: Version, description: String) -> (r: Self)
        ensures
            r@ == fresh_pkg(name@, version@, description@),
    {
        let r = Package {
            name,
            version,
            description,
            summary: String::new(),
            dependencies: Vec::new(),
            conflicts: Vec::new(),
            provides: Vec::new(),
            files: Vec::new(),
            size: 0,
            license: String::new(),
            url: String::new(),
        };
        proof {
            assert(r@.dependencies =~= Seq::<DependencyV>::empty());
            assert(r@.conflicts =~= Seq::<Seq<char>>::empty());
            assert(r@.provides =~= Seq::<Seq<char>>::empty());
            assert(r@.files =~= Seq::<Seq<char>>::empty());
        }
        r
    }
}

} // verus!
