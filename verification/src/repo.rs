use vstd::prelude::*;
use crate::config::Repository as RepoConfig;
use crate::locator::{locate_primary, spec_locate};
use crate::pkg::{Package, PackageName, PackageV, NameV, Version, VersionV};
use crate::pkgset::PackageSet;
use crate::primary::{parse_primary, spec_parse};
use crate::strs::{contains_ci, contains_ci_exec};
use crate::xml::spec_toks;

verus! {


/// What gunzip decompression yields on a byte string when it is a
/// well-formed gzip stream — a function of the bytes alone.
pub uninterp spec fn gunzip_of(b: Seq<u8>) -> Option<Seq<u8>>;

/// Relies on flate2's read::GzDecoder together with Read::read_to_end:
/// decompressing a byte string depends on the bytes alone, and a corrupt
/// or truncated stream fails.
#[verifier::external_body]
fn gunzip(b: &Vec<u8>) -> (r: Option<Vec<u8>>)
    ensures
        match r {
            Some(v) => gunzip_of(b@) == Some(v@),
            None => gunzip_of(b@) is None,
        },
{
    let mut d = flate2::read::GzDecoder::new(b.as_slice());
    let mut out = Vec::new();
    match std::io::Read::read_to_end(&mut d, &mut out) {
        Ok(_) => Some(out),
        Err(_) => None,
    }
}

/// What lossy UTF-8 decoding yields on a byte string — a function of the
/// bytes alone.
pub uninterp spec fn utf8_of(b: Seq<u8>) -> Seq<char>;

/// Relies on String::from_utf8_lossy: decoding depends on the bytes alone.
#[verifier::external_body]
fn utf8_lossy(b: &Vec<u8>) -> (r: String)
    ensures
        r@ == utf8_of(b@),
{
    String::from_utf8_lossy(b.as_slice()).into_owned()
}

/// The result of one fetch the caller performed for the cascade.
pub enum FetchOutcome {
    Fetched(Vec<u8>),
    Failed,
}

pub enum OutcomeV {
    Fetched(Seq<u8>),
    Failed,
}

impl View for FetchOutcome {
    type V = OutcomeV;

    open spec fn view(&self) -> OutcomeV {
        match self {
            FetchOutcome::Fetched(b) => OutcomeV::Fetched(b@),
            FetchOutcome::Failed => OutcomeV::Failed,
        }
    }
}

/// Where the metadata cascade stands: which candidate to fetch next, or a
/// terminal state — loaded from live metadata, or fallen back to the
/// built-in catalog.
#[derive(Debug)]
pub enum FetchPhase {
    NeedIndex,
    NeedLocated(String),
    NeedPrimary,
    NeedDatabase,
    Loaded,
    FellBack,
}

pub enum PhaseV {
    NeedIndex,
    NeedLocated(Seq<char>),
    NeedPrimary,
    NeedDatabase,
    Loaded,
    FellBack,
}

impl View for FetchPhase {
    type V = PhaseV;

    open spec fn view(&self) -> PhaseV {
        match self {
            FetchPhase::NeedIndex => PhaseV::NeedIndex,
            FetchPhase::NeedLocated(h) => PhaseV::NeedLocated(h@),
            FetchPhase::NeedPrimary => PhaseV::NeedPrimary,
            FetchPhase::NeedDatabase => PhaseV::NeedDatabase,
            FetchPhase::Loaded => PhaseV::Loaded,
            FetchPhase::FellBack => PhaseV::FellBack,
        }
    }
}

impl FetchPhase {
    /// The relative path the cascade wants fetched next, against the
    /// repository's base URL; nothing once the cascade has finished.
    pub fn request_path(&self) -> (r: Option<String>)
        ensures
            match self@ {
                PhaseV::NeedIndex => r matches Some(p) && p@ == "repodata/repomd.xml"@,
                PhaseV::NeedLocated(h) => r matches Some(p) && p@ == h,
                PhaseV::NeedPrimary => r matches Some(p) && p@ == "repodata/primary.xml.gz"@,
                PhaseV::NeedDatabase => r matches Some(p) && p@ == "repodata/primary.sqlite.gz"@,
                PhaseV::Loaded => r is None,
                PhaseV::FellBack => r is None,
            },
    {
        match self {
            FetchPhase::NeedIndex => Some("repodata/repomd.xml".to_owned()),
            FetchPhase::NeedLocated(h) => Some(h.clone()),
            FetchPhase::NeedPrimary => Some("repodata/primary.xml.gz".to_owned()),
            FetchPhase::NeedDatabase => Some("repodata/primary.sqlite.gz".to_owned()),
            FetchPhase::Loaded => None,
            FetchPhase::FellBack => None,
        }
    }
}

/// The phase that follows a fetched index document: locate the primary
/// listing's href, or fall through to the direct candidate.
pub open spec fn spec_index_next(b: Seq<u8>) -> PhaseV {
    match spec_locate(spec_toks(utf8_of(b), 0)) {
        Some(h) => PhaseV::NeedLocated(h),
        None => PhaseV::NeedPrimary,
    }
}

/// The packages a fetched compressed primary listing adds to `out`, if the
/// payload decompresses at all.
pub open spec fn spec_primary_result(b: Seq<u8>, out: Map<Seq<char>, PackageV>) -> Option<
    Map<Seq<char>, PackageV>,
> {
    match gunzip_of(b) {
        Some(v) => Some(spec_parse(spec_toks(utf8_of(v), 0), out)),
        None => None,
    }
}

/// The record a built-in catalog entry denotes.
pub open spec fn mock_pkg(
    name: Seq<char>,
    version: Seq<char>,
    release: Seq<char>,
    description: Seq<char>,
) -> PackageV {
    crate::pkg::fresh_pkg(
        NameV { name, arch: "x86_64"@ },
        VersionV { epoch: 0, version, release },
        description,
    )
}

/// The fixed seven-package fallback catalog.
pub open spec fn mock_map() -> Map<Seq<char>, PackageV> {
    Map::empty().insert(
        "nano"@,
        mock_pkg("nano"@, "2.9.8"@, "1.fc39"@, "A small text editor for consoles"@),
    ).insert(
        "vim"@,
        mock_pkg("vim"@, "8.2"@, "1.fc39"@, "Vi Improved - enhanced vi editor"@),
    ).insert(
        "curl"@,
        mock_pkg("curl"@, "7.61.1"@, "1.fc39"@, "Tool for transferring data with URL syntax"@),
    ).insert(
        "rust"@,
        mock_pkg("rust"@, "1.70.0"@, "1.fc39"@, "The Rust programming language"@),
    ).insert(
        "firefox"@,
        mock_pkg("firefox"@, "115.0"@, "1.fc39"@, "Mozilla Firefox Web browser"@),
    ).insert(
        "git"@,
        mock_pkg("git"@, "2.43.0"@, "1.fc39"@, "Fast Version Control System"@),
    ).insert(
        "python3"@,
        mock_pkg("python3"@, "3.11.5"@, "1.fc39"@, "Python programming language"@),
    )
}

fn push_mock(ps: &mut PackageSet, name: &str, version: &str, release: &str, description: &str)
    requires
        old(ps).wf(),
        name@.len() > 0,
    ensures
        final(ps).wf(),
        final(ps)@ == old(ps)@.insert(name@, mock_pkg(name@, version@, release@, description@)),
{
    let p = Package::new(
        PackageName { name: name.to_owned(), arch: "x86_64".to_owned() },
        Version { epoch: 0, version: version.to_owned(), release: release.to_owned() },
        description.to_owned(),
    );
    ps.upsert(p);
}

/// Does the record match the query? Case-insensitive containment in the
/// bare name, the description or the summary.
pub open spec fn spec_matches(p: PackageV, q: Seq<char>) -> bool {
    contains_ci(p.name.name, q) || contains_ci(p.description, q) || contains_ci(p.summary, q)
}

/// The subsequence of records matching the query, in order.
pub open spec fn filter_matches(s: Seq<PackageV>, q: Seq<char>) -> Seq<PackageV>
    decreases s.len(),
{
    if s.len() == 0 {
        Seq::empty()
    } else {
        filter_matches(s.drop_last(), q) + (if spec_matches(s.last(), q) {
            seq![s.last()]
        } else {
            Seq::empty()
        })
    }
}

/// One configured repository together with the package set its metadata
/// cascade produced.
pub struct Repository {
    pub config: RepoConfig,
    pub packages: PackageSet,
}

impl Repository {
    pub open spec fn wf(&self) -> bool {
        self.packages.wf()
    }

    pub fn new(config: RepoConfig) -> (r: Self)
        ensures
            r.wf(),
            r.config == config,
            r.packages@ == Map::<Seq<char>, PackageV>::empty(),
    {
        Repository { config, packages: PackageSet::new() }
    }

    /// The first phase of the metadata cascade: fetch the index document.
    pub fn start_load(&self) -> (r: FetchPhase)
        ensures
            r@ is NeedIndex,
    {
        FetchPhase::NeedIndex
    }

    /// One decision of the metadata cascade, given the phase it was in and
    /// the outcome of the fetch it asked for. Candidates advance in the
    /// fixed order index, direct primary, primary database; the database
    /// candidate is an unsupported format and only exhausts the cascade,
    /// which then fills the repository from the built-in catalog.
    pub fn cascade_step(&mut self, phase: FetchPhase, outcome: FetchOutcome) -> (r: FetchPhase)
        requires
            old(self).wf(),
        ensures
            final(self).wf(),
            final(self).config == old(self).config,
            match (phase@, outcome@) {
                (PhaseV::NeedIndex, OutcomeV::Failed) => r@ is NeedPrimary
                    && final(self).packages@ == old(self).packages@,
                (PhaseV::NeedIndex, OutcomeV::Fetched(b)) => r@ == spec_index_next(b)
                    && final(self).packages@ == old(self).packages@,
                (PhaseV::NeedLocated(_), OutcomeV::Failed) => r@ is NeedPrimary
                    && final(self).packages@ == old(self).packages@,
                (PhaseV::NeedLocated(_), OutcomeV::Fetched(b)) => match spec_primary_result(
                    b,
                    old(self).packages@,
                ) {
                    Some(m) => r@ is Loaded && final(self).packages@ == m,
                    None => r@ is NeedPrimary && final(self).packages@ == old(self).packages@,
                },
                (PhaseV::NeedPrimary, OutcomeV::Failed) => r@ is NeedDatabase
                    && final(self).packages@ == old(self).packages@,
                (PhaseV::NeedPrimary, OutcomeV::Fetched(b)) => match spec_primary_result(
                    b,
                    old(self).packages@,
                ) {
                    Some(m) => r@ is Loaded && final(self).packages@ == m,
                    None => r@ is NeedDatabase && final(self).packages@ == old(self).packages@,
                },
                (PhaseV::NeedDatabase, _) => r@ is FellBack && final(self).packages@ == mock_map(),
                (PhaseV::Loaded, _) => r@ is Loaded
                    && final(self).packages@ == old(self).packages@,
                (PhaseV::FellBack, _) => r@ is FellBack
                    && final(self).packages@ == old(self).packages@,
            },
    {
        match phase {
            FetchPhase::NeedIndex => match outcome {
                FetchOutcome::Failed => FetchPhase::NeedPrimary,
                FetchOutcome::Fetched(b) => {
                    let text = utf8_lossy(&b);
                    match locate_primary(text.as_str()) {
                        Ok(href) => FetchPhase::NeedLocated(href),
                        Err(_) => FetchPhase::NeedPrimary,
                    }
                },
            },
            FetchPhase::NeedLocated(_) => match outcome {
                FetchOutcome::Failed => FetchPhase::NeedPrimary,
                FetchOutcome::Fetched(b) => match gunzip(&b) {
                    Some(v) => {
                        let text = utf8_lossy(&v);
                        parse_primary(text.as_str(), &mut self.packages);
                        FetchPhase::Loaded
                    },
                    None => FetchPhase::NeedPrimary,
                },
            },
            FetchPhase::NeedPrimary => match outcome {
                FetchOutcome::Failed => FetchPhase::NeedDatabase,
                FetchOutcome::Fetched(b) => match gunzip(&b) {
                    Some(v) => {
                        let text = utf8_lossy(&v);
                        parse_primary(text.as_str(), &mut self.packages);
                        FetchPhase::Loaded
                    },
                    None => FetchPhase::NeedDatabase,
                },
            },
            FetchPhase::NeedDatabase => {
                self.load_mock_data();
                FetchPhase::FellBack
            },
            FetchPhase::Loaded => FetchPhase::Loaded,
            FetchPhase::FellBack => FetchPhase::FellBack,
        }
    }

    /// Runs the whole cascade with every fetch failing: exactly the
    /// fallback path, ending on the built-in catalog.
    pub fn load_offline(&mut self)
        requires
            old(self).wf(),
        ensures
            final(self).wf(),
            final(self).config == old(self).config,
            final(self).packages@ == mock_map(),
    {
        let p1 = self.cascade_step(FetchPhase::NeedIndex, FetchOutcome::Failed);
        let p2 = self.cascade_step(p1, FetchOutcome::Failed);
        let p3 = self.cascade_step(p2, FetchOutcome::Failed);
    }

    /// Replaces the package set with the fixed seven-package catalog.
    pub fn load_mock_data(&mut self)
        ensures
            final(self).wf(),
            final(self).config == old(self).config,
            final(self).packages@ == mock_map(),
    {
        proof {
            reveal_strlit("nano");
            reveal_strlit("vim");
            reveal_strlit("curl");
            reveal_strlit("rust");
            reveal_strlit("firefox");
            reveal_strlit("git");
            reveal_strlit("python3");
        }
        let mut ps = PackageSet::new();
        push_mock(&mut ps, "nano", "2.9.8", "1.fc39", "A small text editor for consoles");
        push_mock(&mut ps, "vim", "8.2", "1.fc39", "Vi Improved - enhanced vi editor");
        push_mock(&mut ps, "curl", "7.61.1", "1.fc39", "Tool for transferring data with URL syntax");
        push_mock(&mut ps, "rust", "1.70.0", "1.fc39", "The Rust programming language");
        push_mock(&mut ps, "firefox", "115.0", "1.fc39", "Mozilla Firefox Web browser");
        push_mock(&mut ps, "git", "2.43.0", "1.fc39", "Fast Version Control System");
        push_mock(&mut ps, "python3", "3.11.5", "1.fc39", "Python programming language");
        self.packages = ps;
    }

    /// The record of the given bare name, if this repository holds one.
    pub fn find_package(&self, name: &str) -> (r: Option<&Package>)
        requires
            self.wf(),
        ensures
            match r {
                Some(p) => self.packages@.contains_key(name@) && p@ == self.packages@[name@],
                None => !self.packages@.contains_key(name@),
            },
    {
        self.packages.get(name)
    }

    /// Every record matching the query, in the set's insertion order.
    pub fn search(&self, query: &str) -> (r: Vec<&Package>)
        ensures
            r@.map_values(|p: &Package| p@) == filter_matches(self.packages.seq_view(), query@),
    {
        let mut out: Vec<&Package> = Vec::new();
        let n = self.packages.items.len();
        let mut i: usize = 0;
        proof {
            assert(self.packages.seq_view().take(0) =~= Seq::<PackageV>::empty());
            assert(out@.map_values(|p: &Package| p@) =~= filter_matches(
                self.packages.seq_view().take(0),
                query@,
            ));
        }
        while i < n
            invariant
                i <= n,
                n == self.packages.items@.len(),
                out@.map_values(|p: &Package| p@) == filter_matches(
                    self.packages.seq_view().take(i as int),
                    query@,
                ),
            decreases n - i,
        {
            let ghost pre = out@.map_values(|p: &Package| p@);
            let p = &self.packages.items[i];
            if contains_ci_exec(p.name.name.as_str(), query) || contains_ci_exec(
                p.description.as_str(),
                query,
            ) || contains_ci_exec(p.summary.as_str(), query) {
                out.push(p);
            }
            proof {
                let sv = self.packages.seq_view();
                assert(sv.take(i as int + 1).drop_last() =~= sv.take(i as int));
                assert(sv.take(i as int + 1).last() == sv[i as int]);
                assert(sv[i as int] == self.packages.items@[i as int]@);
                assert(out@.map_values(|p: &Package| p@) =~= filter_matches(
                    sv.take(i as int + 1),
                    query@,
                ));
            }
            i += 1;
        }
        proof {
            assert(self.packages.seq_view().take(n as int) =~= self.packages.seq_view());
        }
        out
    }

    /// References to every record this repository holds.
    pub fn list_packages(&self) -> (r: Vec<&Package>)
        ensures
            r@.map_values(|p: &Package| p@) == self.packages.seq_view(),
    {
        self.packages.list()
    }
}

} // verus!
