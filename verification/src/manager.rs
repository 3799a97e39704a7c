use vstd::prelude::*;
use crate::config::Config;
use crate::config::Repository as RepoConfig;
use crate::pkg::{Package, PackageV};
use crate::repo::{Repository, filter_matches, mock_map};
use crate::strs::{
    case_equiv, lex_le, str_le, lemma_contains_ci_case_equiv, lemma_lex_le_total,
    lemma_lex_le_trans,
};

verus! {

/// The enabled entries of a configuration, in order.
pub open spec fn enabled_of(s: Seq<RepoConfig>) -> Seq<RepoConfig>
    decreases s.len(),
{
    if s.len() == 0 {
        Seq::empty()
    } else {
        enabled_of(s.drop_last()) + (if s.last().enabled {
            seq![s.last()]
        } else {
            Seq::empty()
        })
    }
}

/// The first repository in order that holds the name, and its record.
pub open spec fn spec_find_at(repos: Seq<Repository>, i: int, k: Seq<char>) -> Option<PackageV>
    decreases repos.len() - i,
{
    if i < 0 || i >= repos.len() {
        None
    } else if repos[i].packages@.contains_key(k) {
        Some(repos[i].packages@[k])
    } else {
        spec_find_at(repos, i + 1, k)
    }
}

/// The matches of the query in the first `j` repositories, concatenated in
/// repository order.
pub open spec fn all_matches_upto(repos: Seq<Repository>, j: int, q: Seq<char>) -> Seq<PackageV>
    decreases j,
{
    if j <= 0 || j > repos.len() {
        Seq::empty()
    } else {
        all_matches_upto(repos, j - 1, q) + filter_matches(repos[j - 1].packages.seq_view(), q)
    }
}

/// Every match of the query across all repositories.
pub open spec fn all_matches(repos: Seq<Repository>, q: Seq<char>) -> Seq<PackageV> {
    all_matches_upto(repos, repos.len() as int, q)
}

/// Records are in ascending order of bare name; ties carry no defined order.
pub open spec fn sorted_by_name(s: Seq<PackageV>) -> bool {
    forall|a: int, b: int| 0 <= a < b < s.len() ==> lex_le(s[a].name.name, s[b].name.name)
}

/// Matching records of equal queries: filtering cannot tell case-equivalent
/// queries apart.
proof fn lemma_filter_matches_ci(s: Seq<PackageV>, q1: Seq<char>, q2: Seq<char>)
    requires
        case_equiv(q1, q2),
    ensures
        filter_matches(s, q1) == filter_matches(s, q2),
    decreases s.len(),
{
    if s.len() > 0 {
        lemma_filter_matches_ci(s.drop_last(), q1, q2);
        lemma_contains_ci_case_equiv(s.last().name.name, q1, q2);
        lemma_contains_ci_case_equiv(s.last().description, q1, q2);
        lemma_contains_ci_case_equiv(s.last().summary, q1, q2);
    }
}

/// Search is case-insensitive: two queries that fold to the same characters
/// match exactly the same records across all repositories.
pub proof fn lemma_search_case_insensitive(repos: Seq<Repository>, q1: Seq<char>, q2: Seq<char>)
    requires
        case_equiv(q1, q2),
    ensures
        all_matches(repos, q1) == all_matches(repos, q2),
{
    lemma_all_matches_upto_ci(repos, repos.len() as int, q1, q2);
}

proof fn lemma_all_matches_upto_ci(repos: Seq<Repository>, j: int, q1: Seq<char>, q2: Seq<char>)
    requires
        case_equiv(q1, q2),
    ensures
        all_matches_upto(repos, j, q1) == all_matches_upto(repos, j, q2),
    decreases j,
{
    if 0 < j <= repos.len() {
        lemma_all_matches_upto_ci(repos, j - 1, q1, q2);
        lemma_filter_matches_ci(repos[j - 1].packages.seq_view(), q1, q2);
    }
}

/// Inserting an element anywhere adds exactly it to the sequence's multiset.
proof fn lemma_insert_to_multiset<A>(s: Seq<A>, pos: int, x: A)
    requires
        0 <= pos <= s.len(),
    ensures
        s.insert(pos, x).to_multiset() == s.to_multiset().insert(x),
{
    let t = s.insert(pos, x);
    s.insert_ensures(pos, x);
    t.to_multiset_ensures();
    s.to_multiset_ensures();
    t.remove_ensures(pos);
    assert(t.remove(pos) =~= s);
    assert(t[pos] == x);
    assert(t.contains(x));
    assert(t.to_multiset().remove(x) =~= s.to_multiset());
    assert(t.to_multiset().count(x) > 0);
    assert forall|a: A| t.to_multiset().count(a) == s.to_multiset().insert(x).count(a) by {
        assert(t.to_multiset().remove(x).count(a) == s.to_multiset().count(a));
    }
    assert(t.to_multiset() =~= s.to_multiset().insert(x));
}

/// The first position in a name-sorted vector at or after which `x` sorts.
fn insert_pos(out: &Vec<&Package>, x: &Package) -> (pos: usize)
    ensures
        pos <= out@.len(),
        forall|t: int| 0 <= t < pos ==> !lex_le(x@.name.name, mv(out@)[t].name.name),
        pos < out@.len() ==> lex_le(x@.name.name, mv(out@)[pos as int].name.name),
{
    let k = out.len();
    let mut pos: usize = 0;
    while pos < k
        invariant
            pos <= k,
            k == out@.len(),
            forall|t: int| 0 <= t < pos ==> !lex_le(x@.name.name, mv(out@)[t].name.name),
        decreases k - pos,
    {
        if str_le(x.name.name.as_str(), out[pos].name.name.as_str()) {
            proof {
                assert(mv(out@)[pos as int] == out@[pos as int]@);
            }
            return pos;
        }
        proof {
            assert(mv(out@)[pos as int] == out@[pos as int]@);
        }
        pos += 1;
    }
    pos
}

/// Inserts a record into a name-sorted vector, keeping it sorted.
fn sorted_insert<'a>(out: &mut Vec<&'a Package>, x: &'a Package)
    requires
        sorted_by_name(mv(old(out)@)),
    ensures
        sorted_by_name(mv(final(out)@)),
        mv(final(out)@).to_multiset() == mv(old(out)@).to_multiset().insert(x@),
{
    let pos = insert_pos(out, x);
    let ghost outv = mv(out@);
    proof {
        assert forall|t: int| 0 <= t < pos implies lex_le(outv[t].name.name, x@.name.name) by {
            lemma_lex_le_total(x@.name.name, outv[t].name.name);
        }
    }
    out.insert(pos, x);
    proof {
        outv.insert_ensures(pos as int, x@);
        assert(mv(out@) =~= outv.insert(pos as int, x@));
        lemma_insert_to_multiset(outv, pos as int, x@);
        let newv = mv(out@);
        assert forall|a: int, b: int| 0 <= a < b < newv.len() implies lex_le(
            newv[a].name.name,
            newv[b].name.name,
        ) by {
            if a == pos && b > pos {
                if b - 1 > pos {
                    lemma_lex_le_trans(
                        x@.name.name,
                        outv[pos as int].name.name,
                        outv[b - 1].name.name,
                    );
                }
            }
        }
    }
}

/// The view sequence of a vector of package references.
pub open spec fn mv(s: Seq<&Package>) -> Seq<PackageV> {
    s.map_values(|p: &Package| p@)
}

/// Owns one repository per enabled configuration entry and composes their
/// package sets for lookup and search.
pub struct RepositoryManager {
    pub repositories: Vec<Repository>,
    pub config: Config,
}

impl RepositoryManager {
    pub open spec fn wf(&self) -> bool {
        forall|i: int| 0 <= i < self.repositories@.len() ==> (#[trigger] self.repositories@[i]).wf()
    }

    pub fn new(config: Config) -> (r: Self)
        ensures
            r.wf(),
            r.config == config,
            r.repositories@.len() == 0,
    {
        RepositoryManager { repositories: Vec::new(), config }
    }

    /// Hands the manager a repository whose cascade the caller has driven.
    pub fn insert_repository(&mut self, repo: Repository)
        requires
            old(self).wf(),
            repo.wf(),
        ensures
            final(self).wf(),
            final(self).config == old(self).config,
            final(self).repositories@ == old(self).repositories@.push(repo),
    {
        self.repositories.push(repo);
    }

    /// Rebuilds the repository set from the configuration without any live
    /// metadata: every enabled entry, disabled ones skipped, each filled
    /// from the fallback catalog. Callers with live metadata instead drive
    /// each repository's cascade and hand the result to `insert_repository`.
    pub fn load_repositories(&mut self)
        ensures
            final(self).wf(),
            final(self).config == old(self).config,
            final(self).repositories@.len() == enabled_of(old(self).config.repositories@).len(),
            forall|i: int|
                0 <= i < final(self).repositories@.len()
                    ==> (#[trigger] final(self).repositories@[i]).config
                    == enabled_of(old(self).config.repositories@)[i]
                    && final(self).repositories@[i].packages@ == mock_map(),
    {
        let ghost cfgs = self.config.repositories@;
        let mut built: Vec<Repository> = Vec::new();
        let n = self.config.repositories.len();
        let mut i: usize = 0;
        proof {
            assert(enabled_of(cfgs.take(0)) =~= Seq::<RepoConfig>::empty());
        }
        while i < n
            invariant
                i <= n,
                n == self.config.repositories@.len(),
                cfgs == self.config.repositories@,
                self == old(self),
                built@.len() == enabled_of(cfgs.take(i as int)).len(),
                forall|t: int|
                    0 <= t < built@.len() ==> (#[trigger] built@[t]).config == enabled_of(
                        cfgs.take(i as int),
                    )[t] && built@[t].packages@ == mock_map() && built@[t].wf(),
            decreases n - i,
        {
            let cfg = &self.config.repositories[i];
            if cfg.enabled {
                let mut repo = Repository::new(cfg.duplicate());
                repo.load_offline();
                built.push(repo);
            }
            proof {
                assert(cfgs.take(i as int + 1).drop_last() =~= cfgs.take(i as int));
                assert(cfgs.take(i as int + 1).last() == cfgs[i as int]);
            }
            i += 1;
        }
        proof {
            assert(cfgs.take(n as int) =~= cfgs);
        }
        self.repositories = built;
    }

    /// Discards the aggregate state and reloads from the configuration.
    pub fn update(&mut self)
        ensures
            final(self).wf(),
            final(self).config == old(self).config,
            final(self).repositories@.len() == enabled_of(old(self).config.repositories@).len(),
            forall|i: int|
                0 <= i < final(self).repositories@.len()
                    ==> (#[trigger] final(self).repositories@[i]).config
                    == enabled_of(old(self).config.repositories@)[i]
                    && final(self).repositories@[i].packages@ == mock_map(),
    {
        self.repositories.clear();
        self.load_repositories();
    }

    /// The first repository in order that holds an exact-name match, or
    /// nothing when the name is absent from every loaded repository.
    pub fn find_package(&self, package_name: &str) -> (r: Option<&Package>)
        requires
            self.wf(),
        ensures
            match r {
                Some(p) => spec_find_at(self.repositories@, 0, package_name@) == Some(p@),
                None => spec_find_at(self.repositories@, 0, package_name@) is None,
            },
            (r is None) <==> (forall|i: int|
                0 <= i < self.repositories@.len() ==> !(#[trigger] self.repositories@[i]).packages@
                    .contains_key(package_name@)),
    {
        let n = self.repositories.len();
        let mut j: usize = 0;
        while j < n
            invariant
                j <= n,
                n == self.repositories@.len(),
                self.wf(),
                spec_find_at(self.repositories@, 0, package_name@) == spec_find_at(
                    self.repositories@,
                    j as int,
                    package_name@,
                ),
                forall|t: int|
                    0 <= t < j ==> !(#[trigger] self.repositories@[t]).packages@.contains_key(
                        package_name@,
                    ),
            decreases n - j,
        {
            match self.repositories[j].find_package(package_name) {
                Some(p) => {
                    return Some(p);
                },
                None => {},
            }
            j += 1;
        }
        None
    }

    /// Every match of the query across all repositories, sorted ascending
    /// by bare package name; equal names carry no defined order.
    pub fn search_packages(&self, query: &str) -> (r: Vec<&Package>)
        ensures
            mv(r@).to_multiset() == all_matches(self.repositories@, query@).to_multiset(),
            sorted_by_name(mv(r@)),
    {
        let ghost repos = self.repositories@;
        let n = self.repositories.len();
        let mut acc: Vec<&Package> = Vec::new();
        let mut j: usize = 0;
        proof {
            assert(mv(acc@) =~= all_matches_upto(repos, 0, query@));
        }
        while j < n
            invariant
                j <= n,
                n == self.repositories@.len(),
                repos == self.repositories@,
                mv(acc@) == all_matches_upto(repos, j as int, query@),
            decreases n - j,
        {
            let mut sub = self.repositories[j].search(query);
            let ghost pre = acc@;
            let ghost subv = sub@;
            acc.append(&mut sub);
            proof {
                assert(mv(acc@) =~= mv(pre) + mv(subv));
            }
            j += 1;
        }
        let m = acc.len();
        let mut out: Vec<&Package> = Vec::new();
        let mut i: usize = 0;
        proof {
            assert(mv(acc@.take(0)) =~= Seq::<PackageV>::empty());
            assert(mv(out@).to_multiset() =~= mv(acc@.take(0)).to_multiset());
        }
        while i < m
            invariant
                i <= m,
                m == acc@.len(),
                mv(acc@) == all_matches(repos, query@),
                mv(out@).to_multiset() == mv(acc@.take(i as int)).to_multiset(),
                sorted_by_name(mv(out@)),
            decreases m - i,
        {
            let x = acc[i];
            sorted_insert(&mut out, x);
            proof {
                assert(mv(acc@.take(i as int + 1)).drop_last() =~= mv(acc@.take(i as int)));
                assert(mv(acc@.take(i as int + 1)).last() == acc@[i as int]@);
                mv(acc@.take(i as int)).to_multiset_ensures();
                assert(mv(acc@.take(i as int + 1)) =~= mv(acc@.take(i as int)).push(
                    acc@[i as int]@,
                ));
            }
            i += 1;
        }
        proof {
            assert(acc@.take(m as int) =~= acc@);
        }
        out
    }
}

} // verus!
