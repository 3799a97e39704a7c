use vstd::prelude::*;
use crate::pkg::{Package, PackageV};
use crate::strs::str_eq;

verus! {

use vstd::string::StringExecFns;

/// A failed operation on the installed-package store.
#[derive(Debug)]
pub enum DbError {
    NotFound(String),
}

/// One installed package: the record snapshot, the files laid down, and the
/// install timestamp the caller supplied.
#[derive(Clone)]
pub struct InstalledPackage {
    pub package: Package,
    pub installed_files: Vec<String>,
    pub install_time: String,
}

pub struct InstalledV {
    pub package: PackageV,
    pub installed_files: Seq<Seq<char>>,
    pub install_time: Seq<char>,
}

impl View for InstalledPackage {
    type V = InstalledV;

    open spec fn view(&self) -> InstalledV {
        InstalledV {
            package: self.package@,
            installed_files: self.installed_files.deep_view(),
            install_time: self.install_time@,
        }
    }
}

/// The store key of an entry: `<name>.<arch>`.
pub open spec fn ikey(e: InstalledPackage) -> Seq<char> {
    e.package.name.name@ + "."@ + e.package.name.arch@
}

fn key_exec(e: &InstalledPackage) -> (r: String)
    ensures
        r@ == ikey(*e),
{
    e.package.name.name.clone().concat(".").concat(e.package.name.arch.as_str())
}

pub open spec fn db_map(s: Seq<InstalledPackage>) -> Map<Seq<char>, InstalledV>
    decreases s.len(),
{
    if s.len() == 0 {
        Map::empty()
    } else {
        db_map(s.drop_last()).insert(ikey(s.last()), s.last()@)
    }
}

pub open spec fn db_keys_unique(s: Seq<InstalledPackage>) -> bool {
    forall|i: int, j: int| 0 <= i < j < s.len() ==> ikey(s[i]) != ikey(s[j])
}

pub proof fn lemma_db_map_props(s: Seq<InstalledPackage>)
    requires
        db_keys_unique(s),
    ensures
        forall|i: int|
            0 <= i < s.len() ==> db_map(s).contains_key(#[trigger] ikey(s[i])) && db_map(s)[ikey(
                s[i],
            )] == s[i]@,
        forall|k: Seq<char>|
            #[trigger] db_map(s).contains_key(k) ==> exists|i: int|
                0 <= i < s.len() && ikey(s[i]) == k,
    decreases s.len(),
{
    if s.len() > 0 {
        assert(db_keys_unique(s.drop_last()));
        lemma_db_map_props(s.drop_last());
        assert forall|i: int| 0 <= i < s.len() implies db_map(s).contains_key(
            #[trigger] ikey(s[i]),
        ) && db_map(s)[ikey(s[i])] == s[i]@ by {
            if i < s.len() - 1 {
                assert(s.drop_last()[i] == s[i]);
                assert(ikey(s[i]) != ikey(s.last()));
            }
        }
        assert forall|k: Seq<char>| #[trigger] db_map(s).contains_key(k) implies exists|i: int|
            0 <= i < s.len() && ikey(s[i]) == k by {
            if k == ikey(s.last()) {
                assert(ikey(s[s.len() - 1]) == k);
            } else {
                assert(db_map(s.drop_last()).contains_key(k));
                let i = choose|i: int| 0 <= i < s.drop_last().len() && ikey(s.drop_last()[i]) == k;
                assert(ikey(s[i]) == k);
            }
        }
    }
}

pub proof fn lemma_db_map_remove(s: Seq<InstalledPackage>, i: int)
    requires
        db_keys_unique(s),
        0 <= i < s.len(),
    ensures
        db_map(s.remove(i)) == db_map(s).remove(ikey(s[i])),
    decreases s.len(),
{
    let k = ikey(s[i]);
    if i == s.len() - 1 {
        assert(s.remove(i) =~= s.drop_last());
        assert(db_keys_unique(s.drop_last()));
        lemma_db_map_props(s.drop_last());
        if db_map(s.drop_last()).contains_key(k) {
            let j = choose|j: int| 0 <= j < s.drop_last().len() && ikey(s.drop_last()[j]) == k;
            assert(ikey(s[j]) == ikey(s[i]));
            assert(false);
        }
        assert(db_map(s).remove(k) =~= db_map(s.drop_last()));
    } else {
        assert(db_keys_unique(s.drop_last()));
        assert(s.remove(i).drop_last() =~= s.drop_last().remove(i));
        assert(s.remove(i).last() == s.last());
        lemma_db_map_remove(s.drop_last(), i);
        assert(s.drop_last()[i] == s[i]);
        assert(ikey(s.last()) != k);
        assert(db_map(s.remove(i)) == db_map(s.drop_last()).remove(k).insert(
            ikey(s.last()),
            s.last()@,
        ));
        assert(db_map(s.remove(i)) =~= db_map(s).remove(k));
    }
}

/// The installed-package ledger, persisted by the caller at a fixed path,
/// viewed as a mapping from `<name>.<arch>` to entry. Operations here fail
/// loudly and never fall back.
pub struct PackageDatabase {
    pub installed_packages: Vec<InstalledPackage>,
    pub database_path: String,
}

impl View for PackageDatabase {
    type V = Map<Seq<char>, InstalledV>;

    open spec fn view(&self) -> Map<Seq<char>, InstalledV> {
        db_map(self.installed_packages@)
    }
}

impl PackageDatabase {
    pub open spec fn wf(&self) -> bool {
        db_keys_unique(self.installed_packages@)
    }

    pub fn new(database_path: String) -> (r: Self)
        ensures
            r.wf(),
            r@ == Map::<Seq<char>, InstalledV>::empty(),
            r.database_path == database_path,
    {
        let r = PackageDatabase { installed_packages: Vec::new(), database_path };
        proof {
            assert(r@ =~= Map::<Seq<char>, InstalledV>::empty());
        }
        r
    }

    /// Records a package as installed under its `<name>.<arch>` key, with no
    /// files yet and the given timestamp; a prior entry of the same key is
    /// overwritten.
    pub fn install_package(&mut self, package: Package, install_time: String)
        requires
            old(self).wf(),
        ensures
            final(self).wf(),
            final(self).database_path == old(self).database_path,
            final(self)@ == old(self)@.insert(
                package.name.name@ + "."@ + package.name.arch@,
                InstalledV {
                    package: package@,
                    installed_files: Seq::empty(),
                    install_time: install_time@,
                },
            ),
    {
        let entry = InstalledPackage { package, installed_files: Vec::new(), install_time };
        proof {
            assert(entry@.installed_files =~= Seq::<Seq<char>>::empty());
        }
        let key = key_exec(&entry);
        let ghost olds = self.installed_packages@;
        let ghost k = ikey(entry);
        let n = self.installed_packages.len();
        let mut i: usize = 0;
        while i < n
            invariant
                i <= n,
                n == self.installed_packages@.len(),
                self.installed_packages@ == olds,
                olds == old(self).installed_packages@,
                self.database_path == old(self).database_path,
                db_keys_unique(olds),
                key@ == k,
                k == ikey(entry),
                entry@ == (InstalledV {
                    package: package@,
                    installed_files: Seq::empty(),
                    install_time: install_time@,
                }),
                forall|t: int| 0 <= t < i ==> ikey(olds[t]) != k,
            decreases n - i,
        {
            let ek = key_exec(&self.installed_packages[i]);
            if str_eq(ek.as_str(), key.as_str()) {
                proof {
                    lemma_db_map_remove(olds, i as int);
                }
                let removed = self.installed_packages.remove(i);
                let ghost mids = self.installed_packages@;
                proof {
                    olds.remove_ensures(i as int);
                    assert forall|a: int, b: int| 0 <= a < b < mids.len() implies ikey(mids[a])
                        != ikey(mids[b]) by {
                        assert(mids[a] == if a < i { olds[a] } else { olds[a + 1] });
                        assert(mids[b] == if b < i { olds[b] } else { olds[b + 1] });
                    }
                    assert forall|a: int| 0 <= a < mids.len() implies ikey(mids[a]) != k by {
                        assert(mids[a] == if a < i { olds[a] } else { olds[a + 1] });
                        assert(ikey(olds[i as int]) == k);
                    }
                }
                self.installed_packages.push(entry);
                proof {
                    assert(self.installed_packages@.drop_last() =~= mids);
                    assert(self@ == db_map(mids).insert(k, entry@));
                    assert(mids == olds.remove(i as int));
                    assert(db_map(mids) == db_map(olds).remove(k));
                    assert(self@ =~= db_map(olds).insert(k, entry@));
                }
                return ;
            }
            i += 1;
        }
        self.installed_packages.push(entry);
        proof {
            assert(self.installed_packages@.drop_last() =~= olds);
        }
    }

    /// Removes the entry of the given `<name>.<arch>` key. A key that is not
    /// present is a caller-visible error and leaves the store untouched.
    pub fn remove_package(&mut self, package_name: &str) -> (r: Result<(), DbError>)
        requires
            old(self).wf(),
        ensures
            final(self).wf(),
            final(self).database_path == old(self).database_path,
            match r {
                Ok(_) => old(self)@.contains_key(package_name@) && final(self)@ == old(
                    self,
                )@.remove(package_name@),
                Err(e) => !old(self)@.contains_key(package_name@) && *final(self) == *old(self)
                    && e is NotFound,
            },
    {
        let ghost olds = self.installed_packages@;
        let n = self.installed_packages.len();
        let mut i: usize = 0;
        while i < n
            invariant
                i <= n,
                n == self.installed_packages@.len(),
                self.installed_packages@ == olds,
                olds == old(self).installed_packages@,
                *self == *old(self),
                db_keys_unique(olds),
                forall|t: int| 0 <= t < i ==> ikey(olds[t]) != package_name@,
            decreases n - i,
        {
            let ek = key_exec(&self.installed_packages[i]);
            if str_eq(ek.as_str(), package_name) {
                proof {
                    lemma_db_map_props(olds);
                    lemma_db_map_remove(olds, i as int);
                    olds.remove_ensures(i as int);
                }
                let removed = self.installed_packages.remove(i);
                proof {
                    let mids = self.installed_packages@;
                    assert forall|a: int, b: int| 0 <= a < b < mids.len() implies ikey(mids[a])
                        != ikey(mids[b]) by {
                        assert(mids[a] == if a < i { olds[a] } else { olds[a + 1] });
                        assert(mids[b] == if b < i { olds[b] } else { olds[b + 1] });
                    }
                }
                return Ok(());
            }
            i += 1;
        }
        proof {
            lemma_db_map_props(olds);
            if self@.contains_key(package_name@) {
                let j = choose|j: int| 0 <= j < olds.len() && ikey(olds[j]) == package_name@;
                assert(false);
            }
        }
        Err(DbError::NotFound(package_name.to_owned()))
    }

    /// References to every installed entry, in insertion order.
    pub fn list_installed(&self) -> (r: Vec<&InstalledPackage>)
        ensures
            r@.map_values(|e: &InstalledPackage| e@) == self.installed_packages@.map_values(
                |e: InstalledPackage| e@,
            ),
    {
        let n = self.installed_packages.len();
        let mut out: Vec<&InstalledPackage> = Vec::new();
        let mut i: usize = 0;
        while i < n
            invariant
                i <= n,
                n == self.installed_packages@.len(),
                out@.len() == i,
                forall|t: int| 0 <= t < i ==> out@[t]@ == self.installed_packages@[t]@,
            decreases n - i,
        {
            out.push(&self.installed_packages[i]);
            i += 1;
        }
        proof {
            assert(out@.map_values(|e: &InstalledPackage| e@) =~= self.installed_packages@
                .map_values(|e: InstalledPackage| e@));
        }
        out
    }

    /// Whether an entry of the given `<name>.<arch>` key is installed.
    pub fn is_installed(&self, package_name: &str) -> (r: bool)
        requires
            self.wf(),
        ensures
            r == self@.contains_key(package_name@),
    {
        match self.get_installed(package_name) {
            Some(_) => true,
            None => false,
        }
    }

    /// The entry of the given `<name>.<arch>` key, if installed.
    pub fn get_installed(&self, package_name: &str) -> (r: Option<&InstalledPackage>)
        requires
            self.wf(),
        ensures
            match r {
                Some(e) => self@.contains_key(package_name@) && e@ == self@[package_name@],
                None => !self@.contains_key(package_name@),
            },
    {
        proof {
            lemma_db_map_props(self.installed_packages@);
        }
        let n = self.installed_packages.len();
        let mut i: usize = 0;
        while i < n
            invariant
                i <= n,
                n == self.installed_packages@.len(),
                self.wf(),
                forall|t: int| 0 <= t < i ==> ikey(self.installed_packages@[t]) != package_name@,
            decreases n - i,
        {
            let ek = key_exec(&self.installed_packages[i]);
            if str_eq(ek.as_str(), package_name) {
                proof {
                    lemma_db_map_props(self.installed_packages@);
                }
                return Some(&self.installed_packages[i]);
            }
            i += 1;
        }
        proof {
            if self@.contains_key(package_name@) {
                let j = choose|j: int|
                    0 <= j < self.installed_packages@.len() && ikey(
                        self.installed_packages@[j],
                    ) == package_name@;
                assert(false);
            }
        }
        None
    }
}

} // verus!
