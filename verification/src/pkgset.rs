use vstd::prelude::*;
use crate::pkg::{Package, PackageV};
use crate::strs::str_eq;

verus! {

/// The mapping from bare package name to record that a sequence of package
/// records denotes, later records overwriting earlier ones of the same name.
pub open spec fn pkg_map(s: Seq<Package>) -> Map<Seq<char>, PackageV>
    decreases s.len(),
{
    if s.len() == 0 {
        Map::empty()
    } else {
        pkg_map(s.drop_last()).insert(s.last().name.name@, s.last()@)
    }
}

pub open spec fn keys_unique(s: Seq<Package>) -> bool {
    forall|i: int, j: int|
        0 <= i < j < s.len() ==> s[i].name.name@ != s[j].name.name@
}

pub open spec fn names_nonempty(s: Seq<Package>) -> bool {
    forall|i: int| 0 <= i < s.len() ==> s[i].name.name@.len() > 0
}

pub proof fn lemma_pkg_map_props(s: Seq<Package>)
    requires
        keys_unique(s),
    ensures
        forall|i: int|
            0 <= i < s.len() ==> pkg_map(s).contains_key(#[trigger] s[i].name.name@)
                && pkg_map(s)[s[i].name.name@] == s[i]@,
        forall|k: Seq<char>|
            #[trigger] pkg_map(s).contains_key(k) ==> exists|i: int|
                0 <= i < s.len() && s[i].name.name@ == k,
    decreases s.len(),
{
    if s.len() > 0 {
        assert(keys_unique(s.drop_last()));
        lemma_pkg_map_props(s.drop_last());
        assert forall|i: int| 0 <= i < s.len() implies pkg_map(s).contains_key(
            #[trigger] s[i].name.name@,
        ) && pkg_map(s)[s[i].name.name@] == s[i]@ by {
            if i < s.len() - 1 {
                assert(s.drop_last()[i] == s[i]);
                assert(s[i].name.name@ != s.last().name.name@);
            }
        }
        assert forall|k: Seq<char>| #[trigger] pkg_map(s).contains_key(k) implies exists|i: int|
            0 <= i < s.len() && s[i].name.name@ == k by {
            if k == s.last().name.name@ {
                assert(s[s.len() - 1].name.name@ == k);
            } else {
                assert(pkg_map(s.drop_last()).contains_key(k));
                let i = choose|i: int|
                    0 <= i < s.drop_last().len() && s.drop_last()[i].name.name@ == k;
                assert(s[i].name.name@ == k);
            }
        }
    }
}

pub proof fn lemma_pkg_map_remove(s: Seq<Package>, i: int)
    requires
        keys_unique(s),
        0 <= i < s.len(),
    ensures
        pkg_map(s.remove(i)) == pkg_map(s).remove(s[i].name.name@),
    decreases s.len(),
{
    let k = s[i].name.name@;
    if i == s.len() - 1 {
        assert(s.remove(i) =~= s.drop_last());
        assert(keys_unique(s.drop_last()));
        lemma_pkg_map_props(s.drop_last());
        if pkg_map(s.drop_last()).contains_key(k) {
            let j = choose|j: int|
                0 <= j < s.drop_last().len() && s.drop_last()[j].name.name@ == k;
            assert(s[j].name.name@ == s[i].name.name@);
            assert(false);
        }
        assert(pkg_map(s).remove(k) =~= pkg_map(s.drop_last()));
    } else {
        assert(keys_unique(s.drop_last()));
        assert(s.remove(i).drop_last() =~= s.drop_last().remove(i));
        assert(s.remove(i).last() == s.last());
        lemma_pkg_map_remove(s.drop_last(), i);
        assert(s.drop_last()[i] == s[i]);
        assert(s.last().name.name@ != k);
        assert(pkg_map(s.remove(i)) == pkg_map(s.drop_last()).remove(k).insert(
            s.last().name.name@,
            s.last()@,
        ));
        assert(pkg_map(s.remove(i)) =~= pkg_map(s).remove(k));
    }
}

/// A repository's package set: records with unique, non-empty bare names,
/// viewed as a mapping from bare name to record.
pub struct PackageSet {
    pub items: Vec<Package>,
}

impl View for PackageSet {
    type V = Map<Seq<char>, PackageV>;

    open spec fn view(&self) -> Map<Seq<char>, PackageV> {
        pkg_map(self.items@)
    }
}

impl PackageSet {
    pub open spec fn wf(&self) -> bool {
        keys_unique(self.items@) && names_nonempty(self.items@)
    }

    /// The records in insertion order.
    pub open spec fn seq_view(&self) -> Seq<PackageV> {
        self.items@.map_values(|p: Package| p@)
    }

    pub fn new() -> (r: Self)
        ensures
            r.wf(),
            r@ == Map::<Seq<char>, PackageV>::empty(),
            r.items@.len() == 0,
    {
        let r = PackageSet { items: Vec::new() };
        proof {
            assert(r@ =~= Map::<Seq<char>, PackageV>::empty());
        }
        r
    }

    pub fn len(&self) -> (r: usize)
        ensures
            r == self.items@.len(),
    {
        self.items.len()
    }

    /// Inserts a record under its bare name, overwriting any prior record
    /// of the same name.
    pub fn upsert(&mut self, p: Package)
        requires
            old(self).wf(),
            p.name.name@.len() > 0,
        ensures
            final(self).wf(),
            final(self)@ == old(self)@.insert(p.name.name@, p@),
    {
        let ghost olds = self.items@;
        let ghost k = p.name.name@;
        let n = self.items.len();
        let mut i: usize = 0;
        while i < n
            invariant
                i <= n,
                n == self.items@.len(),
                self.items@ == olds,
                olds == old(self).items@,
                keys_unique(olds),
                names_nonempty(olds),
                p.name.name@.len() > 0,
                k == p.name.name@,
                forall|t: int| 0 <= t < i ==> self.items@[t].name.name@ != p.name.name@,
            decreases n - i,
        {
            if str_eq(self.items[i].name.name.as_str(), p.name.name.as_str()) {
                proof {
                    lemma_pkg_map_remove(olds, i as int);
                }
                let removed = self.items.remove(i);
                let ghost mids = self.items@;
                proof {
                    olds.remove_ensures(i as int);
                    assert forall|a: int, b: int|
                        0 <= a < b < mids.len() implies mids[a].name.name@
                        != mids[b].name.name@ by {
                        assert(mids[a] == if a < i { olds[a] } else { olds[a + 1] });
                        assert(mids[b] == if b < i { olds[b] } else { olds[b + 1] });
                    }
                    assert forall|a: int| 0 <= a < mids.len() implies mids[a].name.name@ != k by {
                        assert(mids[a] == if a < i { olds[a] } else { olds[a + 1] });
                        assert(olds[i as int].name.name@ == k);
                    }
                    assert forall|a: int| 0 <= a < mids.len() implies mids[a].name.name@.len()
                        > 0 by {
                        assert(mids[a] == if a < i { olds[a] } else { olds[a + 1] });
                    }
                }
                self.items.push(p);
                proof {
                    assert(self.items@.drop_last() =~= mids);
                    assert(self@ == pkg_map(mids).insert(k, p@));
                    assert(mids == olds.remove(i as int));
                    assert(pkg_map(mids) == pkg_map(olds).remove(k));
                    assert(self@ =~= pkg_map(olds).insert(k, p@));
                }
                return ;
            }
            i += 1;
        }
        self.items.push(p);
        proof {
            assert(self.items@.drop_last() =~= olds);
        }
    }

    /// The record of the given bare name, if the set holds one.
    pub fn get(&self, name: &str) -> (r: Option<&Package>)
        requires
            self.wf(),
        ensures
            match r {
                Some(p) => self@.contains_key(name@) && p@ == self@[name@],
                None => !self@.contains_key(name@),
            },
    {
        proof {
            lemma_pkg_map_props(self.items@);
        }
        let n = self.items.len();
        let mut i: usize = 0;
        while i < n
            invariant
                i <= n,
                n == self.items@.len(),
                self.wf(),
                forall|t: int| 0 <= t < i ==> self.items@[t].name.name@ != name@,
            decreases n - i,
        {
            if str_eq(self.items[i].name.name.as_str(), name) {
                proof {
                    lemma_pkg_map_props(self.items@);
                }
                return Some(&self.items[i]);
            }
            i += 1;
        }
        proof {
            if self@.contains_key(name@) {
                let j = choose|j: int|
                    0 <= j < self.items@.len() && self.items@[j].name.name@ == name@;
                assert(false);
            }
        }
        None
    }

    /// References to every record, in insertion order.
    pub fn list(&self) -> (r: Vec<&Package>)
        ensures
            r@.map_values(|p: &Package| p@) == self.seq_view(),
    {
        let n = self.items.len();
        let mut out: Vec<&Package> = Vec::new();
        let mut i: usize = 0;
        while i < n
            invariant
                i <= n,
                n == self.items@.len(),
                out@.len() == i,
                forall|t: int| 0 <= t < i ==> out@[t]@ == self.items@[t]@,
            decreases n - i,
        {
            out.push(&self.items[i]);
            i += 1;
        }
        proof {
            assert(out@.map_values(|p: &Package| p@) =~= self.seq_view());
        }
        out
    }
}

} // verus!
