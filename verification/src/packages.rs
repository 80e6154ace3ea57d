//! The set of packages installed on a machine, indexed by name and by manager.
use vstd::prelude::*;

use crate::debug_fmt::{
    debug_str, debug_string_list, field_piece, finish_piece, list_text, push_entry, push_field,
    push_finish, push_str, str_debug, entries_text,
};
use crate::text::str_eq;

verus! {

/// What a package is: its name, the manager it is installed under, and its version.
pub struct PackageView {
    pub name: Seq<char>,
    pub manager: Seq<char>,
    pub version: Seq<char>,
}

struct PackageInner {
    manager_idx: usize,
    name: String,
    version: String,
}

/// The indices of the packages of one name, in the order they were added.
struct NameIndex {
    name: String,
    indices: Vec<usize>,
}

/// Packages installed on a machine, in the order they were added, with an
/// index from each name and from each manager to its packages.
pub struct InstalledPackages {
    managers: Vec<String>,
    pkgs: Vec<PackageInner>,
    pkgs_by_name: Vec<NameIndex>,
    /// `pkgs_by_manager[m]` lists the packages installed under `managers[m]`
    pkgs_by_manager: Vec<Vec<usize>>,
}

/// Whether `s` is strictly increasing.
pub open spec fn strictly_increasing(s: Seq<usize>) -> bool {
    forall|a: int, b: int| 0 <= a < b < s.len() ==> s[a] < s[b]
}

/// Whether package `p` of `v` matches `name` and, when one is given, `version`.
pub open spec fn matches(
    v: Seq<PackageView>,
    p: int,
    name: Seq<char>,
    version: Option<Seq<char>>,
) -> bool {
    &&& v[p].name == name
    &&& match version {
        Some(ver) => v[p].version == ver,
        None => true,
    }
}

/// The package a lookup gives back: the earliest added one that matches.
pub open spec fn is_first_match(
    v: Seq<PackageView>,
    p: int,
    name: Seq<char>,
    version: Option<Seq<char>>,
) -> bool {
    &&& 0 <= p < v.len()
    &&& matches(v, p, name, version)
    &&& forall|q: int| 0 <= q < p ==> !matches(v, q, name, version)
}

/// The characters of an optional string.
pub open spec fn opt_view(v: Option<&str>) -> Option<Seq<char>> {
    match v {
        Some(s) => Some(s@),
        None => None,
    }
}

/// Whether any package of `v` matches.
pub open spec fn has_match(v: Seq<PackageView>, name: Seq<char>, version: Option<Seq<char>>) -> bool {
    exists|p: int| 0 <= p < v.len() && matches(v, p, name, version)
}

impl View for InstalledPackages {
    type V = Seq<PackageView>;

    closed spec fn view(&self) -> Seq<PackageView> {
        Seq::new(
            self.pkgs@.len(),
            |i: int|
                PackageView {
                    name: self.pkgs@[i].name@,
                    manager: self.managers@[self.pkgs@[i].manager_idx as int]@,
                    version: self.pkgs@[i].version@,
                },
        )
    }
}

impl InstalledPackages {
    spec fn name_entry_wf(&self, k: int) -> bool {
        let e = self.pkgs_by_name@[k];
        &&& strictly_increasing(e.indices@)
        &&& e.indices@.len() > 0
        &&& forall|j: int|
            0 <= j < e.indices@.len() ==> (#[trigger] e.indices@[j]) < self.pkgs@.len()
                && self.pkgs@[e.indices@[j] as int].name@ == e.name@
        &&& forall|i: int|
            0 <= i < self.pkgs@.len() && (#[trigger] self.pkgs@[i]).name@ == e.name@
                ==> e.indices@.contains(i as usize)
    }

    spec fn manager_entry_wf(&self, m: int) -> bool {
        let l = self.pkgs_by_manager@[m]@;
        &&& l.len() > 0
        &&& strictly_increasing(l)
        &&& forall|j: int|
            0 <= j < l.len() ==> (#[trigger] l[j]) < self.pkgs@.len() && self.pkgs@[l[j] as int].manager_idx
                == m
        &&& forall|i: int|
            0 <= i < self.pkgs@.len() && (#[trigger] self.pkgs@[i]).manager_idx == m ==> l.contains(
                i as usize,
            )
    }

    /// The indexes agree with the list of packages: every package has a
    /// known manager, names and managers are each listed once, and each index
    /// lists, in order, exactly the packages of its name or manager. Every
    /// package list keeps this.
    #[verifier::type_invariant]
    pub closed spec fn wf(&self) -> bool {
        &&& forall|i: int|
            0 <= i < self.pkgs@.len() ==> (#[trigger] self.pkgs@[i]).manager_idx
                < self.managers@.len()
        &&& forall|a: int, b: int|
            0 <= a < b < self.managers@.len() ==> self.managers@[a]@ != self.managers@[b]@
        &&& self.pkgs_by_manager@.len() == self.managers@.len()
        &&& forall|m: int| 0 <= m < self.managers@.len() ==> #[trigger] self.manager_entry_wf(m)
        &&& forall|a: int, b: int|
            #![trigger self.pkgs_by_manager@[a], self.pkgs_by_manager@[b]]
            0 <= a < b < self.managers@.len() ==> self.pkgs_by_manager@[a]@[0]
                < self.pkgs_by_manager@[b]@[0]
        &&& forall|a: int, b: int|
            0 <= a < b < self.pkgs_by_name@.len() ==> self.pkgs_by_name@[a].name@
                != self.pkgs_by_name@[b].name@
        &&& forall|k: int| 0 <= k < self.pkgs_by_name@.len() ==> #[trigger] self.name_entry_wf(k)
        &&& forall|i: int|
            0 <= i < self.pkgs@.len() ==> exists|k: int|
                0 <= k < self.pkgs_by_name@.len() && #[trigger] self.pkgs_by_name@[k].name@
                    == (#[trigger] self.pkgs@[i]).name@
    }

    /// The managers the packages are installed under, as the list keeps them.
    pub closed spec fn managers(&self) -> Seq<Seq<char>> {
        self.managers@.map_values(|s: String| s@)
    }

    /// The position of the first package installed under the `m`-th manager.
    pub closed spec fn first_package(&self, m: int) -> int {
        self.pkgs_by_manager@[m]@[0] as int
    }

    /// An empty set of packages.
    pub fn new() -> (r: InstalledPackages)
        ensures
            r@ == Seq::<PackageView>::empty(),
    {
        let r = InstalledPackages {
            managers: Vec::new(),
            pkgs: Vec::new(),
            pkgs_by_name: Vec::new(),
            pkgs_by_manager: Vec::new(),
        };
        assert(r@ =~= Seq::<PackageView>::empty());
        r
    }

    /// The position of `manager` among the known managers.
    fn find_manager(&self, manager: &str) -> (r: Option<usize>)
        ensures
            match r {
                Some(m) => m < self.managers@.len() && self.managers@[m as int]@ == manager@,
                None => forall|m: int|
                    0 <= m < self.managers@.len() ==> self.managers@[m]@ != manager@,
            },
    {
        let mut m: usize = 0;
        while m < self.managers.len()
            invariant
                m <= self.managers@.len(),
                forall|q: int| 0 <= q < m ==> self.managers@[q]@ != manager@,
            decreases self.managers.len() - m,
        {
            if str_eq(self.managers[m].as_str(), manager) {
                return Some(m);
            }
            m = m + 1;
        }
        None
    }

    /// The position of the index entry of `name`.
    fn find_name(&self, name: &str) -> (r: Option<usize>)
        ensures
            match r {
                Some(k) => k < self.pkgs_by_name@.len() && self.pkgs_by_name@[k as int].name@
                    == name@,
                None => forall|k: int|
                    0 <= k < self.pkgs_by_name@.len() ==> self.pkgs_by_name@[k].name@ != name@,
            },
    {
        let mut k: usize = 0;
        while k < self.pkgs_by_name.len()
            invariant
                k <= self.pkgs_by_name@.len(),
                forall|q: int| 0 <= q < k ==> self.pkgs_by_name@[q].name@ != name@,
            decreases self.pkgs_by_name.len() - k,
        {
            if str_eq(self.pkgs_by_name[k].name.as_str(), name) {
                return Some(k);
            }
            k = k + 1;
        }
        None
    }

    /// Adds a package and gives it back.
    pub fn add<'a>(&'a mut self, name: &str, manager: &str, version: &str) -> (p: Package<'a>)
        requires
            old(self)@.len() < usize::MAX,
        ensures
            final(self)@ == old(self)@.push(
                PackageView { name: name@, manager: manager@, version: version@ },
            ),
            p@ == (PackageView { name: name@, manager: manager@, version: version@ }),
    {
        proof {
            use_type_invariant(&*self);
        }
        let found_manager = self.find_manager(manager);
        let found_name = self.find_name(name);
        let mut cur = InstalledPackages::new();
        std::mem::swap(&mut cur, self);
        let ghost old_self = cur;
        proof {
            use_type_invariant(&cur);
        }
        let InstalledPackages { mut managers, mut pkgs, mut pkgs_by_name, mut pkgs_by_manager } =
            cur;
        let pkg_idx = pkgs.len();
        let manager_idx = match found_manager {
            Some(m) => {
                pkgs_by_manager[m].push(pkg_idx);
                m
            },
            None => {
                let m = managers.len();
                managers.push(String::from_str(manager));
                let mut l: Vec<usize> = Vec::new();
                l.push(pkg_idx);
                pkgs_by_manager.push(l);
                m
            },
        };
        match found_name {
            Some(k) => {
                pkgs_by_name[k].indices.push(pkg_idx);
            },
            None => {
                let mut l: Vec<usize> = Vec::new();
                l.push(pkg_idx);
                pkgs_by_name.push(NameIndex { name: String::from_str(name), indices: l });
            },
        }
        pkgs.push(
            PackageInner {
                manager_idx,
                name: String::from_str(name),
                version: String::from_str(version),
            },
        );
        proof {
            let next = InstalledPackages { managers, pkgs, pkgs_by_name, pkgs_by_manager };
            next.lemma_add_wf(old_self, pkg_idx, manager_idx as int, name@);
            assert(next@ =~= old_self@.push(
                PackageView { name: name@, manager: manager@, version: version@ },
            ));
        }
        *self = InstalledPackages { managers, pkgs, pkgs_by_name, pkgs_by_manager };
        proof {
            use_type_invariant(&*self);
        }
        Package { container: self, index: pkg_idx }
    }

    proof fn lemma_add_wf(&self, old_self: InstalledPackages, n: usize, mi: int, name: Seq<char>)
        requires
            old_self.wf(),
            n == old_self.pkgs@.len(),
            self.pkgs@.len() == n + 1,
            forall|i: int| 0 <= i < n ==> self.pkgs@[i] == old_self.pkgs@[i],
            self.pkgs@[n as int].manager_idx == mi,
            self.pkgs@[n as int].name@ == name,
            0 <= mi < self.managers@.len(),
            self.managers@.len() == old_self.managers@.len() || self.managers@.len()
                == old_self.managers@.len() + 1,
            forall|m: int|
                0 <= m < old_self.managers@.len() ==> self.managers@[m] == old_self.managers@[m],
            mi < old_self.managers@.len() ==> self.managers@.len() == old_self.managers@.len(),
            mi == old_self.managers@.len() ==> self.managers@.len() == old_self.managers@.len() + 1,
            mi == old_self.managers@.len() ==> forall|m: int|
                0 <= m < old_self.managers@.len() ==> old_self.managers@[m]@
                    != self.managers@[mi]@,
            self.pkgs_by_manager@.len() == self.managers@.len(),
            forall|m: int|
                0 <= m < old_self.managers@.len() && m != mi ==> self.pkgs_by_manager@[m]
                    == old_self.pkgs_by_manager@[m],
            mi < old_self.managers@.len() ==> self.pkgs_by_manager@[mi]@
                == old_self.pkgs_by_manager@[mi]@.push(n),
            mi == old_self.managers@.len() ==> self.pkgs_by_manager@[mi]@ == seq![n],
            ({
                let ob = old_self.pkgs_by_name@;
                let nb = self.pkgs_by_name@;
                ||| exists|k: int|
                    {
                        &&& 0 <= k < ob.len()
                        &&& ob[k].name@ == name
                        &&& nb.len() == ob.len()
                        &&& nb[k].name == ob[k].name
                        &&& nb[k].indices@ == ob[k].indices@.push(n)
                        &&& forall|q: int| 0 <= q < ob.len() && q != k ==> nb[q] == ob[q]
                    }
                ||| {
                    &&& forall|q: int| 0 <= q < ob.len() ==> ob[q].name@ != name
                    &&& nb.len() == ob.len() + 1
                    &&& forall|q: int| 0 <= q < ob.len() ==> nb[q] == ob[q]
                    &&& nb[ob.len() as int].name@ == name
                    &&& nb[ob.len() as int].indices@ == seq![n]
                }
            }),
        ensures
            self.wf(),
    {
        assert forall|i: int| 0 <= i < self.pkgs@.len() implies (#[trigger] self.pkgs@[i]).manager_idx
            < self.managers@.len() by {
            if i < n {
                assert(old_self.pkgs@[i] == self.pkgs@[i]);
            }
        }
        assert forall|a: int, b: int|
            0 <= a < b < self.managers@.len() implies self.managers@[a]@ != self.managers@[b]@ by {
            if b == old_self.managers@.len() {
                assert(b == mi);
            }
        }
        assert forall|m: int| 0 <= m < self.managers@.len() implies #[trigger] self.manager_entry_wf(
            m,
        ) by {
            let l = self.pkgs_by_manager@[m]@;
            if m == mi {
                if mi < old_self.managers@.len() {
                    assert(old_self.manager_entry_wf(m));
                    let ol = old_self.pkgs_by_manager@[m]@;
                    assert forall|j: int| 0 <= j < l.len() implies (#[trigger] l[j])
                        < self.pkgs@.len() && self.pkgs@[l[j] as int].manager_idx == m by {
                        if j < ol.len() {
                            assert(l[j] == ol[j]);
                            assert(old_self.pkgs@[ol[j] as int] == self.pkgs@[ol[j] as int]);
                        } else {
                            assert(l[j] == n);
                        }
                    }
                    assert forall|i: int|
                        0 <= i < self.pkgs@.len() && (#[trigger] self.pkgs@[i]).manager_idx
                            == m implies l.contains(i as usize) by {
                        if i < n {
                            assert(old_self.pkgs@[i] == self.pkgs@[i]);
                            assert(ol.contains(i as usize));
                            let j = choose|j: int| 0 <= j < ol.len() && ol[j] == i as usize;
                            assert(l[j] == i as usize);
                        } else {
                            assert(l[ol.len() as int] == i as usize);
                        }
                    }
                    assert forall|a: int, b: int| 0 <= a < b < l.len() implies l[a] < l[b] by {
                        if b < ol.len() {
                            assert(l[a] == ol[a]);
                            assert(l[b] == ol[b]);
                        } else {
                            assert(l[a] == ol[a]);
                            assert(ol[a] < n);
                            assert(l[b] == n);
                        }
                    }
                } else {
                    assert forall|i: int|
                        0 <= i < self.pkgs@.len() && (#[trigger] self.pkgs@[i]).manager_idx
                            == m implies l.contains(i as usize) by {
                        if i < n {
                            assert(old_self.pkgs@[i] == self.pkgs@[i]);
                        } else {
                            assert(l[0] == i as usize);
                        }
                    }
                }
            } else {
                assert(old_self.manager_entry_wf(m));
                assert(l == old_self.pkgs_by_manager@[m]@);
                assert forall|j: int| 0 <= j < l.len() implies (#[trigger] l[j]) < self.pkgs@.len()
                    && self.pkgs@[l[j] as int].manager_idx == m by {
                    assert(old_self.pkgs@[l[j] as int] == self.pkgs@[l[j] as int]);
                }
                assert forall|i: int|
                    0 <= i < self.pkgs@.len() && (#[trigger] self.pkgs@[i]).manager_idx
                        == m implies l.contains(i as usize) by {
                    if i < n {
                        assert(old_self.pkgs@[i] == self.pkgs@[i]);
                    }
                }
            }
        }
        assert forall|a: int, b: int|
            #![trigger self.pkgs_by_manager@[a], self.pkgs_by_manager@[b]]
            0 <= a < b < self.managers@.len() implies self.pkgs_by_manager@[a]@[0]
                < self.pkgs_by_manager@[b]@[0] by {
            let oa = old_self.pkgs_by_manager@[a]@;
            assert(old_self.manager_entry_wf(a));
            assert(oa[0] < n);
            assert(self.pkgs_by_manager@[a]@[0] == oa[0]);
            if b < old_self.managers@.len() {
                assert(old_self.manager_entry_wf(b));
                assert(self.pkgs_by_manager@[b]@[0] == old_self.pkgs_by_manager@[b]@[0]);
                assert(old_self.pkgs_by_manager@[a]@[0] < old_self.pkgs_by_manager@[b]@[0]);
            } else {
                assert(b == mi);
                assert(self.pkgs_by_manager@[b]@[0] == n);
            }
        }
        let ob = old_self.pkgs_by_name@;
        let nb = self.pkgs_by_name@;
        assert forall|k: int| 0 <= k < nb.len() implies #[trigger] self.name_entry_wf(k) by {
            let e = nb[k];
            if k < ob.len() && nb[k] == ob[k] {
                assert(old_self.name_entry_wf(k));
                assert forall|j: int| 0 <= j < e.indices@.len() implies (#[trigger] e.indices@[j])
                    < self.pkgs@.len() && self.pkgs@[e.indices@[j] as int].name@ == e.name@ by {
                    assert(old_self.pkgs@[e.indices@[j] as int] == self.pkgs@[e.indices@[j] as int]);
                }
                assert forall|i: int|
                    0 <= i < self.pkgs@.len() && (#[trigger] self.pkgs@[i]).name@
                        == e.name@ implies e.indices@.contains(i as usize) by {
                    if i < n {
                        assert(old_self.pkgs@[i] == self.pkgs@[i]);
                    } else {
                        assert(e.name@ != name) by {
                            if e.name@ == name {
                                if nb.len() == ob.len() {
                                    let kk = choose|kk: int|
                                        {
                                            &&& 0 <= kk < ob.len()
                                            &&& ob[kk].name@ == name
                                            &&& nb.len() == ob.len()
                                            &&& nb[kk].name == ob[kk].name
                                            &&& nb[kk].indices@ == ob[kk].indices@.push(n)
                                            &&& forall|q: int|
                                                0 <= q < ob.len() && q != kk ==> nb[q] == ob[q]
                                        };
                                    if kk != k {
                                        assert(ob[kk].name@ == ob[k].name@);
                                    } else {
                                        assert(nb[k].indices@.len() == ob[k].indices@.len() + 1);
                                    }
                                }
                            }
                        }
                    }
                }
            } else if k < ob.len() {
                assert(old_self.name_entry_wf(k));
                let oe = ob[k];
                assert(nb.len() == ob.len());
                assert(oe.name@ == name);
                assert(e.indices@ == oe.indices@.push(n));
                assert forall|j: int| 0 <= j < e.indices@.len() implies (#[trigger] e.indices@[j])
                    < self.pkgs@.len() && self.pkgs@[e.indices@[j] as int].name@ == e.name@ by {
                    if j < oe.indices@.len() {
                        assert(e.indices@[j] == oe.indices@[j]);
                        assert(old_self.pkgs@[oe.indices@[j] as int]
                            == self.pkgs@[oe.indices@[j] as int]);
                    }
                }
                assert forall|i: int|
                    0 <= i < self.pkgs@.len() && (#[trigger] self.pkgs@[i]).name@
                        == e.name@ implies e.indices@.contains(i as usize) by {
                    if i < n {
                        assert(old_self.pkgs@[i] == self.pkgs@[i]);
                        assert(oe.indices@.contains(i as usize));
                        let j = choose|j: int|
                            0 <= j < oe.indices@.len() && oe.indices@[j] == i as usize;
                        assert(e.indices@[j] == i as usize);
                    } else {
                        assert(e.indices@[oe.indices@.len() as int] == i as usize);
                    }
                }
                assert forall|a: int, b: int|
                    0 <= a < b < e.indices@.len() implies e.indices@[a] < e.indices@[b] by {
                    if b < oe.indices@.len() {
                        assert(e.indices@[a] == oe.indices@[a]);
                        assert(e.indices@[b] == oe.indices@[b]);
                    } else {
                        assert(e.indices@[a] == oe.indices@[a]);
                        assert(oe.indices@[a] < n);
                    }
                }
            } else {
                assert(k == ob.len());
                assert(e.name@ == name);
                assert forall|i: int|
                    0 <= i < self.pkgs@.len() && (#[trigger] self.pkgs@[i]).name@
                        == e.name@ implies e.indices@.contains(i as usize) by {
                    if i < n {
                        assert(old_self.pkgs@[i] == self.pkgs@[i]);
                        let kk = choose|kk: int|
                            0 <= kk < ob.len() && #[trigger] ob[kk].name@ == old_self.pkgs@[i].name@;
                        assert(false);
                    } else {
                        assert(e.indices@[0] == i as usize);
                    }
                }
            }
        }
        assert forall|a: int, b: int|
            0 <= a < b < nb.len() implies nb[a].name@ != nb[b].name@ by {
            if b < ob.len() {
                if nb.len() == ob.len() {
                    let kk = choose|kk: int|
                        {
                            &&& 0 <= kk < ob.len()
                            &&& ob[kk].name@ == name
                            &&& nb.len() == ob.len()
                            &&& nb[kk].name == ob[kk].name
                            &&& nb[kk].indices@ == ob[kk].indices@.push(n)
                            &&& forall|q: int| 0 <= q < ob.len() && q != kk ==> nb[q] == ob[q]
                        };
                    assert(nb[a].name == ob[a].name);
                    assert(nb[b].name == ob[b].name);
                } else {
                    assert(nb[a] == ob[a]);
                    assert(nb[b] == ob[b]);
                }
            } else {
                assert(nb[a] == ob[a]);
            }
        }
        assert forall|i: int| 0 <= i < self.pkgs@.len() implies exists|k: int|
            0 <= k < nb.len() && #[trigger] nb[k].name@ == (#[trigger] self.pkgs@[i]).name@ by {
            if i < n {
                assert(old_self.pkgs@[i] == self.pkgs@[i]);
                let k = choose|k: int|
                    0 <= k < ob.len() && #[trigger] ob[k].name@ == old_self.pkgs@[i].name@;
                if nb.len() == ob.len() {
                    let kk = choose|kk: int|
                        {
                            &&& 0 <= kk < ob.len()
                            &&& ob[kk].name@ == name
                            &&& nb.len() == ob.len()
                            &&& nb[kk].name == ob[kk].name
                            &&& nb[kk].indices@ == ob[kk].indices@.push(n)
                            &&& forall|q: int| 0 <= q < ob.len() && q != kk ==> nb[q] == ob[q]
                        };
                    assert(nb[k].name == ob[k].name);
                } else {
                    assert(nb[k] == ob[k]);
                }
            } else {
                if nb.len() == ob.len() {
                    let kk = choose|kk: int|
                        {
                            &&& 0 <= kk < ob.len()
                            &&& ob[kk].name@ == name
                            &&& nb.len() == ob.len()
                            &&& nb[kk].name == ob[kk].name
                            &&& nb[kk].indices@ == ob[kk].indices@.push(n)
                            &&& forall|q: int| 0 <= q < ob.len() && q != kk ==> nb[q] == ob[q]
                        };
                    assert(nb[kk].name@ == self.pkgs@[i].name@);
                } else {
                    assert(nb[ob.len() as int].name@ == self.pkgs@[i].name@);
                }
            }
        }
    }

    /// The earliest added package called `name`, of version `version` when one is given.
    fn find(&self, name: &str, version: Option<&str>) -> (r: Option<usize>)
        requires
            self.wf(),
        ensures
            match r {
                Some(p) => is_first_match(self@, p as int, name@, opt_view(version)),
                None => !has_match(self@, name@, opt_view(version)),
            },
    {
        let ghost ver = opt_view(version);
        let k = match self.find_name(name) {
            Some(k) => k,
            None => {
                assert forall|p: int| 0 <= p < self@.len() implies !matches(
                    self@,
                    p,
                    name@,
                    ver,
                ) by {
                    let kk = choose|kk: int|
                        0 <= kk < self.pkgs_by_name@.len() && #[trigger] self.pkgs_by_name@[kk].name@
                            == self.pkgs@[p].name@;
                    assert(self.pkgs_by_name@[kk].name@ != name@);
                }
                return None;
            },
        };
        assert(self.name_entry_wf(k as int));
        let idxs = &self.pkgs_by_name[k].indices;
        let mut j: usize = 0;
        while j < idxs.len()
            invariant
                self.wf(),
                k < self.pkgs_by_name@.len(),
                self.name_entry_wf(k as int),
                idxs == &self.pkgs_by_name@[k as int].indices,
                self.pkgs_by_name@[k as int].name@ == name@,
                ver == opt_view(version),
                j <= idxs@.len(),
                forall|q: int| 0 <= q < j ==> !matches(self@, idxs@[q] as int, name@, ver),
            decreases idxs.len() - j,
        {
            let p = idxs[j];
            let pass = match version {
                Some(v) => str_eq(self.pkgs[p].version.as_str(), v),
                None => true,
            };
            if pass {
                assert forall|q: int| 0 <= q < p implies !matches(self@, q, name@, ver) by {
                    if self.pkgs@[q].name@ == name@ {
                        assert(idxs@.contains(q as usize));
                        let jj = choose|jj: int| 0 <= jj < idxs@.len() && idxs@[jj] == q as usize;
                        if jj >= j {
                            if jj > j {
                                assert(idxs@[j as int] < idxs@[jj]);
                            }
                        }
                    }
                }
                return Some(p);
            }
            j = j + 1;
        }
        assert(j == idxs@.len());
        assert forall|p: int| 0 <= p < self@.len() implies !matches(self@, p, name@, ver) by {
            assert(self@[p].name == self.pkgs@[p].name@);
            assert(p < self.pkgs.len());
            if self.pkgs@[p].name@ == name@ {
                assert(idxs@.contains(p as usize));
                let jj = choose|jj: int| 0 <= jj < idxs@.len() && idxs@[jj] == p as usize;
                assert(!matches(self@, idxs@[jj] as int, name@, ver));
            }
        }
        None
    }

    /// The earliest added package called `name`, of any version.
    pub fn get_any_version(&self, name: &str) -> (r: Option<Package<'_>>)
        ensures
            match r {
                Some(p) => exists|i: int| is_first_match(self@, i, name@, None) && p@ == self@[i],
                None => !has_match(self@, name@, None),
            },
    {
        proof {
            use_type_invariant(self);
        }
        match self.find(name, None) {
            Some(p) => Some(Package { container: self, index: p }),
            None => None,
        }
    }

    /// The earliest added package called `name` of version `version`.
    pub fn get(&self, name: &str, version: &str) -> (r: Option<Package<'_>>)
        ensures
            match r {
                Some(p) => exists|i: int|
                    is_first_match(self@, i, name@, Some(version@)) && p@ == self@[i],
                None => !has_match(self@, name@, Some(version@)),
            },
    {
        proof {
            use_type_invariant(self);
        }
        match self.find(name, Some(version)) {
            Some(p) => Some(Package { container: self, index: p }),
            None => None,
        }
    }

    /// The packages, in the order they were added.
    pub fn iter(&self) -> (r: Vec<Package<'_>>)
        ensures
            r@.len() == self@.len(),
            forall|i: int| 0 <= i < r@.len() ==> (#[trigger] r@[i])@ == self@[i],
    {
        proof {
            use_type_invariant(self);
        }
        let mut r: Vec<Package<'_>> = Vec::new();
        let mut i: usize = 0;
        while i < self.pkgs.len()
            invariant
                self.wf(),
                i <= self.pkgs@.len(),
                r@.len() == i,
                forall|j: int| 0 <= j < i ==> (#[trigger] r@[j])@ == self@[j],
            decreases self.pkgs.len() - i,
        {
            r.push(Package { container: self, index: i });
            i = i + 1;
        }
        r
    }

    /// The number of packages.
    pub fn len(&self) -> (n: usize)
        ensures
            n == self@.len(),
    {
        self.pkgs.len()
    }
}

/// One installed package.
pub struct Package<'a> {
    container: &'a InstalledPackages,
    index: usize,
}

impl<'a> Package<'a> {
    #[verifier::type_invariant]
    spec fn inv(self) -> bool {
        &&& self.container.wf()
        &&& self.index < self.container.pkgs@.len()
    }
}

impl<'a> View for Package<'a> {
    type V = PackageView;

    closed spec fn view(&self) -> PackageView {
        self.container@[self.index as int]
    }
}

impl<'a> Package<'a> {
    /// The manager this package is installed under.
    pub fn manager(&self) -> (s: &'a str)
        ensures
            s@ == self@.manager,
    {
        proof {
            use_type_invariant(self);
        }
        let c: &'a InstalledPackages = self.container;
        let mi = c.pkgs[self.index].manager_idx;
        c.managers[mi].as_str()
    }

    /// The name of this package.
    pub fn name(&self) -> (s: &'a str)
        ensures
            s@ == self@.name,
    {
        proof {
            use_type_invariant(self);
        }
        let c: &'a InstalledPackages = self.container;
        c.pkgs[self.index].name.as_str()
    }

    /// The version of this package.
    pub fn version(&self) -> (s: &'a str)
        ensures
            s@ == self@.version,
    {
        proof {
            use_type_invariant(self);
        }
        let c: &'a InstalledPackages = self.container;
        c.pkgs[self.index].version.as_str()
    }
}


/// The `Debug` text of a package: a struct of its name, version and manager.
pub open spec fn package_text(p: PackageView, pretty: bool) -> Seq<char> {
    "Package"@ + field_piece(false, pretty, "name"@, str_debug(p.name)) + field_piece(
        true,
        pretty,
        "version"@,
        str_debug(p.version),
    ) + field_piece(true, pretty, "manager"@, str_debug(p.manager)) + finish_piece(true, pretty)
}

/// The `Debug` text of a package list with managers `ms` and packages `v`:
/// a struct of the list of managers and the list of packages.
pub open spec fn packages_text(ms: Seq<Seq<char>>, v: Seq<PackageView>, pretty: bool) -> Seq<char> {
    "Packages"@ + field_piece(
        false,
        pretty,
        "managers"@,
        list_text(Seq::new(ms.len(), |i: int| str_debug(ms[i])), pretty),
    ) + field_piece(
        true,
        pretty,
        "pkgs"@,
        list_text(Seq::new(v.len(), |i: int| package_text(v[i], pretty)), pretty),
    ) + finish_piece(true, pretty)
}

impl<'a> Package<'a> {
    /// The `Debug` text of this package; `pretty` selects the `{:#?}` form.
    pub fn debug_text(&self, pretty: bool) -> (s: String)
        ensures
            s@ == package_text(self@, pretty),
    {
        let mut out = String::new();
        push_str(&mut out, "Package");
        let n = debug_str(self.name());
        push_field(&mut out, false, pretty, "name", n.as_str());
        let v = debug_str(self.version());
        push_field(&mut out, true, pretty, "version", v.as_str());
        let m = debug_str(self.manager());
        push_field(&mut out, true, pretty, "manager", m.as_str());
        push_finish(&mut out, true, pretty);
        assert(out@ =~= package_text(self@, pretty));
        out
    }
}

impl<'a> PartialEq for Package<'a> {
    fn eq(&self, other: &Self) -> (r: bool) {
        str_eq(self.name(), other.name()) && str_eq(self.version(), other.version()) && str_eq(
            self.manager(),
            other.manager(),
        )
    }
}

impl<'a> vstd::std_specs::cmp::PartialEqSpecImpl for Package<'a> {
    open spec fn obeys_eq_spec() -> bool {
        true
    }

    open spec fn eq_spec(&self, other: &Self) -> bool {
        self@ == other@
    }
}

impl<'a> Eq for Package<'a> {}

impl InstalledPackages {
    /// The `Debug` text of the package list; `pretty` selects the `{:#?}` form.
    pub fn debug_text(&self, pretty: bool) -> (s: String)
        ensures
            s@ == packages_text(self.managers(), self@, pretty),
    {
        proof {
            use_type_invariant(self);
        }
        let mut out = String::new();
        push_str(&mut out, "Packages");
        let ms = debug_string_list(&self.managers, pretty);
        assert(Seq::new(self.managers@.len(), |i: int| str_debug(self.managers@[i]@)) =~= Seq::new(
            self.managers().len(),
            |i: int| str_debug(self.managers()[i]),
        ));
        push_field(&mut out, false, pretty, "managers", ms.as_str());
        let ghost texts = Seq::new(self@.len(), |i: int| package_text(self@[i], pretty));
        let mut list = String::new();
        push_str(&mut list, "[");
        let mut i: usize = 0;
        while i < self.pkgs.len()
            invariant
                self.wf(),
                i <= self@.len(),
                self@.len() == self.pkgs@.len(),
                texts == Seq::new(self@.len(), |i: int| package_text(self@[i], pretty)),
                list@ == "["@ + entries_text(texts.subrange(0, i as int), pretty),
            decreases self.pkgs.len() - i,
        {
            let p = Package { container: self, index: i };
            let t = p.debug_text(pretty);
            push_entry(&mut list, i > 0, pretty, t.as_str());
            proof {
                assert(texts.subrange(0, i + 1).drop_last() =~= texts.subrange(0, i as int));
            }
            i = i + 1;
        }
        assert(texts.subrange(0, i as int) =~= texts);
        push_str(&mut list, "]");
        push_field(&mut out, true, pretty, "pkgs", list.as_str());
        push_finish(&mut out, true, pretty);
        assert(out@ =~= packages_text(self.managers(), self@, pretty));
        out
    }
}

/// A package that was just added is found again by its name, and by its
/// name and version; when no earlier package has that name and version, the
/// lookup by both gives back the added one.
pub proof fn lemma_added_is_found(v: Seq<PackageView>, p: PackageView)
    ensures
        has_match(v.push(p), p.name, None),
        has_match(v.push(p), p.name, Some(p.version)),
        !has_match(v, p.name, Some(p.version)) ==> is_first_match(
            v.push(p),
            v.len() as int,
            p.name,
            Some(p.version),
        ),
{
    let w = v.push(p);
    assert(matches(w, v.len() as int, p.name, None));
    assert(matches(w, v.len() as int, p.name, Some(p.version)));
    if !has_match(v, p.name, Some(p.version)) {
        assert forall|q: int| 0 <= q < v.len() implies !matches(w, q, p.name, Some(p.version)) by {
            assert(w[q] == v[q]);
            if matches(w, q, p.name, Some(p.version)) {
                assert(matches(v, q, p.name, Some(p.version)));
            }
        }
    }
}

/// Whether `k` is the first position in `v` of a package installed under `mgr`.
pub open spec fn first_position(v: Seq<PackageView>, mgr: Seq<char>, k: int) -> bool {
    &&& 0 <= k < v.len()
    &&& v[k].manager == mgr
    &&& forall|j: int| 0 <= j < k ==> v[j].manager != mgr
}

/// The managers of a package list are those of its packages, each listed
/// once, in the order in which they first appear among the packages.
pub proof fn lemma_managers_first_appearance(p: &InstalledPackages)
    requires
        p.wf(),
    ensures
        forall|a: int, b: int|
            0 <= a < b < p.managers().len() ==> p.managers()[a] != p.managers()[b],
        forall|i: int| 0 <= i < p@.len() ==> p.managers().contains(#[trigger] p@[i].manager),
        forall|m: int|
            0 <= m < p.managers().len() ==> first_position(
                p@,
                p.managers()[m],
                #[trigger] p.first_package(m),
            ),
        forall|a: int, b: int|
            0 <= a < b < p.managers().len() ==> #[trigger] p.first_package(a)
                < #[trigger] p.first_package(b),
{
    assert forall|a: int, b: int|
        0 <= a < b < p.managers().len() implies p.managers()[a] != p.managers()[b] by {
        assert(p.managers()[a] == p.managers@[a]@);
        assert(p.managers()[b] == p.managers@[b]@);
    }
    assert forall|i: int| 0 <= i < p@.len() implies p.managers().contains(
        #[trigger] p@[i].manager,
    ) by {
        let k = p.pkgs@[i].manager_idx as int;
        assert(p.managers()[k] == p@[i].manager);
    }
    assert forall|m: int| 0 <= m < p.managers().len() implies first_position(
        p@,
        p.managers()[m],
        #[trigger] p.first_package(m),
    ) by {
        assert(p.manager_entry_wf(m));
        let l = p.pkgs_by_manager@[m]@;
        let k = l[0] as int;
        assert(p@[k].manager == p.managers()[m]);
        assert forall|j: int| 0 <= j < k implies p@[j].manager != p.managers()[m] by {
            if p@[j].manager == p.managers()[m] {
                let mj = p.pkgs@[j].manager_idx as int;
                if mj != m {
                    if mj < m {
                        assert(p.managers@[mj]@ != p.managers@[m]@);
                    } else {
                        assert(p.managers@[m]@ != p.managers@[mj]@);
                    }
                }
                assert(l.contains(j as usize));
                let q = choose|q: int| 0 <= q < l.len() && l[q] == j as usize;
                if q > 0 {
                    assert(l[0] < l[q]);
                }
            }
        }
    }
    assert forall|a: int, b: int|
        0 <= a < b < p.managers().len() implies #[trigger] p.first_package(a)
            < #[trigger] p.first_package(b) by {
        assert(p.pkgs_by_manager@[a]@[0] < p.pkgs_by_manager@[b]@[0]);
    }
}

} // verus!
