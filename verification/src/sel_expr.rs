//! Selection expressions: which machines a job may run on.
use vstd::prelude::*;

use crate::machine::{Arch, MachineDesc};
use crate::memory::Memory;
use crate::packages::has_match;
use crate::counting::{count_true, lemma_count_true_bounds, lemma_count_true_one};
use crate::text::{owned, str_eq};

verus! {

/// What to do when an expression fails.
#[derive(Debug, Clone, Copy, PartialEq, Eq, Structural)]
pub enum SelExprFailKind {
    Nothing,
    Explain,
    Warn,
    Ignore,
}

impl Default for SelExprFailKind {
    fn default() -> (k: SelExprFailKind)
        ensures
            k == SelExprFailKind::Nothing,
    {
        SelExprFailKind::Nothing
    }
}

impl SelExprFailKind {
    /// Returns `true` if the fail kind is `Nothing`.
    pub fn is_nothing(&self) -> (r: bool)
        ensures
            r == (*self == SelExprFailKind::Nothing),
    {
        match self {
            SelExprFailKind::Nothing => true,
            _ => false,
        }
    }
}

/// A predicate on machines.
pub enum SelExpr {
    AnyOf { fail: SelExprFailKind, items: Vec<SelExpr> },
    AllOf { fail: SelExprFailKind, items: Vec<SelExpr> },
    OneOf { fail: SelExprFailKind, items: Vec<SelExpr> },
    Implication { fail: SelExprFailKind, antecedent: Box<SelExpr>, consequent: Box<SelExpr> },
    Os { fail: SelExprFailKind, id: Option<String>, version_id: Option<String> },
    Uname {
        fail: SelExprFailKind,
        name: Option<String>,
        machine: Option<Arch>,
        release: Option<String>,
        version: Option<String>,
        operating_system: Option<String>,
        nodename: Option<String>,
    },
    Package { fail: SelExprFailKind, name: String },
}

/// Whether `e1` and `e2` are the same expression but for their fail kinds,
/// at any depth.
pub open spec fn same_but_fail(e1: SelExpr, e2: SelExpr) -> bool
    decreases e1,
{
    match (e1, e2) {
        (SelExpr::AnyOf { items: a, .. }, SelExpr::AnyOf { items: b, .. }) => all_same_but_fail(
            a@,
            b@,
        ),
        (SelExpr::AllOf { items: a, .. }, SelExpr::AllOf { items: b, .. }) => all_same_but_fail(
            a@,
            b@,
        ),
        (SelExpr::OneOf { items: a, .. }, SelExpr::OneOf { items: b, .. }) => all_same_but_fail(
            a@,
            b@,
        ),
        (
            SelExpr::Implication { antecedent: a1, consequent: c1, .. },
            SelExpr::Implication { antecedent: a2, consequent: c2, .. },
        ) => same_but_fail(*a1, *a2) && same_but_fail(*c1, *c2),
        (
            SelExpr::Os { id: i1, version_id: v1, .. },
            SelExpr::Os { id: i2, version_id: v2, .. },
        ) => i1 == i2 && v1 == v2,
        (
            SelExpr::Uname {
                name: n1,
                machine: ma1,
                release: r1,
                version: v1,
                operating_system: o1,
                nodename: d1,
                ..
            },
            SelExpr::Uname {
                name: n2,
                machine: ma2,
                release: r2,
                version: v2,
                operating_system: o2,
                nodename: d2,
                ..
            },
        ) => n1 == n2 && ma1 == ma2 && r1 == r2 && v1 == v2 && o1 == o2 && d1 == d2,
        (SelExpr::Package { name: n1, .. }, SelExpr::Package { name: n2, .. }) => n1 == n2,
        _ => false,
    }
}

/// Whether two lists of expressions are the same, item by item, but for
/// their fail kinds.
pub open spec fn all_same_but_fail(a: Seq<SelExpr>, b: Seq<SelExpr>) -> bool
    decreases a,
{
    if a.len() == 0 {
        b.len() == 0
    } else {
        &&& b.len() == a.len()
        &&& all_same_but_fail(a.subrange(0, a.len() - 1), b.subrange(0, b.len() - 1))
        &&& same_but_fail(a[a.len() - 1], b[b.len() - 1])
    }
}

/// Whether an optional expected string is absent or equals `actual`.
pub open spec fn field_ok(expected: Option<String>, actual: Seq<char>) -> bool {
    match expected {
        Some(v) => v@ == actual,
        None => true,
    }
}

/// Whether machine `m` satisfies `e`. `any`, `all` and `one` hold when at
/// least one, every one, or exactly one of their items holds; an implication
/// holds unless its antecedent holds and its consequent does not; an `os` or
/// `uname` test holds when each field it names equals the machine's (the
/// `uname` name is not compared; its operating system is compared with the
/// OS name); a package test holds when a package of that name is installed.
pub open spec fn sel_holds(e: SelExpr, m: MachineDesc) -> bool
    decreases e,
{
    match e {
        SelExpr::AnyOf { items, .. } => count_holding(items@, m) > 0,
        SelExpr::AllOf { items, .. } => count_holding(items@, m) == items@.len(),
        SelExpr::OneOf { items, .. } => count_holding(items@, m) == 1,
        SelExpr::Implication { antecedent, consequent, .. } => !sel_holds(*antecedent, m)
            || sel_holds(*consequent, m),
        SelExpr::Os { id, version_id, .. } => field_ok(id, m.os.id@) && match version_id {
            Some(v) => m.os.version_id matches Some(mv) && mv@ == v@,
            None => true,
        },
        SelExpr::Uname { machine, release, version, operating_system, nodename, .. } => {
            &&& match machine {
                Some(a) => a == m.uname.machine,
                None => true,
            }
            &&& field_ok(release, m.uname.release@)
            &&& field_ok(version, m.uname.version@)
            &&& field_ok(nodename, m.uname.nodename@)
            &&& field_ok(operating_system, m.os.name@)
        },
        SelExpr::Package { name, .. } => has_match((*m.packages)@, name@, None),
    }
}

/// How many of `items` machine `m` satisfies.
pub open spec fn count_holding(items: Seq<SelExpr>, m: MachineDesc) -> nat
    decreases items,
{
    if items.len() == 0 {
        0
    } else {
        count_holding(items.subrange(0, items.len() - 1), m) + if sel_holds(
            items[items.len() - 1],
            m,
        ) {
            1nat
        } else {
            0nat
        }
    }
}

proof fn lemma_count_step(items: Seq<SelExpr>, m: MachineDesc, k: int)
    requires
        0 <= k < items.len(),
    ensures
        count_holding(items.subrange(0, k + 1), m) == count_holding(items.subrange(0, k), m) + (
        if sel_holds(items[k], m) {
            1nat
        } else {
            0nat
        }),
{
    let p = items.subrange(0, k + 1);
    assert(p.subrange(0, p.len() - 1) =~= items.subrange(0, k));
}

/// Counting over a prefix gives at most the count over the whole, and the
/// rest can add at most one per item.
proof fn lemma_count_bounds(items: Seq<SelExpr>, m: MachineDesc, k: int)
    requires
        0 <= k <= items.len(),
    ensures
        count_holding(items.subrange(0, k), m) <= count_holding(items, m),
        count_holding(items, m) <= count_holding(items.subrange(0, k), m) + (items.len() - k),
    decreases items.len() - k,
{
    if k < items.len() {
        lemma_count_bounds(items, m, k + 1);
        lemma_count_step(items, m, k);
    } else {
        assert(items.subrange(0, k) =~= items);
    }
}

fn opt_str_eq(expected: &Option<String>, actual: &String) -> (r: bool)
    ensures
        r == field_ok(*expected, actual@),
{
    match expected {
        Some(v) => str_eq(v.as_str(), actual.as_str()),
        None => true,
    }
}

impl SelExpr {
    pub fn fail_kind(&self) -> (k: SelExprFailKind)
        ensures
            k == match *self {
                SelExpr::AnyOf { fail, .. } => fail,
                SelExpr::AllOf { fail, .. } => fail,
                SelExpr::OneOf { fail, .. } => fail,
                SelExpr::Implication { fail, .. } => fail,
                SelExpr::Os { fail, .. } => fail,
                SelExpr::Uname { fail, .. } => fail,
                SelExpr::Package { fail, .. } => fail,
            },
    {
        match self {
            SelExpr::AnyOf { fail, .. } => *fail,
            SelExpr::AllOf { fail, .. } => *fail,
            SelExpr::OneOf { fail, .. } => *fail,
            SelExpr::Os { fail, .. } => *fail,
            SelExpr::Uname { fail, .. } => *fail,
            SelExpr::Implication { fail, .. } => *fail,
            SelExpr::Package { fail, .. } => *fail,
        }
    }

    /// Whether machine `m` satisfies this expression.
    #[verifier::loop_isolation(false)]
    pub fn test_machine(&self, m: &MachineDesc) -> (r: bool)
        ensures
            r == sel_holds(*self, *m),
        decreases self,
    {
        match self {
            SelExpr::AnyOf { fail: _, items } => {
                let mut i: usize = 0;
                while i < items.len()
                    invariant
                        i <= items@.len(),
                        count_holding(items@.subrange(0, i as int), *m) == 0,
                    decreases items.len() - i,
                {
                    proof {
                        lemma_count_step(items@, *m, i as int);
                    }
                    if items[i].test_machine(m) {
                        proof {
                            lemma_count_bounds(items@, *m, i + 1);
                        }
                        return true;
                    }
                    i = i + 1;
                }
                assert(items@.subrange(0, i as int) =~= items@);
                false
            },
            SelExpr::AllOf { fail: _, items } => {
                let mut i: usize = 0;
                while i < items.len()
                    invariant
                        i <= items@.len(),
                        count_holding(items@.subrange(0, i as int), *m) == i,
                    decreases items.len() - i,
                {
                    proof {
                        lemma_count_step(items@, *m, i as int);
                    }
                    if !items[i].test_machine(m) {
                        proof {
                            lemma_count_bounds(items@, *m, i + 1);
                        }
                        return false;
                    }
                    i = i + 1;
                }
                assert(items@.subrange(0, i as int) =~= items@);
                true
            },
            SelExpr::OneOf { fail: _, items } => {
                let mut i: usize = 0;
                let mut passed: usize = 0;
                while i < items.len()
                    invariant
                        i <= items@.len(),
                        passed <= 1,
                        count_holding(items@.subrange(0, i as int), *m) == passed,
                    decreases items.len() - i,
                {
                    proof {
                        lemma_count_step(items@, *m, i as int);
                    }
                    if items[i].test_machine(m) {
                        if passed == 1 {
                            proof {
                                lemma_count_bounds(items@, *m, i + 1);
                            }
                            return false;
                        }
                        passed = passed + 1;
                    }
                    i = i + 1;
                }
                assert(items@.subrange(0, i as int) =~= items@);
                passed == 1
            },
            SelExpr::Implication { fail: _, antecedent, consequent } => {
                !antecedent.test_machine(m) || consequent.test_machine(m)
            },
            SelExpr::Os { fail: _, id, version_id } => {
                opt_str_eq(id, &m.os.id) && match version_id {
                    Some(vid) => match &m.os.version_id {
                        Some(mv) => str_eq(mv.as_str(), vid.as_str()),
                        None => false,
                    },
                    None => true,
                }
            },
            SelExpr::Uname {
                fail: _,
                name: _,
                machine,
                release,
                version,
                operating_system,
                nodename,
            } => {
                (match machine {
                    Some(a) => *a == m.uname.machine,
                    None => true,
                }) && opt_str_eq(release, &m.uname.release) && opt_str_eq(version, &m.uname.version)
                    && opt_str_eq(nodename, &m.uname.nodename) && opt_str_eq(
                    operating_system,
                    &m.os.name,
                )
            },
            SelExpr::Package { fail: _, name } => {
                let pkgs: &crate::packages::InstalledPackages = &m.packages;
                pkgs.get_any_version(name.as_str()).is_some()
            },
        }
    }
}

/// Memory a job needs.
#[derive(Debug, Clone, Copy, PartialEq, Eq, Structural)]
pub struct MemReq {
    pub min: Memory,
    pub peak: Memory,
    pub swappable: Memory,
}

/// One element of a machine selection.
pub enum MachineSelElem {
    Predicate(SelExpr),
    Limit(u32),
    Memory(MemReq),
}

/// Predicates that a machine must all satisfy.
pub struct Predicates {
    predicate: Vec<SelExpr>,
}

impl Predicates {
    pub fn new(predicate: Vec<SelExpr>) -> (p: Predicates)
        ensures
            p.view_items() == predicate@,
    {
        Predicates { predicate }
    }

    /// The predicates, in order.
    pub fn items(&self) -> (v: &Vec<SelExpr>)
        ensures
            v@ == self.view_items(),
    {
        &self.predicate
    }

    /// The predicates, in order.
    pub closed spec fn view_items(&self) -> Seq<SelExpr> {
        self.predicate@
    }
}

/// Which machines a job may run on, and how many.
pub struct MachineSel {
    predicate: Predicates,
    limit: Option<u32>,
    memory: MemReq,
}

/// Whether machine `m` satisfies every predicate.
pub open spec fn passes_all(preds: Seq<SelExpr>, m: MachineDesc) -> bool {
    forall|i: int| 0 <= i < preds.len() ==> sel_holds(#[trigger] preds[i], m)
}

impl MachineSel {
    pub fn new(predicate: Predicates, limit: Option<u32>, memory: MemReq) -> (s: MachineSel)
        ensures
            s.predicates() == predicate.view_items(),
            s.limit_spec() == limit,
            s.memory_spec() == memory,
    {
        MachineSel { predicate, limit, memory }
    }

    /// The predicates every selected machine satisfies.
    pub closed spec fn predicates(&self) -> Seq<SelExpr> {
        self.predicate.view_items()
    }

    /// The most machines selected, if limited.
    pub closed spec fn limit_spec(&self) -> Option<u32> {
        self.limit
    }

    /// The memory the job needs.
    pub closed spec fn memory_spec(&self) -> MemReq {
        self.memory
    }

    /// The predicates every selected machine satisfies.
    pub fn predicate(&self) -> (p: &Predicates)
        ensures
            p.view_items() == self.predicates(),
    {
        &self.predicate
    }

    pub fn limit(&self) -> (l: Option<u32>)
        ensures
            l == self.limit_spec(),
    {
        self.limit
    }

    pub fn memory(&self) -> (r: MemReq)
        ensures
            r == self.memory_spec(),
    {
        self.memory
    }

    /// Whether machine `m` satisfies every predicate of this selection.
    pub fn test_machine(&self, m: &MachineDesc) -> (r: bool)
        ensures
            r == passes_all(self.predicates(), *m),
    {
        let preds = self.predicate.items();
        let mut i: usize = 0;
        while i < preds.len()
            invariant
                i <= preds@.len(),
                preds@ == self.predicates(),
                forall|j: int| 0 <= j < i ==> sel_holds(#[trigger] preds@[j], *m),
            decreases preds.len() - i,
        {
            if !preds[i].test_machine(m) {
                return false;
            }
            i = i + 1;
        }
        true
    }

    /// Returns a selection that chooses exactly one of the named nodes.
    pub fn single_node(nodenames: &[&str]) -> (s: MachineSel)
        ensures
            s.limit_spec() == Some(1u32),
            s.memory_spec().min@ == 0,
            s.memory_spec().peak@ == 0,
            s.memory_spec().swappable@ == 0,
            s.predicates().len() == 1,
            is_single_node_pred(s.predicates()[0], nodenames@),
    {
        let mut items: Vec<SelExpr> = Vec::new();
        let mut i: usize = 0;
        while i < nodenames.len()
            invariant
                i <= nodenames@.len(),
                items@.len() == i,
                forall|j: int| 0 <= j < i ==> is_nodename_test(#[trigger] items@[j], nodenames@[j]@),
            decreases nodenames.len() - i,
        {
            items.push(
                SelExpr::Uname {
                    fail: SelExprFailKind::Nothing,
                    name: None,
                    machine: None,
                    release: None,
                    version: None,
                    operating_system: None,
                    nodename: Some(owned(nodenames[i])),
                },
            );
            i = i + 1;
        }
        let mut preds: Vec<SelExpr> = Vec::new();
        preds.push(SelExpr::AnyOf { fail: SelExprFailKind::Nothing, items });
        MachineSel {
            predicate: Predicates { predicate: preds },
            limit: Some(1),
            memory: MemReq {
                min: Memory::from_bytes(0),
                peak: Memory::from_bytes(0),
                swappable: Memory::from_bytes(0),
            },
        }
    }

    /// Starts a stateful filter over candidate machines.
    pub fn validate_machines_filter(&self) -> (f: MachineFilter<'_>)
        ensures
            f.remaining() == self.limit_spec(),
            f.selection() == *self,
    {
        MachineFilter { sel: self, limit: self.limit }
    }

    /// The machines of `machines` that satisfy every predicate, in order,
    /// up to the limit.
    pub fn validate_machines<'a>(&self, machines: &[&'a MachineDesc]) -> (r: Vec<&'a MachineDesc>)
        ensures
            r@ == selected(self.predicates(), self.limit_spec(), machines@),
    {
        let mut filter = self.validate_machines_filter();
        let mut r: Vec<&'a MachineDesc> = Vec::new();
        let mut i: usize = 0;
        assert(machines@.subrange(0, machines@.len() as int) =~= machines@);
        assert(r@ + selected(self.predicates(), filter.remaining(), machines@) =~= selected(
            self.predicates(),
            self.limit_spec(),
            machines@,
        ));
        while i < machines.len()
            invariant
                i <= machines@.len(),
                filter.selection() == *self,
                r@ + selected(self.predicates(), filter.remaining(), machines@.subrange(
                    i as int,
                    machines@.len() as int,
                )) == selected(self.predicates(), self.limit_spec(), machines@),
            decreases machines.len() - i,
        {
            let ghost before = filter.remaining();
            let ghost rest = machines@.subrange(i as int, machines@.len() as int);
            assert(rest.drop_first() =~= machines@.subrange(i + 1, machines@.len() as int));
            let m = machines[i];
            if filter.call(m) {
                r.push(m);
                assert(r@ + selected(self.predicates(), filter.remaining(), rest.drop_first())
                    =~= r@.drop_last() + selected(self.predicates(), before, rest));
            }
            i = i + 1;
        }
        assert(selected(self.predicates(), filter.remaining(), machines@.subrange(
            i as int,
            machines@.len() as int,
        )) =~= Seq::<&MachineDesc>::empty());
        assert(r@ + Seq::<&MachineDesc>::empty() =~= r@);
        r
    }
}

/// Whether `e` is the test that a machine has node name `name`.
pub open spec fn is_nodename_test(e: SelExpr, name: Seq<char>) -> bool {
    match e {
        SelExpr::Uname {
            fail,
            name: uname_name,
            machine,
            release,
            version,
            operating_system,
            nodename,
        } => {
            &&& fail == SelExprFailKind::Nothing
            &&& uname_name is None
            &&& machine is None
            &&& release is None
            &&& version is None
            &&& operating_system is None
            &&& nodename matches Some(n) && n@ == name
        },
        _ => false,
    }
}

/// Whether `e` holds exactly when the machine has one of `names` as its node name.
pub open spec fn is_single_node_pred(e: SelExpr, names: Seq<&str>) -> bool {
    match e {
        SelExpr::AnyOf { fail, items } => {
            &&& fail == SelExprFailKind::Nothing
            &&& items@.len() == names.len()
            &&& forall|i: int| 0 <= i < names.len() ==> is_nodename_test(#[trigger] items@[i], names[i]@)
        },
        _ => false,
    }
}

/// The machines of `ms` that satisfy every predicate, in order, at most
/// `limit` of them when there is a limit.
pub open spec fn selected(preds: Seq<SelExpr>, limit: Option<u32>, ms: Seq<&MachineDesc>) -> Seq<
    &MachineDesc,
>
    decreases ms.len(),
{
    if ms.len() == 0 || limit == Some(0u32) {
        Seq::empty()
    } else if passes_all(preds, *ms[0]) {
        seq![ms[0]] + selected(
            preds,
            match limit {
                Some(l) => Some((l - 1) as u32),
                None => None,
            },
            ms.drop_first(),
        )
    } else {
        selected(preds, limit, ms.drop_first())
    }
}

/// One step of the stateful filter: whether machine `m` passes, given the
/// selection's predicates and how many more may pass (`rem`), and how many
/// may pass after it. Nothing passes once the limit is used up; a passing
/// machine uses up one of it.
pub open spec fn filter_step(preds: Seq<SelExpr>, rem: Option<u32>, m: MachineDesc) -> (
    bool,
    Option<u32>,
) {
    if rem == Some(0u32) {
        (false, rem)
    } else if passes_all(preds, m) {
        (
            true,
            match rem {
                Some(l) => Some((l - 1) as u32),
                None => None,
            },
        )
    } else {
        (false, rem)
    }
}

/// How many more may pass after a fresh filter with limit `limit` has been
/// called on `ms`, in order.
pub open spec fn filter_state(preds: Seq<SelExpr>, limit: Option<u32>, ms: Seq<MachineDesc>) -> Option<
    u32,
>
    decreases ms.len(),
{
    if ms.len() == 0 {
        limit
    } else {
        filter_step(preds, filter_state(preds, limit, ms.drop_last()), ms.last()).1
    }
}

/// What the calls of a fresh filter with limit `limit` on `ms`, in order, return.
pub open spec fn filter_results(preds: Seq<SelExpr>, limit: Option<u32>, ms: Seq<MachineDesc>) -> Seq<
    bool,
>
    decreases ms.len(),
{
    if ms.len() == 0 {
        Seq::empty()
    } else {
        filter_results(preds, limit, ms.drop_last()).push(
            filter_step(preds, filter_state(preds, limit, ms.drop_last()), ms.last()).0,
        )
    }
}

/// A stateful filter over candidate machines: it lets through each machine
/// that satisfies the selection, until the limit is used up.
pub struct MachineFilter<'a> {
    sel: &'a MachineSel,
    limit: Option<u32>,
}

impl<'a> MachineFilter<'a> {
    /// How many more machines may pass, if limited.
    pub closed spec fn remaining(&self) -> Option<u32> {
        self.limit
    }

    /// The selection this filter applies.
    pub closed spec fn selection(&self) -> MachineSel {
        *self.sel
    }

    /// Whether machine `m` passes; a passing machine uses up one of the limit.
    pub fn call(&mut self, m: &MachineDesc) -> (pass: bool)
        ensures
            final(self).selection() == old(self).selection(),
            (pass, final(self).remaining()) == filter_step(
                old(self).selection().predicates(),
                old(self).remaining(),
                *m,
            ),
            old(self).remaining() == Some(0u32) ==> !pass && final(self).remaining()
                == old(self).remaining(),
            old(self).remaining() != Some(0u32) ==> {
                &&& pass == passes_all(old(self).selection().predicates(), *m)
                &&& final(self).remaining() == if pass {
                    match old(self).remaining() {
                        Some(l) => Some((l - 1) as u32),
                        None => None,
                    }
                } else {
                    old(self).remaining()
                }
            },
    {
        if self.limit == Some(0u32) {
            return false;
        }
        let pass = self.sel.test_machine(m);
        if pass {
            match self.limit {
                Some(l) => {
                    self.limit = Some(l - 1);
                },
                None => {},
            }
        }
        pass
    }
}

/// Whether machine `m` has one of `names` as its node name.
pub open spec fn named_one_of(m: MachineDesc, names: Seq<&str>) -> bool {
    exists|j: int| 0 <= j < names.len() && (#[trigger] names[j])@ == m.uname.nodename@
}

/// The first machine of `ms` that has one of `names` as its node name, if any.
pub open spec fn first_named<'a>(names: Seq<&str>, ms: Seq<&'a MachineDesc>) -> Seq<&'a MachineDesc>
    decreases ms.len(),
{
    if ms.len() == 0 {
        Seq::empty()
    } else if named_one_of(*ms[0], names) {
        seq![ms[0]]
    } else {
        first_named(names, ms.drop_first())
    }
}

/// Some item holds exactly when the count of holding items is positive.
proof fn lemma_count_positive(items: Seq<SelExpr>, m: MachineDesc)
    ensures
        count_holding(items, m) > 0 <==> exists|i: int| 0 <= i < items.len() && sel_holds(#[trigger] items[i], m),
    decreases items.len(),
{
    if items.len() > 0 {
        let p = items.subrange(0, items.len() - 1);
        lemma_count_positive(p, m);
        if count_holding(items, m) > 0 {
            if count_holding(p, m) > 0 {
                let i = choose|i: int| 0 <= i < p.len() && sel_holds(#[trigger] p[i], m);
                assert(items[i] == p[i]);
            } else {
                assert(sel_holds(items[items.len() - 1], m));
            }
        } else {
            assert forall|i: int| 0 <= i < items.len() implies !sel_holds(#[trigger] items[i], m) by {
                if i < items.len() - 1 {
                    assert(items[i] == p[i]);
                }
            }
        }
    }
}

/// The single-node predicate holds exactly for machines named in the list.
proof fn lemma_single_node_pred(e: SelExpr, names: Seq<&str>, m: MachineDesc)
    requires
        is_single_node_pred(e, names),
    ensures
        sel_holds(e, m) <==> named_one_of(m, names),
{
    if let SelExpr::AnyOf { fail, items } = e {
        lemma_count_positive(items@, m);
        if sel_holds(e, m) {
            let i = choose|i: int| 0 <= i < items@.len() && sel_holds(#[trigger] items@[i], m);
            assert(is_nodename_test(items@[i], names[i]@));
            assert(names[i]@ == m.uname.nodename@);
        }
        if named_one_of(m, names) {
            let j = choose|j: int| 0 <= j < names.len() && (#[trigger] names[j])@ == m.uname.nodename@;
            assert(is_nodename_test(items@[j], names[j]@));
            assert(sel_holds(items@[j], m));
        }
    }
}

/// A single-node selection picks the first machine, in the given order,
/// whose node name is one of the names, and no other.
pub proof fn lemma_single_node_selects_first(
    preds: Seq<SelExpr>,
    names: Seq<&str>,
    ms: Seq<&MachineDesc>,
)
    requires
        preds.len() == 1,
        is_single_node_pred(preds[0], names),
    ensures
        selected(preds, Some(1u32), ms) == first_named(names, ms),
    decreases ms.len(),
{
    if ms.len() > 0 {
        lemma_single_node_pred(preds[0], names, *ms[0]);
        assert(passes_all(preds, *ms[0]) <==> sel_holds(preds[0], *ms[0]));
        if passes_all(preds, *ms[0]) {
            assert(selected(preds, Some(0u32), ms.drop_first()) =~= Seq::<&MachineDesc>::empty());
            assert(seq![ms[0]] + Seq::<&MachineDesc>::empty() =~= seq![ms[0]]);
        } else {
            lemma_single_node_selects_first(preds, names, ms.drop_first());
        }
    }
}

/// Every selected machine satisfies every predicate, and no more machines
/// are selected than the limit allows.
pub proof fn lemma_selected_sound(preds: Seq<SelExpr>, limit: Option<u32>, ms: Seq<&MachineDesc>)
    ensures
        forall|i: int| 0 <= i < selected(preds, limit, ms).len() ==> passes_all(
            preds,
            *#[trigger] selected(preds, limit, ms)[i],
        ),
        selected(preds, limit, ms).len() <= ms.len(),
        limit matches Some(l) ==> selected(preds, limit, ms).len() <= l,
    decreases ms.len(),
{
    if ms.len() > 0 && limit != Some(0u32) {
        let next = match limit {
            Some(l) => Some((l - 1) as u32),
            None => None,
        };
        lemma_selected_sound(preds, next, ms.drop_first());
        lemma_selected_sound(preds, limit, ms.drop_first());
        if passes_all(preds, *ms[0]) {
            let r = selected(preds, limit, ms);
            let t = selected(preds, next, ms.drop_first());
            assert(r == seq![ms[0]] + t);
            assert forall|i: int| 0 <= i < r.len() implies passes_all(preds, *#[trigger] r[i]) by {
                if i > 0 {
                    assert(r[i] == t[i - 1]);
                }
            }
        }
    }
}

/// Fail kinds never change whether an expression holds: two expressions that
/// differ only in their fail kinds, at any depth, hold of exactly the same machines.
pub proof fn lemma_fail_kind_irrelevant(e1: SelExpr, e2: SelExpr, m: MachineDesc)
    requires
        same_but_fail(e1, e2),
    ensures
        sel_holds(e1, m) == sel_holds(e2, m),
    decreases e1,
{
    match (e1, e2) {
        (SelExpr::AnyOf { items: a, .. }, SelExpr::AnyOf { items: b, .. }) => {
            lemma_count_same_but_fail(a@, b@, m);
        },
        (SelExpr::AllOf { items: a, .. }, SelExpr::AllOf { items: b, .. }) => {
            lemma_count_same_but_fail(a@, b@, m);
        },
        (SelExpr::OneOf { items: a, .. }, SelExpr::OneOf { items: b, .. }) => {
            lemma_count_same_but_fail(a@, b@, m);
        },
        (
            SelExpr::Implication { antecedent: a1, consequent: c1, .. },
            SelExpr::Implication { antecedent: a2, consequent: c2, .. },
        ) => {
            lemma_fail_kind_irrelevant(*a1, *a2, m);
            lemma_fail_kind_irrelevant(*c1, *c2, m);
        },
        _ => {},
    }
}

/// Lists that differ only in fail kinds have as many items holding.
pub proof fn lemma_count_same_but_fail(a: Seq<SelExpr>, b: Seq<SelExpr>, m: MachineDesc)
    requires
        all_same_but_fail(a, b),
    ensures
        a.len() == b.len(),
        count_holding(a, m) == count_holding(b, m),
    decreases a,
{
    if a.len() > 0 {
        lemma_count_same_but_fail(a.subrange(0, a.len() - 1), b.subrange(0, b.len() - 1), m);
        lemma_fail_kind_irrelevant(a[a.len() - 1], b[b.len() - 1], m);
    }
}

/// The remaining limit after a run of calls: none when unlimited, and
/// otherwise the limit less the number of machines that passed.
proof fn lemma_filter_state(preds: Seq<SelExpr>, limit: Option<u32>, ms: Seq<MachineDesc>)
    ensures
        filter_results(preds, limit, ms).len() == ms.len(),
        limit is None ==> filter_state(preds, limit, ms) is None,
        limit matches Some(l) ==> count_true(filter_results(preds, limit, ms)) <= l
            && filter_state(preds, limit, ms) == Some(
            (l - count_true(filter_results(preds, limit, ms))) as u32,
        ),
    decreases ms.len(),
{
    if ms.len() > 0 {
        lemma_filter_state(preds, limit, ms.drop_last());
        let r = filter_results(preds, limit, ms);
        assert(r.drop_last() =~= filter_results(preds, limit, ms.drop_last()));
    }
}

/// Over a run of calls of a fresh filter, call `j` lets machine `ms[j]`
/// through exactly when the machine satisfies every predicate and, when the
/// selection is limited, fewer machines than the limit passed before it; so
/// at most the limit pass in all.
pub proof fn lemma_filter_run(preds: Seq<SelExpr>, limit: Option<u32>, ms: Seq<MachineDesc>)
    ensures
        filter_results(preds, limit, ms).len() == ms.len(),
        forall|j: int|
            0 <= j < ms.len() ==> #[trigger] filter_results(preds, limit, ms)[j] == (passes_all(
                preds,
                ms[j],
            ) && match limit {
                Some(l) => count_true(filter_results(preds, limit, ms).take(j)) < l,
                None => true,
            }),
        limit matches Some(l) ==> count_true(filter_results(preds, limit, ms)) <= l,
    decreases ms.len(),
{
    lemma_filter_state(preds, limit, ms);
    if ms.len() > 0 {
        let p = ms.drop_last();
        lemma_filter_run(preds, limit, p);
        lemma_filter_state(preds, limit, p);
        let r = filter_results(preds, limit, ms);
        let rp = filter_results(preds, limit, p);
        assert(r.drop_last() =~= rp);
        assert forall|j: int| 0 <= j < ms.len() implies #[trigger] r[j] == (passes_all(
            preds,
            ms[j],
        ) && match limit {
            Some(l) => count_true(r.take(j)) < l,
            None => true,
        }) by {
            assert(r.take(j) =~= rp.take(j)) by {
                if j < p.len() {
                } else {
                    assert(r.take(j) =~= rp);
                    assert(rp.take(j) =~= rp);
                }
            }
            if j < p.len() {
                assert(r[j] == rp[j]);
                assert(p[j] == ms[j]);
            } else {
                assert(rp.take(j) =~= rp);
            }
        }
    }
}

/// Which of `items` hold of machine `m`.
pub open spec fn holding_flags(items: Seq<SelExpr>, m: MachineDesc) -> Seq<bool> {
    Seq::new(items.len(), |i: int| sel_holds(items[i], m))
}

proof fn lemma_count_is_flags(items: Seq<SelExpr>, m: MachineDesc)
    ensures
        count_holding(items, m) == count_true(holding_flags(items, m)),
    decreases items.len(),
{
    if items.len() > 0 {
        let p = items.subrange(0, items.len() - 1);
        lemma_count_is_flags(p, m);
        assert(holding_flags(items, m).drop_last() =~= holding_flags(p, m));
    }
}

/// The connectives mean what their names say: `any` holds when some item
/// holds, `all` when every item holds, and `one` when exactly one item
/// holds; with no item holding, `any` and `one` are false.
pub proof fn lemma_connectives(fail: SelExprFailKind, items: Vec<SelExpr>, m: MachineDesc)
    ensures
        sel_holds(SelExpr::AnyOf { fail, items }, m) <==> exists|i: int|
            0 <= i < items@.len() && sel_holds(#[trigger] items@[i], m),
        sel_holds(SelExpr::AllOf { fail, items }, m) <==> forall|i: int|
            0 <= i < items@.len() ==> sel_holds(#[trigger] items@[i], m),
        sel_holds(SelExpr::OneOf { fail, items }, m) <==> exists|i: int|
            0 <= i < items@.len() && sel_holds(#[trigger] items@[i], m) && forall|j: int|
                0 <= j < items@.len() && sel_holds(#[trigger] items@[j], m) ==> j == i,
{
    let f = holding_flags(items@, m);
    lemma_count_is_flags(items@, m);
    lemma_count_true_bounds(f);
    lemma_count_true_one(f);
    assert forall|i: int| 0 <= i < items@.len() implies f[i] == sel_holds(#[trigger] items@[i], m) by {}
    if exists|i: int| crate::counting::only_set(f, i) {
        let i = choose|i: int| crate::counting::only_set(f, i);
        assert(sel_holds(items@[i], m));
        assert forall|j: int|
            0 <= j < items@.len() && sel_holds(#[trigger] items@[j], m) implies j == i by {
            assert(f[j]);
        }
    }
    if exists|i: int|
        0 <= i < items@.len() && sel_holds(#[trigger] items@[i], m) && forall|j: int|
            0 <= j < items@.len() && sel_holds(#[trigger] items@[j], m) ==> j == i {
        let i = choose|i: int|
            0 <= i < items@.len() && sel_holds(#[trigger] items@[i], m) && forall|j: int|
                0 <= j < items@.len() && sel_holds(#[trigger] items@[j], m) ==> j == i;
        assert forall|j: int| 0 <= j < f.len() && f[j] implies j == i by {
            assert(sel_holds(items@[j], m));
        }
        assert(crate::counting::only_set(f, i));
    }
}

/// Whether a candidate machine satisfies every predicate of `preds`.
pub open spec fn passes_pred<'a>(preds: Seq<SelExpr>) -> spec_fn(&'a MachineDesc) -> bool {
    |m: &'a MachineDesc| passes_all(preds, *m)
}

/// The selection is complete: it keeps every candidate that satisfies all
/// predicates, in order, and stops only at the limit. With no limit it is
/// exactly the candidates that pass; with a limit `l` it is the first `l` of
/// them (all of them when fewer pass).
pub proof fn lemma_selected_complete<'a>(
    preds: Seq<SelExpr>,
    limit: Option<u32>,
    ms: Seq<&'a MachineDesc>,
)
    ensures
        limit is None ==> selected(preds, limit, ms) == ms.filter(passes_pred(preds)),
        limit matches Some(l) ==> selected(preds, limit, ms) == ms.filter(passes_pred(preds)).take(
            if l < ms.filter(passes_pred(preds)).len() {
                l as int
            } else {
                ms.filter(passes_pred(preds)).len() as int
            },
        ),
    decreases ms.len(),
{
    let f = passes_pred(preds);
    if ms.len() == 0 {
        assert(ms.filter(f) =~= Seq::<&'a MachineDesc>::empty()) by {
            reveal(Seq::filter);
        }
    } else {
        let rest = ms.drop_first();
        assert(ms =~= seq![ms[0]] + rest);
        rest.lemma_filter_prepend(ms[0], f);
        assert(f(ms[0]) == passes_all(preds, *ms[0]));
        if limit == Some(0u32) {
            assert(ms.filter(f).take(0) =~= Seq::<&'a MachineDesc>::empty());
        } else {
            let next = match limit {
                Some(l) => Some((l - 1) as u32),
                None => None,
            };
            lemma_selected_complete(preds, next, rest);
            lemma_selected_complete(preds, limit, rest);
            let rf = rest.filter(f);
            if passes_all(preds, *ms[0]) {
                assert(ms.filter(f) =~= seq![ms[0]] + rf);
                match limit {
                    Some(l) => {
                        let k = if (l - 1) < rf.len() { (l - 1) as int } else { rf.len() as int };
                        assert(seq![ms[0]] + rf.take(k) =~= (seq![ms[0]] + rf).take(k + 1));
                    },
                    None => {},
                }
            } else {
                assert(ms.filter(f) =~= rf);
            }
        }
    }
}

} // verus!
