use std::sync::Arc;

use gub_wire::machine::{Arch, MachineDesc, OsRelease, Uname};
use gub_wire::memory::Memory;
use gub_wire::packages::InstalledPackages;
use gub_wire::sel_expr::{MachineSel, MemReq, Predicates, SelExpr, SelExprFailKind};

fn example_reimu_desc() -> MachineDesc {
    MachineDesc {
        packages: Arc::new({
            let mut p = InstalledPackages::new();
            p.add("gcc-14", "", "14.2.0");
            p.add("curl", "", "8.2.0");
            p
        }),
        os: OsRelease {
            name: "Debian".into(),
            id: "debian".into(),
            pretty_name: "Debian".into(),
            version_id: Some("12".into()),
            version: Some("12".into()),
        },
        uname: Uname {
            name: "Linux".into(),
            machine: Arch::X86_64,
            release: "6.12.0".into(),
            version: "SMP PREEMPT_DYNAMIC Mon Jun  1 15:54:55 UTC 2026".into(),
            nodename: "reimu".into(),
        },
        ram: Memory::from_gibibytes(16),
        swap: Memory::from_gibibytes(1),
        threads: 12,
    }
}

fn example_marisa_desc() -> MachineDesc {
    MachineDesc {
        packages: Arc::new({
            let mut p = InstalledPackages::new();
            p.add("curl", "", "8.2.0");
            p.add("gcc-15", "", "15.2.0");
            p
        }),
        os: OsRelease {
            name: "NixOS".into(),
            id: "nixos".into(),
            pretty_name: "NixOS 26.11 (Zokor)".into(),
            version_id: Some("26.11".into()),
            version: Some("26.11 (Zokor)".into()),
        },
        uname: Uname {
            name: "Linux".into(),
            machine: Arch::X86_64,
            release: "7.0.11".into(),
            version: "#1-NixOS SMP PREEMPT_DYNAMIC Mon Jun  1 15:54:55 UTC 2026".into(),
            nodename: "marisa".into(),
        },
        ram: Memory::from_gibibytes(32),
        swap: Memory::from_gibibytes(32),
        threads: 24,
    }
}

fn os(id: &str) -> SelExpr {
    SelExpr::Os { fail: SelExprFailKind::Nothing, id: Some(id.into()), version_id: None }
}

fn package(name: &str) -> SelExpr {
    SelExpr::Package { fail: SelExprFailKind::Nothing, name: name.into() }
}

fn nodename(name: &str) -> SelExpr {
    SelExpr::Uname {
        fail: SelExprFailKind::Nothing,
        name: None,
        machine: None,
        release: None,
        version: None,
        operating_system: None,
        nodename: Some(name.into()),
    }
}

fn example_sel_expr() -> SelExpr {
    SelExpr::AnyOf {
        fail: SelExprFailKind::Nothing,
        items: vec![
            SelExpr::AllOf {
                fail: SelExprFailKind::Nothing,
                items: vec![os("debian"), package("curl"), package("gcc-14")],
            },
            SelExpr::AllOf {
                fail: SelExprFailKind::Nothing,
                items: vec![os("freebsd"), package("curl"), package("gcc-14_5")],
            },
        ],
    }
}

fn memreq() -> MemReq {
    MemReq {
        min: Memory::from_gibibytes(1),
        peak: Memory::from_gibibytes(2),
        swappable: Memory::from_mebibytes(250),
    }
}

fn example_machine_sel() -> MachineSel {
    MachineSel::new(Predicates::new(vec![example_sel_expr()]), Some(3), memreq())
}

fn names(v: Vec<&MachineDesc>) -> Vec<&str> {
    v.into_iter().map(|m| m.uname.nodename.as_str()).collect()
}

#[test]
fn test_machine() {
    let reimu = example_reimu_desc();
    let marisa = example_marisa_desc();

    let case = |expected: &[&str], sel: &MachineSel| {
        let actual = names(sel.validate_machines(&[&reimu, &marisa]));
        assert_eq!(actual, expected)
    };

    let sel = example_machine_sel();

    case(&["reimu"], &sel);
}

#[test]
fn selection_keeps_order_and_limit() {
    let reimu = example_reimu_desc();
    let marisa = example_marisa_desc();
    let curl = MachineSel::new(Predicates::new(vec![package("curl")]), None, memreq());
    assert_eq!(names(curl.validate_machines(&[&reimu, &marisa])), vec!["reimu", "marisa"]);
    assert_eq!(names(curl.validate_machines(&[&marisa, &reimu])), vec!["marisa", "reimu"]);
    let one = MachineSel::new(Predicates::new(vec![package("curl")]), Some(1), memreq());
    assert_eq!(names(one.validate_machines(&[&marisa, &reimu])), vec!["marisa"]);
    let none = MachineSel::new(Predicates::new(vec![package("curl")]), Some(0), memreq());
    assert!(none.validate_machines(&[&marisa, &reimu]).is_empty());
    let empty = MachineSel::new(Predicates::new(vec![]), None, memreq());
    assert_eq!(names(empty.validate_machines(&[&reimu, &marisa])), vec!["reimu", "marisa"]);
}

#[test]
fn filter_uses_up_limit() {
    let reimu = example_reimu_desc();
    let marisa = example_marisa_desc();
    let sel = MachineSel::new(Predicates::new(vec![package("curl")]), Some(1), memreq());
    let mut f = sel.validate_machines_filter();
    assert!(f.call(&reimu));
    assert!(!f.call(&marisa));
    let gcc15 = MachineSel::new(Predicates::new(vec![package("gcc-15")]), Some(2), memreq());
    let mut g = gcc15.validate_machines_filter();
    assert!(!g.call(&reimu));
    assert!(g.call(&marisa));
    assert!(g.call(&marisa));
    assert!(!g.call(&marisa));
}

#[test]
fn connectives() {
    let reimu = example_reimu_desc();
    let marisa = example_marisa_desc();
    let one_of = SelExpr::OneOf {
        fail: SelExprFailKind::Nothing,
        items: vec![package("gcc-14"), package("curl")],
    };
    assert!(!one_of.test_machine(&reimu));
    assert!(one_of.test_machine(&marisa));
    let implication = SelExpr::Implication {
        fail: SelExprFailKind::Nothing,
        antecedent: Box::new(os("nixos")),
        consequent: Box::new(package("gcc-15")),
    };
    assert!(implication.test_machine(&reimu));
    assert!(implication.test_machine(&marisa));
    let broken = SelExpr::Implication {
        fail: SelExprFailKind::Nothing,
        antecedent: Box::new(os("nixos")),
        consequent: Box::new(package("gcc-14")),
    };
    assert!(!broken.test_machine(&marisa));
    let all_empty = SelExpr::AllOf { fail: SelExprFailKind::Nothing, items: vec![] };
    let any_empty = SelExpr::AnyOf { fail: SelExprFailKind::Nothing, items: vec![] };
    assert!(all_empty.test_machine(&reimu));
    assert!(!any_empty.test_machine(&reimu));
}

#[test]
fn field_tests() {
    let reimu = example_reimu_desc();
    let version = SelExpr::Os {
        fail: SelExprFailKind::Nothing,
        id: None,
        version_id: Some("12".into()),
    };
    assert!(version.test_machine(&reimu));
    let arch = SelExpr::Uname {
        fail: SelExprFailKind::Nothing,
        name: Some("anything".into()),
        machine: Some(Arch::Arm64),
        release: None,
        version: None,
        operating_system: None,
        nodename: None,
    };
    assert!(!arch.test_machine(&reimu));
    let osname = SelExpr::Uname {
        fail: SelExprFailKind::Nothing,
        name: Some("ignored".into()),
        machine: Some(Arch::X86_64),
        release: Some("6.12.0".into()),
        version: None,
        operating_system: Some("Debian".into()),
        nodename: Some("reimu".into()),
    };
    assert!(osname.test_machine(&reimu));
}

#[test]
fn single_node_selects_named() {
    let reimu = example_reimu_desc();
    let marisa = example_marisa_desc();
    let sel = MachineSel::single_node(&["marisa", "reimu"]);
    assert_eq!(sel.limit(), Some(1));
    assert_eq!(sel.memory().min.bytes(), 0);
    assert_eq!(names(sel.validate_machines(&[&reimu, &marisa])), vec!["reimu"]);
    let other = MachineSel::single_node(&["sanae"]);
    assert!(other.validate_machines(&[&reimu, &marisa]).is_empty());
    assert!(nodename("reimu").test_machine(&reimu));
}

#[test]
fn fail_kinds() {
    assert!(SelExprFailKind::default().is_nothing());
    assert!(SelExprFailKind::Nothing.is_nothing());
    assert_eq!(package("x").fail_kind(), SelExprFailKind::Nothing);
}

#[test]
fn selection_accessors() {
    let sel = example_machine_sel();
    assert_eq!(sel.limit(), Some(3));
    assert_eq!(sel.memory(), memreq());
    let p = Predicates::new(vec![package("a"), package("b")]);
    assert_eq!(p.items().len(), 2);
}

#[test]
fn fail_kinds_do_not_change_results() {
    let reimu = example_reimu_desc();
    let marisa = example_marisa_desc();
    let loud = SelExpr::AnyOf {
        fail: SelExprFailKind::Warn,
        items: vec![
            SelExpr::AllOf {
                fail: SelExprFailKind::Explain,
                items: vec![
                    SelExpr::Os { fail: SelExprFailKind::Ignore, id: Some("debian".into()), version_id: None },
                    SelExpr::Package { fail: SelExprFailKind::Warn, name: "curl".into() },
                    SelExpr::Package { fail: SelExprFailKind::Explain, name: "gcc-14".into() },
                ],
            },
        ],
    };
    let quiet = SelExpr::AnyOf {
        fail: SelExprFailKind::Nothing,
        items: vec![SelExpr::AllOf {
            fail: SelExprFailKind::Nothing,
            items: vec![os("debian"), package("curl"), package("gcc-14")],
        }],
    };
    for m in [&reimu, &marisa] {
        assert_eq!(loud.test_machine(m), quiet.test_machine(m));
    }
    assert!(loud.test_machine(&reimu));
    assert!(!loud.test_machine(&marisa));
}
