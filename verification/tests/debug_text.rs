use std::fmt;

use gub_wire::debug_fmt::{debug_option_string, debug_string_list};
use gub_wire::job::Exec;
use gub_wire::machine::Arch;
use gub_wire::sel_expr::SelExprFailKind::{Explain, Ignore, Nothing, Warn};
use gub_wire::sel_expr::{SelExpr, SelExprFailKind};

/// A selection expression written out with the `Debug` text it should have.
enum Shape {
    Any(SelExprFailKind, Vec<Shape>),
    All(SelExprFailKind, Vec<Shape>),
    One(SelExprFailKind, Vec<Shape>),
    Imp(SelExprFailKind, Box<Shape>, Box<Shape>),
    Os(SelExprFailKind, Option<String>, Option<String>),
    Uname(SelExprFailKind, Option<String>, Option<Arch>, Option<String>, Option<String>, Option<String>, Option<String>),
    Package(SelExprFailKind, String),
}

fn suffix(k: SelExprFailKind) -> &'static str {
    match k {
        SelExprFailKind::Nothing => "",
        SelExprFailKind::Explain => "(explain)",
        SelExprFailKind::Warn => "(warn)",
        SelExprFailKind::Ignore => "(ignore)",
    }
}

impl fmt::Debug for Shape {
    fn fmt(&self, f: &mut fmt::Formatter<'_>) -> fmt::Result {
        match self {
            Shape::Any(k, items) => {
                f.write_str(&format!("any{} ", suffix(*k)))?;
                f.debug_list().entries(items).finish()
            }
            Shape::All(k, items) => {
                f.write_str(&format!("all{}", suffix(*k)))?;
                f.debug_list().entries(items).finish()
            }
            Shape::One(k, items) => {
                f.write_str(&format!("one{}", suffix(*k)))?;
                f.debug_list().entries(items).finish()
            }
            Shape::Imp(k, a, c) => {
                let name = format!("implication{}", suffix(*k));
                f.debug_struct(&name).field("antecedent", a).field("consequent", c).finish()
            }
            Shape::Os(k, id, version_id) => {
                let name = format!("os{}", suffix(*k));
                let mut d = f.debug_struct(&name);
                if let Some(x) = id {
                    d.field("id", x);
                }
                if let Some(x) = version_id {
                    d.field("version_id", x);
                }
                d.finish_non_exhaustive()
            }
            Shape::Uname(k, name, machine, release, version, operating_system, nodename) => {
                let sname = format!("uname{}", suffix(*k));
                let mut d = f.debug_struct(&sname);
                if let Some(x) = name {
                    d.field("name", x);
                }
                if let Some(x) = machine {
                    d.field("machine", x);
                }
                if let Some(x) = release {
                    d.field("release", x);
                }
                if let Some(x) = version {
                    d.field("version", x);
                }
                if let Some(x) = operating_system {
                    d.field("operating_system", x);
                }
                if let Some(x) = nodename {
                    d.field("nodename", x);
                }
                d.finish_non_exhaustive()
            }
            Shape::Package(k, name) => {
                f.debug_struct("Package").field("fail", k).field("name", name).finish()
            }
        }
    }
}

fn build(s: &Shape) -> SelExpr {
    match s {
        Shape::Any(k, items) => SelExpr::AnyOf { fail: *k, items: items.iter().map(build).collect() },
        Shape::All(k, items) => SelExpr::AllOf { fail: *k, items: items.iter().map(build).collect() },
        Shape::One(k, items) => SelExpr::OneOf { fail: *k, items: items.iter().map(build).collect() },
        Shape::Imp(k, a, c) => SelExpr::Implication {
            fail: *k,
            antecedent: Box::new(build(a)),
            consequent: Box::new(build(c)),
        },
        Shape::Os(k, id, version_id) => {
            SelExpr::Os { fail: *k, id: id.clone(), version_id: version_id.clone() }
        }
        Shape::Uname(k, name, machine, release, version, operating_system, nodename) => {
            SelExpr::Uname {
                fail: *k,
                name: name.clone(),
                machine: *machine,
                release: release.clone(),
                version: version.clone(),
                operating_system: operating_system.clone(),
                nodename: nodename.clone(),
            }
        }
        Shape::Package(k, name) => SelExpr::Package { fail: *k, name: name.clone() },
    }
}

fn check(s: &Shape) {
    let e = build(s);
    assert_eq!(e.debug_text(false), format!("{s:?}"));
    assert_eq!(e.debug_text(true), format!("{s:#?}"));
}

fn some(s: &str) -> Option<String> {
    Some(s.to_string())
}

#[test]
fn package_text() {
    let e = SelExpr::Package { fail: SelExprFailKind::Nothing, name: "curl".into() };
    assert_eq!(e.debug_text(false), "Package { fail: Nothing, name: \"curl\" }");
    assert_eq!(e.debug_text(true), "Package {\n    fail: Nothing,\n    name: \"curl\",\n}");
}

#[test]
fn list_texts() {
    let any = SelExpr::AnyOf {
        fail: SelExprFailKind::Nothing,
        items: vec![SelExpr::Package { fail: SelExprFailKind::Warn, name: "a".into() }],
    };
    assert_eq!(any.debug_text(false), "any [Package { fail: Warn, name: \"a\" }]");
    let all = SelExpr::AllOf { fail: SelExprFailKind::Explain, items: vec![] };
    assert_eq!(all.debug_text(false), "all(explain)[]");
    assert_eq!(all.debug_text(true), "all(explain)[]");
}

#[test]
fn field_texts() {
    let os = SelExpr::Os { fail: SelExprFailKind::Nothing, id: None, version_id: None };
    assert_eq!(os.debug_text(false), "os { .. }");
    let os2 = SelExpr::Os { fail: SelExprFailKind::Ignore, id: some("debian"), version_id: None };
    assert_eq!(os2.debug_text(false), "os(ignore) { id: \"debian\", .. }");
    assert_eq!(os2.debug_text(true), "os(ignore) {\n    id: \"debian\",\n    ..\n}");
}

#[test]
fn nested_texts_match_std_builders() {
    let pkg = |n: &str| Shape::Package(Nothing, n.to_string());
    let shapes = vec![
        Shape::Any(Nothing, vec![
            Shape::All(Nothing, vec![Shape::Os(Nothing, some("debian"), None), pkg("curl"), pkg("gcc-14")]),
            Shape::All(Warn, vec![Shape::Os(Explain, some("freebsd"), some("14")), pkg("a\"b\\c\n")]),
        ]),
        Shape::One(Ignore, vec![]),
        Shape::One(Explain, vec![pkg("x")]),
        Shape::Imp(
            Warn,
            Box::new(Shape::Uname(Nothing, some("Linux"), Some(Arch::X86_64), None, some("v"), None, some("reimu"))),
            Box::new(Shape::Any(Ignore, vec![pkg("é"), Shape::Os(Nothing, None, None)])),
        ),
        Shape::Uname(Explain, None, Some(Arch::Arm64), some("6.1"), None, some("NixOS"), None),
        Shape::Uname(Nothing, None, None, None, None, None, None),
    ];
    for s in &shapes {
        check(s);
    }
}

#[test]
fn exec_texts() {
    let e = Exec::bash_script("echo \"hello, world!\"");
    assert_eq!(e.executable, "/usr/bin/env");
    assert_eq!(e.argv0, None);
    assert_eq!(e.argv, vec!["bash", "-c", "echo \"hello, world!\""]);
    assert_eq!(e.debug_text(false), "\"/usr/bin/env\" \"bash\" \"-c\" \"echo \\\"hello, world!\\\"\"");
    let expected = format!(
        "{:#?}",
        ExecShape { executable: e.executable.clone(), argv0: None, argv: e.argv.clone() }
    );
    assert_eq!(e.debug_text(true), expected);
    let named = Exec { executable: "/bin/x".into(), argv0: Some("x".into()), argv: vec![] };
    assert_eq!(named.debug_text(false), "\"x\"");
    let expected_named = format!(
        "{:#?}",
        ExecShape { executable: "/bin/x".into(), argv0: Some("x".into()), argv: vec![] }
    );
    assert_eq!(named.debug_text(true), expected_named);
}

struct ExecShape {
    executable: String,
    argv0: Option<String>,
    argv: Vec<String>,
}

impl fmt::Debug for ExecShape {
    fn fmt(&self, f: &mut fmt::Formatter<'_>) -> fmt::Result {
        f.debug_struct("Exec")
            .field("executable", &self.executable)
            .field("argv0", &self.argv0)
            .field("argv", &self.argv)
            .finish()
    }
}

#[test]
fn string_lists_and_options() {
    let v: Vec<String> = vec!["a".into(), "b\"".into()];
    assert_eq!(debug_string_list(&v, false), format!("{v:?}"));
    assert_eq!(debug_string_list(&v, true), format!("{v:#?}"));
    let empty: Vec<String> = vec![];
    assert_eq!(debug_string_list(&empty, true), format!("{empty:#?}"));
    let o: Option<String> = Some("x\ty".into());
    assert_eq!(debug_option_string(&o, false), format!("{o:?}"));
    assert_eq!(debug_option_string(&o, true), format!("{o:#?}"));
    assert_eq!(debug_option_string(&None, true), "None");
}
