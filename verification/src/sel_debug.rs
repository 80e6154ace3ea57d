//! The `Debug` text of selection expressions.
use vstd::prelude::*;

use crate::debug_fmt::{
    debug_str, entries_text, field_piece, finish_non_exhaustive_piece, finish_piece, list_text,
    push_entry, push_field, push_finish, push_finish_non_exhaustive, push_str, str_debug,
};
use crate::machine::Arch;
use crate::sel_expr::{SelExpr, SelExprFailKind};

verus! {

/// The suffix that marks a fail kind in an expression's name.
pub open spec fn fail_suffix(k: SelExprFailKind) -> Seq<char> {
    match k {
        SelExprFailKind::Nothing => Seq::empty(),
        SelExprFailKind::Explain => "(explain)"@,
        SelExprFailKind::Warn => "(warn)"@,
        SelExprFailKind::Ignore => "(ignore)"@,
    }
}

/// The `Debug` text of a fail kind.
pub open spec fn fail_text(k: SelExprFailKind) -> Seq<char> {
    match k {
        SelExprFailKind::Nothing => "Nothing"@,
        SelExprFailKind::Explain => "Explain"@,
        SelExprFailKind::Warn => "Warn"@,
        SelExprFailKind::Ignore => "Ignore"@,
    }
}

/// The `Debug` text of an architecture.
pub open spec fn arch_text(a: Arch) -> Seq<char> {
    match a {
        Arch::X86_64 => "X86_64"@,
        Arch::Arm64 => "Arm64"@,
    }
}

/// A struct under construction: its text so far, and whether it has a field.
pub open spec fn opt_field(
    acc: (Seq<char>, bool),
    pretty: bool,
    key: Seq<char>,
    value: Option<Seq<char>>,
) -> (Seq<char>, bool) {
    match value {
        Some(v) => (acc.0 + field_piece(acc.1, pretty, key, v), true),
        None => acc,
    }
}

/// The `Debug` text of an optional string field's value.
pub open spec fn opt_str_text(v: Option<String>) -> Option<Seq<char>> {
    match v {
        Some(s) => Some(str_debug(s@)),
        None => None,
    }
}

/// The `Debug` text of an expression: a connective's name (with its fail
/// kind) followed by the list of its items; an implication, `os` or `uname`
/// test as a struct whose absent fields are left out (`os` and `uname` are
/// non-exhaustive); a package test as a struct of its fail kind and name.
pub open spec fn sel_text(e: SelExpr, pretty: bool) -> Seq<char>
    decreases e,
{
    match e {
        SelExpr::AnyOf { fail, items } => "any"@ + fail_suffix(fail) + " "@ + list_text(
            items_text(items@, pretty),
            pretty,
        ),
        SelExpr::AllOf { fail, items } => "all"@ + fail_suffix(fail) + list_text(
            items_text(items@, pretty),
            pretty,
        ),
        SelExpr::OneOf { fail, items } => "one"@ + fail_suffix(fail) + list_text(
            items_text(items@, pretty),
            pretty,
        ),
        SelExpr::Implication { fail, antecedent, consequent } => "implication"@ + fail_suffix(fail)
            + field_piece(false, pretty, "antecedent"@, sel_text(*antecedent, pretty)) + field_piece(
            true,
            pretty,
            "consequent"@,
            sel_text(*consequent, pretty),
        ) + finish_piece(true, pretty),
        SelExpr::Os { fail, id, version_id } => {
            let a0 = ("os"@ + fail_suffix(fail), false);
            let a1 = opt_field(a0, pretty, "id"@, opt_str_text(id));
            let a2 = opt_field(a1, pretty, "version_id"@, opt_str_text(version_id));
            a2.0 + finish_non_exhaustive_piece(a2.1, pretty)
        },
        SelExpr::Uname { fail, name, machine, release, version, operating_system, nodename } => {
            let a0 = ("uname"@ + fail_suffix(fail), false);
            let a1 = opt_field(a0, pretty, "name"@, opt_str_text(name));
            let a2 = opt_field(
                a1,
                pretty,
                "machine"@,
                match machine {
                    Some(m) => Some(arch_text(m)),
                    None => None,
                },
            );
            let a3 = opt_field(a2, pretty, "release"@, opt_str_text(release));
            let a4 = opt_field(a3, pretty, "version"@, opt_str_text(version));
            let a5 = opt_field(a4, pretty, "operating_system"@, opt_str_text(operating_system));
            let a6 = opt_field(a5, pretty, "nodename"@, opt_str_text(nodename));
            a6.0 + finish_non_exhaustive_piece(a6.1, pretty)
        },
        SelExpr::Package { fail, name } => "Package"@ + field_piece(
            false,
            pretty,
            "fail"@,
            fail_text(fail),
        ) + field_piece(true, pretty, "name"@, str_debug(name@)) + finish_piece(true, pretty),
    }
}

/// The `Debug` texts of a list of expressions.
pub open spec fn items_text(items: Seq<SelExpr>, pretty: bool) -> Seq<Seq<char>>
    decreases items,
{
    if items.len() == 0 {
        Seq::empty()
    } else {
        items_text(items.subrange(0, items.len() - 1), pretty).push(
            sel_text(items[items.len() - 1], pretty),
        )
    }
}

proof fn lemma_items_text_len(items: Seq<SelExpr>, pretty: bool)
    ensures
        items_text(items, pretty).len() == items.len(),
    decreases items.len(),
{
    if items.len() > 0 {
        lemma_items_text_len(items.subrange(0, items.len() - 1), pretty);
    }
}

fn push_fail_suffix(out: &mut String, k: SelExprFailKind)
    ensures
        final(out)@ == old(out)@ + fail_suffix(k),
{
    match k {
        SelExprFailKind::Nothing => {
            assert(old(out)@ + Seq::<char>::empty() =~= old(out)@);
        },
        SelExprFailKind::Explain => push_str(out, "(explain)"),
        SelExprFailKind::Warn => push_str(out, "(warn)"),
        SelExprFailKind::Ignore => push_str(out, "(ignore)"),
    }
}

fn fail_name(k: SelExprFailKind) -> (s: &'static str)
    ensures
        s@ == fail_text(k),
{
    match k {
        SelExprFailKind::Nothing => "Nothing",
        SelExprFailKind::Explain => "Explain",
        SelExprFailKind::Warn => "Warn",
        SelExprFailKind::Ignore => "Ignore",
    }
}

fn arch_name(a: Arch) -> (s: &'static str)
    ensures
        s@ == arch_text(a),
{
    match a {
        Arch::X86_64 => "X86_64",
        Arch::Arm64 => "Arm64",
    }
}

/// Appends an optional string field, leaving it out when absent.
fn push_opt_str_field(
    out: &mut String,
    has_fields: bool,
    pretty: bool,
    key: &str,
    v: &Option<String>,
) -> (h: bool)
    ensures
        (final(out)@, h) == opt_field((old(out)@, has_fields), pretty, key@, opt_str_text(*v)),
{
    match v {
        Some(s) => {
            let t = debug_str(s.as_str());
            push_field(out, has_fields, pretty, key, t.as_str());
            true
        },
        None => has_fields,
    }
}

impl SelExpr {
    /// The `Debug` text of this expression; `pretty` selects the `{:#?}` form.
    pub fn debug_text(&self, pretty: bool) -> (s: String)
        ensures
            s@ == sel_text(*self, pretty),
        decreases self,
    {
        let mut out = String::new();
        match self {
            SelExpr::AnyOf { fail, items } => {
                push_str(&mut out, "any");
                push_fail_suffix(&mut out, *fail);
                push_str(&mut out, " ");
                push_items(&mut out, items, pretty);
            },
            SelExpr::AllOf { fail, items } => {
                push_str(&mut out, "all");
                push_fail_suffix(&mut out, *fail);
                push_items(&mut out, items, pretty);
            },
            SelExpr::OneOf { fail, items } => {
                push_str(&mut out, "one");
                push_fail_suffix(&mut out, *fail);
                push_items(&mut out, items, pretty);
            },
            SelExpr::Implication { fail, antecedent, consequent } => {
                push_str(&mut out, "implication");
                push_fail_suffix(&mut out, *fail);
                let a = antecedent.debug_text(pretty);
                push_field(&mut out, false, pretty, "antecedent", a.as_str());
                let c = consequent.debug_text(pretty);
                push_field(&mut out, true, pretty, "consequent", c.as_str());
                push_finish(&mut out, true, pretty);
            },
            SelExpr::Os { fail, id, version_id } => {
                push_str(&mut out, "os");
                push_fail_suffix(&mut out, *fail);
                let h = push_opt_str_field(&mut out, false, pretty, "id", id);
                let h = push_opt_str_field(&mut out, h, pretty, "version_id", version_id);
                push_finish_non_exhaustive(&mut out, h, pretty);
            },
            SelExpr::Uname { fail, name, machine, release, version, operating_system, nodename } => {
                push_str(&mut out, "uname");
                push_fail_suffix(&mut out, *fail);
                let h = push_opt_str_field(&mut out, false, pretty, "name", name);
                let h = match machine {
                    Some(m) => {
                        push_field(&mut out, h, pretty, "machine", arch_name(*m));
                        true
                    },
                    None => h,
                };
                let h = push_opt_str_field(&mut out, h, pretty, "release", release);
                let h = push_opt_str_field(&mut out, h, pretty, "version", version);
                let h = push_opt_str_field(&mut out, h, pretty, "operating_system", operating_system);
                let h = push_opt_str_field(&mut out, h, pretty, "nodename", nodename);
                push_finish_non_exhaustive(&mut out, h, pretty);
            },
            SelExpr::Package { fail, name } => {
                push_str(&mut out, "Package");
                push_field(&mut out, false, pretty, "fail", fail_name(*fail));
                let t = debug_str(name.as_str());
                push_field(&mut out, true, pretty, "name", t.as_str());
                push_finish(&mut out, true, pretty);
            },
        }
        assert(out@ =~= sel_text(*self, pretty));
        out
    }
}

/// Appends the list of the items' `Debug` texts.
fn push_items(out: &mut String, items: &Vec<SelExpr>, pretty: bool)
    ensures
        final(out)@ == old(out)@ + list_text(items_text(items@, pretty), pretty),
    decreases items@,
{
    let ghost texts = items_text(items@, pretty);
    proof {
        lemma_items_text_len(items@, pretty);
    }
    push_str(out, "[");
    let ghost start = old(out)@;
    let mut i: usize = 0;
    while i < items.len()
        invariant
            i <= items@.len(),
            texts == items_text(items@, pretty),
            texts.len() == items@.len(),
            out@ == start + "["@ + entries_text(texts.subrange(0, i as int), pretty),
        decreases items.len() - i,
    {
        let t = items[i].debug_text(pretty);
        push_entry(out, i > 0, pretty, t.as_str());
        proof {
            let p = texts.subrange(0, i + 1);
            assert(p.drop_last() =~= texts.subrange(0, i as int));
            lemma_items_text_at(items@, pretty, i as int);
        }
        i = i + 1;
    }
    assert(texts.subrange(0, i as int) =~= texts);
    push_str(out, "]");
    assert(out@ =~= start + list_text(texts, pretty));
}

/// The text of item `k` is that item's `Debug` text.
proof fn lemma_items_text_at(items: Seq<SelExpr>, pretty: bool, k: int)
    requires
        0 <= k < items.len(),
    ensures
        items_text(items, pretty).len() == items.len(),
        items_text(items, pretty)[k] == sel_text(items[k], pretty),
    decreases items.len(),
{
    lemma_items_text_len(items, pretty);
    let p = items.subrange(0, items.len() - 1);
    if k < items.len() - 1 {
        lemma_items_text_at(p, pretty, k);
        assert(p[k] == items[k]);
    }
}

} // verus!
