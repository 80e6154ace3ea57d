//! The text that `Debug` builders write: structs, tuples and lists, in
//! their plain and their pretty (`{:#?}`) forms.
use vstd::prelude::*;

use crate::text::{chars_of, push_char};

verus! {

/// What `<str as Debug>::fmt` writes for a string: the string in double
/// quotes, with characters escaped as `char::escape_debug` does.
pub uninterp spec fn str_debug(s: Seq<char>) -> Seq<char>;

/// The `Debug` text of a string.
///
/// Trusted: formats `s` with `{:?}`, that is `<str as Debug>::fmt`; the
/// contract only names the result, which depends on `s` alone.
#[verifier::external_body]
pub(crate) fn debug_str(s: &str) -> (r: String)
    ensures
        r@ == str_debug(s@),
{
    format!("{:?}", s)
}

/// Appends `t` to `out`.
pub fn push_str(out: &mut String, t: &str)
    ensures
        final(out)@ == old(out)@ + t@,
{
    out.append(t);
}

/// `x` with four spaces at the start of every line, as the pretty form
/// indents nested values; `line_start` tells whether `x` begins a line.
pub open spec fn indent_from(x: Seq<char>, line_start: bool) -> Seq<char>
    decreases x.len(),
{
    if x.len() == 0 {
        Seq::empty()
    } else {
        (if line_start {
            "    "@
        } else {
            Seq::empty()
        }) + seq![x[0]] + indent_from(x.drop_first(), x[0] == '\n')
    }
}

/// `x` indented by one level.
pub open spec fn pad(x: Seq<char>) -> Seq<char> {
    indent_from(x, true)
}

/// Appends `x` indented by one level.
pub fn push_padded(out: &mut String, x: &[char])
    ensures
        final(out)@ == old(out)@ + pad(x@),
{
    let mut line_start = true;
    let mut i: usize = 0;
    assert(x@.subrange(0, x@.len() as int) =~= x@);
    while i < x.len()
        invariant
            i <= x.len(),
            old(out)@ + pad(x@) == out@ + indent_from(x@.subrange(i as int, x@.len() as int), line_start),
        decreases x.len() - i,
    {
        let ghost rest = x@.subrange(i as int, x@.len() as int);
        assert(rest.drop_first() =~= x@.subrange(i + 1, x@.len() as int));
        if line_start {
            push_str(out, "    ");
        }
        push_char(out, x[i]);
        line_start = x[i] == '\n';
        i = i + 1;
        assert(old(out)@ + pad(x@) =~= out@ + indent_from(
            x@.subrange(i as int, x@.len() as int),
            line_start,
        ));
    }
    assert(x@.subrange(i as int, x@.len() as int) =~= Seq::<char>::empty());
    assert(old(out)@ + pad(x@) =~= out@);
}

/// What a struct builder writes for one field.
pub open spec fn field_piece(has_fields: bool, pretty: bool, key: Seq<char>, value: Seq<char>) -> Seq<
    char,
> {
    if pretty {
        (if has_fields {
            Seq::empty()
        } else {
            " {\n"@
        }) + pad(key + ": "@ + value + ",\n"@)
    } else {
        (if has_fields {
            ", "@
        } else {
            " { "@
        }) + key + ": "@ + value
    }
}

/// What a struct builder writes when finished.
pub open spec fn finish_piece(has_fields: bool, pretty: bool) -> Seq<char> {
    if has_fields {
        if pretty {
            "}"@
        } else {
            " }"@
        }
    } else {
        Seq::empty()
    }
}

/// What a struct builder writes when finished as non-exhaustive.
pub open spec fn finish_non_exhaustive_piece(has_fields: bool, pretty: bool) -> Seq<char> {
    if has_fields {
        if pretty {
            "    ..\n}"@
        } else {
            ", .. }"@
        }
    } else {
        " { .. }"@
    }
}

/// What a tuple builder writes for one field.
pub open spec fn tuple_field_piece(has_fields: bool, pretty: bool, value: Seq<char>) -> Seq<char> {
    if pretty {
        (if has_fields {
            Seq::empty()
        } else {
            "(\n"@
        }) + pad(value + ",\n"@)
    } else {
        (if has_fields {
            ", "@
        } else {
            "("@
        }) + value
    }
}

/// What a list builder writes for one entry.
pub open spec fn entry_piece(has_entries: bool, pretty: bool, value: Seq<char>) -> Seq<char> {
    if pretty {
        (if has_entries {
            Seq::empty()
        } else {
            "\n"@
        }) + pad(value + ",\n"@)
    } else {
        (if has_entries {
            ", "@
        } else {
            Seq::empty()
        }) + value
    }
}

/// The entries of a list, in order.
pub open spec fn entries_text(texts: Seq<Seq<char>>, pretty: bool) -> Seq<char>
    decreases texts.len(),
{
    if texts.len() == 0 {
        Seq::empty()
    } else {
        entries_text(texts.drop_last(), pretty) + entry_piece(texts.len() > 1, pretty, texts.last())
    }
}

/// The text of a list whose entries have the given texts.
pub open spec fn list_text(texts: Seq<Seq<char>>, pretty: bool) -> Seq<char> {
    "["@ + entries_text(texts, pretty) + "]"@
}

/// The text of `Some(v)` for a value of text `v`, or of `None`.
pub open spec fn option_text(v: Option<Seq<char>>, pretty: bool) -> Seq<char> {
    match v {
        Some(t) => "Some"@ + tuple_field_piece(false, pretty, t) + ")"@,
        None => "None"@,
    }
}

/// Appends what a struct builder writes for one field.
pub fn push_field(out: &mut String, has_fields: bool, pretty: bool, key: &str, value: &str)
    ensures
        final(out)@ == old(out)@ + field_piece(has_fields, pretty, key@, value@),
{
    if pretty {
        if !has_fields {
            push_str(out, " {\n");
        }
        let ghost mid = out@;
        let mut line = String::new();
        push_str(&mut line, key);
        push_str(&mut line, ": ");
        push_str(&mut line, value);
        push_str(&mut line, ",\n");
        let v = chars_of(line.as_str());
        push_padded(out, &v);
        assert(out@ =~= old(out)@ + field_piece(has_fields, pretty, key@, value@));
    } else {
        if has_fields {
            push_str(out, ", ");
        } else {
            push_str(out, " { ");
        }
        push_str(out, key);
        push_str(out, ": ");
        push_str(out, value);
        assert(out@ =~= old(out)@ + field_piece(has_fields, pretty, key@, value@));
    }
}

/// Appends what a struct builder writes when finished.
pub fn push_finish(out: &mut String, has_fields: bool, pretty: bool)
    ensures
        final(out)@ == old(out)@ + finish_piece(has_fields, pretty),
{
    if has_fields {
        if pretty {
            push_str(out, "}");
        } else {
            push_str(out, " }");
        }
    } else {
        assert(old(out)@ + Seq::<char>::empty() =~= old(out)@);
    }
}

/// Appends what a struct builder writes when finished as non-exhaustive.
pub fn push_finish_non_exhaustive(out: &mut String, has_fields: bool, pretty: bool)
    ensures
        final(out)@ == old(out)@ + finish_non_exhaustive_piece(has_fields, pretty),
{
    if has_fields {
        if pretty {
            push_str(out, "    ..\n}");
        } else {
            push_str(out, ", .. }");
        }
    } else {
        push_str(out, " { .. }");
    }
}

/// Appends what a list builder writes for one entry.
pub fn push_entry(out: &mut String, has_entries: bool, pretty: bool, value: &str)
    ensures
        final(out)@ == old(out)@ + entry_piece(has_entries, pretty, value@),
{
    if pretty {
        if !has_entries {
            push_str(out, "\n");
        }
        let mut line = String::new();
        push_str(&mut line, value);
        push_str(&mut line, ",\n");
        let v = chars_of(line.as_str());
        push_padded(out, &v);
        assert(out@ =~= old(out)@ + entry_piece(has_entries, pretty, value@));
    } else {
        if has_entries {
            push_str(out, ", ");
        }
        push_str(out, value);
        assert(out@ =~= old(out)@ + entry_piece(has_entries, pretty, value@));
    }
}

/// The text of a list of strings, each shown by its `Debug` text.
pub fn debug_string_list(items: &Vec<String>, pretty: bool) -> (r: String)
    ensures
        r@ == list_text(Seq::new(items@.len(), |i: int| str_debug(items@[i]@)), pretty),
{
    let ghost texts = Seq::new(items@.len(), |i: int| str_debug(items@[i]@));
    let mut out = String::new();
    push_str(&mut out, "[");
    let mut i: usize = 0;
    while i < items.len()
        invariant
            i <= items@.len(),
            texts == Seq::new(items@.len(), |i: int| str_debug(items@[i]@)),
            out@ == "["@ + entries_text(texts.subrange(0, i as int), pretty),
        decreases items.len() - i,
    {
        let t = debug_str(items[i].as_str());
        push_entry(&mut out, i > 0, pretty, t.as_str());
        proof {
            let p = texts.subrange(0, i + 1);
            assert(p.drop_last() =~= texts.subrange(0, i as int));
        }
        i = i + 1;
    }
    assert(texts.subrange(0, i as int) =~= texts);
    push_str(&mut out, "]");
    out
}

/// The text of an optional string, shown by its `Debug` text.
pub fn debug_option_string(v: &Option<String>, pretty: bool) -> (r: String)
    ensures
        r@ == option_text(
            match v {
                Some(s) => Some(str_debug(s@)),
                None => None,
            },
            pretty,
        ),
{
    let mut out = String::new();
    match v {
        Some(s) => {
            push_str(&mut out, "Some");
            let t = debug_str(s.as_str());
            if pretty {
                push_str(&mut out, "(\n");
                let mut line = String::new();
                push_str(&mut line, t.as_str());
                push_str(&mut line, ",\n");
                let c = chars_of(line.as_str());
                push_padded(&mut out, &c);
            } else {
                push_str(&mut out, "(");
                push_str(&mut out, t.as_str());
            }
            push_str(&mut out, ")");
            assert(out@ =~= option_text(Some(str_debug(s@)), pretty));
        },
        None => {
            push_str(&mut out, "None");
        },
    }
    out
}

} // verus!
