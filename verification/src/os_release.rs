//! Reading `os-release(5)` and `lsb-release` text.
use vstd::prelude::*;

use crate::text::{chars_eq, chars_of, is_whitespace, is_whitespace_spec, string_from_range};

verus! {

/// `s` without its leading white space.
pub open spec fn trim_start_ws(s: Seq<char>) -> Seq<char>
    decreases s.len(),
{
    if s.len() > 0 && is_whitespace_spec(s[0]) {
        trim_start_ws(s.drop_first())
    } else {
        s
    }
}

/// `s` without its trailing white space.
pub open spec fn trim_end_ws(s: Seq<char>) -> Seq<char>
    decreases s.len(),
{
    if s.len() > 0 && is_whitespace_spec(s.last()) {
        trim_end_ws(s.drop_last())
    } else {
        s
    }
}

/// `s` without its leading `c`s.
pub open spec fn trim_start_char(s: Seq<char>, c: char) -> Seq<char>
    decreases s.len(),
{
    if s.len() > 0 && s[0] == c {
        trim_start_char(s.drop_first(), c)
    } else {
        s
    }
}

/// `s` without its trailing `c`s.
pub open spec fn trim_end_char(s: Seq<char>, c: char) -> Seq<char>
    decreases s.len(),
{
    if s.len() > 0 && s.last() == c {
        trim_end_char(s.drop_last(), c)
    } else {
        s
    }
}

/// The position of the first `c` in `s`.
pub open spec fn first_index(s: Seq<char>, c: char) -> Option<int>
    decreases s.len(),
{
    if s.len() == 0 {
        None
    } else if s[0] == c {
        Some(0)
    } else {
        match first_index(s.drop_first(), c) {
            Some(i) => Some(i + 1),
            None => None,
        }
    }
}

/// The key and value that one line assigns: the line is trimmed of white
/// space; a line starting with `#` is a comment; the key runs up to the first
/// `=`, and the value follows it, without leading white space and without
/// surrounding double quotes.
pub open spec fn line_entry(line: Seq<char>) -> Option<(Seq<char>, Seq<char>)> {
    let t = trim_end_ws(trim_start_ws(line));
    if t.len() > 0 && t[0] == '#' {
        None
    } else {
        match first_index(t, '=') {
            None => None,
            Some(e) => Some(
                (
                    t.subrange(0, e),
                    trim_end_char(trim_start_char(trim_start_ws(t.subrange(e + 1, t.len() as int)), '"'), '"'),
                ),
            ),
        }
    }
}

/// The value that the first line of `text` to assign `key` gives it.
pub open spec fn lookup(text: Seq<char>, key: Seq<char>) -> Option<Seq<char>>
    decreases text.len(),
{
    proof {
        lemma_first_index_bounds(text, '\n');
    }
    let nl = first_index(text, '\n');
    let line = match nl {
        Some(i) => text.subrange(0, i),
        None => text,
    };
    match line_entry(line) {
        Some((k, v)) => if k == key {
            Some(v)
        } else {
            match nl {
                Some(i) => lookup(text.subrange(i + 1, text.len() as int), key),
                None => None,
            }
        },
        None => match nl {
            Some(i) => lookup(text.subrange(i + 1, text.len() as int), key),
            None => None,
        },
    }
}

/// The value that `os-release` text gives `key`, or failing that the `lsb-release` text.
pub open spec fn release_field(os: Seq<char>, lsb: Seq<char>, key: Seq<char>) -> Option<Seq<char>> {
    match lookup(os, key) {
        Some(v) => Some(v),
        None => lookup(lsb, key),
    }
}

/// The keys that are read, in the order of the slots that hold their values.
pub open spec fn slot_key(k: int) -> Seq<char> {
    if k == 0 {
        "PRETTY_NAME"@
    } else if k == 1 {
        "NAME"@
    } else if k == 2 {
        "VERSION_ID"@
    } else if k == 3 {
        "VERSION"@
    } else {
        "ID"@
    }
}

/// The position `first_index` finds holds `c`, and no earlier one does.
pub proof fn lemma_first_index_bounds(s: Seq<char>, c: char)
    ensures
        first_index(s, c) matches Some(i) ==> 0 <= i < s.len() && s[i] == c && forall|j: int|
            0 <= j < i ==> s[j] != c,
    decreases s.len(),
{
    if s.len() > 0 && s[0] != c {
        lemma_first_index_bounds(s.drop_first(), c);
        if let Some(i) = first_index(s.drop_first(), c) {
            assert forall|j: int| 0 <= j < i + 1 implies s[j] != c by {
                if j > 0 {
                    assert(s[j] == s.drop_first()[j - 1]);
                }
            }
        }
    }
}

proof fn lemma_first_index_found(s: Seq<char>, c: char, i: int)
    requires
        0 <= i < s.len(),
        s[i] == c,
        forall|j: int| 0 <= j < i ==> s[j] != c,
    ensures
        first_index(s, c) == Some(i),
    decreases i,
{
    if i > 0 {
        lemma_first_index_found(s.drop_first(), c, i - 1);
    }
}

proof fn lemma_first_index_none(s: Seq<char>, c: char)
    requires
        forall|j: int| 0 <= j < s.len() ==> s[j] != c,
    ensures
        first_index(s, c) is None,
    decreases s.len(),
{
    if s.len() > 0 {
        lemma_first_index_none(s.drop_first(), c);
    }
}

/// The first position in `from..to` holding `c`.
fn find_char(v: &[char], from: usize, to: usize, c: char) -> (r: Option<usize>)
    requires
        from <= to <= v.len(),
    ensures
        match r {
            Some(i) => from <= i < to && first_index(v@.subrange(from as int, to as int), c) == Some(
                i - from,
            ),
            None => first_index(v@.subrange(from as int, to as int), c) is None,
        },
{
    let mut i = from;
    while i < to
        invariant
            from <= i <= to <= v.len(),
            forall|j: int| from <= j < i ==> v@[j] != c,
        decreases to - i,
    {
        if v[i] == c {
            proof {
                let s = v@.subrange(from as int, to as int);
                assert forall|j: int| 0 <= j < i - from implies s[j] != c by {
                    assert(s[j] == v@[from + j]);
                }
                lemma_first_index_found(s, c, i - from);
            }
            return Some(i);
        }
        i = i + 1;
    }
    proof {
        let s = v@.subrange(from as int, to as int);
        assert forall|j: int| 0 <= j < s.len() implies s[j] != c by {
            assert(s[j] == v@[from + j]);
        }
        lemma_first_index_none(s, c);
    }
    None
}

/// Skips leading white space in `from..to`.
fn skip_ws_forward(v: &[char], from: usize, to: usize) -> (i: usize)
    requires
        from <= to <= v.len(),
    ensures
        from <= i <= to,
        trim_start_ws(v@.subrange(from as int, to as int)) == v@.subrange(i as int, to as int),
{
    let mut i = from;
    while i < to && is_whitespace(v[i])
        invariant
            from <= i <= to <= v.len(),
            trim_start_ws(v@.subrange(from as int, to as int)) == trim_start_ws(
                v@.subrange(i as int, to as int),
            ),
        decreases to - i,
    {
        assert(v@.subrange(i as int, to as int).drop_first() =~= v@.subrange(i + 1, to as int));
        i = i + 1;
    }
    i
}

/// Skips trailing white space in `from..to`.
fn skip_ws_backward(v: &[char], from: usize, to: usize) -> (j: usize)
    requires
        from <= to <= v.len(),
    ensures
        from <= j <= to,
        trim_end_ws(v@.subrange(from as int, to as int)) == v@.subrange(from as int, j as int),
{
    let mut j = to;
    while j > from && is_whitespace(v[j - 1])
        invariant
            from <= j <= to <= v.len(),
            trim_end_ws(v@.subrange(from as int, to as int)) == trim_end_ws(
                v@.subrange(from as int, j as int),
            ),
        decreases j - from,
    {
        assert(v@.subrange(from as int, j as int).drop_last() =~= v@.subrange(from as int, j - 1));
        j = j - 1;
    }
    j
}

/// Skips leading `c`s in `from..to`.
fn skip_char_forward(v: &[char], from: usize, to: usize, c: char) -> (i: usize)
    requires
        from <= to <= v.len(),
    ensures
        from <= i <= to,
        trim_start_char(v@.subrange(from as int, to as int), c) == v@.subrange(i as int, to as int),
{
    let mut i = from;
    while i < to && v[i] == c
        invariant
            from <= i <= to <= v.len(),
            trim_start_char(v@.subrange(from as int, to as int), c) == trim_start_char(
                v@.subrange(i as int, to as int),
                c,
            ),
        decreases to - i,
    {
        assert(v@.subrange(i as int, to as int).drop_first() =~= v@.subrange(i + 1, to as int));
        i = i + 1;
    }
    i
}

/// Skips trailing `c`s in `from..to`.
fn skip_char_backward(v: &[char], from: usize, to: usize, c: char) -> (j: usize)
    requires
        from <= to <= v.len(),
    ensures
        from <= j <= to,
        trim_end_char(v@.subrange(from as int, to as int), c) == v@.subrange(from as int, j as int),
{
    let mut j = to;
    while j > from && v[j - 1] == c
        invariant
            from <= j <= to <= v.len(),
            trim_end_char(v@.subrange(from as int, to as int), c) == trim_end_char(
                v@.subrange(from as int, j as int),
                c,
            ),
        decreases j - from,
    {
        assert(v@.subrange(from as int, j as int).drop_last() =~= v@.subrange(from as int, j - 1));
        j = j - 1;
    }
    j
}

/// The key and value ranges that the line `v[from..to]` assigns.
fn parse_line(v: &[char], from: usize, to: usize) -> (r: Option<(usize, usize, usize, usize)>)
    requires
        from <= to <= v.len(),
    ensures
        match r {
            Some((ka, kb, va, vb)) => ka <= kb <= v.len() && va <= vb <= v.len() && line_entry(
                v@.subrange(from as int, to as int),
            ) == Some(
                (
                    v@.subrange(ka as int, kb as int),
                    v@.subrange(va as int, vb as int),
                ),
            ),
            None => line_entry(v@.subrange(from as int, to as int)) is None,
        },
{
    let a = skip_ws_forward(v, from, to);
    let b = skip_ws_backward(v, a, to);
    let ghost t = v@.subrange(a as int, b as int);
    assert(t == trim_end_ws(trim_start_ws(v@.subrange(from as int, to as int))));
    if a < b && v[a] == '#' {
        return None;
    }
    match find_char(v, a, b, '=') {
        None => None,
        Some(e) => {
            let c = skip_ws_forward(v, e + 1, b);
            assert(t.subrange(e + 1 - a, t.len() as int) =~= v@.subrange(e + 1, b as int));
            let d = skip_char_forward(v, c, b, '"');
            let f = skip_char_backward(v, d, b, '"');
            assert(t.subrange(0, e - a) =~= v@.subrange(a as int, e as int));
            Some((a, e, d, f))
        },
    }
}

/// How one line changes a slot: a filled slot keeps its value; an empty one
/// takes the value of the line when the line assigns the slot's key.
pub open spec fn slot_update(
    before: Option<String>,
    after: Option<String>,
    entry: Option<(Seq<char>, Seq<char>)>,
    k: int,
) -> bool {
    match before {
        Some(_) => after == before,
        None => match entry {
            Some((key, val)) => if key == slot_key(k) {
                after matches Some(s) && s@ == val
            } else {
                after is None
            },
            None => after is None,
        },
    }
}

/// Fills each empty slot whose key the line `v[from..to]` assigns.
fn apply_line(
    v: &[char],
    from: usize,
    to: usize,
    keys: &Vec<Vec<char>>,
    slots: &mut Vec<Option<String>>,
)
    requires
        from <= to <= v.len(),
        keys@.len() == 5,
        forall|k: int| 0 <= k < 5 ==> (#[trigger] keys@[k])@ == slot_key(k),
        old(slots)@.len() == 5,
    ensures
        final(slots)@.len() == 5,
        forall|k: int|
            0 <= k < 5 ==> slot_update(
                old(slots)@[k],
                #[trigger] final(slots)@[k],
                line_entry(v@.subrange(from as int, to as int)),
                k,
            ),
{
    let ghost entry = line_entry(v@.subrange(from as int, to as int));
    match parse_line(v, from, to) {
        None => {
            assert forall|k: int| 0 <= k < 5 implies slot_update(
                old(slots)@[k],
                #[trigger] slots@[k],
                entry,
                k,
            ) by {}
        },
        Some((ka, kb, va, vb)) => {
            let key = slice_range(v, ka, kb);
            let mut k: usize = 0;
            while k < 5
                invariant
                    k <= 5,
                    ka <= kb <= v.len(),
                    va <= vb <= v.len(),
                    key@ == v@.subrange(ka as int, kb as int),
                    entry == Some(
                        (v@.subrange(ka as int, kb as int), v@.subrange(va as int, vb as int)),
                    ),
                    keys@.len() == 5,
                    forall|j: int| 0 <= j < 5 ==> (#[trigger] keys@[j])@ == slot_key(j),
                    slots@.len() == 5,
                    forall|j: int| k <= j < 5 ==> (#[trigger] slots@[j]) == old(slots)@[j],
                    forall|j: int|
                        0 <= j < k ==> slot_update(old(slots)@[j], #[trigger] slots@[j], entry, j),
                decreases 5 - k,
            {
                if slots[k].is_none() && chars_eq(&key, &keys[k]) {
                    slots.set(k, Some(string_from_range(v, va, vb)));
                }
                k = k + 1;
            }
        },
    }
}

/// The characters `v[from..to]`.
fn slice_range(v: &[char], from: usize, to: usize) -> (r: Vec<char>)
    requires
        from <= to <= v.len(),
    ensures
        r@ == v@.subrange(from as int, to as int),
{
    let mut r: Vec<char> = Vec::new();
    let mut i = from;
    while i < to
        invariant
            from <= i <= to <= v.len(),
            r@ == v@.subrange(from as int, i as int),
        decreases to - i,
    {
        r.push(v[i]);
        i = i + 1;
    }
    r
}

/// What a slot ends up holding once the rest of `text` is read.
pub open spec fn slot_result(slot: Option<String>, text: Seq<char>, k: int) -> Option<Seq<char>> {
    match slot {
        Some(s) => Some(s@),
        None => lookup(text, slot_key(k)),
    }
}

/// Reads every line of `text`, filling each empty slot from the first line
/// that assigns its key.
fn scan(text: &str, keys: &Vec<Vec<char>>, slots: &mut Vec<Option<String>>)
    requires
        keys@.len() == 5,
        forall|k: int| 0 <= k < 5 ==> (#[trigger] keys@[k])@ == slot_key(k),
        old(slots)@.len() == 5,
    ensures
        final(slots)@.len() == 5,
        forall|k: int|
            0 <= k < 5 ==> (match #[trigger] final(slots)@[k] {
                Some(s) => Some(s@),
                None => None,
            }) == slot_result(old(slots)@[k], text@, k),
{
    let v = chars_of(text);
    let n = v.len();
    let mut pos: usize = 0;
    let ghost start = slots@;
    assert(v@.subrange(0, n as int) =~= text@);
    loop
        invariant
            pos <= n,
            n == v@.len(),
            v@ == text@,
            keys@.len() == 5,
            forall|k: int| 0 <= k < 5 ==> (#[trigger] keys@[k])@ == slot_key(k),
            slots@.len() == 5,
            start == old(slots)@,
            forall|k: int|
                0 <= k < 5 ==> slot_result(#[trigger] slots@[k], v@.subrange(pos as int, n as int), k)
                    == slot_result(start[k], text@, k),
        ensures
            slots@.len() == 5,
            forall|k: int|
                0 <= k < 5 ==> (match #[trigger] slots@[k] {
                    Some(s) => Some(s@),
                    None => None,
                }) == slot_result(start[k], text@, k),
        decreases n - pos,
    {
        let nl = find_char(&v, pos, n, '\n');
        let end = match nl {
            Some(i) => i,
            None => n,
        };
        let ghost before = slots@;
        let ghost rest = v@.subrange(pos as int, n as int);
        assert(rest.subrange(0, end - pos) =~= v@.subrange(pos as int, end as int));
        apply_line(&v, pos, end, keys, slots);
        match nl {
            None => {
                assert forall|k: int| 0 <= k < 5 implies (match #[trigger] slots@[k] {
                    Some(s) => Some(s@),
                    None => None,
                }) == slot_result(start[k], text@, k) by {
                    assert(slot_result(before[k], rest, k) == slot_result(start[k], text@, k));
                    assert(rest =~= v@.subrange(pos as int, end as int));
                }
                break ;
            },
            Some(i) => {
                assert(rest.subrange(i - pos + 1, rest.len() as int) =~= v@.subrange(
                    i + 1,
                    n as int,
                ));
                assert forall|k: int| 0 <= k < 5 implies slot_result(
                    #[trigger] slots@[k],
                    v@.subrange(i + 1, n as int),
                    k,
                ) == slot_result(start[k], text@, k) by {
                    assert(slot_result(before[k], rest, k) == slot_result(start[k], text@, k));
                }
                pos = i + 1;
            },
        }
    }
}

/// The characters of each key, in slot order.
fn slot_keys() -> (keys: Vec<Vec<char>>)
    ensures
        keys@.len() == 5,
        forall|k: int| 0 <= k < 5 ==> (#[trigger] keys@[k])@ == slot_key(k),
{
    let mut keys: Vec<Vec<char>> = Vec::new();
    keys.push(chars_of("PRETTY_NAME"));
    keys.push(chars_of("NAME"));
    keys.push(chars_of("VERSION_ID"));
    keys.push(chars_of("VERSION"));
    keys.push(chars_of("ID"));
    keys
}

/// The values found for the five keys, in slot order, reading the
/// `os-release` text first and the `lsb-release` text after it.
pub fn release_fields(os: &str, lsb: &str) -> (slots: Vec<Option<String>>)
    ensures
        slots@.len() == 5,
        forall|k: int|
            0 <= k < 5 ==> (match #[trigger] slots@[k] {
                Some(s) => Some(s@),
                None => None,
            }) == release_field(os@, lsb@, slot_key(k)),
{
    let keys = slot_keys();
    let mut slots: Vec<Option<String>> = Vec::new();
    slots.push(None);
    slots.push(None);
    slots.push(None);
    slots.push(None);
    slots.push(None);
    let ghost empty = slots@;
    scan(os, &keys, &mut slots);
    let ghost mid = slots@;
    scan(lsb, &keys, &mut slots);
    assert forall|k: int| 0 <= k < 5 implies (match #[trigger] slots@[k] {
        Some(s) => Some(s@),
        None => None,
    }) == release_field(os@, lsb@, slot_key(k)) by {
        assert(empty[k] is None);
    }
    slots
}

/// Whether `s` is a plain word of a release file: no white space, `=`,
/// newline, double quote or `#` in it.
pub open spec fn plain_word(s: Seq<char>) -> bool {
    forall|i: int|
        0 <= i < s.len() ==> {
            &&& !is_whitespace_spec(#[trigger] s[i])
            &&& s[i] != '='
            &&& s[i] != '\n'
            &&& s[i] != '"'
            &&& s[i] != '#'
        }
}

/// The line `key=value`.
pub open spec fn assignment(key: Seq<char>, value: Seq<char>) -> Seq<char> {
    key + seq!['='] + value
}

proof fn lemma_first_index_after(a: Seq<char>, c: char, b: Seq<char>)
    requires
        forall|i: int| 0 <= i < a.len() ==> a[i] != c,
    ensures
        first_index(a + seq![c] + b, c) == Some(a.len() as int),
    decreases a.len(),
{
    let s = a + seq![c] + b;
    if a.len() > 0 {
        assert(s.drop_first() =~= a.drop_first() + seq![c] + b);
        lemma_first_index_after(a.drop_first(), c, b);
    } else {
        assert(s[0] == c);
    }
}

/// A line `key=value` of plain words assigns `value` to `key`.
proof fn lemma_assignment_entry(key: Seq<char>, value: Seq<char>)
    requires
        key.len() > 0,
        plain_word(key),
        plain_word(value),
    ensures
        line_entry(assignment(key, value)) == Some((key, value)),
{
    let l = assignment(key, value);
    assert(!is_whitespace_spec(l[0])) by {
        assert(l[0] == key[0]);
    }
    assert(trim_start_ws(l) == l);
    assert(!is_whitespace_spec(l.last())) by {
        if value.len() > 0 {
            assert(l.last() == value[value.len() - 1]);
        } else {
            assert(l.last() == '=');
        }
    }
    assert(trim_end_ws(l) == l);
    assert(l[0] != '#');
    lemma_first_index_after(key, '=', value);
    assert(l.subrange(0, key.len() as int) =~= key);
    assert(l.subrange(key.len() as int + 1, l.len() as int) =~= value);
    if value.len() > 0 {
        assert(!is_whitespace_spec(value[0]));
        assert(value[0] != '"');
        assert(value.last() != '"');
    }
    assert(trim_start_ws(value) == value);
    assert(trim_start_char(value, '"') == value);
    assert(trim_end_char(value, '"') == value);
}

/// A field is set only by a line whose key is exactly the field's name: a
/// first line `name=value` gives the value when `name` is the key looked up,
/// and is passed over for every other key, however much the two names share.
pub proof fn lemma_lookup_exact_key(
    name: Seq<char>,
    value: Seq<char>,
    rest: Seq<char>,
    key: Seq<char>,
)
    requires
        name.len() > 0,
        plain_word(name),
        plain_word(value),
    ensures
        name == key ==> lookup(assignment(name, value) + seq!['\n'] + rest, key) == Some(value),
        name != key ==> lookup(assignment(name, value) + seq!['\n'] + rest, key) == lookup(
            rest,
            key,
        ),
{
    let l = assignment(name, value);
    let text = l + seq!['\n'] + rest;
    assert forall|i: int| 0 <= i < l.len() implies l[i] != '\n' by {
        if i < name.len() {
            assert(l[i] == name[i]);
        } else if i > name.len() {
            assert(l[i] == value[i - name.len() - 1]);
        }
    }
    lemma_first_index_after(l, '\n', rest);
    assert(text.subrange(0, l.len() as int) =~= l);
    assert(text.subrange(l.len() as int + 1, text.len() as int) =~= rest);
    lemma_assignment_entry(name, value);
}

} // verus!
