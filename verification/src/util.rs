//! Truncating `Debug` output of strings to a given length.
use vstd::prelude::*;

use crate::debug_fmt::push_str;
use crate::text::{chars_of, push_char, string_from_range};

verus! {

/// The room left in a truncating writer, and what its cut must close.
pub struct TruncState {
    /// characters that may still be written, counting two kept in reserve
    pub rem: nat,
    /// the last character written was an unescaped backslash
    pub escape_queued: bool,
    /// a double quote is open
    pub quote_queued: bool,
}

/// Reserve kept for closing an escape and a quote at the cut.
pub const EXTRA: usize = 2;

/// The state after passing over `cs`: a backslash escapes the character
/// after it; an unescaped double quote opens or closes a quote.
pub open spec fn scan_state(esc: bool, quote: bool, cs: Seq<char>) -> (bool, bool)
    decreases cs.len(),
{
    if cs.len() == 0 {
        (esc, quote)
    } else {
        let prev = scan_state(esc, quote, cs.drop_last());
        let c = cs.last();
        if prev.0 {
            (false, prev.1)
        } else {
            (
                c == '\\',
                if c == '"' {
                    !prev.1
                } else {
                    prev.1
                },
            )
        }
    }
}

/// What one write passes on, and the state after it. With fewer than two
/// characters of room nothing is written. Otherwise at most `rem - 2`
/// characters pass; when that uses up the room the write is cut: the
/// escaped character (when a backslash was the last one passed), a closing
/// quote (when one is open) and `...` follow, and no room is left.
pub open spec fn truncate_write(t: TruncState, s: Seq<char>) -> (Seq<char>, TruncState) {
    if t.rem < 2 {
        (Seq::empty(), t)
    } else {
        let r = (t.rem - 2) as nat;
        let k = if r < s.len() {
            r
        } else {
            s.len()
        };
        let st = scan_state(t.escape_queued, t.quote_queued, s.take(k as int));
        let rem1 = (r + 2 - k) as nat;
        if rem1 > 2 {
            (s.take(k as int), TruncState { rem: rem1, escape_queued: st.0, quote_queued: st.1 })
        } else {
            (
                s.take(k as int) + (if st.0 && k < s.len() {
                    seq![s[k as int]]
                } else {
                    Seq::empty()
                }) + (if st.1 {
                    seq!['"']
                } else {
                    Seq::empty()
                }) + "..."@,
                TruncState { rem: 0, escape_queued: st.0, quote_queued: st.1 },
            )
        }
    }
}

/// A writer that passes on at most a given number of characters of `Debug`
/// text, closing an open escape or quote and marking the cut with `...`.
pub struct Truncate {
    rem: usize,
    escape_queued: bool,
    quote_queued: bool,
}

impl View for Truncate {
    type V = TruncState;

    closed spec fn view(&self) -> TruncState {
        TruncState {
            rem: self.rem as nat,
            escape_queued: self.escape_queued,
            quote_queued: self.quote_queued,
        }
    }
}

impl Truncate {
    /// A writer that passes on at most `len` characters, cut mark included.
    pub fn new(len: usize) -> (t: Truncate)
        ensures
            t@ == (TruncState { rem: len as nat, escape_queued: false, quote_queued: false }),
    {
        Truncate { rem: len, escape_queued: false, quote_queued: false }
    }

    /// Whether the writer has cut its output.
    pub fn is_cut(&self) -> (r: bool)
        ensures
            r == (self@.rem == 0),
    {
        self.rem == 0
    }

    /// Takes `s` and gives back the text to pass on.
    pub fn write_str(&mut self, s: &str) -> (out: String)
        ensures
            (out@, final(self)@) == truncate_write(old(self)@, s@),
    {
        if self.rem < EXTRA {
            return String::new();
        }
        let rem = self.rem - EXTRA;
        let v = chars_of(s);
        let mut consumed: usize = 0;
        while consumed < rem && consumed < v.len()
            invariant
                consumed <= rem,
                consumed <= v@.len(),
                v@ == s@,
                rem == old(self)@.rem - 2,
                self.rem == old(self)@.rem,
                (self.escape_queued, self.quote_queued) == scan_state(
                    old(self)@.escape_queued,
                    old(self)@.quote_queued,
                    s@.take(consumed as int),
                ),
            decreases v.len() - consumed,
        {
            let c = v[consumed];
            assert(s@.take(consumed + 1).drop_last() =~= s@.take(consumed as int));
            if self.escape_queued {
                self.escape_queued = false;
            } else {
                if c == '\\' {
                    self.escape_queued = true;
                } else {
                    self.escape_queued = false;
                }
                if c == '"' {
                    self.quote_queued = !self.quote_queued;
                }
            }
            consumed = consumed + 1;
        }
        self.rem = rem + EXTRA - consumed;
        let mut out = string_from_range(&v, 0, consumed);
        assert(v@.subrange(0, consumed as int) =~= s@.take(consumed as int));
        if self.rem > EXTRA {
            return out;
        }
        self.rem = 0;
        if self.escape_queued && consumed < v.len() {
            push_char(&mut out, v[consumed]);
        }
        if self.quote_queued {
            push_char(&mut out, '"');
        }
        push_str(&mut out, "...");
        assert(out@ =~= truncate_write(old(self)@, s@).0);
        out
    }
}

/// The total passed on by a sequence of writes, and the state after them.
pub open spec fn run_writes(t: TruncState, inputs: Seq<Seq<char>>) -> (nat, TruncState)
    decreases inputs.len(),
{
    if inputs.len() == 0 {
        (0, t)
    } else {
        let prev = run_writes(t, inputs.drop_last());
        let w = truncate_write(prev.1, inputs.last());
        ((prev.0 + w.0.len()) as nat, w.1)
    }
}

/// One write passes on exactly the room it uses while there is room left,
/// and at most three characters more when it cuts; a cut writer passes on
/// nothing.
pub proof fn lemma_write_bound(t: TruncState, s: Seq<char>)
    ensures
        truncate_write(t, s).1.rem <= t.rem,
        truncate_write(t, s).1.rem > 0 ==> truncate_write(t, s).0.len() + truncate_write(t, s).1.rem
            == t.rem,
        truncate_write(t, s).0.len() + truncate_write(t, s).1.rem <= t.rem + 3,
        t.rem == 0 ==> truncate_write(t, s).0.len() == 0 && truncate_write(t, s).1 == t,
        s.len() + 2 < t.rem ==> truncate_write(t, s).0 == s,
{
    reveal_strlit("...");
    assert(s.len() + 2 < t.rem ==> s.take(s.len() as int) =~= s);
}

/// Whatever is written to a writer made for `len` characters, it passes on
/// at most `len + 3` of them in all.
pub proof fn lemma_truncate_total(len: nat, inputs: Seq<Seq<char>>)
    ensures
        run_writes(TruncState { rem: len, escape_queued: false, quote_queued: false }, inputs).0
            <= len + 3,
{
    lemma_run_writes_bound(
        TruncState { rem: len, escape_queued: false, quote_queued: false },
        inputs,
    );
}

proof fn lemma_run_writes_bound(t: TruncState, inputs: Seq<Seq<char>>)
    ensures
        run_writes(t, inputs).1.rem > 0 ==> run_writes(t, inputs).0 + run_writes(t, inputs).1.rem
            == t.rem,
        run_writes(t, inputs).0 + run_writes(t, inputs).1.rem <= t.rem + 3,
        run_writes(t, inputs).1.rem <= t.rem,
    decreases inputs.len(),
{
    if inputs.len() > 0 {
        lemma_run_writes_bound(t, inputs.drop_last());
        let prev = run_writes(t, inputs.drop_last());
        lemma_write_bound(prev.1, inputs.last());
    }
}

/// Whether `b` is the inside of the `Debug` text of a string: a run of
/// characters other than `"` and `\`, and of escapes, a `\` followed by
/// any character.
pub open spec fn escaped_text(b: Seq<char>) -> bool
    decreases b.len(),
{
    if b.len() == 0 {
        true
    } else if b.last() != '"' && b.last() != '\\' && escaped_text(b.drop_last()) {
        true
    } else {
        b.len() >= 2 && b[b.len() - 2] == '\\' && escaped_text(b.subrange(0, b.len() - 2))
    }
}

/// Scanning two texts one after the other is scanning the first, then the
/// second from where the first left off.
proof fn lemma_scan_concat(esc: bool, quote: bool, a: Seq<char>, b: Seq<char>)
    ensures
        scan_state(esc, quote, a + b) == scan_state(
            scan_state(esc, quote, a).0,
            scan_state(esc, quote, a).1,
            b,
        ),
    decreases b.len(),
{
    if b.len() > 0 {
        lemma_scan_concat(esc, quote, a, b.drop_last());
        assert((a + b).drop_last() =~= a + b.drop_last());
    } else {
        assert(a + b =~= a);
    }
}

/// Inside an open string, escaped text leaves the string open and no escape
/// pending: an escaped `"` never closes it.
proof fn lemma_scan_escaped(b: Seq<char>)
    requires
        escaped_text(b),
    ensures
        scan_state(false, true, b) == (false, true),
    decreases b.len(),
{
    if b.len() > 0 {
        if b.last() != '"' && b.last() != '\\' && escaped_text(b.drop_last()) {
            lemma_scan_escaped(b.drop_last());
        } else {
            let c = b.subrange(0, b.len() - 2);
            lemma_scan_escaped(c);
            let d = b.drop_last();
            assert(d.drop_last() =~= c);
            assert(d.last() == '\\');
            assert(scan_state(false, true, d) == (true, true));
            assert(scan_state(false, true, b) == (false, true));
        }
    }
}

/// A prefix of escaped text is escaped text, or escaped text and the
/// backslash of an escape whose character follows.
proof fn lemma_escaped_prefix(b: Seq<char>, j: int)
    requires
        escaped_text(b),
        0 <= j <= b.len(),
    ensures
        escaped_text(b.take(j)) || (0 < j < b.len() && b[j - 1] == '\\' && escaped_text(
            b.take(j - 1),
        )),
    decreases b.len(),
{
    if j < b.len() {
        if b.last() != '"' && b.last() != '\\' && escaped_text(b.drop_last()) {
            lemma_escaped_prefix(b.drop_last(), j);
            assert(b.drop_last().take(j) =~= b.take(j));
            if j > 0 {
                assert(b.drop_last().take(j - 1) =~= b.take(j - 1));
            }
        } else {
            let c = b.subrange(0, b.len() - 2);
            if j == b.len() - 1 {
                assert(b.take(j - 1) =~= c);
            } else {
                lemma_escaped_prefix(c, j);
                assert(c.take(j) =~= b.take(j));
                if j > 0 {
                    assert(c.take(j - 1) =~= b.take(j - 1));
                }
            }
        }
    } else {
        assert(b.take(j) =~= b);
    }
}

/// Cutting the `Debug` text of a string inside the string closes it: when a
/// fresh writer of `len` characters is given `"`, escaped text and anything
/// after it, and its room runs out before the closing quote, what it passes
/// on ends with a closing `"` and then `...`.
pub proof fn lemma_cut_closes_string(len: nat, b: Seq<char>, rest: Seq<char>)
    requires
        escaped_text(b),
        3 <= len <= b.len() + 3,
    ensures
        ({
            let out = truncate_write(
                TruncState { rem: len, escape_queued: false, quote_queued: false },
                seq!['"'] + b + rest,
            ).0;
            &&& out.len() >= 4
            &&& out.subrange(out.len() - 4, out.len() as int) == seq!['"', '.', '.', '.']
        }),
{
    reveal_strlit("...");
    let s = seq!['"'] + b + rest;
    let r = (len - 2) as int;
    let x = b.take(r - 1);
    assert(s.take(r) =~= seq!['"'] + x);
    lemma_scan_concat(false, false, seq!['"'], x);
    assert(scan_state(false, false, seq!['"']) == (false, true)) by {
        let q = seq!['"'];
        assert(q.drop_last() =~= Seq::<char>::empty());
        assert(scan_state(false, false, q.drop_last()) == (false, false));
        assert(q.last() == '"');
    }
    lemma_escaped_prefix(b, r - 1);
    if escaped_text(x) {
        lemma_scan_escaped(x);
    } else {
        let y = b.take(r - 2);
        lemma_scan_escaped(y);
        assert(x.drop_last() =~= y);
        assert(x.last() == '\\');
        assert(r < s.len());
    }
    let out = truncate_write(
        TruncState { rem: len, escape_queued: false, quote_queued: false },
        s,
    ).0;
    assert(out.subrange(out.len() - 4, out.len() as int) =~= seq!['"', '.', '.', '.']);
}

/// The character right after an unescaped backslash is escaped: it neither
/// opens nor closes a quote, and it ends the escape.
pub proof fn lemma_escaped_char(esc: bool, quote: bool, cs: Seq<char>, c: char)
    requires
        scan_state(esc, quote, cs).0,
    ensures
        scan_state(esc, quote, cs.push(c)) == (false, scan_state(esc, quote, cs).1),
{
    assert(cs.push(c).drop_last() =~= cs);
}

} // verus!
