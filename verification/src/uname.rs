//! The fields that `uname(2)` reports, kept in one buffer.
use std::ops::Range;

use vstd::prelude::*;
use vstd::string::StringSliceAdditionalSpecFns;

use crate::text::{append_chars, chars_of};

verus! {

/// The five fields of `uname(2)`, stored back to back in one string.
#[derive(Debug)]
pub struct Uname {
    buf: String,
    sysname: Range<u16>,
    nodename: Range<u16>,
    release: Range<u16>,
    version: Range<u16>,
    machine: Range<u16>,
}

/// The fields of a `uname(2)` report.
pub struct UnameView {
    pub sysname: Seq<char>,
    pub nodename: Seq<char>,
    pub release: Seq<char>,
    pub version: Seq<char>,
    pub machine: Seq<char>,
}

spec fn range_ok(r: Range<u16>, len: nat) -> bool {
    r.start <= r.end <= len
}

spec fn field(buf: Seq<char>, r: Range<u16>) -> Seq<char> {
    buf.subrange(r.start as int, r.end as int)
}

impl Uname {
    #[verifier::type_invariant]
    spec fn inv(self) -> bool {
        &&& range_ok(self.sysname, self.buf@.len())
        &&& range_ok(self.nodename, self.buf@.len())
        &&& range_ok(self.release, self.buf@.len())
        &&& range_ok(self.version, self.buf@.len())
        &&& range_ok(self.machine, self.buf@.len())
    }
}

impl View for Uname {
    type V = UnameView;

    closed spec fn view(&self) -> UnameView {
        UnameView {
            sysname: field(self.buf@, self.sysname),
            nodename: field(self.buf@, self.nodename),
            release: field(self.buf@, self.release),
            version: field(self.buf@, self.version),
            machine: field(self.buf@, self.machine),
        }
    }
}

/// Appends `s` to `buf` and gives the range of characters it now takes.
fn add_field(buf: &mut String, s: &str) -> (r: Range<u16>)
    requires
        old(buf)@.len() + s@.len() <= u16::MAX,
    ensures
        final(buf)@ == old(buf)@ + s@,
        r.start == old(buf)@.len(),
        r.end == final(buf)@.len(),
{
    let start = buf.as_str().unicode_len();
    let v = chars_of(s);
    append_chars(buf, &v);
    let end = buf.as_str().unicode_len();
    (start as u16)..(end as u16)
}

/// A text takes at least as many bytes in UTF-8 as it has characters.
pub proof fn lemma_utf8_len(chars: Seq<char>)
    ensures
        vstd::utf8::encode_utf8(chars).len() >= chars.len(),
    decreases chars.len(),
{
    if chars.len() > 0 {
        lemma_utf8_len(chars.drop_first());
    }
}

impl Uname {
    /// Stores the five fields of a `uname(2)` report, as text.
    pub fn from_fields(
        sysname: &str,
        nodename: &str,
        release: &str,
        version: &str,
        machine: &str,
    ) -> (u: Uname)
        requires
            sysname.spec_bytes().len() + nodename.spec_bytes().len() + release.spec_bytes().len()
                + version.spec_bytes().len() + machine.spec_bytes().len() <= u16::MAX,
        ensures
            u@ == (UnameView {
                sysname: sysname@,
                nodename: nodename@,
                release: release@,
                version: version@,
                machine: machine@,
            }),
    {
        proof {
            lemma_utf8_len(sysname@);
            lemma_utf8_len(nodename@);
            lemma_utf8_len(release@);
            lemma_utf8_len(version@);
            lemma_utf8_len(machine@);
        }
        let mut buf = String::new();
        let s = add_field(&mut buf, sysname);
        let n = add_field(&mut buf, nodename);
        let r = add_field(&mut buf, release);
        let v = add_field(&mut buf, version);
        let m = add_field(&mut buf, machine);
        let ghost b = buf@;
        assert(field(b, s) =~= sysname@);
        assert(field(b, n) =~= nodename@);
        assert(field(b, r) =~= release@);
        assert(field(b, v) =~= version@);
        assert(field(b, m) =~= machine@);
        Uname { buf, sysname: s, nodename: n, release: r, version: v, machine: m }
    }

    fn gets(&self, r: &Range<u16>) -> (s: &str)
        requires
            range_ok(*r, self.buf@.len()),
        ensures
            s@ == field(self.buf@, *r),
    {
        self.buf.as_str().substring_char(r.start as usize, r.end as usize)
    }

    pub fn sysname(&self) -> (s: &str)
        ensures
            s@ == self@.sysname,
    {
        proof {
            use_type_invariant(self);
        }
        self.gets(&self.sysname)
    }

    pub fn nodename(&self) -> (s: &str)
        ensures
            s@ == self@.nodename,
    {
        proof {
            use_type_invariant(self);
        }
        self.gets(&self.nodename)
    }

    pub fn release(&self) -> (s: &str)
        ensures
            s@ == self@.release,
    {
        proof {
            use_type_invariant(self);
        }
        self.gets(&self.release)
    }

    pub fn version(&self) -> (s: &str)
        ensures
            s@ == self@.version,
    {
        proof {
            use_type_invariant(self);
        }
        self.gets(&self.version)
    }

    pub fn machine(&self) -> (s: &str)
        ensures
            s@ == self@.machine,
    {
        proof {
            use_type_invariant(self);
        }
        self.gets(&self.machine)
    }
}

} // verus!
