//! The packages a node reports: the known tools found on its search path,
//! or a list of entries.
use vstd::prelude::*;

use crate::packages::{InstalledPackages, PackageView};
use crate::text::str_eq;

verus! {

/// Whether `name` is among the executables found.
pub open spec fn has_exe(exes: Seq<String>, name: Seq<char>) -> bool {
    exists|i: int| 0 <= i < exes.len() && (#[trigger] exes[i])@ == name
}

/// The package recorded for a tool found on the search path.
pub open spec fn tool_package(name: Seq<char>) -> PackageView {
    PackageView { name, manager: "UNKNOWN"@, version: "0.0.0"@ }
}

/// The package recorded for a tool, when it was found.
pub open spec fn tool_piece(exes: Seq<String>, name: Seq<char>) -> Seq<PackageView> {
    if has_exe(exes, name) {
        seq![tool_package(name)]
    } else {
        Seq::empty()
    }
}

/// The tools looked for on the search path, in the order they are recorded.
pub open spec fn known_tools() -> Seq<Seq<char>> {
    seq!["bash"@, "cargo"@, "clang"@, "curl"@, "find"@, "gcc"@, "git"@, "lscpu"@, "make"@, "nebula"@, "nixos-build-vms"@, "nix-shell"@, "ping"@, "qemu"@, "qemu-kvm"@, "rustc"@, "systemctl"@, "systemd-nspawn"@, "systemd-vmspawn"@, "tar"@, "xz"@, "zip"@]
}

/// The packages recorded for the tools of `tools` that are among the
/// executables found, in the order of `tools`.
pub open spec fn tools_found(exes: Seq<String>, tools: Seq<Seq<char>>) -> Seq<PackageView>
    decreases tools.len(),
{
    if tools.len() == 0 {
        Seq::empty()
    } else {
        tools_found(exes, tools.drop_last()) + tool_piece(exes, tools.last())
    }
}

/// The packages recorded for the known tools among the executables found,
/// in the order of the list of known tools.
pub open spec fn tool_packages(exes: Seq<String>) -> Seq<PackageView> {
    tools_found(exes, known_tools())
}

/// The names of the known tools.
fn known_tool_names() -> (v: Vec<&'static str>)
    ensures
        v@.len() == known_tools().len(),
        forall|i: int| 0 <= i < v@.len() ==> (#[trigger] v@[i])@ == known_tools()[i],
{
    let v: Vec<&'static str> = vec!["bash", "cargo", "clang", "curl", "find", "gcc", "git", "lscpu", "make", "nebula", "nixos-build-vms", "nix-shell", "ping", "qemu", "qemu-kvm", "rustc", "systemctl", "systemd-nspawn", "systemd-vmspawn", "tar", "xz", "zip"];
    assert(v@.map_values(|s: &'static str| s@) =~= known_tools());
    assert forall|i: int| 0 <= i < v@.len() implies (#[trigger] v@[i])@ == known_tools()[i] by {
        assert(v@.map_values(|s: &'static str| s@)[i] == v@[i]@);
    }
    v
}

fn has_exe_exec(exes: &Vec<String>, name: &str) -> (r: bool)
    ensures
        r == has_exe(exes@, name@),
{
    let mut i: usize = 0;
    while i < exes.len()
        invariant
            i <= exes@.len(),
            forall|j: int| 0 <= j < i ==> (#[trigger] exes@[j])@ != name@,
        decreases exes.len() - i,
    {
        if str_eq(exes[i].as_str(), name) {
            return true;
        }
        i = i + 1;
    }
    false
}

fn add_tool(ret: &mut InstalledPackages, exes: &Vec<String>, name: &str)
    requires
        old(ret)@.len() < 100,
    ensures
        final(ret)@ == old(ret)@ + tool_piece(exes@, name@),
{
    if has_exe_exec(exes, name) {
        ret.add(name, "UNKNOWN", "0.0.0");
    } else {
        assert(old(ret)@ + Seq::<PackageView>::empty() =~= old(ret)@);
    }
}

/// The packages for the known tools that are among the executables found
/// on the search path, each as manager `UNKNOWN` and version `0.0.0`.
pub fn packages_from_path(exes: &Vec<String>) -> (ret: InstalledPackages)
    ensures
        ret@ == tool_packages(exes@),
{
    let names = known_tool_names();
    let mut ret = InstalledPackages::new();
    let mut i: usize = 0;
    assert(known_tools().take(0) =~= Seq::<Seq<char>>::empty());
    while i < names.len()
        invariant
            i <= names@.len(),
            names@.len() == known_tools().len(),
            forall|j: int| 0 <= j < names@.len() ==> (#[trigger] names@[j])@ == known_tools()[j],
            ret@ == tools_found(exes@, known_tools().take(i as int)),
            ret@.len() <= i,
        decreases names.len() - i,
    {
        add_tool(&mut ret, exes, names[i]);
        assert(known_tools().take(i + 1).drop_last() =~= known_tools().take(i as int));
        i = i + 1;
    }
    assert(known_tools().take(i as int) =~= known_tools());
    ret
}

/// A package list from its entries, each a name, a manager and a version.
pub fn packages_from_entries(entries: &Vec<(String, String, String)>) -> (ret: InstalledPackages)
    requires
        entries@.len() < usize::MAX,
    ensures
        ret@ == Seq::new(
            entries@.len(),
            |i: int|
                PackageView {
                    name: entries@[i].0@,
                    manager: entries@[i].1@,
                    version: entries@[i].2@,
                },
        ),
{
    let mut ret = InstalledPackages::new();
    let mut i: usize = 0;
    while i < entries.len()
        invariant
            i <= entries@.len(),
            entries@.len() < usize::MAX,
            ret@ == Seq::new(
                i as nat,
                |j: int|
                    PackageView {
                        name: entries@[j].0@,
                        manager: entries@[j].1@,
                        version: entries@[j].2@,
                    },
            ),
        decreases entries.len() - i,
    {
        let (n, m, v) = &entries[i];
        ret.add(n.as_str(), m.as_str(), v.as_str());
        i = i + 1;
        assert(ret@ =~= Seq::new(
            i as nat,
            |j: int|
                PackageView {
                    name: entries@[j].0@,
                    manager: entries@[j].1@,
                    version: entries@[j].2@,
                },
        ));
    }
    ret
}

/// Whether `name` is one of the tools a node looks for: bash, cargo, clang,
/// curl, find, gcc, git, lscpu, make, nebula, nixos-build-vms, nix-shell,
/// ping, qemu, qemu-kvm, rustc, systemctl, systemd-nspawn, systemd-vmspawn,
/// tar, xz and zip.
pub open spec fn is_known_tool(name: Seq<char>) -> bool {
    name == "bash"@
        || name == "cargo"@
        || name == "clang"@
        || name == "curl"@
        || name == "find"@
        || name == "gcc"@
        || name == "git"@
        || name == "lscpu"@
        || name == "make"@
        || name == "nebula"@
        || name == "nixos-build-vms"@
        || name == "nix-shell"@
        || name == "ping"@
        || name == "qemu"@
        || name == "qemu-kvm"@
        || name == "rustc"@
        || name == "systemctl"@
        || name == "systemd-nspawn"@
        || name == "systemd-vmspawn"@
        || name == "tar"@
        || name == "xz"@
        || name == "zip"@
}

proof fn lemma_tools_found(exes: Seq<String>, ts: Seq<Seq<char>>)
    ensures
        forall|j: int|
            0 <= j < ts.len() && has_exe(exes, #[trigger] ts[j]) ==> tools_found(exes, ts).contains(
                tool_package(ts[j]),
            ),
        forall|i: int|
            0 <= i < tools_found(exes, ts).len() ==> exists|j: int|
                0 <= j < ts.len() && has_exe(exes, ts[j]) && #[trigger] tools_found(exes, ts)[i]
                    == tool_package(ts[j]),
    decreases ts.len(),
{
    if ts.len() > 0 {
        let p = ts.drop_last();
        lemma_tools_found(exes, p);
        let a = tools_found(exes, p);
        let b = tool_piece(exes, ts.last());
        let r = tools_found(exes, ts);
        assert(r == a + b);
        assert forall|j: int|
            0 <= j < ts.len() && has_exe(exes, #[trigger] ts[j]) implies r.contains(
                tool_package(ts[j]),
            ) by {
            if j < p.len() {
                assert(p[j] == ts[j]);
                let k = choose|k: int| 0 <= k < a.len() && a[k] == tool_package(p[j]);
                assert(r[k] == a[k]);
            } else {
                assert(r[a.len() as int] == tool_package(ts[j]));
            }
        }
        assert forall|i: int| 0 <= i < r.len() implies exists|j: int|
            0 <= j < ts.len() && has_exe(exes, ts[j]) && #[trigger] r[i] == tool_package(ts[j]) by {
            if i < a.len() {
                assert(r[i] == a[i]);
                let j = choose|j: int|
                    0 <= j < p.len() && has_exe(exes, p[j]) && a[i] == tool_package(p[j]);
                assert(p[j] == ts[j]);
            } else {
                assert(r[i] == tool_package(ts[ts.len() - 1]));
            }
        }
    }
}

/// Every known tool that is among the executables found is recorded as a
/// package of that name, under manager `UNKNOWN` at version `0.0.0`; and
/// every recorded package is such a tool, found among the executables.
pub proof fn lemma_known_tools_recorded(exes: Seq<String>, name: Seq<char>)
    ensures
        is_known_tool(name) && has_exe(exes, name) ==> tool_packages(exes).contains(
            tool_package(name),
        ),
        forall|i: int|
            0 <= i < tool_packages(exes).len() ==> {
                &&& has_exe(exes, (#[trigger] tool_packages(exes)[i]).name)
                &&& tool_packages(exes)[i] == tool_package(tool_packages(exes)[i].name)
            },
{
    lemma_tools_found(exes, known_tools());
    if is_known_tool(name) && has_exe(exes, name) {
        if name == "bash"@ {
            assert(known_tools()[0] == name);
        } else if name == "cargo"@ {
            assert(known_tools()[1] == name);
        } else if name == "clang"@ {
            assert(known_tools()[2] == name);
        } else if name == "curl"@ {
            assert(known_tools()[3] == name);
        } else if name == "find"@ {
            assert(known_tools()[4] == name);
        } else if name == "gcc"@ {
            assert(known_tools()[5] == name);
        } else if name == "git"@ {
            assert(known_tools()[6] == name);
        } else if name == "lscpu"@ {
            assert(known_tools()[7] == name);
        } else if name == "make"@ {
            assert(known_tools()[8] == name);
        } else if name == "nebula"@ {
            assert(known_tools()[9] == name);
        } else if name == "nixos-build-vms"@ {
            assert(known_tools()[10] == name);
        } else if name == "nix-shell"@ {
            assert(known_tools()[11] == name);
        } else if name == "ping"@ {
            assert(known_tools()[12] == name);
        } else if name == "qemu"@ {
            assert(known_tools()[13] == name);
        } else if name == "qemu-kvm"@ {
            assert(known_tools()[14] == name);
        } else if name == "rustc"@ {
            assert(known_tools()[15] == name);
        } else if name == "systemctl"@ {
            assert(known_tools()[16] == name);
        } else if name == "systemd-nspawn"@ {
            assert(known_tools()[17] == name);
        } else if name == "systemd-vmspawn"@ {
            assert(known_tools()[18] == name);
        } else if name == "tar"@ {
            assert(known_tools()[19] == name);
        } else if name == "xz"@ {
            assert(known_tools()[20] == name);
        } else if name == "zip"@ {
            assert(known_tools()[21] == name);
        }
    }
    assert forall|i: int| 0 <= i < tool_packages(exes).len() implies {
        &&& has_exe(exes, (#[trigger] tool_packages(exes)[i]).name)
        &&& tool_packages(exes)[i] == tool_package(tool_packages(exes)[i].name)
    } by {
        let j = choose|j: int|
            0 <= j < known_tools().len() && has_exe(exes, known_tools()[j])
                && tool_packages(exes)[i] == tool_package(known_tools()[j]);
    }
}

} // verus!
