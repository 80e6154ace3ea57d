use gub_wire::machine::{
    status_refresh_due, thread_count, Arch, ArchParseErr, MachineStatus, OsRelease, Requirement,
    Uname, STATUS_REFRESH_NANOS,
};
use gub_wire::find_packages::{packages_from_entries, packages_from_path};
use gub_wire::packages::InstalledPackages;
use gub_wire::uname;

#[test]
fn smoke() {
    let mut pkgs = InstalledPackages::new();
    pkgs.add("curl", "dpkg", "8.2.0");
    pkgs.add("gcc-15", "dpkg", "15.2.0");

    let curl = pkgs.get_any_version("curl").unwrap();
    assert_eq!(curl.name(), "curl");
    assert_eq!(curl.version(), "8.2.0");

    let gcc = pkgs.get_any_version("gcc-15").unwrap();
    assert_eq!(gcc.name(), "gcc-15");
    assert_eq!(gcc.version(), "15.2.0");
}

#[test]
fn add_returns_the_new_package() {
    let mut pkgs = InstalledPackages::new();
    let p = pkgs.add("bash", "nix", "5.2");
    assert_eq!(p.name(), "bash");
    assert_eq!(p.manager(), "nix");
    assert_eq!(p.version(), "5.2");
    assert_eq!(pkgs.len(), 1);
}

#[test]
fn lookups_by_name_and_version() {
    let mut pkgs = InstalledPackages::new();
    pkgs.add("gcc", "dpkg", "14.2.0");
    pkgs.add("gcc", "nix", "15.2.0");
    pkgs.add("curl", "dpkg", "8.2.0");
    assert_eq!(pkgs.len(), 3);
    let first = pkgs.get_any_version("gcc").unwrap();
    assert_eq!(first.version(), "14.2.0");
    assert_eq!(first.manager(), "dpkg");
    let second = pkgs.get("gcc", "15.2.0").unwrap();
    assert_eq!(second.manager(), "nix");
    assert!(pkgs.get("gcc", "13.0.0").is_none());
    assert!(pkgs.get_any_version("clang").is_none());
    assert!(InstalledPackages::new().get_any_version("gcc").is_none());
}

#[test]
fn iteration_in_insertion_order() {
    let mut pkgs = InstalledPackages::new();
    pkgs.add("b", "m1", "1");
    pkgs.add("a", "m2", "2");
    pkgs.add("b", "m1", "3");
    let items: Vec<(String, String, String)> = pkgs
        .iter()
        .into_iter()
        .map(|p| (p.name().to_string(), p.manager().to_string(), p.version().to_string()))
        .collect();
    assert_eq!(
        items,
        vec![
            ("b".to_string(), "m1".to_string(), "1".to_string()),
            ("a".to_string(), "m2".to_string(), "2".to_string()),
            ("b".to_string(), "m1".to_string(), "3".to_string()),
        ]
    );
}

#[test]
fn packages_from_known_tools() {
    let exes: Vec<String> =
        vec!["zip".into(), "ls".into(), "bash".into(), "git".into(), "bash".into()];
    let pkgs = packages_from_path(&exes);
    let names: Vec<String> = pkgs.iter().into_iter().map(|p| p.name().to_string()).collect();
    assert_eq!(names, vec!["bash", "git", "zip"]);
    let bash = pkgs.get_any_version("bash").unwrap();
    assert_eq!(bash.manager(), "UNKNOWN");
    assert_eq!(bash.version(), "0.0.0");
    assert!(pkgs.get_any_version("ls").is_none());
    assert_eq!(packages_from_path(&vec![]).len(), 0);
}

#[test]
fn packages_from_entry_list() {
    let entries = vec![
        ("curl".to_string(), "dpkg".to_string(), "8.2.0".to_string()),
        ("gcc".to_string(), "dpkg".to_string(), "14".to_string()),
    ];
    let pkgs = packages_from_entries(&entries);
    assert_eq!(pkgs.len(), 2);
    assert_eq!(pkgs.get("gcc", "14").unwrap().manager(), "dpkg");
}

#[test]
fn arch_names() {
    assert_eq!(Arch::parse("x86_64"), Ok(Arch::X86_64));
    assert_eq!(Arch::parse("x64"), Ok(Arch::X86_64));
    assert_eq!(Arch::parse("arm64"), Ok(Arch::Arm64));
    assert_eq!(Arch::parse("aarch64"), Err(ArchParseErr));
    assert_eq!(Arch::parse(""), Err(ArchParseErr));
    assert_eq!("arm64".parse::<Arch>(), Ok(Arch::Arm64));
    assert_eq!(ArchParseErr.message(), "invalid architecture");
}

#[test]
fn uname_from_raw_report() {
    let raw = uname::Uname::from_fields("Linux", "reimu", "6.12.0", "#1 SMP", "x86_64");
    assert_eq!(raw.sysname(), "Linux");
    assert_eq!(raw.nodename(), "reimu");
    assert_eq!(raw.release(), "6.12.0");
    assert_eq!(raw.version(), "#1 SMP");
    assert_eq!(raw.machine(), "x86_64");
    let u = Uname::try_from_raw(&raw).unwrap();
    assert_eq!(u.name, "Linux");
    assert_eq!(u.nodename, "reimu");
    assert_eq!(u.release, "6.12.0");
    assert_eq!(u.version, "#1 SMP");
    assert_eq!(u.machine, Arch::X86_64);
    let odd = uname::Uname::from_fields("Linux", "n", "r", "v", "riscv64");
    assert!(Uname::try_from_raw(&odd).is_err());
}

#[test]
fn os_release_fields() {
    let os = "NAME=\"NixOS\"\nID=nixos\nVERSION_ID=\"26.11\"\nPRETTY_NAME=\"NixOS 26.11 (Zokor)\"\nVERSION=\"26.11 (Zokor)\"\nID=other\n";
    let r = OsRelease::from_release_texts(os, "", "Linux", "linux");
    assert_eq!(r.name, "NixOS");
    assert_eq!(r.id, "nixos");
    assert_eq!(r.pretty_name, "NixOS 26.11 (Zokor)");
    assert_eq!(r.version_id.as_deref(), Some("26.11"));
    assert_eq!(r.version.as_deref(), Some("26.11 (Zokor)"));
}

#[test]
fn os_release_defaults_and_lsb() {
    let r = OsRelease::from_release_texts("", "", "Linux", "linux");
    assert_eq!(r.name, "Linux");
    assert_eq!(r.pretty_name, "Linux");
    assert_eq!(r.id, "linux");
    assert_eq!(r.version_id, None);
    assert_eq!(r.version, None);
    let lsb = "ID=debian\nVERSION_ID=12\n";
    let r2 = OsRelease::from_release_texts("NAME=Debian\n", lsb, "Linux", "linux");
    assert_eq!(r2.name, "Debian");
    assert_eq!(r2.id, "debian");
    assert_eq!(r2.version_id.as_deref(), Some("12"));
}

#[test]
fn status_from_readings() {
    let s = MachineStatus::from_readings(4096, &vec![250, 1000, 0]);
    assert_eq!(s.mem_used.bytes(), 4096);
    assert_eq!(s.avg_avail_cpu, 1250);
    let d = MachineStatus::default();
    assert_eq!(d.mem_used.bytes(), 0);
    assert_eq!(d.avg_avail_cpu, 0);
}

#[test]
fn thread_counts_are_capped() {
    assert_eq!(thread_count(12), 12);
    assert_eq!(thread_count(65535), 65535);
    assert_eq!(thread_count(70000), u16::MAX);
}

#[test]
fn refresh_interval() {
    assert!(!status_refresh_due(0));
    assert!(!status_refresh_due(STATUS_REFRESH_NANOS - 1));
    assert!(status_refresh_due(STATUS_REFRESH_NANOS));
}

#[test]
fn requirements() {
    assert!(Requirement::Require.check(true));
    assert!(!Requirement::Require.check(false));
    assert!(Requirement::Allow.check(false));
    assert!(Requirement::Forbid.check(false));
    assert!(!Requirement::Forbid.check(true));
}

struct PackageShape<'a>(&'a str, &'a str, &'a str);

impl std::fmt::Debug for PackageShape<'_> {
    fn fmt(&self, f: &mut std::fmt::Formatter<'_>) -> std::fmt::Result {
        f.debug_struct("Package")
            .field("name", &self.0)
            .field("version", &self.1)
            .field("manager", &self.2)
            .finish()
    }
}

struct PackagesShape<'a>(Vec<&'a str>, Vec<PackageShape<'a>>);

impl std::fmt::Debug for PackagesShape<'_> {
    fn fmt(&self, f: &mut std::fmt::Formatter<'_>) -> std::fmt::Result {
        f.debug_struct("Packages").field("managers", &self.0).field("pkgs", &self.1).finish()
    }
}

#[test]
fn package_equality_by_fields() {
    let mut a = InstalledPackages::new();
    a.add("curl", "dpkg", "8.2.0");
    a.add("gcc", "dpkg", "14");
    let mut b = InstalledPackages::new();
    b.add("gcc", "nix", "14");
    b.add("curl", "dpkg", "8.2.0");
    b.add("gcc", "dpkg", "14");
    assert!(a.get_any_version("curl").unwrap() == b.get_any_version("curl").unwrap());
    assert!(a.get_any_version("gcc").unwrap() != b.get_any_version("gcc").unwrap());
    assert!(a.get("gcc", "14").unwrap() != b.get("gcc", "14").unwrap());
    let bl = b.iter();
    assert!(a.get_any_version("gcc").unwrap() == bl[2]);
}

#[test]
fn package_debug_texts() {
    let mut p = InstalledPackages::new();
    p.add("curl", "dpkg", "8.2.0");
    p.add("rustc", "rustup", "1.96.0");
    p.add("gcc", "dpkg", "14\"");
    let curl = p.get_any_version("curl").unwrap();
    assert_eq!(
        curl.debug_text(false),
        "Package { name: \"curl\", version: \"8.2.0\", manager: \"dpkg\" }"
    );
    let shape = PackagesShape(
        vec!["dpkg", "rustup"],
        vec![
            PackageShape("curl", "8.2.0", "dpkg"),
            PackageShape("rustc", "1.96.0", "rustup"),
            PackageShape("gcc", "14\"", "dpkg"),
        ],
    );
    assert_eq!(p.debug_text(false), format!("{shape:?}"));
    assert_eq!(p.debug_text(true), format!("{shape:#?}"));
    let empty = PackagesShape(vec![], vec![]);
    assert_eq!(InstalledPackages::new().debug_text(true), format!("{empty:#?}"));
}

#[test]
fn uname_fields_keep_non_ascii() {
    let raw = uname::Uname::from_fields("Linux", "ノード", "6.12.0", "#1 SMP é", "x86_64");
    assert_eq!(raw.nodename(), "ノード");
    assert_eq!(raw.version(), "#1 SMP é");
    assert_eq!(raw.machine(), "x86_64");
}
