use cascade_dylib::{
    cascade_needs_native_reexport, cascade_rpath_args, is_no_std, unit_needs_std_link, unit_std_link_gate,
    BuildContext,
    CompileKind, CrateType, Package, Profile, Target, TargetKind, TargetSourcePath, Unit,
};

fn lib_target(types: Vec<CrateType>) -> Target {
    Target { kind: TargetKind::Lib(types), src_path: TargetSourcePath::Path("src/lib.rs".to_string()) }
}

fn bin_target() -> Target {
    Target { kind: TargetKind::Bin, src_path: TargetSourcePath::Path("src/main.rs".to_string()) }
}

fn pkg(targets: Vec<Target>) -> Package {
    Package { targets }
}

fn unit(target: Target, profile: Option<Vec<CrateType>>, kind: CompileKind) -> Unit {
    Unit { target, profile: Profile { crate_type: profile }, kind }
}

fn bcx(active: bool, host: &str) -> BuildContext {
    BuildContext { cascade_dylib: active, host_triple: host.to_string() }
}

#[test]
fn no_std_package_detected_by_any_target() {
    let p = pkg(vec![bin_target(), lib_target(vec![CrateType::Lib])]);
    let sources = vec![Some("fn main() {}".to_string()), Some("#![no_std]".to_string())];
    assert!(is_no_std(&p, &sources));
    let sources = vec![Some("#![no_std]".to_string()), None];
    assert!(is_no_std(&p, &sources));
    let sources = vec![None, Some("pub fn x() {}".to_string())];
    assert!(!is_no_std(&p, &sources));
    // Sources missing for some targets count as not `no_std`.
    assert!(!is_no_std(&p, &vec![]));
}

#[test]
fn metabuild_targets_are_skipped() {
    let p = pkg(vec![Target { kind: TargetKind::CustomBuild, src_path: TargetSourcePath::Metabuild }]);
    assert!(!is_no_std(&p, &vec![Some("#![no_std]".to_string())]));
}

#[test]
fn std_link_needed_only_for_overridden_no_std_lib_dylibs() {
    let lib = lib_target(vec![CrateType::Lib]);
    let p = pkg(vec![lib_target(vec![CrateType::Lib])]);
    let no_std = vec![Some("#![no_std]\n".to_string())];
    let with_std = vec![Some("pub fn x() {}\n".to_string())];
    let over = [CrateType::Lib, CrateType::Dylib];
    assert!(unit_needs_std_link(Some(&over), &lib, &p, &no_std));
    assert!(!unit_needs_std_link(None, &lib, &p, &no_std));
    assert!(!unit_needs_std_link(Some(&[CrateType::Lib, CrateType::Rlib]), &lib, &p, &no_std));
    assert!(!unit_needs_std_link(Some(&over), &bin_target(), &p, &no_std));
    assert!(!unit_needs_std_link(Some(&over), &lib, &p, &with_std));
    assert!(!unit_needs_std_link(Some(&[CrateType::Other("dylib".to_string())]), &lib, &p, &no_std));
}

fn link_arg(rpath: &str) -> Vec<String> {
    vec!["-C".to_string(), format!("link-arg=-Wl,-rpath,{}", rpath)]
}

#[test]
fn rpath_per_platform() {
    let u = unit(lib_target(vec![CrateType::Dylib]), None, CompileKind::Host);
    assert_eq!(cascade_rpath_args(&bcx(true, "aarch64-apple-darwin"), &u), link_arg("@loader_path/deps"));
    assert_eq!(cascade_rpath_args(&bcx(true, "x86_64-unknown-linux-gnu"), &u), link_arg("$ORIGIN/deps"));
    assert_eq!(cascade_rpath_args(&bcx(true, "x86_64-unknown-freebsd"), &u), link_arg("$ORIGIN/deps"));
    assert_eq!(cascade_rpath_args(&bcx(true, "x86_64-unknown-netbsd"), &u), link_arg("$ORIGIN/deps"));
    assert_eq!(cascade_rpath_args(&bcx(true, "x86_64-unknown-openbsd"), &u), link_arg("$ORIGIN/deps"));
    assert_eq!(cascade_rpath_args(&bcx(true, "x86_64-unknown-dragonfly"), &u), link_arg("$ORIGIN/deps"));
    assert!(cascade_rpath_args(&bcx(true, "x86_64-pc-windows-msvc"), &u).is_empty());
}

#[test]
fn rpath_follows_the_unit_kind() {
    let u = unit(lib_target(vec![CrateType::Dylib]), None, CompileKind::Target("aarch64-apple-ios".to_string()));
    assert_eq!(cascade_rpath_args(&bcx(true, "x86_64-unknown-linux-gnu"), &u), link_arg("@loader_path/deps"));
}

#[test]
fn rpath_gates() {
    let manifest_dylib = unit(lib_target(vec![CrateType::Dylib]), None, CompileKind::Host);
    let profile_dylib = unit(lib_target(vec![CrateType::Lib]), Some(vec![CrateType::Lib, CrateType::Dylib]), CompileKind::Host);
    let plain = unit(lib_target(vec![CrateType::Lib]), Some(vec![CrateType::Rlib]), CompileKind::Host);
    let binary = unit(bin_target(), Some(vec![CrateType::Dylib]), CompileKind::Host);
    let linux = bcx(true, "x86_64-unknown-linux-gnu");
    assert_eq!(cascade_rpath_args(&linux, &profile_dylib), link_arg("$ORIGIN/deps"));
    assert!(cascade_rpath_args(&linux, &plain).is_empty());
    assert!(cascade_rpath_args(&linux, &binary).is_empty());
    assert!(cascade_rpath_args(&bcx(false, "x86_64-unknown-linux-gnu"), &manifest_dylib).is_empty());
}

#[test]
fn native_reexport_only_for_promoted_apple_dylibs() {
    let u = unit(lib_target(vec![CrateType::Lib]), Some(vec![CrateType::Dylib]), CompileKind::Host);
    let mac = bcx(true, "x86_64-apple-darwin");
    assert!(cascade_needs_native_reexport(&mac, &u));
    assert_eq!(cascade_rpath_args(&mac, &u), link_arg("@loader_path/deps"));
    assert!(!cascade_needs_native_reexport(&bcx(true, "x86_64-unknown-linux-gnu"), &u));
    assert!(!cascade_needs_native_reexport(&bcx(false, "x86_64-apple-darwin"), &u));
    let rlib = unit(lib_target(vec![CrateType::Rlib]), None, CompileKind::Host);
    assert!(!cascade_needs_native_reexport(&mac, &rlib));
    let example = unit(
        Target { kind: TargetKind::ExampleLib(vec![CrateType::Dylib]), src_path: TargetSourcePath::Metabuild },
        None,
        CompileKind::Host,
    );
    assert!(!cascade_needs_native_reexport(&mac, &example));
}

#[test]
fn std_link_gate_before_sources() {
    let lib = lib_target(vec![CrateType::Lib]);
    assert!(unit_std_link_gate(Some(&[CrateType::Dylib]), &lib));
    assert!(!unit_std_link_gate(Some(&[CrateType::Cdylib]), &lib));
    assert!(!unit_std_link_gate(Some(&[]), &lib));
    assert!(!unit_std_link_gate(None, &lib));
    assert!(!unit_std_link_gate(Some(&[CrateType::Dylib]), &bin_target()));
}
