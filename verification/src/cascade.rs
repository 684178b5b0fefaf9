//! The unit-level gates of the `cascade-dylib` machinery: whether a unit
//! needs `std` force-linked, which rpath it needs, and whether it must
//! re-export the C symbols of the native archives it links.
use vstd::prelude::*;
use vstd::string::StringSliceAdditionalSpecFns;
use vstd::string::StringExecFns;
use vstd::utf8::encode_utf8;
use crate::bytes::{contains, contains_bytes};
use crate::no_std_scan::{declares_no_std, scan_for_no_std};

verus! {

/// The kinds of artifact rustc can be asked to emit.
pub enum CrateType {
    Bin,
    Lib,
    Rlib,
    Dylib,
    Cdylib,
    Staticlib,
    ProcMacro,
    Other(String),
}

/// What a target is, with the crate types of the library-shaped ones.
pub enum TargetKind {
    Lib(Vec<CrateType>),
    Bin,
    Test,
    Bench,
    ExampleLib(Vec<CrateType>),
    ExampleBin,
    CustomBuild,
}

/// Where a target's root source file is.
pub enum TargetSourcePath {
    Path(String),
    Metabuild,
}

/// A compilation target of a package.
pub struct Target {
    pub kind: TargetKind,
    pub src_path: TargetSourcePath,
}

/// A package, with its targets in manifest order.
pub struct Package {
    pub targets: Vec<Target>,
}

/// The platform a unit is compiled for: the host, or a target triple.
pub enum CompileKind {
    Host,
    Target(String),
}

/// The part of a unit's profile the cascade gates read: the crate-type
/// override set when `cascade-dylib` promoted the package.
pub struct Profile {
    pub crate_type: Option<Vec<CrateType>>,
}

/// One rustc invocation to be made.
pub struct Unit {
    pub target: Target,
    pub profile: Profile,
    pub kind: CompileKind,
}

/// The build-wide facts the cascade gates read: whether
/// `-Z cascade-dylib` is active, and the host's target triple.
pub struct BuildContext {
    pub cascade_dylib: bool,
    pub host_triple: String,
}

/// `Dylib` occurs among `types`.
pub open spec fn contains_dylib(types: Seq<CrateType>) -> bool {
    exists|i: int| 0 <= i < types.len() && types[i] is Dylib
}

/// The target is a library.
pub open spec fn target_is_lib(t: Target) -> bool {
    t.kind is Lib
}

/// The crate types rustc emits for the target as the manifest declares it.
pub open spec fn rustc_crate_types(t: Target) -> Seq<CrateType> {
    match t.kind {
        TargetKind::Lib(types) => types@,
        TargetKind::ExampleLib(types) => types@,
        _ => seq![CrateType::Bin],
    }
}

/// The short name of the platform a unit is built for.
pub open spec fn short_name_of(bcx: BuildContext, kind: CompileKind) -> Seq<char> {
    match kind {
        CompileKind::Host => bcx.host_triple@,
        CompileKind::Target(triple) => triple@,
    }
}

fn has_dylib(types: &[CrateType]) -> (r: bool)
    ensures
        r == contains_dylib(types@),
{
    let mut i: usize = 0;
    while i < types.len()
        invariant
            i <= types@.len(),
            forall|j: int| 0 <= j < i ==> !(types@[j] is Dylib),
        decreases types.len() - i,
    {
        if let CrateType::Dylib = types[i] {
            return true;
        }
        i = i + 1;
    }
    false
}

impl Target {
    /// Whether this target is a library.
    pub fn is_lib(&self) -> (r: bool)
        ensures
            r == target_is_lib(*self),
    {
        match self.kind {
            TargetKind::Lib(_) => true,
            _ => false,
        }
    }

    /// Whether the crate types rustc emits for this target include `dylib`.
    pub fn emits_dylib(&self) -> (r: bool)
        ensures
            r == contains_dylib(rustc_crate_types(*self)),
    {
        match &self.kind {
            TargetKind::Lib(types) => has_dylib(types.as_slice()),
            TargetKind::ExampleLib(types) => has_dylib(types.as_slice()),
            _ => {
                assert(!(rustc_crate_types(*self)[0] is Dylib));
                false
            },
        }
    }
}

impl BuildContext {
    /// The short name of the platform `kind` stands for.
    pub fn short_name<'a>(&'a self, kind: &'a CompileKind) -> (r: &'a str)
        ensures
            r@ == short_name_of(*self, *kind),
    {
        match kind {
            CompileKind::Host => self.host_triple.as_str(),
            CompileKind::Target(triple) => triple.as_str(),
        }
    }
}


/// The root source file of target `i`, as `root_sources[i]` holds it,
/// declares `no_std`; `root_sources[i]` is `None` when the target has no
/// file path or the file could not be read.
pub open spec fn target_declares_no_std(t: Target, i: int, root_sources: Seq<Option<String>>) -> bool {
    &&& t.src_path is Path
    &&& 0 <= i < root_sources.len()
    &&& root_sources[i] matches Some(text) && declares_no_std(encode_utf8(text@))
}

/// Some target of the package has a root source file that declares
/// `no_std` at its top.
pub open spec fn package_is_no_std(pkg: Package, root_sources: Seq<Option<String>>) -> bool {
    exists|i: int| 0 <= i < pkg.targets@.len() && target_declares_no_std(pkg.targets@[i], i, root_sources)
}

/// Heuristic `no_std` detection: whether any of `pkg`'s targets has a root
/// source file that declares `#![no_std]` at the top of the file.
/// `root_sources[i]` holds the text of target `i`'s root file.
pub fn is_no_std(pkg: &Package, root_sources: &Vec<Option<String>>) -> (r: bool)
    ensures
        r == package_is_no_std(*pkg, root_sources@),
{
    let mut i: usize = 0;
    while i < pkg.targets.len()
        invariant
            i <= pkg.targets@.len(),
            forall|j: int| 0 <= j < i ==> !target_declares_no_std(pkg.targets@[j], j, root_sources@),
        decreases pkg.targets.len() - i,
    {
        if let TargetSourcePath::Path(_) = pkg.targets[i].src_path {
            if i < root_sources.len() {
                if let Some(text) = &root_sources[i] {
                    if scan_for_no_std(text.as_str()) {
                        return true;
                    }
                }
            }
        }
        i = i + 1;
    }
    false
}

/// The gates of `unit_needs_std_link` that need no source text: the
/// profile carries a crate-type override that produces a `dylib`, and the
/// target is a library.
pub open spec fn std_link_gate(profile_crate_type: Option<&[CrateType]>, target: Target) -> bool {
    &&& profile_crate_type matches Some(types) && contains_dylib(types@)
    &&& target_is_lib(target)
}

/// Whether the unit passes the gates of `unit_needs_std_link` that come
/// before looking at the package's source files.
pub fn unit_std_link_gate(profile_crate_type: Option<&[CrateType]>, target: &Target) -> (r: bool)
    ensures
        r == std_link_gate(profile_crate_type, *target),
{
    let crate_types = match profile_crate_type {
        Some(types) => types,
        None => return false,
    };
    if !target.is_lib() {
        return false;
    }
    has_dylib(crate_types)
}

/// Whether the unit's dylib emission needs `std` force-linked in: its
/// profile carries a crate-type override, the target is a library, the
/// override produces a `dylib`, and the package is `no_std`.
pub fn unit_needs_std_link(
    profile_crate_type: Option<&[CrateType]>,
    target: &Target,
    pkg: &Package,
    root_sources: &Vec<Option<String>>,
) -> (r: bool)
    ensures
        r == (std_link_gate(profile_crate_type, *target) && package_is_no_std(*pkg, root_sources@)),
{
    if !unit_std_link_gate(profile_crate_type, target) {
        return false;
    }
    is_no_std(pkg, root_sources)
}

/// The bytes `-apple-`.
pub open spec fn apple_marker() -> Seq<u8> {
    seq![0x2du8, 0x61, 0x70, 0x70, 0x6c, 0x65, 0x2d]
}

/// The triple names an ELF platform that honours `$ORIGIN` rpaths.
pub open spec fn is_origin_platform(triple: Seq<u8>) -> bool {
    ||| contains_bytes(triple, seq![0x2du8, 0x6c, 0x69, 0x6e, 0x75, 0x78, 0x2d])
    ||| contains_bytes(triple, seq![0x2du8, 0x66, 0x72, 0x65, 0x65, 0x62, 0x73, 0x64])
    ||| contains_bytes(triple, seq![0x2du8, 0x6e, 0x65, 0x74, 0x62, 0x73, 0x64])
    ||| contains_bytes(triple, seq![0x2du8, 0x6f, 0x70, 0x65, 0x6e, 0x62, 0x73, 0x64])
    ||| contains_bytes(triple, seq![0x2du8, 0x64, 0x72, 0x61, 0x67, 0x6f, 0x6e, 0x66, 0x6c, 0x79])
}

/// The rpath entry that reaches `<profile>/deps/` from a dylib in
/// `<profile>/`, for the platforms that use rpaths.
pub open spec fn rpath_for(triple: Seq<u8>) -> Option<Seq<char>> {
    if contains_bytes(triple, apple_marker()) {
        Some("@loader_path/deps"@)
    } else if is_origin_platform(triple) {
        Some("$ORIGIN/deps"@)
    } else {
        None
    }
}

/// `-Z cascade-dylib` is active and the unit is a library whose crate
/// types, as the manifest declares them or as the profile overrides them,
/// include `dylib`.
pub open spec fn promoted_lib_dylib(bcx: BuildContext, unit: Unit) -> bool {
    &&& bcx.cascade_dylib
    &&& target_is_lib(unit.target)
    &&& (contains_dylib(rustc_crate_types(unit.target)) || (unit.profile.crate_type matches Some(
        types,
    ) && contains_dylib(types@)))
}

/// The unit's platform triple, as bytes.
pub open spec fn unit_triple(bcx: BuildContext, unit: Unit) -> Seq<u8> {
    encode_utf8(short_name_of(bcx, unit.kind))
}

/// The rpath arguments a unit gets: `-C link-arg=-Wl,-rpath,<entry>` for a
/// promoted library dylib on a platform with rpaths, none otherwise.
pub open spec fn rpath_args(bcx: BuildContext, unit: Unit) -> Seq<Seq<char>> {
    if promoted_lib_dylib(bcx, unit) && rpath_for(unit_triple(bcx, unit)) is Some {
        seq!["-C"@, "link-arg=-Wl,-rpath,"@ + rpath_for(unit_triple(bcx, unit))->0]
    } else {
        Seq::empty()
    }
}

/// A promoted library dylib on macOS must force-load and re-export the C
/// symbols of the native archives it links.
pub open spec fn needs_native_reexport(bcx: BuildContext, unit: Unit) -> bool {
    promoted_lib_dylib(bcx, unit) && contains_bytes(unit_triple(bcx, unit), apple_marker())
}

fn is_promoted_lib_dylib(bcx: &BuildContext, unit: &Unit) -> (r: bool)
    ensures
        r == promoted_lib_dylib(*bcx, *unit),
{
    if !bcx.cascade_dylib {
        return false;
    }
    if !unit.target.is_lib() {
        return false;
    }
    let manifest_dylib = unit.target.emits_dylib();
    let profile_dylib = match &unit.profile.crate_type {
        Some(types) => has_dylib(types.as_slice()),
        None => false,
    };
    manifest_dylib || profile_dylib
}

fn is_apple(triple: &str) -> (r: bool)
    ensures
        r == contains_bytes(triple.spec_bytes(), apple_marker()),
{
    let apple: [u8; 7] = [0x2du8, 0x61, 0x70, 0x70, 0x6c, 0x65, 0x2d];
    assert(apple@ == apple_marker());
    contains(triple.as_bytes(), apple.as_slice())
}

fn uses_origin_rpath(triple: &str) -> (r: bool)
    ensures
        r == is_origin_platform(triple.spec_bytes()),
{
    let b = triple.as_bytes();
    let linux: [u8; 7] = [0x2du8, 0x6c, 0x69, 0x6e, 0x75, 0x78, 0x2d];
    let freebsd: [u8; 8] = [0x2du8, 0x66, 0x72, 0x65, 0x65, 0x62, 0x73, 0x64];
    let netbsd: [u8; 7] = [0x2du8, 0x6e, 0x65, 0x74, 0x62, 0x73, 0x64];
    let openbsd: [u8; 8] = [0x2du8, 0x6f, 0x70, 0x65, 0x6e, 0x62, 0x73, 0x64];
    let dragonfly: [u8; 10] = [0x2du8, 0x64, 0x72, 0x61, 0x67, 0x6f, 0x6e, 0x66, 0x6c, 0x79];
    assert(linux@ == seq![0x2du8, 0x6c, 0x69, 0x6e, 0x75, 0x78, 0x2d]);
    assert(freebsd@ == seq![0x2du8, 0x66, 0x72, 0x65, 0x65, 0x62, 0x73, 0x64]);
    assert(netbsd@ == seq![0x2du8, 0x6e, 0x65, 0x74, 0x62, 0x73, 0x64]);
    assert(openbsd@ == seq![0x2du8, 0x6f, 0x70, 0x65, 0x6e, 0x62, 0x73, 0x64]);
    assert(dragonfly@ == seq![0x2du8, 0x64, 0x72, 0x61, 0x67, 0x6f, 0x6e, 0x66, 0x6c, 0x79]);
    contains(b, linux.as_slice()) || contains(b, freebsd.as_slice()) || contains(b, netbsd.as_slice())
        || contains(b, openbsd.as_slice()) || contains(b, dragonfly.as_slice())
}

/// The `-C link-arg=-Wl,-rpath,...` pair that puts `<profile>/deps/` on a
/// promoted dylib's runtime search path: `@loader_path/deps` on Apple
/// platforms, `$ORIGIN/deps` on Linux and the BSDs, nothing elsewhere
/// (Windows does not use rpaths) or when the unit is no promoted library
/// dylib.
pub fn cascade_rpath_args(bcx: &BuildContext, unit: &Unit) -> (r: Vec<String>)
    ensures
        r@.map_values(|a: String| a@) == rpath_args(*bcx, *unit),
{
    let mut r: Vec<String> = Vec::new();
    if !is_promoted_lib_dylib(bcx, unit) {
        assert(r@.map_values(|a: String| a@) =~= rpath_args(*bcx, *unit));
        return r;
    }
    let triple = bcx.short_name(&unit.kind);
    let rpath = if is_apple(triple) {
        "@loader_path/deps"
    } else if uses_origin_rpath(triple) {
        "$ORIGIN/deps"
    } else {
        assert(r@.map_values(|a: String| a@) =~= rpath_args(*bcx, *unit));
        return r;
    };
    let mut link_arg = "link-arg=-Wl,-rpath,".to_owned();
    link_arg.append(rpath);
    r.push("-C".to_owned());
    r.push(link_arg);
    assert(r@.map_values(|a: String| a@) =~= rpath_args(*bcx, *unit));
    r
}

/// Whether a cascade-promoted dylib should force-load and re-export the C
/// symbols of any native static archive it links: a promoted library
/// dylib on macOS.
pub fn cascade_needs_native_reexport(bcx: &BuildContext, unit: &Unit) -> (r: bool)
    ensures
        r == needs_native_reexport(*bcx, *unit),
{
    if !is_promoted_lib_dylib(bcx, unit) {
        return false;
    }
    is_apple(bcx.short_name(&unit.kind))
}

/// A unit that must re-export native symbols is a unit that gets the
/// `@loader_path/deps` rpath: both gates agree on which units are
/// promoted Apple library dylibs.
pub proof fn law_native_reexport_has_loader_rpath(bcx: BuildContext, unit: Unit)
    requires
        needs_native_reexport(bcx, unit),
    ensures
        rpath_args(bcx, unit) == seq!["-C"@, "link-arg=-Wl,-rpath,"@ + "@loader_path/deps"@],
{
}


/// `Dylib` is among the crate types the manifest declares for the unit's
/// library target, or among those its profile override sets, stated
/// directly over the enum variants.
pub open spec fn asks_for_dylib(unit: Unit) -> bool {
    ||| (unit.target.kind matches TargetKind::Lib(types) && exists|i: int|
        0 <= i < types@.len() && #[trigger] types@[i] is Dylib)
    ||| (unit.profile.crate_type matches Some(types) && exists|i: int|
        0 <= i < types@.len() && #[trigger] types@[i] is Dylib)
}

/// The bytes of the unit's platform triple, read from the kind directly.
pub open spec fn triple_bytes(bcx: BuildContext, unit: Unit) -> Seq<u8> {
    encode_utf8(
        match unit.kind {
            CompileKind::Host => bcx.host_triple@,
            CompileKind::Target(t) => t@,
        },
    )
}

/// Rpath arguments go only to library units of a cascade build whose
/// manifest or profile override asks for a `dylib`.
pub proof fn law_rpath_only_for_dylib_libraries(bcx: BuildContext, unit: Unit)
    requires
        rpath_args(bcx, unit).len() > 0,
    ensures
        bcx.cascade_dylib,
        unit.target.kind is Lib,
        asks_for_dylib(unit),
{
}

/// A library unit of a cascade build that asks for a `dylib` gets
/// `-C link-arg=-Wl,-rpath,@loader_path/deps` on an Apple triple, and
/// `-C link-arg=-Wl,-rpath,$ORIGIN/deps` on a Linux triple.
pub proof fn law_rpath_of_dylib_libraries(bcx: BuildContext, unit: Unit)
    requires
        bcx.cascade_dylib,
        unit.target.kind is Lib,
        asks_for_dylib(unit),
    ensures
        contains_bytes(triple_bytes(bcx, unit), seq![0x2du8, 0x61, 0x70, 0x70, 0x6c, 0x65, 0x2d])
            ==> rpath_args(bcx, unit) == seq!["-C"@, "link-arg=-Wl,-rpath,"@ + "@loader_path/deps"@],
        !contains_bytes(triple_bytes(bcx, unit), seq![0x2du8, 0x61, 0x70, 0x70, 0x6c, 0x65, 0x2d])
            && contains_bytes(triple_bytes(bcx, unit), seq![0x2du8, 0x6c, 0x69, 0x6e, 0x75, 0x78, 0x2d])
            ==> rpath_args(bcx, unit) == seq!["-C"@, "link-arg=-Wl,-rpath,"@ + "$ORIGIN/deps"@],
{
    assert(unit_triple(bcx, unit) == triple_bytes(bcx, unit));
    if unit.target.kind matches TargetKind::Lib(types) && exists|i: int|
        0 <= i < types@.len() && #[trigger] types@[i] is Dylib {
        assert(contains_dylib(rustc_crate_types(unit.target)));
    }
}

/// A library unit of a cascade build that asks for a `dylib` (through its
/// manifest or its profile override) on an Apple triple must re-export the
/// native symbols it links.
pub proof fn law_apple_dylib_libraries_reexport(bcx: BuildContext, unit: Unit)
    requires
        bcx.cascade_dylib,
        unit.target.kind is Lib,
        asks_for_dylib(unit),
        contains_bytes(triple_bytes(bcx, unit), seq![0x2du8, 0x61, 0x70, 0x70, 0x6c, 0x65, 0x2d]),
    ensures
        needs_native_reexport(bcx, unit),
{
    law_rpath_of_dylib_libraries(bcx, unit);
    assert(unit_triple(bcx, unit) == triple_bytes(bcx, unit));
    if unit.target.kind matches TargetKind::Lib(types) && exists|i: int|
        0 <= i < types@.len() && #[trigger] types@[i] is Dylib {
        assert(contains_dylib(rustc_crate_types(unit.target)));
    }
}

/// The two gates agree: a unit re-exports native symbols exactly when it
/// gets the `@loader_path/deps` rpath.
pub proof fn law_native_reexport_iff_loader_rpath(bcx: BuildContext, unit: Unit)
    ensures
        needs_native_reexport(bcx, unit) <==> rpath_args(bcx, unit) == seq![
            "-C"@,
            "link-arg=-Wl,-rpath,"@ + "@loader_path/deps"@,
        ],
{
    reveal_strlit("@loader_path/deps");
    reveal_strlit("$ORIGIN/deps");
    reveal_strlit("-C");
    if rpath_args(bcx, unit) == seq!["-C"@, "link-arg=-Wl,-rpath,"@ + "@loader_path/deps"@] {
        assert(rpath_args(bcx, unit).len() == 2);
        if !contains_bytes(unit_triple(bcx, unit), apple_marker()) {
            let a = "link-arg=-Wl,-rpath,"@ + "@loader_path/deps"@;
            let b = "link-arg=-Wl,-rpath,"@ + "$ORIGIN/deps"@;
            assert(a.len() != b.len());
        }
    }
}

/// One target whose readable root file declares `no_std` makes the whole
/// package `no_std`, whatever the other targets hold.
pub proof fn law_one_no_std_target_suffices(pkg: Package, root_sources: Seq<Option<String>>, i: int)
    requires
        0 <= i < pkg.targets@.len(),
        pkg.targets@[i].src_path is Path,
        i < root_sources.len(),
        root_sources[i] matches Some(text) && declares_no_std(encode_utf8(text@)),
    ensures
        package_is_no_std(pkg, root_sources),
{
    assert(target_declares_no_std(pkg.targets@[i], i, root_sources));
}

/// A package is `no_std` only through a target with a file path whose root
/// text is at hand and declares `no_std`.
pub proof fn law_no_std_package_has_a_no_std_target(pkg: Package, root_sources: Seq<Option<String>>)
    requires
        package_is_no_std(pkg, root_sources),
    ensures
        exists|i: int|
            0 <= i < pkg.targets@.len() && i < root_sources.len() && (#[trigger] pkg.targets@[i]).src_path is Path
                && (root_sources[i] matches Some(text) && declares_no_std(encode_utf8(text@))),
{
    let i = choose|i: int|
        0 <= i < pkg.targets@.len() && target_declares_no_std(pkg.targets@[i], i, root_sources);
    assert(0 <= i < pkg.targets@.len() && i < root_sources.len() && pkg.targets@[i].src_path is Path);
}

} // verus!
