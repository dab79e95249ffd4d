//! Deciding a shader pack before any of it is published: every texture
//! override must name a texture of the block registry and carry exactly
//! the bytes of a 16x16 layer, and one refused override refuses the whole
//! pack.  Also the planning of a material or emission layer upload.

use vstd::prelude::*;
use crate::mips::{make_mips, mips_of, Mip};
use crate::text::bytes_eq;

verus! {

/// What a shader pack asset replaces.
#[derive(Clone, Copy, Debug, PartialEq, Eq, Structural)]
pub enum AssetKind {
    Shader,
    BlockTexture,
    MaterialTexture,
    EmissionTexture,
    HandTexture,
}

/// One texture asset of a shader pack.
#[derive(Clone, Debug, PartialEq, Eq)]
pub struct TextureOverride {
    pub kind: AssetKind,
    pub relative_path: String,
    pub data: Vec<u8>,
}

/// Why a pack's texture overrides were refused.
#[derive(Clone, Debug, PartialEq, Eq)]
pub enum OverrideError {
    /// The asset path has no file stem.
    InvalidPath,
    /// A hand texture that is not 16x16 RGBA8.
    HandTextureSize,
    /// The registry has no texture of this (UTF-8) name.
    NotInRegistry { name: Vec<u8> },
    /// The asset has `actual` bytes where its kind needs `expected`.
    WrongSize { path: String, actual: usize, expected: usize },
}

/// The refusal, over plain values.
pub enum OverrideFault {
    InvalidPath,
    HandTextureSize,
    NotInRegistry(Seq<u8>),
    WrongSize(Seq<char>, int, int),
}

impl View for OverrideError {
    type V = OverrideFault;

    open spec fn view(&self) -> OverrideFault {
        match self {
            OverrideError::InvalidPath => OverrideFault::InvalidPath,
            OverrideError::HandTextureSize => OverrideFault::HandTextureSize,
            OverrideError::NotInRegistry { name } => OverrideFault::NotInRegistry(name@),
            OverrideError::WrongSize { path, actual, expected } => OverrideFault::WrongSize(
                path@,
                *actual as int,
                *expected as int,
            ),
        }
    }
}

/// The text after the last `/` of `path` (all of it when it has none).
pub open spec fn last_component(path: Seq<char>) -> Seq<char>
    decreases path.len(),
{
    if path.len() == 0 {
        path
    } else if path.last() == '/' {
        Seq::empty()
    } else {
        last_component(path.drop_last()).push(path.last())
    }
}

/// The text before the last `.` of `name`, if it has one.
pub open spec fn before_last_dot(name: Seq<char>) -> Option<Seq<char>>
    decreases name.len(),
{
    if name.len() == 0 {
        None
    } else if name.last() == '.' {
        Some(name.drop_last())
    } else {
        before_last_dot(name.drop_last())
    }
}

/// The stem of a file name: the name up to its last `.`, or the whole name
/// when it has no `.` or its last `.` is its first character.
pub open spec fn stem_of(name: Seq<char>) -> Seq<char> {
    match before_last_dot(name) {
        Some(s) => if s.len() > 0 {
            s
        } else {
            name
        },
        None => name,
    }
}

/// A path that every platform reads alike: no `\` and no `:`, and not
/// starting with `//` (so no Windows drive, network or device prefix and
/// no second kind of separator), and a last `/`-separated component that
/// is a plain name (not empty, `.` or `..`).
pub open spec fn plain_path(path: Seq<char>) -> bool {
    &&& forall|i: int| 0 <= i < path.len() ==> path[i] != '\\' && path[i] != ':'
    &&& !(path.len() >= 2 && path[0] == '/' && path[1] == '/')
    &&& last_component(path).len() > 0
    &&& last_component(path) != seq!['.']
    &&& last_component(path) != seq!['.', '.']
}

/// `std::path::Path::file_stem` of `path`, converted back to text.  std
/// documents the stem as the part of the file name before its last `.`
/// (the whole name when it has no `.`, or when it starts with its only
/// `.`), and the file name as the path's final component.  How a path
/// splits into components depends on the platform, so the result is
/// claimed only for a plain path, which every platform splits at `/` alone.
#[verifier::external_body]
fn file_stem(path: &str) -> (stem: Option<&str>)
    ensures
        plain_path(path@) ==> stem.is_some() && stem.unwrap()@ == stem_of(last_component(path@)),
{
    std::path::Path::new(path).file_stem().and_then(|stem| stem.to_str())
}

/// `std::path::Path::file_name` of `path`, converted back to text.  std
/// documents it as the path's final component; it is claimed only for a
/// plain path, which every platform splits at `/` alone.
#[verifier::external_body]
fn file_name(path: &str) -> (name: Option<&str>)
    ensures
        plain_path(path@) ==> name.is_some() && name.unwrap()@ == last_component(path@),
{
    std::path::Path::new(path).file_name().and_then(|name| name.to_str())
}

/// The bytes of `_material`.
pub open spec fn material_suffix() -> Seq<u8> {
    seq![95u8, 109, 97, 116, 101, 114, 105, 97, 108]
}

/// The bytes of `_emission`.
pub open spec fn emission_suffix() -> Seq<u8> {
    seq![95u8, 101, 109, 105, 115, 115, 105, 111, 110]
}

/// `s` ends with `suffix`.
pub open spec fn ends_with_spec(s: Seq<u8>, suffix: Seq<u8>) -> bool {
    s.len() >= suffix.len() && s.subrange(s.len() - suffix.len(), s.len() as int) == suffix
}

/// `s` without `suffix` where it ends with it.
pub open spec fn strip_suffix_spec(s: Seq<u8>, suffix: Seq<u8>) -> Seq<u8> {
    if ends_with_spec(s, suffix) {
        s.subrange(0, s.len() - suffix.len())
    } else {
        s
    }
}

/// The registry name a texture of `kind` with file stem `stem` replaces:
/// material and emission layers drop their `_material` / `_emission` suffix.
pub open spec fn registry_name(kind: AssetKind, stem: Seq<u8>) -> Seq<u8> {
    match kind {
        AssetKind::MaterialTexture => strip_suffix_spec(stem, material_suffix()),
        AssetKind::EmissionTexture => strip_suffix_spec(stem, emission_suffix()),
        _ => stem,
    }
}

/// Bytes of a texture of `kind`: 16x16 RGBA8, or 16x16 R8 for emission.
pub open spec fn expected_bytes(kind: AssetKind) -> int {
    match kind {
        AssetKind::BlockTexture | AssetKind::MaterialTexture | AssetKind::HandTexture => 1024,
        AssetKind::EmissionTexture => 256,
        AssetKind::Shader => 0,
    }
}

/// Some registry entry is spelled `name`.
pub open spec fn in_registry(name: Seq<u8>, registry: Seq<String>) -> bool {
    exists|i: int| 0 <= i < registry.len() && vstd::utf8::encode_utf8(#[trigger] registry[i]@) == name
}

/// Why override `o`, whose path has the file stem `stem`, is refused, if it is.
pub open spec fn fault_of(o: TextureOverride, stem: Option<Seq<char>>, registry: Seq<String>) -> Option<
    OverrideFault,
> {
    match stem {
        None => Some(OverrideFault::InvalidPath),
        Some(stem) => if o.kind == AssetKind::HandTexture {
            if o.data@.len() != 1024 {
                Some(OverrideFault::HandTextureSize)
            } else {
                None
            }
        } else {
            let name = registry_name(o.kind, vstd::utf8::encode_utf8(stem));
            if !in_registry(name, registry) {
                Some(OverrideFault::NotInRegistry(name))
            } else if o.data@.len() != expected_bytes(o.kind) {
                Some(
                    OverrideFault::WrongSize(
                        o.relative_path@,
                        o.data@.len() as int,
                        expected_bytes(o.kind),
                    ),
                )
            } else {
                None
            }
        },
    }
}

fn ends_with(s: &[u8], suffix: &[u8]) -> (r: bool)
    ensures
        r == (s@.len() >= suffix@.len() && s@.subrange(
            s@.len() - suffix@.len(),
            s@.len() as int,
        ) == suffix@),
{
    if s.len() < suffix.len() {
        return false;
    }
    let start = s.len() - suffix.len();
    let mut i: usize = 0;
    while i < suffix.len()
        invariant
            start == s@.len() - suffix@.len(),
            suffix@.len() <= s@.len(),
            s@.len() == s.len(),
            suffix@.len() == suffix.len(),
            i <= suffix@.len(),
            forall|j: int| 0 <= j < i ==> s@[start + j] == suffix@[j],
        decreases suffix@.len() - i,
    {
        if s[start + i] != suffix[i] {
            assert(s@.subrange(start as int, s@.len() as int)[i as int] != suffix@[i as int]);
            return false;
        }
        i = i + 1;
    }
    assert(s@.subrange(start as int, s@.len() as int) =~= suffix@);
    true
}

/// The first `n` bytes of `s`.
fn prefix_bytes(s: &[u8], n: usize) -> (p: Vec<u8>)
    requires
        n <= s@.len(),
    ensures
        p@ == s@.subrange(0, n as int),
{
    let mut p: Vec<u8> = Vec::new();
    let mut i: usize = 0;
    while i < n
        invariant
            n <= s@.len(),
            i <= n,
            p@ == s@.subrange(0, i as int),
        decreases n - i,
    {
        p.push(s[i]);
        i = i + 1;
        assert(p@ =~= s@.subrange(0, i as int));
    }
    p
}

fn registry_name_exec(kind: AssetKind, stem: &[u8]) -> (name: Vec<u8>)
    ensures
        name@ == registry_name(kind, stem@),
{
    let material: [u8; 9] = [95, 109, 97, 116, 101, 114, 105, 97, 108];
    let emission: [u8; 9] = [95, 101, 109, 105, 115, 115, 105, 111, 110];
    assert(material@ =~= material_suffix());
    assert(emission@ =~= emission_suffix());
    let suffix: Option<&[u8]> = match kind {
        AssetKind::MaterialTexture => Some(material.as_slice()),
        AssetKind::EmissionTexture => Some(emission.as_slice()),
        _ => None,
    };
    match suffix {
        Some(suffix) => {
            if ends_with(stem, suffix) {
                prefix_bytes(stem, stem.len() - suffix.len())
            } else {
                prefix_bytes(stem, stem.len())
            }
        },
        None => prefix_bytes(stem, stem.len()),
    }
}

fn registry_contains(name: &[u8], registry: &[String]) -> (found: bool)
    ensures
        found == in_registry(name@, registry@),
{
    let mut i: usize = 0;
    while i < registry.len()
        invariant
            i <= registry@.len(),
            forall|j: int| 0 <= j < i ==> vstd::utf8::encode_utf8(#[trigger] registry@[j]@) != name@,
        decreases registry@.len() - i,
    {
        let entry = registry[i].as_str();
        if bytes_eq(entry.as_bytes(), name) {
            return true;
        }
        i = i + 1;
    }
    false
}

/// Check override `o` whose path has the file stem `stem` against the
/// block registry: `None` when it may be applied, otherwise why not.
pub fn check_override(o: &TextureOverride, stem: Option<&str>, registry: &[String]) -> (r: Option<
    OverrideError,
>)
    requires
        o.kind != AssetKind::Shader,
    ensures
        match r {
            None => fault_of(*o, stem_view(stem), registry@).is_none(),
            Some(e) => fault_of(*o, stem_view(stem), registry@) == Some(e@),
        },
{
    let stem = match stem {
        None => {
            return Some(OverrideError::InvalidPath);
        },
        Some(stem) => stem,
    };
    if o.kind == AssetKind::HandTexture {
        if o.data.len() != 1024 {
            return Some(OverrideError::HandTextureSize);
        }
        return None;
    }
    let name = registry_name_exec(o.kind, stem.as_bytes());
    if !registry_contains(name.as_slice(), registry) {
        return Some(OverrideError::NotInRegistry { name });
    }
    let expected: usize = match o.kind {
        AssetKind::EmissionTexture => 256,
        _ => 1024,
    };
    if o.data.len() != expected {
        return Some(
            OverrideError::WrongSize {
                path: o.relative_path.clone(),
                actual: o.data.len(),
                expected,
            },
        );
    }
    None
}

pub open spec fn stem_view(stem: Option<&str>) -> Option<Seq<char>> {
    match stem {
        Some(s) => Some(s@),
        None => None,
    }
}

/// The refusal of the first refused override among the first `k`, each
/// override `i` read with the file stem `stems[i]`.
pub open spec fn first_fault(
    overrides: Seq<TextureOverride>,
    stems: Seq<Option<Seq<char>>>,
    registry: Seq<String>,
    k: int,
) -> Option<OverrideFault>
    decreases k,
{
    if k <= 0 {
        None
    } else {
        match first_fault(overrides, stems, registry, k - 1) {
            Some(f) => Some(f),
            None => fault_of(overrides[k - 1], stems[k - 1], registry),
        }
    }
}

pub open spec fn stems_view(stems: Seq<Option<&str>>) -> Seq<Option<Seq<char>>> {
    stems.map_values(|s: Option<&str>| stem_view(s))
}

/// Once a refusal is found, later overrides do not change it.
proof fn lemma_first_fault_stays(
    overrides: Seq<TextureOverride>,
    stems: Seq<Option<Seq<char>>>,
    registry: Seq<String>,
    k: int,
    n: int,
)
    requires
        0 <= k <= n,
        first_fault(overrides, stems, registry, k).is_some(),
    ensures
        first_fault(overrides, stems, registry, n) == first_fault(overrides, stems, registry, k),
    decreases n - k,
{
    if k < n {
        lemma_first_fault_stays(overrides, stems, registry, k + 1, n);
    }
}

/// No refusal among the first `k` means each of them passes; a refusal is
/// the refusal of one of them.
proof fn lemma_first_fault_witness(
    overrides: Seq<TextureOverride>,
    stems: Seq<Option<Seq<char>>>,
    registry: Seq<String>,
    k: int,
)
    requires
        0 <= k,
    ensures
        first_fault(overrides, stems, registry, k).is_none() ==> forall|i: int|
            0 <= i < k ==> #[trigger] fault_of(overrides[i], stems[i], registry).is_none(),
        first_fault(overrides, stems, registry, k) matches Some(f) ==> exists|i: int|
            0 <= i < k && #[trigger] fault_of(overrides[i], stems[i], registry) == Some(f),
    decreases k,
{
    if k > 0 {
        lemma_first_fault_witness(overrides, stems, registry, k - 1);
        if first_fault(overrides, stems, registry, k - 1) is None {
            assert forall|i: int| 0 <= i < k - 1 implies #[trigger] fault_of(
                overrides[i],
                stems[i],
                registry,
            ).is_none() by {}
        }
    }
}

/// Check every texture override of a pack, in order, before anything is
/// applied, override `i` read with the file stem `stems[i]`: the first
/// refusal is returned, and `Ok` only when every override passes.
pub fn validate_with_stems(
    overrides: &[TextureOverride],
    stems: &[Option<&str>],
    registry: &[String],
) -> (r: Result<(), OverrideError>)
    requires
        stems@.len() == overrides@.len(),
        forall|i: int| 0 <= i < overrides@.len() ==> (#[trigger] overrides@[i]).kind != AssetKind::Shader,
    ensures
        match first_fault(overrides@, stems_view(stems@), registry@, overrides@.len() as int) {
            None => r is Ok,
            Some(f) => r matches Err(e) && e@ == f,
        },
{
    let ghost sv = stems_view(stems@);
    let mut i: usize = 0;
    while i < overrides.len()
        invariant
            i <= overrides@.len(),
            stems@.len() == overrides@.len(),
            sv == stems_view(stems@),
            forall|j: int| 0 <= j < overrides@.len() ==> (#[trigger] overrides@[j]).kind != AssetKind::Shader,
            first_fault(overrides@, sv, registry@, i as int).is_none(),
        decreases overrides@.len() - i,
    {
        let r = check_override(&overrides[i], stems[i], registry);
        assert(sv[i as int] == stem_view(stems@[i as int]));
        match r {
            Some(e) => {
                proof {
                    lemma_first_fault_stays(
                        overrides@,
                        sv,
                        registry@,
                        i as int + 1,
                        overrides@.len() as int,
                    );
                }
                return Err(e);
            },
            None => {},
        }
        i = i + 1;
    }
    Ok(())
}

/// Override `o` passes its checks for some file stem of its path: in
/// particular a non-hand texture then names a registry entry.
pub open spec fn passes_for_some_stem(o: TextureOverride, registry: Seq<String>) -> bool {
    exists|stem: Seq<char>| #[trigger] fault_of(o, Some(stem), registry).is_none()
}

/// What the first refusal of a pack says, whatever stems were read.
proof fn lemma_outcome_facts(
    overrides: Seq<TextureOverride>,
    sv: Seq<Option<Seq<char>>>,
    registry: Seq<String>,
)
    ensures
        first_fault(overrides, sv, registry, overrides.len() as int) is None ==> forall|i: int|
            0 <= i < overrides.len() ==> (#[trigger] overrides[i]).data@.len() == expected_bytes(
                overrides[i].kind,
            ),
        first_fault(overrides, sv, registry, overrides.len() as int) is None ==> forall|i: int|
            0 <= i < overrides.len() ==> passes_for_some_stem(#[trigger] overrides[i], registry),
        first_fault(overrides, sv, registry, overrides.len() as int) matches Some(f) ==> {
            &&& exists|i: int, stem: Option<Seq<char>>|
                0 <= i < overrides.len() && #[trigger] fault_of(overrides[i], stem, registry)
                    == Some(f)
            &&& f is HandTextureSize ==> exists|i: int|
                0 <= i < overrides.len() && (#[trigger] overrides[i]).kind == AssetKind::HandTexture
                    && overrides[i].data@.len() != 1024
            &&& f matches OverrideFault::WrongSize(p, a, e) ==> exists|i: int|
                0 <= i < overrides.len() && (#[trigger] overrides[i]).relative_path@ == p && a
                    == overrides[i].data@.len() && e == expected_bytes(overrides[i].kind) && a != e
            &&& f matches OverrideFault::NotInRegistry(nm) ==> !in_registry(nm, registry)
        },
{
    let n = overrides.len() as int;
    lemma_first_fault_witness(overrides, sv, registry, n);
    match first_fault(overrides, sv, registry, n) {
        None => {
            assert forall|k: int| 0 <= k < n implies (#[trigger] overrides[k]).data@.len()
                == expected_bytes(overrides[k].kind) by {
                assert(fault_of(overrides[k], sv[k], registry).is_none());
            }
            assert forall|k: int| 0 <= k < n implies passes_for_some_stem(
                #[trigger] overrides[k],
                registry,
            ) by {
                assert(fault_of(overrides[k], sv[k], registry).is_none());
                assert(sv[k] is Some);
                let stem = sv[k]->0;
                assert(sv[k] == Some(stem));
                assert(fault_of(overrides[k], Some(stem), registry).is_none());
                assert(passes_for_some_stem(overrides[k], registry));
            }
        },
        Some(f) => {
            let k = choose|k: int|
                0 <= k < n && #[trigger] fault_of(overrides[k], sv[k], registry) == Some(f);
            assert(fault_of(overrides[k], sv[k], registry) == Some(f));
            assert(overrides[k] == overrides[k]);
        },
    }
}

/// Every override's path is a plain path.
pub open spec fn all_plain(overrides: Seq<TextureOverride>) -> bool {
    forall|i: int| 0 <= i < overrides.len() ==> plain_path(#[trigger] overrides[i].relative_path@)
}

/// The file stems of plain override paths.
pub open spec fn plain_stems(overrides: Seq<TextureOverride>) -> Seq<Option<Seq<char>>> {
    Seq::new(
        overrides.len(),
        |i: int| Some(stem_of(last_component(overrides[i].relative_path@))),
    )
}

/// The file stem of each override, read in order.
fn read_stems(overrides: &[TextureOverride]) -> (stems: Vec<Option<&str>>)
    ensures
        stems@.len() == overrides@.len(),
        all_plain(overrides@) ==> stems_view(stems@) == plain_stems(overrides@),
{
    let mut stems: Vec<Option<&str>> = Vec::new();
    let mut i: usize = 0;
    while i < overrides.len()
        invariant
            i <= overrides@.len(),
            stems@.len() == i,
            forall|j: int|
                0 <= j < i && plain_path(overrides@[j].relative_path@) ==> (#[trigger] stems@[j]).is_some()
                    && stems@[j].unwrap()@ == stem_of(last_component(overrides@[j].relative_path@)),
        decreases overrides@.len() - i,
    {
        stems.push(file_stem(overrides[i].relative_path.as_str()));
        i = i + 1;
    }
    proof {
        if all_plain(overrides@) {
            assert forall|j: int| 0 <= j < stems@.len() implies stems_view(stems@)[j]
                == plain_stems(overrides@)[j] by {
                assert(plain_path(overrides@[j].relative_path@));
                assert(stems@[j].is_some());
            }
            assert(stems_view(stems@) =~= plain_stems(overrides@));
        }
    }
    stems
}

/// Check every texture override of a pack, in order, before anything is
/// applied; the first refusal is returned.  The file stems come from the
/// platform's path syntax; on plain paths (which every platform reads
/// alike) the outcome is exactly that of their stems.  Whatever the
/// platform makes of other paths, an empty pack is accepted, an accepted
/// pack has every texture at its exact size and every override passes its
/// registry check for some stem, and each refusal is the refusal of one of
/// the overrides.
pub fn validate_texture_overrides(overrides: &[TextureOverride], registry: &[String]) -> (r: Result<
    (),
    OverrideError,
>)
    requires
        forall|i: int| 0 <= i < overrides@.len() ==> (#[trigger] overrides@[i]).kind != AssetKind::Shader,
    ensures
        overrides@.len() == 0 ==> r is Ok,
        r is Ok ==> forall|i: int|
            0 <= i < overrides@.len() ==> (#[trigger] overrides@[i]).data@.len() == expected_bytes(
                overrides@[i].kind,
            ),
        r is Ok ==> forall|i: int|
            0 <= i < overrides@.len() ==> passes_for_some_stem(#[trigger] overrides@[i], registry@),
        r matches Err(e) ==> exists|i: int, stem: Option<Seq<char>>|
            0 <= i < overrides@.len() && #[trigger] fault_of(overrides@[i], stem, registry@) == Some(
                e@,
            ),
        r matches Err(OverrideError::HandTextureSize) ==> exists|i: int|
            0 <= i < overrides@.len() && (#[trigger] overrides@[i]).kind == AssetKind::HandTexture
                && overrides@[i].data@.len() != 1024,
        r matches Err(OverrideError::WrongSize { path, actual, expected }) ==> exists|i: int|
            0 <= i < overrides@.len() && (#[trigger] overrides@[i]).relative_path@ == path@
                && actual == overrides@[i].data@.len() && expected == expected_bytes(
                overrides@[i].kind,
            ) && actual != expected,
        r matches Err(OverrideError::NotInRegistry { name }) ==> !in_registry(name@, registry@),
        all_plain(overrides@) ==> match first_fault(
            overrides@,
            plain_stems(overrides@),
            registry@,
            overrides@.len() as int,
        ) {
            None => r is Ok,
            Some(f) => r matches Err(e) && e@ == f,
        },
{
    let stems = read_stems(overrides);
    let r = validate_with_stems(overrides, stems.as_slice(), registry);
    proof {
        lemma_outcome_facts(overrides@, stems_view(stems@), registry@);
    }
    r
}

/// The file names of a pack's shader paths, in order, under which their
/// compiled modules are kept; `Err(i)` names the first path without a
/// UTF-8 file name.  A plain path always has one: its last component.
pub fn shader_file_names(shaders: &[String]) -> (r: Result<Vec<&str>, usize>)
    ensures
        r matches Ok(names) ==> names@.len() == shaders@.len() && forall|i: int|
            0 <= i < shaders@.len() && plain_path(shaders@[i]@) ==> (#[trigger] names@[i])@
                == last_component(shaders@[i]@),
        r matches Err(i) ==> i < shaders@.len() && !plain_path(shaders@[i as int]@),
        (forall|i: int| 0 <= i < shaders@.len() ==> plain_path(#[trigger] shaders@[i]@)) ==> r is Ok,
{
    let mut names: Vec<&str> = Vec::new();
    let mut i: usize = 0;
    while i < shaders.len()
        invariant
            i <= shaders@.len(),
            names@.len() == i,
            forall|j: int|
                0 <= j < i && plain_path(shaders@[j]@) ==> (#[trigger] names@[j])@ == last_component(
                    shaders@[j]@,
                ),
        decreases shaders@.len() - i,
    {
        match file_name(shaders[i].as_str()) {
            Some(name) => names.push(name),
            None => {
                return Err(i);
            },
        }
        i = i + 1;
    }
    Ok(names)
}

/// The replacement shaders a pack carries.
#[derive(Clone, Copy, Debug, PartialEq, Eq, Structural)]
pub struct PackSources {
    pub chunk: bool,
    pub deferred: bool,
    pub water: bool,
    pub shadow: bool,
    pub present: bool,
}

/// What publishing a checked pack replaces, all in one commit after every
/// check and every pipeline build succeeded: the chunk (with the
/// translucent) pipeline, the deferred, water, shadow (dropping the cached
/// shadow camera) and present passes where the pack has a source for them,
/// and the first `texture_overrides` texture layers.  Publishing always
/// resets the temporal history of the effects.
#[derive(Clone, Copy, Debug, PartialEq, Eq, Structural)]
pub struct PublishPlan {
    pub chunk: bool,
    pub deferred: bool,
    pub water: bool,
    pub shadow: bool,
    pub present: bool,
    pub texture_overrides: usize,
}

/// A pack with no chunk, deferred or water source and no texture override
/// changes nothing; a shadow or present source alone does not count.
pub open spec fn nothing_to_publish(sources: PackSources, overrides: nat) -> bool {
    !sources.chunk && !sources.deferred && !sources.water && overrides == 0
}

pub open spec fn publish_plan(sources: PackSources, overrides: nat) -> PublishPlan {
    PublishPlan {
        chunk: sources.chunk,
        deferred: sources.deferred,
        water: sources.water,
        shadow: sources.shadow,
        present: sources.present,
        texture_overrides: overrides as usize,
    }
}

fn plan_of(sources: PackSources, overrides: usize) -> (p: PublishPlan)
    ensures
        p == publish_plan(sources, overrides as nat),
{
    PublishPlan {
        chunk: sources.chunk,
        deferred: sources.deferred,
        water: sources.water,
        shadow: sources.shadow,
        present: sources.present,
        texture_overrides: overrides,
    }
}

/// Decide a shader pack with the texture overrides read through the file
/// stems `stems`: `None` when it has nothing to publish, else the first
/// refused override, else the plan that publishes everything it carries.
pub fn plan_shader_pack_with_stems(
    sources: PackSources,
    overrides: &[TextureOverride],
    stems: &[Option<&str>],
    registry: &[String],
) -> (r: Result<Option<PublishPlan>, OverrideError>)
    requires
        stems@.len() == overrides@.len(),
        forall|i: int| 0 <= i < overrides@.len() ==> (#[trigger] overrides@[i]).kind != AssetKind::Shader,
    ensures
        nothing_to_publish(sources, overrides@.len()) ==> r == Ok::<
            Option<PublishPlan>,
            OverrideError,
        >(None),
        !nothing_to_publish(sources, overrides@.len()) ==> match first_fault(
            overrides@,
            stems_view(stems@),
            registry@,
            overrides@.len() as int,
        ) {
            None => r == Ok::<Option<PublishPlan>, OverrideError>(
                Some(publish_plan(sources, overrides@.len())),
            ),
            Some(f) => r matches Err(e) && e@ == f,
        },
{
    if !sources.chunk && !sources.deferred && !sources.water && overrides.len() == 0 {
        return Ok(None);
    }
    match validate_with_stems(overrides, stems, registry) {
        Ok(()) => Ok(Some(plan_of(sources, overrides.len()))),
        Err(e) => Err(e),
    }
}

/// Decide a shader pack before anything of it is published: `None` when
/// it has nothing to publish, else every texture override is checked
/// first and the first refusal ends it with nothing published, else the
/// plan publishes everything the pack carries.  The file stems come from
/// the platform's path syntax; on plain paths the outcome is exactly that
/// of their stems, and whatever the stems are, a pack with replacement
/// shaders and no override is published, a published pack has every
/// override at its exact size and passing its registry check for some
/// stem, and each refusal is the refusal of one of the overrides.
pub fn plan_shader_pack(
    sources: PackSources,
    overrides: &[TextureOverride],
    registry: &[String],
) -> (r: Result<Option<PublishPlan>, OverrideError>)
    requires
        forall|i: int| 0 <= i < overrides@.len() ==> (#[trigger] overrides@[i]).kind != AssetKind::Shader,
    ensures
        r == Ok::<Option<PublishPlan>, OverrideError>(None) <==> nothing_to_publish(
            sources,
            overrides@.len(),
        ),
        !nothing_to_publish(sources, overrides@.len()) && overrides@.len() == 0 ==> r == Ok::<
            Option<PublishPlan>,
            OverrideError,
        >(Some(publish_plan(sources, 0))),
        r matches Ok(Some(p)) ==> {
            &&& p == publish_plan(sources, overrides@.len())
            &&& forall|i: int|
                0 <= i < overrides@.len() ==> (#[trigger] overrides@[i]).data@.len()
                    == expected_bytes(overrides@[i].kind)
            &&& forall|i: int|
                0 <= i < overrides@.len() ==> passes_for_some_stem(
                    #[trigger] overrides@[i],
                    registry@,
                )
        },
        r matches Err(e) ==> exists|i: int, stem: Option<Seq<char>>|
            0 <= i < overrides@.len() && #[trigger] fault_of(overrides@[i], stem, registry@) == Some(
                e@,
            ),
        all_plain(overrides@) && !nothing_to_publish(sources, overrides@.len()) ==> match first_fault(
            overrides@,
            plain_stems(overrides@),
            registry@,
            overrides@.len() as int,
        ) {
            None => r == Ok::<Option<PublishPlan>, OverrideError>(
                Some(publish_plan(sources, overrides@.len())),
            ),
            Some(f) => r matches Err(e) && e@ == f,
        },
{
    if !sources.chunk && !sources.deferred && !sources.water && overrides.len() == 0 {
        return Ok(None);
    }
    match validate_texture_overrides(overrides, registry) {
        Ok(()) => Ok(Some(plan_of(sources, overrides.len()))),
        Err(e) => Err(e),
    }
}

/// The bytes of `_material.png`, `_emission.png` and `.png`.
pub open spec fn material_png() -> Seq<u8> {
    material_suffix() + seq![46u8, 112, 110, 103]
}

pub open spec fn emission_png() -> Seq<u8> {
    emission_suffix() + seq![46u8, 112, 110, 103]
}

pub open spec fn png_suffix() -> Seq<u8> {
    seq![46u8, 112, 110, 103]
}

/// The layer a material-array file named `file_name` replaces: the name
/// without `_material.png`, else without `_emission.png`, else without `.png`.
pub open spec fn layer_name(file_name: Seq<u8>) -> Seq<u8> {
    if ends_with_spec(file_name, material_png()) {
        strip_suffix_spec(file_name, material_png())
    } else if ends_with_spec(file_name, emission_png()) {
        strip_suffix_spec(file_name, emission_png())
    } else {
        strip_suffix_spec(file_name, png_suffix())
    }
}

/// Index of the first registry entry spelled `name`.
pub open spec fn first_position(name: Seq<u8>, registry: Seq<String>) -> Option<int> {
    if in_registry(name, registry) {
        Some(
            choose|i: int|
                0 <= i < registry.len() && vstd::utf8::encode_utf8(#[trigger] registry[i]@) == name
                    && forall|j: int|
                    0 <= j < i ==> vstd::utf8::encode_utf8(#[trigger] registry[j]@) != name,
        )
    } else {
        None
    }
}

/// Why a material or emission layer upload is refused.
#[derive(Clone, Debug, PartialEq, Eq)]
pub enum LayerOverrideError {
    /// The asset path has no UTF-8 file name.
    InvalidPath,
    /// No registry layer is spelled `name`.
    NotInRegistry { name: Vec<u8> },
    /// The asset is neither a material nor an emission texture.
    NotMaterialArray,
    /// The asset has `actual` bytes where the layer needs `expected`.
    WrongSize { actual: usize, expected: usize },
}

/// One material-array layer to write: its array layer, its channel count
/// and the mip chain generated from the asset.
#[derive(Clone, Debug, PartialEq, Eq)]
pub struct LayerUpload {
    pub layer: u32,
    pub channels: usize,
    pub mips: Vec<Mip>,
}

fn ends_with_then_strip(name: &[u8], suffix: &[u8]) -> (r: Option<Vec<u8>>)
    ensures
        r is Some == ends_with_spec(name@, suffix@),
        r matches Some(p) ==> p@ == strip_suffix_spec(name@, suffix@),
{
    if ends_with(name, suffix) {
        Some(prefix_bytes(name, name.len() - suffix.len()))
    } else {
        None
    }
}

fn layer_name_exec(file_name: &[u8]) -> (name: Vec<u8>)
    ensures
        name@ == layer_name(file_name@),
{
    let material: [u8; 13] = [95, 109, 97, 116, 101, 114, 105, 97, 108, 46, 112, 110, 103];
    let emission: [u8; 13] = [95, 101, 109, 105, 115, 115, 105, 111, 110, 46, 112, 110, 103];
    let dot_png: [u8; 4] = [46, 112, 110, 103];
    assert(material@ =~= material_png());
    assert(emission@ =~= emission_png());
    assert(dot_png@ =~= png_suffix());
    if let Some(stripped) = ends_with_then_strip(file_name, material.as_slice()) {
        return stripped;
    }
    if let Some(stripped) = ends_with_then_strip(file_name, emission.as_slice()) {
        return stripped;
    }
    match ends_with_then_strip(file_name, dot_png.as_slice()) {
        Some(stripped) => stripped,
        None => prefix_bytes(file_name, file_name.len()),
    }
}

fn position_in_registry(name: &[u8], registry: &[String]) -> (position: Option<usize>)
    ensures
        match position {
            Some(i) => first_position(name@, registry@) == Some(i as int),
            None => first_position(name@, registry@).is_none(),
        },
{
    let mut i: usize = 0;
    while i < registry.len()
        invariant
            i <= registry@.len(),
            forall|j: int| 0 <= j < i ==> vstd::utf8::encode_utf8(#[trigger] registry@[j]@) != name@,
        decreases registry@.len() - i,
    {
        if bytes_eq(registry[i].as_str().as_bytes(), name) {
            proof {
                let c = choose|c: int|
                    0 <= c < registry@.len() && vstd::utf8::encode_utf8(#[trigger] registry@[c]@)
                        == name@ && forall|j: int|
                        0 <= j < c ==> vstd::utf8::encode_utf8(#[trigger] registry@[j]@) != name@;
                assert(vstd::utf8::encode_utf8(registry@[i as int]@) == name@);
                if c < i {
                    assert(vstd::utf8::encode_utf8(registry@[c]@) != name@);
                }
                if c > i {
                    assert(vstd::utf8::encode_utf8(registry@[i as int]@) != name@);
                }
            }
            return Some(i);
        }
        i = i + 1;
    }
    None
}

/// What planning a layer upload of `kind` from a file named `file_name`
/// with `data` gives: checked in order, the name must spell a registry
/// layer, the kind must be material or emission, and the data must be one
/// 16x16 layer; an accepted asset gets its full mip chain.
pub open spec fn layer_override_outcome(
    r: Result<LayerUpload, LayerOverrideError>,
    kind: AssetKind,
    file_name: Seq<char>,
    data: Seq<u8>,
    registry: Seq<String>,
) -> bool {
    let name = layer_name(vstd::utf8::encode_utf8(file_name));
    match first_position(name, registry) {
        None => r matches Err(LayerOverrideError::NotInRegistry { name: n }) && n@ == name,
        Some(layer) => if kind != AssetKind::MaterialTexture && kind != AssetKind::EmissionTexture {
            r == Err::<LayerUpload, LayerOverrideError>(LayerOverrideError::NotMaterialArray)
        } else {
            let channels: usize = if kind == AssetKind::MaterialTexture {
                4
            } else {
                1
            };
            if data.len() != 256 * channels {
                r matches Err(LayerOverrideError::WrongSize { actual, expected }) && actual
                    == data.len() && expected == 256 * channels
            } else {
                r matches Ok(u) && u.layer == layer as u32 && u.channels == channels && mips_of(
                    u.mips@,
                    data,
                    channels as nat,
                    false,
                )
            }
        },
    }
}

/// The layer upload for a material or emission texture asset of `kind`
/// whose path has the file name `file_name`, or why it is refused.  The
/// checks run in order: file name, registry, kind, size; an accepted asset
/// gets its full mip chain.
pub fn plan_layer_override(
    kind: AssetKind,
    file_name: Option<&str>,
    data: &[u8],
    registry: &[String],
) -> (r: Result<LayerUpload, LayerOverrideError>)
    ensures
        file_name.is_none() ==> r == Err::<LayerUpload, LayerOverrideError>(
            LayerOverrideError::InvalidPath,
        ),
        file_name matches Some(f) ==> layer_override_outcome(r, kind, f@, data@, registry@),
{
    let file_name = match file_name {
        None => {
            return Err(LayerOverrideError::InvalidPath);
        },
        Some(f) => f,
    };
    let name = layer_name_exec(file_name.as_bytes());
    let layer = match position_in_registry(name.as_slice(), registry) {
        None => {
            return Err(LayerOverrideError::NotInRegistry { name });
        },
        Some(layer) => layer,
    };
    let channels: usize = match kind {
        AssetKind::MaterialTexture => 4,
        AssetKind::EmissionTexture => 1,
        _ => {
            return Err(LayerOverrideError::NotMaterialArray);
        },
    };
    let expected = 256 * channels;
    if data.len() != expected {
        return Err(LayerOverrideError::WrongSize { actual: data.len(), expected });
    }
    let mips = make_mips(data, channels, false);
    Ok(LayerUpload { layer: layer as u32, channels, mips })
}

/// The registry layer `name` names is array layer `layer`.
pub open spec fn aims_at(name: Seq<u8>, registry: Seq<String>, layer: u32) -> bool {
    first_position(name, registry) matches Some(p) && layer == p as u32
}

/// Channels of a material-array layer of `kind`: 4 for material, 1 for emission.
pub open spec fn layer_channels(kind: AssetKind) -> int {
    if kind == AssetKind::MaterialTexture {
        4
    } else {
        1
    }
}

/// The layer upload for a material or emission texture asset at
/// `relative_path`, or why it is refused.  The file name comes from the
/// platform's path syntax: on a plain path it is the last component, and
/// the outcome is exactly that of `plan_layer_override` on it.  Whatever
/// it is, an accepted asset is a material or emission texture of exactly
/// one 16x16 layer, aimed at a registry layer and carrying the full mip
/// chain of its data, and each refusal says what failed.
pub fn plan_layer_override_at(
    kind: AssetKind,
    relative_path: &str,
    data: &[u8],
    registry: &[String],
) -> (r: Result<LayerUpload, LayerOverrideError>)
    ensures
        r matches Ok(u) ==> {
            &&& kind == AssetKind::MaterialTexture || kind == AssetKind::EmissionTexture
            &&& u.channels == layer_channels(kind)
            &&& data@.len() == 256 * u.channels
            &&& mips_of(u.mips@, data@, u.channels as nat, false)
            &&& exists|name: Seq<u8>| #[trigger] aims_at(name, registry@, u.layer)
        },
        r matches Err(LayerOverrideError::NotInRegistry { name }) ==> first_position(
            name@,
            registry@,
        ).is_none(),
        r matches Err(LayerOverrideError::NotMaterialArray) ==> kind != AssetKind::MaterialTexture
            && kind != AssetKind::EmissionTexture,
        r matches Err(LayerOverrideError::WrongSize { actual, expected }) ==> {
            &&& kind == AssetKind::MaterialTexture || kind == AssetKind::EmissionTexture
            &&& actual == data@.len()
            &&& expected == 256 * layer_channels(kind)
            &&& actual != expected
        },
        plain_path(relative_path@) ==> layer_override_outcome(
            r,
            kind,
            last_component(relative_path@),
            data@,
            registry@,
        ),
{
    let name = file_name(relative_path);
    let r = plan_layer_override(kind, name, data, registry);
    proof {
        if name is Some {
            let n = layer_name(vstd::utf8::encode_utf8(name->0@));
            if r is Ok {
                assert(aims_at(n, registry@, r->Ok_0.layer));
            }
            if r is Err && r->Err_0 is WrongSize {
                assert(first_position(n, registry@) is Some);
                assert(kind == AssetKind::MaterialTexture || kind == AssetKind::EmissionTexture);
            }
        }
    }
    r
}

} // verus!
