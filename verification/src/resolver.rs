//! Candidate-path resolution: from a logical backend name and the
//! packaging layout of the running shell to an ordered list of locations
//! to try spawning from. Purely a function of its inputs; existence
//! checking and spawning are left to the caller.

use vstd::prelude::*;

verus! {

/// Platform target the shell was compiled for; it decides executable naming.
#[derive(Clone, Copy, PartialEq, Eq, Structural, Debug)]
pub enum Platform {
    Linux,
    MacOs,
    Windows,
}

/// Packaging convention a candidate location belongs to.
#[derive(Clone, Copy, PartialEq, Eq, Structural, Debug)]
pub enum BaseKind {
    /// The read-only directory of bundled resources inside the installed
    /// application.
    ResourceDir,
    /// The writable per-user application-data directory, used by layouts
    /// that copy resources after installation.
    AppDataDir,
    /// The registry of installed sidecar executables, looked up by
    /// identifier rather than by absolute path.
    SidecarRegistry,
}

/// Mathematical image of one candidate.
#[verifier::ext_equal]
pub struct CandidateView {
    pub base: BaseKind,
    pub location: Seq<char>,
}

/// One location to try spawning the backend from: where it comes from,
/// and the absolute path or registry identifier to use there.
pub struct CandidateSpec {
    pub base: BaseKind,
    pub location: String,
}

impl View for CandidateSpec {
    type V = CandidateView;

    open spec fn view(&self) -> CandidateView {
        CandidateView { base: self.base, location: self.location@ }
    }
}

/// Views of a sequence of candidates.
pub open spec fn candidate_views(s: Seq<CandidateSpec>) -> Seq<CandidateView> {
    s.map_values(|c: CandidateSpec| c@)
}

/// Base directories the host shell resolved at startup; `None` where the
/// shell could not produce the directory.
pub struct HostBases {
    pub resource_dir: Option<String>,
    pub app_data_dir: Option<String>,
}

/// Mathematical image of the resolved base directories.
#[verifier::ext_equal]
pub struct HostBasesView {
    pub resource_dir: Option<Seq<char>>,
    pub app_data_dir: Option<Seq<char>>,
}

impl View for HostBases {
    type V = HostBasesView;

    open spec fn view(&self) -> HostBasesView {
        HostBasesView {
            resource_dir: match self.resource_dir {
                Option::Some(d) => Option::Some(d@),
                Option::None => Option::None,
            },
            app_data_dir: match self.app_data_dir {
                Option::Some(d) => Option::Some(d@),
                Option::None => Option::None,
            },
        }
    }
}

/// Suffix the platform demands on an executable name: `.exe` on the
/// Windows target, nothing on the others.
pub open spec fn platform_suffix(p: Platform) -> Seq<char> {
    if p is Windows {
        ".exe"@
    } else {
        Seq::<char>::empty()
    }
}

/// The logical name under the platform's executable naming.
pub open spec fn suffixed_name(logical: Seq<char>, p: Platform) -> Seq<char> {
    logical + platform_suffix(p)
}

/// Directory-based candidate path: `<dir>/binaries/<name><suffix>`.
pub open spec fn dir_location(dir: Seq<char>, logical: Seq<char>, p: Platform) -> Seq<char> {
    dir + "/binaries/"@ + logical + platform_suffix(p)
}

/// Registry identifier qualified by the build triple:
/// `<name>-<triple><suffix>`.
pub open spec fn triple_location(logical: Seq<char>, triple: Seq<char>, p: Platform) -> Seq<char> {
    logical + "-"@ + triple + platform_suffix(p)
}

/// Registry identifier qualified by the shipping subdirectory:
/// `binaries/<name><suffix>`.
pub open spec fn subdir_location(logical: Seq<char>, p: Platform) -> Seq<char> {
    "binaries/"@ + logical + platform_suffix(p)
}

/// The candidate, if any, contributed by the packaged-resource directory.
pub open spec fn resource_candidates(
    logical: Seq<char>,
    p: Platform,
    bases: HostBasesView,
) -> Seq<CandidateView> {
    match bases.resource_dir {
        Option::Some(dir) => seq![
            CandidateView { base: BaseKind::ResourceDir, location: dir_location(dir, logical, p) },
        ],
        Option::None => Seq::<CandidateView>::empty(),
    }
}

/// The candidate, if any, contributed by the application-data directory.
pub open spec fn app_data_candidates(
    logical: Seq<char>,
    p: Platform,
    bases: HostBasesView,
) -> Seq<CandidateView> {
    match bases.app_data_dir {
        Option::Some(dir) => seq![
            CandidateView { base: BaseKind::AppDataDir, location: dir_location(dir, logical, p) },
        ],
        Option::None => Seq::<CandidateView>::empty(),
    }
}

/// The full candidate list, most specific first: packaged resources,
/// application data, then the two sidecar-registry identifiers. A base
/// the shell could not resolve contributes nothing; the later candidates
/// are still produced.
pub open spec fn spec_candidates(
    logical: Seq<char>,
    p: Platform,
    triple: Seq<char>,
    bases: HostBasesView,
) -> Seq<CandidateView> {
    resource_candidates(logical, p, bases) + app_data_candidates(logical, p, bases) + seq![
        CandidateView {
            base: BaseKind::SidecarRegistry,
            location: triple_location(logical, triple, p),
        },
        CandidateView { base: BaseKind::SidecarRegistry, location: subdir_location(logical, p) },
    ]
}

/// Whether `s` ends with `suffix`.
pub open spec fn ends_with(s: Seq<char>, suffix: Seq<char>) -> bool {
    s.len() >= suffix.len() && s.subrange(s.len() - suffix.len(), s.len() as int) == suffix
}

proof fn lemma_ends_with_append(a: Seq<char>, b: Seq<char>)
    ensures
        ends_with(a + b, b),
{
    assert((a + b).subrange((a + b).len() - b.len(), (a + b).len() as int) =~= b);
}

/// Every candidate's location carries the platform's suffix policy at
/// the end of its final path segment: `.exe` on the Windows target and
/// nothing on the others, whichever bases resolved.
pub proof fn lemma_suffix_policy(
    logical: Seq<char>,
    p: Platform,
    triple: Seq<char>,
    bases: HostBasesView,
)
    ensures
        forall|i: int|
            0 <= i < spec_candidates(logical, p, triple, bases).len() ==> ends_with(
                #[trigger] spec_candidates(logical, p, triple, bases)[i].location,
                platform_suffix(p),
            ),
        p !is Windows ==> platform_suffix(p) == Seq::<char>::empty(),
        p is Windows ==> platform_suffix(p) == ".exe"@,
{
    let cs = spec_candidates(logical, p, triple, bases);
    assert forall|i: int| 0 <= i < cs.len() implies ends_with(
        #[trigger] cs[i].location,
        platform_suffix(p),
    ) by {
        let suffix = platform_suffix(p);
        lemma_ends_with_append(logical + "-"@ + triple, suffix);
        lemma_ends_with_append("binaries/"@ + logical, suffix);
        match bases.resource_dir {
            Option::Some(dir) => lemma_ends_with_append(dir + "/binaries/"@ + logical, suffix),
            Option::None => (),
        }
        match bases.app_data_dir {
            Option::Some(dir) => lemma_ends_with_append(dir + "/binaries/"@ + logical, suffix),
            Option::None => (),
        }
    }
}

/// Resolution is deterministic and its ordering stable: two candidate
/// sequences resolved from the same logical name, platform, build triple
/// and bases are the same sequence, element for element.
pub proof fn lemma_resolution_deterministic(
    logical: Seq<char>,
    p: Platform,
    triple: Seq<char>,
    bases: HostBasesView,
    r1: Seq<CandidateView>,
    r2: Seq<CandidateView>,
)
    requires
        r1 == spec_candidates(logical, p, triple, bases),
        r2 == spec_candidates(logical, p, triple, bases),
    ensures
        r1 == r2,
        r1.len() == r2.len(),
        forall|i: int| 0 <= i < r1.len() ==> r1[i] == r2[i],
{
}

/// The platform suffix as a string slice.
pub fn platform_suffix_str(p: Platform) -> (r: &'static str)
    ensures
        r@ == platform_suffix(p),
{
    match p {
        Platform::Windows => ".exe",
        _ => {
            proof {
                reveal_strlit("");
                assert(""@ =~= Seq::<char>::empty());
            }
            ""
        },
    }
}

/// Executable name for the platform: `.exe` appended on the Windows
/// target, the logical name unchanged elsewhere.
pub fn executable_name(logical: &str, p: Platform) -> (r: String)
    ensures
        r@ == suffixed_name(logical@, p),
{
    let mut s = String::from_str(logical);
    let suffix = platform_suffix_str(p);
    s.append(suffix);
    s
}

/// Path of a directory-based candidate.
fn directory_location(dir: &str, logical: &str, p: Platform) -> (r: String)
    ensures
        r@ == dir_location(dir@, logical@, p),
{
    let mut s = String::from_str(dir);
    s.append("/binaries/");
    s.append(logical);
    let suffix = platform_suffix_str(p);
    s.append(suffix);
    s
}

/// Registry identifier of the build-triple-qualified candidate.
fn registry_triple_name(logical: &str, triple: &str, p: Platform) -> (r: String)
    ensures
        r@ == triple_location(logical@, triple@, p),
{
    let mut s = String::from_str(logical);
    s.append("-");
    s.append(triple);
    let suffix = platform_suffix_str(p);
    s.append(suffix);
    s
}

/// Registry identifier of the subdirectory-qualified candidate.
fn registry_subdir_name(logical: &str, p: Platform) -> (r: String)
    ensures
        r@ == subdir_location(logical@, p),
{
    let mut s = String::from_str("binaries/");
    s.append(logical);
    let suffix = platform_suffix_str(p);
    s.append(suffix);
    s
}

/// Ordered candidate list for a logical backend name: the packaged
/// resource directory, the application-data directory, then the sidecar
/// registry under the build-triple-qualified and subdirectory-qualified
/// identifiers. An unresolved base is skipped; the remaining candidates
/// are produced in order, so the list may also be empty of
/// directory-based entries. Free of side effects.
pub fn resolve_candidates(
    logical: &str,
    p: Platform,
    triple: &str,
    bases: &HostBases,
) -> (r: Vec<CandidateSpec>)
    ensures
        candidate_views(r@) == spec_candidates(logical@, p, triple@, bases@),
{
    let mut out: Vec<CandidateSpec> = Vec::new();
    match &bases.resource_dir {
        Option::Some(dir) => {
            let location = directory_location(dir.as_str(), logical, p);
            out.push(CandidateSpec { base: BaseKind::ResourceDir, location });
        },
        Option::None => {},
    }
    match &bases.app_data_dir {
        Option::Some(dir) => {
            let location = directory_location(dir.as_str(), logical, p);
            out.push(CandidateSpec { base: BaseKind::AppDataDir, location });
        },
        Option::None => {},
    }
    let location = registry_triple_name(logical, triple, p);
    out.push(CandidateSpec { base: BaseKind::SidecarRegistry, location });
    let location = registry_subdir_name(logical, p);
    out.push(CandidateSpec { base: BaseKind::SidecarRegistry, location });
    proof {
        assert(candidate_views(out@) =~= spec_candidates(logical@, p, triple@, bases@));
    }
    out
}

} // verus!
