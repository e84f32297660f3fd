//! The patches that each kernel version offers, and which of them still have
//! to be applied by hand.

use crate::text::{ascii_lower, contains_ignore_case, eq_ignore_case, is_substring};
use crate::version::KernelVersion;
use vstd::prelude::*;
use vstd::string::*;

verus! {

/// A patch, as a value of the model.
pub struct PatchView {
    pub name: Seq<char>,
    pub description: Seq<char>,
    pub source: Seq<char>,
    pub is_upstream: bool,
}

/// A patch that can be applied to a kernel.
#[derive(Debug, PartialEq, Eq)]
pub struct Patch {
    /// Name of the patch.
    pub name: String,
    /// What the patch does.
    pub description: String,
    /// Where the patch is found: a URL, or `upstream`.
    pub source: String,
    /// Whether the version already holds the feature, so that nothing has to
    /// be applied.
    pub is_upstream: bool,
}

impl View for Patch {
    type V = PatchView;

    open spec fn view(&self) -> PatchView {
        PatchView {
            name: self.name@,
            description: self.description@,
            source: self.source@,
            is_upstream: self.is_upstream,
        }
    }
}

impl Clone for Patch {
    fn clone(&self) -> (copy: Self)
        ensures
            copy@ == self@,
    {
        Patch {
            name: self.name.clone(),
            description: self.description.clone(),
            source: self.source.clone(),
            is_upstream: self.is_upstream,
        }
    }
}

impl Patch {
    /// A patch with the given fields.
    pub fn new(name: &str, description: &str, source: &str, is_upstream: bool) -> (patch: Self)
        ensures
            patch@ == (PatchView {
                name: name@,
                description: description@,
                source: source@,
                is_upstream,
            }),
    {
        Patch {
            name: String::from_str(name),
            description: String::from_str(description),
            source: String::from_str(source),
            is_upstream,
        }
    }
}

/// The views of a run of patches.
pub open spec fn patch_views(patches: Seq<Patch>) -> Seq<PatchView> {
    Seq::new(patches.len(), |i: int| patches[i]@)
}

/// The views of a run of borrowed patches.
pub open spec fn patch_ref_views(patches: Seq<&Patch>) -> Seq<PatchView> {
    Seq::new(patches.len(), |i: int| patches[i]@)
}

/// Appending a patch appends its view.
pub proof fn lemma_patch_views_push(patches: Seq<Patch>, last: Patch)
    ensures
        patch_views(patches.push(last)) == patch_views(patches).push(last@),
{
    assert(patch_views(patches.push(last)) =~= patch_views(patches).push(last@));
}

/// Copies of a run of patches.
pub fn clone_patches(patches: &Vec<Patch>) -> (copies: Vec<Patch>)
    ensures
        patch_views(copies@) == patch_views(patches@),
{
    let ghost views = patch_views(patches@);
    let mut copies: Vec<Patch> = Vec::new();
    let mut i: usize = 0;
    while i < patches.len()
        invariant
            i <= patches.len(),
            views == patch_views(patches@),
            patch_views(copies@) == views.take(i as int),
        decreases patches.len() - i,
    {
        let copy = patches[i].clone();
        proof {
            lemma_patch_views_push(copies@, copy);
            assert(views.take(i + 1) =~= views.take(i as int).push(views[i as int]));
        }
        copies.push(copy);
        i += 1;
    }
    assert(views.take(i as int) =~= views);
    copies
}

/// The catalogue of Linux 6.6.
pub open spec fn v6_6_catalog() -> Seq<PatchView> {
    seq![
        PatchView {
            name: "BORE"@,
            description: "Burst-Oriented Response Enhancer scheduler - reduces latency for gaming"@,
            source: "https://github.com/firelzrd/bore-scheduler/6.6"@,
            is_upstream: false,
        },
        PatchView {
            name: "BBRv3"@,
            description: "TCP BBR v3 congestion control - improves network performance"@,
            source: "https://github.com/google/bbr/v3-6.6"@,
            is_upstream: false,
        },
        PatchView {
            name: "FUTEX2"@,
            description: "Futex2 system call - already in 6.6, no external patch needed"@,
            source: "upstream"@,
            is_upstream: true,
        },
        PatchView {
            name: "PREEMPT_RT"@,
            description: "Real-time preemption patches for low latency"@,
            source: "https://kernel.org/pub/linux/kernel/projects/rt/6.6/"@,
            is_upstream: false,
        },
    ]
}

/// The catalogue of Linux 6.17.
pub open spec fn v6_17_catalog() -> Seq<PatchView> {
    seq![
        PatchView {
            name: "BORE"@,
            description: "Burst-Oriented Response Enhancer scheduler - reduces latency for gaming (6.17 compatible)"@,
            source: "https://github.com/firelzrd/bore-scheduler/6.17"@,
            is_upstream: false,
        },
        PatchView {
            name: "BBRv3"@,
            description: "TCP BBR v3 congestion control - many improvements in 6.17 mainline"@,
            source: "upstream"@,
            is_upstream: true,
        },
        PatchView {
            name: "FUTEX2"@,
            description: "Futex2 system call - upstream in mainline since 5.16"@,
            source: "upstream"@,
            is_upstream: true,
        },
    ]
}

/// The catalogue of a version. Each entry stands for itself: that a feature
/// is upstream in one version says nothing of another.
pub open spec fn catalog(version: KernelVersion) -> Seq<PatchView> {
    match version {
        KernelVersion::V6_6_Lts => v6_6_catalog(),
        KernelVersion::V6_17 => v6_17_catalog(),
    }
}

/// The patches of `patches` whose upstream flag is `upstream`, in order.
pub open spec fn with_upstream(patches: Seq<PatchView>, upstream: bool) -> Seq<PatchView>
    decreases patches.len(),
{
    if patches.len() == 0 {
        Seq::empty()
    } else if patches.last().is_upstream == upstream {
        with_upstream(patches.drop_last(), upstream).push(patches.last())
    } else {
        with_upstream(patches.drop_last(), upstream)
    }
}

/// The patches that have to be applied by hand.
pub open spec fn external_of(patches: Seq<PatchView>) -> Seq<PatchView> {
    with_upstream(patches, false)
}

/// The patches that the version already holds.
pub open spec fn upstream_of(patches: Seq<PatchView>) -> Seq<PatchView> {
    with_upstream(patches, true)
}

/// Whether the name of `patch` holds `feature`, upper and lower case not told
/// apart.
pub open spec fn has_feature(patch: PatchView, feature: Seq<char>) -> bool {
    is_substring(ascii_lower(patch.name), ascii_lower(feature))
}

/// The patches of `patches` whose name holds `feature`, in order.
pub open spec fn with_feature(patches: Seq<PatchView>, feature: Seq<char>) -> Seq<PatchView>
    decreases patches.len(),
{
    if patches.len() == 0 {
        Seq::empty()
    } else if has_feature(patches.last(), feature) {
        with_feature(patches.drop_last(), feature).push(patches.last())
    } else {
        with_feature(patches.drop_last(), feature)
    }
}

/// Whether a patch of `patches` has the name `name`, upper and lower case not
/// told apart.
pub open spec fn has_patch(patches: Seq<PatchView>, name: Seq<char>) -> bool {
    exists|i: int|
        0 <= i < patches.len() && ascii_lower(#[trigger] patches[i].name) == ascii_lower(name)
}

/// What `with_upstream` selects: every patch with the flag, and no other.
pub proof fn lemma_with_upstream_members(patches: Seq<PatchView>, upstream: bool, patch: PatchView)
    ensures
        with_upstream(patches, upstream).contains(patch) <==> (patches.contains(patch)
            && patch.is_upstream == upstream),
        with_upstream(patches, upstream).len() <= patches.len(),
    decreases patches.len(),
{
    if patches.len() > 0 {
        let rest = patches.drop_last();
        let last = patches.last();
        lemma_with_upstream_members(rest, upstream, patch);
        let kept = with_upstream(rest, upstream);
        let all = with_upstream(patches, upstream);
        if patches.contains(patch) {
            let i = choose|i: int| 0 <= i < patches.len() && patches[i] == patch;
            if i < rest.len() {
                assert(rest[i] == patch);
            }
        }
        if rest.contains(patch) {
            let i = choose|i: int| 0 <= i < rest.len() && rest[i] == patch;
            assert(patches[i] == patch);
        }
        if last.is_upstream == upstream {
            assert(all[all.len() - 1] == last);
            if kept.contains(patch) {
                let i = choose|i: int| 0 <= i < kept.len() && kept[i] == patch;
                assert(all[i] == patch);
            }
            if all.contains(patch) {
                let i = choose|i: int| 0 <= i < all.len() && all[i] == patch;
                if i < kept.len() {
                    assert(kept[i] == patch);
                }
            }
        }
        assert(patches[patches.len() - 1] == last);
    }
}

/// The external and the upstream patches share a list out between them: each
/// patch of the list is in exactly one of the two, neither holds anything
/// else, and together they have as many entries as the list.
pub proof fn lemma_external_upstream_partition(patches: Seq<PatchView>)
    ensures
        forall|patch: PatchView|
            patches.contains(patch) <==> (#[trigger] external_of(patches).contains(patch)
                || upstream_of(patches).contains(patch)),
        forall|patch: PatchView|
            !(#[trigger] external_of(patches).contains(patch) && upstream_of(patches).contains(
                patch,
            )),
        external_of(patches).len() + upstream_of(patches).len() == patches.len(),
{
    assert forall|patch: PatchView|
        (patches.contains(patch) <==> (#[trigger] external_of(patches).contains(patch)
            || upstream_of(patches).contains(patch))) && !(external_of(patches).contains(patch)
            && upstream_of(patches).contains(patch)) by {
        lemma_with_upstream_members(patches, false, patch);
        lemma_with_upstream_members(patches, true, patch);
    }
    lemma_partition_len(patches);
}

proof fn lemma_partition_len(patches: Seq<PatchView>)
    ensures
        with_upstream(patches, false).len() + with_upstream(patches, true).len() == patches.len(),
    decreases patches.len(),
{
    if patches.len() > 0 {
        lemma_partition_len(patches.drop_last());
    }
}

/// For every version the external and the upstream patches share the
/// catalogue out between them.
pub proof fn lemma_catalog_partition(version: KernelVersion)
    ensures
        forall|patch: PatchView|
            catalog(version).contains(patch) <==> (#[trigger] external_of(
                catalog(version),
            ).contains(patch) || upstream_of(catalog(version)).contains(patch)),
        forall|patch: PatchView|
            !(#[trigger] external_of(catalog(version)).contains(patch) && upstream_of(
                catalog(version),
            ).contains(patch)),
        external_of(catalog(version)).len() + upstream_of(catalog(version)).len() == catalog(
            version,
        ).len(),
{
    lemma_external_upstream_partition(catalog(version));
}

/// Looks patches up in the catalogue of a version.
pub struct PatchResolver;

impl PatchResolver {
    /// The catalogue of `version`, in catalogue order.
    pub fn get_patches_for_version(version: KernelVersion) -> (patches: Vec<Patch>)
        ensures
            patch_views(patches@) == catalog(version),
    {
        match version {
            KernelVersion::V6_6_Lts => Self::get_v6_6_patches(),
            KernelVersion::V6_17 => Self::get_v6_17_patches(),
        }
    }

    /// The catalogue of Linux 6.6.
    pub fn get_v6_6_patches() -> (patches: Vec<Patch>)
        ensures
            patch_views(patches@) == v6_6_catalog(),
    {
        let patches = vec![
            Patch::new(
                "BORE",
                "Burst-Oriented Response Enhancer scheduler - reduces latency for gaming",
                "https://github.com/firelzrd/bore-scheduler/6.6",
                false,
            ),
            Patch::new(
                "BBRv3",
                "TCP BBR v3 congestion control - improves network performance",
                "https://github.com/google/bbr/v3-6.6",
                false,
            ),
            Patch::new(
                "FUTEX2",
                "Futex2 system call - already in 6.6, no external patch needed",
                "upstream",
                true,
            ),
            Patch::new(
                "PREEMPT_RT",
                "Real-time preemption patches for low latency",
                "https://kernel.org/pub/linux/kernel/projects/rt/6.6/",
                false,
            ),
        ];
        assert(patch_views(patches@) =~= v6_6_catalog());
        patches
    }

    /// The catalogue of Linux 6.17.
    pub fn get_v6_17_patches() -> (patches: Vec<Patch>)
        ensures
            patch_views(patches@) == v6_17_catalog(),
    {
        let patches = vec![
            Patch::new(
                "BORE",
                "Burst-Oriented Response Enhancer scheduler - reduces latency for gaming (6.17 compatible)",
                "https://github.com/firelzrd/bore-scheduler/6.17",
                false,
            ),
            Patch::new(
                "BBRv3",
                "TCP BBR v3 congestion control - many improvements in 6.17 mainline",
                "upstream",
                true,
            ),
            Patch::new(
                "FUTEX2",
                "Futex2 system call - upstream in mainline since 5.16",
                "upstream",
                true,
            ),
        ];
        assert(patch_views(patches@) =~= v6_17_catalog());
        patches
    }

    /// The patches of `version` whose name holds `feature`, upper and lower
    /// case not told apart, in catalogue order.
    pub fn get_patches_by_feature(version: KernelVersion, feature: &str) -> (patches: Vec<Patch>)
        ensures
            patch_views(patches@) == with_feature(catalog(version), feature@),
    {
        let all = Self::get_patches_for_version(version);
        let ghost views = patch_views(all@);
        let mut patches: Vec<Patch> = Vec::new();
        let mut i: usize = 0;
        while i < all.len()
            invariant
                i <= all.len(),
                views == patch_views(all@),
                patch_views(patches@) == with_feature(views.take(i as int), feature@),
            decreases all.len() - i,
        {
            proof {
                assert(views.take(i + 1).drop_last() =~= views.take(i as int));
                assert(views.take(i + 1).last() == all@[i as int]@);
            }
            if contains_ignore_case(all[i].name.as_str(), feature) {
                let copy = all[i].clone();
                proof {
                    lemma_patch_views_push(patches@, copy);
                }
                patches.push(copy);
            }
            i += 1;
        }
        assert(views.take(i as int) =~= views);
        patches
    }

    /// Whether `version` offers a patch named `patch_name`, upper and lower
    /// case not told apart.
    pub fn is_patch_available(version: KernelVersion, patch_name: &str) -> (available: bool)
        ensures
            available == has_patch(catalog(version), patch_name@),
    {
        let all = Self::get_patches_for_version(version);
        let ghost views = patch_views(all@);
        let mut i: usize = 0;
        while i < all.len()
            invariant
                i <= all.len(),
                views == patch_views(all@),
                views == catalog(version),
                forall|j: int|
                    0 <= j < i ==> ascii_lower(#[trigger] views[j].name) != ascii_lower(
                        patch_name@,
                    ),
            decreases all.len() - i,
        {
            assert(views[i as int] == all@[i as int]@);
            if eq_ignore_case(all[i].name.as_str(), patch_name) {
                assert(ascii_lower(views[i as int].name) == ascii_lower(patch_name@));
                return true;
            }
            i += 1;
        }
        false
    }

    /// The patches of `version` that have to be applied by hand, in catalogue
    /// order.
    pub fn get_external_patches(version: KernelVersion) -> (patches: Vec<Patch>)
        ensures
            patch_views(patches@) == external_of(catalog(version)),
    {
        let all = Self::get_patches_for_version(version);
        let ghost views = patch_views(all@);
        let mut patches: Vec<Patch> = Vec::new();
        let mut i: usize = 0;
        while i < all.len()
            invariant
                i <= all.len(),
                views == patch_views(all@),
                patch_views(patches@) == external_of(views.take(i as int)),
            decreases all.len() - i,
        {
            proof {
                assert(views.take(i + 1).drop_last() =~= views.take(i as int));
                assert(views.take(i + 1).last() == all@[i as int]@);
            }
            if !all[i].is_upstream {
                let copy = all[i].clone();
                proof {
                    lemma_patch_views_push(patches@, copy);
                }
                patches.push(copy);
            }
            i += 1;
        }
        assert(views.take(i as int) =~= views);
        patches
    }
}

} // verus!
