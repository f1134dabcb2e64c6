use vstd::prelude::*;

use crate::catalog::{lemma_find_release_absent, ReleaseView};
use crate::error::VmError;
use crate::manager::{
    spec_after_set_default, spec_install_plan, spec_set_default, spec_uninstall, spec_versions_dir,
    InstallPlanView,
};
use crate::store::{lemma_without_name_contains, StoreView};
use crate::text::{lemma_last_component_of_join, valid_name};

verus! {

/// Activating an installed version and then reading the active version
/// off the store returns exactly that version.
pub proof fn lemma_activate_then_current(s: StoreView, base: Seq<char>, v: Seq<char>)
    requires
        s.wf(),
        s.installed(v),
    ensures
        spec_after_set_default(s, base, v).current_version() == Ok::<Seq<char>, VmError>(v),
{
    let i = choose|i: int| 0 <= i < s.versions.len() && s.versions[i] == v;
    assert(valid_name(s.versions[i]));
    lemma_last_component_of_join(spec_versions_dir(base), v);
}

/// Uninstalling the active version is refused with `ActiveVersionConflict`
/// and leaves the store exactly as it was.
pub proof fn lemma_uninstall_active_refused(s: StoreView, v: Seq<char>)
    requires
        s.installed(v),
        s.is_active(v),
    ensures
        spec_uninstall(s, v) == (s, Err::<(), VmError>(VmError::ActiveVersionConflict)),
{
}

/// Uninstalling an installed, non-active version succeeds, removes exactly
/// that version from the installed set, and leaves the `current` link
/// untouched.
pub proof fn lemma_uninstall_removes(s: StoreView, v: Seq<char>)
    requires
        s.installed(v),
        !s.is_active(v),
    ensures
        spec_uninstall(s, v).1 == Ok::<(), VmError>(()),
        !spec_uninstall(s, v).0.installed(v),
        forall|w: Seq<char>| w != v ==> #[trigger] spec_uninstall(s, v).0.installed(w)
            == s.installed(w),
        spec_uninstall(s, v).0.current_link == s.current_link,
{
    lemma_without_name_contains(s.versions, v, v);
    assert forall|w: Seq<char>| w != v implies #[trigger] spec_uninstall(s, v).0.installed(w)
        == s.installed(w) by {
        lemma_without_name_contains(s.versions, v, w);
    }
}

/// Asking to install a version that no catalog entry carries is refused
/// with `VersionNotFound`; no plan is made, so nothing is created on disk
/// for it.
pub proof fn lemma_install_absent_refused(rs: Seq<ReleaseView>, v: Seq<char>, base: Seq<char>)
    requires
        forall|i: int| 0 <= i < rs.len() ==> (#[trigger] rs[i]).tag_name != v,
    ensures
        spec_install_plan(rs, v, base) == Err::<InstallPlanView, VmError>(
            VmError::VersionNotFound,
        ),
{
    lemma_find_release_absent(rs, v);
}

/// Activation is idempotent: activating a version twice leaves the store
/// exactly as one activation does — the single `current` link points at
/// the version directory — and the repeat reports the same result.
pub proof fn lemma_activate_idempotent(
    s: StoreView,
    base: Seq<char>,
    v: Seq<char>,
    b1: bool,
    b2: bool,
)
    requires
        s.installed(v),
    ensures
        spec_set_default(spec_set_default(s, base, v, b1).0, base, v, b2).0 == spec_set_default(
            s,
            base,
            v,
            b1,
        ).0,
        b1 == b2 ==> spec_set_default(spec_set_default(s, base, v, b1).0, base, v, b2).1
            == spec_set_default(s, base, v, b1).1,
{
}

/// Without a `current` link there is no active version: reading it fails
/// with `NotFound`, and no version counts as active, so no catalog entry
/// is marked as the default.
pub proof fn lemma_no_link_no_active(s: StoreView)
    requires
        s.current_link is None,
    ensures
        s.current_version() == Err::<Seq<char>, VmError>(VmError::NotFound),
        forall|v: Seq<char>| !(#[trigger] s.is_active(v)),
{
}

} // verus!
