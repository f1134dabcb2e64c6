use vstd::prelude::*;
use vstd::string::StrSliceExecFns;
use vstd::string::StringExecFns;

use crate::catalog::{find_release, select_asset, spec_find_release, spec_select_asset, Release};
use crate::error::VmError;
use crate::store::{without_name, StoreSnapshot, StoreView};
use crate::text::{eq_ignore_case, last_component_of, lower, path_join, str_eq};

verus! {

/// The catalog endpoint the manager queries for releases.
pub open spec fn spec_catalog_url() -> Seq<char> {
    "https://api.github.com/repos/MystenLabs/sui/releases"@
}

/// The directory that holds one subdirectory per installed version.
pub open spec fn spec_versions_dir(base: Seq<char>) -> Seq<char> {
    base + "/"@ + "versions"@
}

/// The install directory of version `v`.
pub open spec fn spec_version_dir(base: Seq<char>, v: Seq<char>) -> Seq<char> {
    spec_versions_dir(base) + "/"@ + v
}

/// The path of the `current` link.
pub open spec fn spec_current_link_path(base: Seq<char>) -> Seq<char> {
    base + "/"@ + "current"@
}

/// The directory that the emitted shell snippets put on the PATH.
pub open spec fn spec_bin_dir(base: Seq<char>) -> Seq<char> {
    spec_current_link_path(base) + "/"@ + "bin"@
}

/// The toolchain binary expected inside the install directory of `v`.
pub open spec fn spec_binary_path(base: Seq<char>, v: Seq<char>) -> Seq<char> {
    spec_version_dir(base, v) + "/"@ + "sui"@
}

/// The PATH-prepend line in POSIX `export` syntax, for bash and zsh.
pub open spec fn spec_posix_snippet(base: Seq<char>) -> Seq<char> {
    "export PATH=\""@ + spec_bin_dir(base) + ":$PATH\""@
}

/// The PATH-prepend line in fish syntax.
pub open spec fn spec_fish_snippet(base: Seq<char>) -> Seq<char> {
    "set -gx PATH "@ + spec_bin_dir(base) + " $PATH"@
}

/// The snippet owed for a shell kind: the kind is matched after ASCII
/// lowering, and an unknown kind is rejected.
pub open spec fn spec_shell_config(base: Seq<char>, shell: Seq<char>) -> Result<
    Seq<char>,
    VmError,
> {
    let kind = lower(shell);
    if kind == "fish"@ {
        Ok(spec_fish_snippet(base))
    } else if kind == "bash"@ || kind == "zsh"@ {
        Ok(spec_posix_snippet(base))
    } else {
        Err(VmError::UnsupportedShell)
    }
}

/// The three supported shell names are already lower case, and pairwise
/// distinct, so each is owed its snippet.
pub proof fn lemma_known_shells(base: Seq<char>)
    ensures
        spec_shell_config(base, "bash"@) == Ok::<Seq<char>, VmError>(spec_posix_snippet(base)),
        spec_shell_config(base, "zsh"@) == Ok::<Seq<char>, VmError>(spec_posix_snippet(base)),
        spec_shell_config(base, "fish"@) == Ok::<Seq<char>, VmError>(spec_fish_snippet(base)),
{
    reveal_strlit("bash");
    reveal_strlit("zsh");
    reveal_strlit("fish");
    assert(lower("bash"@) =~= "bash"@);
    assert(lower("zsh"@) =~= "zsh"@);
    assert(lower("fish"@) =~= "fish"@);
    assert("bash"@ != "fish"@) by {
        assert("bash"@[0] == 'b' && "fish"@[0] == 'f');
    }
    assert("zsh"@ != "fish"@) by {
        assert("zsh"@.len() != "fish"@.len());
    }
}

/// The full shell-integration guidance: every supported shell's snippet,
/// each with the file to put it in, and how to reload the shell.
pub open spec fn spec_shell_guidance(base: Seq<char>) -> Seq<char> {
    "\nTo configure your shell, add the following to your shell config file:\n\nFor bash (~/.bashrc):\n"@
        + spec_posix_snippet(base) + "\n\nFor zsh (~/.zshrc):\n"@ + spec_posix_snippet(base)
        + "\n\nFor fish (~/.config/fish/config.fish):\n"@ + spec_fish_snippet(base)
        + "\n\nThen restart your shell or run:\nsource ~/.bashrc  # for bash\nsource ~/.zshrc   # for zsh\nsource ~/.config/fish/config.fish  # for fish\n"@
}

/// The version manager: the catalog endpoint it queries and the base
/// directory that holds all of its on-disk state.
pub struct SuiVersionManager {
    pub base_url: String,
    pub base_dir: String,
}

impl SuiVersionManager {
    /// A manager rooted at `base_dir`, pointed at the fixed release
    /// catalog. The caller creates `base_dir` and its `versions/`
    /// subdirectory before reading any snapshot.
    pub fn new(base_dir: String) -> (m: Self)
        ensures
            m.base_dir@ == base_dir@,
            m.base_url@ == spec_catalog_url(),
    {
        SuiVersionManager {
            base_url: "https://api.github.com/repos/MystenLabs/sui/releases".to_owned(),
            base_dir,
        }
    }

    /// The path of the `versions/` directory.
    pub fn versions_dir(&self) -> (r: String)
        ensures
            r@ == spec_versions_dir(self.base_dir@),
    {
        path_join(self.base_dir.as_str(), "versions")
    }

    /// The install directory of `version`.
    pub fn version_dir(&self, version: &str) -> (r: String)
        ensures
            r@ == spec_version_dir(self.base_dir@, version@),
    {
        let d = self.versions_dir();
        path_join(d.as_str(), version)
    }

    /// The path of the `current` link.
    pub fn current_link_path(&self) -> (r: String)
        ensures
            r@ == spec_current_link_path(self.base_dir@),
    {
        path_join(self.base_dir.as_str(), "current")
    }

    /// The path of the toolchain binary inside the install directory of
    /// `version`.
    pub fn binary_path(&self, version: &str) -> (r: String)
        ensures
            r@ == spec_binary_path(self.base_dir@, version@),
    {
        let d = self.version_dir(version);
        path_join(d.as_str(), "sui")
    }

    /// The PATH-prepend snippet for the given shell kind, matched without
    /// regard to ASCII case; an unknown kind is rejected with
    /// `UnsupportedShell`.
    pub fn get_shell_config(&self, shell: &str) -> (r: Result<String, VmError>)
        ensures
            r matches Ok(s) ==> spec_shell_config(self.base_dir@, shell@) == Ok::<
                Seq<char>,
                VmError,
            >(s@),
            r matches Err(e) ==> spec_shell_config(self.base_dir@, shell@) == Err::<
                Seq<char>,
                VmError,
            >(e),
    {
        let c = self.current_link_path();
        let bin = path_join(c.as_str(), "bin");
        if eq_ignore_case(shell, "fish") {
            let mut s = "set -gx PATH ".to_owned();
            s.append(bin.as_str());
            s.append(" $PATH");
            Ok(s)
        } else if eq_ignore_case(shell, "bash") || eq_ignore_case(shell, "zsh") {
            let mut s = "export PATH=\"".to_owned();
            s.append(bin.as_str());
            s.append(":$PATH\"");
            Ok(s)
        } else {
            Err(VmError::UnsupportedShell)
        }
    }

    /// The shell-integration guidance shown after a successful install:
    /// the snippet for each supported shell, with the file to put it in.
    /// It never fails, since every named shell kind is supported.
    pub fn suggest_shell_config(&self) -> (r: String)
        ensures
            r@ == spec_shell_guidance(self.base_dir@),
    {
        proof {
            lemma_known_shells(self.base_dir@);
        }
        let bash_cfg = match self.get_shell_config("bash") {
            Ok(s) => s,
            Err(_) => vstd::pervasive::unreached(),
        };
        let zsh_cfg = match self.get_shell_config("zsh") {
            Ok(s) => s,
            Err(_) => vstd::pervasive::unreached(),
        };
        let fish_cfg = match self.get_shell_config("fish") {
            Ok(s) => s,
            Err(_) => vstd::pervasive::unreached(),
        };
        let mut s =
            "\nTo configure your shell, add the following to your shell config file:\n\nFor bash (~/.bashrc):\n".to_owned();
        s.append(bash_cfg.as_str());
        s.append("\n\nFor zsh (~/.zshrc):\n");
        s.append(zsh_cfg.as_str());
        s.append("\n\nFor fish (~/.config/fish/config.fish):\n");
        s.append(fish_cfg.as_str());
        s.append(
            "\n\nThen restart your shell or run:\nsource ~/.bashrc  # for bash\nsource ~/.zshrc   # for zsh\nsource ~/.config/fish/config.fish  # for fish\n",
        );
        s
    }

    /// The active version, read off a snapshot: `NotFound` without a
    /// `current` link, `InvalidState` when the link target has no usable
    /// final path component, else that component.
    pub fn get_current_version(&self, snapshot: &StoreSnapshot) -> (r: Result<String, VmError>)
        ensures
            r matches Ok(v) ==> snapshot@.current_version() == Ok::<Seq<char>, VmError>(v@),
            r matches Err(e) ==> snapshot@.current_version() == Err::<Seq<char>, VmError>(e),
    {
        match &snapshot.current_link {
            Option::None => Err(VmError::NotFound),
            Option::Some(t) => {
                let c = last_component_of(t.as_str());
                if c.unicode_len() == 0 {
                    Err(VmError::InvalidState)
                } else {
                    Ok(c.to_owned())
                }
            },
        }
    }

    /// The installed versions: the names of the entries under `versions/`
    /// that are directories, in listing order.
    pub fn list_installed_versions(&self, entries: &Vec<crate::store::DirEntryInfo>) -> (r: Vec<
        String,
    >)
        ensures
            r.deep_view() == crate::store::dir_names(entries.deep_view()),
    {
        let ghost evs = entries.deep_view();
        let mut out: Vec<String> = Vec::new();
        proof {
            assert(evs.take(0) =~= Seq::<crate::store::DirEntryView>::empty());
        }
        let mut i: usize = 0;
        while i < entries.len()
            invariant
                evs == entries.deep_view(),
                evs.len() == entries.len(),
                i <= entries.len(),
                out.deep_view() == crate::store::dir_names(evs.take(i as int)),
            decreases entries.len() - i,
        {
            proof {
                assert(evs.take(i + 1).drop_last() =~= evs.take(i as int));
                assert(evs.take(i + 1).last() == evs[i as int]);
                assert(evs[i as int] == entries[i as int].deep_view());
            }
            if entries[i].is_dir {
                out.push(entries[i].name.clone());
                proof {
                    assert(out.deep_view() =~= crate::store::dir_names(evs.take(i as int)).push(
                        evs[i as int].name,
                    ));
                }
            }
            i += 1;
        }
        proof {
            assert(evs.take(entries.len() as int) =~= evs);
        }
        out
    }

    /// The catalog paired with the local state: each remote tag, whether
    /// it is installed, and whether it is the active version.
    pub fn list_remote_versions(&self, releases: &Vec<Release>, snapshot: &StoreSnapshot) -> (r:
        Vec<(String, bool, bool)>)
        ensures
            r@.len() == releases@.len(),
            forall|i: int|
                0 <= i < r@.len() ==> {
                    &&& (#[trigger] r@[i]).0@ == releases@[i]@.tag_name
                    &&& r@[i].1 == snapshot@.installed(releases@[i]@.tag_name)
                    &&& r@[i].2 == snapshot@.is_active(releases@[i]@.tag_name)
                },
    {
        let current: Option<String> = match self.get_current_version(snapshot) {
            Ok(v) => Some(v),
            Err(_) => None,
        };
        let mut out: Vec<(String, bool, bool)> = Vec::new();
        let mut i: usize = 0;
        while i < releases.len()
            invariant
                i <= releases.len(),
                out@.len() == i,
                current matches Some(c) ==> snapshot@.current_version() == Ok::<
                    Seq<char>,
                    VmError,
                >(c@),
                current is None ==> !(snapshot@.current_version() is Ok),
                forall|k: int|
                    0 <= k < i ==> {
                        &&& (#[trigger] out@[k]).0@ == releases@[k]@.tag_name
                        &&& out@[k].1 == snapshot@.installed(releases@[k]@.tag_name)
                        &&& out@[k].2 == snapshot@.is_active(releases@[k]@.tag_name)
                    },
            decreases releases.len() - i,
        {
            let tag = releases[i].tag_name.clone();
            let inst = snapshot.is_installed(tag.as_str());
            let dflt = match &current {
                Option::Some(c) => str_eq(c.as_str(), tag.as_str()),
                Option::None => false,
            };
            out.push((tag, inst, dflt));
            i += 1;
        }
        out
    }

    /// The uninstall decision for `version`: refused when it is not
    /// installed or is the active version; otherwise the directory to
    /// remove and the store as it then stands.
    pub fn uninstall_version(&self, snapshot: &StoreSnapshot, version: &str) -> (r: Result<
        UninstallOutcome,
        VmError,
    >)
        ensures
            r matches Err(e) ==> spec_uninstall(snapshot@, version@).1 == Err::<(), VmError>(e),
            r matches Ok(o) ==> {
                &&& spec_uninstall(snapshot@, version@).1 == Ok::<(), VmError>(())
                &&& o.after@ == spec_uninstall(snapshot@, version@).0
                &&& o.remove_dir@ == spec_version_dir(self.base_dir@, version@)
            },
    {
        if !snapshot.is_installed(version) {
            return Err(VmError::NotInstalled);
        }
        match self.get_current_version(snapshot) {
            Ok(cur) => {
                if str_eq(cur.as_str(), version) {
                    return Err(VmError::ActiveVersionConflict);
                }
            },
            Err(_) => {},
        }
        let ghost nvs = snapshot.versions.deep_view();
        let mut kept: Vec<String> = Vec::new();
        proof {
            assert(nvs.take(0) =~= Seq::<Seq<char>>::empty());
        }
        let mut i: usize = 0;
        while i < snapshot.versions.len()
            invariant
                nvs == snapshot.versions.deep_view(),
                nvs.len() == snapshot.versions.len(),
                i <= snapshot.versions.len(),
                kept.deep_view() == without_name(nvs.take(i as int), version@),
            decreases snapshot.versions.len() - i,
        {
            proof {
                assert(nvs.take(i + 1).drop_last() =~= nvs.take(i as int));
                assert(nvs.take(i + 1).last() == nvs[i as int]);
                assert(nvs[i as int] == snapshot.versions[i as int]@);
            }
            if !str_eq(snapshot.versions[i].as_str(), version) {
                kept.push(snapshot.versions[i].clone());
                proof {
                    assert(kept.deep_view() =~= without_name(nvs.take(i as int), version@).push(
                        nvs[i as int],
                    ));
                }
            }
            i += 1;
        }
        proof {
            assert(nvs.take(snapshot.versions.len() as int) =~= nvs);
        }
        let link = match &snapshot.current_link {
            Option::Some(t) => Some(t.clone()),
            Option::None => None,
        };
        let after = StoreSnapshot { versions: kept, current_link: link };
        let dir = self.version_dir(version);
        proof {
            assert(after@ =~= spec_uninstall(snapshot@, version@).0);
        }
        Ok(UninstallOutcome { remove_dir: dir, after })
    }

    /// The activation decision for `version`: refused when it is not
    /// installed; otherwise the link swap to perform, the store once the
    /// link is replaced, and the result of the binary check that follows
    /// the swap — the link is replaced even when that check fails.
    pub fn set_default_version(
        &self,
        snapshot: &StoreSnapshot,
        version: &str,
        binary_present: bool,
    ) -> (r: Result<ActivateOutcome, VmError>)
        ensures
            !snapshot@.installed(version@) ==> r == Err::<ActivateOutcome, VmError>(
                VmError::NotInstalled,
            ),
            snapshot@.installed(version@) ==> (r matches Ok(o) && {
                &&& o.link_target@ == spec_version_dir(self.base_dir@, version@)
                &&& o.after@ == spec_after_set_default(snapshot@, self.base_dir@, version@)
                &&& o.result == spec_set_default(
                    snapshot@,
                    self.base_dir@,
                    version@,
                    binary_present,
                ).1
            }),
    {
        if !snapshot.is_installed(version) {
            return Err(VmError::NotInstalled);
        }
        let target = self.version_dir(version);
        let mut copied: Vec<String> = Vec::new();
        let ghost nvs = snapshot.versions.deep_view();
        proof {
            assert(copied.deep_view() =~= nvs.take(0));
        }
        let mut i: usize = 0;
        while i < snapshot.versions.len()
            invariant
                nvs == snapshot.versions.deep_view(),
                nvs.len() == snapshot.versions.len(),
                i <= snapshot.versions.len(),
                copied.deep_view() == nvs.take(i as int),
            decreases snapshot.versions.len() - i,
        {
            proof {
                assert(nvs[i as int] == snapshot.versions[i as int]@);
                assert(copied.deep_view().len() == i as int);
                assert(copied@.len() == i as int);
            }
            let c = snapshot.versions[i].clone();
            proof {
                assert(c@ == nvs[i as int]);
            }
            copied.push(c);
            proof {
                assert(copied.deep_view() =~= nvs.take(i + 1));
            }
            i += 1;
        }
        proof {
            assert(nvs.take(snapshot.versions.len() as int) =~= nvs);
        }
        let after = StoreSnapshot { versions: copied, current_link: Some(target.clone()) };
        let result: Result<(), VmError> = if binary_present {
            Ok(())
        } else {
            Err(VmError::BinaryMissing)
        };
        proof {
            assert(after@ =~= spec_after_set_default(snapshot@, self.base_dir@, version@));
        }
        Ok(ActivateOutcome { link_target: target, after, result })
    }

    /// The install decision for `version`: the first release whose tag
    /// matches, then its first platform-compatible asset, turned into a
    /// download-and-extract plan; `VersionNotFound` or `NoCompatibleAsset`
    /// when either search comes up empty.
    pub fn download_version(&self, releases: &Vec<Release>, version: &str) -> (r: Result<
        InstallPlan,
        VmError,
    >)
        ensures
            r matches Ok(p) ==> spec_install_plan(releases.deep_view(), version@, self.base_dir@)
                == Ok::<InstallPlanView, VmError>(p@),
            r matches Err(e) ==> spec_install_plan(releases.deep_view(), version@, self.base_dir@)
                == Err::<InstallPlanView, VmError>(e),
    {
        let rel = match find_release(releases, version) {
            Option::Some(rel) => rel,
            Option::None => {
                return Err(VmError::VersionNotFound);
            },
        };
        let asset = match select_asset(&rel.assets) {
            Option::Some(a) => a,
            Option::None => {
                return Err(VmError::NoCompatibleAsset);
            },
        };
        let vdir = self.version_dir(version);
        let archive = path_join(vdir.as_str(), asset.name.as_str());
        let plan = InstallPlan {
            version: version.to_owned(),
            asset_name: asset.name.clone(),
            download_url: asset.browser_download_url.clone(),
            version_dir: vdir,
            archive_path: archive,
        };
        proof {
            assert(plan@ =~= spec_install_plan(
                releases.deep_view(),
                version@,
                self.base_dir@,
            ).unwrap());
        }
        Ok(plan)
    }
}

/// What `uninstall_version` hands back on success.
#[derive(Debug)]
pub struct UninstallOutcome {
    /// The version directory the caller must now remove, recursively.
    pub remove_dir: String,
    /// The store as it stands once that directory is gone.
    pub after: StoreSnapshot,
}

/// What `set_default_version` hands back when the version is installed.
#[derive(Debug)]
pub struct ActivateOutcome {
    /// Where the `current` link must now point: the version directory.
    pub link_target: String,
    /// The store once the link is replaced — also when the binary check
    /// then fails, since the link is swapped before that check.
    pub after: StoreSnapshot,
    /// Success, or `BinaryMissing` when the expected binary is absent.
    pub result: Result<(), VmError>,
}

/// The uninstall transition: the store afterwards and the result.
pub open spec fn spec_uninstall(s: StoreView, v: Seq<char>) -> (StoreView, Result<(), VmError>) {
    if !s.installed(v) {
        (s, Err(VmError::NotInstalled))
    } else if s.is_active(v) {
        (s, Err(VmError::ActiveVersionConflict))
    } else {
        (
            StoreView { versions: without_name(s.versions, v), current_link: s.current_link },
            Ok(()),
        )
    }
}

/// The store once the `current` link points at the directory of `v`.
pub open spec fn spec_after_set_default(s: StoreView, base: Seq<char>, v: Seq<char>) -> StoreView {
    StoreView { versions: s.versions, current_link: Some(spec_version_dir(base, v)) }
}

/// The activation transition: the store afterwards and the result, given
/// whether the expected binary is present in the version directory.
pub open spec fn spec_set_default(
    s: StoreView,
    base: Seq<char>,
    v: Seq<char>,
    binary_present: bool,
) -> (StoreView, Result<(), VmError>) {
    if !s.installed(v) {
        (s, Err(VmError::NotInstalled))
    } else if binary_present {
        (spec_after_set_default(s, base, v), Ok(()))
    } else {
        (spec_after_set_default(s, base, v), Err(VmError::BinaryMissing))
    }
}

/// A download-and-extract plan for one version: which asset to fetch,
/// where to stream it, and where to unpack it.
#[derive(Debug)]
pub struct InstallPlan {
    pub version: String,
    pub asset_name: String,
    pub download_url: String,
    pub version_dir: String,
    pub archive_path: String,
}

/// Mathematical image of an install plan.
#[verifier::ext_equal]
pub struct InstallPlanView {
    pub version: Seq<char>,
    pub asset_name: Seq<char>,
    pub download_url: Seq<char>,
    pub version_dir: Seq<char>,
    pub archive_path: Seq<char>,
}

impl View for InstallPlan {
    type V = InstallPlanView;

    open spec fn view(&self) -> InstallPlanView {
        InstallPlanView {
            version: self.version@,
            asset_name: self.asset_name@,
            download_url: self.download_url@,
            version_dir: self.version_dir@,
            archive_path: self.archive_path@,
        }
    }
}

/// The install plan owed for `v` against catalog `rs`: the first release
/// whose tag is `v`, its first compatible asset, and the target paths.
pub open spec fn spec_install_plan(rs: Seq<crate::catalog::ReleaseView>, v: Seq<char>, base: Seq<char>) -> Result<
    InstallPlanView,
    VmError,
> {
    match spec_find_release(rs, v) {
        Option::None => Err(VmError::VersionNotFound),
        Option::Some(rel) => match spec_select_asset(rel.assets) {
            Option::None => Err(VmError::NoCompatibleAsset),
            Option::Some(a) => Ok(
                InstallPlanView {
                    version: v,
                    asset_name: a.name,
                    download_url: a.browser_download_url,
                    version_dir: spec_version_dir(base, v),
                    archive_path: spec_version_dir(base, v) + "/"@ + a.name,
                },
            ),
        },
    }
}

/// One step of the ordered, non-atomic install pipeline. The caller runs
/// the steps in order and stops at the first failure; a failed run may
/// leave a partly populated directory behind, which a repeated install
/// overwrites and an uninstall can still remove.
#[derive(Debug)]
pub enum InstallStep {
    CreateDir(String),
    Download { url: String, dest: String },
    Extract { archive: String, into: String },
    RemoveFile(String),
}

/// Mathematical image of an install step.
pub enum InstallStepView {
    CreateDir(Seq<char>),
    Download { url: Seq<char>, dest: Seq<char> },
    Extract { archive: Seq<char>, into: Seq<char> },
    RemoveFile(Seq<char>),
}

impl View for InstallStep {
    type V = InstallStepView;

    open spec fn view(&self) -> InstallStepView {
        match self {
            InstallStep::CreateDir(p) => InstallStepView::CreateDir(p@),
            InstallStep::Download { url, dest } => (InstallStepView::Download {
                url: url@,
                dest: dest@,
            }),
            InstallStep::Extract { archive, into } => (InstallStepView::Extract {
                archive: archive@,
                into: into@,
            }),
            InstallStep::RemoveFile(p) => InstallStepView::RemoveFile(p@),
        }
    }
}

impl InstallPlan {
    /// The step sequence that realises the plan: make the version
    /// directory, stream the asset to the archive path inside it, unpack
    /// the archive into the directory, then delete the archive, so that
    /// a completed install leaves no archive file behind.
    pub fn install_steps(&self) -> (r: Vec<InstallStep>)
        ensures
            r@.len() == 4,
            r@[0]@ == InstallStepView::CreateDir(self.version_dir@),
            r@[1]@ == (InstallStepView::Download {
                url: self.download_url@,
                dest: self.archive_path@,
            }),
            r@[2]@ == (InstallStepView::Extract {
                archive: self.archive_path@,
                into: self.version_dir@,
            }),
            r@[3]@ == InstallStepView::RemoveFile(self.archive_path@),
    {
        let mut v: Vec<InstallStep> = Vec::new();
        v.push(InstallStep::CreateDir(self.version_dir.clone()));
        v.push(
            InstallStep::Download {
                url: self.download_url.clone(),
                dest: self.archive_path.clone(),
            },
        );
        v.push(
            InstallStep::Extract {
                archive: self.archive_path.clone(),
                into: self.version_dir.clone(),
            },
        );
        v.push(InstallStep::RemoveFile(self.archive_path.clone()));
        v
    }
}

/// The byte counter after one more chunk of a download stream has been
/// written, saturating at the counter's ceiling as the stream loop does.
pub fn progress_after(transferred: u64, chunk_len: usize) -> (r: u64)
    ensures
        r == if transferred + chunk_len > u64::MAX {
            u64::MAX as int
        } else {
            transferred + chunk_len
        },
{
    transferred.saturating_add(chunk_len as u64)
}

} // verus!
