use vstd::prelude::*;

use crate::text::{spec_contains, str_contains, str_eq};

verus! {

/// One downloadable file attached to a release, as the catalog reports it.
pub struct Asset {
    pub name: String,
    pub browser_download_url: String,
}

/// Mathematical image of an asset.
pub struct AssetView {
    pub name: Seq<char>,
    pub browser_download_url: Seq<char>,
}

impl View for Asset {
    type V = AssetView;

    open spec fn view(&self) -> AssetView {
        AssetView { name: self.name@, browser_download_url: self.browser_download_url@ }
    }
}

impl DeepView for Asset {
    type V = AssetView;

    open spec fn deep_view(&self) -> AssetView {
        self.view()
    }
}

/// One published release of the toolchain: its tag and its downloadable
/// assets, in catalog order.
pub struct Release {
    pub tag_name: String,
    pub assets: Vec<Asset>,
}

/// Mathematical image of a release.
pub struct ReleaseView {
    pub tag_name: Seq<char>,
    pub assets: Seq<AssetView>,
}

impl View for Release {
    type V = ReleaseView;

    open spec fn view(&self) -> ReleaseView {
        ReleaseView { tag_name: self.tag_name@, assets: self.assets.deep_view() }
    }
}

impl DeepView for Release {
    type V = ReleaseView;

    open spec fn deep_view(&self) -> ReleaseView {
        self.view()
    }
}

/// Whether an asset fits the supported platform: its name names both the
/// operating-system marker and the architecture marker.
pub open spec fn asset_compatible(a: AssetView) -> bool {
    spec_contains(a.name, "macos"@) && spec_contains(a.name, "arm64"@)
}

/// The first release in catalog order whose tag equals `v` exactly.
pub open spec fn spec_find_release(rs: Seq<ReleaseView>, v: Seq<char>) -> Option<ReleaseView>
    decreases rs.len(),
{
    if rs.len() == 0 {
        Option::None
    } else if rs[0].tag_name == v {
        Option::Some(rs[0])
    } else {
        spec_find_release(rs.skip(1), v)
    }
}

/// The first asset in catalog order that fits the supported platform.
pub open spec fn spec_select_asset(assets: Seq<AssetView>) -> Option<AssetView>
    decreases assets.len(),
{
    if assets.len() == 0 {
        Option::None
    } else if asset_compatible(assets[0]) {
        Option::Some(assets[0])
    } else {
        spec_select_asset(assets.skip(1))
    }
}

/// When no tag in the catalog equals `v`, no release is found.
pub proof fn lemma_find_release_absent(rs: Seq<ReleaseView>, v: Seq<char>)
    requires
        forall|i: int| 0 <= i < rs.len() ==> (#[trigger] rs[i]).tag_name != v,
    ensures
        spec_find_release(rs, v) is None,
    decreases rs.len(),
{
    if rs.len() > 0 {
        assert(forall|i: int|
            0 <= i < rs.skip(1).len() ==> (#[trigger] rs.skip(1)[i]).tag_name != v) by {
            assert(forall|i: int| 0 <= i < rs.skip(1).len() ==> rs.skip(1)[i] == rs[i + 1]);
        }
        lemma_find_release_absent(rs.skip(1), v);
    }
}

/// Linear search for the first release whose tag equals `version`.
pub fn find_release<'a>(releases: &'a Vec<Release>, version: &str) -> (r: Option<&'a Release>)
    ensures
        r matches Some(rel) ==> spec_find_release(releases.deep_view(), version@) == Some(rel@),
        r is None ==> spec_find_release(releases.deep_view(), version@) is None,
{
    let ghost rs = releases.deep_view();
    proof {
        assert(rs.skip(0) =~= rs);
    }
    let mut i: usize = 0;
    while i < releases.len()
        invariant
            rs == releases.deep_view(),
            rs.len() == releases.len(),
            i <= releases.len(),
            spec_find_release(rs, version@) == spec_find_release(rs.skip(i as int), version@),
        decreases releases.len() - i,
    {
        proof {
            assert(rs.skip(i as int)[0] == rs[i as int]);
            assert(rs[i as int] == releases[i as int].deep_view());
        }
        if str_eq(releases[i].tag_name.as_str(), version) {
            return Some(&releases[i]);
        }
        proof {
            assert(rs.skip(i as int).skip(1) =~= rs.skip(i + 1));
        }
        i += 1;
    }
    proof {
        assert(rs.skip(releases.len() as int) =~= Seq::<ReleaseView>::empty());
    }
    None
}

/// Linear search for the first asset naming both platform markers.
pub fn select_asset<'a>(assets: &'a Vec<Asset>) -> (r: Option<&'a Asset>)
    ensures
        r matches Some(a) ==> spec_select_asset(assets.deep_view()) == Some(a@),
        r is None ==> spec_select_asset(assets.deep_view()) is None,
{
    let ghost avs = assets.deep_view();
    proof {
        assert(avs.skip(0) =~= avs);
    }
    let mut i: usize = 0;
    while i < assets.len()
        invariant
            avs == assets.deep_view(),
            avs.len() == assets.len(),
            i <= assets.len(),
            spec_select_asset(avs) == spec_select_asset(avs.skip(i as int)),
        decreases assets.len() - i,
    {
        proof {
            assert(avs.skip(i as int)[0] == avs[i as int]);
            assert(avs[i as int] == assets[i as int].deep_view());
        }
        let name = &assets[i].name;
        if str_contains(name.as_str(), "macos") && str_contains(name.as_str(), "arm64") {
            return Some(&assets[i]);
        }
        proof {
            assert(avs.skip(i as int).skip(1) =~= avs.skip(i + 1));
        }
        i += 1;
    }
    proof {
        assert(avs.skip(assets.len() as int) =~= Seq::<AssetView>::empty());
    }
    None
}

} // verus!
