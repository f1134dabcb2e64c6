use vstd::prelude::*;

use crate::error::VmError;
use crate::text::{last_component, str_eq, valid_name};

verus! {

/// One entry read from the `versions/` directory listing: its name and
/// whether it is itself a directory. The surrounding application fills
/// these in from the real directory; only directories count as installed
/// versions.
pub struct DirEntryInfo {
    pub name: String,
    pub is_dir: bool,
}

/// Mathematical image of a directory entry.
pub struct DirEntryView {
    pub name: Seq<char>,
    pub is_dir: bool,
}

impl View for DirEntryInfo {
    type V = DirEntryView;

    open spec fn view(&self) -> DirEntryView {
        DirEntryView { name: self.name@, is_dir: self.is_dir }
    }
}

impl DeepView for DirEntryInfo {
    type V = DirEntryView;

    open spec fn deep_view(&self) -> DirEntryView {
        self.view()
    }
}

/// The names of the entries that are directories, in listing order.
pub open spec fn dir_names(entries: Seq<DirEntryView>) -> Seq<Seq<char>>
    decreases entries.len(),
{
    if entries.len() == 0 {
        Seq::empty()
    } else {
        let rest = dir_names(entries.drop_last());
        if entries.last().is_dir {
            rest.push(entries.last().name)
        } else {
            rest
        }
    }
}

/// A name is among the directory names exactly when some entry carries it
/// and is a directory.
pub proof fn lemma_dir_names_complete(entries: Seq<DirEntryView>, v: Seq<char>)
    ensures
        dir_names(entries).contains(v) <==> exists|j: int|
            0 <= j < entries.len() && (#[trigger] entries[j]).is_dir && entries[j].name == v,
    decreases entries.len(),
{
    if entries.len() > 0 {
        lemma_dir_names_complete(entries.drop_last(), v);
        let rest = dir_names(entries.drop_last());
        let last = entries.last();
        if last.is_dir && last.name == v {
            assert(rest.push(last.name)[rest.len() as int] == v);
            assert(dir_names(entries).contains(v));
        } else {
            if dir_names(entries).contains(v) {
                let k = choose|k: int|
                    0 <= k < dir_names(entries).len() && dir_names(entries)[k] == v;
                if last.is_dir {
                    assert(rest.push(last.name)[k] == v);
                    assert(k < rest.len());
                    assert(rest.contains(v));
                }
            }
            if rest.contains(v) {
                let k = choose|k: int| 0 <= k < rest.len() && rest[k] == v;
                if last.is_dir {
                    assert(rest.push(last.name)[k] == v);
                }
                assert(dir_names(entries).contains(v));
            }
            assert(dir_names(entries).contains(v) <==> rest.contains(v));
            if rest.contains(v) {
                let j = choose|j: int|
                    0 <= j < entries.drop_last().len() && (#[trigger] entries.drop_last()[j]).is_dir
                        && entries.drop_last()[j].name == v;
                assert((entries[j]).is_dir && entries[j].name == v);
            }
            if exists|j: int|
                0 <= j < entries.len() && (#[trigger] entries[j]).is_dir && entries[j].name == v {
                let j = choose|j: int|
                    0 <= j < entries.len() && (#[trigger] entries[j]).is_dir && entries[j].name
                        == v;
                assert(j < entries.len() - 1);
                assert(entries.drop_last()[j].is_dir && entries.drop_last()[j].name == v);
            }
        }
    }
}

/// `names` with every occurrence of `v` removed, order otherwise kept.
pub open spec fn without_name(names: Seq<Seq<char>>, v: Seq<char>) -> Seq<Seq<char>>
    decreases names.len(),
{
    if names.len() == 0 {
        Seq::empty()
    } else {
        let rest = without_name(names.drop_last(), v);
        if names.last() == v {
            rest
        } else {
            rest.push(names.last())
        }
    }
}

/// Removing a name removes exactly that name: the result holds `w` when
/// the original did and `w` is not the removed name.
pub proof fn lemma_without_name_contains(names: Seq<Seq<char>>, v: Seq<char>, w: Seq<char>)
    ensures
        without_name(names, v).contains(w) <==> (names.contains(w) && w != v),
    decreases names.len(),
{
    if names.len() > 0 {
        lemma_without_name_contains(names.drop_last(), v, w);
        let rest = without_name(names.drop_last(), v);
        let last = names.last();
        if last == v {
            if names.contains(w) && w != v {
                let k = choose|k: int| 0 <= k < names.len() && names[k] == w;
                assert(names.drop_last()[k] == w);
                assert(names.drop_last().contains(w));
            }
            if names.drop_last().contains(w) {
                let k = choose|k: int|
                    0 <= k < names.drop_last().len() && names.drop_last()[k] == w;
                assert(names[k] == w);
                assert(names.contains(w));
            }
        } else {
            if without_name(names, v).contains(w) {
                let k = choose|k: int|
                    0 <= k < rest.push(last).len() && rest.push(last)[k] == w;
                if k < rest.len() {
                    assert(rest.contains(w));
                } else {
                    assert(w == last);
                    assert(names.contains(w)) by {
                        assert(names[names.len() - 1] == w);
                    }
                }
            }
            if names.contains(w) && w != v {
                let k = choose|k: int| 0 <= k < names.len() && names[k] == w;
                if k < names.len() - 1 {
                    assert(names.drop_last()[k] == w);
                    assert(names.drop_last().contains(w));
                    assert(rest.contains(w));
                    let m = choose|m: int| 0 <= m < rest.len() && rest[m] == w;
                    assert(rest.push(last)[m] == w);
                } else {
                    assert(rest.push(last)[rest.len() as int] == w);
                }
                assert(without_name(names, v).contains(w));
            }
        }
    }
}

/// A snapshot of the on-disk store: the names of the directories under
/// `versions/`, and the raw target of the `current` link when that link
/// exists. The surrounding application reads both from the filesystem;
/// every decision of the library is taken against such a snapshot.
#[derive(Debug)]
pub struct StoreSnapshot {
    /// Names of the directories under `versions/`, one per installed
    /// version.
    pub versions: Vec<String>,
    /// Target path recorded in the `current` link, when the link exists.
    pub current_link: Option<String>,
}

/// Mathematical image of a store snapshot.
#[verifier::ext_equal]
pub struct StoreView {
    pub versions: Seq<Seq<char>>,
    pub current_link: Option<Seq<char>>,
}

impl View for StoreSnapshot {
    type V = StoreView;

    open spec fn view(&self) -> StoreView {
        StoreView { versions: self.versions.deep_view(), current_link: self.current_link.deep_view() }
    }
}

impl StoreSnapshot {
    /// Whether `version` is installed: its directory is listed in the
    /// snapshot.
    pub fn is_installed(&self, version: &str) -> (r: bool)
        ensures
            r == self@.installed(version@),
    {
        let ghost nvs = self.versions.deep_view();
        let mut i: usize = 0;
        while i < self.versions.len()
            invariant
                nvs == self.versions.deep_view(),
                nvs.len() == self.versions.len(),
                i <= self.versions.len(),
                forall|k: int| 0 <= k < i ==> nvs[k] != version@,
            decreases self.versions.len() - i,
        {
            proof {
                assert(nvs[i as int] == self.versions[i as int]@);
            }
            if str_eq(self.versions[i].as_str(), version) {
                proof {
                    assert(nvs.contains(version@)) by {
                        assert(nvs[i as int] == version@);
                    }
                }
                return true;
            }
            i += 1;
        }
        proof {
            assert(!nvs.contains(version@));
        }
        false
    }
}

impl StoreView {
    /// Every recorded version name is a usable directory name.
    pub open spec fn wf(self) -> bool {
        forall|i: int| 0 <= i < self.versions.len() ==> valid_name(#[trigger] self.versions[i])
    }

    /// Whether version `v` is installed: its directory is listed.
    pub open spec fn installed(self, v: Seq<char>) -> bool {
        self.versions.contains(v)
    }

    /// The active version, recovered from the `current` link: absent link
    /// means no active version; a target without a usable final path
    /// component is corrupt.
    pub open spec fn current_version(self) -> Result<Seq<char>, VmError> {
        match self.current_link {
            Option::None => Err(VmError::NotFound),
            Option::Some(t) => {
                let c = last_component(t);
                if c.len() == 0 {
                    Err(VmError::InvalidState)
                } else {
                    Ok(c)
                }
            },
        }
    }

    /// Whether `v` is the version the `current` link denotes.
    pub open spec fn is_active(self, v: Seq<char>) -> bool {
        self.current_version() == Ok::<Seq<char>, VmError>(v)
    }
}

} // verus!
