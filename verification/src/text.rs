use vstd::prelude::*;
use vstd::string::StrSliceExecFns;
use vstd::string::StringExecFns;

verus! {

/// True when `v` can serve as a version-directory name: nonempty and free
/// of path separators, as every name read from a directory listing is.
pub open spec fn valid_name(v: Seq<char>) -> bool {
    &&& v.len() > 0
    &&& forall|i: int| 0 <= i < v.len() ==> v[i] != '/'
}

/// A character lowered to ASCII lower case: an ASCII capital letter maps
/// to the corresponding small letter, every other character is unchanged.
pub open spec fn lower_char(c: char) -> char {
    if 'A' <= c && c <= 'Z' {
        ((c as u8) + 32) as char
    } else {
        c
    }
}

/// A character sequence lowered to ASCII lower case.
pub open spec fn lower(s: Seq<char>) -> Seq<char> {
    s.map_values(|c: char| lower_char(c))
}

/// Character-for-character equality of two string slices.
pub fn str_eq(a: &str, b: &str) -> (r: bool)
    ensures
        r == (a@ == b@),
{
    let alen = a.unicode_len();
    let blen = b.unicode_len();
    if alen != blen {
        return false;
    }
    let mut i: usize = 0;
    while i < alen
        invariant
            alen == a@.len(),
            blen == b@.len(),
            alen == blen,
            i <= alen,
            forall|k: int| 0 <= k < i ==> a@[k] == b@[k],
        decreases alen - i,
    {
        if a.get_char(i) != b.get_char(i) {
            return false;
        }
        i += 1;
    }
    proof {
        assert(a@ =~= b@);
    }
    true
}

/// Whether `s`, lowered to ASCII lower case, equals `t` exactly.
pub fn eq_ignore_case(s: &str, t: &str) -> (r: bool)
    ensures
        r == (lower(s@) == t@),
{
    let slen = s.unicode_len();
    let tlen = t.unicode_len();
    if slen != tlen {
        proof {
            assert(lower(s@).len() == s@.len());
        }
        return false;
    }
    let mut i: usize = 0;
    while i < slen
        invariant
            slen == s@.len(),
            tlen == t@.len(),
            slen == tlen,
            i <= slen,
            forall|k: int| 0 <= k < i ==> lower_char(s@[k]) == t@[k],
        decreases slen - i,
    {
        let c = s.get_char(i);
        let lc: char = if 'A' <= c && c <= 'Z' {
            (((c as u8) + 32) as char)
        } else {
            c
        };
        proof {
            assert(lc == lower_char(s@[i as int]));
        }
        if lc != t.get_char(i) {
            proof {
                assert(lower(s@)[i as int] == lower_char(s@[i as int]));
            }
            return false;
        }
        i += 1;
    }
    proof {
        assert(lower(s@) =~= t@);
    }
    true
}

/// Whether `n` occurs in `h` as a contiguous run of characters.
pub open spec fn spec_contains(h: Seq<char>, n: Seq<char>) -> bool {
    exists|i: int| 0 <= i && i + n.len() <= h.len() && #[trigger] h.subrange(i, i + n.len() as int)
        == n
}

/// Substring search: whether the characters of `needle` occur contiguously
/// inside `haystack`.
pub fn str_contains(haystack: &str, needle: &str) -> (r: bool)
    ensures
        r == spec_contains(haystack@, needle@),
{
    let hlen = haystack.unicode_len();
    let nlen = needle.unicode_len();
    if nlen > hlen {
        return false;
    }
    if nlen == 0 {
        proof {
            assert(haystack@.subrange(0, 0 + needle@.len() as int) =~= needle@);
        }
        return true;
    }
    let mut i: usize = 0;
    while i <= hlen - nlen
        invariant
            hlen == haystack@.len(),
            nlen == needle@.len(),
            0 < nlen <= hlen,
            i <= hlen - nlen + 1,
            forall|k: int| 0 <= k < i ==> #[trigger] haystack@.subrange(k, k + nlen as int)
                != needle@,
        decreases hlen - i,
    {
        let mut j: usize = 0;
        let mut mismatch = false;
        while j < nlen
            invariant
                hlen == haystack@.len(),
                nlen == needle@.len(),
                i + nlen <= hlen,
                j <= nlen,
                !mismatch ==> forall|k: int| 0 <= k < j ==> haystack@[i + k] == needle@[k],
                mismatch ==> haystack@.subrange(i as int, i + nlen as int) != needle@,
            decreases nlen - j,
        {
            if haystack.get_char(i + j) != needle.get_char(j) {
                proof {
                    assert(haystack@.subrange(i as int, i + nlen as int)[j as int] == haystack@[i
                        + j]);
                }
                mismatch = true;
                j = nlen;
            } else {
                j += 1;
            }
        }
        if !mismatch {
            proof {
                assert(haystack@.subrange(i as int, i + nlen as int) =~= needle@);
            }
            return true;
        }
        i += 1;
    }
    false
}

/// `base` and `leaf` joined with a single path separator.
pub fn path_join(base: &str, leaf: &str) -> (r: String)
    ensures
        r@ == base@ + "/"@ + leaf@,
{
    let mut s = base.to_owned();
    s.append("/");
    s.append(leaf);
    s
}

/// The final path component of `t`: the characters after the last `/`,
/// or all of `t` when it holds no `/`. Empty when `t` is empty or ends
/// in a separator.
pub open spec fn last_component(t: Seq<char>) -> Seq<char>
    decreases t.len(),
{
    if t.len() == 0 {
        Seq::empty()
    } else if t.last() == '/' {
        Seq::empty()
    } else {
        last_component(t.drop_last()).push(t.last())
    }
}

/// When the suffix of `t` from `i` on is free of separators and begins
/// right after one (or at the start), it is the final path component.
pub proof fn lemma_last_component_subrange(t: Seq<char>, i: int)
    requires
        0 <= i <= t.len(),
        forall|k: int| i <= k < t.len() ==> t[k] != '/',
        i == 0 || t[i - 1] == '/',
    ensures
        last_component(t) == t.subrange(i, t.len() as int),
    decreases t.len(),
{
    if i < t.len() {
        lemma_last_component_subrange(t.drop_last(), i);
        assert(t.subrange(i, t.len() as int) =~= t.drop_last().subrange(
            i,
            t.len() - 1,
        ).push(t.last()));
    } else {
        assert(t.subrange(i, t.len() as int) =~= Seq::<char>::empty());
    }
}

/// Joining a valid name onto any base with a separator makes that name
/// the final path component.
pub proof fn lemma_last_component_of_join(base: Seq<char>, v: Seq<char>)
    requires
        valid_name(v),
    ensures
        last_component(base + "/"@ + v) == v,
{
    reveal_strlit("/");
    let t = base + "/"@ + v;
    let i = base.len() + 1;
    assert(t[i - 1] == '/');
    assert(forall|k: int| i <= k < t.len() ==> t[k] == v[k - i] && t[k] != '/');
    lemma_last_component_subrange(t, i as int);
    assert(t.subrange(i as int, t.len() as int) =~= v);
}

/// The final path component of `t`, as a borrowed slice.
pub fn last_component_of<'a>(t: &'a str) -> (r: &'a str)
    ensures
        r@ == last_component(t@),
{
    let n = t.unicode_len();
    let mut i: usize = n;
    while i > 0 && t.get_char(i - 1) != '/'
        invariant
            n == t@.len(),
            i <= n,
            forall|k: int| i <= k < n ==> t@[k] != '/',
        decreases i,
    {
        i -= 1;
    }
    proof {
        lemma_last_component_subrange(t@, i as int);
    }
    t.substring_char(i, n)
}

} // verus!
