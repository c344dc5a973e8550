//! Derivation of asset names from file paths.
//!
//! An asset name is the path's base name with its extension stripped: the
//! characters after the last directory separator and before the last `'.'`
//! of that base name. A dot in the base name's first position marks a
//! hidden file, not an extension.

use vstd::prelude::*;

verus! {

/// True when `c` separates directory components in the paths the directory
/// scanner hands over. Both the slash and the backslash count, on every
/// platform, so that scanned paths of either convention derive the same
/// names; a file whose own name holds one of these characters is not
/// supported as an asset source.
pub open spec fn is_separator(c: char) -> bool {
    c == '/' || c == '\\'
}

/// Executable mirror of [`is_separator`].
fn is_sep_char(c: char) -> (b: bool)
    ensures
        b == is_separator(c),
{
    c == '/' || c == '\\'
}

/// Index just past the last separator of `path`: where the base name
/// starts. Zero when the path holds no separator.
pub open spec fn base_start(path: Seq<char>) -> int
    decreases path.len(),
{
    if path.len() == 0 {
        0
    } else if is_separator(path.last()) {
        path.len() as int
    } else {
        base_start(path.drop_last())
    }
}

/// Length of the stem of a base name: everything before the last `'.'`,
/// except that a dot in the very first position does not begin an
/// extension. Equals `base.len()` when no extension is present.
pub open spec fn stem_len(base: Seq<char>) -> int
    decreases base.len(),
{
    if base.len() <= 1 {
        base.len() as int
    } else if base.last() == '.' {
        base.len() - 1
    } else {
        let r = stem_len(base.drop_last());
        if r == base.len() - 1 {
            base.len() as int
        } else {
            r
        }
    }
}

/// The asset name derived from `path`, or `None` when the path holds no
/// base name (it is empty or ends in a separator).
pub open spec fn stem_of(path: Seq<char>) -> Option<Seq<char>> {
    let base = path.subrange(base_start(path), path.len() as int);
    if base.len() == 0 {
        None
    } else {
        Some(base.subrange(0, stem_len(base)))
    }
}

/// `base_start` is the one cut point with a separator just before it (or
/// the path's start) and none after it.
pub proof fn lemma_base_start_unique(path: Seq<char>, k: int)
    requires
        0 <= k <= path.len(),
        k == 0 || is_separator(path[k - 1]),
        forall|j: int| k <= j < path.len() ==> !is_separator(path[j]),
    ensures
        base_start(path) == k,
    decreases path.len(),
{
    if path.len() == 0 {
    } else if is_separator(path.last()) {
        assert(k == path.len());
    } else {
        assert(k < path.len());
        lemma_base_start_unique(path.drop_last(), k);
    }
}

/// `stem_len` is the one cut point that sits on the last `'.'` past the
/// base name's first character, or at the end when there is none.
pub proof fn lemma_stem_len_unique(base: Seq<char>, k: int)
    requires
        1 <= k <= base.len(),
        k < base.len() ==> base[k] == '.',
        forall|j: int| k < j < base.len() ==> base[j] != '.',
        k == base.len() ==> forall|j: int| 1 <= j < base.len() ==> base[j] != '.',
    ensures
        stem_len(base) == k,
    decreases base.len(),
{
    if base.len() <= 1 {
    } else if base.last() == '.' {
        assert(k == base.len() - 1);
    } else {
        if k == base.len() {
            lemma_stem_len_unique(base.drop_last(), base.len() - 1);
        } else {
            assert(k < base.len() - 1);
            lemma_stem_len_unique(base.drop_last(), k);
        }
    }
}

/// Derives the asset name for `path`: the base name without its extension.
/// Returns `None` exactly when the path holds no base name.
pub fn derive_asset_name(path: &str) -> (r: Option<String>)
    ensures
        match r {
            Some(name) => stem_of(path@) == Some(name@),
            None => stem_of(path@) is None,
        },
{
    let n: usize = path.unicode_len();
    let mut start: usize = n;
    while start > 0 && !is_sep_char(path.get_char(start - 1))
        invariant
            0 <= start <= n,
            n == path@.len(),
            forall|j: int| start <= j < n ==> !is_separator(path@[j]),
        decreases start,
    {
        start = start - 1;
    }
    proof {
        lemma_base_start_unique(path@, start as int);
    }
    if start == n {
        return None;
    }
    let base: &str = path.substring_char(start, n);
    let m: usize = n - start;
    let mut j: usize = m;
    while j > 1 && base.get_char(j - 1) != '.'
        invariant
            1 <= j <= m,
            m >= 1,
            m == base@.len(),
            forall|k: int| j <= k < m ==> base@[k] != '.',
        decreases j,
    {
        j = j - 1;
    }
    let stem_end: usize = if j > 1 {
        j - 1
    } else {
        m
    };
    proof {
        lemma_stem_len_unique(base@, stem_end as int);
    }
    let stem: &str = base.substring_char(0, stem_end);
    Some(stem.to_owned())
}

} // verus!
