//! The directory resolver: decides whether an output path already lies in a
//! target-specific build tree, and picks the scratch directory for probe
//! artifacts.

use vstd::prelude::*;

use crate::text::str_chars;

verus! {

/// Position `i` in `path` starts a path segment equal to `root`, immediately
/// followed by a segment equal to `triple`.
pub open spec fn is_target_pair_at(
    path: Seq<char>,
    root: Seq<char>,
    triple: Seq<char>,
    i: int,
) -> bool {
    &&& 0 <= i
    &&& i + root.len() + 1 + triple.len() <= path.len()
    &&& (i == 0 || path[i - 1] == '/')
    &&& path.subrange(i, i + root.len()) == root
    &&& path[i + root.len()] == '/'
    &&& path.subrange(i + root.len() + 1, i + root.len() + 1 + triple.len()) == triple
    &&& (i + root.len() + 1 + triple.len() == path.len() || path[i + root.len() + 1
        + triple.len()] == '/')
}

/// The path contains an adjacent pair of segments: the recognized build-tree
/// root name followed by the target platform triple.
pub open spec fn spec_contains_target(path: Seq<char>, root: Seq<char>, triple: Seq<char>) -> bool {
    exists|i: int| is_target_pair_at(path, root, triple, i)
}

/// The build-tree root-name segment the resolver recognizes: the configured
/// override when present, else "target".
pub open spec fn spec_root_name(over: Option<String>) -> Seq<char> {
    match over {
        Some(s) => s@,
        None => "target"@,
    }
}

/// The characters of `b` all occur in `a` starting at `from`.
fn range_eq(a: &Vec<char>, from: usize, b: &Vec<char>) -> (r: bool)
    requires
        from + b.len() <= a.len(),
    ensures
        r == (a@.subrange(from as int, from as int + b@.len()) == b@),
{
    let mut j: usize = 0;
    while j < b.len()
        invariant
            from + b.len() <= a.len(),
            j <= b.len(),
            forall|k: int| 0 <= k < j ==> a@[from + k] == b@[k],
        decreases b.len() - j,
    {
        if a[from + j] != b[j] {
            proof {
                assert(a@.subrange(from as int, from as int + b@.len())[j as int] == a@[from
                    + j]);
            }
            return false;
        }
        j += 1;
    }
    proof {
        assert(a@.subrange(from as int, from as int + b@.len()) =~= b@);
    }
    true
}

/// Whether the target pair starts exactly at position `i`.
fn target_pair_at(path: &Vec<char>, root: &Vec<char>, triple: &Vec<char>, i: usize) -> (r: bool)
    requires
        i < path.len(),
    ensures
        r == is_target_pair_at(path@, root@, triple@, i as int),
{
    if path.len() - i <= root.len() || path.len() - i - root.len() - 1 < triple.len() {
        return false;
    }
    if i > 0 && path[i - 1] != '/' {
        return false;
    }
    if !range_eq(path, i, root) {
        return false;
    }
    if path[i + root.len()] != '/' {
        return false;
    }
    if !range_eq(path, i + root.len() + 1, triple) {
        return false;
    }
    let end = i + root.len() + 1 + triple.len();
    end == path.len() || path[end] == '/'
}

/// Whether the candidate output directory already lies inside a
/// target-specific build tree: it has a segment equal to the recognized
/// build-tree root name (the override when configured, else "target")
/// immediately followed by a segment equal to the target platform triple.
/// With no target triple known (a host-only build) the answer is false.
pub fn dir_contains_target(
    target: &Option<String>,
    dir: &String,
    cargo_target_dir: Option<String>,
) -> (r: bool)
    ensures
        r == match *target {
            Some(t) => spec_contains_target(dir@, spec_root_name(cargo_target_dir), t@),
            None => false,
        },
{
    match target {
        None => false,
        Some(t) => {
            let root: Vec<char> = match &cargo_target_dir {
                Some(s) => str_chars(s.as_str()),
                None => str_chars("target"),
            };
            let path = str_chars(dir.as_str());
            let triple = str_chars(t.as_str());
            let mut i: usize = 0;
            while i < path.len()
                invariant
                    *target == Some(*t),
                    root@ == spec_root_name(cargo_target_dir),
                    path@ == dir@,
                    triple@ == t@,
                    i <= path.len(),
                    forall|j: int| 0 <= j < i ==> !is_target_pair_at(path@, root@, triple@, j),
                decreases path.len() - i,
            {
                if target_pair_at(&path, &root, &triple, i) {
                    proof {
                        assert(is_target_pair_at(dir@, spec_root_name(cargo_target_dir), t@,
                            i as int));
                        assert(spec_contains_target(dir@, spec_root_name(cargo_target_dir), t@));
                    }
                    return true;
                }
                i += 1;
            }
            proof {
                assert(forall|j: int| is_target_pair_at(path@, root@, triple@, j) ==> 0 <= j
                    < path@.len());
            }
            false
        },
    }
}

/// The scratch directory for probe artifacts, under a fixed name no build
/// system claims as its own.  When the output directory already lies inside
/// a target-specific build tree, the resolver descends one level further
/// into a nested scratch subdirectory beneath it; otherwise the scratch
/// directory sits directly beneath the output directory.  With no target
/// triple known the check is always false, so the scratch directory is
/// simply the fixed subdirectory beneath the output path.
pub fn resolve_scratch_dir(
    target: &Option<String>,
    dir: &String,
    cargo_target_dir: Option<String>,
) -> (r: String)
    ensures
        r@ == dir@ + (if (match *target {
            Some(t) => spec_contains_target(dir@, spec_root_name(cargo_target_dir), t@),
            None => false,
        }) {
            "/probe-artifacts/probe-artifacts"@
        } else {
            "/probe-artifacts"@
        }),
{
    let inside_target_tree = dir_contains_target(target, dir, cargo_target_dir);
    let mut out = dir.clone();
    if inside_target_tree {
        out.append("/probe-artifacts/probe-artifacts");
    } else {
        out.append("/probe-artifacts");
    }
    out
}

} // verus!
