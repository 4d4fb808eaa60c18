//! The order of paths, and lists of paths kept in that order.
//!
//! Paths are compared component by component, each component by its
//! bytes. On the bytes of a whole path this is the order in which `/` comes
//! before every other byte.

use vstd::prelude::*;
use vstd::string::StringExecFns;
use vstd::utf8::encode_utf8;
use crate::platform_integration::paths::SLASH;

verus! {

/// The place of a byte in the order of paths: `/` comes first, the other
/// bytes follow in their own order.
pub open spec fn spec_path_rank(b: u8) -> int {
    if b == SLASH {
        0
    } else {
        b as int + 1
    }
}

/// Whether the path `a` comes before the path `b`: at the first index where
/// they differ `a` has the byte of lower rank, or `a` is a proper prefix of
/// `b`.
pub open spec fn spec_path_less(a: Seq<u8>, b: Seq<u8>) -> bool
    decreases a.len(),
{
    if b.len() == 0 {
        false
    } else if a.len() == 0 {
        true
    } else if a[0] != b[0] {
        spec_path_rank(a[0]) < spec_path_rank(b[0])
    } else {
        spec_path_less(a.drop_first(), b.drop_first())
    }
}

/// No path comes before itself.
pub proof fn lemma_path_less_irreflexive(a: Seq<u8>)
    ensures
        !spec_path_less(a, a),
    decreases a.len(),
{
    if a.len() > 0 {
        lemma_path_less_irreflexive(a.drop_first());
    }
}

/// Of two different paths exactly one comes before the other.
pub proof fn lemma_path_less_total(a: Seq<u8>, b: Seq<u8>)
    ensures
        spec_path_less(a, b) || spec_path_less(b, a) || a == b,
        !(spec_path_less(a, b) && spec_path_less(b, a)),
    decreases a.len(),
{
    if a.len() > 0 && b.len() > 0 && a[0] == b[0] {
        lemma_path_less_total(a.drop_first(), b.drop_first());
        if a.drop_first() == b.drop_first() {
            assert(a =~= seq![a[0]] + a.drop_first());
            assert(b =~= seq![b[0]] + b.drop_first());
        }
    } else if a.len() == 0 && b.len() == 0 {
        assert(a =~= b);
    }
}

/// The order of paths is transitive.
pub proof fn lemma_path_less_transitive(a: Seq<u8>, b: Seq<u8>, c: Seq<u8>)
    requires
        spec_path_less(a, b),
        spec_path_less(b, c),
    ensures
        spec_path_less(a, c),
    decreases a.len(),
{
    if a.len() > 0 && b.len() > 0 && c.len() > 0 && a[0] == b[0] && b[0] == c[0] {
        lemma_path_less_transitive(a.drop_first(), b.drop_first(), c.drop_first());
    }
}

/// The place of a byte in the order of paths.
fn path_rank(b: u8) -> (rank: u16)
    ensures
        rank == spec_path_rank(b),
{
    if b == SLASH {
        0
    } else {
        b as u16 + 1
    }
}

/// Whether the path `a` comes before the path `b`.
pub fn path_less(a: &[u8], b: &[u8]) -> (less: bool)
    ensures
        less == spec_path_less(a@, b@),
{
    let mut i: usize = 0;
    proof {
        assert(a@.skip(0) =~= a@);
        assert(b@.skip(0) =~= b@);
    }
    while i < a.len() && i < b.len()
        invariant
            i <= a@.len(),
            i <= b@.len(),
            spec_path_less(a@, b@) == spec_path_less(a@.skip(i as int), b@.skip(i as int)),
        decreases a@.len() - i,
    {
        proof {
            assert(a@.skip(i as int)[0] == a@[i as int]);
            assert(b@.skip(i as int)[0] == b@[i as int]);
            assert(a@.skip(i as int).drop_first() =~= a@.skip(i as int + 1));
            assert(b@.skip(i as int).drop_first() =~= b@.skip(i as int + 1));
        }
        if a[i] != b[i] {
            return path_rank(a[i]) < path_rank(b[i]);
        }
        i = i + 1;
    }
    proof {
        assert(a@.skip(i as int).len() == a@.len() - i);
        assert(b@.skip(i as int).len() == b@.len() - i);
    }
    i < b.len()
}

/// Whether the paths ascend strictly, so that none occurs twice.
pub open spec fn spec_paths_ascend(paths: Seq<Seq<u8>>) -> bool {
    forall|i: int, j: int|
        0 <= i < j < paths.len() ==> spec_path_less(#[trigger] paths[i], #[trigger] paths[j])
}

/// Number of paths at the start of `paths` that come before `path`.
pub open spec fn spec_place(paths: Seq<Seq<u8>>, path: Seq<u8>) -> int
    decreases paths.len(),
{
    if paths.len() == 0 {
        0
    } else if spec_path_less(paths[0], path) {
        1 + spec_place(paths.drop_first(), path)
    } else {
        0
    }
}

/// The ascending paths with `path` among them: as they are when `path` is
/// one of them, and with `path` at its place in the order when it is not.
pub open spec fn spec_placed(paths: Seq<Seq<u8>>, path: Seq<u8>) -> Seq<Seq<u8>> {
    let r = spec_place(paths, path);
    if r < paths.len() && paths[r] == path {
        paths
    } else {
        paths.insert(r, path)
    }
}

/// The first `k` of `paths` in ascending order, each once.
pub open spec fn spec_sorted(paths: Seq<Seq<u8>>, k: int) -> Seq<Seq<u8>>
    decreases k,
{
    if k <= 0 {
        Seq::<Seq<u8>>::empty()
    } else {
        spec_placed(spec_sorted(paths, k - 1), paths[k - 1])
    }
}

/// The first `k` of `paths`, each once, in the order of their first
/// occurrence.
pub open spec fn spec_unique(paths: Seq<Seq<u8>>, k: int) -> Seq<Seq<u8>>
    decreases k,
{
    if k <= 0 {
        Seq::<Seq<u8>>::empty()
    } else {
        let earlier = spec_unique(paths, k - 1);
        if earlier.contains(paths[k - 1]) {
            earlier
        } else {
            earlier.push(paths[k - 1])
        }
    }
}

/// Among ascending paths the place of a path is the index before which
/// every path comes before it, and from which on none does.
pub proof fn lemma_place(paths: Seq<Seq<u8>>, path: Seq<u8>)
    requires
        spec_paths_ascend(paths),
    ensures
        0 <= spec_place(paths, path) <= paths.len(),
        forall|k: int|
            0 <= k < spec_place(paths, path) ==> spec_path_less(#[trigger] paths[k], path),
        forall|k: int|
            spec_place(paths, path) <= k < paths.len() ==> !spec_path_less(
                #[trigger] paths[k],
                path,
            ),
    decreases paths.len(),
{
    if paths.len() > 0 {
        let rest = paths.drop_first();
        assert forall|i: int, j: int| 0 <= i < j < rest.len() implies spec_path_less(
            #[trigger] rest[i],
            #[trigger] rest[j],
        ) by {
            assert(rest[i] == paths[i + 1]);
            assert(rest[j] == paths[j + 1]);
        }
        if spec_path_less(paths[0], path) {
            lemma_place(rest, path);
            assert forall|k: int| 0 <= k < spec_place(paths, path) implies spec_path_less(
                #[trigger] paths[k],
                path,
            ) by {
                if k > 0 {
                    assert(paths[k] == rest[k - 1]);
                }
            }
            assert forall|k: int|
                spec_place(paths, path) <= k < paths.len() implies !spec_path_less(
                #[trigger] paths[k],
                path,
            ) by {
                assert(paths[k] == rest[k - 1]);
            }
        } else {
            assert forall|k: int| 0 <= k < paths.len() implies !spec_path_less(
                #[trigger] paths[k],
                path,
            ) by {
                if k > 0 {
                    assert(spec_path_less(paths[0], paths[k]));
                    if spec_path_less(paths[k], path) {
                        lemma_path_less_transitive(paths[0], paths[k], path);
                    }
                }
            }
        }
    }
}

/// An index before which every path comes before `path`, and at which the
/// path does not, is the place of `path`.
pub proof fn lemma_place_is(paths: Seq<Seq<u8>>, path: Seq<u8>, r: int)
    requires
        spec_paths_ascend(paths),
        0 <= r <= paths.len(),
        forall|k: int| 0 <= k < r ==> spec_path_less(#[trigger] paths[k], path),
        r < paths.len() ==> !spec_path_less(paths[r], path),
    ensures
        spec_place(paths, path) == r,
{
    lemma_place(paths, path);
    let p = spec_place(paths, path);
    if p < r {
        assert(spec_path_less(paths[p], path));
    }
    if r < p {
        assert(spec_path_less(paths[r], path));
    }
}

/// Placing a path among ascending paths keeps them ascending, and the
/// result holds the path and the paths that were there, and no other.
pub proof fn lemma_placed(paths: Seq<Seq<u8>>, path: Seq<u8>)
    requires
        spec_paths_ascend(paths),
    ensures
        spec_paths_ascend(spec_placed(paths, path)),
        forall|x: Seq<u8>|
            spec_placed(paths, path).contains(x) <==> (paths.contains(x) || x == path),
{
    lemma_place(paths, path);
    let r = spec_place(paths, path);
    let after = spec_placed(paths, path);
    if r < paths.len() && paths[r] == path {
        assert forall|x: Seq<u8>| after.contains(x) <==> (paths.contains(x) || x == path) by {
            if x == path {
                assert(paths[r] == x);
            }
        }
    } else {
        assert forall|k: int| r <= k < paths.len() implies spec_path_less(
            path,
            #[trigger] paths[k],
        ) by {
            lemma_path_less_total(paths[k], path);
            if paths[k] == path {
                assert(k > r);
                assert(spec_path_less(paths[r], paths[k]));
            }
        }
        assert forall|i: int, j: int| 0 <= i < j < after.len() implies spec_path_less(
            #[trigger] after[i],
            #[trigger] after[j],
        ) by {
            if j < r {
                assert(spec_path_less(paths[i], paths[j]));
            } else if j == r {
                assert(spec_path_less(paths[i], path));
            } else if i < r {
                assert(after[j] == paths[j - 1]);
                if i < j - 1 {
                    assert(spec_path_less(paths[i], paths[j - 1]));
                }
            } else if i == r {
                assert(after[j] == paths[j - 1]);
                assert(spec_path_less(path, paths[j - 1]));
            } else {
                assert(after[i] == paths[i - 1]);
                assert(after[j] == paths[j - 1]);
                assert(spec_path_less(paths[i - 1], paths[j - 1]));
            }
        }
        assert forall|x: Seq<u8>| after.contains(x) <==> (paths.contains(x) || x == path) by {
            if after.contains(x) {
                let k = choose|k: int| 0 <= k < after.len() && after[k] == x;
                if k < r {
                    assert(paths[k] == x);
                } else if k > r {
                    assert(paths[k - 1] == x);
                }
            }
            if paths.contains(x) {
                let k = choose|k: int| 0 <= k < paths.len() && paths[k] == x;
                if k < r {
                    assert(after[k] == x);
                } else {
                    assert(after[k + 1] == x);
                }
            }
            if x == path {
                assert(after[r] == x);
            }
        }
    }
}

/// The sorted paths ascend, so none occurs twice, and they are the first
/// `k` paths and no other.
pub proof fn lemma_sorted(paths: Seq<Seq<u8>>, k: int)
    requires
        0 <= k <= paths.len(),
    ensures
        spec_paths_ascend(spec_sorted(paths, k)),
        forall|x: Seq<u8>|
            spec_sorted(paths, k).contains(x) <==> exists|j: int|
                0 <= j < k && #[trigger] paths[j] == x,
    decreases k,
{
    if k > 0 {
        lemma_sorted(paths, k - 1);
        let earlier = spec_sorted(paths, k - 1);
        lemma_placed(earlier, paths[k - 1]);
        assert forall|x: Seq<u8>|
            spec_sorted(paths, k).contains(x) <==> exists|j: int|
                0 <= j < k && #[trigger] paths[j] == x by {
            if earlier.contains(x) {
                let j = choose|j: int| 0 <= j < k - 1 && #[trigger] paths[j] == x;
                assert(0 <= j < k && paths[j] == x);
            }
            if exists|j: int| 0 <= j < k && #[trigger] paths[j] == x {
                let j = choose|j: int| 0 <= j < k && #[trigger] paths[j] == x;
                if j < k - 1 {
                    assert(earlier.contains(x));
                }
            }
        }
    }
}

/// No path occurs twice among the unique paths, and they are the first `k`
/// paths and no other.
pub proof fn lemma_unique(paths: Seq<Seq<u8>>, k: int)
    requires
        0 <= k <= paths.len(),
    ensures
        forall|i: int, j: int|
            0 <= i < j < spec_unique(paths, k).len() ==> spec_unique(paths, k)[i] != spec_unique(
                paths,
                k,
            )[j],
        forall|x: Seq<u8>|
            spec_unique(paths, k).contains(x) <==> exists|j: int|
                0 <= j < k && #[trigger] paths[j] == x,
    decreases k,
{
    if k > 0 {
        lemma_unique(paths, k - 1);
        let earlier = spec_unique(paths, k - 1);
        let now = spec_unique(paths, k);
        let path = paths[k - 1];
        assert forall|i: int, j: int| 0 <= i < j < now.len() implies now[i] != now[j] by {
            if j < earlier.len() {
                assert(now[i] == earlier[i]);
                assert(now[j] == earlier[j]);
            } else {
                assert(now[i] == earlier[i]);
                assert(earlier.contains(earlier[i]));
            }
        }
        assert forall|x: Seq<u8>|
            now.contains(x) <==> exists|j: int| 0 <= j < k && #[trigger] paths[j] == x by {
            if now.contains(x) {
                let i = choose|i: int| 0 <= i < now.len() && now[i] == x;
                if i < earlier.len() {
                    assert(earlier[i] == x);
                    assert(earlier.contains(x));
                    let j = choose|j: int| 0 <= j < k - 1 && #[trigger] paths[j] == x;
                    assert(0 <= j < k && paths[j] == x);
                } else {
                    assert(paths[k - 1] == x);
                }
            }
            if exists|j: int| 0 <= j < k && #[trigger] paths[j] == x {
                let j = choose|j: int| 0 <= j < k && #[trigger] paths[j] == x;
                if j < k - 1 {
                    assert(earlier.contains(x));
                    let i = choose|i: int| 0 <= i < earlier.len() && earlier[i] == x;
                    assert(now[i] == x);
                } else if earlier.contains(x) {
                    let i = choose|i: int| 0 <= i < earlier.len() && earlier[i] == x;
                    assert(now[i] == x);
                } else {
                    assert(now[now.len() - 1] == x);
                }
            }
        }
    }
}

/// The paths as their bytes.
pub open spec fn spec_path_bytes(paths: Seq<String>) -> Seq<Seq<u8>> {
    Seq::new(paths.len(), |i: int| encode_utf8(paths[i]@))
}

/// Puts a path among ascending paths, at its place in the order, unless
/// it is one of them already.
pub fn place_path(paths: &mut Vec<String>, path: &str)
    requires
        spec_paths_ascend(spec_path_bytes(old(paths)@)),
    ensures
        spec_path_bytes(final(paths)@) == spec_placed(
            spec_path_bytes(old(paths)@),
            encode_utf8(path@),
        ),
        spec_paths_ascend(spec_path_bytes(final(paths)@)),
{
    let ghost before = spec_path_bytes(paths@);
    let ghost bytes = encode_utf8(path@);
    proof {
        lemma_placed(before, bytes);
    }
    let mut r: usize = 0;
    let mut reached: bool = false;
    while r < paths.len() && !reached
        invariant
            r <= paths@.len(),
            before == spec_path_bytes(paths@),
            bytes == encode_utf8(path@),
            spec_paths_ascend(before),
            forall|k: int| 0 <= k < r ==> spec_path_less(#[trigger] before[k], bytes),
            reached ==> r < paths@.len() && !spec_path_less(before[r as int], bytes),
        decreases paths@.len() - r + (if reached {
            0int
        } else {
            1int
        }),
    {
        assert(before[r as int] == encode_utf8(paths@[r as int]@));
        if path_less(paths[r].as_str().as_bytes(), path.as_bytes()) {
            r = r + 1;
        } else {
            reached = true;
        }
    }
    proof {
        lemma_place_is(before, bytes, r as int);
    }
    let present: bool = r < paths.len() && !path_less(
        path.as_bytes(),
        paths[r].as_str().as_bytes(),
    );
    proof {
        if r < paths@.len() {
            lemma_path_less_total(before[r as int], bytes);
        }
        lemma_path_less_irreflexive(bytes);
    }
    if !present {
        paths.insert(r, String::from_str(path));
        assert(spec_path_bytes(paths@) =~= before.insert(r as int, bytes));
    }
}

} // verus!
