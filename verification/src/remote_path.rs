//! Where a local file goes on the remote side.
//!
//! A file found under the input root keeps its place relative to that root and
//! lands under the output root. Whatever separator the local system uses, the
//! remote path is written with forward slashes.

use crate::text::{chars_of, normalize_separators, remote_separator, starts_with_at, strip_prefix};
use vstd::prelude::*;

verus! {

/// The remote path of `local`: the output root, followed by what is left of
/// `local` once the input root is taken off its front, with every backslash
/// rewritten to a forward slash. A path that does not begin with the input
/// root is appended whole.
pub open spec fn remote_path_of(
    local: Seq<char>,
    input_root: Seq<char>,
    output_root: Seq<char>,
) -> Seq<char> {
    output_root + normalize_separators(strip_prefix(local, input_root))
}

/// Maps a local path to its remote destination.
pub fn remote_path(local: &str, input_root: &str, output_root: &str) -> (r: String)
    ensures
        r@ == remote_path_of(local@, input_root@, output_root@),
{
    let l = chars_of(local);
    let p = chars_of(input_root);
    assert(l@.skip(0) =~= l@);
    let start: usize = if starts_with_at(&l, 0, &p) {
        p.len()
    } else {
        0
    };
    let n = l.len();
    let ghost rest = strip_prefix(local@, input_root@);
    assert(rest =~= l@.subrange(start as int, n as int));
    let mut out = String::from_str(output_root);
    let mut seg: usize = start;
    let mut i: usize = start;
    assert(out@ =~= output_root@ + normalize_separators(l@.subrange(start as int, seg as int)));
    while i < n
        invariant
            start <= seg <= i <= n,
            n == l.len(),
            l@ == local@,
            out@ == output_root@ + normalize_separators(l@.subrange(start as int, seg as int)),
            forall|k: int| seg <= k < i ==> l@[k] != '\\',
        decreases n - i,
    {
        if l[i] == '\\' {
            let ghost before = out@;
            out.append(local.substring_char(seg, i));
            out.append("/");
            proof {
                reveal_strlit("/");
                let slash = "/"@;
                assert(slash.len() == 1 && slash[0] == '/');
                let want = output_root@ + normalize_separators(
                    l@.subrange(start as int, i + 1),
                );
                assert(out@ == before + l@.subrange(seg as int, i as int) + slash);
                assert(out@.len() == want.len());
                assert forall|k: int| 0 <= k < want.len() implies out@[k] == want[k] by {
                    let o = output_root@.len() as int;
                    if k < o + (seg - start) {
                        assert(out@[k] == before[k]);
                    } else if k < o + (i - start) {
                        assert(out@[k] == l@[k - o + start]);
                        assert(remote_separator(l@[k - o + start]) == l@[k - o + start]);
                    } else {
                        assert(out@[k] == '/');
                        assert(l@[i as int] == '\\');
                    }
                }
                assert(out@ =~= want);
            }
            seg = i + 1;
        }
        i += 1;
    }
    let ghost before = out@;
    out.append(local.substring_char(seg, n));
    proof {
        let want = output_root@ + normalize_separators(rest);
        assert(out@ == before + l@.subrange(seg as int, n as int));
        assert(out@.len() == want.len());
        assert forall|k: int| 0 <= k < want.len() implies out@[k] == want[k] by {
            let o = output_root@.len() as int;
            if k < o + (seg - start) {
                assert(out@[k] == before[k]);
            } else {
                assert(out@[k] == l@[k - o + start]);
                assert(remote_separator(l@[k - o + start]) == l@[k - o + start]);
            }
        }
        assert(out@ =~= want);
    }
    out
}

/// A file below the input root lands below the output root at the same
/// relative place: its remote path begins with the output root, and what
/// follows is the file's path relative to the input root, character for
/// character but with forward slashes for backslashes.
pub proof fn lemma_remote_path_keeps_relative_place(
    local: Seq<char>,
    input_root: Seq<char>,
    output_root: Seq<char>,
)
    requires
        input_root.is_prefix_of(local),
    ensures
        output_root.is_prefix_of(remote_path_of(local, input_root, output_root)),
        remote_path_of(local, input_root, output_root).skip(output_root.len() as int)
            == normalize_separators(local.skip(input_root.len() as int)),
        remote_path_of(local, input_root, output_root).len() == output_root.len() + local.len()
            - input_root.len(),
        forall|i: int|
            output_root.len() <= i < remote_path_of(local, input_root, output_root).len()
                ==> remote_path_of(local, input_root, output_root)[i] != '\\',
{
    let r = remote_path_of(local, input_root, output_root);
    let tail = normalize_separators(local.skip(input_root.len() as int));
    assert(r.subrange(0, output_root.len() as int) =~= output_root);
    assert(r.skip(output_root.len() as int) =~= tail);
    assert forall|i: int| output_root.len() <= i < r.len() implies r[i] != '\\' by {
        assert(r[i] == tail[i - output_root.len()]);
    }
}

/// Two files at different places below the input root never share a remote
/// path, as long as neither relative path uses a backslash.
pub proof fn lemma_remote_path_separates_files(
    a: Seq<char>,
    b: Seq<char>,
    input_root: Seq<char>,
    output_root: Seq<char>,
)
    requires
        input_root.is_prefix_of(a),
        input_root.is_prefix_of(b),
        forall|i: int| input_root.len() <= i < a.len() ==> a[i] != '\\',
        forall|i: int| input_root.len() <= i < b.len() ==> b[i] != '\\',
        remote_path_of(a, input_root, output_root) == remote_path_of(b, input_root, output_root),
    ensures
        a == b,
{
    let ra = remote_path_of(a, input_root, output_root);
    let rb = remote_path_of(b, input_root, output_root);
    let o = output_root.len() as int;
    let p = input_root.len() as int;
    assert(ra.len() == rb.len());
    assert(a.len() == b.len());
    assert forall|i: int| 0 <= i < a.len() implies a[i] == b[i] by {
        if i < p {
            assert(a[i] == a.subrange(0, p)[i]);
            assert(b[i] == b.subrange(0, p)[i]);
        } else {
            assert(ra[o + i - p] == remote_separator(a[i]));
            assert(rb[o + i - p] == remote_separator(b[i]));
        }
    }
    assert(a =~= b);
}

} // verus!
