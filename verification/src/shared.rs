//! Looking a command up on the `PATH` (Unix).

use vstd::prelude::*;
use crate::luks::argv_view;
use crate::paths::{join, join_path};
use crate::text::{find_char, split_on, string_of, to_chars};

verus! {

/// The paths tried for `cmd`: each `PATH` entry (split at `:`) joined with it.
pub open spec fn candidates(path_var: Seq<char>, cmd: Seq<char>) -> Seq<Seq<char>> {
    join_each(split_on(path_var, ':'), cmd)
}

/// Each directory joined with `cmd`.
pub open spec fn join_each(dirs: Seq<Seq<char>>, cmd: Seq<char>) -> Seq<Seq<char>> {
    Seq::new(dirs.len(), |i: int| join(dirs[i], cmd))
}

/// The paths at which `command_exists` looks for `cmd`, in `PATH` order.
pub fn command_candidates(path_var: &str, cmd: &str) -> (r: Vec<String>)
    ensures
        argv_view(r@) == candidates(path_var@, cmd@),
{
    let v = to_chars(path_var);
    let n = v.len();
    let mut out: Vec<String> = Vec::new();
    let mut lo: usize = 0;
    let ghost mut seen: Seq<Seq<char>> = seq![];
    assert(v@.subrange(0, n as int) =~= v@);
    assert(argv_view(out@) =~= join_each(seen, cmd@));
    loop
        invariant
            lo <= n == v@.len(),
            v@ == path_var@,
            split_on(v@, ':') =~= seen + split_on(v@.subrange(lo as int, n as int), ':'),
            argv_view(out@) == join_each(seen, cmd@),
            out@.len() == seen.len(),
        decreases n - lo,
    {
        let e = find_char(&v, lo, n, ':');
        proof { crate::luks::lemma_split_on_step(v@, lo as int, e as int, ':'); }
        let dir = string_of(&v, lo, e);
        let full = join_path(dir.as_str(), cmd);
        let ghost full_view = full@;
        let ghost old_out = out@;
        out.push(full);
        proof {
            let old_seen = seen;
            seen = seen.push(v@.subrange(lo as int, e as int));
            assert(argv_view(out@) =~= join_each(seen, cmd@)) by {
                assert(argv_view(old_out) =~= join_each(old_seen, cmd@));
                assert forall|k: int| 0 <= k < seen.len() implies argv_view(out@)[k] == join_each(
                    seen,
                    cmd@,
                )[k] by {
                    if k < old_seen.len() {
                        assert(out@[k] == old_out[k]);
                        assert(argv_view(old_out)[k] == join_each(old_seen, cmd@)[k]);
                    } else {
                        assert(out@[k]@ == full_view);
                    }
                }
            }
        }
        if e == n {
            assert(split_on(v@, ':') =~= seen);
            return out;
        }
        lo = e + 1;
    }
}

} // verus!
