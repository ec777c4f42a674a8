//! Unix path text: the last component, its extension, and joining.
//!
//! Paths are modelled as `Seq<char>`; `/` separates components, empty
//! components and `.` components are ignored as `std::path::Path` does.

use vstd::prelude::*;
use crate::text::{
    lemma_trail_bounds, lemma_trail_is, other_than, push_char, push_range, string_of, to_chars,
    trail,
};

verus! {

pub open spec fn slash_pred() -> spec_fn(char) -> bool {
    |c: char| c == '/'
}

pub open spec fn dot() -> Seq<char> {
    seq!['.']
}

pub open spec fn dot_dot() -> Seq<char> {
    seq!['.', '.']
}

/// The last component of `p` that is not `.` (`None` when there is none).
pub open spec fn last_component(p: Seq<char>) -> Option<Seq<char>>
    decreases p.len(),
{
    let t = p.take(p.len() - trail(p, slash_pred()));
    if t.len() == 0 {
        None
    } else {
        let k = trail(t, other_than('/'));
        let seg = t.skip(t.len() - k);
        if seg == dot() {
            proof {
                lemma_trail_bounds(p, slash_pred());
                lemma_trail_bounds(t, other_than('/'));
            }
            last_component(t.take(t.len() - k))
        } else {
            Some(seg)
        }
    }
}

/// `Path::file_name`: the last normal component of `p`.
pub open spec fn file_name(p: Seq<char>) -> Option<Seq<char>> {
    match last_component(p) {
        Some(seg) => if seg == dot_dot() {
            None
        } else {
            Some(seg)
        },
        None => None,
    }
}

/// `Path::extension`: the text after the last `.` of the file name, unless
/// that `.` is the name's first character.
pub open spec fn extension(p: Seq<char>) -> Option<Seq<char>> {
    match file_name(p) {
        Some(name) => {
            let k = trail(name, other_than('.'));
            if k == name.len() || k + 1 == name.len() {
                None
            } else {
                Some(name.skip(name.len() - k))
            }
        },
        None => None,
    }
}

/// `PathBuf::push` / `Path::join` on Unix.
pub open spec fn join(base: Seq<char>, rel: Seq<char>) -> Seq<char> {
    if rel.len() > 0 && rel[0] == '/' {
        rel
    } else if base.len() == 0 || base.last() == '/' {
        base + rel
    } else {
        base + seq!['/'] + rel
    }
}

/// A plain name: non-empty, without `/`, and neither `.` nor `..`.
pub open spec fn is_plain_name(name: Seq<char>) -> bool {
    &&& name.len() > 0
    &&& forall|i: int| 0 <= i < name.len() ==> #[trigger] name[i] != '/'
    &&& name != dot()
    &&& name != dot_dot()
}

/// Joining a plain name onto any directory makes it the file name.
pub proof fn lemma_file_name_of_join(dir: Seq<char>, name: Seq<char>)
    requires
        is_plain_name(name),
    ensures
        file_name(join(dir, name)) == Some(name),
{
    let p = join(dir, name);
    let n = name.len() as int;
    assert(p.len() >= n);
    assert forall|j: int| p.len() - n <= j < p.len() implies p[j] == name[j - (p.len() - n)] by {}
    assert(p.last() == name.last());
    assert(p[p.len() - 0 - 1] == name[n - 1]);
    lemma_trail_is(p, slash_pred(), 0);
    assert(p.take(p.len() - trail(p, slash_pred())) =~= p);
    assert forall|j: int| p.len() - n <= j < p.len() implies (other_than('/'))(#[trigger] p[j]) by {
        assert(p[j] == name[j - (p.len() - n)]);
    }
    if p.len() > n {
        assert(p[p.len() - n - 1] == '/');
    }
    lemma_trail_is(p, other_than('/'), n);
    assert(p.skip(p.len() - n) =~= name);
}

/// Start of the run of `c` that ends at `hi` within `[lo, hi)`.
pub fn back_over(v: &Vec<char>, lo: usize, hi: usize, c: char) -> (r: usize)
    requires
        lo <= hi <= v@.len(),
    ensures
        lo <= r <= hi,
        hi - r == trail(v@.subrange(lo as int, hi as int), |x: char| x == c),
{
    let ghost s = v@.subrange(lo as int, hi as int);
    let mut i = hi;
    while i > lo && v[i - 1] == c
        invariant
            lo <= i <= hi <= v@.len(),
            s == v@.subrange(lo as int, hi as int),
            forall|j: int| i <= j < hi ==> #[trigger] v@[j] == c,
        decreases i - lo,
    {
        i -= 1;
    }
    proof {
        let p = |x: char| x == c;
        assert forall|j: int| s.len() - (hi - i) <= j < s.len() implies p(#[trigger] s[j]) by {
            assert(s[j] == v@[lo + j]);
        }
        if i > lo {
            assert(s[s.len() - (hi - i) - 1] == v@[i - 1]);
        }
        lemma_trail_is(s, p, hi - i);
    }
    i
}

/// Start of the run of characters other than `c` that ends at `hi`.
pub fn back_until(v: &Vec<char>, lo: usize, hi: usize, c: char) -> (r: usize)
    requires
        lo <= hi <= v@.len(),
    ensures
        lo <= r <= hi,
        hi - r == trail(v@.subrange(lo as int, hi as int), other_than(c)),
{
    let ghost s = v@.subrange(lo as int, hi as int);
    let mut i = hi;
    while i > lo && v[i - 1] != c
        invariant
            lo <= i <= hi <= v@.len(),
            s == v@.subrange(lo as int, hi as int),
            forall|j: int| i <= j < hi ==> #[trigger] v@[j] != c,
        decreases i - lo,
    {
        i -= 1;
    }
    proof {
        assert forall|j: int| s.len() - (hi - i) <= j < s.len() implies (other_than(c))(
            #[trigger] s[j],
        ) by {
            assert(s[j] == v@[lo + j]);
        }
        if i > lo {
            assert(s[s.len() - (hi - i) - 1] == v@[i - 1]);
        }
        lemma_trail_is(s, other_than(c), hi - i);
    }
    i
}

/// Bounds `[lo, hi)` of the last component of `v` that is not `.`.
pub fn last_component_range(v: &Vec<char>) -> (r: Option<(usize, usize)>)
    ensures
        match r {
            Some((lo, hi)) => lo <= hi <= v@.len() && last_component(v@) == Some(
                v@.subrange(lo as int, hi as int),
            ),
            None => last_component(v@) is None,
        },
{
    let mut hi = v.len();
    assert(v@.take(hi as int) =~= v@);
    loop
        invariant
            hi <= v@.len(),
            last_component(v@) == last_component(v@.take(hi as int)),
        decreases hi,
    {
        let ghost p = v@.take(hi as int);
        let end = back_over(v, 0, hi, '/');
        proof {
            assert(v@.subrange(0, hi as int) =~= p);
            assert(trail(p, slash_pred()) == trail(p, |x: char| x == '/')) by {
                assert(slash_pred() =~= |x: char| x == '/');
            }
        }
        if end == 0 {
            assert(p.take(p.len() - trail(p, slash_pred())).len() == 0);
            return None;
        }
        let start = back_until(v, 0, end, '/');
        let ghost t = p.take(p.len() - trail(p, slash_pred()));
        proof {
            assert(t =~= v@.subrange(0, end as int));
            assert(t.skip(t.len() - trail(t, other_than('/'))) =~= v@.subrange(
                start as int,
                end as int,
            ));
        }
        if end - start == 1 && v[start] == '.' {
            proof {
                assert(v@.subrange(start as int, end as int) =~= dot());
                assert(t.take(t.len() - trail(t, other_than('/'))) =~= v@.take(start as int));
            }
            hi = start;
        } else {
            proof {
                if v@.subrange(start as int, end as int) == dot() {
                    assert(v@.subrange(start as int, end as int)[0] == '.');
                }
            }
            return Some((start, end));
        }
    }
}

/// The final normal component of a path (`Path::file_name`).
pub fn file_name_range(v: &Vec<char>) -> (r: Option<(usize, usize)>)
    ensures
        match r {
            Some((lo, hi)) => lo <= hi <= v@.len() && file_name(v@) == Some(
                v@.subrange(lo as int, hi as int),
            ),
            None => file_name(v@) is None,
        },
{
    match last_component_range(v) {
        Some((lo, hi)) => {
            if hi - lo == 2 && v[lo] == '.' && v[lo + 1] == '.' {
                assert(v@.subrange(lo as int, hi as int) =~= dot_dot());
                None
            } else {
                proof {
                    let seg = v@.subrange(lo as int, hi as int);
                    if seg == dot_dot() {
                        assert(seg.len() == 2);
                        assert(seg[0] == '.');
                        assert(seg[1] == '.');
                        assert(v@[lo as int] == '.');
                        assert(v@[lo + 1] == '.');
                        assert(false);
                    }
                }
                Some((lo, hi))
            }
        },
        None => None,
    }
}

/// `base` joined with `rel` as `PathBuf::push` does on Unix.
pub fn join_path(base: &str, rel: &str) -> (r: String)
    ensures
        r@ == join(base@, rel@),
{
    let b = to_chars(base);
    let x = to_chars(rel);
    if x.len() > 0 && x[0] == '/' {
        return string_of(&x, 0, x.len());
    }
    let mut out = string_of(&b, 0, b.len());
    if b.len() > 0 && b[b.len() - 1] != '/' {
        push_char(&mut out, '/');
    }
    push_range(&mut out, &x, 0, x.len());
    proof {
        assert(b@.subrange(0, b@.len() as int) =~= b@);
        assert(x@.subrange(0, x@.len() as int) =~= x@);
        if b@.len() > 0 {
            assert(b@.last() == b@[b@.len() - 1]);
        }
    }
    out
}

} // verus!
