//! Watching the site's sources: which changes call for a new render pass.
use vstd::prelude::*;
use crate::text::chars_of;

verus! {

/// `p` is `base` or lies below it, component by component (`a/bc` is not below `a/b`).
pub open spec fn is_under(p: Seq<char>, base: Seq<char>) -> bool {
    p.len() >= base.len() && p.take(base.len() as int) == base && (p.len() == base.len() || (
    base.len() > 0 && base.last() == '/') || p[base.len() as int] == '/')
}

/// Whether `p` is `base` or lies below it.
pub fn starts_with_path(p: &str, base: &str) -> (r: bool)
    ensures
        r == is_under(p@, base@),
{
    let pc = chars_of(p);
    let bc = chars_of(base);
    if pc.len() < bc.len() {
        return false;
    }
    let mut i: usize = 0;
    while i < bc.len()
        invariant
            pc@ == p@,
            bc@ == base@,
            i <= bc@.len() <= pc@.len(),
            forall|k: int| 0 <= k < i ==> pc@[k] == bc@[k],
        decreases bc.len() - i,
    {
        if pc[i] != bc[i] {
            assert(pc@.take(bc@.len() as int)[i as int] != bc@[i as int]);
            return false;
        }
        i = i + 1;
    }
    assert(pc@.take(bc@.len() as int) =~= bc@);
    let n = bc.len();
    if pc.len() == n {
        return true;
    }
    if n > 0 && bc[n - 1] == '/' {
        assert(bc@.last() == '/');
        return true;
    }
    pc[n] == '/'
}

/// A change event calls for no render when every path it names lies in the output
/// directory (which may sit inside the watched sources).
pub fn only_output_changed(paths: &Vec<String>, output_dir: &str) -> (r: bool)
    ensures
        r == forall|i: int| 0 <= i < paths@.len() ==> is_under(#[trigger] paths@[i]@, output_dir@),
{
    let mut i: usize = 0;
    while i < paths.len()
        invariant
            i <= paths@.len(),
            forall|k: int| 0 <= k < i ==> is_under(#[trigger] paths@[k]@, output_dir@),
        decreases paths.len() - i,
    {
        if !starts_with_path(paths[i].as_str(), output_dir) {
            return false;
        }
        i = i + 1;
    }
    true
}

} // verus!
