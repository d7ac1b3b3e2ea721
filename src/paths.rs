//! Relative paths of site files, written with `/` between components: their directory,
//! file name, stem and extension, as `std::path::Path` reads them for a file.
use vstd::prelude::*;
use crate::text::{chars_of, piece};

verus! {

/// The last position of `c` in `s`, or -1 if `c` is not there.
pub open spec fn last_index(s: Seq<char>, c: char) -> int
    decreases s.len(),
{
    if s.len() == 0 {
        -1
    } else if s.last() == c {
        s.len() - 1
    } else {
        last_index(s.drop_last(), c)
    }
}

/// The directory part of a path, with its trailing `/` (empty for a bare file name).
pub open spec fn dir_of(p: Seq<char>) -> Seq<char> {
    p.take(last_index(p, '/') + 1)
}

/// The file name: what follows the last `/`.
pub open spec fn file_name_of(p: Seq<char>) -> Seq<char> {
    p.skip(last_index(p, '/') + 1)
}

/// Where the extension of a file name starts, after its last dot; -1 when it has none:
/// no dot, a dot only in front (a hidden file), or the name `..`.
pub open spec fn ext_dot(name: Seq<char>) -> int {
    if name == seq!['.', '.'] || last_index(name, '.') <= 0 {
        -1
    } else {
        last_index(name, '.')
    }
}

/// The file name without its extension.
pub open spec fn stem_of(name: Seq<char>) -> Seq<char> {
    if ext_dot(name) < 0 {
        name
    } else {
        name.take(ext_dot(name))
    }
}

/// The extension of a file name, empty when it has none.
pub open spec fn extension_of(name: Seq<char>) -> Seq<char> {
    if ext_dot(name) < 0 {
        seq![]
    } else {
        name.skip(ext_dot(name) + 1)
    }
}

/// The parts of a path that the resolvers read.
pub struct PathParts {
    /// The directory, with its trailing `/`.
    pub dir: String,
    /// The file name.
    pub name: String,
    /// The file name without its extension.
    pub stem: String,
    /// The extension, empty when there is none.
    pub extension: String,
}

pub open spec fn parts_match(p: Seq<char>, r: PathParts) -> bool {
    &&& r.dir@ == dir_of(p)
    &&& r.name@ == file_name_of(p)
    &&& r.stem@ == stem_of(file_name_of(p))
    &&& r.extension@ == extension_of(file_name_of(p))
}

proof fn lemma_last_index_bounds(s: Seq<char>, c: char)
    ensures
        -1 <= last_index(s, c) < s.len(),
        last_index(s, c) >= 0 ==> s[last_index(s, c)] == c,
    decreases s.len(),
{
    if s.len() > 0 && s.last() != c {
        lemma_last_index_bounds(s.drop_last(), c);
    }
}

/// The last position of `c` in `s`.
pub fn find_last(s: &Vec<char>, c: char) -> (r: Option<usize>)
    ensures
        match r {
            Some(i) => i as int == last_index(s@, c),
            None => last_index(s@, c) == -1,
        },
{
    let mut k = s.len();
    assert(s@.take(k as int) =~= s@);
    while k > 0
        invariant
            k <= s@.len(),
            last_index(s@, c) == last_index(s@.take(k as int), c),
        decreases k,
    {
        let ghost t = s@.take(k as int);
        assert(t.drop_last() =~= s@.take(k - 1));
        if s[k - 1] == c {
            return Some(k - 1);
        }
        k = k - 1;
    }
    None
}

/// Splits a path into its directory, file name, stem and extension.
pub fn path_parts(path: &str) -> (r: PathParts)
    ensures
        parts_match(path@, r),
{
    let cs = chars_of(path);
    let n = cs.len();
    proof {
        lemma_last_index_bounds(path@, '/');
    }
    let start = match find_last(&cs, '/') {
        Some(i) => i + 1,
        None => 0,
    };
    let dir = piece(path, 0, start);
    let name = piece(path, start, n);
    let ncs = chars_of(name.as_str());
    proof {
        assert(path@.take(start as int) =~= path@.subrange(0, start as int));
        assert(path@.skip(start as int) =~= path@.subrange(start as int, path@.len() as int));
        lemma_last_index_bounds(name@, '.');
    }
    let two_dots = ncs.len() == 2 && ncs[0] == '.' && ncs[1] == '.';
    proof {
        if two_dots {
            assert(name@ =~= seq!['.', '.']);
        }
        if name@ == seq!['.', '.'] {
            assert(ncs@[0] == '.' && ncs@[1] == '.');
        }
    }
    let dot = if two_dots {
        None
    } else {
        match find_last(&ncs, '.') {
            Some(d) => if d == 0 {
                None
            } else {
                Some(d)
            },
            None => None,
        }
    };
    match dot {
        None => {
            let stem = piece(name.as_str(), 0, ncs.len());
            proof {
                assert(name@.subrange(0, name@.len() as int) =~= name@);
            }
            PathParts { dir, name, stem, extension: String::new() }
        },
        Some(d) => {
            let stem = piece(name.as_str(), 0, d);
            let extension = piece(name.as_str(), d + 1, ncs.len());
            proof {
                assert(name@.take(d as int) =~= name@.subrange(0, d as int));
                assert(name@.skip(d + 1) =~= name@.subrange(d + 1, name@.len() as int));
            }
            PathParts { dir, name, stem, extension }
        },
    }
}

/// A position holding `c` is at or before the last one.
pub proof fn lemma_last_index_at_least(s: Seq<char>, c: char, i: int)
    requires
        0 <= i < s.len(),
        s[i] == c,
    ensures
        i <= last_index(s, c),
    decreases s.len(),
{
    if s.last() != c {
        assert(s.drop_last()[i] == s[i]);
        lemma_last_index_at_least(s.drop_last(), c, i);
    }
}

/// The directory of a path that starts with a directory is that directory followed by the
/// directory of the rest.
pub proof fn lemma_dir_of_prefixed(p: Seq<char>, k: int)
    requires
        0 < k <= p.len(),
        p[k - 1] == '/',
    ensures
        dir_of(p).len() >= k,
        dir_of(p).take(k) == p.take(k),
        dir_of(p).skip(k) == dir_of(p.skip(k)),
        file_name_of(p) == file_name_of(p.skip(k)),
    decreases p.len(),
{
    lemma_last_index_at_least(p, '/', k - 1);
    lemma_last_index_bounds(p, '/');
    lemma_last_index_shift(p, k);
    assert(dir_of(p).skip(k) =~= dir_of(p.skip(k)));
    assert(dir_of(p).take(k) =~= p.take(k));
    assert(file_name_of(p) =~= file_name_of(p.skip(k)));
}

proof fn lemma_last_index_shift(p: Seq<char>, k: int)
    requires
        0 < k <= p.len(),
        last_index(p, '/') >= k - 1,
    ensures
        last_index(p.skip(k), '/') == last_index(p, '/') - k,
    decreases p.len(),
{
    lemma_last_index_bounds(p, '/');
    if p.len() > k {
        assert(p.skip(k).last() == p.last());
        if p.last() != '/' {
            assert(p.skip(k).drop_last() =~= p.drop_last().skip(k));
            if last_index(p.drop_last(), '/') >= k - 1 {
                lemma_last_index_shift(p.drop_last(), k);
            } else {
                lemma_last_index_bounds(p.drop_last(), '/');
                lemma_last_index_at_least(p.drop_last(), '/', k - 1);
            }
        }
    } else {
        assert(p.skip(k).len() == 0);
    }
}

} // verus!
