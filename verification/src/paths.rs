//! Paths as texts whose components are separated by `/`.
//!
//! The library never touches the filesystem: it only computes the paths
//! that its caller then creates, probes or copies to.
use crate::text::{find_last, last_index_of, lemma_last_index_of, push_char};
use vstd::prelude::*;

verus! {

/// `child` adjoined to `parent`: a `child` that starts at the root replaces
/// `parent`; otherwise it follows `parent`, with one `/` between the two
/// unless `parent` is empty or ends in `/` already.
pub open spec fn joined(parent: Seq<char>, child: Seq<char>) -> Seq<char> {
    if child.len() > 0 && child[0] == '/' {
        child
    } else if parent.len() == 0 || parent.last() == '/' {
        parent + child
    } else {
        parent + seq!['/'] + child
    }
}

/// Adjoins `child` to `parent`.
pub fn join(parent: &str, child: &str) -> (r: String)
    ensures
        r@ == joined(parent@, child@),
{
    let np = parent.unicode_len();
    let nc = child.unicode_len();
    if nc > 0 && child.get_char(0) == '/' {
        return child.to_owned();
    }
    let mut out = parent.to_owned();
    if np > 0 && parent.get_char(np - 1) != '/' {
        push_char(&mut out, '/');
    }
    out.append(child);
    out
}

/// What follows the last `/` of a path: the whole path where it holds none.
pub open spec fn last_component(path: Seq<char>) -> Seq<char> {
    path.subrange(last_index_of(path, '/') + 1, path.len() as int)
}

/// The path up to its last `/`, that `/` included: empty where it holds none.
pub open spec fn directory_prefix(path: Seq<char>) -> Seq<char> {
    path.subrange(0, last_index_of(path, '/') + 1)
}

/// A component that names no file: the empty one, `.` and `..`.
pub open spec fn is_special_component(name: Seq<char>) -> bool {
    name.len() == 0 || name == seq!['.'] || name == seq!['.', '.']
}

/// The file name of a path: its last component, unless that names no file.
pub open spec fn file_name_of(path: Seq<char>) -> Option<Seq<char>> {
    if is_special_component(last_component(path)) {
        None
    } else {
        Some(last_component(path))
    }
}

/// Splits a path after its last `/`.
pub fn split_last_component(path: &str) -> (r: (String, String))
    ensures
        r.0@ == directory_prefix(path@),
        r.1@ == last_component(path@),
        r.0@ + r.1@ == path@,
{
    let n = path.unicode_len();
    proof {
        lemma_last_index_of(path@, '/');
    }
    let start: usize = match find_last(path, '/') {
        Some(i) => i + 1,
        None => 0,
    };
    let prefix = path.substring_char(0, start).to_owned();
    let name = path.substring_char(start, n).to_owned();
    assert(prefix@ + name@ =~= path@);
    (prefix, name)
}

/// The file name of `path`, where it has one.
pub fn file_name(path: &str) -> (r: Option<String>)
    ensures
        match r {
            Some(name) => file_name_of(path@) == Some(name@),
            None => file_name_of(path@).is_none(),
        },
{
    let (_, name) = split_last_component(path);
    let n = name.as_str().unicode_len();
    if n == 0 {
        return None;
    }
    if name.as_str().get_char(0) == '.' {
        if n == 1 {
            assert(name@ =~= seq!['.']);
            return None;
        }
        if n == 2 && name.as_str().get_char(1) == '.' {
            assert(name@ =~= seq!['.', '.']);
            return None;
        }
    }
    proof {
        if name@ == seq!['.'] {
            assert(seq!['.'].len() == 1);
        }
        if name@ == seq!['.', '.'] {
            assert(seq!['.', '.'][1] == '.');
        }
    }
    Some(name)
}

/// Where the extension of a file name starts: at its last `.`, unless the
/// name has none or only starts with one; then at its end.
pub open spec fn extension_start(name: Seq<char>) -> int {
    if last_index_of(name, '.') <= 0 {
        name.len() as int
    } else {
        last_index_of(name, '.')
    }
}

/// A file name without its extension.
pub open spec fn stem_of(name: Seq<char>) -> Seq<char> {
    name.subrange(0, extension_start(name))
}

/// The extension of a file name with the `.` before it, or the empty text.
pub open spec fn extension_of(name: Seq<char>) -> Seq<char> {
    name.subrange(extension_start(name), name.len() as int)
}

/// Splits a file name into stem and extension.
pub fn split_extension(name: &str) -> (r: (String, String))
    ensures
        r.0@ == stem_of(name@),
        r.1@ == extension_of(name@),
        r.0@ + r.1@ == name@,
{
    let n = name.unicode_len();
    proof {
        lemma_last_index_of(name@, '.');
    }
    let at: usize = match find_last(name, '.') {
        Some(i) => if i == 0 {
            n
        } else {
            i
        },
        None => n,
    };
    let stem = name.substring_char(0, at).to_owned();
    let ext = name.substring_char(at, n).to_owned();
    assert(stem@ + ext@ =~= name@);
    (stem, ext)
}

/// Where the first character other than `/` stands in `path` from `start`
/// on: the length of `path` where only separators follow.
pub open spec fn first_other_from(path: Seq<char>, start: int) -> int
    decreases path.len() - start,
{
    if start < 0 || start >= path.len() {
        path.len() as int
    } else if path[start] != '/' {
        start
    } else {
        first_other_from(path, start + 1)
    }
}

/// A path without the separators that it starts with.
pub open spec fn without_leading_separators(path: Seq<char>) -> Seq<char> {
    path.skip(first_other_from(path, 0))
}

/// Whether `path` names `base` or something below it: it starts with
/// `base`, and `base` ends where a component of `path` ends.
pub open spec fn lies_below(base: Seq<char>, path: Seq<char>) -> bool {
    base.is_prefix_of(path) && (base.len() == 0 || base.last() == '/' || path.len() == base.len()
        || path[base.len() as int] == '/')
}

/// The way from `base` to `path`: what follows `base` in a path that lies
/// below it, else the whole path; in either case without the separators
/// at its start, so that it is never rooted.
pub open spec fn relative_to(base: Seq<char>, path: Seq<char>) -> Seq<char> {
    without_leading_separators(
        if lies_below(base, path) {
            path.skip(base.len() as int)
        } else {
            path
        },
    )
}

/// `first_other_from` names the end of the separators that a path starts
/// with.
pub proof fn lemma_first_other_from(path: Seq<char>, start: int)
    requires
        0 <= start <= path.len(),
    ensures
        start <= first_other_from(path, start) <= path.len(),
        forall|i: int| start <= i < first_other_from(path, start) ==> path[i] == '/',
        first_other_from(path, start) < path.len() ==> path[first_other_from(path, start)] != '/',
    decreases path.len() - start,
{
    if start < path.len() && path[start] == '/' {
        lemma_first_other_from(path, start + 1);
    }
}

/// The way from one path to another is never rooted, and is the end of the
/// path it leads to.
pub proof fn lemma_relative_is_not_rooted(base: Seq<char>, path: Seq<char>)
    ensures
        relative_to(base, path).len() == 0 || relative_to(base, path)[0] != '/',
        relative_to(base, path).len() <= path.len(),
        relative_to(base, path) == path.skip(path.len() - relative_to(base, path).len()),
{
    let rest = if lies_below(base, path) {
        path.skip(base.len() as int)
    } else {
        path
    };
    lemma_first_other_from(rest, 0);
    let k = first_other_from(rest, 0);
    assert(rest.skip(k) =~= path.skip(path.len() - rest.skip(k).len()));
}

/// A path that is not rooted, adjoined to a directory, lies below that
/// directory: the directory is where the joined path starts, followed by
/// exactly one separator unless it is empty or ends in one, and then the
/// path.
pub proof fn lemma_joined_lies_below(parent: Seq<char>, child: Seq<char>)
    requires
        child.len() == 0 || child[0] != '/',
    ensures
        parent.is_prefix_of(joined(parent, child)),
        lies_below(parent, joined(parent, child)),
        joined(parent, child) == if parent.len() == 0 || parent.last() == '/' {
            parent + child
        } else {
            parent + seq!['/'] + child
        },
{
    let whole = joined(parent, child);
    assert(whole.subrange(0, parent.len() as int) =~= parent);
}

/// Finds the way from `base` to `path`.
pub fn relative_path(base: &str, path: &str) -> (r: String)
    ensures
        r@ == relative_to(base@, path@),
{
    let nb = base.unicode_len();
    let np = path.unicode_len();
    let mut start: usize = 0;
    if nb <= np {
        let head = path.substring_char(0, nb).to_owned();
        let wanted = base.to_owned();
        if head == wanted {
            assert(path@.subrange(0, nb as int) =~= base@);
            if nb == 0 || nb == np || base.get_char(nb - 1) == '/' || path.get_char(nb) == '/' {
                start = nb;
            }
        }
    }
    let ghost rest = if lies_below(base@, path@) {
        path@.skip(base@.len() as int)
    } else {
        path@
    };
    assert(rest =~= path@.skip(start as int));
    let mut at: usize = start;
    while at < np && path.get_char(at) == '/'
        invariant
            start <= at <= np,
            np == path@.len(),
            rest == path@.skip(start as int),
            first_other_from(rest, 0) == first_other_from(rest, at - start),
        decreases np - at,
    {
        assert(rest[at - start] == path@[at as int]);
        at += 1;
    }
    proof {
        if at < np {
            assert(rest[at - start] == path@[at as int]);
        }
        assert(first_other_from(rest, 0) == at - start);
        assert(rest.skip(at - start) =~= path@.subrange(at as int, np as int));
    }
    path.substring_char(at, np).to_owned()
}

} // verus!
