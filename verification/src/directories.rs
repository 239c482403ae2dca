//! The directories of the sorted tree: how they are named, and which of
//! them are known to exist.
use crate::paths::{join, joined};
use crate::text::views_of;
use vstd::prelude::*;
use vstd::string::StringExecFns;

verus! {

/// What the name of the root of a sorted tree starts with.
pub const SORTED_IMAGES_DIRNAME_PREFIX: &'static str = "Images-";

/// The directory, below the root of the sorted tree, for images that cannot
/// be classified.
pub const UNSORTED_IMAGES_SUBDIR_NAME: &'static str = "Unsorted/";

/// How the time is written in the name of the root of a sorted tree: year,
/// month, day, a hyphen, hour, minute and second.
pub const TIMESTAMP_FORMAT: &'static str = "%Y%m%d-%H%M%S";

/// The local time of this moment, written in [`TIMESTAMP_FORMAT`]. Wraps
/// `chrono::Local::now` and `DateTime::format`; nothing is claimed of the
/// text, which depends on the clock and the time zone of the machine.
#[verifier::external_body]
fn local_time(format: &str) -> String
    requires
        format@ == TIMESTAMP_FORMAT@,
{
    chrono::Local::now().format(format).to_string()
}

/// The path of the root of a sorted tree below `top_directory`, named by
/// the prefix and `suffix`.
pub fn sorted_images_dir_named(top_directory: &str, suffix: &str) -> (r: String)
    ensures
        r@ == joined(top_directory@, SORTED_IMAGES_DIRNAME_PREFIX@ + suffix@),
{
    let mut name = SORTED_IMAGES_DIRNAME_PREFIX.to_owned();
    name.append(suffix);
    join(top_directory, name.as_str())
}

/// The path of the root of a new sorted tree below `top_directory`: its
/// name is the prefix followed by the time of this moment.
pub fn sorted_images_dir(top_directory: &str) -> (r: String)
    ensures
        exists|suffix: Seq<char>|
            r@ == joined(top_directory@, #[trigger] (SORTED_IMAGES_DIRNAME_PREFIX@ + suffix)),
{
    let suffix = local_time(TIMESTAMP_FORMAT);
    let path = sorted_images_dir_named(top_directory, suffix.as_str());
    assert(path@ == joined(top_directory@, SORTED_IMAGES_DIRNAME_PREFIX@ + suffix@));
    path
}

/// The path of the directory for unclassified images below
/// `parent_directory`.
pub fn unsorted_images_dir(parent_directory: &str) -> (r: String)
    ensures
        r@ == joined(parent_directory@, UNSORTED_IMAGES_SUBDIR_NAME@),
{
    join(parent_directory, UNSORTED_IMAGES_SUBDIR_NAME)
}

/// The directories that are known to exist because they were created, or
/// found, earlier in the run. A directory in the cache needs no further
/// call to the filesystem.
#[derive(Debug)]
pub struct DirectoryCache {
    created: Vec<String>,
}

/// A directory that is to exist, and whether the cache knows that it does.
#[derive(Debug)]
pub struct Ensured {
    /// The path of the directory.
    pub path: String,
    /// Whether the directory is in the cache; where it is not, it is to be
    /// created, and then to be confirmed to the cache.
    pub cached: bool,
}

impl View for DirectoryCache {
    type V = Set<Seq<char>>;

    closed spec fn view(&self) -> Set<Seq<char>> {
        Set::new(
            |path: Seq<char>|
                exists|i: int| 0 <= i < self.created.len() && (#[trigger] self.created[i])@ == path,
        )
    }
}

impl DirectoryCache {
    /// A cache that knows no directory.
    pub fn new() -> (cache: DirectoryCache)
        ensures
            cache@ == Set::<Seq<char>>::empty(),
    {
        let cache = DirectoryCache { created: Vec::new() };
        assert(cache@ =~= Set::<Seq<char>>::empty());
        cache
    }

    /// Whether the cache knows the directory.
    pub fn contains(&self, path: &str) -> (r: bool)
        ensures
            r == self@.contains(path@),
    {
        let wanted = path.to_owned();
        let mut i: usize = 0;
        while i < self.created.len()
            invariant
                i <= self.created.len(),
                wanted@ == path@,
                forall|j: int| 0 <= j < i ==> (#[trigger] self.created[j])@ != path@,
            decreases self.created.len() - i,
        {
            if self.created[i] == wanted {
                assert(self.created[i as int]@ == path@);
                return true;
            }
            i += 1;
        }
        false
    }

    /// Tells the cache that the directory exists.
    pub fn confirm(&mut self, path: &str)
        ensures
            final(self)@ == old(self)@.insert(path@),
    {
        if !self.contains(path) {
            let ghost before = self.created@;
            self.created.push(path.to_owned());
            assert forall|p: Seq<char>| self@.contains(p) == old(self)@.insert(path@).contains(
                p,
            ) by {
                if old(self)@.contains(p) {
                    let i = choose|i: int| 0 <= i < before.len() && (#[trigger] before[i])@ == p;
                    assert(self.created[i] == before[i]);
                }
                if p == path@ {
                    assert(self.created[before.len() as int]@ == p);
                }
            }
            assert(self@ =~= old(self)@.insert(path@));
        } else {
            assert(self@ =~= old(self)@.insert(path@));
        }
    }

    /// Names the directory `child` below `parent` and looks it up.
    pub fn ensure(&self, parent: &str, child: &str) -> (r: Ensured)
        ensures
            r.path@ == joined(parent@, child@),
            r.cached == self@.contains(joined(parent@, child@)),
    {
        let path = join(parent, child);
        let cached = self.contains(path.as_str());
        Ensured { path, cached }
    }
}

/// A walk through a tree of directories that finds every directory below
/// the top. The walk names the directory to read next and takes what was
/// found in it; it reads nothing itself.
#[derive(Debug)]
pub struct DirectoryWalk {
    found: Vec<String>,
    pending: Vec<String>,
}

/// A [`DirectoryWalk`] as plain values.
pub struct Walk {
    /// The directories found so far.
    pub found: Seq<Seq<char>>,
    /// The directories that are still to be read; the last is read next.
    pub pending: Seq<Seq<char>>,
}

impl Walk {
    /// The walk after `children` were found in the directory read last: they
    /// follow what was found before, and are read next, the first of them
    /// first, before anything that was pending.
    pub open spec fn with_children(self, children: Seq<Seq<char>>) -> Walk {
        Walk { found: self.found + children, pending: self.pending + children.reverse() }
    }
}

impl View for DirectoryWalk {
    type V = Walk;

    closed spec fn view(&self) -> Walk {
        Walk { found: views_of(self.found@), pending: views_of(self.pending@) }
    }
}

impl DirectoryWalk {
    /// A walk that starts at `top_directory`.
    pub fn new(top_directory: String) -> (walk: DirectoryWalk)
        ensures
            walk@ == (Walk { found: Seq::empty(), pending: seq![top_directory@] }),
    {
        let mut pending: Vec<String> = Vec::new();
        pending.push(top_directory);
        let walk = DirectoryWalk { found: Vec::new(), pending };
        assert(walk@.found =~= Seq::empty());
        assert(walk@.pending =~= seq![top_directory@]);
        walk
    }

    /// The directory to read next; `None` once every directory was read.
    pub fn next(&mut self) -> (r: Option<String>)
        ensures
            final(self)@.found == old(self)@.found,
            match r {
                Some(directory) => old(self)@.pending.len() > 0 && directory@ == old(
                    self,
                )@.pending.last() && final(self)@.pending == old(self)@.pending.drop_last(),
                None => old(self)@.pending.len() == 0 && final(self)@.pending == old(self)@.pending,
            },
    {
        let r = self.pending.pop();
        proof {
            if r.is_some() {
                assert(views_of(self.pending@) =~= views_of(old(self).pending@).drop_last());
            }
        }
        r
    }

    /// Takes the directories found in the directory that was read last.
    pub fn add(&mut self, children: Vec<String>)
        ensures
            final(self)@ == old(self)@.with_children(views_of(children@)),
    {
        let ghost all = views_of(children@);
        let mut i: usize = 0;
        while i < children.len()
            invariant
                i <= children.len(),
                all == views_of(children@),
                views_of(self.found@) == old(self)@.found + all.take(i as int),
                self.pending == old(self).pending,
            decreases children.len() - i,
        {
            let ghost before = views_of(self.found@);
            self.found.push(children[i].clone());
            assert(views_of(self.found@) =~= before.push(children@[i as int]@));
            assert(all.take(i + 1) =~= all.take(i as int).push(children@[i as int]@));
            assert(views_of(self.found@) =~= old(self)@.found + all.take(i + 1));
            i += 1;
        }
        assert(all.take(i as int) =~= all);
        let mut children = children;
        let ghost mut taken: Seq<Seq<char>> = Seq::empty();
        while children.len() > 0
            invariant
                views_of(self.found@) == old(self)@.found + all,
                views_of(self.pending@) == old(self)@.pending + taken,
                taken + views_of(children@).reverse() == all.reverse(),
            decreases children.len(),
        {
            let ghost rest = views_of(children@);
            let child = children.pop().unwrap();
            let ghost earlier = taken;
            proof {
                assert(views_of(children@) =~= rest.drop_last());
                assert(rest.reverse() =~= seq![child@] + rest.drop_last().reverse());
                taken = taken.push(child@);
                assert(taken + views_of(children@).reverse() =~= earlier + rest.reverse());
            }
            let ghost before = views_of(self.pending@);
            self.pending.push(child);
            assert(views_of(self.pending@) =~= before.push(child@));
            assert(views_of(self.pending@) =~= old(self)@.pending + taken);
        }
        assert(taken =~= all.reverse()) by {
            assert(views_of(children@).reverse() =~= Seq::<Seq<char>>::empty());
        }
    }

    /// The directories found, in the order of finding.
    pub fn into_found(self) -> (r: Vec<String>)
        ensures
            views_of(r@) == self@.found,
    {
        self.found
    }
}

/// A directory that was created and confirmed is in the cache from then on:
/// to ensure the same directory again names the same path and asks for no
/// further creation, whatever was confirmed in between.
pub proof fn lemma_confirmed_stays_cached(
    known: Set<Seq<char>>,
    parent: Seq<char>,
    child: Seq<char>,
    later: Seq<Seq<char>>,
)
    ensures
        confirmed_all(known.insert(joined(parent, child)), later).contains(joined(parent, child)),
    decreases later.len(),
{
    if later.len() > 0 {
        lemma_confirmed_stays_cached(known, parent, child, later.drop_last());
    }
}

/// The cache after the given directories were confirmed, one after the
/// other.
pub open spec fn confirmed_all(known: Set<Seq<char>>, paths: Seq<Seq<char>>) -> Set<Seq<char>>
    decreases paths.len(),
{
    if paths.len() == 0 {
        known
    } else {
        confirmed_all(known, paths.drop_last()).insert(paths.last())
    }
}

} // verus!
