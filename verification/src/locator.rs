//! The search for a file by name, as a worklist of directories still to be
//! listed. The caller reads a directory and hands its entries in; the
//! decisions are made here.
use vstd::prelude::*;

verus! {

/// One entry of a directory listing.
#[derive(Debug, Clone, PartialEq, Eq)]
pub struct Entry<P> {
    /// Where the entry is.
    pub path: P,
    /// Its file name, where the name is text.
    pub name: Option<String>,
    /// Whether it is a directory, to be searched in turn.
    pub is_dir: bool,
}

impl<P> Entry<P> {
    /// The entry is no directory and bears exactly the name `target`.
    pub open spec fn hits(self, target: Seq<char>) -> bool {
        !self.is_dir && (self.name matches Some(n) && n@ == target)
    }
}

/// The position of the first entry that hits `target`, if any does.
pub open spec fn first_hit<P>(entries: Seq<Entry<P>>, target: Seq<char>) -> Option<int>
    decreases entries.len(),
{
    if entries.len() == 0 {
        None
    } else {
        match first_hit(entries.drop_last(), target) {
            Some(i) => Some(i),
            None => if entries.last().hits(target) {
                Some(entries.len() - 1)
            } else {
                None
            },
        }
    }
}

/// The paths of the directories among `entries`, in the order of the listing.
pub open spec fn subdirs<P>(entries: Seq<Entry<P>>) -> Seq<P>
    decreases entries.len(),
{
    if entries.len() == 0 {
        Seq::empty()
    } else if entries.last().is_dir {
        subdirs(entries.drop_last()).push(entries.last().path)
    } else {
        subdirs(entries.drop_last())
    }
}

/// What `first_hit` yields: the entry there hits and none before it does;
/// or no entry hits.
pub proof fn lemma_first_hit<P>(entries: Seq<Entry<P>>, target: Seq<char>)
    ensures
        match first_hit(entries, target) {
            Some(i) => 0 <= i < entries.len() && entries[i].hits(target) && forall|j: int|
                0 <= j < i ==> !(#[trigger] entries[j]).hits(target),
            None => forall|j: int| 0 <= j < entries.len() ==> !(#[trigger] entries[j]).hits(target),
        },
    decreases entries.len(),
{
    if entries.len() > 0 {
        let front = entries.drop_last();
        lemma_first_hit(front, target);
        assert(forall|j: int| 0 <= j < front.len() ==> front[j] == entries[j]);
    }
}

/// A hit among the first `n` entries is the first hit of the whole listing.
pub proof fn lemma_first_hit_stays<P>(entries: Seq<Entry<P>>, target: Seq<char>, n: int)
    requires
        0 <= n <= entries.len(),
        first_hit(entries.take(n), target) is Some,
    ensures
        first_hit(entries, target) == first_hit(entries.take(n), target),
    decreases entries.len() - n,
{
    if n < entries.len() {
        assert(entries.take(n + 1).drop_last() == entries.take(n));
        lemma_first_hit_stays(entries, target, n + 1);
    } else {
        assert(entries.take(n) == entries);
    }
}

/// A search in progress: the directories still to be listed, the one added
/// last on top, and the name sought.
#[derive(Debug)]
pub struct Locator<P> {
    frontier: Vec<P>,
    target: String,
}

impl<P> Locator<P> {
    /// The directories still to be listed; the last one is listed next.
    pub closed spec fn pending(&self) -> Seq<P> {
        self.frontier@
    }

    /// The file name sought.
    pub closed spec fn target(&self) -> Seq<char> {
        self.target@
    }

    /// A search for `target` that starts at `root`.
    pub fn new(root: P, target: &str) -> (s: Self)
        ensures
            s.pending() == seq![root],
            s.target() == target@,
    {
        let mut frontier: Vec<P> = Vec::new();
        frontier.push(root);
        Locator { frontier, target: String::from_str(target) }
    }

    /// Takes the directory added last off the frontier, to be listed next;
    /// `None` when the search is exhausted.
    pub fn next_dir(&mut self) -> (dir: Option<P>)
        ensures
            final(self).target() == old(self).target(),
            match dir {
                Some(d) => old(self).pending().len() > 0 && d == old(self).pending().last()
                    && final(self).pending() == old(self).pending().drop_last(),
                None => old(self).pending().len() == 0 && final(self).pending() == old(
                    self,
                ).pending(),
            },
    {
        self.frontier.pop()
    }

    /// Takes in one entry of the directory that `next_dir` handed out: a
    /// directory joins the frontier; any other entry named as the target
    /// ends the search, the frontier being dropped, and its path is
    /// returned.
    pub fn offer(&mut self, entry: Entry<P>) -> (found: Option<P>)
        ensures
            final(self).target() == old(self).target(),
            if entry.hits(old(self).target()) {
                found == Some(entry.path) && final(self).pending().len() == 0
            } else if entry.is_dir {
                found is None && final(self).pending() == old(self).pending().push(entry.path)
            } else {
                found is None && final(self).pending() == old(self).pending()
            },
    {
        if entry.is_dir {
            self.frontier.push(entry.path);
            return None;
        }
        let hit = match &entry.name {
            Some(name) => *name == self.target,
            None => false,
        };
        if hit {
            self.frontier.clear();
            Some(entry.path)
        } else {
            None
        }
    }

    /// Takes in the listing of the directory that `next_dir` handed out,
    /// entry by entry in order, up to the first that ends the search.
    pub fn scan(&mut self, entries: Vec<Entry<P>>) -> (found: Option<P>)
        ensures
            final(self).target() == old(self).target(),
            match first_hit(entries@, old(self).target()) {
                Some(i) => found == Some(entries@[i].path) && final(self).pending().len() == 0,
                None => found is None && final(self).pending() == old(self).pending() + subdirs(
                    entries@,
                ),
            },
    {
        let ghost all = entries@;
        for entry in it: entries
            invariant
                it.seq() == all,
                self.target() == old(self).target(),
                first_hit(all.take(it.index()), self.target()) is None,
                self.pending() == old(self).pending() + subdirs(all.take(it.index())),
        {
            proof {
                let i = it.index();
                assert(all.take(i + 1).drop_last() == all.take(i));
            }
            let found = self.offer(entry);
            if found.is_some() {
                proof {
                    lemma_first_hit_stays(all, self.target(), it.index() + 1);
                }
                return found;
            }
        }
        proof {
            assert(all.take(all.len() as int) == all);
        }
        None
    }
}

} // verus!
