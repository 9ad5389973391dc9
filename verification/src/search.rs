//! The search of a tree held in memory: what it visits and finds, stated
//! over the tree, and the run of the worklist that computes it.
use crate::locator::{first_hit, lemma_first_hit, subdirs, Entry, Locator};
use crate::theorems::{
    theorem_found_is_match, theorem_no_directory_listed_twice, theorem_some_match_is_found,
};
use crate::tree::{lemma_at_push, lemma_children_bounded, mirrors, paths, Node};
use vstd::prelude::*;

verus! {

/// `path` leads from `root`, through directories that can be read, to a
/// file named `target`.
pub open spec fn is_match(root: Node, path: Seq<usize>, target: Seq<char>) -> bool {
    path.len() > 0 && (root.at(path) matches Some(node) && node.is_file_named(target))
}

/// What a search visits, in order, and what it finds.
pub struct Trail {
    /// The path of the file found, if one was.
    pub found: Option<Seq<usize>>,
    /// The paths of the directories listed, in the order of their listing.
    pub visited: Seq<Seq<usize>>,
}

impl Trail {
    /// The search of nothing.
    pub open spec fn nothing() -> Trail {
        Trail { found: None, visited: Seq::empty() }
    }

    /// This search, followed by `next` unless this one found the file.
    pub open spec fn followed_by(self, next: Trail) -> Trail {
        if self.found is Some {
            self
        } else {
            Trail { found: next.found, visited: self.visited + next.visited }
        }
    }
}

/// The position of the first of `children` that is a file named `target`.
pub open spec fn first_file(children: Seq<Node>, target: Seq<char>) -> Option<int>
    decreases children.len(),
{
    if children.len() == 0 {
        None
    } else {
        match first_file(children.drop_last(), target) {
            Some(i) => Some(i),
            None => if children.last().is_file_named(target) {
                Some(children.len() - 1)
            } else {
                None
            },
        }
    }
}

/// What `first_file` yields: the child there is a file of that name and
/// none before it is; or no child is.
pub proof fn lemma_first_file(children: Seq<Node>, target: Seq<char>)
    ensures
        match first_file(children, target) {
            Some(i) => 0 <= i < children.len() && children[i].is_file_named(target) && forall|
                j: int,
            |
                0 <= j < i ==> !(#[trigger] children[j]).is_file_named(target),
            None => forall|j: int|
                0 <= j < children.len() ==> !(#[trigger] children[j]).is_file_named(target),
        },
    decreases children.len(),
{
    if children.len() > 0 {
        let front = children.drop_last();
        lemma_first_file(front, target);
        assert(forall|j: int| 0 <= j < front.len() ==> front[j] == children[j]);
    }
}

/// The search that starts with `node`, which lies at `path`, alone on the
/// frontier. The node is listed; a file of the name sought among its
/// children ends the search; else the directories among them are searched,
/// the last one first.
pub open spec fn explore(node: Node, path: Seq<usize>, target: Seq<char>) -> Trail
    decreases node, 0nat,
{
    let here = Trail { found: None, visited: seq![path] };
    match node {
        Node::Dir { entries: Some(v), .. } => match first_file(v@, target) {
            Some(i) => Trail { found: Some(path.push(i as usize)), visited: seq![path] },
            None => here.followed_by(explore_dirs(v@, path, target, v@.len())),
        },
        _ => here,
    }
}

/// The search of the directories among the first `n` of `children`, which
/// lie in the directory at `path`, the last of them first.
pub open spec fn explore_dirs(
    children: Seq<Node>,
    path: Seq<usize>,
    target: Seq<char>,
    n: nat,
) -> Trail
    decreases children, n,
{
    if n == 0 || n > children.len() {
        Trail::nothing()
    } else {
        let rest = explore_dirs(children, path, target, (n - 1) as nat);
        let child = children[n - 1];
        if child.is_dir() {
            explore(child, path.push((n - 1) as usize), target).followed_by(rest)
        } else {
            rest
        }
    }
}

/// The search of the node that `path` leads to from `root`; of a path that
/// leads nowhere, the listing is empty.
spec fn explore_at(root: Node, path: Seq<usize>, target: Seq<char>) -> Trail {
    match root.at(path) {
        Some(node) => explore(node, path, target),
        None => Trail { found: None, visited: seq![path] },
    }
}

/// The search that a frontier stands for: its directories are searched from
/// the last to the first.
spec fn explore_frontier(
    root: Node,
    frontier: Seq<Seq<usize>>,
    target: Seq<char>,
) -> Trail
    decreases frontier.len(),
{
    if frontier.len() == 0 {
        Trail::nothing()
    } else {
        explore_at(root, frontier.last(), target).followed_by(
            explore_frontier(root, frontier.drop_last(), target),
        )
    }
}

/// The paths of the directories among the first `n` of `children`, which lie
/// in the directory at `path`.
spec fn dir_paths(children: Seq<Node>, path: Seq<usize>, n: nat) -> Seq<Seq<usize>>
    decreases n,
{
    if n == 0 || n > children.len() {
        Seq::empty()
    } else if children[n - 1].is_dir() {
        dir_paths(children, path, (n - 1) as nat).push(path.push((n - 1) as usize))
    } else {
        dir_paths(children, path, (n - 1) as nat)
    }
}

/// What a walk of a tree yields: the file found and the directories listed.
#[derive(Debug, Clone, PartialEq, Eq)]
pub struct Walk {
    /// The path of the file found, if one was.
    pub found: Option<Vec<usize>>,
    /// The paths of the directories listed, in the order of their listing.
    pub visited: Vec<Vec<usize>>,
}

impl View for Walk {
    type V = Trail;

    open spec fn view(&self) -> Trail {
        Trail {
            found: match self.found {
                Some(p) => Some(p@),
                None => None,
            },
            visited: paths(self.visited@),
        }
    }
}

/// Searches that follow one another may be grouped either way.
proof fn lemma_followed_by_assoc(a: Trail, b: Trail, c: Trail)
    ensures
        a.followed_by(b).followed_by(c) == a.followed_by(b.followed_by(c)),
{
    assert((a.visited + b.visited) + c.visited == a.visited + (b.visited + c.visited));
}

/// A listing and the children that it mirrors agree on the first file of
/// the name sought.
proof fn lemma_mirror_first(
    listing: Seq<Entry<Vec<usize>>>,
    children: Seq<Node>,
    path: Seq<usize>,
    target: Seq<char>,
    n: int,
)
    requires
        mirrors(listing, children, path),
        0 <= n <= listing.len(),
    ensures
        first_hit(listing.take(n), target) == first_file(children.take(n), target),
    decreases n,
{
    if n > 0 {
        lemma_mirror_first(listing, children, path, target, n - 1);
        assert(listing.take(n).drop_last() == listing.take(n - 1));
        assert(children.take(n).drop_last() == children.take(n - 1));
    }
}

/// The directories of a listing are those among the children that it
/// mirrors.
proof fn lemma_mirror_subdirs(
    listing: Seq<Entry<Vec<usize>>>,
    children: Seq<Node>,
    path: Seq<usize>,
    n: int,
)
    requires
        mirrors(listing, children, path),
        0 <= n <= listing.len(),
    ensures
        paths(subdirs(listing.take(n))) == dir_paths(children, path, n as nat),
    decreases n,
{
    if n > 0 {
        lemma_mirror_subdirs(listing, children, path, n - 1);
        assert(listing.take(n).drop_last() == listing.take(n - 1));
    }
}

/// A frontier to which the directories among the first `n` children of a
/// directory were added stands for the search of those directories,
/// followed by the search that the frontier stood for before.
proof fn lemma_frontier_dirs(
    root: Node,
    rest: Seq<Seq<usize>>,
    path: Seq<usize>,
    node: Node,
    target: Seq<char>,
    n: nat,
)
    requires
        root.at(path) == Some(node),
        n <= node.children().len(),
    ensures
        explore_frontier(root, rest + dir_paths(node.children(), path, n), target) == explore_dirs(
            node.children(),
            path,
            target,
            n,
        ).followed_by(explore_frontier(root, rest, target)),
    decreases n,
{
    let children = node.children();
    let after = explore_frontier(root, rest, target);
    lemma_children_bounded(node);
    if n > 0 {
        let m = (n - 1) as nat;
        lemma_frontier_dirs(root, rest, path, node, target, m);
        let child = children[n - 1];
        if child.is_dir() {
            let q = path.push((n - 1) as usize);
            let before = rest + dir_paths(children, path, m);
            assert(before.push(q).drop_last() == before);
            lemma_at_push(root, path, (n - 1) as usize);
            lemma_followed_by_assoc(
                explore(child, q, target),
                explore_dirs(children, path, target, m),
                after,
            );
        }
    }
}

/// What the listing of the directory at `path` settles: with a hit in it,
/// the search of that directory ends there; without one, the frontier with
/// the listing's directories added stands for what is left of the search.
proof fn lemma_listed(
    root: Node,
    rest: Seq<Seq<usize>>,
    path: Seq<usize>,
    listing: Seq<Entry<Vec<usize>>>,
    target: Seq<char>,
)
    requires
        match root.at(path) {
            Some(node) => mirrors(listing, node.children(), path),
            None => listing.len() == 0,
        },
    ensures
        match first_hit(listing, target) {
            Some(i) => explore_at(root, path, target) == (Trail {
                found: Some(listing[i].path@),
                visited: seq![path],
            }),
            None => explore_at(root, path, target).followed_by(
                explore_frontier(root, rest, target),
            ) == (Trail { found: None, visited: seq![path] }).followed_by(
                explore_frontier(root, rest + paths(subdirs(listing)), target),
            ),
        },
{
    let here = Trail { found: None, visited: seq![path] };
    let after = explore_frontier(root, rest, target);
    lemma_first_hit(listing, target);
    assert(listing.take(listing.len() as int) == listing);
    if let Some(node) = root.at(path) {
        let children = node.children();
        assert(children.take(children.len() as int) == children);
        lemma_mirror_first(listing, children, path, target, listing.len() as int);
        lemma_mirror_subdirs(listing, children, path, listing.len() as int);
        lemma_frontier_dirs(root, rest, path, node, target, children.len());
        let below = explore_dirs(children, path, target, children.len());
        lemma_followed_by_assoc(here, below, after);
    }
}

/// Walks the tree below `root` for a file named `target`: the frontier
/// starts with the root alone; the directory added last is listed next; the
/// first file of that name met in a listing ends the walk. No directory is
/// listed twice.
pub fn walk(root: &Node, target: &str) -> (w: Walk)
    ensures
        w@ == explore(*root, Seq::empty(), target@),
        w@.visited.no_duplicates(),
{
    proof {
        theorem_no_directory_listed_twice(*root, target@);
    }
    let mut locator: Locator<Vec<usize>> = Locator::new(Vec::new(), target);
    let mut visited: Vec<Vec<usize>> = Vec::new();
    proof {
        reveal_with_fuel(explore_frontier, 2);
    }
    loop
        invariant
            locator.target() == target@,
            explore(*root, Seq::empty(), target@).visited.no_duplicates(),
            (Trail { found: None, visited: paths(visited@) }).followed_by(
                explore_frontier(*root, paths(locator.pending()), target@),
            ) == explore(*root, Seq::empty(), target@),
        decreases explore_frontier(*root, paths(locator.pending()), target@).visited.len(),
    {
        let ghost before = paths(locator.pending());
        let ghost seen = paths(visited@);
        match locator.next_dir() {
            None => {
                return Walk { found: None, visited };
            },
            Some(dir) => {
                let ghost rest = paths(locator.pending());
                let ghost here = Trail { found: None, visited: seq![dir@] };
                let listing = match root.descend(&dir) {
                    Some(node) => node.list(&dir),
                    None => Vec::new(),
                };
                let ghost pushed = paths(subdirs(listing@));
                proof {
                    assert(before.drop_last() == rest);
                    assert(seen + seq![dir@] == seen.push(dir@));
                    lemma_listed(*root, rest, dir@, listing@, target@);
                    lemma_followed_by_assoc(
                        Trail { found: None, visited: seen },
                        here,
                        explore_frontier(*root, rest + pushed, target@),
                    );
                }
                visited.push(dir);
                proof {
                    assert(paths(visited@) == seen.push(dir@));
                }
                match locator.scan(listing) {
                    Some(hit) => {
                        return Walk { found: Some(hit), visited };
                    },
                    None => {
                        proof {
                            assert(paths(locator.pending()) == rest + pushed);
                        }
                    },
                }
            },
        }
    }
}

/// Finds a file named `target` in the tree below `root`, as `walk` does:
/// the path of such a file where the tree holds one, `None` where it holds
/// none.
pub fn find_file(root: &Node, target: &str) -> (found: Option<Vec<usize>>)
    ensures
        match found {
            Some(path) => explore(*root, Seq::empty(), target@).found == Some(path@) && is_match(
                *root,
                path@,
                target@,
            ),
            None => explore(*root, Seq::empty(), target@).found is None && forall|
                path: Seq<usize>,
            |
                !is_match(*root, path, target@),
        },
{
    proof {
        theorem_found_is_match(*root, target@);
        assert forall|path: Seq<usize>|
            explore(*root, Seq::empty(), target@).found is None implies !is_match(
            *root,
            path,
            target@,
        ) by {
            if is_match(*root, path, target@) {
                theorem_some_match_is_found(*root, target@, path);
            }
        }
    }
    walk(root, target).found
}

} // verus!
