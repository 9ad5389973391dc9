//! What the search of a tree guarantees: what it finds is a file of the
//! name sought, it finds one wherever there is one, and it lists no
//! directory twice.
use crate::search::{explore, explore_dirs, first_file, is_match, lemma_first_file};
use crate::tree::{lemma_children_bounded, Node};
use vstd::prelude::*;

verus! {

/// `path` lies below `above`: it goes on from there.
spec fn extends(path: Seq<usize>, above: Seq<usize>) -> bool {
    path.len() >= above.len() && path.take(above.len() as int) == above
}

/// What the search of `node` finds lies below it and is a file of the name
/// sought.
proof fn lemma_found_is_match(node: Node, path: Seq<usize>, target: Seq<char>)
    ensures
        explore(node, path, target).found matches Some(q) ==> extends(q, path) && is_match(
            node,
            q.skip(path.len() as int),
            target,
        ),
    decreases node, 0nat,
{
    reveal_with_fuel(Node::at, 2);
    match node {
        Node::Dir { entries: Some(v), .. } => {
            lemma_first_file(v@, target);
            lemma_children_bounded(node);
            match first_file(v@, target) {
                Some(i) => {
                    let q = path.push(i as usize);
                    assert(q.take(path.len() as int) == path);
                },
                None => {
                    lemma_found_is_match_dirs(v@, path, target, v@.len());
                    let below = explore_dirs(v@, path, target, v@.len());
                    if let Some(q) = below.found {
                        let s = q.skip(path.len() as int);
                        assert(s.drop_first() == q.skip(path.len() as int + 1));
                    }
                },
            }
        },
        _ => {},
    }
}

/// The same for the search of the directories among the first `n`
/// children: what it finds lies below one of them.
proof fn lemma_found_is_match_dirs(
    children: Seq<Node>,
    path: Seq<usize>,
    target: Seq<char>,
    n: nat,
)
    requires
        n <= children.len() <= usize::MAX,
    ensures
        explore_dirs(children, path, target, n).found matches Some(q) ==> {
            &&& q.len() > path.len() + 1
            &&& q.take(path.len() as int) == path
            &&& q[path.len() as int] < n
            &&& is_match(
                children[q[path.len() as int] as int],
                q.skip(path.len() as int + 1),
                target,
            )
        },
    decreases children, n,
{
    if n > 0 {
        let m = (n - 1) as nat;
        lemma_found_is_match_dirs(children, path, target, m);
        let child = children[n - 1];
        if child.is_dir() {
            let below = path.push(m as usize);
            lemma_found_is_match(child, below, target);
            if let Some(q) = explore(child, below, target).found {
                assert(q[path.len() as int] == q.take(below.len() as int)[path.len() as int]);
            }
        }
    }
}

/// Where the search of the directories among the first `n` children finds
/// nothing, the search of each of them finds nothing.
proof fn lemma_nothing_in_dirs(
    children: Seq<Node>,
    path: Seq<usize>,
    target: Seq<char>,
    n: nat,
    j: int,
)
    requires
        explore_dirs(children, path, target, n).found is None,
        0 <= j < n <= children.len(),
        children[j].is_dir(),
    ensures
        explore(children[j], path.push(j as usize), target).found is None,
    decreases n,
{
    if j < n - 1 {
        lemma_nothing_in_dirs(children, path, target, (n - 1) as nat, j);
    }
}

/// Where the search of `node` finds nothing, no path leads from it to a file
/// of the name sought.
proof fn lemma_nothing_to_find(
    node: Node,
    path: Seq<usize>,
    target: Seq<char>,
    below: Seq<usize>,
)
    requires
        explore(node, path, target).found is None,
    ensures
        !is_match(node, below, target),
    decreases below.len(),
{
    let children = node.children();
    if below.len() > 0 && below[0] < children.len() {
        let j = below[0];
        let child = children[j as int];
        lemma_first_file(children, target);
        if below.len() > 1 && child.is_dir() {
            lemma_nothing_in_dirs(children, path, target, children.len(), j as int);
            lemma_nothing_to_find(child, path.push(j), target, below.drop_first());
        }
    }
}

/// What the search of a tree finds is a file of the name sought.
pub proof fn theorem_found_is_match(root: Node, target: Seq<char>)
    ensures
        explore(root, Seq::empty(), target).found matches Some(path) ==> is_match(
            root,
            path,
            target,
        ),
{
    lemma_found_is_match(root, Seq::empty(), target);
    if let Some(q) = explore(root, Seq::empty(), target).found {
        assert(q.skip(0) == q);
    }
}

/// Where a tree holds a file of the name sought, the search finds one: one
/// of those that the tree holds.
pub proof fn theorem_some_match_is_found(root: Node, target: Seq<char>, path: Seq<usize>)
    requires
        is_match(root, path, target),
    ensures
        explore(root, Seq::empty(), target).found matches Some(found) && is_match(
            root,
            found,
            target,
        ),
{
    theorem_found_is_match(root, target);
    if explore(root, Seq::empty(), target).found is None {
        lemma_nothing_to_find(root, Seq::empty(), target, path);
    }
}

/// Where a tree holds exactly one file of the name sought, the search finds
/// that file.
pub proof fn theorem_sole_match_is_found(root: Node, target: Seq<char>, path: Seq<usize>)
    requires
        is_match(root, path, target),
        forall|other: Seq<usize>| is_match(root, other, target) ==> other == path,
    ensures
        explore(root, Seq::empty(), target).found == Some(path),
{
    theorem_some_match_is_found(root, target, path);
}

/// Where a tree holds no file of the name sought, the search finds nothing.
pub proof fn theorem_no_match_nothing_found(root: Node, target: Seq<char>)
    requires
        forall|path: Seq<usize>| !is_match(root, path, target),
    ensures
        explore(root, Seq::empty(), target).found is None,
{
    theorem_found_is_match(root, target);
}

/// The directories that the search of `node` lists lie at or below it: the
/// first is the node itself, the others lie deeper.
proof fn lemma_listed_below(node: Node, path: Seq<usize>, target: Seq<char>, k: int)
    requires
        0 <= k < explore(node, path, target).visited.len(),
    ensures
        extends(explore(node, path, target).visited[k], path),
        k > 0 ==> explore(node, path, target).visited[k].len() > path.len(),
    decreases node, 0nat,
{
    match node {
        Node::Dir { entries: Some(v), .. } => {
            lemma_children_bounded(node);
            if first_file(v@, target) is None && k > 0 {
                lemma_listed_below_dirs(v@, path, target, v@.len(), k - 1);
            }
        },
        _ => {},
    }
    if k == 0 {
        assert(path.take(path.len() as int) == path);
    }
}

/// The directories that the search of the directories among the first `n`
/// children lists lie at or below one of those children.
proof fn lemma_listed_below_dirs(
    children: Seq<Node>,
    path: Seq<usize>,
    target: Seq<char>,
    n: nat,
    k: int,
)
    requires
        n <= children.len() <= usize::MAX,
        0 <= k < explore_dirs(children, path, target, n).visited.len(),
    ensures
        ({
            let q = explore_dirs(children, path, target, n).visited[k];
            q.len() > path.len() && q.take(path.len() as int) == path && q[path.len() as int] < n
        }),
    decreases children, n,
{
    if n > 0 {
        let m = (n - 1) as nat;
        let child = children[n - 1];
        if child.is_dir() {
            let below = path.push(m as usize);
            let first = explore(child, below, target);
            if k < first.visited.len() {
                lemma_listed_below(child, below, target, k);
                let q = first.visited[k];
                assert(q[path.len() as int] == q.take(below.len() as int)[path.len() as int]);
            } else {
                lemma_listed_below_dirs(children, path, target, m, k - first.visited.len());
            }
        } else {
            lemma_listed_below_dirs(children, path, target, m, k);
        }
    }
}

/// The search of `node` lists no directory twice.
proof fn lemma_none_listed_twice(node: Node, path: Seq<usize>, target: Seq<char>)
    ensures
        explore(node, path, target).visited.no_duplicates(),
    decreases node, 0nat,
{
    let visited = explore(node, path, target).visited;
    match node {
        Node::Dir { entries: Some(v), .. } => {
            lemma_children_bounded(node);
            if first_file(v@, target) is None {
                lemma_none_listed_twice_dirs(v@, path, target, v@.len());
                assert forall|i: int, j: int|
                    0 <= i < visited.len() && 0 <= j < visited.len() && i != j implies visited[i]
                    != visited[j] by {
                    if i > 0 {
                        lemma_listed_below_dirs(v@, path, target, v@.len(), i - 1);
                    }
                    if j > 0 {
                        lemma_listed_below_dirs(v@, path, target, v@.len(), j - 1);
                    }
                }
            }
        },
        _ => {},
    }
}

/// The search of the directories among the first `n` children lists no
/// directory twice.
proof fn lemma_none_listed_twice_dirs(
    children: Seq<Node>,
    path: Seq<usize>,
    target: Seq<char>,
    n: nat,
)
    requires
        n <= children.len() <= usize::MAX,
    ensures
        explore_dirs(children, path, target, n).visited.no_duplicates(),
    decreases children, n,
{
    if n > 0 {
        let m = (n - 1) as nat;
        let child = children[n - 1];
        lemma_none_listed_twice_dirs(children, path, target, m);
        if child.is_dir() {
            let below = path.push(m as usize);
            let first = explore(child, below, target);
            let visited = explore_dirs(children, path, target, n).visited;
            lemma_none_listed_twice(child, below, target);
            assert forall|i: int, j: int|
                0 <= i < visited.len() && 0 <= j < visited.len() && i != j implies visited[i]
                != visited[j] by {
                let split = first.visited.len() as int;
                let at = path.len() as int;
                if i < split && j >= split {
                    lemma_listed_below(child, below, target, i);
                    lemma_listed_below_dirs(children, path, target, m, j - split);
                    assert(visited[i][at] == visited[i].take(at + 1)[at]);
                }
                if j < split && i >= split {
                    lemma_listed_below(child, below, target, j);
                    lemma_listed_below_dirs(children, path, target, m, i - split);
                    assert(visited[j][at] == visited[j].take(at + 1)[at]);
                }
            }
        }
    }
}

/// The search of a tree lists no directory twice: one that was taken off
/// the frontier does not return to it.
pub proof fn theorem_no_directory_listed_twice(root: Node, target: Seq<char>)
    ensures
        explore(root, Seq::empty(), target).visited.no_duplicates(),
{
    lemma_none_listed_twice(root, Seq::empty(), target);
}

} // verus!
