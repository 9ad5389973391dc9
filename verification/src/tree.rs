//! A directory tree held in memory: its nodes, the paths to them, and the
//! listing of a directory as a search gets it.
use crate::locator::Entry;
use vstd::prelude::*;

verus! {

/// A node of a directory tree. A child is known by its position in the
/// listing of its directory, and a node by the positions on the way to it
/// from the root: its path.
#[derive(Debug, PartialEq, Eq)]
pub enum Node {
    /// Anything that is no directory.
    File { name: String },
    /// A directory with its listing, in the order in which it is read;
    /// `None` where the directory cannot be read.
    Dir { name: String, entries: Option<Vec<Node>> },
}

impl Node {
    /// The node's file name.
    pub open spec fn name(self) -> String {
        match self {
            Node::File { name } => name,
            Node::Dir { name, .. } => name,
        }
    }

    /// Whether the node is a directory, readable or not.
    pub open spec fn is_dir(self) -> bool {
        self is Dir
    }

    /// What a listing of the node yields: nothing, unless it is a directory
    /// that can be read.
    pub open spec fn children(self) -> Seq<Node> {
        match self {
            Node::Dir { entries: Some(v), .. } => v@,
            _ => Seq::empty(),
        }
    }

    /// The node is no directory and bears exactly the name `target`.
    pub open spec fn is_file_named(self, target: Seq<char>) -> bool {
        !self.is_dir() && self.name()@ == target
    }

    /// The node that `path` leads to from this one, through directories that
    /// can be read.
    pub open spec fn at(self, path: Seq<usize>) -> Option<Node>
        decreases path.len(),
    {
        if path.len() == 0 {
            Some(self)
        } else if path[0] < self.children().len() {
            self.children()[path[0] as int].at(path.drop_first())
        } else {
            None
        }
    }
}

/// The paths that a sequence of vectors holds.
pub open spec fn paths(s: Seq<Vec<usize>>) -> Seq<Seq<usize>> {
    s.map_values(|p: Vec<usize>| p@)
}

/// `listing` is the listing of a directory at `path` with these `children`:
/// entry by entry the child's path, name and kind.
pub open spec fn mirrors(
    listing: Seq<Entry<Vec<usize>>>,
    children: Seq<Node>,
    path: Seq<usize>,
) -> bool {
    &&& listing.len() == children.len()
    &&& forall|j: int|
        0 <= j < listing.len() ==> {
            &&& (#[trigger] listing[j]).path@ == path.push(j as usize)
            &&& listing[j].name == Some(children[j].name())
            &&& listing[j].is_dir == children[j].is_dir()
        }
}

impl Node {
    /// The listing of this node, which lies at `at`.
    pub fn list(&self, at: &Vec<usize>) -> (listing: Vec<Entry<Vec<usize>>>)
        ensures
            mirrors(listing@, self.children(), at@),
    {
        let mut listing: Vec<Entry<Vec<usize>>> = Vec::new();
        match self {
            Node::Dir { entries: Some(v), .. } => {
                let mut j: usize = 0;
                while j < v.len()
                    invariant
                        j <= v.len(),
                        mirrors(listing@, v@.take(j as int), at@),
                    decreases v.len() - j,
                {
                    let mut path = at.clone();
                    path.push(j);
                    let entry = match &v[j] {
                        Node::File { name } => Entry {
                            path,
                            name: Some(name.clone()),
                            is_dir: false,
                        },
                        Node::Dir { name, .. } => Entry {
                            path,
                            name: Some(name.clone()),
                            is_dir: true,
                        },
                    };
                    listing.push(entry);
                    j += 1;
                }
            },
            _ => {},
        }
        listing
    }

    /// The node that `path` leads to from this one.
    pub fn descend(&self, path: &Vec<usize>) -> (node: Option<&Node>)
        ensures
            match node {
                Some(n) => self.at(path@) == Some(*n),
                None => self.at(path@) is None,
            },
    {
        let mut node = self;
        let mut i: usize = 0;
        assert(path@.skip(0) == path@);
        while i < path.len()
            invariant
                i <= path.len(),
                self.at(path@) == node.at(path@.skip(i as int)),
            decreases path.len() - i,
        {
            let j = path[i];
            proof {
                assert(path@.skip(i as int).drop_first() == path@.skip(i + 1));
            }
            match node {
                Node::Dir { entries: Some(v), .. } => {
                    if j < v.len() {
                        node = &v[j];
                    } else {
                        return None;
                    }
                },
                _ => {
                    return None;
                },
            }
            i += 1;
        }
        Some(node)
    }
}

/// A directory has no more children than a machine word counts.
pub proof fn lemma_children_bounded(node: Node)
    ensures
        node.children().len() <= usize::MAX,
{
    match node {
        Node::Dir { entries: Some(v), .. } => {
            assert(v@.len() == v.len());
        },
        _ => {},
    }
}

/// One step further down: where `path` leads to a directory, `path` with `j`
/// added leads to the child of that directory at position `j`.
pub proof fn lemma_at_push(root: Node, path: Seq<usize>, j: usize)
    ensures
        root.at(path.push(j)) == match root.at(path) {
            Some(d) => if j < d.children().len() {
                Some(d.children()[j as int])
            } else {
                None
            },
            None => None,
        },
    decreases path.len(),
{
    reveal_with_fuel(Node::at, 2);
    if path.len() == 0 {
    } else {
        assert(path.push(j).drop_first() == path.drop_first().push(j));
        if path[0] < root.children().len() {
            lemma_at_push(root.children()[path[0] as int], path.drop_first(), j);
        }
    }
}

} // verus!
