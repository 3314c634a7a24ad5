//! Walking directories one after the other: which directory comes next, and
//! which of its children are walked later. A path is put in line once only,
//! so that a ring of symbolic links ends.

use crate::config::Config;
use crate::kind::FileType;
use crate::text::same_text;
use std::collections::VecDeque;
use vstd::prelude::*;
use vstd::string::*;

verus! {

/// An entry of a directory that was walked: where it is, its type where that
/// could be read, and, for a symbolic link, where it leads, where that could
/// be read.
pub struct Child {
    pub path: String,
    pub file_type: Option<FileType>,
    pub link_target: Option<String>,
}

/// The directories that wait to be walked, and the paths that were put in
/// line before.
pub struct Traversal {
    pending: VecDeque<String>,
    seen: Vec<String>,
}

/// A child that is walked: a directory, or a symbolic link where links are
/// followed.
pub open spec fn is_walked(follow_symlinks: bool, child: Child) -> bool {
    child.file_type == Some(FileType::Directory) || (follow_symlinks && child.file_type == Some(
        FileType::Symlink,
    ))
}

/// Where a child is walked: a directory at its own path, a symbolic link
/// where it leads, or at its own path where that is not known.
pub open spec fn destination(child: Child) -> Seq<char> {
    if child.file_type == Some(FileType::Directory) {
        child.path@
    } else {
        match child.link_target {
            Some(target) => target@,
            None => child.path@,
        }
    }
}

/// The line and the paths seen after `children` were offered one by one: a
/// child that is walked and whose path was not seen joins the end of the
/// line, and its path is seen from then on.
pub open spec fn offered(
    follow_symlinks: bool,
    queue: Seq<Seq<char>>,
    seen: Seq<Seq<char>>,
    children: Seq<Child>,
) -> (Seq<Seq<char>>, Seq<Seq<char>>)
    decreases children.len(),
{
    if children.len() == 0 {
        (queue, seen)
    } else {
        let (line, known) = offered(follow_symlinks, queue, seen, children.drop_last());
        let child = children.last();
        if is_walked(follow_symlinks, child) && !known.contains(child.path@) {
            (line.push(destination(child)), known.push(child.path@))
        } else {
            (line, known)
        }
    }
}

/// No path occurs twice.
pub open spec fn all_distinct(paths: Seq<Seq<char>>) -> bool {
    forall|i: int, j: int| 0 <= i < j < paths.len() ==> paths[i] != paths[j]
}

impl Traversal {
    /// The directories that wait, the next one first.
    pub closed spec fn queue(&self) -> Seq<Seq<char>> {
        Seq::new(self.pending@.len(), |i: int| self.pending@[i]@)
    }

    /// The paths that were put in line by `enqueue_children`.
    pub closed spec fn visited(&self) -> Seq<Seq<char>> {
        Seq::new(self.seen@.len(), |i: int| self.seen@[i]@)
    }

    /// No path was seen twice.
    pub open spec fn wf(&self) -> bool {
        all_distinct(self.visited())
    }

    /// A walk that starts with `paths`, in their order.
    pub fn new(paths: Vec<String>) -> (walk: Traversal)
        ensures
            walk.queue() == paths.deep_view(),
            walk.visited() == Seq::<Seq<char>>::empty(),
            walk.wf(),
    {
        let mut pending: VecDeque<String> = VecDeque::new();
        let mut at: usize = 0;
        while at < paths.len()
            invariant
                at <= paths.len(),
                pending@.len() == at,
                forall|i: int| 0 <= i < at ==> (#[trigger] pending@[i])@ == paths@[i]@,
            decreases paths.len() - at,
        {
            pending.push_back(paths[at].clone());
            at = at + 1;
        }
        let walk = Traversal { pending, seen: Vec::new() };
        proof {
            assert(walk.queue() =~= paths.deep_view());
            assert(walk.visited() =~= Seq::<Seq<char>>::empty());
        }
        walk
    }

    /// Takes the directory that is walked next out of the line, where one
    /// waits.
    pub fn next(&mut self) -> (path: Option<String>)
        ensures
            final(self).visited() == old(self).visited(),
            old(self).queue().len() == 0 ==> path is None && final(self).queue() == old(
                self,
            ).queue(),
            old(self).queue().len() > 0 ==> path is Some && path->0@ == old(self).queue()[0]
                && final(self).queue() == old(self).queue().drop_first(),
    {
        let path = self.pending.pop_front();
        proof {
            if old(self).queue().len() == 0 {
                assert(self.queue() =~= old(self).queue());
            } else {
                assert(self.queue() =~= old(self).queue().drop_first());
            }
            assert(self.visited() =~= old(self).visited());
        }
        path
    }

    fn has_seen(&self, path: &str) -> (known: bool)
        ensures
            known == self.visited().contains(path@),
    {
        let mut at: usize = 0;
        while at < self.seen.len()
            invariant
                at <= self.seen@.len(),
                forall|i: int| 0 <= i < at ==> self.visited()[i] != path@,
            decreases self.seen.len() - at,
        {
            if same_text(self.seen[at].as_str(), path) {
                assert(self.visited()[at as int] == path@);
                return true;
            }
            at = at + 1;
        }
        false
    }

    /// Puts the children of a directory that was walked in line: the
    /// directories among them, and the symbolic links where `config` follows
    /// them, each unless its path was put in line before.
    pub fn enqueue_children(&mut self, config: &Config, entries: &Vec<Child>)
        requires
            old(self).wf(),
        ensures
            (final(self).queue(), final(self).visited()) == offered(
                config.follow_symlinks,
                old(self).queue(),
                old(self).visited(),
                entries@,
            ),
            final(self).wf(),
    {
        let ghost follow = config.follow_symlinks;
        let ghost queue = self.queue();
        let ghost seen = self.visited();
        let mut at: usize = 0;
        while at < entries.len()
            invariant
                at <= entries.len(),
                follow == config.follow_symlinks,
                (self.queue(), self.visited()) == offered(
                    follow,
                    queue,
                    seen,
                    entries@.take(at as int),
                ),
                self.wf(),
            decreases entries.len() - at,
        {
            let child = &entries[at];
            let ghost line = self.queue();
            let ghost known = self.visited();
            proof {
                let next = entries@.take(at + 1);
                assert(next.drop_last() =~= entries@.take(at as int));
                assert(next.last() == entries@[at as int]);
            }
            let directory = match child.file_type {
                Some(FileType::Directory) => true,
                _ => false,
            };
            let link = match child.file_type {
                Some(FileType::Symlink) => true,
                _ => false,
            };
            if (directory || (link && config.follow_symlinks)) && !self.has_seen(
                child.path.as_str(),
            ) {
                let target = if directory {
                    child.path.clone()
                } else {
                    match &child.link_target {
                        Some(target) => target.clone(),
                        None => child.path.clone(),
                    }
                };
                self.seen.push(child.path.clone());
                self.pending.push_back(target);
                proof {
                    assert(self.queue() =~= line.push(destination(*child)));
                    assert(self.visited() =~= known.push(child.path@));
                }
            }
            at = at + 1;
        }
        proof {
            assert(entries@.take(at as int) =~= entries@);
        }
    }
}

/// Offering children puts no path in line that was seen before, and none
/// twice: the paths seen stay distinct, and the line grows by one directory
/// for each path that is newly seen.
pub proof fn lemma_offered_once(
    follow_symlinks: bool,
    queue: Seq<Seq<char>>,
    seen: Seq<Seq<char>>,
    children: Seq<Child>,
)
    requires
        all_distinct(seen),
    ensures
        all_distinct(offered(follow_symlinks, queue, seen, children).1),
        offered(follow_symlinks, queue, seen, children).0.len() - queue.len() == offered(
            follow_symlinks,
            queue,
            seen,
            children,
        ).1.len() - seen.len(),
        offered(follow_symlinks, queue, seen, children).1.len() >= seen.len(),
    decreases children.len(),
{
    if children.len() > 0 {
        lemma_offered_once(follow_symlinks, queue, seen, children.drop_last());
    }
}

} // verus!
