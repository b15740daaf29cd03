//! A model of the filesystem, to say what the steps of a plan do.
//!
//! The model maps a path, as text, to what is found there. A path stands
//! for the whole tree below it: moving, copying or deleting a tree carries
//! every path inside it along. The model says what a step leaves behind
//! when it succeeds; it does not say when a step fails.

use vstd::prelude::*;
use crate::config::ConfigFileView;
use crate::dependency::DependencyFileView;
use crate::plan::FsActionView;

verus! {

/// What is found at a path.
pub enum Node {
    /// A file of the user, with its bytes.
    Content(Seq<u8>),
    /// A directory.
    Directory,
    /// A symbolic link to the path `target`.
    Link { target: Seq<char> },
    /// A stored config ledger.
    Configs(ConfigFileView),
    /// A stored dependency ledger.
    Dependencies(DependencyFileView),
    /// The stored name of the theme in use.
    Pointer(Seq<char>),
}

/// Whether `path` lies in the tree at `root`: it is `root` itself, or `root`
/// followed by a separator and more.
pub open spec fn within(root: Seq<char>, path: Seq<char>) -> bool {
    &&& root.len() <= path.len()
    &&& path.take(root.len() as int) == root
    &&& (path.len() == root.len() || path[root.len() as int] == '/')
}

/// Whether neither of two trees holds the root of the other.
pub open spec fn apart(a: Seq<char>, b: Seq<char>) -> bool {
    !within(a, b) && !within(b, a)
}

/// The path that `path`, which lies in the tree at `from`, has in the same
/// tree at `to`.
pub open spec fn carried(from: Seq<char>, to: Seq<char>, path: Seq<char>) -> Seq<char> {
    to + path.skip(from.len() as int)
}

/// The filesystem after the tree at `from` has been copied to `to`: every
/// path in the tree at `from` is found in the tree at `to` as well, over
/// what was there.
pub open spec fn tree_copied(fs: Map<Seq<char>, Node>, from: Seq<char>, to: Seq<char>) -> Map<
    Seq<char>,
    Node,
> {
    Map::new(
        |p: Seq<char>|
            fs.contains_key(p) || (within(to, p) && fs.contains_key(carried(to, from, p))),
        |p: Seq<char>|
            if within(to, p) && fs.contains_key(carried(to, from, p)) {
                fs[carried(to, from, p)]
            } else {
                fs[p]
            },
    )
}

/// The filesystem after the tree at `from` has been moved to `to`: the
/// tree at `to` is what the tree at `from` was, and nothing is left at
/// `from`.
pub open spec fn tree_moved(fs: Map<Seq<char>, Node>, from: Seq<char>, to: Seq<char>) -> Map<
    Seq<char>,
    Node,
> {
    Map::new(
        |p: Seq<char>|
            if within(to, p) {
                fs.contains_key(carried(to, from, p))
            } else {
                !within(from, p) && fs.contains_key(p)
            },
        |p: Seq<char>|
            if within(to, p) {
                fs[carried(to, from, p)]
            } else {
                fs[p]
            },
    )
}

/// The filesystem after the tree at `root` has been deleted.
pub open spec fn tree_deleted(fs: Map<Seq<char>, Node>, root: Seq<char>) -> Map<Seq<char>, Node> {
    Map::new(|p: Seq<char>| fs.contains_key(p) && !within(root, p), |p: Seq<char>| fs[p])
}

/// The filesystem after `step` has succeeded.
pub open spec fn after(fs: Map<Seq<char>, Node>, step: FsActionView) -> Map<Seq<char>, Node> {
    match step {
        FsActionView::CreateDir { path } => fs.insert(path, Node::Directory),
        FsActionView::CreateFile { path } => fs.insert(path, Node::Content(Seq::empty())),
        FsActionView::Rename { from, to } => tree_moved(fs, from, to),
        FsActionView::Symlink { target, link } => fs.insert(link, Node::Link { target }),
        FsActionView::Delete { path } => fs.remove(path),
        FsActionView::CopyRecursive { from, to } => tree_copied(fs, from, to),
        FsActionView::DeleteRecursive { path } => tree_deleted(fs, path),
        FsActionView::WriteConfigs { path, ledger } => fs.insert(path, Node::Configs(ledger)),
        FsActionView::WriteDependencies { path, ledger } => fs.insert(
            path,
            Node::Dependencies(ledger),
        ),
        FsActionView::WriteCurrentTheme { path, theme } => fs.insert(path, Node::Pointer(theme)),
    }
}

/// The filesystem after every step of `plan` has succeeded, in order.
pub open spec fn after_all(fs: Map<Seq<char>, Node>, plan: Seq<FsActionView>) -> Map<
    Seq<char>,
    Node,
>
    decreases plan.len(),
{
    if plan.len() == 0 {
        fs
    } else {
        after(after_all(fs, plan.drop_last()), plan.last())
    }
}

/// Whether `step` may change what is found at `path`.
pub open spec fn touches(step: FsActionView, path: Seq<char>) -> bool {
    match step {
        FsActionView::CreateDir { path: p } => p == path,
        FsActionView::CreateFile { path: p } => p == path,
        FsActionView::Rename { from, to } => within(from, path) || within(to, path),
        FsActionView::Symlink { target, link } => link == path,
        FsActionView::Delete { path: p } => p == path,
        FsActionView::CopyRecursive { from, to } => within(to, path),
        FsActionView::DeleteRecursive { path: p } => within(p, path),
        FsActionView::WriteConfigs { path: p, ledger } => p == path,
        FsActionView::WriteDependencies { path: p, ledger } => p == path,
        FsActionView::WriteCurrentTheme { path: p, theme } => p == path,
    }
}

/// Whether two filesystems agree on `path`: both have it, with the same
/// thing there, or neither has it.
pub open spec fn same_at(a: Map<Seq<char>, Node>, b: Map<Seq<char>, Node>, path: Seq<char>)
    -> bool {
    a.contains_key(path) == b.contains_key(path) && (a.contains_key(path) ==> a[path] == b[path])
}

/// A step leaves alone every path that it does not touch.
pub proof fn lemma_untouched(fs: Map<Seq<char>, Node>, step: FsActionView, path: Seq<char>)
    requires
        !touches(step, path),
    ensures
        same_at(after(fs, step), fs, path),
{
}

/// A plan leaves alone every path that none of its steps touches.
pub proof fn lemma_untouched_by_all(
    fs: Map<Seq<char>, Node>,
    plan: Seq<FsActionView>,
    path: Seq<char>,
)
    requires
        forall|i: int| 0 <= i < plan.len() ==> !touches(#[trigger] plan[i], path),
    ensures
        same_at(after_all(fs, plan), fs, path),
    decreases plan.len(),
{
    if plan.len() > 0 {
        assert forall|i: int| 0 <= i < plan.drop_last().len() implies !touches(
            #[trigger] plan.drop_last()[i],
            path,
        ) by {
            assert(plan.drop_last()[i] == plan[i]);
        }
        lemma_untouched_by_all(fs, plan.drop_last(), path);
        lemma_untouched(after_all(fs, plan.drop_last()), plan.last(), path);
    }
}

/// Running two plans one after the other is running them joined.
pub proof fn lemma_after_all_joined(
    fs: Map<Seq<char>, Node>,
    first: Seq<FsActionView>,
    second: Seq<FsActionView>,
)
    ensures
        after_all(fs, first + second) == after_all(after_all(fs, first), second),
    decreases second.len(),
{
    if second.len() == 0 {
        assert(first + second =~= first);
    } else {
        assert((first + second).drop_last() =~= first + second.drop_last());
        assert((first + second).last() == second.last());
        lemma_after_all_joined(fs, first, second.drop_last());
    }
}

/// A path carried from one tree to another lies in that other tree, and
/// carrying it back gives the path again.
pub proof fn lemma_carried(from: Seq<char>, to: Seq<char>, path: Seq<char>)
    requires
        within(from, path),
    ensures
        within(to, carried(from, to, path)),
        carried(to, from, carried(from, to, path)) == path,
{
    let there = carried(from, to, path);
    assert(there.take(to.len() as int) =~= to);
    assert(there.skip(to.len() as int) =~= path.skip(from.len() as int));
    assert(from + path.skip(from.len() as int) =~= path);
    if path.len() > from.len() {
        assert(there[to.len() as int] == path[from.len() as int]);
    }
}

} // verus!
