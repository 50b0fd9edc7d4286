//! What a move by copying does to a disk.
//!
//! The library never sees a disk. What it can say is this: if each copy,
//! creation and deletion it asks for does to the disk what its name says,
//! then a move that falls back to copying puts under the target, byte for
//! byte, what was under the source, and takes it away from the source only
//! after that. The disk here is a model: a map from places to what they
//! hold. Where the rename succeeds, the move is the filesystem's own doing,
//! and there is nothing for the library to add.

use crate::conversation::{
    copy_dir_actions, copy_entries_actions, fallback_actions, node_at, place_at, Child, Node,
};
use crate::laws::law_every_entry_keeps_its_place;
use crate::model::MoveRequestView;
use crate::platform::joined_path;
use crate::protocol::ActionView;
use vstd::prelude::*;

verus! {

/// What a place on a disk holds.
pub enum Item {
    File(Seq<u8>),
    Dir,
}

/// What the place of `node` holds: the bytes of a file, or a directory.
pub open spec fn item_of(node: Node) -> Item {
    match node {
        Node::File(content) => Item::File(content),
        Node::Dir(_) => Item::Dir,
    }
}

/// Whether `disk` holds the tree `node` at `base`: whatever a path leads to
/// in the tree is found at its place on the disk.
pub open spec fn holds(disk: Map<Seq<char>, Item>, base: Seq<char>, node: Node) -> bool {
    forall|path: Seq<int>| (#[trigger] node_at(node, path)) matches Some(found) ==> {
        &&& disk.contains_key(place_at(base, node, path))
        &&& disk[place_at(base, node, path)] == item_of(found)
    }
}

/// Whether the places of the tree `node` under `target` are places of their
/// own: none of them is a place of the tree under `source`, and no two
/// entries come to lie at the same place.
pub open spec fn apart(source: Seq<char>, target: Seq<char>, node: Node) -> bool {
    &&& forall|p: Seq<int>, q: Seq<int>|
        #![trigger place_at(target, node, p), place_at(source, node, q)]
        node_at(node, p) is Some && node_at(node, q) is Some ==> place_at(target, node, p)
            != place_at(source, node, q)
    &&& forall|p: Seq<int>, q: Seq<int>|
        #![trigger place_at(target, node, p), place_at(target, node, q)]
        node_at(node, p) is Some && node_at(node, q) is Some && place_at(target, node, p)
            == place_at(target, node, q) ==> p == q
}

/// Whether `place` is the place under `target` of an entry of the tree.
pub open spec fn is_place_of(place: Seq<char>, target: Seq<char>, node: Node) -> bool {
    exists|path: Seq<int>| node_at(node, path) is Some && #[trigger] place_at(target, node, path)
        == place
}

/// The disk after `action` has been carried out on `disk`. A copy puts what
/// the one place holds at the other, a creation puts a directory at its
/// place, the deletion of a file empties its place. Questions and listings
/// change nothing. Two actions are left out: the rename, which is followed
/// by a copy only where it has failed and changed nothing, and the deletion
/// of a directory, which [`without`] describes for a known tree.
pub open spec fn written(disk: Map<Seq<char>, Item>, action: ActionView) -> Map<Seq<char>, Item> {
    match action {
        ActionView::CopyFile { from, to } => disk.insert(to, disk[from]),
        ActionView::CreateDirAll(path) => disk.insert(path, Item::Dir),
        ActionView::RemoveFile(path) => disk.remove(path),
        _ => disk,
    }
}

/// The disk after the tree `node` at `base` has been deleted from `disk`,
/// with all its entries.
pub open spec fn without(disk: Map<Seq<char>, Item>, base: Seq<char>, node: Node) -> Map<
    Seq<char>,
    Item,
> {
    disk.remove_keys(Set::new(|place: Seq<char>| is_place_of(place, base, node)))
}

/// The disk after `actions` have been carried out on `disk`, one after the
/// other.
pub open spec fn written_all(disk: Map<Seq<char>, Item>, actions: Seq<ActionView>) -> Map<
    Seq<char>,
    Item,
>
    decreases actions.len(),
{
    if actions.len() == 0 {
        disk
    } else {
        written(written_all(disk, actions.drop_last()), actions.last())
    }
}

/// Whether `action` is the one that puts the entry that `path` leads to in
/// its place under `target`.
spec fn places(
    action: ActionView,
    source: Seq<char>,
    target: Seq<char>,
    node: Node,
    path: Seq<int>,
) -> bool {
    match node_at(node, path) {
        Some(Node::File(_)) => action == ActionView::CopyFile {
            from: place_at(source, node, path),
            to: place_at(target, node, path),
        },
        Some(Node::Dir(_)) => action == ActionView::CreateDirAll(place_at(target, node, path)),
        None => false,
    }
}

/// Whether `action` belongs to the copy of the tree: it lists, or it puts
/// one entry of the tree in its place.
spec fn belongs(action: ActionView, source: Seq<char>, target: Seq<char>, node: Node) -> bool {
    action is ReadDir || exists|path: Seq<int>| #[trigger] places(action, source, target, node, path)
}

proof fn lemma_in_one_of_two(first: Seq<ActionView>, second: Seq<ActionView>, action: ActionView)
    requires
        (first + second).contains(action),
    ensures
        first.contains(action) || second.contains(action),
{
    let i = choose|i: int| 0 <= i < (first + second).len() && (first + second)[i] == action;
    if i < first.len() {
        assert(first[i] == action);
    } else {
        assert(second[i - first.len()] == action);
    }
}

proof fn lemma_below_an_entry(
    action: ActionView,
    source: Seq<char>,
    target: Seq<char>,
    children: Seq<Child>,
    i: int,
    path: Seq<int>,
)
    requires
        0 <= i < children.len(),
        places(
            action,
            joined_path(source, children[i].name),
            joined_path(target, children[i].name),
            children[i].node,
            path,
        ),
    ensures
        places(action, source, target, Node::Dir(children), seq![i] + path),
{
    let whole = seq![i] + path;
    assert(whole[0] == i);
    assert(whole.drop_first() =~= path);
}

proof fn lemma_dir_actions_belong(
    source: Seq<char>,
    target: Seq<char>,
    children: Seq<Child>,
    action: ActionView,
)
    requires
        copy_dir_actions(source, target, children).contains(action),
    ensures
        belongs(action, source, target, Node::Dir(children)),
    decreases children, 1nat,
{
    let tree = Node::Dir(children);
    let head = seq![ActionView::CreateDirAll(target), ActionView::ReadDir(source)];
    lemma_in_one_of_two(head, copy_entries_actions(source, target, children), action);
    if head.contains(action) {
        let k = choose|k: int| 0 <= k < head.len() && head[k] == action;
        if k == 0 {
            assert(places(action, source, target, tree, Seq::<int>::empty()));
        }
    } else {
        lemma_entries_actions_belong(source, target, children, action);
        if !(action is ReadDir) {
            let (i, path) = choose|i: int, path: Seq<int>|
                0 <= i < children.len() && #[trigger] places(
                    action,
                    joined_path(source, children[i].name),
                    joined_path(target, children[i].name),
                    children[i].node,
                    path,
                );
            lemma_below_an_entry(action, source, target, children, i, path);
        }
    }
}

proof fn lemma_entries_actions_belong(
    source: Seq<char>,
    target: Seq<char>,
    children: Seq<Child>,
    action: ActionView,
)
    requires
        copy_entries_actions(source, target, children).contains(action),
    ensures
        action is ReadDir || exists|i: int, path: Seq<int>|
            0 <= i < children.len() && #[trigger] places(
                action,
                joined_path(source, children[i].name),
                joined_path(target, children[i].name),
                children[i].node,
                path,
            ),
    decreases children, 0nat,
{
    if children.len() > 0 {
        let from = joined_path(source, children[0].name);
        let to = joined_path(target, children[0].name);
        let first = match children[0].node {
            Node::File(_) => seq![ActionView::CopyFile { from, to }],
            Node::Dir(inner) => copy_dir_actions(from, to, inner),
        };
        let later = children.drop_first();
        lemma_in_one_of_two(first, copy_entries_actions(source, target, later), action);
        if first.contains(action) {
            match children[0].node {
                Node::File(_) => {
                    assert(places(action, from, to, children[0].node, Seq::<int>::empty()));
                },
                Node::Dir(inner) => {
                    lemma_dir_actions_belong(from, to, inner, action);
                    if !(action is ReadDir) {
                        let path = choose|path: Seq<int>| #[trigger]
                            places(action, from, to, children[0].node, path);
                        assert(places(action, from, to, children[0].node, path));
                    }
                },
            }
        } else {
            lemma_entries_actions_belong(source, target, later, action);
            if !(action is ReadDir) {
                let (i, path) = choose|i: int, path: Seq<int>|
                    0 <= i < later.len() && #[trigger] places(
                        action,
                        joined_path(source, later[i].name),
                        joined_path(target, later[i].name),
                        later[i].node,
                        path,
                    );
                assert(later[i] == children[i + 1]);
                assert(places(
                    action,
                    joined_path(source, children[i + 1].name),
                    joined_path(target, children[i + 1].name),
                    children[i + 1].node,
                    path,
                ));
            }
        }
    }
}

proof fn lemma_every_entry_is_placed(
    source: Seq<char>,
    target: Seq<char>,
    children: Seq<Child>,
    path: Seq<int>,
)
    requires
        node_at(Node::Dir(children), path) is Some,
    ensures
        exists|k: int|
            0 <= k < copy_dir_actions(source, target, children).len() && places(
                #[trigger] copy_dir_actions(source, target, children)[k],
                source,
                target,
                Node::Dir(children),
                path,
            ),
{
    let tree = Node::Dir(children);
    let actions = copy_dir_actions(source, target, children);
    if path.len() == 0 {
        assert(places(actions[0], source, target, tree, path));
    } else {
        law_every_entry_keeps_its_place(source, target, children, path);
        let from = place_at(source, tree, path);
        let to = place_at(target, tree, path);
        let action = match node_at(tree, path) {
            Some(Node::File(_)) => ActionView::CopyFile { from, to },
            _ => ActionView::CreateDirAll(to),
        };
        let k = choose|k: int| 0 <= k < actions.len() && actions[k] == action;
        assert(places(actions[k], source, target, tree, path));
    }
}

/// What holds of the disk after actions that all belong to the copy of the
/// tree: the tree under the source is as it was, every entry that has been
/// put in its place is there, and no other place has changed.
spec fn kept(
    before: Map<Seq<char>, Item>,
    after: Map<Seq<char>, Item>,
    actions: Seq<ActionView>,
    source: Seq<char>,
    target: Seq<char>,
    node: Node,
) -> bool {
    &&& holds(after, source, node)
    &&& forall|path: Seq<int>, k: int|
        0 <= k < actions.len() && #[trigger] places(actions[k], source, target, node, path) ==> {
            &&& after.contains_key(place_at(target, node, path))
            &&& after[place_at(target, node, path)] == item_of(node_at(node, path)->0)
        }
    &&& forall|place: Seq<char>|
        !(#[trigger] is_place_of(place, target, node)) ==> {
            &&& after.contains_key(place) == before.contains_key(place)
            &&& before.contains_key(place) ==> after[place] == before[place]
        }
}

proof fn lemma_written_places(
    disk: Map<Seq<char>, Item>,
    actions: Seq<ActionView>,
    source: Seq<char>,
    target: Seq<char>,
    node: Node,
)
    requires
        holds(disk, source, node),
        apart(source, target, node),
        forall|k: int|
            0 <= k < actions.len() ==> belongs(#[trigger] actions[k], source, target, node),
    ensures
        kept(disk, written_all(disk, actions), actions, source, target, node),
    decreases actions.len(),
{
    let after = written_all(disk, actions);
    if actions.len() > 0 {
        let earlier = actions.drop_last();
        let prev = written_all(disk, earlier);
        let last = actions.last();
        assert forall|k: int| 0 <= k < earlier.len() implies belongs(
            #[trigger] earlier[k],
            source,
            target,
            node,
        ) by {
            assert(earlier[k] == actions[k]);
        }
        lemma_written_places(disk, earlier, source, target, node);
        if last is ReadDir {
            assert forall|path: Seq<int>, k: int|
                0 <= k < actions.len() && #[trigger] places(
                    actions[k],
                    source,
                    target,
                    node,
                    path,
                ) implies {
                &&& after.contains_key(place_at(target, node, path))
                &&& after[place_at(target, node, path)] == item_of(node_at(node, path)->0)
            } by {
                assert(earlier[k] == actions[k]);
            }
        } else {
            let mine = choose|path: Seq<int>| #[trigger] places(last, source, target, node, path);
            let to = place_at(target, node, mine);
            let found = node_at(node, mine)->0;
            assert(is_place_of(to, target, node));
            assert(after == prev.insert(to, item_of(found))) by {
                match found {
                    Node::File(_) => {
                        assert(prev[place_at(source, node, mine)] == item_of(found));
                    },
                    Node::Dir(_) => {},
                }
            }
            assert forall|path: Seq<int>| (#[trigger] node_at(node, path)) is Some implies {
                &&& after.contains_key(place_at(source, node, path))
                &&& after[place_at(source, node, path)] == item_of(node_at(node, path)->0)
            } by {
                assert(place_at(target, node, mine) != place_at(source, node, path));
            }
            assert forall|path: Seq<int>, k: int|
                0 <= k < actions.len() && #[trigger] places(
                    actions[k],
                    source,
                    target,
                    node,
                    path,
                ) implies {
                &&& after.contains_key(place_at(target, node, path))
                &&& after[place_at(target, node, path)] == item_of(node_at(node, path)->0)
            } by {
                if place_at(target, node, path) == place_at(target, node, mine) {
                    assert(path == mine);
                } else {
                    assert(earlier[k] == actions[k]);
                }
            }
        }
    }
}

/// A file that is moved by copying ends up at the target. Let a disk hold
/// a file at the source and nothing at the target. Then after the actions
/// of the move, from the two checks to the deletion, the disk holds the file
/// at the target, with the bytes it had at the source, and nothing at the
/// source.
pub proof fn law_copied_file_ends_up_at_the_target(
    disk: Map<Seq<char>, Item>,
    request: MoveRequestView,
    content: Seq<u8>,
)
    requires
        disk.contains_key(request.source),
        disk[request.source] == Item::File(content),
        !disk.contains_key(request.target),
    ensures
        ({
            let after = written_all(
                disk,
                fallback_actions(request) + seq![
                    ActionView::CopyFile { from: request.source, to: request.target },
                    ActionView::RemoveFile(request.source),
                ],
            );
            &&& after.contains_key(request.target)
            &&& after[request.target] == Item::File(content)
            &&& !after.contains_key(request.source)
        }),
{
    reveal_with_fuel(written_all, 7);
}

/// The copy reproduces the tree. Let a disk hold a tree at the source, and
/// let the places of the tree under the target be places of their own. Then
/// after the actions of the directory copy, carried out in their order, the
/// disk holds the same tree at the target: every directory, and every file
/// with the bytes it has under the source. The tree at the source is still
/// there, untouched, and no place but those of the tree under the target
/// has changed. Once the tree at the source has been deleted as well, the
/// disk holds the tree at the target and nothing of it at the source.
pub proof fn law_copy_reproduces_the_tree(
    disk: Map<Seq<char>, Item>,
    source: Seq<char>,
    target: Seq<char>,
    children: Seq<Child>,
)
    requires
        holds(disk, source, Node::Dir(children)),
        apart(source, target, Node::Dir(children)),
    ensures
        ({
            let after = written_all(disk, copy_dir_actions(source, target, children));
            &&& holds(after, target, Node::Dir(children))
            &&& holds(after, source, Node::Dir(children))
            &&& forall|place: Seq<char>|
                !(#[trigger] is_place_of(place, target, Node::Dir(children))) ==> {
                    &&& after.contains_key(place) == disk.contains_key(place)
                    &&& disk.contains_key(place) ==> after[place] == disk[place]
                }
            &&& holds(without(after, source, Node::Dir(children)), target, Node::Dir(children))
            &&& forall|path: Seq<int>|
                node_at(Node::Dir(children), path) is Some ==> !without(
                    after,
                    source,
                    Node::Dir(children),
                ).contains_key(#[trigger] place_at(source, Node::Dir(children), path))
        }),
{
    let tree = Node::Dir(children);
    let actions = copy_dir_actions(source, target, children);
    let after = written_all(disk, actions);
    assert forall|k: int| 0 <= k < actions.len() implies belongs(
        #[trigger] actions[k],
        source,
        target,
        tree,
    ) by {
        lemma_dir_actions_belong(source, target, children, actions[k]);
    }
    lemma_written_places(disk, actions, source, target, tree);
    assert forall|path: Seq<int>| (#[trigger] node_at(tree, path)) is Some implies {
        &&& after.contains_key(place_at(target, tree, path))
        &&& after[place_at(target, tree, path)] == item_of(node_at(tree, path)->0)
    } by {
        lemma_every_entry_is_placed(source, target, children, path);
        let k = choose|k: int|
            0 <= k < actions.len() && places(#[trigger] actions[k], source, target, tree, path);
        assert(places(actions[k], source, target, tree, path));
    }
    let gone = without(after, source, tree);
    assert forall|path: Seq<int>| (#[trigger] node_at(tree, path)) is Some implies {
        &&& gone.contains_key(place_at(target, tree, path))
        &&& gone[place_at(target, tree, path)] == item_of(node_at(tree, path)->0)
    } by {
        let place = place_at(target, tree, path);
        if is_place_of(place, source, tree) {
            let other = choose|other: Seq<int>|
                node_at(tree, other) is Some && #[trigger] place_at(source, tree, other) == place;
            assert(place_at(target, tree, path) != place_at(source, tree, other));
        }
    }
    assert forall|path: Seq<int>| node_at(tree, path) is Some implies !gone.contains_key(
        #[trigger] place_at(source, tree, path),
    ) by {
        assert(is_place_of(place_at(source, tree, path), source, tree));
    }
}

} // verus!
