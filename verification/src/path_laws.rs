//! What holds of paths, their components and the places that they name.

use crate::files::lemma_one_piece;
use crate::path::{
    components, counting, depth, is_rooted, joined, lemma_pieces_joined, pieces, same_place,
    unrooted, up, within,
};
use vstd::prelude::*;

verus! {

/// Texts with a slash between each two of them.
pub open spec fn slashed(parts: Seq<Seq<char>>) -> Seq<char>
    decreases parts.len(),
{
    if parts.len() == 0 {
        Seq::empty()
    } else if parts.len() == 1 {
        parts[0]
    } else {
        slashed(parts.drop_last()).push('/') + parts.last()
    }
}

/// The pieces of a path, with slashes between them, are the path, and none of them has a slash.
pub proof fn law_pieces_make_the_path(path: Seq<char>)
    ensures
        pieces(path).len() > 0,
        slashed(pieces(path)) == path,
        forall|i: int| 0 <= i < pieces(path).len() ==> !(#[trigger] pieces(path)[i]).contains('/'),
    decreases path.len(),
{
    if path.len() > 0 {
        let before = path.drop_last();
        let parts = pieces(before);
        law_pieces_make_the_path(before);
        let all = pieces(path);
        if path.last() == '/' {
            assert(all.drop_last() =~= parts);
            assert(slashed(all) =~= path);
        } else {
            assert(all.drop_last() =~= parts.drop_last());
            assert(before.push(path.last()) =~= path);
            assert(all.last() == parts.last().push(path.last()));
            if parts.len() > 1 {
                let start = slashed(parts.drop_last()).push('/');
                assert(start + parts.last().push(path.last()) =~= (start + parts.last()).push(
                    path.last(),
                ));
            }
        }
        assert forall|i: int| 0 <= i < all.len() implies !(#[trigger] all[i]).contains('/') by {
            if i < parts.len() {
                assert(!parts[i].contains('/'));
                if i == parts.len() - 1 && path.last() != '/' {
                    let piece = parts[i].push(path.last());
                    assert(all[i] == piece);
                    assert forall|k: int| 0 <= k < piece.len() implies piece[k] != '/' by {
                        if k < parts[i].len() {
                            assert(parts[i].contains(parts[i][k]));
                        }
                    }
                }
            }
        }
    } else {
        assert(slashed(pieces(path)) =~= path);
    }
}

/// Whether a text is the name of a file or directory.
pub open spec fn is_name(name: Seq<char>) -> bool {
    name.len() > 0 && !name.contains('/') && name != seq!['.']
}

/// A path in a directory has the components of the directory, and its own name as the last one.
pub proof fn law_name_is_last_component(dir: Seq<char>, name: Seq<char>)
    requires
        is_name(name),
    ensures
        components(joined(dir, name)) == components(dir).push(name),
        is_rooted(joined(dir, name)) == is_rooted(dir),
{
    lemma_one_piece(name);
    let path = joined(dir, name);
    assert(name.contains(name[0]));
    assert(!is_rooted(name));
    if dir.len() == 0 {
        assert(path =~= name);
        assert(pieces(dir) =~= seq![Seq::<char>::empty()]);
        reveal_with_fuel(counting, 2);
        assert(components(dir) =~= Seq::empty());
        assert(components(path) =~= seq![name]);
    } else {
        lemma_dir(dir);
        let before = without_slash(dir);
        assert(path =~= before.push('/') + name);
        lemma_pieces_joined(before, name);
        lemma_pieces_joined(Seq::empty(), before);
        assert(pieces(path).drop_last() =~= pieces(before));
        assert(path[0] == dir[0]);
    }
}

/// A path without one slash at its end, if it has one.
spec fn without_slash(dir: Seq<char>) -> Seq<char> {
    if dir.len() > 0 && dir.last() == '/' {
        dir.drop_last()
    } else {
        dir
    }
}

/// A slash at the end makes no difference to the components.
proof fn lemma_dir(dir: Seq<char>)
    requires
        dir.len() > 0,
    ensures
        components(dir) == components(without_slash(dir)),
{
    if dir.last() == '/' {
        assert(pieces(dir).drop_last() =~= pieces(dir.drop_last()));
    }
}

/// Slashes at the end, and a dot behind a slash, make no difference to the components; nothing and
/// the root have none; a lone name is the only one.
pub proof fn law_components_of_the_same_place(dir: Seq<char>, name: Seq<char>)
    ensures
        dir.len() > 0 ==> components(dir.push('/')) == components(dir),
        dir.len() > 0 ==> components(joined(dir, seq!['.'])) == components(dir),
        components(Seq::empty()) == Seq::<Seq<char>>::empty(),
        components(seq!['/']) == Seq::<Seq<char>>::empty(),
        is_name(name) ==> components(name) == seq![name],
{
    let nothing = Seq::<char>::empty();
    reveal_with_fuel(counting, 3);
    reveal_with_fuel(pieces, 3);
    assert(components(nothing) =~= Seq::empty());
    assert(seq!['/'].drop_last() =~= nothing);
    assert(components(seq!['/']) =~= Seq::empty());
    if dir.len() > 0 {
        assert(dir.push('/').drop_last() =~= dir);
        assert(pieces(dir.push('/')).drop_last() =~= pieces(dir));
        lemma_dir(dir);
        let before = without_slash(dir);
        let dot = seq!['.'];
        lemma_one_piece(dot);
        lemma_pieces_joined(before, dot);
        law_pieces_make_the_path(before);
        assert(joined(dir, dot) =~= before.push('/') + dot);
        assert(pieces(joined(dir, dot)).drop_last() =~= pieces(before));
    }
    if is_name(name) {
        law_name_is_last_component(nothing, name);
        assert(joined(nothing, name) =~= name);
        assert(Seq::<Seq<char>>::empty().push(name) =~= seq![name]);
    }
}

/// Whether two paths agree at every position: both or neither start at the root, and each
/// component of the one is the component of the other.
pub open spec fn agree(a: Seq<char>, b: Seq<char>) -> bool {
    &&& (a.len() > 0 && a[0] == '/') == (b.len() > 0 && b[0] == '/')
    &&& components(a).len() == components(b).len()
    &&& forall|i: int|
        0 <= i < components(a).len() ==> #[trigger] components(a)[i] == components(b)[i]
}

/// Two paths name the same place if and only if they agree at every position.
pub proof fn law_same_place_at_every_position(a: Seq<char>, b: Seq<char>)
    ensures
        same_place(a, b) <==> agree(a, b),
{
    if agree(a, b) {
        assert(components(a) =~= components(b));
    }
}

/// Two files are at the same place if and only if their directories are and their names are the
/// same: paths that differ in any directory, or in the name, are different places.
pub proof fn law_names_and_directories_tell_apart(
    dir1: Seq<char>,
    name1: Seq<char>,
    dir2: Seq<char>,
    name2: Seq<char>,
)
    requires
        is_name(name1),
        is_name(name2),
    ensures
        same_place(joined(dir1, name1), joined(dir2, name2)) <==> same_place(dir1, dir2) && name1
            == name2,
{
    law_name_is_last_component(dir1, name1);
    law_name_is_last_component(dir2, name2);
    let (a, b) = (components(dir1), components(dir2));
    if a.push(name1) == b.push(name2) {
        assert(a.push(name1).drop_last() =~= a);
        assert(b.push(name2).drop_last() =~= b);
        assert(a.push(name1).last() == name1);
    }
}

/// A name in a directory is written behind it, with just one slash between them; a name that
/// starts at the root stands for itself.
pub proof fn law_joined_with_one_slash(dir: Seq<char>, name: Seq<char>)
    ensures
        name.len() > 0 && name[0] == '/' ==> joined(dir, name) == name,
        !(name.len() > 0 && name[0] == '/') ==> {
            let path = joined(dir, name);
            let gap = path.len() - dir.len() - name.len();
            &&& dir.is_prefix_of(path)
            &&& path.skip(path.len() - name.len()) == name
            &&& gap == 0 || gap == 1
            &&& gap == 1 <==> dir.len() > 0 && dir.last() != '/'
            &&& gap == 1 ==> path[dir.len() as int] == '/'
        },
{
    let path = joined(dir, name);
    if !(name.len() > 0 && name[0] == '/') {
        assert(path.skip(path.len() - name.len()) =~= name);
        assert(dir.is_prefix_of(path));
    }
}

/// Only slashes are taken off the start of a path, and all of them.
pub proof fn law_only_slashes_taken_off(path: Seq<char>)
    ensures
        ({
            let off = path.len() - unrooted(path).len();
            &&& off >= 0
            &&& unrooted(path) == path.skip(off)
            &&& forall|i: int| 0 <= i < off ==> #[trigger] path[i] == '/'
            &&& off < path.len() ==> path[off] != '/'
        }),
    decreases path.len(),
{
    if is_rooted(path) {
        let rest = path.skip(1);
        law_only_slashes_taken_off(rest);
        let off = path.len() - unrooted(path).len();
        assert(unrooted(path) =~= path.skip(off));
        assert forall|i: int| 0 <= i < off implies #[trigger] path[i] == '/' by {
            if i > 0 {
                assert(rest[i - 1] == path[i]);
            }
        }
        if off < path.len() {
            assert(rest[off - 1] == path[off]);
        }
    } else {
        assert(path.skip(0) =~= path);
    }
}

/// The components below a directory grow with a name.
proof fn lemma_below_grows(dir: Seq<char>, path: Seq<char>, name: Seq<char>)
    requires
        is_name(name),
        components(dir).is_prefix_of(components(path)),
    ensures
        ({
            let n = components(dir).len() as int;
            let parts = components(path);
            let more = components(joined(path, name));
            &&& more == parts.push(name)
            &&& components(dir).is_prefix_of(more)
            &&& forall|i: int| n <= i <= parts.len() ==> #[trigger] more.subrange(n, i)
                == parts.subrange(n, i)
            &&& depth(more.subrange(n, more.len() as int)) == depth(
                parts.subrange(n, parts.len() as int),
            ) + (if name == up() {
                -1int
            } else {
                1
            })
        }),
{
    law_name_is_last_component(path, name);
    let n = components(dir).len() as int;
    let parts = components(path);
    let more = components(joined(path, name));
    assert forall|i: int| n <= i <= parts.len() implies #[trigger] more.subrange(n, i)
        == parts.subrange(n, i) by {
        assert(more.subrange(n, i) =~= parts.subrange(n, i));
    }
    let tail = more.subrange(n, more.len() as int);
    assert(tail.drop_last() =~= parts.subrange(n, parts.len() as int));
    assert(tail.last() == name);
}

/// A directory is within itself; what is within it starts with its components; a name takes a path
/// down and keeps it within; leading up from a name below keeps it within.
pub proof fn law_names_keep_within(dir: Seq<char>, path: Seq<char>, name: Seq<char>)
    requires
        is_name(name),
        name != up(),
    ensures
        within(dir, dir),
        within(dir, path) ==> {
            &&& is_rooted(path) == is_rooted(dir)
            &&& components(dir).is_prefix_of(components(path))
            &&& within(dir, joined(path, name))
            &&& within(dir, joined(joined(path, name), up()))
        },
{
    let n = components(dir).len() as int;
    assert forall|i: int| n <= i <= n implies depth(
        #[trigger] components(dir).subrange(n, i),
    ) >= 0 by {
        assert(components(dir).subrange(n, i) =~= Seq::empty());
    }
    if within(dir, path) {
        let parts = components(path);
        let below = joined(path, name);
        lemma_below_grows(dir, path, name);
        assert(depth(parts.subrange(n, parts.len() as int)) >= 0);
        lemma_within(dir, path, name);
        assert(!up().contains('/'));
        law_name_is_last_component(path, name);
        lemma_below_grows(dir, below, up());
        law_name_is_last_component(below, up());
        lemma_within(dir, below, up());
    }
}

/// A path within a directory stays there with a name, if that does not lead above the directory.
proof fn lemma_within(dir: Seq<char>, path: Seq<char>, name: Seq<char>)
    requires
        is_name(name),
        within(dir, path),
        ({
            let n = components(dir).len() as int;
            let more = components(joined(path, name));
            depth(more.subrange(n, more.len() as int)) >= 0
        }),
    ensures
        within(dir, joined(path, name)),
{
    lemma_below_grows(dir, path, name);
    law_name_is_last_component(path, name);
    let n = components(dir).len() as int;
    let parts = components(path);
    let more = components(joined(path, name));
    assert forall|i: int| n <= i <= more.len() implies depth(#[trigger] more.subrange(n, i))
        >= 0 by {
        if i <= parts.len() {
            assert(depth(parts.subrange(n, i)) >= 0);
        }
    }
}

/// Leading up from a directory leaves it, and what has left it does not come back.
pub proof fn law_leading_up_leaves(dir: Seq<char>, path: Seq<char>, name: Seq<char>)
    requires
        is_name(name),
    ensures
        !within(dir, joined(dir, up())),
        components(dir).is_prefix_of(components(path)) && !within(dir, path) ==> !within(
            dir,
            joined(path, name),
        ),
{
    assert(is_name(up())) by {
        assert(!up().contains('/'));
    }
    let n = components(dir).len() as int;
    lemma_below_grows(dir, dir, up());
    let above = components(joined(dir, up()));
    assert(components(dir).subrange(n, n) =~= Seq::empty());
    assert(depth(above.subrange(n, above.len() as int)) == -1);
    if components(dir).is_prefix_of(components(path)) && !within(dir, path) {
        lemma_below_grows(dir, path, name);
        law_name_is_last_component(path, name);
        if is_rooted(path) == is_rooted(dir) {
            let parts = components(path);
            let i = choose|i: int|
                n <= i <= parts.len() && depth(#[trigger] parts.subrange(n, i)) < 0;
            let more = components(joined(path, name));
            assert(depth(more.subrange(n, i)) < 0);
        }
    }
}

/// One more component leads one directory down, `..` leads one up, and a lone dot leads nowhere.
pub proof fn law_depth_of_rows(row: Seq<Seq<char>>, name: Seq<char>)
    requires
        is_name(name),
        name != up(),
    ensures
        depth(Seq::empty()) == 0,
        depth(row.push(name)) == depth(row) + 1,
        depth(row.push(seq!['.', '.'])) == depth(row) - 1,
        depth(row.push(seq!['.'])) == depth(row),
{
    assert(row.push(name).drop_last() =~= row);
    assert(row.push(seq!['.', '.']).drop_last() =~= row);
    assert(row.push(seq!['.']).drop_last() =~= row);
    assert(up().len() == 2);
    assert(seq!['.'].len() == 1);
}

} // verus!
