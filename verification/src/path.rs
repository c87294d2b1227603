//! File paths as text: components separated by slashes.

use crate::text::{chars_of, same_text};
use vstd::prelude::*;

verus! {

/// The views of a row of strings.
pub open spec fn texts(strings: Seq<String>) -> Seq<Seq<char>> {
    Seq::new(strings.len(), |i: int| strings[i]@)
}

/// What stands between the slashes of a path; a path without slashes is one piece.
pub open spec fn pieces(path: Seq<char>) -> Seq<Seq<char>>
    decreases path.len(),
{
    if path.len() == 0 {
        seq![Seq::<char>::empty()]
    } else {
        let before = pieces(path.drop_last());
        if path.last() == '/' {
            before.push(Seq::<char>::empty())
        } else {
            before.drop_last().push(before.last().push(path.last()))
        }
    }
}

/// Whether a piece counts as a component: an empty one never does, and a lone dot does only at
/// the start of a path.
pub open spec fn counts(piece: Seq<char>, first: bool) -> bool {
    piece.len() > 0 && (piece != seq!['.'] || first)
}

/// The pieces that count as components.
pub open spec fn counting(parts: Seq<Seq<char>>) -> Seq<Seq<char>>
    decreases parts.len(),
{
    if parts.len() == 0 {
        Seq::empty()
    } else {
        let before = counting(parts.drop_last());
        if counts(parts.last(), parts.len() == 1) {
            before.push(parts.last())
        } else {
            before
        }
    }
}

/// The components of a path.
pub open spec fn components(path: Seq<char>) -> Seq<Seq<char>> {
    counting(pieces(path))
}

/// Whether a path starts at the root.
pub open spec fn is_rooted(path: Seq<char>) -> bool {
    path.len() > 0 && path[0] == '/'
}

/// Whether two paths have the same components, and both or neither start at the root. Repeated
/// and trailing slashes make no difference.
pub open spec fn same_place(a: Seq<char>, b: Seq<char>) -> bool {
    is_rooted(a) == is_rooted(b) && components(a) == components(b)
}

/// A path within a directory. A rooted path stands for itself.
pub open spec fn joined(dir: Seq<char>, name: Seq<char>) -> Seq<char> {
    if is_rooted(name) {
        name
    } else if dir.len() > 0 && dir.last() != '/' {
        dir.push('/') + name
    } else {
        dir + name
    }
}

/// The component that leads up to the directory above.
pub open spec fn up() -> Seq<char> {
    seq!['.', '.']
}

/// How many directories below its start a row of components leads; a negative number of them is
/// above it.
pub open spec fn depth(parts: Seq<Seq<char>>) -> int
    decreases parts.len(),
{
    if parts.len() == 0 {
        0
    } else if parts.last() == up() {
        depth(parts.drop_last()) - 1
    } else if parts.last() == seq!['.'] {
        depth(parts.drop_last())
    } else {
        depth(parts.drop_last()) + 1
    }
}

/// Whether a path stays within a directory: it starts with the root and the components of the
/// directory, and what follows them never leads above the directory.
pub open spec fn within(dir: Seq<char>, path: Seq<char>) -> bool {
    let outer = components(dir);
    let inner = components(path);
    &&& is_rooted(path) == is_rooted(dir)
    &&& outer.is_prefix_of(inner)
    &&& forall|i: int|
        outer.len() <= i <= inner.len() ==> depth(
            #[trigger] inner.subrange(outer.len() as int, i),
        ) >= 0
}

/// A path without the slashes that it starts with.
pub open spec fn unrooted(path: Seq<char>) -> Seq<char>
    decreases path.len(),
{
    if is_rooted(path) {
        unrooted(path.skip(1))
    } else {
        path
    }
}

/// Whether a piece of a path counts as a component.
fn piece_counts(chars: &Vec<char>, start: usize, end: usize, first: bool) -> (r: bool)
    requires
        start <= end <= chars@.len(),
    ensures
        r == counts(chars@.subrange(start as int, end as int), first),
{
    let ghost piece = chars@.subrange(start as int, end as int);
    if start == end {
        false
    } else if first {
        true
    } else {
        let dot = end - start == 1 && chars[start] == '.';
        proof {
            if dot {
                assert(piece =~= seq!['.']);
            } else if piece =~= seq!['.'] {
                assert(piece.len() == 1 && piece[0] == '.');
                assert(chars@[start as int] == piece[0]);
            }
            assert(dot <==> piece =~= seq!['.']);
        }
        !dot
    }
}

/// Splits a path into its components.
pub fn split_path(path: &str) -> (names: Vec<String>)
    ensures
        texts(names@) == components(path@),
{
    let chars = chars_of(path);
    let mut names: Vec<String> = Vec::new();
    let mut start: usize = 0;
    let mut first: bool = true;
    let mut i: usize = 0;
    proof {
        assert(texts(names@) =~= counting(pieces(path@.take(0)).drop_last()));
        assert(chars@.subrange(0, 0) =~= pieces(path@.take(0)).last());
    }
    while i < chars.len()
        invariant
            chars@ == path@,
            start <= i <= chars@.len(),
            pieces(path@.take(i as int)).len() > 0,
            pieces(path@.take(i as int)).last() == chars@.subrange(start as int, i as int),
            first == (pieces(path@.take(i as int)).len() == 1),
            texts(names@) == counting(pieces(path@.take(i as int)).drop_last()),
        decreases chars@.len() - i,
    {
        let ghost before = pieces(path@.take(i as int));
        let ghost names_before = names@;
        proof {
            let next = path@.take(i + 1);
            assert(next.drop_last() =~= path@.take(i as int));
            assert(next.last() == chars@[i as int]);
        }
        if chars[i] == '/' {
            if piece_counts(&chars, start, i, first) {
                names.push(path.substring_char(start, i).to_owned());
            }
            start = i + 1;
            first = false;
            proof {
                let now = pieces(path@.take(i + 1));
                assert(now.drop_last() =~= before);
                assert(now.last() =~= chars@.subrange(start as int, i + 1));
                assert(before.drop_last().push(before.last()) =~= before);
                if names@.len() > names_before.len() {
                    assert(texts(names@) =~= texts(names_before).push(before.last()));
                }
            }
        } else {
            proof {
                let now = pieces(path@.take(i + 1));
                assert(now.drop_last() =~= before.drop_last());
                assert(now.last() =~= chars@.subrange(start as int, i + 1));
            }
        }
        i += 1;
    }
    let ghost names_before = names@;
    if piece_counts(&chars, start, i, first) {
        names.push(path.substring_char(start, i).to_owned());
    }
    proof {
        let all = pieces(path@);
        assert(path@.take(i as int) =~= path@);
        assert(all.drop_last().push(all.last()) =~= all);
        if names@.len() > names_before.len() {
            assert(texts(names@) =~= texts(names_before).push(all.last()));
        }
    }
    names
}

/// Whether a path starts at the root.
pub fn rooted(path: &str) -> (r: bool)
    ensures
        r == is_rooted(path@),
{
    path.unicode_len() > 0 && path.get_char(0) == '/'
}

/// Whether two paths name the same place.
pub fn same_path(a: &str, b: &str) -> (r: bool)
    ensures
        r == same_place(a@, b@),
{
    if rooted(a) != rooted(b) {
        return false;
    }
    let xs = split_path(a);
    let ys = split_path(b);
    if xs.len() != ys.len() {
        assert(texts(xs@).len() != texts(ys@).len());
        return false;
    }
    let mut i: usize = 0;
    while i < xs.len()
        invariant
            i <= xs@.len(),
            xs@.len() == ys@.len(),
            texts(xs@) == components(a@),
            texts(ys@) == components(b@),
            forall|j: int| 0 <= j < i ==> texts(xs@)[j] == texts(ys@)[j],
        decreases xs@.len() - i,
    {
        if xs[i] != ys[i] {
            assert(texts(xs@)[i as int] != texts(ys@)[i as int]);
            return false;
        }
        i += 1;
    }
    assert(texts(xs@) =~= texts(ys@));
    true
}

/// The path of a name within a directory.
pub fn join_path(dir: &str, name: &str) -> (path: String)
    ensures
        path@ == joined(dir@, name@),
{
    if rooted(name) {
        return name.to_owned();
    }
    let mut path = dir.to_owned();
    let n = dir.unicode_len();
    if n > 0 && dir.get_char(n - 1) != '/' {
        path.append("/");
        proof {
            reveal_strlit("/");
            assert(path@ =~= dir@.push('/'));
        }
    }
    path.append(name);
    path
}

/// Whether a component leads up to the directory above.
fn leads_up(name: &str) -> (r: bool)
    ensures
        r == (name@ == up()),
{
    let r = same_text(name, "..");
    proof {
        reveal_strlit("..");
        assert(".."@ =~= up());
    }
    r
}

/// Whether a component leads nowhere.
fn stays(name: &str) -> (r: bool)
    ensures
        r == (name@ == seq!['.']),
{
    let r = same_text(name, ".");
    proof {
        reveal_strlit(".");
        assert("."@ =~= seq!['.']);
    }
    r
}

/// Whether a path stays within a directory.
pub fn stays_within(dir: &str, path: &str) -> (r: bool)
    ensures
        r == within(dir@, path@),
{
    let outer = split_path(dir);
    let inner = split_path(path);
    if rooted(path) != rooted(dir) || inner.len() < outer.len() {
        return false;
    }
    let mut i: usize = 0;
    while i < outer.len()
        invariant
            i <= outer@.len() <= inner@.len(),
            texts(outer@) == components(dir@),
            texts(inner@) == components(path@),
            forall|j: int| 0 <= j < i ==> texts(outer@)[j] == texts(inner@)[j],
        decreases outer@.len() - i,
    {
        if outer[i] != inner[i] {
            assert(texts(outer@)[i as int] != texts(inner@)[i as int]);
            return false;
        }
        i += 1;
    }
    let ghost n = outer@.len() as int;
    let ghost parts = components(path@);
    let mut below: usize = 0;
    proof {
        assert(parts.subrange(n, n) =~= Seq::empty());
    }
    while i < inner.len()
        invariant
            n == outer@.len(),
            n <= i <= inner@.len(),
            texts(outer@) == components(dir@),
            texts(inner@) == parts,
            parts == components(path@),
            below <= i,
            below == depth(parts.subrange(n, i as int)),
            forall|j: int| n <= j <= i ==> depth(#[trigger] parts.subrange(n, j)) >= 0,
        decreases inner@.len() - i,
    {
        proof {
            let more = parts.subrange(n, i + 1);
            assert(more.drop_last() =~= parts.subrange(n, i as int));
            assert(more.last() == inner@[i as int]@);
        }
        if leads_up(inner[i].as_str()) {
            if below == 0 {
                assert(depth(parts.subrange(n, i + 1)) < 0);
                return false;
            }
            below -= 1;
        } else if !stays(inner[i].as_str()) {
            below += 1;
        }
        i += 1;
    }
    true
}

/// The rest of a text from a position on, without the slashes that it starts with.
pub fn skip_slashes(text: &str, start: usize) -> (rest: String)
    requires
        start <= text@.len(),
    ensures
        rest@ == unrooted(text@.skip(start as int)),
{
    let n = text.unicode_len();
    let mut i: usize = start;
    while i < n && text.get_char(i) == '/'
        invariant
            n == text@.len(),
            start <= i <= n,
            unrooted(text@.skip(i as int)) == unrooted(text@.skip(start as int)),
        decreases n - i,
    {
        proof {
            assert(text@.skip(i as int).skip(1) =~= text@.skip(i + 1));
        }
        i += 1;
    }
    let rest = text.substring_char(i, n).to_owned();
    assert(rest@ =~= text@.skip(i as int));
    rest
}

/// The pieces of two paths with a slash between them are those of the first and of the second.
pub proof fn lemma_pieces_joined(a: Seq<char>, b: Seq<char>)
    ensures
        pieces(a.push('/') + b) == pieces(a) + pieces(b),
        pieces(b).len() > 0,
    decreases b.len(),
{
    let whole = a.push('/') + b;
    if b.len() == 0 {
        assert(whole =~= a.push('/'));
        assert(whole.drop_last() =~= a);
    } else {
        lemma_pieces_joined(a, b.drop_last());
        assert(whole.drop_last() =~= a.push('/') + b.drop_last());
    }
    assert(pieces(whole) =~= pieces(a) + pieces(b));
}

/// The components out of two rows of pieces start with those out of the first row, and the others
/// are pieces of the second.
pub proof fn lemma_counting_joined(first: Seq<Seq<char>>, second: Seq<Seq<char>>)
    ensures
        counting(first).is_prefix_of(counting(first + second)),
        forall|i: int|
            counting(first).len() <= i < counting(first + second).len() ==> second.contains(
                #[trigger] counting(first + second)[i],
            ),
    decreases second.len(),
{
    let whole = first + second;
    if second.len() == 0 {
        assert(whole =~= first);
    } else {
        let shorter = second.drop_last();
        lemma_counting_joined(first, shorter);
        assert(whole.drop_last() =~= first + shorter);
        assert forall|i: int| counting(first).len() <= i < counting(whole).len() implies
            second.contains(#[trigger] counting(whole)[i]) by {
            if i < counting(first + shorter).len() {
                let k = choose|k: int|
                    0 <= k < shorter.len() && shorter[k] == counting(first + shorter)[i];
                assert(second[k] == counting(whole)[i]);
            } else {
                assert(second[second.len() - 1] == counting(whole)[i]);
            }
        }
    }
}

/// Components of which none leads up never lead above their start.
proof fn lemma_depth_plain(parts: Seq<Seq<char>>)
    requires
        !parts.contains(up()),
    ensures
        depth(parts) >= 0,
    decreases parts.len(),
{
    if parts.len() > 0 {
        let before = parts.drop_last();
        assert forall|i: int| 0 <= i < before.len() implies before[i] != up() by {
            assert(parts[i] == before[i]);
            assert(parts.contains(parts[i]));
        }
        lemma_depth_plain(before);
        assert(parts.contains(parts[parts.len() - 1]));
    }
}

/// Without the slashes that it starts with, a path does not start at the root, and where it led
/// up nowhere, it still does not.
pub proof fn lemma_unrooted(path: Seq<char>)
    ensures
        !is_rooted(unrooted(path)),
        !pieces(path).contains(up()) ==> !pieces(unrooted(path)).contains(up()),
    decreases path.len(),
{
    if is_rooted(path) {
        let rest = path.skip(1);
        lemma_unrooted(rest);
        let start = Seq::<char>::empty();
        lemma_pieces_joined(start, rest);
        assert(start.push('/') + rest =~= path);
        if pieces(rest).contains(up()) {
            let k = choose|k: int| 0 <= k < pieces(rest).len() && pieces(rest)[k] == up();
            assert(pieces(path)[pieces(start).len() + k] == up());
        }
    }
}

/// A name that does not start at the root and leads up nowhere stays within the directory that it
/// is joined to.
pub proof fn law_plain_names_stay_within(dir: Seq<char>, name: Seq<char>)
    requires
        !is_rooted(name),
        !pieces(name).contains(up()),
    ensures
        within(dir, joined(dir, name)),
{
    let path = joined(dir, name);
    if dir.len() == 0 {
        assert(path =~= name);
        assert(pieces(dir) =~= seq![Seq::<char>::empty()]);
        reveal_with_fuel(counting, 2);
        assert(components(dir) =~= Seq::empty());
        lemma_counting_joined(Seq::empty(), pieces(name));
        assert(Seq::<Seq<char>>::empty() + pieces(name) =~= pieces(name));
    } else {
        let before = if dir.last() == '/' {
            dir.drop_last()
        } else {
            dir
        };
        assert(path =~= before.push('/') + name);
        lemma_pieces_joined(before, name);
        lemma_counting_joined(pieces(before), pieces(name));
        if dir.last() == '/' {
            assert(pieces(dir).drop_last() =~= pieces(before));
        }
        assert(components(dir) == components(before));
        assert(path[0] == dir[0]);
    }
    let n = components(dir).len() as int;
    let inner = components(path);
    assert forall|i: int| n <= i <= inner.len() implies depth(
        #[trigger] inner.subrange(n, i),
    ) >= 0 by {
        let parts = inner.subrange(n, i);
        assert forall|j: int| 0 <= j < parts.len() implies parts[j] != up() by {
            assert(pieces(name).contains(inner[n + j]));
        }
        lemma_depth_plain(parts);
    }
}

} // verus!
