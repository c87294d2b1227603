//! Where the contents of URLs are saved.

use crate::path::{
    is_rooted, join_path, joined, law_plain_names_stay_within, lemma_unrooted, pieces, same_path,
    same_place, skip_slashes, stays_within, texts, unrooted, up, within,
};
use crate::path_laws::{agree, law_same_place_at_every_position};
use crate::urls::Url;
use vstd::prelude::*;

verus! {

/// The view of an optional text.
pub open spec fn optional_text(text: Option<String>) -> Option<Seq<char>> {
    match text {
        Some(t) => Some(t@),
        None => None,
    }
}

/// The name under which a URL's path is saved: the path without its first character, which is a
/// slash wherever the URL names a server, and without slashes behind it; `root` where the path is
/// nothing but slashes.
pub open spec fn file_name(url_path: Seq<char>) -> Seq<char> {
    if unrooted(url_path).len() == 0 {
        "root"@
    } else {
        unrooted(url_path.skip(1))
    }
}

/// Whether one of `paths` is the same place as `path`.
pub open spec fn taken(paths: Seq<Seq<char>>, path: Seq<char>) -> bool {
    exists|i: int| 0 <= i < paths.len() && #[trigger] same_place(paths[i], path)
}

/// Whether no two of `paths` are the same place.
pub open spec fn all_apart(paths: Seq<Seq<char>>) -> bool {
    forall|i: int, j: int|
        0 <= i < j < paths.len() ==> !#[trigger] same_place(paths[i], paths[j])
}

/// What to do about a file for a URL.
pub enum OutputPlan {
    /// Nothing is saved.
    Nowhere,
    /// The path has been used before.
    Duplicate(String),
    /// The file is to be created, with the directories that it stands in.
    Open(String),
}

/// The mathematical value of an [`OutputPlan`].
pub ghost enum OutputPlanView {
    Nowhere,
    Duplicate(Seq<char>),
    Open(Seq<char>),
}

impl View for OutputPlan {
    type V = OutputPlanView;

    open spec fn view(&self) -> OutputPlanView {
        match self {
            OutputPlan::Nowhere => OutputPlanView::Nowhere,
            OutputPlan::Duplicate(path) => OutputPlanView::Duplicate(path@),
            OutputPlan::Open(path) => OutputPlanView::Open(path@),
        }
    }
}

/// Where the contents of a URL go: into the output directory, if there is one, unless its path
/// would lead out of it or has been used before.
pub open spec fn output_plan(
    url_path: Seq<char>,
    output_dir: Option<Seq<char>>,
    all_paths: Seq<Seq<char>>,
) -> OutputPlanView {
    match output_dir {
        None => OutputPlanView::Nowhere,
        Some(dir) => {
            let path = joined(dir, file_name(url_path));
            if !within(dir, path) {
                OutputPlanView::Nowhere
            } else if taken(all_paths, path) {
                OutputPlanView::Duplicate(path)
            } else {
                OutputPlanView::Open(path)
            }
        },
    }
}

/// Whether a path has been used before.
fn path_taken(all_paths: &Vec<String>, path: &str) -> (r: bool)
    ensures
        r == taken(texts(all_paths@), path@),
{
    let mut i: usize = 0;
    while i < all_paths.len()
        invariant
            i <= all_paths@.len(),
            forall|j: int| 0 <= j < i ==> !#[trigger] same_place(texts(all_paths@)[j], path@),
        decreases all_paths@.len() - i,
    {
        if same_path(all_paths[i].as_str(), path) {
            assert(same_place(texts(all_paths@)[i as int], path@));
            return true;
        }
        i += 1;
    }
    false
}

/// Decides where the contents of a URL go.
pub fn get_output_file(url: &Url, output_dir: &Option<String>, all_paths: &Vec<String>) -> (plan:
    OutputPlan)
    requires
        output_dir is Some ==> url@.path.len() > 0,
    ensures
        plan@ == output_plan(url@.path, optional_text(*output_dir), texts(all_paths@)),
        plan@ matches OutputPlanView::Open(path) ==> output_dir matches Some(dir) && within(
            dir@,
            path,
        ),
{
    match output_dir {
        None => OutputPlan::Nowhere,
        Some(dir) => {
            proof {
                assert(url@.path.skip(0) =~= url@.path);
            }
            let path = if skip_slashes(url.path.as_str(), 0).as_str().unicode_len() == 0 {
                // If no path is given, call it "root".
                join_path(dir.as_str(), "root")
            } else {
                // Omit leading slash
                let name = skip_slashes(url.path.as_str(), 1);
                join_path(dir.as_str(), name.as_str())
            };
            if !stays_within(dir.as_str(), path.as_str()) {
                // Nothing is saved outside of the directory.
                OutputPlan::Nowhere
            } else if path_taken(all_paths, path.as_str()) {
                OutputPlan::Duplicate(path)
            } else {
                OutputPlan::Open(path)
            }
        },
    }
}

/// With an output directory, the contents of a URL are saved there under its path, however many
/// slashes lead it, provided that it leads up nowhere and that no file is at that place.
pub proof fn law_plain_paths_saved(
    url_path: Seq<char>,
    dir: Seq<char>,
    all_paths: Seq<Seq<char>>,
)
    requires
        is_rooted(url_path),
        !pieces(url_path).contains(up()),
        !taken(all_paths, joined(dir, file_name(url_path))),
    ensures
        output_plan(url_path, Some(dir), all_paths) == OutputPlanView::Open(
            joined(dir, file_name(url_path)),
        ),
{
    reveal_strlit("root");
    if unrooted(url_path).len() == 0 {
        let name = "root"@;
        assert forall|i: int| 0 <= i < pieces(name).len() implies pieces(name)[i] != up() by {
            lemma_one_piece(name);
        }
        law_plain_names_stay_within(dir, name);
    } else {
        lemma_unrooted(url_path);
        law_plain_names_stay_within(dir, unrooted(url_path));
    }
}

/// A name without slashes is one piece.
pub proof fn lemma_one_piece(name: Seq<char>)
    requires
        !name.contains('/'),
    ensures
        pieces(name) == seq![name],
    decreases name.len(),
{
    if name.len() > 0 {
        let shorter = name.drop_last();
        assert forall|i: int| 0 <= i < shorter.len() implies shorter[i] != '/' by {
            assert(name[i] == shorter[i]);
            assert(name.contains(name[i]));
        }
        lemma_one_piece(shorter);
        assert(name.contains(name.last()));
        assert(shorter.push(name.last()) =~= name);
        assert(pieces(name) =~= seq![name]);
    } else {
        assert(name =~= Seq::empty());
    }
}

/// A path that a plan says to open keeps the paths in use apart.
pub proof fn law_opened_paths_stay_apart(
    url_path: Seq<char>,
    output_dir: Option<Seq<char>>,
    all_paths: Seq<Seq<char>>,
)
    requires
        all_apart(all_paths),
    ensures
        output_plan(url_path, output_dir, all_paths) matches OutputPlanView::Open(path)
            ==> all_apart(all_paths.push(path)),
{
    if let OutputPlanView::Open(path) = output_plan(url_path, output_dir, all_paths) {
        let more = all_paths.push(path);
        assert forall|i: int, j: int| 0 <= i < j < more.len() implies !#[trigger] same_place(
            more[i],
            more[j],
        ) by {
            assert(more[i] == all_paths[i]);
            if j < all_paths.len() {
                assert(!same_place(all_paths[i], all_paths[j]));
            } else {
                assert(!same_place(all_paths[i], path));
            }
        }
    }
}

/// A URL is refused a file as a duplicate if and only if a path is in use that agrees with its own
/// at every position; one that differs in any directory or in the name does not stand in its way.
pub proof fn law_duplicate_only_if_in_use(
    url_path: Seq<char>,
    dir: Seq<char>,
    all_paths: Seq<Seq<char>>,
)
    ensures
        match output_plan(url_path, Some(dir), all_paths) {
            OutputPlanView::Duplicate(path) => exists|i: int|
                0 <= i < all_paths.len() && agree(#[trigger] all_paths[i], path),
            OutputPlanView::Open(path) => forall|i: int|
                0 <= i < all_paths.len() ==> !agree(#[trigger] all_paths[i], path),
            OutputPlanView::Nowhere => true,
        },
{
    match output_plan(url_path, Some(dir), all_paths) {
        OutputPlanView::Duplicate(path) => {
            let i = choose|i: int|
                0 <= i < all_paths.len() && #[trigger] same_place(all_paths[i], path);
            law_same_place_at_every_position(all_paths[i], path);
            assert(agree(all_paths[i], path));
        },
        OutputPlanView::Open(path) => {
            assert forall|i: int| 0 <= i < all_paths.len() implies !agree(
                #[trigger] all_paths[i],
                path,
            ) by {
                law_same_place_at_every_position(all_paths[i], path);
                assert(!same_place(all_paths[i], path));
            }
        },
        OutputPlanView::Nowhere => {},
    }
}

/// The path at which contents are saved, or would be, if there is one.
pub open spec fn planned(plan: OutputPlanView) -> Option<Seq<char>> {
    match plan {
        OutputPlanView::Nowhere => None,
        OutputPlanView::Duplicate(path) => Some(path),
        OutputPlanView::Open(path) => Some(path),
    }
}

/// A row of slashes.
pub open spec fn slashes(n: nat) -> Seq<char> {
    Seq::new(n, |i: int| '/')
}

/// Slashes in front of a path that does not start with one.
proof fn lemma_slashes_in_front(n: nat, rest: Seq<char>)
    requires
        rest.len() > 0 ==> rest[0] != '/',
    ensures
        unrooted(slashes(n) + rest) == rest,
    decreases n,
{
    let path = slashes(n) + rest;
    if n == 0 {
        assert(path =~= rest);
    } else {
        let less = (n - 1) as nat;
        lemma_slashes_in_front(less, rest);
        assert(path[0] == '/');
        assert(path.skip(1) =~= slashes(less) + rest);
    }
}

/// Contents are saved under the whole path of their URL, below the directory: what follows the
/// first character and any slashes behind it is neither shortened nor changed, and how many slashes
/// there are makes no difference. A path that would lead out of the directory is saved nowhere, as
/// is everything without a directory.
pub proof fn law_saved_under_the_whole_path(
    first: char,
    more: nat,
    rest: Seq<char>,
    dir: Seq<char>,
    all_paths: Seq<Seq<char>>,
)
    requires
        rest.len() > 0,
        rest[0] != '/',
    ensures
        planned(output_plan(seq![first] + slashes(more) + rest, Some(dir), all_paths)) == if within(
            dir,
            joined(dir, rest),
        ) {
            Some(joined(dir, rest))
        } else {
            None
        },
        output_plan(rest, None, all_paths) is Nowhere,
{
    let path = seq![first] + slashes(more) + rest;
    assert(path.skip(1) =~= slashes(more) + rest);
    lemma_slashes_in_front(more, rest);
    assert(path[0] == first);
}

/// A path of nothing but slashes is saved as `root`.
pub proof fn law_root_saved(n: nat, dir: Seq<char>, all_paths: Seq<Seq<char>>)
    ensures
        planned(output_plan(slashes(n), Some(dir), all_paths)) == Some(
            joined(dir, seq!['r', 'o', 'o', 't']),
        ),
{
    reveal_strlit("root");
    let name = seq!['r', 'o', 'o', 't'];
    assert("root"@ =~= name);
    lemma_slashes_in_front(n, Seq::empty());
    assert(slashes(n) + Seq::<char>::empty() =~= slashes(n));
    assert(!name.contains('/'));
    lemma_one_piece(name);
    assert(!pieces(name).contains(up())) by {
        assert(name.len() != up().len());
    }
    law_plain_names_stay_within(dir, name);
}

} // verus!
