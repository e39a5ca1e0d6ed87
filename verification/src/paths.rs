//! Paths as `/`-separated strings: how they split into components and how
//! they are put together.

use vstd::prelude::*;
use vstd::string::StringExecFns;
use crate::text::{chars_of, lemma_split_free, split, split_on, str_eq, string_of};

verus! {

/// The piece `.`, which stands for the directory itself.
pub open spec fn dot() -> Seq<char> {
    seq!['.']
}

/// The piece `..`, which stands for the directory above.
pub open spec fn dotdot() -> Seq<char> {
    seq!['.', '.']
}

/// The named components at the end of a list of path pieces, the last one
/// first. Empty pieces and `.` are passed over; the run ends at the first
/// `..` met on the way up.
pub open spec fn chain_of(pieces: Seq<Seq<char>>) -> Seq<Seq<char>>
    decreases pieces.len(),
{
    if pieces.len() == 0 {
        Seq::<Seq<char>>::empty()
    } else {
        let last = pieces.last();
        if last == dotdot() {
            Seq::<Seq<char>>::empty()
        } else if last.len() == 0 || last == dot() {
            chain_of(pieces.drop_last())
        } else {
            seq![last] + chain_of(pieces.drop_last())
        }
    }
}

/// The components of a path from the bottom up: `/a/b/c/repo` gives
/// `repo`, `c`, `b`, `a`.
pub open spec fn path_chain(path: Seq<char>) -> Seq<Seq<char>> {
    chain_of(split_on(path, '/'))
}

/// The last named component of a path, if it ends in one.
pub open spec fn file_name_of(path: Seq<char>) -> Option<Seq<char>> {
    if path_chain(path).len() > 0 {
        Some(path_chain(path)[0])
    } else {
        None
    }
}

/// `child` placed under `base`. An absolute `child` stands for itself; a
/// separator is added only where `base` does not already end in one.
pub open spec fn joined_path(base: Seq<char>, child: Seq<char>) -> Seq<char> {
    if child.len() > 0 && child[0] == '/' {
        child
    } else if base.len() == 0 || base.last() == '/' {
        base + child
    } else {
        base + seq!['/'] + child
    }
}

/// A chain holds only pieces that were found in `pieces`, none of them empty.
pub proof fn lemma_chain_members(pieces: Seq<Seq<char>>)
    ensures
        forall|k: int|
            0 <= k < chain_of(pieces).len() ==> (#[trigger] chain_of(pieces)[k]).len() > 0
                && pieces.contains(chain_of(pieces)[k]),
    decreases pieces.len(),
{
    if pieces.len() > 0 {
        let rest = pieces.drop_last();
        lemma_chain_members(rest);
        assert forall|k: int| 0 <= k < chain_of(pieces).len() implies (#[trigger] chain_of(
            pieces,
        )[k]).len() > 0 && pieces.contains(chain_of(pieces)[k]) by {
            let last = pieces.last();
            if last == dotdot() {
            } else if last.len() == 0 || last == dot() {
                let found = chain_of(rest)[k];
                let at = choose|j: int| 0 <= j < rest.len() && rest[j] == found;
                assert(pieces[at] == found);
            } else if k == 0 {
                assert(pieces[pieces.len() - 1] == last);
            } else {
                let found = chain_of(rest)[k - 1];
                let at = choose|j: int| 0 <= j < rest.len() && rest[j] == found;
                assert(pieces[at] == found);
            }
        }
    }
}

/// No component of a path holds a separator, and none is empty.
pub proof fn lemma_path_chain_clean(path: Seq<char>)
    ensures
        crate::text::free_of(path_chain(path), '/'),
        forall|k: int| 0 <= k < path_chain(path).len() ==> (#[trigger] path_chain(path)[k]).len() > 0,
{
    let pieces = split_on(path, '/');
    lemma_split_free(path, '/');
    lemma_chain_members(pieces);
    let chain = path_chain(path);
    assert forall|i: int, j: int| 0 <= i < chain.len() && 0 <= j < chain[i].len() implies #[trigger] chain[i][j] != '/' by {
        let at = choose|k: int| 0 <= k < pieces.len() && pieces[k] == chain[i];
        assert(pieces[at][j] != '/');
    }
}

/// The components of `path` from the bottom up.
pub fn path_components(path: &str) -> (chain: Vec<String>)
    ensures
        chain.deep_view() == path_chain(path@),
{
    let pieces = split(path, '/');
    let mut chain: Vec<String> = Vec::new();
    let mut i: usize = pieces.len();
    proof {
        reveal_strlit("..");
        reveal_strlit(".");
        assert(pieces.deep_view().take(i as int) =~= pieces.deep_view());
    }
    while i > 0
        invariant
            i <= pieces.len(),
            ".."@ == dotdot(),
            "."@ == dot(),
            pieces.deep_view() == split_on(path@, '/'),
            chain.deep_view() + chain_of(pieces.deep_view().take(i as int)) == chain_of(
                pieces.deep_view(),
            ),
        decreases i,
    {
        let ghost upto = pieces.deep_view().take(i as int);
        i -= 1;
        assert(upto.drop_last() =~= pieces.deep_view().take(i as int));
        let piece = pieces[i].as_str();
        if str_eq(piece, "..") {
            return chain;
        }
        let skipped = piece.unicode_len() == 0 || str_eq(piece, ".");
        if !skipped {
            chain.push(pieces[i].clone());
        }
    }
    chain
}

/// The last named component of `path`, if it ends in one.
pub fn file_name(path: &str) -> (name: Option<String>)
    ensures
        name is Some == file_name_of(path@) is Some,
        name matches Some(n) ==> Some(n@) == file_name_of(path@),
{
    let chain = path_components(path);
    if chain.len() > 0 {
        Some(chain[0].clone())
    } else {
        None
    }
}

/// `child` placed under `base`.
pub fn join_path(base: &str, child: &str) -> (out: String)
    ensures
        out@ == joined_path(base@, child@),
{
    let b = chars_of(base);
    let c = chars_of(child);
    if c.len() > 0 && c[0] == '/' {
        return String::from_str(child);
    }
    let mut out = String::from_str(base);
    if b.len() > 0 && b[b.len() - 1] != '/' {
        out.push('/');
    }
    out.append(child);
    out
}

/// How many characters at the start of a path are not part of a component
/// that can be taken off: the root `/`, or the `.` that a relative path
/// begins with.
pub open spec fn fixed_head(path: Seq<char>) -> int {
    if path.len() > 0 && path[0] == '/' {
        1
    } else if path.len() > 0 && path[0] == '.' && (path.len() == 1 || path[1] == '/') {
        1
    } else {
        0
    }
}

/// The position of the last `/` in `path[floor..end]`, or -1.
pub open spec fn last_sep(path: Seq<char>, floor: int, end: int) -> int
    decreases end,
{
    if end <= floor || end <= 0 {
        -1
    } else if path[end - 1] == '/' {
        end - 1
    } else {
        last_sep(path, floor, end - 1)
    }
}

/// Where the last piece of `path[floor..end]` begins, its separator
/// included.
pub open spec fn piece_cut(path: Seq<char>, floor: int, end: int) -> int {
    if last_sep(path, floor, end) >= 0 {
        last_sep(path, floor, end)
    } else {
        floor
    }
}

/// The last piece of `path[floor..end]`.
pub open spec fn last_piece(path: Seq<char>, floor: int, end: int) -> Seq<char> {
    if last_sep(path, floor, end) >= 0 {
        path.subrange(last_sep(path, floor, end) + 1, end)
    } else {
        path.subrange(floor, end)
    }
}

/// The end of `path[..end]` once the empty pieces and the `.` pieces at its
/// end are taken off.
pub open spec fn settled_end(path: Seq<char>, floor: int, end: int) -> int
    decreases end,
    when 0 <= floor <= end <= path.len()
    via settled_end_decreases
{
    if floor < end && (last_piece(path, floor, end).len() == 0 || last_piece(path, floor, end)
        == dot()) {
        settled_end(path, floor, piece_cut(path, floor, end))
    } else {
        end
    }
}

#[via_fn]
proof fn settled_end_decreases(path: Seq<char>, floor: int, end: int) {
    lemma_last_sep(path, floor, end);
}

/// The path without its last component: `None` for a path that ends in the
/// root and for the empty path; the empty path for a relative path of one
/// component.
pub open spec fn parent_of(path: Seq<char>) -> Option<Seq<char>> {
    let floor = fixed_head(path);
    let end = settled_end(path, floor, path.len() as int);
    if end > floor {
        Some(path.take(settled_end(path, floor, piece_cut(path, floor, end))))
    } else if path.len() > 0 && path[0] == '/' {
        None
    } else if floor == 1 {
        Some(Seq::<char>::empty())
    } else {
        None
    }
}

proof fn lemma_last_sep(path: Seq<char>, floor: int, end: int)
    requires
        0 <= floor <= end <= path.len(),
    ensures
        last_sep(path, floor, end) == -1 || floor <= last_sep(path, floor, end) < end,
    decreases end,
{
    if end > floor && path[end - 1] != '/' {
        lemma_last_sep(path, floor, end - 1);
    }
}

fn find_last_sep(chars: &Vec<char>, floor: usize, end: usize) -> (at: Option<usize>)
    requires
        floor <= end <= chars.len(),
    ensures
        match at {
            Some(i) => last_sep(chars@, floor as int, end as int) == i && floor <= i < end,
            None => last_sep(chars@, floor as int, end as int) == -1,
        },
{
    let mut e: usize = end;
    while e > floor
        invariant
            floor <= e <= end <= chars.len(),
            last_sep(chars@, floor as int, end as int) == last_sep(chars@, floor as int, e as int),
        decreases e,
    {
        if chars[e - 1] == '/' {
            return Some(e - 1);
        }
        e -= 1;
    }
    None
}

fn settle(chars: &Vec<char>, floor: usize, end: usize) -> (out: usize)
    requires
        floor <= end <= chars.len(),
    ensures
        out == settled_end(chars@, floor as int, end as int),
        floor <= out <= end,
{
    let mut e: usize = end;
    while e > floor
        invariant
            floor <= e <= end <= chars.len(),
            settled_end(chars@, floor as int, end as int) == settled_end(
                chars@,
                floor as int,
                e as int,
            ),
        decreases e,
    {
        let (from, cut) = match find_last_sep(chars, floor, e) {
            Some(i) => (i + 1, i),
            None => (floor, floor),
        };
        assert(chars@.subrange(from as int, e as int) == last_piece(chars@, floor as int, e as int));
        let empty = from == e;
        let is_dot = e - from == 1 && chars[from] == '.';
        proof {
            let piece = chars@.subrange(from as int, e as int);
            if is_dot {
                assert(piece =~= dot());
            } else if piece == dot() {
                assert(piece[0] == '.');
            }
        }
        if empty || is_dot {
            e = cut;
        } else {
            return e;
        }
    }
    e
}

/// The path without its last component.
pub fn parent(path: &str) -> (out: Option<String>)
    ensures
        crate::text::opt_text(out) == parent_of(path@),
{
    let chars = chars_of(path);
    let n = chars.len();
    let rooted = n > 0 && chars[0] == '/';
    let floor: usize = if rooted {
        1
    } else if n > 0 && chars[0] == '.' && (n == 1 || chars[1] == '/') {
        1
    } else {
        0
    };
    let end = settle(&chars, floor, n);
    if end > floor {
        let cut = match find_last_sep(&chars, floor, end) {
            Some(i) => i,
            None => floor,
        };
        let keep = settle(&chars, floor, cut);
        let out = string_of(&chars, 0, keep);
        Some(out)
    } else if rooted {
        None
    } else if floor == 1 {
        Some(String::new())
    } else {
        None
    }
}

/// Whether the piece at `at` of a path is a component: an empty piece is
/// none, and `.` is one only at the start of a relative path.
pub open spec fn piece_counts(pieces: Seq<Seq<char>>, at: int) -> bool {
    pieces[at].len() > 0 && (pieces[at] != dot() || at == 0)
}

/// The components among the first `upto` pieces, in order.
pub open spec fn counted(pieces: Seq<Seq<char>>, upto: int) -> Seq<Seq<char>>
    decreases upto,
{
    if upto <= 0 {
        Seq::<Seq<char>>::empty()
    } else if piece_counts(pieces, upto - 1) {
        counted(pieces, upto - 1).push(pieces[upto - 1])
    } else {
        counted(pieces, upto - 1)
    }
}

/// All components of a path from the top down; the root, where the path has
/// one, is the component `/`.
pub open spec fn components_of(path: Seq<char>) -> Seq<Seq<char>> {
    let pieces = split_on(path, '/');
    if path.len() > 0 && path[0] == '/' {
        seq![seq!['/']] + counted(pieces, pieces.len() as int)
    } else {
        counted(pieces, pieces.len() as int)
    }
}

/// Whether `path` lies at or below `base`: whether the components of `base`
/// are the first components of `path`.
pub open spec fn is_within(path: Seq<char>, base: Seq<char>) -> bool {
    components_of(base).len() <= components_of(path).len() && components_of(path).take(
        components_of(base).len() as int,
    ) == components_of(base)
}

/// All components of `path` from the top down.
pub fn components(path: &str) -> (out: Vec<String>)
    ensures
        out.deep_view() == components_of(path@),
{
    let chars = chars_of(path);
    let pieces = split(path, '/');
    let mut out: Vec<String> = Vec::new();
    if chars.len() > 0 && chars[0] == '/' {
        crate::text::push_str(&mut out, "/");
        proof {
            reveal_strlit("/");
            assert("/"@ =~= seq!['/']);
        }
    }
    let ghost head = out.deep_view();
    proof {
        reveal_strlit(".");
    }
    let mut i: usize = 0;
    while i < pieces.len()
        invariant
            i <= pieces.len(),
            "."@ == dot(),
            out.deep_view() == head + counted(pieces.deep_view(), i as int),
        decreases pieces.len() - i,
    {
        let piece = pieces[i].as_str();
        let counts = piece.unicode_len() > 0 && (i == 0 || !str_eq(piece, "."));
        if counts {
            crate::text::push_str(&mut out, piece);
        }
        i += 1;
    }
    out
}

/// Whether `path` lies at or below `base`.
pub fn starts_with_path(path: &str, base: &str) -> (yes: bool)
    ensures
        yes == is_within(path@, base@),
{
    let whole = components(path);
    let head = components(base);
    if head.len() > whole.len() {
        return false;
    }
    let mut i: usize = 0;
    while i < head.len()
        invariant
            i <= head.len() <= whole.len(),
            whole.deep_view() == components_of(path@),
            head.deep_view() == components_of(base@),
            forall|j: int| 0 <= j < i ==> whole.deep_view()[j] == head.deep_view()[j],
        decreases head.len() - i,
    {
        if !(whole[i] == head[i]) {
            assert(components_of(path@).take(components_of(base@).len() as int)[i as int]
                != components_of(base@)[i as int]);
            return false;
        }
        i += 1;
    }
    assert(components_of(path@).take(components_of(base@).len() as int) =~= components_of(base@));
    true
}

} // verus!
