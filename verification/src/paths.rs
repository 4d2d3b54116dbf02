//! Names in a path.
//!
//! A path is text with `/` between its names. Repeated separators, separators
//! at the end and `.` between names say nothing; `..` is no name.

use vstd::prelude::*;

use crate::text::{copy_text, marks_of, pieces, same, split_at_char};

verus! {

/// A piece of a path that says something.
pub open spec fn meaningful(piece: Seq<char>) -> bool {
    piece.len() > 0 && piece != "."@
}

/// Saying something.
pub open spec fn meaning() -> spec_fn(Seq<char>) -> bool {
    |piece: Seq<char>| meaningful(piece)
}

/// The names a path is made of.
pub open spec fn steps(path: Seq<char>) -> Seq<Seq<char>> {
    pieces(path, marks_of(path, '/')).filter(meaning())
}

/// The name a list of steps ends in.
pub open spec fn end_name(names: Seq<Seq<char>>) -> Option<Seq<char>> {
    if names.len() == 0 || names.last() == ".."@ {
        None
    } else {
        Some(names.last())
    }
}

/// The name of what the path leads to.
pub open spec fn name_of(path: Seq<char>) -> Option<Seq<char>> {
    end_name(steps(path))
}

/// The name of the directory that holds what the path leads to.
pub open spec fn parent_name_of(path: Seq<char>) -> Option<Seq<char>> {
    if steps(path).len() == 0 {
        None
    } else {
        end_name(steps(path).drop_last())
    }
}

fn path_steps(path: &str) -> (r: Vec<String>)
    ensures
        r.deep_view() == steps(path@),
{
    let parts = split_at_char(path, '/');
    let ghost all = parts.deep_view();
    let ghost p = meaning();
    let mut r: Vec<String> = Vec::new();
    let mut i: usize = 0;
    assert(all.take(0).filter(p) =~= Seq::<Seq<char>>::empty()) by {
        reveal(Seq::filter);
    }
    while i < parts.len()
        invariant
            i <= parts@.len(),
            p == meaning(),
            all == parts.deep_view(),
            r.deep_view() =~= all.take(i as int).filter(p),
        decreases parts@.len() - i,
    {
        let ghost listed = r.deep_view();
        proof {
            assert(all.take(i + 1) =~= all.take(i as int).push(all[i as int]));
            all.take(i as int).lemma_filter_push(all[i as int], p);
        }
        if !parts[i].as_str().is_empty() && !same(parts[i].as_str(), ".") {
            r.push(copy_text(&parts[i]));
            assert(r.deep_view() =~= listed.push(all[i as int]));
        }
        i += 1;
    }
    assert(all.take(i as int) =~= all);
    r
}

/// The name of what the path leads to.
pub fn file_name(path: &str) -> (r: Option<String>)
    ensures
        r.deep_view() == name_of(path@),
{
    let names = path_steps(path);
    assert(names.deep_view().len() == names@.len());
    if names.len() == 0 {
        return None;
    }
    let last = copy_text(&names[names.len() - 1]);
    if same(last.as_str(), "..") {
        None
    } else {
        Some(last)
    }
}

/// The name of the directory that holds what the path leads to.
pub fn parent_name(path: &str) -> (r: Option<String>)
    ensures
        r.deep_view() == parent_name_of(path@),
{
    let names = path_steps(path);
    assert(names.deep_view().len() == names@.len());
    if names.len() < 2 {
        return None;
    }
    let name = copy_text(&names[names.len() - 2]);
    assert(name@ == steps(path@).drop_last().last());
    if same(name.as_str(), "..") {
        None
    } else {
        Some(name)
    }
}

} // verus!
