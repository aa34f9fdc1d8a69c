//! Where the models and skins that content refers to may be.

use vstd::prelude::*;

use crate::content::lookup::{first_where, first_where_prefix, first_where_step};

verus! {

/// The parts of `path` between slashes, as `str::split('/')` gives them.
pub open spec fn split_parts(path: Seq<char>) -> Seq<Seq<char>>
    decreases path.len(),
{
    if path.len() == 0 {
        seq![Seq::<char>::empty()]
    } else {
        let before = split_parts(path.drop_last());
        if path.last() == '/' {
            before.push(Seq::<char>::empty())
        } else {
            before.update(before.len() - 1, before.last().push(path.last()))
        }
    }
}

/// Whether a part of a path stays where it is: it is not empty and does
/// not lead up a folder.
pub open spec fn part_stays(part: Seq<char>) -> bool {
    part.len() > 0 && part != seq!['.', '.']
}

/// The last part of `parts` other than `.`: the file a path names.
pub open spec fn file_name(parts: Seq<Seq<char>>) -> Option<Seq<char>>
    decreases parts.len(),
{
    if parts.len() == 0 {
        None
    } else if parts.last() == seq!['.'] {
        file_name(parts.drop_last())
    } else {
        Some(parts.last())
    }
}

/// Whether a file's name has extension `extension` (given with its dot):
/// it ends in it after at least one more character.
pub open spec fn has_extension(name: Seq<char>, extension: Seq<char>) -> bool {
    name.len() > extension.len() && name.subrange(name.len() - extension.len(), name.len() as int)
        == extension
}

/// Whether `path` names a file with extension `extension` inside the folder
/// it is relative to: no backslash, no empty part, no part leading up a
/// folder, and a file name with that extension.
pub open spec fn inside_folder(path: Seq<char>, extension: Seq<char>) -> bool {
    &&& !path.contains('\\')
    &&& forall|i: int| 0 <= i < split_parts(path).len() ==> part_stays(#[trigger] split_parts(path)[i])
    &&& file_name(split_parts(path)) matches Some(name) && has_extension(name, extension)
}

/// Whether `path` names a `.glb` file inside the models folder.
pub open spec fn inside_models(path: Seq<char>) -> bool {
    inside_folder(path, ".glb"@)
}

/// Why a list of models was refused.
#[derive(Debug, PartialEq, Eq)]
pub enum ModelFault {
    /// The list is empty.
    NoModel,
    /// This model is not a `.glb` file inside the models folder.
    Outside(String),
}

/// What is wrong with the models `models`, if anything: an empty list, or
/// the first model outside the models folder.
pub open spec fn models_fault(models: Seq<String>) -> Option<ModelFault> {
    if models.len() == 0 {
        Some(ModelFault::NoModel)
    } else {
        match first_where(models, |model: String| !inside_models(model@)) {
            Some(i) => Some(ModelFault::Outside(models[i as int])),
            None => None,
        }
    }
}

proof fn split_step(path: Seq<char>, i: int)
    requires
        0 <= i < path.len(),
    ensures
        split_parts(path.take(i + 1)) == (if path[i] == '/' {
            split_parts(path.take(i)).push(Seq::<char>::empty())
        } else {
            let before = split_parts(path.take(i));
            before.update(before.len() - 1, before.last().push(path[i]))
        }),
{
    assert(path.take(i + 1).drop_last() =~= path.take(i));
}

proof fn split_never_empty(path: Seq<char>)
    ensures
        split_parts(path).len() >= 1,
    decreases path.len(),
{
    if path.len() > 0 {
        split_never_empty(path.drop_last());
    }
}

/// Whether a part of `path` from `start` to `end` stays where it is.
fn part_stays_at(path: &str, start: usize, end: usize) -> (stays: bool)
    requires
        start <= end <= path@.len(),
    ensures
        stays == part_stays(path@.subrange(start as int, end as int)),
{
    let ghost part = path@.subrange(start as int, end as int);
    if start == end {
        return false;
    }
    if end - start != 2 {
        assert(part.len() != 2);
        return true;
    }
    let first = path.get_char(start);
    let second = path.get_char(start + 1);
    assert(part[0] == first && part[1] == second);
    if first == '.' && second == '.' {
        assert(part =~= seq!['.', '.']);
        false
    } else {
        true
    }
}

/// Whether the part of `path` from `start` to `end` is `.`.
fn is_dot(path: &str, start: usize, end: usize) -> (dot: bool)
    requires
        start <= end <= path@.len(),
    ensures
        dot == (path@.subrange(start as int, end as int) == seq!['.']),
{
    let ghost part = path@.subrange(start as int, end as int);
    if end - start != 1 {
        assert(part.len() != 1);
        return false;
    }
    let only = path.get_char(start);
    assert(part[0] == only);
    if only == '.' {
        assert(part =~= seq!['.']);
        true
    } else {
        false
    }
}

/// Whether the part of `path` from `start` to `end` has extension
/// `extension`.
fn has_extension_at(path: &str, start: usize, end: usize, extension: &str) -> (has: bool)
    requires
        start <= end <= path@.len(),
    ensures
        has == has_extension(path@.subrange(start as int, end as int), extension@),
{
    let ghost name = path@.subrange(start as int, end as int);
    let n = extension.unicode_len();
    if end - start <= n {
        return false;
    }
    let from = end - n;
    let mut k: usize = 0;
    while k < n
        invariant
            n == extension@.len(),
            start < from <= end <= path@.len(),
            from == end - n,
            name == path@.subrange(start as int, end as int),
            k <= n,
            forall|j: int| 0 <= j < k ==> path@[from + j] == extension@[j],
        decreases n - k,
    {
        if path.get_char(from + k) != extension.get_char(k) {
            proof {
                let tail = name.subrange(name.len() - n, name.len() as int);
                assert(tail[k as int] == path@[from + k]);
            }
            return false;
        }
        k = k + 1;
    }
    proof {
        let tail = name.subrange(name.len() - n, name.len() as int);
        assert(tail =~= extension@);
    }
    true
}

/// Whether `path` names a file with extension `extension` inside the
/// folder it is relative to.
pub fn is_inside_folder(path: &str, extension: &str) -> (inside: bool)
    ensures
        inside == inside_folder(path@, extension@),
{
    let len = path.unicode_len();
    let mut start: usize = 0;
    let mut i: usize = 0;
    let mut all_stay = true;
    let mut no_backslash = true;
    let mut named: Option<(usize, usize)> = None;
    let ghost mut done: Seq<Seq<char>> = Seq::empty();
    proof {
        assert(path@.take(0) =~= Seq::<char>::empty());
        assert(path@.subrange(0, 0) =~= Seq::<char>::empty());
        assert(Seq::<Seq<char>>::empty().push(Seq::<char>::empty()) =~= seq![Seq::<char>::empty()]);
    }
    while i < len
        invariant
            len == path@.len(),
            start <= i <= len,
            split_parts(path@.take(i as int)) == done.push(path@.subrange(start as int, i as int)),
            all_stay == forall|k: int| 0 <= k < done.len() ==> part_stays(#[trigger] done[k]),
            no_backslash == !path@.take(i as int).contains('\\'),
            named matches Some((a, b)) ==> a <= b <= len && file_name(done) == Some(
                path@.subrange(a as int, b as int),
            ),
            named is None ==> file_name(done) is None,
        decreases len - i,
    {
        let c = path.get_char(i);
        proof {
            split_step(path@, i as int);
            let before = path@.take(i as int);
            let after = path@.take(i + 1);
            assert(after =~= before.push(c));
            assert(after.contains('\\') == (before.contains('\\') || c == '\\')) by {
                if c == '\\' {
                    assert(after[i as int] == c);
                }
                if before.contains('\\') {
                    let j = choose|j: int| 0 <= j < before.len() && before[j] == '\\';
                    assert(after[j] == '\\');
                }
                if after.contains('\\') {
                    let j = choose|j: int| 0 <= j < after.len() && after[j] == '\\';
                    if j < i {
                        assert(before[j] == '\\');
                    }
                }
            }
        }
        if c == '\\' {
            no_backslash = false;
        }
        if c == '/' {
            let stays = part_stays_at(path, start, i);
            let dot = is_dot(path, start, i);
            proof {
                let cur = path@.subrange(start as int, i as int);
                let new_done = done.push(cur);
                assert(new_done.drop_last() =~= done);
                assert(new_done.last() == cur);
                assert((forall|k: int| 0 <= k < new_done.len() ==> part_stays(#[trigger] new_done[k]))
                    == ((forall|k: int| 0 <= k < done.len() ==> part_stays(#[trigger] done[k]))
                    && part_stays(cur))) by {
                    assert(forall|k: int| 0 <= k < done.len() ==> new_done[k] == done[k]);
                }
                done = new_done;
                assert(path@.subrange(i + 1, i + 1) =~= Seq::<char>::empty());
            }
            all_stay = all_stay && stays;
            if !dot {
                named = Some((start, i));
            }
            start = i + 1;
        } else {
            proof {
                assert(path@.subrange(start as int, i + 1) =~= path@.subrange(start as int, i as int).push(c));
            }
        }
        i = i + 1;
    }
    let stays = part_stays_at(path, start, len);
    let dot = is_dot(path, start, len);
    proof {
        assert(path@.take(len as int) =~= path@);
        let cur = path@.subrange(start as int, len as int);
        let parts = done.push(cur);
        assert(parts.drop_last() =~= done);
        assert(parts.last() == cur);
        assert((forall|k: int| 0 <= k < parts.len() ==> part_stays(#[trigger] parts[k]))
            == ((forall|k: int| 0 <= k < done.len() ==> part_stays(#[trigger] done[k]))
            && part_stays(cur))) by {
            assert(forall|k: int| 0 <= k < done.len() ==> parts[k] == done[k]);
        }
    }
    if !no_backslash || !all_stay || !stays {
        return false;
    }
    if !dot {
        named = Some((start, len));
    }
    match named {
        Some((a, b)) => has_extension_at(path, a, b, extension),
        None => false,
    }
}

/// Whether `path` names a `.glb` file inside the models folder.
pub fn is_inside_models(path: &str) -> (inside: bool)
    ensures
        inside == inside_models(path@),
{
    is_inside_folder(path, ".glb")
}

/// Checks that models are listed, and that each is a glTF file inside the
/// models folder.
pub fn check_models(models: &Vec<String>) -> (checked: Result<(), ModelFault>)
    ensures
        checked matches Err(fault) ==> models_fault(models@) == Some(fault),
        checked is Ok <==> models_fault(models@) is None,
{
    if models.len() == 0 {
        return Err(ModelFault::NoModel);
    }
    let ghost outside = |model: String| !inside_models(model@);
    let mut i: usize = 0;
    while i < models.len()
        invariant
            i <= models.len(),
            outside == (|model: String| !inside_models(model@)),
            first_where(models@.take(i as int), outside) is None,
        decreases models.len() - i,
    {
        proof {
            first_where_step(models@, outside, i as nat);
        }
        if !is_inside_models(models[i].as_str()) {
            proof {
                first_where_prefix(models@, outside, (i + 1) as nat);
            }
            return Err(ModelFault::Outside(models[i].clone()));
        }
        i = i + 1;
    }
    proof {
        first_where_prefix(models@, outside, i as nat);
    }
    Ok(())
}

} // verus!
