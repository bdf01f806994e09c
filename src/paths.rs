//! Path text operations taken from `std::path`, and the stem/extension split.

use vstd::prelude::*;
use vstd::string::StrSliceExecFns;

verus! {

pub uninterp spec fn joined_path(base: Seq<char>, p: Seq<char>) -> Seq<char>;

pub uninterp spec fn absolute_path(p: Seq<char>) -> bool;

pub uninterp spec fn parent_of(p: Seq<char>) -> Option<Seq<char>>;

pub uninterp spec fn file_name_of(p: Seq<char>) -> Option<Seq<char>>;

/// Relies on `Path::join`: `p` appended to `base` as a further component
/// (or `p` itself when it is absolute), as text.
#[verifier::external_body]
pub(crate) fn join_path(base: &str, p: &str) -> (r: String)
    ensures
        r@ == joined_path(base@, p@),
{
    std::path::Path::new(base).join(p).to_string_lossy().into_owned()
}

/// Relies on `Path::is_absolute`: whether the path is independent of the
/// current directory.
#[verifier::external_body]
pub(crate) fn is_absolute(p: &str) -> (r: bool)
    ensures
        r == absolute_path(p@),
{
    std::path::Path::new(p).is_absolute()
}

/// Relies on `Path::parent`: the path without its final component, or `None`
/// for a root or an empty path.
#[verifier::external_body]
pub(crate) fn parent(p: &str) -> (r: Option<String>)
    ensures
        r.is_some() == parent_of(p@).is_some(),
        r.is_some() ==> r.unwrap()@ == parent_of(p@).unwrap(),
{
    std::path::Path::new(p).parent().map(|q| q.to_string_lossy().into_owned())
}

/// Relies on `Path::file_name`: the final component, or `None` when the path
/// ends in `..` or has no component.
#[verifier::external_body]
pub(crate) fn file_name(p: &str) -> (r: Option<String>)
    ensures
        r.is_some() == file_name_of(p@).is_some(),
        r.is_some() ==> r.unwrap()@ == file_name_of(p@).unwrap(),
{
    std::path::Path::new(p).file_name().map(|n| n.to_string_lossy().into_owned())
}

/// Position of the last '.' in `name`, if any.
pub open spec fn last_dot(name: Seq<char>) -> Option<int>
    decreases name.len(),
{
    if name.len() == 0 {
        None
    } else if name.last() == '.' {
        Some(name.len() - 1)
    } else {
        last_dot(name.drop_last())
    }
}

/// Splits a file name into (stem, extension) as `Path::file_stem` and
/// `Path::extension` do: no extension when the name has no '.', or when its
/// only '.' is the first character, or when it is "..".
pub open spec fn stem_and_extension(name: Seq<char>) -> (Seq<char>, Option<Seq<char>>) {
    if name == seq!['.', '.'] {
        (name, None)
    } else {
        match last_dot(name) {
            None => (name, None),
            Some(k) => if k == 0 {
                (name, None)
            } else {
                (name.subrange(0, k), Some(name.subrange(k + 1, name.len() as int)))
            },
        }
    }
}

proof fn lemma_last_dot_bounds(name: Seq<char>)
    ensures
        last_dot(name) matches Some(k) ==> 0 <= k < name.len() && name[k] == '.' && forall|j: int|
            k < j < name.len() ==> name[j] != '.',
        last_dot(name) is None ==> forall|j: int| 0 <= j < name.len() ==> name[j] != '.',
    decreases name.len(),
{
    if name.len() > 0 && name.last() != '.' {
        let d = name.drop_last();
        lemma_last_dot_bounds(d);
        assert forall|j: int| 0 <= j < d.len() implies d[j] == name[j] by {}
    }
}

/// The stem and, if there is one, the extension of a file name.
pub fn split_extension(name: &str) -> (r: (String, Option<String>))
    ensures
        r.0@ == stem_and_extension(name@).0,
        r.1 matches Some(e) ==> stem_and_extension(name@).1 == Some(e@),
        r.1 is None ==> stem_and_extension(name@).1 is None,
{
    let n = name.unicode_len();
    let mut i: usize = n;
    assert(name@.subrange(0, n as int) =~= name@);
    while i > 0 && name.get_char(i - 1) != '.'
        invariant
            n == name@.len(),
            i <= n,
            last_dot(name@) == last_dot(name@.subrange(0, i as int)),
        decreases i,
    {
        assert(name@.subrange(0, i as int).drop_last() =~= name@.subrange(0, i - 1));
        i = i - 1;
    }
    assert(name@.subrange(0, n as int) =~= name@);
    proof {
        lemma_last_dot_bounds(name@);
    }
    let whole = name.substring_char(0, n);
    let is_dotdot = n == 2 && name.get_char(0) == '.' && name.get_char(1) == '.';
    if is_dotdot {
        assert(name@ =~= seq!['.', '.']);
    } else if n == 2 {
        assert(name@ != seq!['.', '.']);
    } else {
        assert(name@.len() != 2);
    }
    if i == 0 {
        proof {
            assert(name@.subrange(0, 0) =~= Seq::<char>::empty());
        }
        (whole.to_owned(), None)
    } else if is_dotdot || i == 1 {
        proof {
            let s = name@.subrange(0, i as int);
            assert(s.last() == '.');
        }
        (whole.to_owned(), None)
    } else {
        proof {
            let s = name@.subrange(0, i as int);
            assert(s.last() == '.');
            assert(last_dot(name@) == Some(i - 1));
        }
        let stem = name.substring_char(0, i - 1);
        let ext = name.substring_char(i, n);
        (stem.to_owned(), Some(ext.to_owned()))
    }
}

} // verus!
