//! Paths that are made of a directory of this machine and of parts that are text.

use crate::system;
use std::path::PathBuf;
use vstd::prelude::*;

verus! {

/// A path: `base` joined with each of the parts in turn, or where there is no base, the
/// parts alone.
#[derive(Debug, PartialEq, Eq)]
pub struct PathParts {
    pub base: Option<PathBuf>,
    pub parts: Vec<String>,
}

/// A `PathParts`, with its texts as sequences of characters.
pub struct PathPartsView {
    pub base: Option<PathBuf>,
    pub parts: Seq<Seq<char>>,
}

impl DeepView for PathParts {
    type V = PathPartsView;

    open spec fn deep_view(&self) -> PathPartsView {
        PathPartsView { base: self.base, parts: self.parts.deep_view() }
    }
}

impl Clone for PathParts {
    fn clone(&self) -> (copy: Self)
        ensures
            copy.deep_view() == self.deep_view(),
    {
        let base = match &self.base {
            Some(base) => Some(base.clone()),
            None => None,
        };
        PathParts { base, parts: crate::text::copy_texts(&self.parts) }
    }
}

/// Whether `path` is the path that these parts make on this machine.
pub open spec fn is_path_of(parts: PathPartsView, path: PathBuf) -> bool
    decreases parts.parts.len(),
{
    if parts.parts.len() == 0 {
        match parts.base {
            Some(base) => path == base,
            None => system::path_text(path) == Seq::<char>::empty(),
        }
    } else if parts.parts.len() == 1 && parts.base is None {
        system::path_text(path) == parts.parts[0]
    } else {
        exists|front: PathBuf|
            is_path_of(
                PathPartsView { base: parts.base, parts: parts.parts.drop_last() },
                front,
            ) && #[trigger] system::is_joined(front, parts.parts.last(), path)
    }
}

impl PathParts {
    /// The path that the parts make.
    pub fn to_path(&self) -> (path: PathBuf)
        ensures
            is_path_of(self.deep_view(), path),
    {
        let ghost all = self.parts.deep_view();
        let mut i: usize = 0;
        let mut path = match &self.base {
            Some(base) => base.clone(),
            None => if self.parts.len() == 0 {
                system::path_from("")
            } else {
                i = 1;
                system::path_from(self.parts[0].as_str())
            },
        };
        assert(all.take(0) =~= Seq::<Seq<char>>::empty());
        proof {
            reveal_strlit("");
            assert(""@ =~= Seq::<char>::empty());
        }
        while i < self.parts.len()
            invariant
                i <= self.parts.len(),
                self.base is None ==> i > 0 || self.parts.len() == 0,
                all == self.parts.deep_view(),
                is_path_of(PathPartsView { base: self.base, parts: all.take(i as int) }, path),
            decreases self.parts.len() - i,
        {
            let ghost front = path;
            let longer = system::join_path(&path, self.parts[i].as_str());
            proof {
                let parts = PathPartsView { base: self.base, parts: all.take(i + 1) };
                assert(parts.parts.drop_last() =~= all.take(i as int));
                assert(system::is_joined(front, parts.parts.last(), longer));
                assert(is_path_of(parts, longer));
            }
            path = longer;
            i += 1;
        }
        assert(all.take(i as int) =~= all);
        path
    }
}

/// Parts follow one another behind the base: one more part is joined to the path of those
/// before it.
pub proof fn parts_follow_the_base(
    base: PathBuf,
    parts: Seq<Seq<char>>,
    part: Seq<char>,
    path: PathBuf,
)
    ensures
        is_path_of(PathPartsView { base: Some(base), parts: Seq::empty() }, path) <==> path == base,
        is_path_of(PathPartsView { base: Some(base), parts: parts.push(part) }, path) <==> exists|
            front: PathBuf,
        |
            is_path_of(PathPartsView { base: Some(base), parts }, front)
                && #[trigger] system::is_joined(front, part, path),
        is_path_of(PathPartsView { base: None, parts: Seq::empty() }, path) <==> system::path_text(
            path,
        ).len() == 0,
        is_path_of(PathPartsView { base: None, parts: seq![part] }, path) <==> system::path_text(
            path,
        ) == part,
        parts.len() > 0 ==> (is_path_of(PathPartsView { base: None, parts: parts.push(part) }, path)
            <==> exists|front: PathBuf|
            is_path_of(PathPartsView { base: None, parts }, front) && #[trigger] system::is_joined(
                front,
                part,
                path,
            )),
{
    if system::path_text(path).len() == 0 {
        assert(system::path_text(path) =~= Seq::<char>::empty());
    }
    let more = parts.push(part);
    assert(more.drop_last() =~= parts);
    assert(more.last() == part);
    let whole = PathPartsView { base: Some(base), parts: more };
    let bare = PathPartsView { base: None, parts: more };
    if is_path_of(whole, path) {
        let front = choose|front: PathBuf|
            is_path_of(PathPartsView { base: Some(base), parts: more.drop_last() }, front)
                && #[trigger] system::is_joined(front, more.last(), path);
        assert(is_path_of(PathPartsView { base: Some(base), parts }, front)
            && system::is_joined(front, part, path));
    }
    if exists|front: PathBuf|
        is_path_of(PathPartsView { base: Some(base), parts }, front) && #[trigger] system::is_joined(
            front,
            part,
            path,
        ) {
        let front = choose|front: PathBuf|
            is_path_of(PathPartsView { base: Some(base), parts }, front)
                && #[trigger] system::is_joined(front, part, path);
        assert(is_path_of(PathPartsView { base: Some(base), parts: more.drop_last() }, front));
        assert(system::is_joined(front, more.last(), path));
        assert(is_path_of(whole, path));
    }
    if parts.len() > 0 && is_path_of(bare, path) {
        let front = choose|front: PathBuf|
            is_path_of(PathPartsView { base: None, parts: more.drop_last() }, front)
                && #[trigger] system::is_joined(front, more.last(), path);
        assert(is_path_of(PathPartsView { base: None, parts }, front) && system::is_joined(
            front,
            part,
            path,
        ));
    }
    if parts.len() > 0 && exists|front: PathBuf|
        is_path_of(PathPartsView { base: None, parts }, front) && #[trigger] system::is_joined(
            front,
            part,
            path,
        ) {
        let front = choose|front: PathBuf|
            is_path_of(PathPartsView { base: None, parts }, front) && #[trigger] system::is_joined(
                front,
                part,
                path,
            );
        assert(is_path_of(PathPartsView { base: None, parts: more.drop_last() }, front));
        assert(system::is_joined(front, more.last(), path));
        assert(is_path_of(bare, path));
    }
}

} // verus!
