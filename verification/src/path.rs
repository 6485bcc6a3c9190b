//! File-system paths as the explorer sees them: a root and the names
//! below it. The shell turns platform paths into this form and back, so
//! nothing here depends on a separator.

use crate::text::{bytes_clone, bytes_eq, opt_bytes_view};
use vstd::prelude::*;

verus! {

/// The byte `.`.
pub const DOT: u8 = 46;

/// The byte `/`, which separates the names in a typed relative path.
pub const SLASH: u8 = 47;

/// A path: the text of its root (`/` on POSIX, a drive prefix and root on
/// Windows, empty for a relative path) and the names below it, outermost
/// first.
#[derive(Debug, PartialEq, Eq)]
pub struct FsPath {
    pub root: Vec<u8>,
    pub parts: Vec<Vec<u8>>,
}

/// The mathematical value of a [`FsPath`].
pub struct PathView {
    pub root: Seq<u8>,
    pub parts: Seq<Seq<u8>>,
}

/// The byte strings held by a vector of names.
pub open spec fn names_view(names: Seq<Vec<u8>>) -> Seq<Seq<u8>> {
    Seq::new(names.len(), |i: int| names[i]@)
}

/// The position of the last `.` in `name`, or -1 where it has none.
pub open spec fn last_dot(name: Seq<u8>) -> int
    decreases name.len(),
{
    if name.len() == 0 {
        -1
    } else if name.last() == DOT {
        name.len() - 1
    } else {
        last_dot(name.drop_last())
    }
}

/// The extension of a file name: what follows its last `.`, unless the
/// name has no `.` or only a leading one.
pub open spec fn extension_of(name: Seq<u8>) -> Option<Seq<u8>> {
    let k = last_dot(name);
    if k <= 0 {
        None
    } else {
        Some(name.subrange(k + 1, name.len() as int))
    }
}

/// The names that a typed relative path holds: its runs of bytes
/// between separators, empty runs left out. `run` is the run that has
/// been read so far.
pub open spec fn split_names(text: Seq<u8>, run: Seq<u8>) -> Seq<Seq<u8>>
    decreases text.len(),
{
    if text.len() == 0 {
        if run.len() == 0 {
            Seq::empty()
        } else {
            seq![run]
        }
    } else if text.first() == SLASH {
        if run.len() == 0 {
            split_names(text.drop_first(), Seq::empty())
        } else {
            seq![run] + split_names(text.drop_first(), Seq::empty())
        }
    } else {
        split_names(text.drop_first(), run.push(text.first()))
    }
}

impl PathView {
    /// The path of the entry called `name` in this directory.
    pub open spec fn child(self, name: Seq<u8>) -> PathView {
        PathView { root: self.root, parts: self.parts.push(name) }
    }

    /// This path followed by the names of a typed relative path.
    pub open spec fn descend(self, text: Seq<u8>) -> PathView {
        PathView { root: self.root, parts: self.parts + split_names(text, Seq::empty()) }
    }

    /// The final name of the path. A path that is only a root has none,
    /// and neither has one that ends in `..`.
    pub open spec fn file_name(self) -> Option<Seq<u8>> {
        if self.parts.len() == 0 || self.parts.last() == seq![DOT, DOT] {
            None
        } else {
            Some(self.parts.last())
        }
    }

    /// The directory that holds the path's final name.
    pub open spec fn parent(self) -> Option<PathView> {
        if self.parts.len() == 0 {
            None
        } else {
            Some(PathView { root: self.root, parts: self.parts.drop_last() })
        }
    }

    /// The extension of the path's final name.
    pub open spec fn extension(self) -> Option<Seq<u8>> {
        match self.file_name() {
            Some(name) => extension_of(name),
            None => None,
        }
    }
}

impl View for FsPath {
    type V = PathView;

    open spec fn view(&self) -> PathView {
        PathView { root: self.root@, parts: names_view(self.parts@) }
    }
}

impl DeepView for FsPath {
    type V = PathView;

    open spec fn deep_view(&self) -> PathView {
        self.view()
    }
}

/// The value of an optional path.
pub open spec fn opt_path_view(path: Option<FsPath>) -> Option<PathView> {
    match path {
        Some(path) => Some(path@),
        None => None,
    }
}

impl Clone for FsPath {
    fn clone(&self) -> (copy: Self)
        ensures
            copy@ == self@,
    {
        let mut parts: Vec<Vec<u8>> = Vec::new();
        let mut i: usize = 0;
        while i < self.parts.len()
            invariant
                i <= self.parts.len(),
                parts.len() == i,
                forall|j: int| 0 <= j < i ==> parts@[j]@ == self.parts@[j]@,
            decreases self.parts.len() - i,
        {
            parts.push(bytes_clone(self.parts[i].as_slice()));
            i += 1;
        }
        assert(names_view(parts@) =~= names_view(self.parts@));
        FsPath { root: bytes_clone(self.root.as_slice()), parts }
    }
}

/// The position of the last `.` in `name`, if it has one.
pub fn find_last_dot(name: &[u8]) -> (at: Option<usize>)
    ensures
        match at {
            Some(k) => last_dot(name@) == k && k < name@.len(),
            None => last_dot(name@) == -1,
        },
{
    let mut end: usize = name.len();
    assert(name@.take(end as int) =~= name@);
    while end > 0
        invariant
            end <= name.len(),
            last_dot(name@) == last_dot(name@.take(end as int)),
        decreases end,
    {
        let ghost head = name@.take(end as int);
        assert(head.last() == name@[end - 1]);
        assert(head.drop_last() =~= name@.take(end - 1));
        if name[end - 1] == DOT {
            return Some(end - 1);
        }
        end -= 1;
    }
    None
}

/// The extension of a file name, if it has one.
pub fn extension_of_name(name: &[u8]) -> (extension: Option<Vec<u8>>)
    ensures
        opt_bytes_view(extension) == extension_of(name@),
{
    match find_last_dot(name) {
        Some(k) => {
            if k == 0 {
                None
            } else {
                let mut extension: Vec<u8> = Vec::new();
                let end: usize = name.len();
                let mut i: usize = k + 1;
                while i < end
                    invariant
                        k + 1 <= i <= end == name@.len(),
                        extension@ == name@.subrange(k + 1, i as int),
                    decreases end - i,
                {
                    extension.push(name[i]);
                    assert(name@.subrange(k + 1, i + 1) =~= name@.subrange(k + 1, i as int).push(
                        name@[i as int],
                    ));
                    i += 1;
                }
                Some(extension)
            }
        },
        None => None,
    }
}

impl FsPath {
    /// The path with the given root and names.
    pub fn new(root: Vec<u8>, parts: Vec<Vec<u8>>) -> (path: FsPath)
        ensures
            path@ == (PathView { root: root@, parts: names_view(parts@) }),
    {
        FsPath { root, parts }
    }

    /// Whether two paths have the same root and the same names.
    pub fn same_as(&self, other: &FsPath) -> (same: bool)
        ensures
            same == (self@ == other@),
    {
        if !bytes_eq(self.root.as_slice(), other.root.as_slice()) {
            return false;
        }
        if self.parts.len() != other.parts.len() {
            assert(names_view(self.parts@).len() != names_view(other.parts@).len());
            return false;
        }
        let mut i: usize = 0;
        while i < self.parts.len()
            invariant
                self.parts.len() == other.parts.len(),
                i <= self.parts.len(),
                forall|j: int| 0 <= j < i ==> self.parts@[j]@ == other.parts@[j]@,
            decreases self.parts.len() - i,
        {
            if !bytes_eq(self.parts[i].as_slice(), other.parts[i].as_slice()) {
                assert(names_view(self.parts@)[i as int] != names_view(other.parts@)[i as int]);
                return false;
            }
            i += 1;
        }
        assert(names_view(self.parts@) =~= names_view(other.parts@));
        true
    }

    /// The path of the entry called `name` in this directory.
    pub fn join(&self, name: &[u8]) -> (path: FsPath)
        ensures
            path@ == self@.child(name@),
    {
        let mut path = self.clone();
        path.parts.push(bytes_clone(name));
        assert(names_view(path.parts@) =~= self@.parts.push(name@));
        path
    }

    /// The final name of the path, if it has one.
    pub fn file_name(&self) -> (name: Option<Vec<u8>>)
        ensures
            opt_bytes_view(name) == self@.file_name(),
    {
        let n: usize = self.parts.len();
        if n == 0 {
            return None;
        }
        let last = &self.parts[n - 1];
        assert(names_view(self.parts@).last() == last@);
        if last.len() == 2 && last[0] == DOT && last[1] == DOT {
            assert(last@ =~= seq![DOT, DOT]);
            return None;
        }
        assert(last@ != seq![DOT, DOT]) by {
            if last@ == seq![DOT, DOT] {
                assert(seq![DOT, DOT].len() == 2);
                assert(seq![DOT, DOT][0] == DOT);
                assert(seq![DOT, DOT][1] == DOT);
            }
        }
        Some(bytes_clone(last.as_slice()))
    }

    /// The extension of the path's final name, if it has one.
    pub fn extension(&self) -> (extension: Option<Vec<u8>>)
        ensures
            opt_bytes_view(extension) == self@.extension(),
    {
        match self.file_name() {
            Some(name) => extension_of_name(name.as_slice()),
            None => None,
        }
    }

    /// This path followed by the names of the typed relative path
    /// `text`: its runs of bytes between separators, empty runs left
    /// out.
    pub fn descend(&self, text: &[u8]) -> (path: FsPath)
        ensures
            path@ == self@.descend(text@),
    {
        let mut path = self.clone();
        let mut run: Vec<u8> = Vec::new();
        let mut i: usize = 0;
        assert(text@.skip(0) =~= text@);
        assert(self@.parts + Seq::<Seq<u8>>::empty() =~= self@.parts);
        while i < text.len()
            invariant
                i <= text.len(),
                path.root@ == self.root@,
                self@.parts + split_names(text@, Seq::empty()) == names_view(path.parts@)
                    + split_names(text@.skip(i as int), run@),
            decreases text.len() - i,
        {
            let ghost rest = text@.skip(i as int);
            let ghost parts = names_view(path.parts@);
            assert(rest.first() == text@[i as int]);
            assert(rest.drop_first() =~= text@.skip(i + 1));
            if text[i] == SLASH {
                if run.len() > 0 {
                    let ghost name = run@;
                    path.parts.push(run);
                    run = Vec::new();
                    assert(names_view(path.parts@) =~= parts.push(name));
                    assert(parts + (seq![name] + split_names(text@.skip(i + 1), Seq::empty()))
                        =~= parts.push(name) + split_names(text@.skip(i + 1), Seq::empty()));
                }
                assert(run@ =~= Seq::<u8>::empty());
            } else {
                run.push(text[i]);
            }
            i += 1;
        }
        let ghost parts = names_view(path.parts@);
        if run.len() > 0 {
            let ghost name = run@;
            path.parts.push(run);
            assert(names_view(path.parts@) =~= parts + seq![name]);
        } else {
            assert(parts + Seq::<Seq<u8>>::empty() =~= parts);
        }
        path
    }

    /// The directory that holds the path's final name, if it has one.
    pub fn parent(&self) -> (dir: Option<FsPath>)
        ensures
            opt_path_view(dir) == self@.parent(),
    {
        if self.parts.len() == 0 {
            return None;
        }
        let mut dir = self.clone();
        dir.parts.pop();
        assert(names_view(dir.parts@) =~= self@.parts.drop_last());
        Some(dir)
    }
}

} // verus!
