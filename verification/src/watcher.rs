//! The changes that the change feed reports, reduced to what the engine
//! acts on.

use vstd::prelude::*;

verus! {

/// A change to a file of the source directory; holds the file's path.
#[derive(Debug, PartialEq, Eq)]
pub enum FileEvent {
    Created(String),
    Modified(String),
    Removed(String),
}

/// A `FileEvent` as a mathematical value.
pub enum FileEventView {
    Created(Seq<char>),
    Modified(Seq<char>),
    Removed(Seq<char>),
}

impl View for FileEvent {
    type V = FileEventView;

    open spec fn view(&self) -> FileEventView {
        match *self {
            FileEvent::Created(p) => FileEventView::Created(p@),
            FileEvent::Modified(p) => FileEventView::Modified(p@),
            FileEvent::Removed(p) => FileEventView::Removed(p@),
        }
    }
}

impl Clone for FileEvent {
    fn clone(&self) -> (r: FileEvent)
        ensures
            r@ == self@,
    {
        match self {
            FileEvent::Created(p) => FileEvent::Created(p.clone()),
            FileEvent::Modified(p) => FileEvent::Modified(p.clone()),
            FileEvent::Removed(p) => FileEvent::Removed(p.clone()),
        }
    }
}

/// What the change feed says has happened.
#[derive(Debug, Clone, Copy, PartialEq, Eq, Structural)]
pub enum ChangeKind {
    Create,
    Modify,
    Remove,
    /// Anything else: an access, a change that cannot be told.
    Other,
}

/// The event that a report of the change feed stands for: the report's
/// first path, under the kind of change. A report without a path, one about
/// a directory, and one of any other kind stand for none.
pub open spec fn event_of(kind: ChangeKind, paths: Seq<Seq<char>>, first_is_dir: bool) -> Option<
    FileEventView,
> {
    if paths.len() == 0 || first_is_dir {
        None
    } else {
        match kind {
            ChangeKind::Create => Some(FileEventView::Created(paths[0])),
            ChangeKind::Modify => Some(FileEventView::Modified(paths[0])),
            ChangeKind::Remove => Some(FileEventView::Removed(paths[0])),
            ChangeKind::Other => None,
        }
    }
}

impl FileEvent {
    /// The path of the file that changed.
    pub fn path(&self) -> (p: &str)
        ensures
            p@ == match self@ {
                FileEventView::Created(q) => q,
                FileEventView::Modified(q) => q,
                FileEventView::Removed(q) => q,
            },
    {
        match self {
            FileEvent::Created(p) => p.as_str(),
            FileEvent::Modified(p) => p.as_str(),
            FileEvent::Removed(p) => p.as_str(),
        }
    }

    /// Whether the file is to be synchronized: it was created or modified.
    /// Removals are not carried over to the drives.
    pub fn wants_sync(&self) -> (r: bool)
        ensures
            r == !(self@ is Removed),
    {
        match self {
            FileEvent::Removed(_) => false,
            _ => true,
        }
    }
}

/// The event that a report of the change feed stands for. `first_is_dir`
/// says whether the report's first path is a directory, which the caller
/// has looked up.
pub fn convert_event(kind: ChangeKind, paths: &Vec<String>, first_is_dir: bool) -> (r: Option<
    FileEvent,
>)
    ensures
        match r {
            Some(e) => event_of(kind, crate::config::strings(paths@), first_is_dir) == Some(e@),
            None => event_of(kind, crate::config::strings(paths@), first_is_dir) is None,
        },
{
    if paths.len() == 0 || first_is_dir {
        return None;
    }
    let path = paths[0].clone();
    assert(crate::config::strings(paths@)[0] == paths@[0]@);
    match kind {
        ChangeKind::Create => Some(FileEvent::Created(path)),
        ChangeKind::Modify => Some(FileEvent::Modified(path)),
        ChangeKind::Remove => Some(FileEvent::Removed(path)),
        ChangeKind::Other => None,
    }
}

} // verus!
