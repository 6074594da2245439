//! Raw change records, semantic events and the mapping between them.

use vstd::prelude::*;

verus! {

/// How a file was opened or closed, as far as the backend tells.
#[derive(Clone, Copy, Debug, PartialEq, Eq)]
pub enum AccessMode {
    Any,
    Execute,
    Read,
    Write,
    Other,
}

/// Detail of an access notification.
#[derive(Clone, Copy, Debug, PartialEq, Eq)]
pub enum AccessKind {
    Any,
    Read,
    Open(AccessMode),
    Close(AccessMode),
    Other,
}

/// Detail of a creation notification.
#[derive(Clone, Copy, Debug, PartialEq, Eq)]
pub enum CreateKind {
    Any,
    File,
    Folder,
    Other,
}

/// Which part of a file's data changed.
#[derive(Clone, Copy, Debug, PartialEq, Eq)]
pub enum DataChange {
    Any,
    Size,
    Content,
    Other,
}

/// Which part of a file's metadata changed.
#[derive(Clone, Copy, Debug, PartialEq, Eq)]
pub enum MetadataKind {
    Any,
    AccessTime,
    WriteTime,
    Permissions,
    Ownership,
    Extended,
    Other,
}

/// Which side of a rename a notification describes.
#[derive(Clone, Copy, Debug, PartialEq, Eq)]
pub enum RenameMode {
    Any,
    To,
    From,
    Both,
    Other,
}

/// Detail of a modification notification.
#[derive(Clone, Copy, Debug, PartialEq, Eq)]
pub enum ModifyKind {
    Any,
    Data(DataChange),
    Metadata(MetadataKind),
    Name(RenameMode),
    Other,
}

/// Detail of a removal notification.
#[derive(Clone, Copy, Debug, PartialEq, Eq)]
pub enum RemoveKind {
    Any,
    File,
    Folder,
    Other,
}

/// The kind of a raw notification, exactly as the watch backend reported it.
#[derive(Clone, Copy, Debug, PartialEq, Eq)]
pub enum RawKind {
    /// The backend could not tell what happened.
    Any,
    Access(AccessKind),
    Create(CreateKind),
    Modify(ModifyKind),
    Remove(RemoveKind),
    /// Something the backend knows about but that fits no other kind.
    Other,
}

/// The five classes into which raw kinds fall. Coalescing and classification
/// look at the class only; the full raw kind is carried along.
#[derive(Clone, Copy, Debug, PartialEq, Eq, Structural)]
pub enum KindClass {
    Create,
    Remove,
    Modify,
    Access,
    /// Unrecognized: `RawKind::Any` and `RawKind::Other`.
    Other,
}

impl RawKind {
    /// The class of a raw kind.
    pub open spec fn class(self) -> KindClass {
        match self {
            RawKind::Create(_) => KindClass::Create,
            RawKind::Remove(_) => KindClass::Remove,
            RawKind::Modify(_) => KindClass::Modify,
            RawKind::Access(_) => KindClass::Access,
            RawKind::Any => KindClass::Other,
            RawKind::Other => KindClass::Other,
        }
    }

    /// Computes [`RawKind::class`].
    pub fn kind_class(&self) -> (c: KindClass)
        ensures
            c == self.class(),
    {
        match self {
            RawKind::Create(_) => KindClass::Create,
            RawKind::Remove(_) => KindClass::Remove,
            RawKind::Modify(_) => KindClass::Modify,
            RawKind::Access(_) => KindClass::Access,
            RawKind::Any => KindClass::Other,
            RawKind::Other => KindClass::Other,
        }
    }
}

/// One raw change record: what the backend saw, and on which paths.
#[derive(Clone, Debug, PartialEq, Eq)]
pub struct RawRecord {
    pub kind: RawKind,
    pub paths: Vec<String>,
}

/// Mathematical model of a [`RawRecord`].
pub struct RawRecordView {
    pub kind: RawKind,
    pub paths: Seq<Seq<char>>,
}

impl DeepView for RawRecord {
    type V = RawRecordView;

    open spec fn deep_view(&self) -> RawRecordView {
        RawRecordView { kind: self.kind, paths: self.paths.deep_view() }
    }
}

impl View for RawRecord {
    type V = RawRecordView;

    open spec fn view(&self) -> RawRecordView {
        self.deep_view()
    }
}

/// A settled, semantic file-system event.
#[derive(Clone, Debug, PartialEq, Eq)]
pub enum FileSystemEvent {
    Created(String),
    Deleted(String),
    Modified(String),
    /// A rename from the first path to the second. Classification never
    /// produces it; it is there for consumers that pair renames themselves.
    Renamed(String, String),
    /// Informational or unrecognized: the raw kind and all paths of the record.
    Other(RawKind, Vec<String>),
}

/// Mathematical model of a [`FileSystemEvent`].
pub enum EventView {
    Created(Seq<char>),
    Deleted(Seq<char>),
    Modified(Seq<char>),
    Renamed(Seq<char>, Seq<char>),
    Other(RawKind, Seq<Seq<char>>),
}

impl DeepView for FileSystemEvent {
    type V = EventView;

    open spec fn deep_view(&self) -> EventView {
        match self {
            FileSystemEvent::Created(p) => EventView::Created(p@),
            FileSystemEvent::Deleted(p) => EventView::Deleted(p@),
            FileSystemEvent::Modified(p) => EventView::Modified(p@),
            FileSystemEvent::Renamed(from, to) => EventView::Renamed(from@, to@),
            FileSystemEvent::Other(kind, paths) => EventView::Other(*kind, paths.deep_view()),
        }
    }
}

impl View for FileSystemEvent {
    type V = EventView;

    open spec fn view(&self) -> EventView {
        self.deep_view()
    }
}

impl EventView {
    /// Whether the event names `path` anywhere.
    pub open spec fn mentions(self, path: Seq<char>) -> bool {
        match self {
            EventView::Created(p) => p == path,
            EventView::Deleted(p) => p == path,
            EventView::Modified(p) => p == path,
            EventView::Renamed(from, to) => from == path || to == path,
            EventView::Other(_, paths) => paths.contains(path),
        }
    }
}

/// The event for a change of class `class` to `path`, for the three classes
/// whose events name one path.
pub open spec fn change_event(class: KindClass, path: Seq<char>) -> Option<EventView> {
    match class {
        KindClass::Create => Some(EventView::Created(path)),
        KindClass::Remove => Some(EventView::Deleted(path)),
        KindClass::Modify => Some(EventView::Modified(path)),
        KindClass::Access => None,
        KindClass::Other => None,
    }
}

/// The event that a record of kind `kind` on `paths` stands for: none if the
/// record names no path, else one event chosen by the class of `kind`. The
/// single-path events name the first path only.
pub open spec fn classify_spec(kind: RawKind, paths: Seq<Seq<char>>) -> Option<EventView> {
    if paths.len() == 0 {
        None
    } else {
        Some(
            match kind.class() {
                KindClass::Create => EventView::Created(paths[0]),
                KindClass::Remove => EventView::Deleted(paths[0]),
                KindClass::Modify => EventView::Modified(paths[0]),
                KindClass::Access => EventView::Other(kind, paths),
                KindClass::Other => EventView::Other(kind, paths),
            },
        )
    }
}

/// Maps one settled raw record to its semantic event.
pub fn classify(kind: RawKind, paths: Vec<String>) -> (event: Option<FileSystemEvent>)
    ensures
        event.deep_view() == classify_spec(kind, paths.deep_view()),
{
    if paths.len() == 0 {
        return None;
    }
    match kind.kind_class() {
        KindClass::Create => {
            let mut rest = paths;
            let first = rest.swap_remove(0);
            Some(FileSystemEvent::Created(first))
        },
        KindClass::Remove => {
            let mut rest = paths;
            let first = rest.swap_remove(0);
            Some(FileSystemEvent::Deleted(first))
        },
        KindClass::Modify => {
            let mut rest = paths;
            let first = rest.swap_remove(0);
            Some(FileSystemEvent::Modified(first))
        },
        KindClass::Access => Some(FileSystemEvent::Other(kind, paths)),
        KindClass::Other => Some(FileSystemEvent::Other(kind, paths)),
    }
}

/// The events of a batch of settled records, in the order of the batch.
/// Records that name no path contribute nothing.
pub open spec fn events_of(batch: Seq<RawRecordView>) -> Seq<EventView>
    decreases batch.len(),
{
    if batch.len() == 0 {
        Seq::empty()
    } else {
        let earlier = events_of(batch.drop_last());
        match classify_spec(batch.last().kind, batch.last().paths) {
            Some(event) => earlier.push(event),
            None => earlier,
        }
    }
}

/// Where every record names a path, every record gives one event, at its
/// own place.
pub proof fn lemma_events_one_for_one(batch: Seq<RawRecordView>)
    requires
        forall|i: int| 0 <= i < batch.len() ==> (#[trigger] batch[i]).paths.len() > 0,
    ensures
        events_of(batch).len() == batch.len(),
        forall|i: int|
            0 <= i < batch.len() ==> Some(#[trigger] events_of(batch)[i]) == classify_spec(
                batch[i].kind,
                batch[i].paths,
            ),
    decreases batch.len(),
{
    if batch.len() > 0 {
        let front = batch.drop_last();
        lemma_events_one_for_one(front);
    }
}

/// Classifies a whole batch, keeping its order.
pub fn classify_batch(batch: Vec<RawRecord>) -> (events: Vec<FileSystemEvent>)
    ensures
        events.deep_view() == events_of(batch.deep_view()),
{
    let ghost all = batch.deep_view();
    let ghost items = batch@;
    let mut events: Vec<FileSystemEvent> = Vec::new();
    for record in it: batch.into_iter()
        invariant
            it.seq() == items,
            all == Seq::new(items.len(), |i: int| items[i].deep_view()),
            events.deep_view() == events_of(all.take(it.index() as int)),
    {
        let ghost done = all.take(it.index() as int);
        let ghost next = all.take(it.index() + 1);
        assert(next.drop_last() =~= done);
        match classify(record.kind, record.paths) {
            Some(event) => {
                events.push(event);
            },
            None => {},
        }
    }
    assert(all.take(all.len() as int) =~= all);
    events
}

} // verus!
