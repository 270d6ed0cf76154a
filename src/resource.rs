use std::borrow::Cow;
use std::borrow::ToOwned;
use vstd::prelude::*;

use crate::content::ReadFromFile;
use crate::timestamp::fingerprint_from;
use crate::timestamp::Timestamp;

verus! {

/// What one read of a file gave: its bytes, and the modification time asked
/// for together with them (`None` where that query failed).
pub struct Snapshot {
    pub bytes: Vec<u8>,
    pub modified: Option<Timestamp>,
}

/// The bytes read for a resource are not valid content of its kind (text
/// that is not UTF-8).
#[derive(Clone, Copy, Debug, PartialEq, Eq, Structural)]
pub struct InvalidContent;

/// A resource as a mathematical value.
pub struct ResourceView<V> {
    /// The current content.
    pub content: V,
    /// For a file-backed resource, its source path and its fingerprint (the
    /// modification time seen at the last read); `None` for an embedded one.
    pub source: Option<(Seq<char>, Timestamp)>,
}

impl<V> ResourceView<V> {
    pub open spec fn embedded(content: V) -> Self {
        ResourceView { content, source: None }
    }

    pub open spec fn file_backed(content: V, path: Seq<char>, modified: Option<Timestamp>) -> Self {
        ResourceView { content, source: Some((path, fingerprint_from(modified))) }
    }

    pub open spec fn is_embedded(self) -> bool {
        self.source is None
    }

    /// The source path of a file-backed resource.
    pub open spec fn path(self) -> Seq<char> {
        match self.source {
            Some((path, _)) => path,
            None => Seq::empty(),
        }
    }

    /// The fingerprint of a file-backed resource.
    pub open spec fn fingerprint(self) -> Timestamp {
        match self.source {
            Some((_, fingerprint)) => fingerprint,
            None => Timestamp::spec_unix_epoch(),
        }
    }

    /// Whether a freshly queried modification time shows the resource stale:
    /// only a file-backed one, only where the query gave a time, and only
    /// where that time differs from the fingerprint.
    pub open spec fn stale(self, modified: Option<Timestamp>) -> bool {
        match (self.source, modified) {
            (Some((_, fingerprint)), Some(t)) => t != fingerprint,
            _ => false,
        }
    }

    /// The resource after a read whose bytes decode to `decoded` and whose
    /// modification time is `modified`: `None` where the bytes are invalid,
    /// and then nothing changes. An embedded resource stays as it is.
    pub open spec fn after_read(self, decoded: Option<V>, modified: Option<Timestamp>) -> Option<
        Self,
    > {
        match self.source {
            None => Some(self),
            Some((path, _)) => match decoded {
                Some(content) => Some(Self::file_backed(content, path, modified)),
                None => None,
            },
        }
    }
}

/// What a file at `path` loads as, for content of kind `C`, where its read
/// gave `bytes` and `modified`; `None` where the bytes are not valid content.
pub open spec fn loaded_view<C: ReadFromFile>(
    path: Seq<char>,
    bytes: Seq<u8>,
    modified: Option<Timestamp>,
) -> Option<ResourceView<C::V>> {
    match C::decode(bytes) {
        Some(content) => Some(ResourceView::file_backed(content, path, modified)),
        None => None,
    }
}

/// Mode parity: a file holding the bytes of some content loads with that
/// content, just as an embedded resource over it holds it.
pub proof fn lemma_mode_parity<C: ReadFromFile>(
    content: C::V,
    path: Seq<char>,
    modified: Option<Timestamp>,
)
    ensures
        loaded_view::<C>(path, C::encode(content), modified) matches Some(v) && v.content
            == ResourceView::<C::V>::embedded(content).content,
{
    C::lemma_decode_encode(content);
}

/// An embedded resource is never stale, and no read changes it.
pub proof fn lemma_embedded_immutable<V>(
    v: ResourceView<V>,
    modified: Option<Timestamp>,
    decoded: Option<V>,
    read_modified: Option<Timestamp>,
)
    requires
        v.is_embedded(),
    ensures
        !v.stale(modified),
        v.after_read(decoded, read_modified) == Some(v),
{
}

/// A file-backed resource is stale once its file shows a modification time
/// later than its fingerprint, and is not while that time is unchanged.
pub proof fn lemma_staleness_detection<V>(v: ResourceView<V>, t: Timestamp)
    requires
        !v.is_embedded(),
    ensures
        t.nanos > v.fingerprint().nanos ==> v.stale(Some(t)),
        !v.stale(Some(v.fingerprint())),
{
}

/// After a read of valid content is committed to a file-backed resource, it
/// holds that content, and the modification time that came with the read no
/// longer shows it stale.
pub proof fn lemma_reload_effect<V>(v: ResourceView<V>, content: V, modified: Option<Timestamp>)
    requires
        !v.is_embedded(),
    ensures
        v.after_read(Some(content), modified) matches Some(w) && w.content == content
            && w.path() == v.path() && !w.stale(modified),
{
}

/// Whether `out` is a result that `f` can give on content whose view is
/// `content`.
pub open spec fn gives<B: ?Sized + View, T, F: Fn(&B) -> T>(f: F, content: B::V, out: T) -> bool {
    exists|c: &B| c@ == content && #[trigger] f.ensures((c,), out)
}

#[verifier::reject_recursive_types(B)]
enum Store<B: ?Sized + ToOwned + 'static> {
    Embedded(&'static B),
    FileBacked { data: B::Owned, path: String, fingerprint: Timestamp },
}

/// A resource (text, `Resource<str>`, or bytes, `Resource<[u8]>`) held in
/// memory.
///
/// An embedded resource refers to data that lives as long as the program and
/// never changes. A file-backed one owns the content read from its source
/// path, with the fingerprint of that read, and can be checked for staleness
/// and reloaded.
#[verifier::reject_recursive_types(B)]
pub struct Resource<B: ?Sized + ToOwned + 'static> {
    store: Store<B>,
}

impl<B> View for Resource<B> where
    B: ?Sized + ToOwned + View + 'static,
    B::Owned: ReadFromFile<Content = B> + View<V = B::V>,
 {
    type V = ResourceView<B::V>;

    closed spec fn view(&self) -> ResourceView<B::V> {
        match self.store {
            Store::Embedded(data) => ResourceView::embedded(data@),
            Store::FileBacked { data, path, fingerprint } => ResourceView {
                content: data@,
                source: Some((path@, fingerprint)),
            },
        }
    }
}

impl<B> Resource<B> where
    B: ?Sized + ToOwned + View + 'static,
    B::Owned: ReadFromFile<Content = B> + View<V = B::V>,
 {
    /// Whether a read that gave `snapshot` takes the resource from `before`
    /// to `after`, `ok` telling whether the bytes were valid content.
    pub open spec fn committed(before: Self, snapshot: Snapshot, after: Self, ok: bool) -> bool {
        match before@.after_read(B::Owned::decode(snapshot.bytes@), snapshot.modified) {
            Some(v) => ok && after@ == v,
            None => !ok && after == before,
        }
    }

    /// Whether a conditional reload, given the modification time `modified`
    /// and a read that gives `snapshot`, takes the resource from `before` to
    /// `after` with outcome `r`. The read is used only where the resource is
    /// stale.
    pub open spec fn conditionally_reloaded(
        before: Self,
        modified: Option<Timestamp>,
        snapshot: Snapshot,
        after: Self,
        r: Result<bool, InvalidContent>,
    ) -> bool {
        &&& match r {
            Ok(reloaded) => reloaded == before@.stale(modified),
            Err(_) => before@.stale(modified),
        }
        &&& !before@.stale(modified) ==> after == before
        &&& before@.stale(modified) ==> Self::committed(before, snapshot, after, r is Ok)
    }

    /// A conditional reload reports a reload exactly where a staleness check
    /// on the same state finds the resource stale; only then does the
    /// resource change, to the content read.
    pub proof fn lemma_conditional_reload(
        before: Self,
        modified: Option<Timestamp>,
        snapshot: Snapshot,
        after: Self,
        r: Result<bool, InvalidContent>,
    )
        requires
            Self::conditionally_reloaded(before, modified, snapshot, after, r),
            B::Owned::decode(snapshot.bytes@) is Some,
        ensures
            r == Ok::<bool, InvalidContent>(before@.stale(modified)),
            before@.stale(modified) ==> Some(after@.content) == B::Owned::decode(snapshot.bytes@),
            !before@.stale(modified) ==> after == before,
    {
        match r {
            Ok(reloaded) => {
                assert(r == Ok::<bool, InvalidContent>(reloaded));
            },
            Err(_) => {},
        }
    }

    /// An embedded resource over data that lives as long as the program.
    pub fn _from_data(data: &'static B) -> (r: Self)
        ensures
            r@ == ResourceView::<B::V>::embedded(data@),
    {
        Resource { store: Store::Embedded(data) }
    }

    /// A file-backed resource from the read of the file at `path`; `None`
    /// where the bytes are not valid content. Where the modification time
    /// could not be read, the fingerprint is the epoch.
    pub fn _from_file(path: String, snapshot: Snapshot) -> (r: Option<Self>)
        ensures
            match r {
                Some(res) => loaded_view::<B::Owned>(path@, snapshot.bytes@, snapshot.modified)
                    == Some(res@),
                None => loaded_view::<B::Owned>(path@, snapshot.bytes@, snapshot.modified) is None,
            },
    {
        let fingerprint = match snapshot.modified {
            Some(t) => t,
            None => Timestamp::unix_epoch(),
        };
        match B::Owned::read_from_file(snapshot.bytes) {
            Some(data) => Some(Resource { store: Store::FileBacked { data, path, fingerprint } }),
            None => None,
        }
    }

    /// The current content.
    pub fn content(&self) -> (r: &B)
        ensures
            r@ == self@.content,
    {
        match &self.store {
            Store::Embedded(data) => data,
            Store::FileBacked { data, .. } => data.as_content(),
        }
    }

    /// The source path of a file-backed resource; `None` for an embedded one.
    pub fn source_path(&self) -> (r: Option<&str>)
        ensures
            match self@.source {
                Some((path, _)) => r matches Some(p) && p@ == path,
                None => r is None,
            },
    {
        match &self.store {
            Store::Embedded(_) => None,
            Store::FileBacked { path, .. } => Some(path.as_str()),
        }
    }

    /// The fingerprint of a file-backed resource; `None` for an embedded one.
    pub fn fingerprint(&self) -> (r: Option<Timestamp>)
        ensures
            match self@.source {
                Some((_, fingerprint)) => r == Some(fingerprint),
                None => r is None,
            },
    {
        match &self.store {
            Store::Embedded(_) => None,
            Store::FileBacked { fingerprint, .. } => Some(*fingerprint),
        }
    }

    /// Returns `true` if the resource has changed since it was loaded, given
    /// the modification time of its source just queried (`None` where the
    /// query failed). An embedded resource never changes.
    pub fn changed(&self, modified: Option<Timestamp>) -> (r: bool)
        ensures
            r == self@.stale(modified),
    {
        match (&self.store, modified) {
            (Store::FileBacked { fingerprint, .. }, Some(t)) => t != *fingerprint,
            _ => false,
        }
    }

    /// Commits a read: content and fingerprint are replaced together, or,
    /// where the bytes are invalid, not at all.
    fn commit(&mut self, snapshot: Snapshot) -> (r: Result<(), InvalidContent>)
        ensures
            Self::committed(*old(self), snapshot, *final(self), r is Ok),
            old(self)@.is_embedded() ==> *final(self) == *old(self),
    {
        match &mut self.store {
            Store::Embedded(_) => Ok(()),
            Store::FileBacked { data, fingerprint, .. } => {
                match B::Owned::read_from_file(snapshot.bytes) {
                    Some(fresh) => {
                        *data = fresh;
                        *fingerprint = match snapshot.modified {
                            Some(t) => t,
                            None => Timestamp::unix_epoch(),
                        };
                        Ok(())
                    },
                    None => Err(InvalidContent),
                }
            },
        }
    }

    /// Reloads the resource: a file-backed one calls `read` once, always, and
    /// commits what it gave; an embedded one does nothing.
    pub fn reload<F: FnOnce() -> Snapshot>(&mut self, read: F) -> (r: Result<(), InvalidContent>)
        requires
            !old(self)@.is_embedded() ==> read.requires(()),
        ensures
            old(self)@.is_embedded() ==> r is Ok && *final(self) == *old(self),
            !old(self)@.is_embedded() ==> exists|s: Snapshot|
                #[trigger] read.ensures((), s) && Self::committed(*old(self), s, *final(self), r is Ok),
    {
        if self.source_path().is_none() {
            return Ok(());
        }
        let snapshot = read();
        self.commit(snapshot)
    }

    /// Reloads the resource only if `modified`, the modification time of its
    /// source just queried, shows it stale; returns `Ok(true)` if it did.
    /// Staleness is decided once, and `read` is called at most once.
    pub fn reload_if_changed<F: FnOnce() -> Snapshot>(
        &mut self,
        modified: Option<Timestamp>,
        read: F,
    ) -> (r: Result<bool, InvalidContent>)
        requires
            old(self)@.stale(modified) ==> read.requires(()),
        ensures
            match r {
                Ok(reloaded) => reloaded == old(self)@.stale(modified),
                Err(_) => old(self)@.stale(modified),
            },
            !old(self)@.stale(modified) ==> *final(self) == *old(self),
            !old(self)@.stale(modified) ==> forall|s: Snapshot|
                #[trigger] Self::conditionally_reloaded(*old(self), modified, s, *final(self), r),
            old(self)@.stale(modified) ==> exists|s: Snapshot|
                #[trigger] read.ensures((), s) && Self::conditionally_reloaded(
                    *old(self),
                    modified,
                    s,
                    *final(self),
                    r,
                ),
    {
        if !self.changed(modified) {
            return Ok(false);
        }
        let snapshot = read();
        match self.commit(snapshot) {
            Ok(()) => Ok(true),
            Err(e) => Err(e),
        }
    }

    /// The result of `f` on the content.
    pub fn transform<T, F: Fn(&B) -> T>(&self, f: F) -> (r: T)
        requires
            forall|c: &B| c@ == self@.content ==> #[trigger] f.requires((c,)),
        ensures
            gives::<B, T, F>(f, self@.content, r),
    {
        f(self.content())
    }

    /// The content as copy-on-write data: borrowed from the program's own
    /// data for an embedded resource, owned for a file-backed one.
    pub fn into_cow(self) -> (r: Cow<'static, B>)
        ensures
            r is Borrowed <==> self@.is_embedded(),
            r matches Cow::Borrowed(b) ==> b@ == self@.content,
            r matches Cow::Owned(o) ==> o@ == self@.content,
    {
        match self.store {
            Store::Embedded(data) => Cow::Borrowed(data),
            Store::FileBacked { data, .. } => Cow::Owned(data),
        }
    }
}

impl<B> Clone for Resource<B> where
    B: ?Sized + ToOwned + View + 'static,
    B::Owned: ReadFromFile<Content = B> + View<V = B::V>,
 {
    /// Copies the reference of an embedded resource; deep-copies the content
    /// of a file-backed one, with its path and fingerprint.
    fn clone(&self) -> (r: Self)
        ensures
            r@ == self@,
            self@.is_embedded() ==> r == *self,
    {
        match &self.store {
            Store::Embedded(data) => Resource { store: Store::Embedded(*data) },
            Store::FileBacked { data, path, fingerprint } => Resource {
                store: Store::FileBacked {
                    data: data.duplicate(),
                    path: path.clone(),
                    fingerprint: *fingerprint,
                },
            },
        }
    }
}

impl<B> std::ops::Deref for Resource<B> where
    B: ?Sized + ToOwned + View + 'static,
    B::Owned: ReadFromFile<Content = B> + View<V = B::V>,
 {
    type Target = B;

    fn deref(&self) -> (r: &B)
        ensures
            r@ == self@.content,
    {
        self.content()
    }
}

impl<B> AsRef<B> for Resource<B> where
    B: ?Sized + ToOwned + View + 'static,
    B::Owned: ReadFromFile<Content = B> + View<V = B::V>,
 {
    fn as_ref(&self) -> (r: &B)
        ensures
            r@ == self@.content,
    {
        self.content()
    }
}

} // verus!
