use std::borrow::ToOwned;
use vstd::prelude::*;

use crate::content::ReadFromFile;
use crate::resource::gives;
use crate::resource::loaded_view;
use crate::resource::Resource;
use crate::resource::ResourceView;
use crate::resource::Snapshot;

verus! {

/// What the read of the file at `file.0` loads as (see `loaded_view`).
pub open spec fn file_view<C: ReadFromFile>(file: (String, Snapshot)) -> Option<ResourceView<C::V>> {
    loaded_view::<C>(file.0@, file.1.bytes@, file.1.modified)
}

/// Whether every file of a batch holds valid content of kind `C`.
pub open spec fn all_valid<C: ReadFromFile>(files: Seq<(String, Snapshot)>) -> bool {
    forall|i: int| 0 <= i < files.len() ==> (#[trigger] file_view::<C>(files[i])) is Some
}

/// Whether `out` holds, position by position, what `f` gave on content
/// whose views are `contents`.
pub open spec fn applied<B: ?Sized + View, T, F: Fn(&B) -> T>(
    contents: Seq<B::V>,
    f: F,
    out: Seq<T>,
) -> bool {
    &&& out.len() == contents.len()
    &&& forall|i: int| 0 <= i < contents.len() ==> gives::<B, T, F>(f, contents[i], #[trigger] out[i])
}

/// Whether `views` are, in order, what each of `files` loads as.
pub open spec fn loaded_in_order<C: ReadFromFile>(
    files: Seq<(String, Snapshot)>,
    views: Seq<ResourceView<C::V>>,
) -> bool {
    &&& views.len() == files.len()
    &&& forall|i: int| 0 <= i < files.len() ==> Some(#[trigger] views[i]) == file_view::<C>(files[i])
}

/// Whether `f` may be called on any content whose view is among `contents`.
pub open spec fn callable_on<B: ?Sized + View, T, F: Fn(&B) -> T>(
    contents: Seq<B::V>,
    f: F,
) -> bool {
    forall|c: &B| contents.contains(c@) ==> #[trigger] f.requires((c,))
}

/// Whether `f` is pure: content with one view always gives one result.
pub open spec fn pure<B: ?Sized + View, T, F: Fn(&B) -> T>(f: F) -> bool {
    forall|a: &B, b: &B, x: T, y: T|
        a@ == b@ && #[trigger] f.ensures((a,), x) && #[trigger] f.ensures((b,), y) ==> x == y
}

/// The contents of the decoded files of a batch, in order.
pub open spec fn file_contents<C: ReadFromFile>(files: Seq<(String, Snapshot)>) -> Seq<C::V> {
    files.map_values(|file: (String, Snapshot)| file_view::<C>(file)->0.content)
}

/// A batch loads, position by position, as each of its files loads alone.
pub proof fn lemma_batch_order<C: ReadFromFile>(
    files: Seq<(String, Snapshot)>,
    batch: Seq<ResourceView<C::V>>,
    i: int,
    single: ResourceView<C::V>,
)
    requires
        loaded_in_order::<C>(files, batch),
        0 <= i < files.len(),
        Some(single) == loaded_view::<C>(files[i].0@, files[i].1.bytes@, files[i].1.modified),
    ensures
        batch[i] == single,
{
}

impl<B> Resource<B> where
    B: ?Sized + ToOwned + View + 'static,
    B::Owned: ReadFromFile<Content = B> + View<V = B::V>,
 {
    /// The views of a sequence of resources.
    pub open spec fn views(resources: Seq<Self>) -> Seq<ResourceView<B::V>> {
        resources.map_values(|r: Self| r@)
    }

    /// The contents of a sequence of resources.
    pub open spec fn contents(resources: Seq<Self>) -> Seq<B::V> {
        resources.map_values(|r: Self| r@.content)
    }

    /// Embedded resources over each of `data`, in order.
    pub fn embed_all(data: &[&'static B]) -> (r: Vec<Self>)
        ensures
            r.len() == data.len(),
            forall|i: int|
                0 <= i < data.len() ==> (#[trigger] r[i])@ == ResourceView::<B::V>::embedded(
                    data[i]@,
                ),
    {
        let mut r: Vec<Self> = Vec::new();
        let mut i: usize = 0;
        while i < data.len()
            invariant
                i <= data.len(),
                r.len() == i,
                forall|j: int|
                    0 <= j < i ==> (#[trigger] r[j])@ == ResourceView::<B::V>::embedded(data[j]@),
            decreases data.len() - i,
        {
            r.push(Self::_from_data(data[i]));
            i += 1;
        }
        r
    }

    /// File-backed resources from the reads of a batch of files, in order;
    /// `None` where any of them is not valid content: a batch loads whole or
    /// not at all.
    pub fn load_all(files: Vec<(String, Snapshot)>) -> (r: Option<Vec<Self>>)
        ensures
            r is Some <==> all_valid::<B::Owned>(files@),
            r matches Some(v) ==> loaded_in_order::<B::Owned>(files@, Self::views(v@)),
    {
        let ghost all = files@;
        let mut r: Vec<Self> = Vec::new();
        for file in it: files
            invariant
                it.seq() == all,
                r.len() == it.index(),
                forall|j: int|
                    0 <= j < it.index() ==> Some((#[trigger] r[j])@) == file_view::<B::Owned>(
                        all[j],
                    ),
        {
            assert(file == all[r.len() as int]);
            let (path, snapshot) = file;
            match Self::_from_file(path, snapshot) {
                Some(res) => r.push(res),
                None => {
                    assert(file_view::<B::Owned>(all[r.len() as int]) is None);
                    return None;
                },
            }
        }
        assert(forall|j: int| 0 <= j < all.len() ==> Some(r[j]@) == file_view::<B::Owned>(all[j]));
        assert(loaded_in_order::<B::Owned>(all, Self::views(r@)));
        Some(r)
    }

    /// The results of `f` on the content of each resource, in order.
    pub fn transform_all<T, F: Fn(&B) -> T>(resources: &Vec<Self>, f: F) -> (r: Vec<T>)
        requires
            callable_on::<B, T, F>(Self::contents(resources@), f),
        ensures
            applied::<B, T, F>(Self::contents(resources@), f, r@),
    {
        let ghost contents = Self::contents(resources@);
        let mut r: Vec<T> = Vec::new();
        let mut i: usize = 0;
        while i < resources.len()
            invariant
                i <= resources.len(),
                contents == Self::contents(resources@),
                callable_on::<B, T, F>(contents, f),
                r.len() == i,
                forall|j: int| 0 <= j < i ==> gives::<B, T, F>(f, contents[j], #[trigger] r@[j]),
            decreases resources.len() - i,
        {
            let c = resources[i].content();
            assert(contents[i as int] == c@);
            assert(contents.contains(c@));
            let out = f(c);
            assert(gives::<B, T, F>(f, contents[i as int], out));
            r.push(out);
            i += 1;
        }
        r
    }

    /// The results of `f` on each of `data`, embedded, in order.
    pub fn embed_all_with<T, F: Fn(&B) -> T>(data: &[&'static B], f: F) -> (r: Vec<T>)
        requires
            callable_on::<B, T, F>(data@.map_values(|d: &'static B| d@), f),
        ensures
            applied::<B, T, F>(data@.map_values(|d: &'static B| d@), f, r@),
    {
        let resources = Self::embed_all(data);
        assert(Self::contents(resources@) =~= data@.map_values(|d: &'static B| d@));
        Self::transform_all(&resources, f)
    }

    /// The results of `f` on the content of each file of a batch, in order;
    /// `None` where any of them is not valid content.
    pub fn load_all_with<T, F: Fn(&B) -> T>(files: Vec<(String, Snapshot)>, f: F) -> (r: Option<
        Vec<T>,
    >)
        requires
            all_valid::<B::Owned>(files@) ==> callable_on::<B, T, F>(
                file_contents::<B::Owned>(files@),
                f,
            ),
        ensures
            r is Some <==> all_valid::<B::Owned>(files@),
            r matches Some(v) ==> applied::<B, T, F>(file_contents::<B::Owned>(files@), f, v@),
    {
        let ghost all = files@;
        match Self::load_all(files) {
            Some(resources) => {
                assert forall|j: int| 0 <= j < all.len() implies #[trigger] Self::contents(
                    resources@,
                )[j] == file_contents::<B::Owned>(all)[j] by {
                    assert(Some(Self::views(resources@)[j]) == file_view::<B::Owned>(all[j]));
                }
                assert(Self::contents(resources@) =~= file_contents::<B::Owned>(all));
                Some(Self::transform_all(&resources, f))
            },
            None => None,
        }
    }

    /// Transforming a batch as it loads gives what loading it and then
    /// transforming each resource in order gives, for a pure transform.
    pub proof fn lemma_transform_batch<T, F: Fn(&B) -> T>(
        files: Seq<(String, Snapshot)>,
        f: F,
        direct: Seq<T>,
        loaded: Seq<Self>,
        mapped: Seq<T>,
    )
        requires
            pure::<B, T, F>(f),
            applied::<B, T, F>(file_contents::<B::Owned>(files), f, direct),
            loaded_in_order::<B::Owned>(files, Self::views(loaded)),
            applied::<B, T, F>(Self::contents(loaded), f, mapped),
        ensures
            direct == mapped,
    {
        assert forall|i: int| 0 <= i < files.len() implies direct[i] == mapped[i] by {
            assert(Some(Self::views(loaded)[i]) == file_view::<B::Owned>(files[i]));
            let x = file_contents::<B::Owned>(files)[i];
            assert(Self::contents(loaded)[i] == x);
            assert(gives::<B, T, F>(f, x, direct[i]));
            assert(gives::<B, T, F>(f, x, mapped[i]));
            let a = choose|c: &B| c@ == x && #[trigger] f.ensures((c,), direct[i]);
            let b = choose|c: &B| c@ == x && #[trigger] f.ensures((c,), mapped[i]);
            assert(f.ensures((a,), direct[i]) && f.ensures((b,), mapped[i]));
        }
        assert(direct =~= mapped);
    }
}

} // verus!
