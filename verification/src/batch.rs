//! The files of one run and their division into batches.

use vstd::prelude::*;
use crate::text::strip_text_prefix;

verus! {

/// The marker that a hidden file's name begins with.
pub const HIDDEN_MARKER: &'static str = ".";

/// A file as the contracts see it.
pub struct FileModel {
    /// Where the file lies. Two entries are the same file when their paths
    /// are equal.
    pub path: Seq<char>,
    /// The last component of the path.
    pub name: Seq<char>,
}

/// One entry of a directory listing as the contracts see it.
pub struct ListingModel {
    pub path: Seq<char>,
    pub name: Option<Seq<char>>,
    pub is_dir: bool,
}

/// A file that takes part in the run.
#[derive(Debug, PartialEq, Eq)]
pub struct FileEntry {
    /// Where the file lies.
    pub path: String,
    /// The last component of the path.
    pub name: String,
}

/// One entry of the listing of the target directory.
#[derive(Debug, PartialEq, Eq)]
pub struct ListingEntry {
    /// Where the entry lies.
    pub path: String,
    /// The last component of the path, where it is valid text.
    pub name: Option<String>,
    /// Whether the entry is a directory.
    pub is_dir: bool,
}

impl View for FileEntry {
    type V = FileModel;

    open spec fn view(&self) -> FileModel {
        FileModel { path: self.path@, name: self.name@ }
    }
}

impl DeepView for FileEntry {
    type V = FileModel;

    open spec fn deep_view(&self) -> FileModel {
        self@
    }
}

impl View for ListingEntry {
    type V = ListingModel;

    open spec fn view(&self) -> ListingModel {
        ListingModel {
            path: self.path@,
            name: match self.name {
                Some(name) => Some(name@),
                None => None,
            },
            is_dir: self.is_dir,
        }
    }
}

impl DeepView for ListingEntry {
    type V = ListingModel;

    open spec fn deep_view(&self) -> ListingModel {
        self@
    }
}

/// Whether a name marks its file as hidden.
pub open spec fn is_hidden_name(name: Seq<char>) -> bool {
    HIDDEN_MARKER@.is_prefix_of(name)
}

/// Whether an entry of the listing takes part in the run: it is no
/// directory, its name is valid text, and the name is not that of a hidden
/// file.
pub open spec fn is_eligible(entry: ListingModel) -> bool {
    &&& !entry.is_dir
    &&& entry.name is Some
    &&& !is_hidden_name(entry.name->0)
}

/// The file that an eligible entry of the listing stands for.
pub open spec fn file_of(entry: ListingModel) -> FileModel {
    FileModel { path: entry.path, name: entry.name->0 }
}

/// The files of a listing that take part in the run, in the listing's order.
pub open spec fn eligible_of(listing: Seq<ListingModel>) -> Seq<FileModel> {
    listing.filter(|entry: ListingModel| is_eligible(entry)).map_values(
        |entry: ListingModel| file_of(entry),
    )
}

/// `files` cut into consecutive batches of `size` files; the last batch
/// holds what is left and may be smaller.
pub open spec fn batches_of<T>(files: Seq<T>, size: nat) -> Seq<Seq<T>>
    recommends
        size > 0,
    decreases files.len(),
{
    if files.len() == 0 || size == 0 {
        Seq::empty()
    } else if files.len() <= size {
        seq![files]
    } else {
        seq![files.take(size as int)] + batches_of(files.skip(size as int), size)
    }
}

impl FileEntry {
    /// The entry for the file at `path` with the name `name`.
    pub fn new(path: &str, name: &str) -> (entry: FileEntry)
        ensures
            entry@ == (FileModel { path: path@, name: name@ }),
    {
        FileEntry { path: String::from_str(path), name: String::from_str(name) }
    }

    /// A second entry for the same file.
    pub fn duplicate(&self) -> (entry: FileEntry)
        ensures
            entry@ == self@,
    {
        FileEntry { path: self.path.clone(), name: self.name.clone() }
    }
}

/// Whether `name` is the name of a hidden file.
pub fn hidden_name(name: &str) -> (hidden: bool)
    ensures
        hidden == is_hidden_name(name@),
{
    strip_text_prefix(name, HIDDEN_MARKER).is_some()
}

/// Whether an entry of the listing takes part in the run.
pub fn eligible(entry: &ListingEntry) -> (yes: bool)
    ensures
        yes == is_eligible(entry@),
{
    if entry.is_dir {
        return false;
    }
    match &entry.name {
        Some(name) => !hidden_name(name.as_str()),
        None => false,
    }
}

/// The files of a listing that take part in the run: directories, entries
/// whose name is no valid text and hidden files are left out; the others
/// keep the listing's order.
pub fn eligible_files(listing: &Vec<ListingEntry>) -> (files: Vec<FileEntry>)
    ensures
        files.deep_view() == eligible_of(listing.deep_view()),
{
    let mut files: Vec<FileEntry> = Vec::new();
    let mut i: usize = 0;
    assert(listing.deep_view().take(0) =~= Seq::empty());
    assert(files.deep_view() =~= Seq::empty());
    assert(eligible_of(Seq::empty()) =~= Seq::empty());
    while i < listing.len()
        invariant
            i <= listing.len(),
            files.deep_view() == eligible_of(listing.deep_view().take(i as int)),
        decreases listing.len() - i,
    {
        let entry = &listing[i];
        let ghost before = files.deep_view();
        proof {
            lemma_eligible_of_push(listing.deep_view().take(i as int), entry@);
            assert(listing.deep_view().take(i + 1) =~= listing.deep_view().take(i as int).push(
                entry@,
            ));
        }
        if eligible(entry) {
            match &entry.name {
                Some(name) => {
                    files.push(FileEntry { path: entry.path.clone(), name: name.clone() });
                    assert(files.deep_view() =~= before.push(file_of(entry@)));
                },
                None => {},
            }
        }
        i = i + 1;
    }
    assert(listing.deep_view().take(i as int) =~= listing.deep_view());
    files
}

/// The names of a batch's files, in the batch's order.
pub fn batch_filenames(batch: &Vec<FileEntry>) -> (names: Vec<String>)
    ensures
        names.deep_view() == batch.deep_view().map_values(|file: FileModel| file.name),
{
    let mut names: Vec<String> = Vec::new();
    let mut i: usize = 0;
    while i < batch.len()
        invariant
            i <= batch.len(),
            names.len() == i,
            forall|k: int| 0 <= k < i ==> (#[trigger] names[k])@ == batch[k].name@,
        decreases batch.len() - i,
    {
        names.push(batch[i].name.clone());
        i = i + 1;
    }
    assert(names.deep_view() =~= batch.deep_view().map_values(|file: FileModel| file.name));
    names
}

/// Cuts `files` into batches of `batch_size` files, in order. Every batch
/// but the last holds exactly `batch_size` files; the last holds what is
/// left. No file is left out and none occurs twice.
pub fn partition(files: &Vec<FileEntry>, batch_size: usize) -> (batches: Vec<Vec<FileEntry>>)
    requires
        batch_size > 0,
    ensures
        batches.deep_view() == batches_of(files.deep_view(), batch_size as nat),
{
    let mut batches: Vec<Vec<FileEntry>> = Vec::new();
    let mut start: usize = 0;
    assert(files.deep_view().skip(0) =~= files.deep_view());
    assert(batches.deep_view() =~= Seq::empty());
    while start < files.len()
        invariant
            batch_size > 0,
            start <= files.len(),
            batches.deep_view() + batches_of(
                files.deep_view().skip(start as int),
                batch_size as nat,
            ) == batches_of(files.deep_view(), batch_size as nat),
        decreases files.len() - start,
    {
        let left = files.len() - start;
        let count = if left < batch_size {
            left
        } else {
            batch_size
        };
        let mut batch: Vec<FileEntry> = Vec::new();
        let mut k: usize = 0;
        while k < count
            invariant
                k <= count,
                start + count <= files.len(),
                batch.len() == k,
                forall|j: int| 0 <= j < k ==> (#[trigger] batch[j])@ == files[start + j]@,
            decreases count - k,
        {
            batch.push(files[start + k].duplicate());
            k = k + 1;
        }
        let ghost rest = files.deep_view().skip(start as int);
        let ghost before = batches.deep_view();
        proof {
            assert(batch.deep_view() =~= rest.take(count as int));
            assert(rest.skip(count as int) =~= files.deep_view().skip(start + count));
            if left <= batch_size {
                assert(rest.take(count as int) =~= rest);
                assert(rest.skip(count as int).len() == 0);
                assert(batches_of(rest, batch_size as nat) =~= seq![rest] + batches_of(
                    rest.skip(count as int),
                    batch_size as nat,
                ));
            }
        }
        batches.push(batch);
        proof {
            assert(batches.deep_view() =~= before.push(rest.take(count as int)));
            assert(before.push(rest.take(count as int)) + batches_of(
                rest.skip(count as int),
                batch_size as nat,
            ) =~= before + batches_of(rest, batch_size as nat));
        }
        start = start + count;
    }
    proof {
        assert(batches_of(files.deep_view().skip(start as int), batch_size as nat) =~= Seq::empty());
        assert(batches.deep_view() + Seq::<Seq<FileModel>>::empty() =~= batches.deep_view());
    }
    batches
}

/// The batches of a listing: its eligible files, cut into batches of
/// `batch_size` files.
pub fn batches_for_listing(listing: &Vec<ListingEntry>, batch_size: usize) -> (batches: Vec<
    Vec<FileEntry>,
>)
    requires
        batch_size > 0,
    ensures
        batches.deep_view() == batches_of(eligible_of(listing.deep_view()), batch_size as nat),
{
    let files = eligible_files(listing);
    partition(&files, batch_size)
}

/// The batches, put one after the other, are the files again: every file
/// lies in exactly one batch, and the order is kept.
pub proof fn lemma_batches_cover_files<T>(files: Seq<T>, size: nat)
    requires
        size > 0,
    ensures
        batches_of(files, size).flatten() == files,
    decreases files.len(),
{
    if files.len() == 0 {
        assert(batches_of(files, size).flatten() =~= files);
    } else if files.len() <= size {
        let batches = seq![files];
        assert(batches.drop_first() =~= Seq::<Seq<T>>::empty());
        assert(batches.drop_first().flatten() =~= Seq::<T>::empty());
        assert(batches.flatten() =~= files);
    } else {
        let head = files.take(size as int);
        let tail = batches_of(files.skip(size as int), size);
        lemma_batches_cover_files(files.skip(size as int), size);
        let batches = seq![head] + tail;
        assert(batches.first() == head);
        assert(batches.drop_first() =~= tail);
        assert(batches.flatten() =~= head + files.skip(size as int));
        assert(head + files.skip(size as int) =~= files);
    }
}

/// There are as many batches as it takes to hold the files: the number of
/// files divided by the size of a batch, rounded up.
pub proof fn lemma_batches_count<T>(files: Seq<T>, size: nat)
    requires
        size > 0,
    ensures
        batches_of(files, size).len() == (files.len() + size - 1) / size as int,
    decreases files.len(),
{
    let n = files.len() as int;
    let sz = size as int;
    if n == 0 {
        assert((n + sz - 1) / sz == 0) by (nonlinear_arith)
            requires
                n == 0,
                sz > 0,
        ;
    } else if n <= sz {
        assert((n + sz - 1) / sz == 1) by (nonlinear_arith)
            requires
                0 < n <= sz,
        ;
    } else {
        lemma_batches_count(files.skip(sz), size);
        assert((n + sz - 1) / sz == (n - sz + sz - 1) / sz + 1) by (nonlinear_arith)
            requires
                sz > 0,
                n > sz,
        ;
    }
}

/// No batch is empty and none holds more than `size` files; every batch but
/// the last holds exactly `size`.
pub proof fn lemma_batches_are_bounded<T>(files: Seq<T>, size: nat)
    requires
        size > 0,
    ensures
        forall|k: int|
            0 <= k < batches_of(files, size).len() ==> 0 < (#[trigger] batches_of(
                files,
                size,
            )[k]).len() <= size,
        forall|k: int|
            0 <= k < batches_of(files, size).len() - 1 ==> (#[trigger] batches_of(
                files,
                size,
            )[k]).len() == size,
    decreases files.len(),
{
    if files.len() > size {
        let tail = batches_of(files.skip(size as int), size);
        lemma_batches_are_bounded(files.skip(size as int), size);
        let all = seq![files.take(size as int)] + tail;
        assert forall|k: int| 0 <= k < all.len() implies 0 < (#[trigger] all[k]).len() <= size by {
            if k > 0 {
                assert(all[k] == tail[k - 1]);
            }
        }
        assert forall|k: int| 0 <= k < all.len() - 1 implies (#[trigger] all[k]).len() == size by {
            if k > 0 {
                assert(all[k] == tail[k - 1]);
            }
        }
    }
}

/// Adding an entry to a listing adds its file to the eligible files exactly
/// when the entry is eligible.
pub proof fn lemma_eligible_of_push(listing: Seq<ListingModel>, entry: ListingModel)
    ensures
        eligible_of(listing.push(entry)) == if is_eligible(entry) {
            eligible_of(listing).push(file_of(entry))
        } else {
            eligible_of(listing)
        },
{
    reveal(Seq::filter);
    assert(listing.push(entry).drop_last() == listing);
    let kept = listing.filter(|entry: ListingModel| is_eligible(entry));
    if is_eligible(entry) {
        assert(kept.push(entry).map_values(|entry: ListingModel| file_of(entry)) =~= kept.map_values(
            |entry: ListingModel| file_of(entry),
        ).push(file_of(entry)));
    }
}

} // verus!
