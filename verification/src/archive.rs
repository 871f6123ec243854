//! Assembling the archive: which entries it holds, under which names, and
//! the writing of them, uncompressed, through the `zip` crate.

use vstd::prelude::*;
use crate::format::extension_of;
use crate::naming::{numbered, numbered_name, padding_width, zero_padded};
use crate::scan::{
    DirEntry, DirEntryView, ImageInfo, ImageInfoView, all_images, class_of, entry_views, image_of,
    image_views, lemma_scan_of_images, scan_of,
};

verus! {

/// A `zip::ZipWriter` over an in-memory buffer. The writer's type has
/// bounds that the verifier does not know, so it is kept behind this
/// struct; its state is known only through `written`. A writer is given
/// up at the first call that the `zip` crate refuses, so every writer
/// that exists has had all its calls accepted.
#[verifier::external_body]
pub struct ArchiveWriter {
    inner: zip::ZipWriter<std::io::Cursor<Vec<u8>>>,
}

/// The error type of the `zip` crate, `zip::result::ZipError`. It is
/// carried from the failing call to `describe` and never looked into.
#[verifier::external_type_specification]
#[verifier::external_body]
pub struct ExZipError(zip::result::ZipError);

/// One entry of an archive: its name and its uncompressed contents.
pub ghost struct StoredEntry {
    pub name: Seq<char>,
    pub data: Seq<u8>,
}

/// The entries that were handed to the `zip::ZipWriter` of a writer so far,
/// in the order in which they were started.
pub uninterp spec fn written(writer: ArchiveWriter) -> Seq<StoredEntry>;

/// Whether `zip::ZipWriter::start_file` accepts a new entry of the given
/// name behind the entries that the writer holds. The crate refuses, among
/// others, a name that is already taken and a name of 64 KiB or more.
pub uninterp spec fn start_accepted(before: Seq<StoredEntry>, name: Seq<char>) -> bool;

/// Whether the writer accepts more bytes for the last of the entries that
/// it holds. The crate refuses an entry that grows to 4 GiB or more.
pub uninterp spec fn data_accepted(before: Seq<StoredEntry>, data: Seq<u8>) -> bool;

/// What `zip::ZipWriter::finish` makes of the given entries: the bytes of
/// the archive, or nothing where the crate refuses to complete it. Every
/// entry is started with the same fixed options, so the outcome depends
/// on the entries alone.
pub uninterp spec fn stored_archive(entries: Seq<StoredEntry>) -> Option<Seq<u8>>;

/// Why an archive could not be written.
#[derive(Debug)]
pub enum ArchiveError {
    /// The entry `name` could not be started.
    Add { name: String, reason: String },
    /// The contents of the entry `name` could not be written.
    Write { name: String, reason: String },
    /// The archive could not be completed.
    Finalize { reason: String },
}

/// The name under which an image is stored. `index` counts from one.
pub open spec fn stored_name(image: ImageInfoView, index: nat, count: nat, no_rename: bool) -> Seq<
    char,
> {
    if no_rename {
        image.name
    } else {
        numbered(index, count, image.format)
    }
}

/// The entries of the images, in their order.
pub open spec fn image_entries(images: Seq<ImageInfoView>, no_rename: bool) -> Seq<StoredEntry> {
    Seq::new(
        images.len(),
        |i: int|
            StoredEntry {
                name: stored_name(images[i], (i + 1) as nat, images.len(), no_rename),
                data: images[i].data,
            },
    )
}

/// The entries of the excluded files, each under its own name.
pub open spec fn sidecar_entries(excluded: Seq<DirEntryView>) -> Seq<StoredEntry> {
    Seq::new(excluded.len(), |i: int| StoredEntry { name: excluded[i].name, data: excluded[i].data })
}

/// The entries of the archive: the images first, then the excluded files.
pub open spec fn planned_entries(
    images: Seq<ImageInfoView>,
    excluded: Seq<DirEntryView>,
    no_rename: bool,
) -> Seq<StoredEntry> {
    image_entries(images, no_rename) + sidecar_entries(excluded)
}

/// The entries of a writer once an entry of the given name is started.
pub open spec fn started(before: Seq<StoredEntry>, name: Seq<char>) -> Seq<StoredEntry> {
    before.push(StoredEntry { name, data: Seq::<u8>::empty() })
}

/// The entries that a writer holds once the entry at position `k` of the
/// plan is started: those before it, and that one still empty.
pub open spec fn with_started(plan: Seq<StoredEntry>, k: int) -> Seq<StoredEntry> {
    started(plan.take(k), plan[k].name)
}

/// Whether the entry at position `k` is accepted behind those before it,
/// its start and its contents.
pub open spec fn entry_accepted(plan: Seq<StoredEntry>, k: int) -> bool {
    start_accepted(plan.take(k), plan[k].name) && data_accepted(with_started(plan, k), plan[k].data)
}

/// Whether the first `n` entries are accepted, each behind those before it.
pub open spec fn accepted_upto(plan: Seq<StoredEntry>, n: int) -> bool {
    forall|k: int| 0 <= k < n ==> #[trigger] entry_accepted(plan, k)
}

/// Whether every entry is accepted and the archive can be completed.
pub open spec fn can_be_stored(plan: Seq<StoredEntry>) -> bool {
    accepted_upto(plan, plan.len() as int) && stored_archive(plan) is Some
}

/// Whether the entry at position `k` is the first that is not accepted,
/// and it is its start that is refused.
pub open spec fn start_refused_at(plan: Seq<StoredEntry>, k: int) -> bool {
    &&& 0 <= k < plan.len()
    &&& accepted_upto(plan, k)
    &&& !start_accepted(plan.take(k), plan[k].name)
}

/// Whether the entry at position `k` is the first that is not accepted,
/// and it is its contents that are refused.
pub open spec fn data_refused_at(plan: Seq<StoredEntry>, k: int) -> bool {
    &&& 0 <= k < plan.len()
    &&& accepted_upto(plan, k)
    &&& start_accepted(plan.take(k), plan[k].name)
    &&& !data_accepted(with_started(plan, k), plan[k].data)
}

/// Calls `zip::ZipWriter::new` on an empty in-memory buffer. Trusted: the
/// new writer holds no entry.
#[verifier::external_body]
fn new_writer() -> (writer: ArchiveWriter)
    ensures
        written(writer) == Seq::<StoredEntry>::empty(),
{
    ArchiveWriter { inner: zip::ZipWriter::new(std::io::Cursor::new(Vec::new())) }
}

/// Calls `zip::ZipWriter::start_file` with the compression method
/// `Stored`, the system `Unix` and the crate's fixed default date, so that
/// nothing of the machine or the hour enters the archive. Trusted: whether
/// the call succeeds depends on the entries before and the name alone,
/// named `start_accepted`; where it succeeds, the writer comes back with
/// one more entry, of that name and still empty.
#[verifier::external_body]
fn start_stored(writer: ArchiveWriter, name: &str) -> (result: Result<
    ArchiveWriter,
    zip::result::ZipError,
>)
    ensures
        result is Ok <==> start_accepted(written(writer), name@),
        result matches Ok(next) ==> written(next) == written(writer).push(
            StoredEntry { name: name@, data: Seq::<u8>::empty() },
        ),
{
    let mut writer = writer;
    let options = zip::write::SimpleFileOptions::default()
        .compression_method(zip::CompressionMethod::Stored)
        .system(zip::System::Unix)
        .last_modified_time(zip::DateTime::default());
    match writer.inner.start_file(name, options) {
        Ok(()) => Ok(writer),
        Err(error) => Err(error),
    }
}

/// Calls `write_all` of the writer's `std::io::Write`. Trusted, of a
/// writer that holds an entry: whether the call succeeds depends on the
/// entries before and the bytes alone, named `data_accepted`; where it
/// succeeds, the bytes are appended to the contents of the last entry and
/// nothing else changes.
#[verifier::external_body]
fn write_data(writer: ArchiveWriter, data: &[u8]) -> (result: Result<
    ArchiveWriter,
    zip::result::ZipError,
>)
    ensures
        written(writer).len() > 0 ==> (result is Ok <==> data_accepted(written(writer), data@)),
        result matches Ok(next) ==> written(writer).len() > 0 ==> written(next) == written(
            writer,
        ).drop_last().push(
            StoredEntry {
                name: written(writer).last().name,
                data: written(writer).last().data + data@,
            },
        ),
{
    let mut writer = writer;
    match std::io::Write::write_all(&mut writer.inner, data) {
        Ok(()) => Ok(writer),
        Err(error) => Err(zip::result::ZipError::Io(error)),
    }
}

/// Calls `zip::ZipWriter::finish` and takes the buffer out of the cursor
/// that it returns. Trusted: the outcome is a function of the entries
/// alone, named `stored_archive`.
#[verifier::external_body]
fn finish(writer: ArchiveWriter) -> (result: Result<Vec<u8>, zip::result::ZipError>)
    ensures
        match result {
            Ok(bytes) => stored_archive(written(writer)) == Some(bytes@),
            Err(_) => stored_archive(written(writer)) is None,
        },
{
    match writer.inner.finish() {
        Ok(cursor) => Ok(cursor.into_inner()),
        Err(error) => Err(error),
    }
}

/// Formats a `zip::result::ZipError` for the operator. Nothing is claimed
/// of the text.
#[verifier::external_body]
fn describe(error: &zip::result::ZipError) -> (text: String) {
    format!("{error}")
}

/// The name under which the image at the 1-based position `index` among
/// `count` images is stored: its own file name with `no_rename`, else the
/// sequential name.
pub fn entry_name(image: &ImageInfo, index: usize, count: usize, no_rename: bool) -> (name: String)
    ensures
        name@ == stored_name(image@, index as nat, count as nat, no_rename),
{
    if no_rename {
        image.name.clone()
    } else {
        numbered_name(index, count, image.format)
    }
}

fn store(writer: ArchiveWriter, name: String, data: &Vec<u8>) -> (result: Result<
    ArchiveWriter,
    ArchiveError,
>)
    ensures
        match result {
            Ok(next) => {
                &&& start_accepted(written(writer), name@)
                &&& data_accepted(started(written(writer), name@), data@)
                &&& written(next) == written(writer).push(StoredEntry { name: name@, data: data@ })
            },
            Err(ArchiveError::Add { name: failed, .. }) => {
                &&& failed@ == name@
                &&& !start_accepted(written(writer), name@)
            },
            Err(ArchiveError::Write { name: failed, .. }) => {
                &&& failed@ == name@
                &&& start_accepted(written(writer), name@)
                &&& !data_accepted(started(written(writer), name@), data@)
            },
            Err(ArchiveError::Finalize { .. }) => false,
        },
{
    let ghost before = written(writer);
    let open = match start_stored(writer, name.as_str()) {
        Ok(open) => open,
        Err(error) => {
            return Err(ArchiveError::Add { name, reason: describe(&error) });
        },
    };
    match write_data(open, data.as_slice()) {
        Ok(next) => {
            assert(written(next) =~= before.push(StoredEntry { name: name@, data: data@ })) by {
                assert(Seq::<u8>::empty() + data@ =~= data@);
            }
            Ok(next)
        },
        Err(error) => Err(ArchiveError::Write { name, reason: describe(&error) }),
    }
}

/// Writes the archive of the given images and excluded files and returns
/// its bytes. The images come first, in their order, each under its
/// stored name; the excluded files follow under their own names; every
/// entry holds the file's bytes unchanged and uncompressed.
///
/// The archive is written exactly when the `zip` crate accepts every
/// entry behind those before it and completes the archive. Otherwise the
/// error tells the step that was refused, and for an entry the name of
/// the first one that was.
pub fn build_archive(images: &Vec<ImageInfo>, excluded: &Vec<DirEntry>, no_rename: bool) -> (result:
    Result<Vec<u8>, ArchiveError>)
    ensures
        result is Ok <==> can_be_stored(
            planned_entries(image_views(images@), entry_views(excluded@), no_rename),
        ),
        ({
            let plan = planned_entries(image_views(images@), entry_views(excluded@), no_rename);
            match result {
                Ok(bytes) => stored_archive(plan) == Some(bytes@),
                Err(ArchiveError::Add { name, .. }) => exists|k: int| #[trigger]
                    start_refused_at(plan, k) && plan[k].name == name@,
                Err(ArchiveError::Write { name, .. }) => exists|k: int| #[trigger]
                    data_refused_at(plan, k) && plan[k].name == name@,
                Err(ArchiveError::Finalize { .. }) => accepted_upto(plan, plan.len() as int)
                    && stored_archive(plan) is None,
            }
        }),
{
    let ghost plan = planned_entries(image_views(images@), entry_views(excluded@), no_rename);
    let ghost first = image_entries(image_views(images@), no_rename);
    let ghost second = sidecar_entries(entry_views(excluded@));
    let mut writer = new_writer();
    let count: usize = images.len();
    let mut i: usize = 0;
    assert(plan.take(0) =~= Seq::<StoredEntry>::empty());
    while i < count
        invariant
            i <= count,
            count == images.len(),
            first == image_entries(image_views(images@), no_rename),
            second == sidecar_entries(entry_views(excluded@)),
            plan == planned_entries(image_views(images@), entry_views(excluded@), no_rename),
            plan == first + second,
            written(writer) == plan.take(i as int),
            accepted_upto(plan, i as int),
        decreases count - i,
    {
        let name = entry_name(&images[i], i + 1, count, no_rename);
        let ghost wanted = name@;
        assert(first[i as int] == (StoredEntry { name: wanted, data: images[i as int].data@ }));
        assert(plan[i as int] == first[i as int]);
        assert(started(plan.take(i as int), wanted) == with_started(plan, i as int));
        match store(writer, name, &images[i].data) {
            Ok(next) => {
                writer = next;
            },
            Err(error) => {
                assert(start_refused_at(plan, i as int) || data_refused_at(plan, i as int));
                assert(!entry_accepted(plan, i as int));
                return Err(error);
            },
        }
        assert(entry_accepted(plan, i as int));
        assert(written(writer) =~= plan.take(i + 1));
        i = i + 1;
    }
    let mut k: usize = 0;
    while k < excluded.len()
        invariant
            k <= excluded.len(),
            first.len() == images.len(),
            second == sidecar_entries(entry_views(excluded@)),
            plan == planned_entries(image_views(images@), entry_views(excluded@), no_rename),
            plan == first + second,
            written(writer) == plan.take(first.len() + k),
            accepted_upto(plan, first.len() + k),
        decreases excluded.len() - k,
    {
        let ghost at = first.len() + k;
        let name = excluded[k].name.clone();
        let ghost wanted = name@;
        assert(second[k as int] == (StoredEntry { name: wanted, data: excluded[k as int].data@ }));
        assert(plan[at] == second[k as int]);
        assert(started(plan.take(at), wanted) == with_started(plan, at));
        match store(writer, name, &excluded[k].data) {
            Ok(next) => {
                writer = next;
            },
            Err(error) => {
                assert(start_refused_at(plan, at) || data_refused_at(plan, at));
                assert(!entry_accepted(plan, at));
                return Err(error);
            },
        }
        assert(entry_accepted(plan, at));
        assert(written(writer) =~= plan.take(at + 1));
        k = k + 1;
    }
    assert(plan.take(plan.len() as int) =~= plan);
    match finish(writer) {
        Ok(bytes) => Ok(bytes),
        Err(error) => Err(ArchiveError::Finalize { reason: describe(&error) }),
    }
}

/// A directory of nothing but images, archived with renaming, gives one
/// entry for each image, in the order of the listing: the entry at
/// position `i` is named by the numeral of `i + 1`, padded to the width
/// for the number of images, with the extension of the image's format,
/// and holds the file's bytes unchanged.
pub proof fn lemma_images_are_numbered(listing: Seq<DirEntryView>, verify: bool, i: int)
    requires
        all_images(listing, verify),
        0 <= i < listing.len(),
    ensures
        ({
            let scan = scan_of(listing, verify);
            let plan = planned_entries(scan.images, scan.excluded, false);
            &&& plan.len() == listing.len()
            &&& plan[i].name == zero_padded((i + 1) as nat, padding_width(listing.len()))
                + seq!['.'] + extension_of(class_of(listing[i], verify)->Image_0)
            &&& plan[i].data == listing[i].data
        }),
{
    lemma_scan_of_images(listing, verify);
    let scan = scan_of(listing, verify);
    assert(scan.images[i] == image_of(listing[i], class_of(listing[i], verify)->Image_0));
}

/// Without renaming, every image is stored under its own file name, with
/// its bytes unchanged.
pub proof fn lemma_names_are_kept(images: Seq<ImageInfoView>, excluded: Seq<DirEntryView>, i: int)
    requires
        0 <= i < images.len(),
    ensures
        planned_entries(images, excluded, true)[i].name == images[i].name,
        planned_entries(images, excluded, true)[i].data == images[i].data,
{
}

/// The excluded files stand after all images, in their order, each under
/// its own name and with its bytes unchanged, whether or not the images
/// are renamed.
pub proof fn lemma_sidecars_follow_images(
    images: Seq<ImageInfoView>,
    excluded: Seq<DirEntryView>,
    no_rename: bool,
    k: int,
)
    requires
        0 <= k < excluded.len(),
    ensures
        planned_entries(images, excluded, no_rename).len() == images.len() + excluded.len(),
        planned_entries(images, excluded, no_rename)[images.len() + k].name == excluded[k].name,
        planned_entries(images, excluded, no_rename)[images.len() + k].data == excluded[k].data,
{
}

} // verus!
