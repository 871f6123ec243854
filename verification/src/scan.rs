//! Scanning a directory listing: every entry is an image, an excluded
//! sidecar file, or something that blocks the archive.

use vstd::prelude::*;
use vstd::string::StringExecFns;
use crate::format::{ImageFormat, decodable, decodes, signature_format, sniff, supported_format};

verus! {

/// One entry of a directory, as the caller read it. `data` holds the
/// bytes of a regular file and is ignored for anything else.
#[derive(Debug)]
pub struct DirEntry {
    /// The entry's path, as it is shown to the operator.
    pub path: String,
    /// The entry's file name, the last component of `path`.
    pub name: String,
    /// Whether the entry is a regular file.
    pub is_file: bool,
    /// The file's contents.
    pub data: Vec<u8>,
}

/// The mathematical value of a [`DirEntry`].
pub ghost struct DirEntryView {
    pub path: Seq<char>,
    pub name: Seq<char>,
    pub is_file: bool,
    pub data: Seq<u8>,
}

impl View for DirEntry {
    type V = DirEntryView;

    open spec fn view(&self) -> DirEntryView {
        DirEntryView { path: self.path@, name: self.name@, is_file: self.is_file, data: self.data@ }
    }
}

/// A file that was found to be an accepted image.
#[derive(Debug)]
pub struct ImageInfo {
    pub path: String,
    pub name: String,
    pub format: ImageFormat,
    pub data: Vec<u8>,
}

/// The mathematical value of an [`ImageInfo`].
pub ghost struct ImageInfoView {
    pub path: Seq<char>,
    pub name: Seq<char>,
    pub format: ImageFormat,
    pub data: Seq<u8>,
}

impl View for ImageInfo {
    type V = ImageInfoView;

    open spec fn view(&self) -> ImageInfoView {
        ImageInfoView { path: self.path@, name: self.name@, format: self.format, data: self.data@ }
    }
}

/// The three parts into which a scan divides a listing.
#[derive(Debug)]
pub struct ScanResult {
    /// The accepted images.
    pub images: Vec<ImageInfo>,
    /// The paths of everything that is neither an image nor excluded.
    pub non_images: Vec<String>,
    /// The excluded sidecar files, which are archived as they are.
    pub excluded: Vec<DirEntry>,
}

/// The mathematical value of a [`ScanResult`].
pub ghost struct ScanResultView {
    pub images: Seq<ImageInfoView>,
    pub non_images: Seq<Seq<char>>,
    pub excluded: Seq<DirEntryView>,
}

/// The values of a sequence of entries.
pub open spec fn entry_views(entries: Seq<DirEntry>) -> Seq<DirEntryView> {
    entries.map_values(|e: DirEntry| e@)
}

/// The values of a sequence of images.
pub open spec fn image_views(images: Seq<ImageInfo>) -> Seq<ImageInfoView> {
    images.map_values(|i: ImageInfo| i@)
}

/// The values of a sequence of paths.
pub open spec fn path_views(paths: Seq<String>) -> Seq<Seq<char>> {
    paths.map_values(|p: String| p@)
}

impl View for ScanResult {
    type V = ScanResultView;

    open spec fn view(&self) -> ScanResultView {
        ScanResultView {
            images: image_views(self.images@),
            non_images: path_views(self.non_images@),
            excluded: entry_views(self.excluded@),
        }
    }
}

/// How a scan classifies one entry.
pub enum EntryClass {
    Image(ImageFormat),
    NonImage,
    Excluded,
}

/// Whether a file name is on the exclusion list, which holds the one name
/// `ComicInfo.xml`.
pub open spec fn is_excluded_name(name: Seq<char>) -> bool {
    name == "ComicInfo.xml"@
}

/// The format under which a file's contents are accepted: the contents
/// start with the signature of an accepted format and, where `verify` is
/// set, decode in full.
pub open spec fn accepted_format(data: Seq<u8>, verify: bool) -> Option<ImageFormat> {
    match signature_format(data) {
        Some(format) => if verify && !decodable(data, format) {
            None
        } else {
            Some(format)
        },
        None => None,
    }
}

/// The class of one entry. An excluded name is settled before the
/// contents are looked at.
pub open spec fn class_of(entry: DirEntryView, verify: bool) -> EntryClass {
    if !entry.is_file {
        EntryClass::NonImage
    } else if is_excluded_name(entry.name) {
        EntryClass::Excluded
    } else {
        match accepted_format(entry.data, verify) {
            Some(format) => EntryClass::Image(format),
            None => EntryClass::NonImage,
        }
    }
}

/// The image record of an entry that was accepted under `format`.
pub open spec fn image_of(entry: DirEntryView, format: ImageFormat) -> ImageInfoView {
    ImageInfoView { path: entry.path, name: entry.name, format, data: entry.data }
}

/// The scan of a listing: each entry goes to the part that its class
/// names, and each part keeps the order of the listing.
pub open spec fn scan_of(listing: Seq<DirEntryView>, verify: bool) -> ScanResultView
    decreases listing.len(),
{
    if listing.len() == 0 {
        ScanResultView { images: seq![], non_images: seq![], excluded: seq![] }
    } else {
        let before = scan_of(listing.drop_last(), verify);
        let entry = listing.last();
        match class_of(entry, verify) {
            EntryClass::Image(format) => ScanResultView {
                images: before.images.push(image_of(entry, format)),
                ..before
            },
            EntryClass::NonImage => ScanResultView {
                non_images: before.non_images.push(entry.path),
                ..before
            },
            EntryClass::Excluded => ScanResultView {
                excluded: before.excluded.push(entry),
                ..before
            },
        }
    }
}

/// Lexicographic order on strings, character by character; a proper
/// prefix comes first.
pub open spec fn lex_le(a: Seq<char>, b: Seq<char>) -> bool
    decreases a.len(),
{
    if a.len() == 0 {
        true
    } else if b.len() == 0 {
        false
    } else if a[0] == b[0] {
        lex_le(a.drop_first(), b.drop_first())
    } else {
        (a[0] as u32) < (b[0] as u32)
    }
}

/// Whether a listing is in the canonical order: ascending by file name.
pub open spec fn sorted_by_name(listing: Seq<DirEntryView>) -> bool {
    forall|i: int, j: int|
        0 <= i < j < listing.len() ==> lex_le(#[trigger] listing[i].name, #[trigger] listing[j].name)
}

/// Whether `listing` holds the entries of `entries`, each as often as
/// there, in the canonical order.
pub open spec fn is_sorted_listing(listing: Seq<DirEntryView>, entries: Seq<DirEntryView>) -> bool {
    listing.to_multiset() == entries.to_multiset() && sorted_by_name(listing)
}

/// Calls the standard library's stable `sort_by_cached_key` on the
/// entries, with the file name as the key. Trusted: the entries are
/// permuted, and afterwards stand in ascending order of their names, which
/// for `String` is the lexicographic order of the code points.
#[verifier::external_body]
fn sort_by_name(entries: &mut Vec<DirEntry>)
    ensures
        is_sorted_listing(entry_views(final(entries)@), entry_views(old(entries)@)),
{
    entries.sort_by_cached_key(|entry| entry.name.clone());
}

fn copy_bytes(bytes: &Vec<u8>) -> (copy: Vec<u8>)
    ensures
        copy@ == bytes@,
{
    let copy = bytes.clone();
    assert(copy@ =~= bytes@);
    copy
}

fn copy_entry(entry: &DirEntry) -> (copy: DirEntry)
    ensures
        copy@ == entry@,
{
    DirEntry {
        path: entry.path.clone(),
        name: entry.name.clone(),
        is_file: entry.is_file,
        data: copy_bytes(&entry.data),
    }
}

/// Puts the entries of a directory into the canonical order.
pub fn get_paths(entries: Vec<DirEntry>) -> (listing: Vec<DirEntry>)
    ensures
        is_sorted_listing(entry_views(listing@), entry_views(entries@)),
{
    let mut listing = entries;
    sort_by_name(&mut listing);
    listing
}

/// Whether a file name is on the exclusion list.
pub fn is_excluded(name: &String) -> (excluded: bool)
    ensures
        excluded == is_excluded_name(name@),
{
    let sidecar = String::from_str("ComicInfo.xml");
    *name == sidecar
}

/// Decides whether a regular file is an accepted image, from its contents
/// alone. With `verify` the image is decoded in full, and one that does
/// not decode is not accepted.
pub fn check_file(entry: &DirEntry, verify: bool) -> (info: Option<ImageInfo>)
    ensures
        match accepted_format(entry.data@, verify) {
            Some(format) => info is Some && info->0@ == image_of(entry@, format),
            None => info is None,
        },
{
    match supported_format(sniff(entry.data.as_slice())) {
        Some(format) => {
            if verify && !decodes(entry.data.as_slice(), format) {
                None
            } else {
                Some(
                    ImageInfo {
                        path: entry.path.clone(),
                        name: entry.name.clone(),
                        format,
                        data: copy_bytes(&entry.data),
                    },
                )
            }
        },
        None => None,
    }
}

/// Scans a listing in the order in which it is given.
pub fn scan_listing(listing: &Vec<DirEntry>, verify: bool) -> (result: ScanResult)
    ensures
        result@ == scan_of(entry_views(listing@), verify),
{
    let mut images: Vec<ImageInfo> = Vec::new();
    let mut non_images: Vec<String> = Vec::new();
    let mut excluded: Vec<DirEntry> = Vec::new();
    let ghost all = entry_views(listing@);
    let mut i: usize = 0;
    while i < listing.len()
        invariant
            i <= listing.len(),
            all == entry_views(listing@),
            image_views(images@) == scan_of(all.take(i as int), verify).images,
            path_views(non_images@) == scan_of(all.take(i as int), verify).non_images,
            entry_views(excluded@) == scan_of(all.take(i as int), verify).excluded,
        decreases listing.len() - i,
    {
        let entry = &listing[i];
        let ghost before = scan_of(all.take(i as int), verify);
        proof {
            assert(all.take(i + 1).drop_last() =~= all.take(i as int));
            assert(all.take(i + 1).last() == entry@);
        }
        if !entry.is_file {
            non_images.push(entry.path.clone());
            assert(path_views(non_images@) =~= before.non_images.push(entry@.path));
        } else if is_excluded(&entry.name) {
            excluded.push(copy_entry(entry));
            assert(entry_views(excluded@) =~= before.excluded.push(entry@));
        } else {
            match check_file(entry, verify) {
                Some(info) => {
                    let ghost pushed = info@;
                    images.push(info);
                    assert(image_views(images@) =~= before.images.push(pushed));
                },
                None => {
                    non_images.push(entry.path.clone());
                    assert(path_views(non_images@) =~= before.non_images.push(entry@.path));
                },
            }
        }
        i = i + 1;
    }
    assert(all.take(i as int) =~= all);
    ScanResult { images, non_images, excluded }
}

/// Scans the entries of a directory: puts them into the canonical order
/// and divides them into images, excluded files and the rest.
pub fn check_dir(entries: Vec<DirEntry>, verify: bool) -> (result: ScanResult)
    ensures
        exists|listing: Seq<DirEntryView>| #[trigger]
            is_sorted_listing(listing, entry_views(entries@)) && result@ == scan_of(
                listing,
                verify,
            ),
{
    let listing = get_paths(entries);
    let result = scan_listing(&listing, verify);
    assert(is_sorted_listing(entry_views(listing@), entry_views(entries@)));
    result
}

/// Every entry of a listing lands in exactly one part of its scan, so the
/// three parts together are as long as the listing.
pub proof fn lemma_scan_partitions(listing: Seq<DirEntryView>, verify: bool)
    ensures
        scan_of(listing, verify).images.len() + scan_of(listing, verify).non_images.len()
            + scan_of(listing, verify).excluded.len() == listing.len(),
    decreases listing.len(),
{
    if listing.len() > 0 {
        lemma_scan_partitions(listing.drop_last(), verify);
    }
}

/// The scan of the first `k` entries is the beginning of the scan of the
/// whole listing, in each of the three parts.
pub proof fn lemma_scan_grows(listing: Seq<DirEntryView>, verify: bool, k: int)
    requires
        0 <= k <= listing.len(),
    ensures
        scan_of(listing.take(k), verify).images.is_prefix_of(scan_of(listing, verify).images),
        scan_of(listing.take(k), verify).non_images.is_prefix_of(
            scan_of(listing, verify).non_images,
        ),
        scan_of(listing.take(k), verify).excluded.is_prefix_of(scan_of(listing, verify).excluded),
    decreases listing.len(),
{
    if k == listing.len() {
        assert(listing.take(k) =~= listing);
    } else {
        lemma_scan_grows(listing.drop_last(), verify, k);
        assert(listing.drop_last().take(k) =~= listing.take(k));
    }
}

/// Each part of a scan keeps the order of the listing: the entry at
/// position `i` stands in the part that its class names, behind exactly
/// those earlier entries that went to the same part.
pub proof fn lemma_scan_keeps_order(listing: Seq<DirEntryView>, verify: bool, i: int)
    requires
        0 <= i < listing.len(),
    ensures
        ({
            let earlier = scan_of(listing.take(i), verify);
            let whole = scan_of(listing, verify);
            match class_of(listing[i], verify) {
                EntryClass::Image(format) => earlier.images.len() < whole.images.len()
                    && whole.images[earlier.images.len() as int] == image_of(listing[i], format),
                EntryClass::NonImage => earlier.non_images.len() < whole.non_images.len()
                    && whole.non_images[earlier.non_images.len() as int] == listing[i].path,
                EntryClass::Excluded => earlier.excluded.len() < whole.excluded.len()
                    && whole.excluded[earlier.excluded.len() as int] == listing[i],
            }
        }),
{
    lemma_scan_grows(listing, verify, i + 1);
    assert(listing.take(i + 1).drop_last() =~= listing.take(i));
    assert(listing.take(i + 1).last() == listing[i]);
    let earlier = scan_of(listing.take(i), verify);
    let upto = scan_of(listing.take(i + 1), verify);
    let whole = scan_of(listing, verify);
    match class_of(listing[i], verify) {
        EntryClass::Image(format) => {
            assert(upto.images[earlier.images.len() as int] == image_of(listing[i], format));
        },
        EntryClass::NonImage => {
            assert(upto.non_images[earlier.non_images.len() as int] == listing[i].path);
        },
        EntryClass::Excluded => {
            assert(upto.excluded[earlier.excluded.len() as int] == listing[i]);
        },
    }
}

/// An entry that is no image blocks the directory: its path is among the
/// non-images of the scan, which is therefore not empty.
pub proof fn lemma_non_image_is_reported(listing: Seq<DirEntryView>, verify: bool, i: int)
    requires
        0 <= i < listing.len(),
        class_of(listing[i], verify) == EntryClass::NonImage,
    ensures
        scan_of(listing, verify).non_images.contains(listing[i].path),
        scan_of(listing, verify).non_images.len() > 0,
    decreases listing.len(),
{
    let before = scan_of(listing.drop_last(), verify);
    let after = scan_of(listing, verify);
    if i == listing.len() - 1 {
        assert(after.non_images == before.non_images.push(listing[i].path));
        assert(after.non_images[before.non_images.len() as int] == listing[i].path);
    } else {
        lemma_non_image_is_reported(listing.drop_last(), verify, i);
        let k = choose|k: int|
            0 <= k < before.non_images.len() && before.non_images[k] == listing[i].path;
        assert(after.non_images[k] == listing[i].path);
    }
}

/// A regular file named `ComicInfo.xml` is excluded whatever it holds and
/// whether or not images are verified: its contents are never examined.
pub proof fn lemma_sidecar_is_excluded(entry: DirEntryView, verify: bool)
    requires
        entry.is_file,
        entry.name == "ComicInfo.xml"@,
    ensures
        class_of(entry, verify) == EntryClass::Excluded,
{
}

/// With verification, a file that starts like an accepted image and does
/// not decode is an ordinary non-image.
pub proof fn lemma_undecodable_is_non_image(entry: DirEntryView, format: ImageFormat)
    requires
        entry.is_file,
        !is_excluded_name(entry.name),
        signature_format(entry.data) == Some(format),
        !decodable(entry.data, format),
    ensures
        class_of(entry, true) == EntryClass::NonImage,
        class_of(entry, false) == EntryClass::Image(format),
{
}

/// Whether every entry of a listing is an accepted image.
pub open spec fn all_images(listing: Seq<DirEntryView>, verify: bool) -> bool {
    forall|i: int| 0 <= i < listing.len() ==> #[trigger] class_of(listing[i], verify) is Image
}

/// The scan of a listing of images holds one image for each entry, in the
/// order of the listing, with the entry's path, name and contents, and
/// holds nothing else.
pub proof fn lemma_scan_of_images(listing: Seq<DirEntryView>, verify: bool)
    requires
        all_images(listing, verify),
    ensures
        scan_of(listing, verify).non_images.len() == 0,
        scan_of(listing, verify).excluded.len() == 0,
        scan_of(listing, verify).images.len() == listing.len(),
        forall|i: int|
            0 <= i < listing.len() ==> #[trigger] scan_of(listing, verify).images[i] == image_of(
                listing[i],
                class_of(listing[i], verify)->Image_0,
            ),
    decreases listing.len(),
{
    if listing.len() > 0 {
        let shorter = listing.drop_last();
        assert forall|i: int| 0 <= i < shorter.len() implies #[trigger] class_of(
            shorter[i],
            verify,
        ) is Image by {
            assert(shorter[i] == listing[i]);
        }
        lemma_scan_of_images(shorter, verify);
        let last = listing.len() - 1;
        assert(class_of(listing[last], verify) is Image);
        assert forall|i: int| 0 <= i < listing.len() implies #[trigger] scan_of(
            listing,
            verify,
        ).images[i] == image_of(listing[i], class_of(listing[i], verify)->Image_0) by {
            if i < last {
                assert(shorter[i] == listing[i]);
                assert(scan_of(listing, verify).images[i] == scan_of(shorter, verify).images[i]);
            }
        }
    }
}

} // verus!
