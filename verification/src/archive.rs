//! Archives in memory: the names and the data of their entries, and a
//! writer that builds a new one.

use vstd::prelude::*;
use zip_extensions::read::ZipArchiveExtensions;

verus! {

/// A `zip::ZipWriter` that writes into memory. What it has been handed is
/// known to the library only through `written`.
#[verifier::external_body]
pub struct ArchiveWriter {
    inner: zip::ZipWriter<std::io::Cursor<Vec<u8>>>,
}

/// What a writer has been handed so far: the name of each file that was
/// started, in their order, with the pieces of data that were written to
/// it, one for each call that wrote any.
pub uninterp spec fn written(writer: ArchiveWriter) -> Seq<(Seq<char>, Seq<Seq<u8>>)>;

/// Whether `zip::ZipWriter::start_file` starts a file of this name, with the
/// default options, in a writer that has been handed `before`.
pub uninterp spec fn starts(before: Seq<(Seq<char>, Seq<Seq<u8>>)>, name: Seq<char>) -> bool;

/// Whether `write_all` on a `zip::ZipWriter` that has been handed `before`
/// takes this data for the file that was started last.
pub uninterp spec fn takes_data(before: Seq<(Seq<char>, Seq<Seq<u8>>)>, data: Seq<u8>) -> bool;

/// Whether `zip::ZipWriter::finish` closes the archive of a writer that has
/// been handed `before`.
pub uninterp spec fn finishes(before: Seq<(Seq<char>, Seq<Seq<u8>>)>) -> bool;

/// Whether `archive` is what `zip::ZipWriter::finish` returned for a writer
/// that had been handed `before`: the bytes of an archive of exactly these
/// files. Each file carries the time at which it was started, so one list
/// of files has more than one such archive.
pub uninterp spec fn sealed(before: Seq<(Seq<char>, Seq<Seq<u8>>)>, archive: Seq<u8>) -> bool;

/// What a writer has been handed once a piece of data went to the file that
/// was started last. Data of no bytes is no piece.
pub open spec fn with_piece(before: Seq<(Seq<char>, Seq<Seq<u8>>)>, data: Seq<u8>) -> Seq<
    (Seq<char>, Seq<Seq<u8>>),
> {
    if data.len() == 0 || before.len() == 0 {
        before
    } else {
        before.drop_last().push((before.last().0, before.last().1.push(data)))
    }
}

/// What a writer has been handed once it took the files of a list after
/// `before`, each started under its name and then written in one piece;
/// nothing where the writer refuses one of them.
pub open spec fn filled(
    before: Seq<(Seq<char>, Seq<Seq<u8>>)>,
    list: Seq<(Seq<char>, Seq<u8>)>,
) -> Option<Seq<(Seq<char>, Seq<Seq<u8>>)>>
    decreases list.len(),
{
    if list.len() == 0 {
        Some(before)
    } else {
        match filled(before, list.drop_last()) {
            Some(so_far) => {
                let started = so_far.push((list.last().0, Seq::<Seq<u8>>::empty()));
                if starts(so_far, list.last().0) && takes_data(started, list.last().1) {
                    Some(with_piece(started, list.last().1))
                } else {
                    None
                }
            },
            None => None,
        }
    }
}

/// Whether the writer makes an archive of the files of a list: it takes
/// each of them, from the first on, and closes the archive after the last.
pub open spec fn packs(list: Seq<(Seq<char>, Seq<u8>)>) -> bool {
    match filled(Seq::empty(), list) {
        Some(all) => finishes(all),
        None => false,
    }
}

/// How the data of an archive entry is packed, as far as the library tells
/// it apart.
#[derive(Debug, Clone, Copy, PartialEq, Eq, Structural)]
pub enum Packing {
    Stored,
    Deflated,
    Bzip2,
    Zstd,
    /// Any other method: the data of such an entry is not read.
    Other,
}

/// The number of entries that `zip::ZipArchive` finds in the bytes of an
/// archive; none where it does not accept the bytes as an archive.
pub uninterp spec fn archive_len(archive: Seq<u8>) -> Option<nat>;

/// What `zip::ZipArchive::by_index_raw` finds at an index: the name of the
/// entry, how its data is packed, and where in the archive its header in
/// the central directory begins; nothing where the bytes are no archive or
/// there is no such entry.
pub uninterp spec fn archive_facts(archive: Seq<u8>, index: nat) -> Option<
    (Seq<char>, Packing, u64),
>;

/// Whether `zip::ZipArchive::by_index_decrypt` opens the entry at an index
/// for reading when it is given no password.
pub uninterp spec fn archive_opens(archive: Seq<u8>, index: nat) -> bool;

/// The data that `extract_file_to_memory` of `zip_extensions` reads from
/// the entry at an index; nothing where the entry is no file or cannot be
/// read.
pub uninterp spec fn archive_data(archive: Seq<u8>, index: nat) -> Option<Seq<u8>>;

/// The facts of an entry, as a value.
pub open spec fn facts_view(facts: Option<(String, Packing, u64)>) -> Option<
    (Seq<char>, Packing, u64),
> {
    match facts {
        Some((name, packing, header)) => Some((name@, packing, header)),
        None => None,
    }
}

/// The data that was read for an entry, as a value.
pub open spec fn data_view(data: Option<Vec<u8>>) -> Option<Seq<u8>> {
    match data {
        Some(bytes) => Some(bytes@),
        None => None,
    }
}

/// Whether the header of an entry, which begins at `header` in the central
/// directory, marks the entry as not encrypted: the lowest bit of the flags,
/// which stand eight bytes into the header, is clear.
pub open spec fn marked_plain(archive: Seq<u8>, header: u64) -> bool {
    header + 8 < archive.len() && archive[header + 8] & 1 == 0
}

/// Whether the entry at an index is there and is marked as not encrypted.
pub open spec fn plain_entry(archive: Seq<u8>, index: nat) -> bool {
    match archive_facts(archive, index) {
        Some((_, _, header)) => marked_plain(archive, header),
        None => false,
    }
}

/// Whether the data of the entry at an index is read: the entry is marked
/// as not encrypted, it opens, and its data is packed in a way that is read.
pub open spec fn read_entry(archive: Seq<u8>, index: nat) -> bool {
    match archive_facts(archive, index) {
        Some((_, packing, header)) => packing != Packing::Other && marked_plain(archive, header)
            && archive_opens(archive, index),
        None => false,
    }
}

/// What an archive gives for the entry at an index: its name, with its data
/// where that is read and can be read; nothing where there is no such
/// entry.
pub open spec fn archive_entry(archive: Seq<u8>, index: nat) -> Option<
    (Seq<char>, Option<Seq<u8>>),
> {
    match archive_facts(archive, index) {
        Some((name, _, _)) => Some(
            (
                name,
                if read_entry(archive, index) {
                    archive_data(archive, index)
                } else {
                    None
                },
            ),
        ),
        None => None,
    }
}

/// The first `count` entries of an archive, in their order, but for those
/// that are not found.
pub open spec fn listed(archive: Seq<u8>, count: nat) -> Seq<(Seq<char>, Option<Seq<u8>>)>
    decreases count,
{
    if count == 0 {
        seq![]
    } else {
        let before = listed(archive, (count - 1) as nat);
        match archive_entry(archive, (count - 1) as nat) {
            Some(entry) => before.push(entry),
            None => before,
        }
    }
}

/// `zip::ZipArchive::new` and `len`: the number of entries named by
/// `archive_len`.
#[verifier::external_body]
pub(crate) fn entry_count(archive: &Vec<u8>) -> (r: Option<usize>)
    ensures
        r is Some == archive_len(archive@) is Some,
        r matches Some(count) ==> archive_len(archive@) == Some(count as nat),
{
    Some(zip::ZipArchive::new(std::io::Cursor::new(archive)).ok()?.len())
}

/// `zip::ZipArchive::by_index_raw`, then `name`, `compression` and
/// `central_header_start` of the entry: what `archive_facts` names. The
/// entry is not opened for reading by this.
#[verifier::external_body]
pub(crate) fn entry_facts(archive: &Vec<u8>, index: usize) -> (r: Option<(String, Packing, u64)>)
    ensures
        facts_view(r) == archive_facts(archive@, index as nat),
{
    let mut zip = zip::ZipArchive::new(std::io::Cursor::new(archive)).ok()?;
    let file = zip.by_index_raw(index).ok()?;
    let packing = match file.compression() {
        zip::CompressionMethod::Stored => Packing::Stored,
        zip::CompressionMethod::Deflated => Packing::Deflated,
        zip::CompressionMethod::Bzip2 => Packing::Bzip2,
        zip::CompressionMethod::Zstd => Packing::Zstd,
        _ => Packing::Other,
    };
    Some((file.name().to_string(), packing, file.central_header_start()))
}

/// `zip::ZipArchive::by_index_decrypt` with no password: whether the entry
/// opens, as `archive_opens` names it. It is for entries that are marked as
/// not encrypted: the reader of `zip` then asks for no password and sets up
/// no decryption.
#[verifier::external_body]
pub(crate) fn entry_opens(archive: &Vec<u8>, index: usize) -> (r: bool)
    requires
        plain_entry(archive@, index as nat),
    ensures
        r == archive_opens(archive@, index as nat),
{
    match zip::ZipArchive::new(std::io::Cursor::new(archive)) {
        Ok(mut zip) => matches!(zip.by_index_decrypt(index, &[]), Ok(Ok(_))),
        Err(_) => false,
    }
}

/// `extract_file_to_memory` of `zip_extensions`, on an archive in memory:
/// the data named by `archive_data`. It is for entries whose data is read:
/// on others the reader of `zip` gives up.
#[verifier::external_body]
pub(crate) fn entry_data(archive: &Vec<u8>, index: usize) -> (r: Option<Vec<u8>>)
    requires
        read_entry(archive@, index as nat),
    ensures
        data_view(r) == archive_data(archive@, index as nat),
{
    let mut zip = zip::ZipArchive::new(std::io::Cursor::new(archive)).ok()?;
    let mut data = Vec::new();
    zip.extract_file_to_memory(index, &mut data).ok().map(|_| data)
}

/// Whether the header of an entry marks the entry as not encrypted.
pub fn is_marked_plain(archive: &Vec<u8>, header: u64) -> (r: bool)
    ensures
        r == marked_plain(archive@, header),
{
    let len = archive.len();
    if len < 9 || header > (len - 9) as u64 {
        return false;
    }
    let at = (header + 8) as usize;
    archive[at] & 1 == 0
}

/// `zip::ZipWriter::new` on an empty buffer: a writer that has been handed
/// nothing yet.
#[verifier::external_body]
pub(crate) fn new_writer() -> (writer: ArchiveWriter)
    ensures
        written(writer) == Seq::<(Seq<char>, Seq<Seq<u8>>)>::empty(),
{
    ArchiveWriter { inner: zip::ZipWriter::new(std::io::Cursor::new(Vec::new())) }
}

/// `zip::ZipWriter::start_file` with the default options. Whether the writer
/// starts the file is named by `starts`; where it does, the file comes last
/// among those it has been handed, without data yet. Where it reports an
/// error the result is false.
#[verifier::external_body]
pub(crate) fn start_file(writer: &mut ArchiveWriter, name: &str) -> (r: bool)
    ensures
        r == starts(written(*old(writer)), name@),
        r ==> written(*final(writer)) == written(*old(writer)).push(
            (name@, Seq::<Seq<u8>>::empty()),
        ),
{
    writer.inner.start_file(name, zip::write::FileOptions::default()).is_ok()
}

/// `write_all` on a `zip::ZipWriter`. Whether the writer takes the data is
/// named by `takes_data`; where it does, the data is one more piece of the
/// file that was started last. Data of no bytes is taken by every writer
/// and changes nothing. Where the writer reports an error the result is
/// false.
#[verifier::external_body]
pub(crate) fn write_all(writer: &mut ArchiveWriter, data: &Vec<u8>) -> (r: bool)
    ensures
        r == takes_data(written(*old(writer)), data@),
        r ==> written(*final(writer)) == with_piece(written(*old(writer)), data@),
{
    std::io::Write::write_all(&mut writer.inner, data.as_slice()).is_ok()
}

/// `zip::ZipWriter::finish`: the bytes of the archive, or nothing where the
/// writer reports an error; which of the two is named by `finishes`. The
/// bytes are those of an archive of what the writer had been handed, as
/// `sealed` names it.
#[verifier::external_body]
pub(crate) fn finish(writer: &mut ArchiveWriter) -> (r: Option<Vec<u8>>)
    ensures
        r is Some == finishes(written(*old(writer))),
        r matches Some(archive) ==> sealed(written(*old(writer)), archive@),
{
    writer.inner.finish().ok().map(|buffer| buffer.into_inner())
}

/// A list that the writer refuses in part is refused as a whole.
pub proof fn refused_stays_refused(
    before: Seq<(Seq<char>, Seq<Seq<u8>>)>,
    list: Seq<(Seq<char>, Seq<u8>)>,
    count: int,
)
    requires
        0 <= count <= list.len(),
        filled(before, list.take(count)) is None,
    ensures
        filled(before, list) is None,
    decreases list.len() - count,
{
    if count < list.len() {
        assert(list.take(count + 1).drop_last() =~= list.take(count));
        refused_stays_refused(before, list, count + 1);
    } else {
        assert(list.take(count) =~= list);
    }
}

} // verus!
