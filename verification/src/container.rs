//! The container of a package: an archive of named entries, written and
//! read through the `zip` crate.
//!
//! [`pack`] hands the parts of a package to the archive writer in their
//! order, each deflated and with fixed permissions. [`unpack`] lists the
//! entries of an archive and reads each of them.

use vstd::prelude::*;
use vstd::string::StringExecFns;
use crate::error::DocxError;

verus! {

/// `zip::result::ZipError`: why an archive could not be read or written.
#[verifier::external_type_specification]
#[verifier::external_body]
pub struct ExZipError(zip::result::ZipError);

/// A `zip::ZipWriter` that writes into memory.
#[verifier::external_body]
pub struct ArchiveWriter {
    writer: zip::ZipWriter<std::io::Cursor<Vec<u8>>>,
}

/// `zip::ZipArchive`: an archive that is read.
#[verifier::external_type_specification]
#[verifier::external_body]
#[verifier::reject_recursive_types(R)]
pub struct ExZipArchive<R>(zip::ZipArchive<R>);

/// `std::io::Cursor`: bytes in memory with a reading position.
#[verifier::external_type_specification]
#[verifier::external_body]
#[verifier::reject_recursive_types(T)]
pub struct ExCursor<T>(std::io::Cursor<T>);

/// The system that an entry says it was made on. It decides how a reader
/// takes the permissions of the entry.
#[derive(Debug, Clone, Copy, PartialEq, Eq)]
pub enum Host {
    /// A system with permissions as Unix has them.
    Unix,
    /// A system with attributes as DOS has them.
    Dos,
}

/// What is known of an entry of an archive that is being written.
pub struct EntryModel {
    pub name: Seq<char>,
    pub deflated: bool,
    pub permissions: u32,
    pub host: Host,
    pub data: Seq<u8>,
}

/// The entries that were handed to an archive writer so far, in order.
pub uninterp spec fn written_entries(writer: ArchiveWriter) -> Seq<EntryModel>;

/// Whether `zip` starts the given entry, still without data, after the
/// entries before it.
pub uninterp spec fn entry_accepted(before: Seq<EntryModel>, entry: EntryModel) -> bool;

/// Whether `zip` takes the given data for the last of the given entries.
pub uninterp spec fn data_accepted(entries: Seq<EntryModel>, data: Seq<u8>) -> bool;

/// The bytes of the archive that `zip` makes of the given entries; `None`
/// where it cannot finish it. Every entry names its system itself, and with
/// the `time` feature of `zip` left out, as it is here, every entry is
/// stamped with the same fixed date, so the archive depends on the entries
/// alone.
pub uninterp spec fn archive_bytes(entries: Seq<EntryModel>) -> Option<Seq<u8>>;

/// The bytes that an archive reader reads from.
pub uninterp spec fn reader_bytes(reader: zip::ZipArchive<std::io::Cursor<Vec<u8>>>) -> Seq<u8>;

/// The names of the entries that `zip` finds in the given bytes, in the
/// order of the archive's directory; `None` in place of a name that cannot
/// be decoded, and `None` for all where the bytes are no archive that `zip`
/// can open.
pub uninterp spec fn archive_listing(bytes: Seq<u8>) -> Option<Seq<Option<Seq<char>>>>;

/// The data that `zip` reads for the entry of the given name in the given
/// bytes; `None` where there is no such entry or it cannot be read.
pub uninterp spec fn archive_content(bytes: Seq<u8>, name: Seq<char>) -> Option<Seq<u8>>;

/// `zip::ZipWriter::new` over an empty buffer: a writer without entries.
#[verifier::external_body]
fn new_archive_writer() -> (writer: ArchiveWriter)
    ensures
        written_entries(writer) == Seq::<EntryModel>::empty(),
{
    ArchiveWriter { writer: zip::ZipWriter::new(std::io::Cursor::new(Vec::new())) }
}

/// An entry that was started and has no data yet.
pub open spec fn started_entry(name: Seq<char>, deflated: bool, permissions: u32, host: Host)
    -> EntryModel {
    EntryModel { name, deflated, permissions, host, data: Seq::empty() }
}

/// `zip::ZipWriter::start_file` with options made of the given
/// compression, permissions and system: it succeeds exactly where `zip`
/// accepts the entry after those before it, and a new entry without data
/// then follows the entries so far. It fails, among others, on a name that
/// is in use.
#[verifier::external_body]
fn start_entry(
    writer: &mut ArchiveWriter,
    name: &str,
    deflated: bool,
    permissions: u32,
    host: Host,
) -> (r: Result<(), zip::result::ZipError>)
    ensures
        r is Ok <==> entry_accepted(
            written_entries(*old(writer)),
            started_entry(name@, deflated, permissions, host),
        ),
        r is Ok ==> written_entries(*final(writer)) == written_entries(*old(writer)).push(
            started_entry(name@, deflated, permissions, host),
        ),
{
    let method = if deflated {
        zip::CompressionMethod::Deflated
    } else {
        zip::CompressionMethod::Stored
    };
    let system = match host {
        Host::Unix => zip::System::Unix,
        Host::Dos => zip::System::Dos,
    };
    let options = zip::write::SimpleFileOptions::default().compression_method(
        method,
    ).unix_permissions(permissions).system(system);
    writer.writer.start_file(name, options)
}

/// The last of the entries with more data behind what it has.
pub open spec fn with_data(entries: Seq<EntryModel>, data: Seq<u8>) -> Seq<EntryModel> {
    entries.update(
        entries.len() - 1,
        EntryModel {
            name: entries.last().name,
            deflated: entries.last().deflated,
            permissions: entries.last().permissions,
            host: entries.last().host,
            data: entries.last().data + data,
        },
    )
}

/// `write_all` of `zip::ZipWriter`: it succeeds exactly where `zip` takes
/// the data, and the data then follows the data of the entry that was
/// started last.
#[verifier::external_body]
fn write_entry_data(writer: &mut ArchiveWriter, data: &[u8]) -> (r: Result<(), std::io::Error>)
    ensures
        r is Ok <==> data_accepted(written_entries(*old(writer)), data@),
        r is Ok && written_entries(*old(writer)).len() > 0 ==> written_entries(*final(writer))
            == with_data(written_entries(*old(writer)), data@),
{
    std::io::Write::write_all(&mut writer.writer, data)
}

/// `zip::ZipWriter::finish`: it succeeds exactly where `zip` can finish the
/// archive of the entries that were written, and gives its bytes.
#[verifier::external_body]
fn finish_archive(writer: ArchiveWriter) -> (r: Result<Vec<u8>, zip::result::ZipError>)
    ensures
        match archive_bytes(written_entries(writer)) {
            Some(archive) => r matches Ok(bytes) && bytes@ == archive,
            None => r is Err,
        },
{
    writer.writer.finish().map(|cursor| cursor.into_inner())
}

/// `zip::ZipArchive::new` over the given bytes: succeeds where `zip` can
/// open them as an archive.
#[verifier::external_body]
fn open_archive(bytes: Vec<u8>) -> (r: Result<
    zip::ZipArchive<std::io::Cursor<Vec<u8>>>,
    zip::result::ZipError,
>)
    ensures
        r is Ok <==> archive_listing(bytes@) is Some,
        r matches Ok(reader) ==> reader_bytes(reader) == bytes@,
{
    zip::ZipArchive::new(std::io::Cursor::new(bytes))
}

/// The characters of each name of a list; `None` stays `None`.
pub open spec fn names_model(names: Seq<Option<String>>) -> Seq<Option<Seq<char>>> {
    Seq::new(
        names.len(),
        |i: int|
            match names[i] {
                Some(n) => Some(n@),
                None => None,
            },
    )
}

/// `zip::ZipArchive::file_names`: the names of the entries, in the order of
/// the archive's directory.
#[verifier::external_body]
fn entry_names(reader: &zip::ZipArchive<std::io::Cursor<Vec<u8>>>) -> (names: Vec<
    Option<String>,
>)
    ensures
        archive_listing(reader_bytes(*reader)) == Some(names_model(names@)),
{
    reader.file_names().map(|name| name.ok().map(|n| n.into_owned())).collect()
}

/// `zip::ZipArchive::by_name`, then `read_to_end` of the entry: the data of
/// the entry of the given name, or an error where there is none or it
/// cannot be read. The archive stays as it is.
#[verifier::external_body]
fn read_entry(reader: &mut zip::ZipArchive<std::io::Cursor<Vec<u8>>>, name: &str) -> (r: Result<
    Vec<u8>,
    zip::result::ZipError,
>)
    ensures
        reader_bytes(*final(reader)) == reader_bytes(*old(reader)),
        match archive_content(reader_bytes(*old(reader)), name@) {
            Some(data) => r matches Ok(v) && v@ == data,
            None => r is Err,
        },
{
    let mut file = reader.by_name(name)?;
    let mut data = Vec::new();
    std::io::Read::read_to_end(&mut file, &mut data)?;
    Ok(data)
}

/// `to_string` of `zip::result::ZipError`: the words of the error.
#[verifier::external_body]
fn describe_zip_error(error: &zip::result::ZipError) -> (text: String) {
    error.to_string()
}

/// `to_string` of `std::io::Error`: the words of the error.
#[verifier::external_body]
fn describe_io_error(error: &std::io::Error) -> (text: String) {
    error.to_string()
}

/// A part as it goes into a container: a name and the bytes.
#[derive(Debug, Clone, Default)]
pub struct Part {
    /// The path of the part within the container.
    pub name: String,
    /// The bytes of the part.
    pub data: Vec<u8>,
}

/// An entry as it comes out of a container: a name and, where the entry
/// could be read, the bytes.
#[derive(Debug, Clone, Default)]
pub struct Entry {
    /// The path of the entry within the container.
    pub name: String,
    /// The bytes of the entry; nothing where it could not be read.
    pub data: Option<Vec<u8>>,
}

/// The permissions that every part is written with.
pub const PART_PERMISSIONS: u32 = 0o755;

/// The entry that data is written as under a name: deflated, with the
/// fixed permissions, as on Unix.
pub open spec fn entry_of(name: Seq<char>, data: Seq<u8>) -> EntryModel {
    EntryModel { name, deflated: true, permissions: PART_PERMISSIONS, host: Host::Unix, data }
}

/// The entry that a part is written as.
pub open spec fn part_entry(part: Part) -> EntryModel {
    entry_of(part.name@, part.data@)
}

/// The entries that parts are written as, in order.
pub open spec fn part_entries(parts: Seq<Part>) -> Seq<EntryModel> {
    Seq::new(parts.len(), |i: int| part_entry(parts[i]))
}

/// Whether no two parts have the same name.
pub open spec fn names_distinct(parts: Seq<Part>) -> bool {
    forall|i: int, j: int| 0 <= i < j < parts.len() ==> parts[i].name@ != parts[j].name@
}

/// Tells whether no two parts have the same name.
pub fn has_distinct_names(parts: &Vec<Part>) -> (distinct: bool)
    ensures
        distinct == names_distinct(parts@),
{
    let mut j: usize = 0;
    while j < parts.len()
        invariant
            j <= parts@.len(),
            forall|a: int, b: int| 0 <= a < b < j ==> parts@[a].name@ != parts@[b].name@,
        decreases parts@.len() - j,
    {
        let mut i: usize = 0;
        while i < j
            invariant
                i <= j < parts@.len(),
                forall|a: int| 0 <= a < i ==> parts@[a].name@ != parts@[j as int].name@,
            decreases j - i,
        {
            if crate::lexical::str_eq(parts[i].name.as_str(), parts[j].name.as_str()) {
                return false;
            }
            i = i + 1;
        }
        j = j + 1;
    }
    true
}

/// Whether `zip` accepts the first `count` of the entries one after the
/// other, each started without data and then given its data.
pub open spec fn accepted_among(entries: Seq<EntryModel>, count: nat) -> bool
    decreases count,
{
    if count == 0 || count > entries.len() {
        true
    } else {
        let entry = entries[count - 1];
        let start = started_entry(entry.name, entry.deflated, entry.permissions, entry.host);
        &&& accepted_among(entries, (count - 1) as nat)
        &&& entry_accepted(entries.take(count - 1), start)
        &&& data_accepted(entries.take(count - 1).push(start), entry.data)
    }
}

/// Whether no two entries have the same name.
pub open spec fn entries_distinct(entries: Seq<EntryModel>) -> bool {
    forall|i: int, j: int| 0 <= i < j < entries.len() ==> entries[i].name != entries[j].name
}

/// The archive of the given entries: there is one where no two entries
/// share a name, `zip` accepts every entry and can finish the archive.
pub open spec fn packed(entries: Seq<EntryModel>) -> Option<Seq<u8>> {
    if entries_distinct(entries) && accepted_among(entries, entries.len()) {
        archive_bytes(entries)
    } else {
        None
    }
}

/// Where `zip` accepts the first entries of a list, it accepts the first
/// few of them.
pub proof fn lemma_accepted_among(entries: Seq<EntryModel>, count: nat, more: nat)
    requires
        count <= more <= entries.len(),
        accepted_among(entries, more),
    ensures
        accepted_among(entries, count),
    decreases more,
{
    if more > count {
        lemma_accepted_among(entries, count, (more - 1) as nat);
    }
}

/// Writes parts into a container, in their order, each deflated and with
/// the fixed permissions, as on Unix. Parts that share a name are refused.
/// The result is the archive of exactly these entries where there is one,
/// and an error where there is none.
pub fn pack(parts: &Vec<Part>) -> (r: Result<Vec<u8>, DocxError>)
    ensures
        match packed(part_entries(parts@)) {
            Some(archive) => r matches Ok(bytes) && bytes@ == archive,
            None => r matches Err(e) && (e is Zip || e is IO),
        },
        !names_distinct(parts@) ==> (r matches Err(e) && e is Zip),
        names_distinct(parts@) == entries_distinct(part_entries(parts@)),
{
    let ghost entries = part_entries(parts@);
    proof {
        if names_distinct(parts@) {
            assert forall|i: int, j: int| 0 <= i < j < entries.len() implies entries[i].name
                != entries[j].name by {
                assert(parts@[i].name@ != parts@[j].name@);
            }
        } else {
            let (i, j) = choose|i: int, j: int|
                0 <= i < j < parts@.len() && parts@[i].name@ == parts@[j].name@;
            assert(entries[i].name == entries[j].name);
        }
    }
    if !has_distinct_names(parts) {
        return Err(DocxError::Zip(String::from_str("two parts share a name")));
    }
    let mut writer = new_archive_writer();
    let mut i: usize = 0;
    proof {
        assert(part_entries(parts@.take(0)) =~= Seq::<EntryModel>::empty());
    }
    while i < parts.len()
        invariant
            i <= parts@.len(),
            names_distinct(parts@),
            entries == part_entries(parts@),
            entries_distinct(entries),
            written_entries(writer) == part_entries(parts@.take(i as int)),
            accepted_among(entries, i as nat),
        decreases parts@.len() - i,
    {
        let part = &parts[i];
        let ghost before = written_entries(writer);
        proof {
            assert(before =~= entries.take(i as int));
            assert(entries[i as int] == part_entry(*part));
            if accepted_among(entries, entries.len()) {
                lemma_accepted_among(entries, (i + 1) as nat, entries.len());
            }
        }
        match start_entry(&mut writer, part.name.as_str(), true, PART_PERMISSIONS, Host::Unix) {
            Ok(()) => {},
            Err(e) => {
                return Err(DocxError::Zip(describe_zip_error(&e)));
            },
        }
        match write_entry_data(&mut writer, part.data.as_slice()) {
            Ok(()) => {},
            Err(e) => {
                return Err(DocxError::IO(describe_io_error(&e)));
            },
        }
        proof {
            assert(written_entries(writer) =~= before.push(part_entry(*part)));
            assert(part_entries(parts@.take(i + 1)) =~= part_entries(parts@.take(i as int)).push(
                part_entry(*part),
            ));
        }
        i = i + 1;
    }
    proof {
        assert(parts@.take(parts@.len() as int) =~= parts@);
    }
    match finish_archive(writer) {
        Ok(bytes) => Ok(bytes),
        Err(e) => Err(DocxError::Zip(describe_zip_error(&e))),
    }
}

/// The names among the first `count` of a listing that could be decoded,
/// in order.
pub open spec fn decoded_names(listing: Seq<Option<Seq<char>>>, count: nat) -> Seq<Seq<char>>
    decreases count,
{
    if count == 0 || count > listing.len() {
        Seq::empty()
    } else {
        let before = decoded_names(listing, (count - 1) as nat);
        match listing[count - 1] {
            Some(name) => before.push(name),
            None => before,
        }
    }
}

/// The bytes of an entry that may be unreadable.
pub open spec fn entry_data(entry: Entry) -> Option<Seq<u8>> {
    match entry.data {
        Some(d) => Some(d@),
        None => None,
    }
}

/// Whether entries are what the container `bytes` holds under the given
/// names: one entry for each name, in order, with the data that is read
/// for it.
pub open spec fn entries_of(entries: Seq<Entry>, bytes: Seq<u8>, names: Seq<Seq<char>>) -> bool {
    &&& entries.len() == names.len()
    &&& forall|i: int|
        0 <= i < entries.len() ==> (#[trigger] entries[i]).name@ == names[i] && entry_data(
            entries[i],
        ) == archive_content(bytes, names[i])
}

/// The entries of a list as plain values: the name and, where the entry
/// could be read, the bytes.
pub open spec fn entry_values(entries: Seq<Entry>) -> Seq<(Seq<char>, Option<Seq<u8>>)> {
    Seq::new(entries.len(), |i: int| (entries[i].name@, entry_data(entries[i])))
}

/// The entries that the container `bytes` holds under the given names, as
/// plain values.
pub open spec fn unpacked(bytes: Seq<u8>, names: Seq<Seq<char>>) -> Seq<
    (Seq<char>, Option<Seq<u8>>),
> {
    Seq::new(names.len(), |i: int| (names[i], archive_content(bytes, names[i])))
}

/// Reads a container: every entry whose name can be decoded, in the order
/// of the archive's directory, with its data where it can be read. Fails
/// where the bytes are no archive that can be opened.
pub fn unpack(bytes: Vec<u8>) -> (r: Result<Vec<Entry>, DocxError>)
    ensures
        match archive_listing(bytes@) {
            Some(listing) => r matches Ok(entries) && entries_of(
                entries@,
                bytes@,
                decoded_names(listing, listing.len()),
            ) && entry_values(entries@) == unpacked(bytes@, decoded_names(listing, listing.len())),
            None => r matches Err(e) && e is Zip,
        },
{
    let ghost content = bytes@;
    let mut reader = match open_archive(bytes) {
        Ok(reader) => reader,
        Err(e) => {
            return Err(DocxError::Zip(describe_zip_error(&e)));
        },
    };
    let names = entry_names(&reader);
    let ghost listing = names_model(names@);
    let mut entries: Vec<Entry> = Vec::new();
    let mut i: usize = 0;
    while i < names.len()
        invariant
            i <= names@.len(),
            listing == names_model(names@),
            reader_bytes(reader) == content,
            entries_of(entries@, content, decoded_names(listing, i as nat)),
        decreases names@.len() - i,
    {
        assert(listing[i as int] == match names@[i as int] {
            Some(n) => Some(n@),
            None => None,
        });
        match &names[i] {
            Some(name) => {
                let data = match read_entry(&mut reader, name.as_str()) {
                    Ok(data) => Some(data),
                    Err(_) => None,
                };
                entries.push(Entry { name: name.clone(), data });
            },
            None => {},
        }
        i = i + 1;
    }
    proof {
        assert(entry_values(entries@) =~= unpacked(content, decoded_names(listing, listing.len())));
    }
    Ok(entries)
}

} // verus!
