//! Trusted bindings to the zip archive writer, over an in-memory buffer.
//! The writer's contents are modelled by `zw_entry_log`: the entries written
//! so far, each a (path, is-directory, text) triple. Every entry is written
//! with one fixed, non-current timestamp, so the finished bytes are a
//! function of the entries alone; `zip_encoding` names that function.
use vstd::prelude::*;
use std::io::Write;

verus! {

/// An archive writer over an in-memory buffer. The zip writer's own type
/// takes trait-bounded generics that cannot be declared here, so it sits in
/// a hidden field and is reached only through the trusted functions below.
#[verifier::external_body]
pub struct ArchiveWriter {
    inner: zip::ZipWriter<std::io::Cursor<Vec<u8>>>,
}

/// The entries written to the archive so far, in order: each entry's path,
/// whether it is a directory, and the text written into it.
pub uninterp spec fn zw_entry_log(w: ArchiveWriter) -> Seq<(Seq<char>, bool, Seq<char>)>;

/// That the writer is clean: every operation on it so far succeeded, every
/// stored entry fits the format's limits (names within the 64 KiB length
/// field, file data far enough under the 4 GiB threshold that finalizing
/// cannot overflow a size field), and every directory entry was added under
/// a name without a trailing slash, so that the writer's own name table
/// holds exactly the keys `spec_entry_key` gives. A fresh writer is clean;
/// an operation whose success clause below fires keeps it clean; after any
/// failure nothing is claimed.
pub uninterp spec fn zw_ok(w: ArchiveWriter) -> bool;

/// The bytes of the finished archive holding the given entries, all under
/// the fixed timestamp policy.
pub uninterp spec fn zip_encoding(entries: Seq<(Seq<char>, bool, Seq<char>)>) -> Seq<u8>;

/// The name under which the writer stores one entry: directories are keyed
/// with a trailing slash appended, files under their path as given.
pub open spec fn spec_entry_key(e: (Seq<char>, bool, Seq<char>)) -> Seq<char> {
    if e.1 {
        e.0 + "/"@
    } else {
        e.0
    }
}

/// The stored names of all entries, in order.
pub open spec fn spec_entry_keys(entries: Seq<(Seq<char>, bool, Seq<char>)>) -> Seq<Seq<char>> {
    entries.map_values(|e: (Seq<char>, bool, Seq<char>)| spec_entry_key(e))
}

/// Relies on zip::ZipWriter::new over an in-memory cursor: a fresh archive
/// writer holding no entries, in a clean state.
#[verifier::external_body]
pub(crate) fn zip_writer_new() -> (w: ArchiveWriter)
    ensures
        zw_entry_log(w) == Seq::<(Seq<char>, bool, Seq<char>)>::empty(),
        zw_ok(w),
{
    ArchiveWriter { inner: zip::ZipWriter::new(std::io::Cursor::new(Vec::new())) }
}

/// Relies on zip::ZipWriter::start_file with the fixed timestamp options:
/// on success the archive gains one file entry under the given name, its
/// contents still empty. On a clean in-memory writer the only refusals are
/// a stored name taken already and a name over the format's 64 KiB length
/// field, so a fresh name within that bound succeeds and keeps the writer
/// clean (a character encodes to at most four bytes, hence the margin).
#[verifier::external_body]
pub(crate) fn zip_start_file(
    w: &mut ArchiveWriter,
    name: &str,
) -> (r: bool)
    ensures
        r ==> zw_entry_log(*final(w)) == zw_entry_log(*old(w)).push(
            (name@, false, Seq::<char>::empty()),
        ),
        (zw_ok(*old(w)) && !spec_entry_keys(zw_entry_log(*old(w))).contains(name@) && 4 * name@.len()
            <= 65535) ==> (r && zw_ok(*final(w))),
{
    let stamp = zip::DateTime::from_date_and_time(1980, 1, 1, 0, 0, 0).unwrap_or_default();
    let options = zip::write::SimpleFileOptions::default().last_modified_time(stamp);
    w.inner.start_file(name, options).is_ok()
}

/// Relies on the std::io::Write impl of zip::ZipWriter (write_all): appends
/// the text's bytes to the file entry most recently started. On a clean
/// in-memory writer the only refusal is crossing the format's 4 GiB
/// per-entry threshold, so a write keeping the entry's worst-case encoded
/// size under half that bound succeeds and keeps the writer clean.
#[verifier::external_body]
pub(crate) fn zip_write_text(
    w: &mut ArchiveWriter,
    text: &str,
) -> (r: bool)
    requires
        zw_entry_log(*old(w)).len() > 0,
        !zw_entry_log(*old(w)).last().1,
    ensures
        r ==> zw_entry_log(*final(w)) == zw_entry_log(*old(w)).update(
            zw_entry_log(*old(w)).len() - 1,
            (
                zw_entry_log(*old(w)).last().0,
                false,
                zw_entry_log(*old(w)).last().2 + text@,
            ),
        ),
        (zw_ok(*old(w)) && 4 * zw_entry_log(*old(w)).last().2.len() + 4 * text@.len()
            <= 0x8000_0000) ==> (r && zw_ok(*final(w))),
{
    w.inner.write_all(text.as_bytes()).is_ok()
}

/// Relies on zip::ZipWriter::add_directory with the fixed timestamp
/// options: on success the archive gains one directory entry under the
/// given name. The writer stores the name with a slash appended; on a clean
/// in-memory writer a name without a trailing slash or backslash, whose
/// stored form is fresh and within the 64 KiB length field, succeeds and
/// keeps the writer clean.
#[verifier::external_body]
pub(crate) fn zip_add_directory(
    w: &mut ArchiveWriter,
    name: &str,
) -> (r: bool)
    ensures
        r ==> zw_entry_log(*final(w)) == zw_entry_log(*old(w)).push((name@, true, Seq::<char>::empty())),
        (zw_ok(*old(w)) && !spec_entry_keys(zw_entry_log(*old(w))).contains(name@ + "/"@) && 4
            * name@.len() + 4 <= 65535 && (name@.len() == 0 || (name@.last() != '/' && name@.last()
            != '\\'))) ==> (r && zw_ok(*final(w))),
{
    let stamp = zip::DateTime::from_date_and_time(1980, 1, 1, 0, 0, 0).unwrap_or_default();
    let options = zip::write::SimpleFileOptions::default().last_modified_time(stamp);
    w.inner.add_directory(name, options).is_ok()
}

/// Relies on zip::ZipWriter::finish: finalizing the stream yields the bytes
/// of a valid archive holding exactly the entries written, determined by
/// those entries alone. On a clean in-memory writer finalizing cannot fail:
/// the central directory is written to the cursor, oversized counts and
/// offsets go to the 64-bit footer, and every stored name already fit its
/// length field.
#[verifier::external_body]
pub(crate) fn zip_finish(w: ArchiveWriter) -> (r: Option<Vec<u8>>)
    ensures
        r matches Some(bytes) ==> bytes@ == zip_encoding(zw_entry_log(w)),
        zw_ok(w) ==> r is Some,
{
    match w.inner.finish() {
        Ok(cursor) => Some(cursor.into_inner()),
        Err(_) => None,
    }
}

} // verus!
