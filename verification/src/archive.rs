//! Compressed release archives.
use crate::encoding;
use crate::paths;
use crate::paths::Os;
use std::io::Read;
use vstd::prelude::*;

verus! {

/// What an archive says of one of its entries.
pub struct ArchiveEntry {
    pub path: Vec<u8>,
    /// Whether the entry is a regular file.
    pub regular: bool,
    pub size: u64,
}

/// The contents of an [`ArchiveEntry`].
pub struct EntryView {
    pub path: Seq<u8>,
    pub regular: bool,
    pub size: u64,
}

impl View for ArchiveEntry {
    type V = EntryView;

    open spec fn view(&self) -> EntryView {
        EntryView { path: self.path@, regular: self.regular, size: self.size }
    }
}

/// The contents of an entry, or the reason why it could not be read.
pub open spec fn entry_of(entry: Result<ArchiveEntry, String>) -> Result<EntryView, Seq<char>> {
    match entry {
        Ok(entry) => Ok(entry@),
        Err(reason) => Err(reason@),
    }
}

/// The contents of each entry.
pub open spec fn entries(list: Seq<Result<ArchiveEntry, String>>) -> Seq<
    Result<EntryView, Seq<char>>,
> {
    Seq::new(list.len(), |i: int| entry_of(list[i]))
}

/// The contents of a list of entries, or the reason why there is none.
pub open spec fn entries_answer(r: Result<Vec<Result<ArchiveEntry, String>>, String>) -> Result<
    Seq<Result<EntryView, Seq<char>>>,
    Seq<char>,
> {
    match r {
        Ok(list) => Ok(entries(list@)),
        Err(reason) => Err(reason@),
    }
}

/// The contents of an entry's file, or the reason why there are none.
pub open spec fn bytes_answer(r: Result<Vec<u8>, String>) -> Result<Seq<u8>, Seq<char>> {
    match r {
        Ok(bytes) => Ok(bytes@),
        Err(reason) => Err(reason@),
    }
}

/// The entries that `tar` finds in the bytes that `flate2` unpacks, one after the other, with the
/// text of the error for one that cannot be read; or the text of the error where `tar` does not
/// begin to read.
pub uninterp spec fn archive_entries(archive: Seq<u8>) -> Result<
    Seq<Result<EntryView, Seq<char>>>,
    Seq<char>,
>;

/// The first bytes, up to a limit, of the entry at an index of such an archive, or the text of the
/// error with which reading fails. There are none where the archive has no such entry.
pub uninterp spec fn entry_bytes(archive: Seq<u8>, index: int, limit: u64) -> Result<
    Seq<u8>,
    Seq<char>,
>;

/// Calls `tar::Archive::entries` on a `flate2::read::GzDecoder` and hands out the path, the type
/// and the size of each entry, or the text of its error. All of it depends on the bytes alone.
#[verifier::external_body]
pub(crate) fn list_entries(archive: &[u8]) -> (r: Result<Vec<Result<ArchiveEntry, String>>, String>)
    ensures
        entries_answer(r) == archive_entries(archive@),
{
    let mut reader = tar::Archive::new(flate2::read::GzDecoder::new(archive));
    let found = reader.entries().map_err(|error| error.to_string())?;
    Ok(found.map(|entry| entry.map(|entry| ArchiveEntry {
        path: entry.path_bytes().into_owned(),
        regular: entry.header().entry_type().is_file(),
        size: entry.size(),
    }).map_err(|error| error.to_string())).collect())
}

/// Calls `tar::Archive::entries` on a `flate2::read::GzDecoder` and reads one entry up to a limit.
/// The bytes, or the text of the error, depend on the arguments alone.
#[verifier::external_body]
pub(crate) fn read_entry(archive: &[u8], index: usize, limit: u64) -> (r: Result<Vec<u8>, String>)
    ensures
        bytes_answer(r) == entry_bytes(archive@, index as int, limit),
        r matches Ok(bytes) ==> bytes@.len() <= limit,
{
    let mut reader = tar::Archive::new(flate2::read::GzDecoder::new(archive));
    let mut bytes: Vec<u8> = Vec::new();
    let found = reader.entries().map_err(|error| error.to_string())?.nth(index);
    match found {
        Some(entry) => entry.and_then(|entry| entry.take(limit).read_to_end(&mut bytes))
            .map_err(|error| error.to_string())?,
        None => 0,
    };
    Ok(bytes)
}

/// Why an archive yields no executable.
pub enum ArchiveError {
    /// The archive cannot be read, for the given reason.
    Unreadable(String),
    /// An entry has a path that the system cannot express: its characters, as far as it has any.
    UnsupportedPath(String),
    /// The executable occurs twice, is no regular file, or is too large.
    InvalidEntry,
    MissingEntry,
}

/// What is to be done about one entry of an archive.
#[derive(Clone, Copy, PartialEq, Eq, Structural)]
pub enum EntryVerdict {
    /// It is another entry.
    Skip,
    /// It is the one that is looked for.
    Take,
    /// It cannot be read.
    Unreadable,
    /// The system cannot express its path.
    UnsupportedPath,
    /// It has the path that is looked for, but occurs twice, is no regular file, or is too large.
    Invalid,
}

/// What is to be done about an entry where the one under the path `expected` is looked for, given
/// whether that was found before. A path that is not UTF-8 is never the one that is looked for, and
/// Windows cannot express it.
pub open spec fn entry_verdict(
    entry: Result<EntryView, Seq<char>>,
    expected: Seq<char>,
    found: bool,
    limit: u64,
    os: Os,
) -> EntryVerdict {
    match entry {
        Err(_) => EntryVerdict::Unreadable,
        Ok(entry) => if !vstd::utf8::valid_utf8(entry.path) {
            if os is Windows {
                EntryVerdict::UnsupportedPath
            } else {
                EntryVerdict::Skip
            }
        } else if !paths::same_path(vstd::utf8::decode_utf8(entry.path), expected, os) {
            EntryVerdict::Skip
        } else if found || !entry.regular || entry.size > limit {
            EntryVerdict::Invalid
        } else {
            EntryVerdict::Take
        },
    }
}

/// What is to be done about an entry where the one under the path `expected` is looked for.
pub fn judge_entry(
    entry: &Result<ArchiveEntry, String>,
    expected: &str,
    found: bool,
    limit: u64,
    os: Os,
) -> (r: EntryVerdict)
    ensures
        r == entry_verdict(entry_of(*entry), expected@, found, limit, os),
{
    match entry {
        Err(_) => EntryVerdict::Unreadable,
        Ok(entry) => match encoding::utf8_text(entry.path.as_slice()) {
            Err(_) => {
                if os == Os::Windows {
                    EntryVerdict::UnsupportedPath
                } else {
                    EntryVerdict::Skip
                }
            },
            Ok(path) => {
                if !paths::paths_agree(path.as_str(), expected, os) {
                    EntryVerdict::Skip
                } else if found || !entry.regular || entry.size > limit {
                    EntryVerdict::Invalid
                } else {
                    EntryVerdict::Take
                }
            },
        },
    }
}

/// Why an archive yields nothing.
pub enum EntryFault {
    /// It cannot be read, for the given reason.
    Unreadable(Seq<char>),
    /// The system cannot express the path.
    UnsupportedPath(Seq<u8>),
    Invalid,
    Missing,
}

/// What comes out of the entries from index `i` on, where `found` came out of the earlier ones: the
/// bytes of the only entry under the path, one byte more than the limit at most.
pub open spec fn taken(
    archive: Seq<u8>,
    list: Seq<Result<EntryView, Seq<char>>>,
    expected: Seq<char>,
    limit: u64,
    os: Os,
    i: int,
    found: Option<Seq<u8>>,
) -> Result<Seq<u8>, EntryFault>
    decreases list.len() - i,
{
    if i >= list.len() {
        match found {
            Some(bytes) => Ok(bytes),
            None => Err(EntryFault::Missing),
        }
    } else {
        match entry_verdict(list[i], expected, found is Some, limit, os) {
            EntryVerdict::Skip => taken(archive, list, expected, limit, os, i + 1, found),
            EntryVerdict::Take => match entry_bytes(archive, i, (limit + 1) as u64) {
                Ok(bytes) => taken(archive, list, expected, limit, os, i + 1, Some(bytes)),
                Err(reason) => Err(EntryFault::Unreadable(reason)),
            },
            EntryVerdict::Unreadable => Err(EntryFault::Unreadable(list[i]->Err_0)),
            EntryVerdict::UnsupportedPath => Err(EntryFault::UnsupportedPath(list[i]->Ok_0.path)),
            EntryVerdict::Invalid => Err(EntryFault::Invalid),
        }
    }
}

/// What comes out of an archive under the path `expected`.
pub open spec fn extraction(archive: Seq<u8>, expected: Seq<char>, limit: u64, os: Os) -> Result<
    Seq<u8>,
    EntryFault,
> {
    match archive_entries(archive) {
        Ok(list) => taken(archive, list, expected, limit, os, 0, None),
        Err(reason) => Err(EntryFault::Unreadable(reason)),
    }
}

/// Whether an error stands for a fault.
pub open spec fn reports(error: ArchiveError, fault: EntryFault) -> bool {
    match fault {
        EntryFault::Unreadable(reason) => error matches ArchiveError::Unreadable(shown) && shown@
            == reason,
        EntryFault::UnsupportedPath(path) => error matches ArchiveError::UnsupportedPath(shown)
            && shown@ == encoding::utf8_lossy(path),
        EntryFault::Invalid => error is InvalidEntry,
        EntryFault::Missing => error is MissingEntry,
    }
}

/// Takes the file under the path `expected` out of a compressed archive. It has to be there once,
/// as a regular file of no more than `limit` bytes.
pub fn extract_file(archive: &[u8], expected: &str, limit: u64, os: Os) -> (r: Result<
    Vec<u8>,
    ArchiveError,
>)
    requires
        limit < u64::MAX,
    ensures
        match r {
            Ok(bytes) => extraction(archive@, expected@, limit, os)
                == Ok::<Seq<u8>, EntryFault>(bytes@),
            Err(error) => extraction(
                archive@,
                expected@,
                limit,
                os,
            ) matches Err(fault) && reports(error, fault),
        },
{
    let list = match list_entries(archive) {
        Ok(list) => list,
        Err(reason) => return Err(ArchiveError::Unreadable(reason)),
    };
    let ghost all = entries(list@);
    let mut found: Option<Vec<u8>> = None;
    let mut i: usize = 0;
    while i < list.len()
        invariant
            i <= list@.len(),
            limit < u64::MAX,
            all == entries(list@),
            archive_entries(archive@) == Ok::<Seq<Result<EntryView, Seq<char>>>, Seq<char>>(all),
            extraction(archive@, expected@, limit, os) == taken(
                archive@,
                all,
                expected@,
                limit,
                os,
                i as int,
                match found {
                    Some(bytes) => Some(bytes@),
                    None => None,
                },
            ),
        decreases list@.len() - i,
    {
        assert(all[i as int] == entry_of(list@[i as int]));
        match judge_entry(&list[i], expected, found.is_some(), limit, os) {
            EntryVerdict::Skip => {},
            EntryVerdict::Take => match read_entry(archive, i, limit + 1) {
                Ok(bytes) => {
                    found = Some(bytes);
                },
                Err(reason) => return Err(ArchiveError::Unreadable(reason)),
            },
            EntryVerdict::Invalid => return Err(ArchiveError::InvalidEntry),
            EntryVerdict::UnsupportedPath => match &list[i] {
                Ok(entry) => {
                    let shown = encoding::lossy_text(entry.path.as_slice());
                    return Err(ArchiveError::UnsupportedPath(shown));
                },
                Err(_) => {},
            },
            EntryVerdict::Unreadable => match &list[i] {
                Ok(_) => {},
                Err(reason) => return Err(ArchiveError::Unreadable(reason.clone())),
            },
        }
        i = i + 1;
    }
    match found {
        Some(bytes) => Ok(bytes),
        None => Err(ArchiveError::MissingEntry),
    }
}

/// Whether the entry at `index` is the only one under the path, a regular file within the limit,
/// and can be read, as all others can.
pub open spec fn is_sole_entry(
    archive: Seq<u8>,
    list: Seq<Result<EntryView, Seq<char>>>,
    expected: Seq<char>,
    limit: u64,
    os: Os,
    index: int,
) -> bool {
    &&& 0 <= index < list.len()
    &&& forall|k: int|
        0 <= k < list.len() ==> entry_verdict(
            #[trigger] list[k],
            expected,
            index < k,
            limit,
            os,
        ) == (if k == index {
            EntryVerdict::Take
        } else {
            EntryVerdict::Skip
        })
    &&& entry_bytes(archive, index, (limit + 1) as u64) is Ok
}

proof fn lemma_taken(
    archive: Seq<u8>,
    list: Seq<Result<EntryView, Seq<char>>>,
    expected: Seq<char>,
    limit: u64,
    os: Os,
    i: int,
    found: Option<int>,
)
    requires
        0 <= i <= list.len(),
        found matches Some(index) ==> 0 <= index < i && entry_bytes(
            archive,
            index,
            (limit + 1) as u64,
        ) is Ok,
        forall|k: int|
            0 <= k < i ==> entry_verdict(
                #[trigger] list[k],
                expected,
                found is Some && found->Some_0 < k,
                limit,
                os,
            ) == (if found == Some(k) {
                EntryVerdict::Take
            } else {
                EntryVerdict::Skip
            }),
    ensures
        ({
            let bytes = match found {
                Some(index) => Some(entry_bytes(archive, index, (limit + 1) as u64)->Ok_0),
                None => None,
            };
            taken(archive, list, expected, limit, os, i, bytes) matches Ok(bytes) ==> exists|
                index: int,
            |
                #[trigger] is_sole_entry(archive, list, expected, limit, os, index)
                    && entry_bytes(archive, index, (limit + 1) as u64) == Ok::<
                    Seq<u8>,
                    Seq<char>,
                >(bytes)
        }),
    decreases list.len() - i,
{
    if i >= list.len() {
        if let Some(index) = found {
            assert forall|k: int| 0 <= k < list.len() implies entry_verdict(
                #[trigger] list[k],
                expected,
                index < k,
                limit,
                os,
            ) == (if k == index {
                EntryVerdict::Take
            } else {
                EntryVerdict::Skip
            }) by {
                assert(entry_verdict(
                    list[k],
                    expected,
                    found is Some && found->Some_0 < k,
                    limit,
                    os,
                ) == (if found == Some(k) {
                    EntryVerdict::Take
                } else {
                    EntryVerdict::Skip
                }));
            }
            assert(is_sole_entry(archive, list, expected, limit, os, index));
        }
    } else {
        match entry_verdict(list[i], expected, found is Some, limit, os) {
            EntryVerdict::Skip => {
                lemma_taken(archive, list, expected, limit, os, i + 1, found);
            },
            EntryVerdict::Take => {
                if entry_bytes(archive, i, (limit + 1) as u64) is Ok {
                    lemma_taken(archive, list, expected, limit, os, i + 1, Some(i));
                }
            },
            _ => {},
        }
    }
}

/// What comes out of an archive are the bytes of the one entry that has the path: a regular file
/// within the limit, in an archive that can be read to its end.
pub proof fn extracted_entry_is_the_only_one(
    archive: Seq<u8>,
    expected: Seq<char>,
    limit: u64,
    os: Os,
)
    requires
        extraction(archive, expected, limit, os) is Ok,
    ensures
        archive_entries(archive) is Ok,
        exists|index: int|
            #[trigger] is_sole_entry(
                archive,
                archive_entries(archive)->Ok_0,
                expected,
                limit,
                os,
                index,
            ) && entry_bytes(archive, index, (limit + 1) as u64) == Ok::<Seq<u8>, Seq<char>>(
                extraction(archive, expected, limit, os)->Ok_0,
            ),
{
    lemma_taken(archive, archive_entries(archive)->Ok_0, expected, limit, os, 0, None);
}

/// An entry is taken exactly where it can be read, its path is the one that is looked for, it is the
/// first with that path, and it is a regular file within the limit; with that path and without the
/// rest it is invalid, and with another path it does not matter.
pub proof fn entries_are_judged(
    entry: EntryView,
    reason: Seq<char>,
    path: Seq<char>,
    expected: Seq<char>,
    found: bool,
    limit: u64,
    os: Os,
)
    ensures
        entry.path == vstd::utf8::encode_utf8(path) && !paths::same_path(path, expected, os)
            ==> entry_verdict(Ok(entry), expected, found, limit, os) is Skip,
        entry.path == vstd::utf8::encode_utf8(path) && paths::same_path(path, expected, os) ==> (
        entry_verdict(Ok(entry), expected, found, limit, os) is Take <==> !found && entry.regular
            && entry.size <= limit),
        entry.path == vstd::utf8::encode_utf8(path) && paths::same_path(path, expected, os) ==> (
        entry_verdict(Ok(entry), expected, found, limit, os) is Invalid <==> found || !entry.regular
            || entry.size > limit),
        !vstd::utf8::valid_utf8(entry.path) ==> entry_verdict(Ok(entry), expected, found, limit, os)
            == (if os is Windows {
            EntryVerdict::UnsupportedPath
        } else {
            EntryVerdict::Skip
        }),
        entry_verdict(Err(reason), expected, found, limit, os) is Unreadable,
{
    vstd::utf8::encode_utf8_decode_utf8(path);
    vstd::utf8::encode_utf8_valid_utf8(path);
}

proof fn lemma_skipped(
    archive: Seq<u8>,
    list: Seq<Result<EntryView, Seq<char>>>,
    expected: Seq<char>,
    limit: u64,
    os: Os,
    i: int,
    n: int,
    found: Option<Seq<u8>>,
)
    requires
        0 <= i <= n <= list.len(),
        forall|k: int|
            i <= k < n ==> entry_verdict(#[trigger] list[k], expected, found is Some, limit, os)
                == EntryVerdict::Skip,
    ensures
        taken(archive, list, expected, limit, os, i, found) == taken(
            archive,
            list,
            expected,
            limit,
            os,
            n,
            found,
        ),
    decreases n - i,
{
    if i < n {
        assert(entry_verdict(list[i], expected, found is Some, limit, os) == EntryVerdict::Skip);
        lemma_skipped(archive, list, expected, limit, os, i + 1, n, found);
    }
}

/// The only entry under the path, if it is a regular file within the limit, comes out of every
/// archive that can be read, wherever it stands in it.
pub proof fn sole_entries_are_extracted(
    archive: Seq<u8>,
    list: Seq<Result<EntryView, Seq<char>>>,
    expected: Seq<char>,
    limit: u64,
    os: Os,
    index: int,
)
    requires
        archive_entries(archive) == Ok::<Seq<Result<EntryView, Seq<char>>>, Seq<char>>(list),
        0 <= index < list.len(),
        entry_verdict(list[index], expected, false, limit, os) is Take,
        forall|k: int|
            0 <= k < list.len() && k != index ==> entry_verdict(
                #[trigger] list[k],
                expected,
                index < k,
                limit,
                os,
            ) == EntryVerdict::Skip,
    ensures
        match entry_bytes(archive, index, (limit + 1) as u64) {
            Ok(bytes) => extraction(archive, expected, limit, os) == Ok::<Seq<u8>, EntryFault>(bytes),
            Err(reason) => extraction(archive, expected, limit, os) == Err::<Seq<u8>, EntryFault>(
                EntryFault::Unreadable(reason),
            ),
        },
{
    assert forall|k: int| 0 <= k < index implies entry_verdict(
        #[trigger] list[k],
        expected,
        None::<Seq<u8>> is Some,
        limit,
        os,
    ) == EntryVerdict::Skip by {
        assert(entry_verdict(list[k], expected, index < k, limit, os) == EntryVerdict::Skip);
    }
    lemma_skipped(archive, list, expected, limit, os, 0, index, None);
    if let Ok(bytes) = entry_bytes(archive, index, (limit + 1) as u64) {
        let found = Some(bytes);
        assert forall|k: int| index + 1 <= k < list.len() implies entry_verdict(
            #[trigger] list[k],
            expected,
            found is Some,
            limit,
            os,
        ) == EntryVerdict::Skip by {
            assert(entry_verdict(list[k], expected, index < k, limit, os) == EntryVerdict::Skip);
        }
        lemma_skipped(
            archive,
            list,
            expected,
            limit,
            os,
            index + 1,
            list.len() as int,
            found,
        );
    }
}

/// An archive without the entry is reported as such, and the first entry that is at fault decides
/// where there is one before anything was found; what `tar` says of an archive that it cannot begin
/// to read is passed on.
pub proof fn archive_faults_are_found(
    archive: Seq<u8>,
    list: Seq<Result<EntryView, Seq<char>>>,
    expected: Seq<char>,
    limit: u64,
    os: Os,
    n: int,
)
    requires
        archive_entries(archive) == Ok::<Seq<Result<EntryView, Seq<char>>>, Seq<char>>(list),
        0 <= n <= list.len(),
        forall|k: int|
            0 <= k < n ==> entry_verdict(#[trigger] list[k], expected, false, limit, os)
                == EntryVerdict::Skip,
    ensures
        n == list.len() ==> extraction(archive, expected, limit, os) == Err::<Seq<u8>, EntryFault>(
            EntryFault::Missing,
        ),
        n < list.len() ==> match entry_verdict(list[n], expected, false, limit, os) {
            EntryVerdict::Unreadable => extraction(archive, expected, limit, os) == Err::<
                Seq<u8>,
                EntryFault,
            >(EntryFault::Unreadable(list[n]->Err_0)),
            EntryVerdict::UnsupportedPath => extraction(archive, expected, limit, os) == Err::<
                Seq<u8>,
                EntryFault,
            >(EntryFault::UnsupportedPath(list[n]->Ok_0.path)),
            EntryVerdict::Invalid => extraction(archive, expected, limit, os) == Err::<
                Seq<u8>,
                EntryFault,
            >(EntryFault::Invalid),
            _ => true,
        },
{
    lemma_skipped(archive, list, expected, limit, os, 0, n, None);
}

/// An archive that cannot be read at all is reported with the reason.
pub proof fn unreadable_archives_are_reported(
    archive: Seq<u8>,
    expected: Seq<char>,
    limit: u64,
    os: Os,
)
    ensures
        archive_entries(archive) matches Err(reason) ==> extraction(archive, expected, limit, os)
            == Err::<Seq<u8>, EntryFault>(EntryFault::Unreadable(reason)),
{
}

/// Each fault is reported by the error that stands for it, with its own reason or path.
pub proof fn faults_have_errors_of_their_own(
    error: ArchiveError,
    fault: EntryFault,
    other: EntryFault,
)
    requires
        reports(error, fault),
        reports(error, other),
    ensures
        fault is Unreadable <==> other is Unreadable,
        fault is UnsupportedPath <==> other is UnsupportedPath,
        fault is Invalid <==> other is Invalid,
        fault is Missing <==> other is Missing,
        fault is Unreadable ==> fault == other,
        error is MissingEntry <==> fault is Missing,
        error is InvalidEntry <==> fault is Invalid,
{
}

/// Contracts speak of what the entries of an archive hold, one by one.
pub proof fn entries_are_taken_as_they_are(
    entry: ArchiveEntry,
    reason: String,
    list: Vec<Result<ArchiveEntry, String>>,
    bytes: Vec<u8>,
    i: int,
)
    ensures
        entry_of(Ok(entry)) == Ok::<EntryView, Seq<char>>(
            EntryView { path: entry.path@, regular: entry.regular, size: entry.size },
        ),
        entry_of(Err(reason)) == Err::<EntryView, Seq<char>>(reason@),
        entries(list@).len() == list@.len(),
        0 <= i < list@.len() ==> entries(list@)[i] == entry_of(list@[i]),
        entries_answer(Ok(list)) == Ok::<Seq<Result<EntryView, Seq<char>>>, Seq<char>>(
            entries(list@),
        ),
        entries_answer(Err(reason)) == Err::<Seq<Result<EntryView, Seq<char>>>, Seq<char>>(reason@),
        bytes_answer(Ok(bytes)) == Ok::<Seq<u8>, Seq<char>>(bytes@),
        bytes_answer(Err(reason)) == Err::<Seq<u8>, Seq<char>>(reason@),
{
}

/// Once the entry has been taken, a later fault still counts: nothing comes out of an archive that
/// names it twice or that cannot be read to its end.
pub proof fn later_faults_count(
    archive: Seq<u8>,
    list: Seq<Result<EntryView, Seq<char>>>,
    expected: Seq<char>,
    limit: u64,
    os: Os,
    index: int,
    n: int,
)
    requires
        archive_entries(archive) == Ok::<Seq<Result<EntryView, Seq<char>>>, Seq<char>>(list),
        0 <= index < n < list.len(),
        entry_verdict(list[index], expected, false, limit, os) is Take,
        entry_bytes(archive, index, (limit + 1) as u64) is Ok,
        forall|k: int|
            0 <= k < n && k != index ==> entry_verdict(
                #[trigger] list[k],
                expected,
                index < k,
                limit,
                os,
            ) == EntryVerdict::Skip,
    ensures
        match entry_verdict(list[n], expected, true, limit, os) {
            EntryVerdict::Unreadable => extraction(archive, expected, limit, os) == Err::<
                Seq<u8>,
                EntryFault,
            >(EntryFault::Unreadable(list[n]->Err_0)),
            EntryVerdict::UnsupportedPath => extraction(archive, expected, limit, os) == Err::<
                Seq<u8>,
                EntryFault,
            >(EntryFault::UnsupportedPath(list[n]->Ok_0.path)),
            EntryVerdict::Invalid => extraction(archive, expected, limit, os) == Err::<
                Seq<u8>,
                EntryFault,
            >(EntryFault::Invalid),
            _ => true,
        },
{
    assert forall|k: int| 0 <= k < index implies entry_verdict(
        #[trigger] list[k],
        expected,
        None::<Seq<u8>> is Some,
        limit,
        os,
    ) == EntryVerdict::Skip by {
        assert(entry_verdict(list[k], expected, index < k, limit, os) == EntryVerdict::Skip);
    }
    lemma_skipped(archive, list, expected, limit, os, 0, index, None);
    let found = Some(entry_bytes(archive, index, (limit + 1) as u64)->Ok_0);
    assert forall|k: int| index + 1 <= k < n implies entry_verdict(
        #[trigger] list[k],
        expected,
        found is Some,
        limit,
        os,
    ) == EntryVerdict::Skip by {
        assert(entry_verdict(list[k], expected, index < k, limit, os) == EntryVerdict::Skip);
    }
    lemma_skipped(archive, list, expected, limit, os, index + 1, n, found);
}

} // verus!
