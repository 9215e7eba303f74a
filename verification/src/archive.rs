//! Reading an update archive: which of its files are installed, checked
//! against the running executable before anything touches the disk.

use crate::text::{chars_eq_ignore_ascii_case, chars_of, eq_ascii_case, to_lowercase, unicode_lower};
use crate::updater::{installable, UpdateError};
use std::io::Read;
use vstd::prelude::*;

verus! {

#[verifier::external_type_specification]
#[verifier::external_body]
#[verifier::reject_recursive_types(R)]
pub struct ExZipArchive<R>(zip::ZipArchive<R>);

#[verifier::external_type_specification]
#[verifier::external_body]
#[verifier::reject_recursive_types(T)]
pub struct ExCursor<T>(std::io::Cursor<T>);

/// An archive read from memory.
pub type MemoryZip = zip::ZipArchive<std::io::Cursor<Vec<u8>>>;

/// What one entry of an archive reads as: `None` when `by_index` cannot read
/// its header; otherwise its safe relative path (as components; `None` when
/// the stored name would escape the target), whether it is a directory, and
/// its contents (`None` when they cannot be read or decompressed).
pub type EntryModel = Option<(Option<Seq<Seq<char>>>, bool, Option<Seq<u8>>)>;

/// Path components by value.
pub open spec fn path_view(p: Option<Vec<String>>) -> Option<Seq<Seq<char>>> {
    match p {
        Some(v) => Some(v@.map_values(|c: String| c@)),
        None => None,
    }
}

/// The entries an open archive holds, in central-directory order.
pub uninterp spec fn zip_contents(a: MemoryZip) -> Seq<EntryModel>;

/// What `ZipArchive::new` reads from these bytes: `None` when they are not
/// a readable archive, else its entries. The central directory and each
/// entry are read from the bytes alone, so the same bytes always give the
/// same answer.
pub uninterp spec fn zip_listing(bytes: Seq<u8>) -> Option<Seq<EntryModel>>;

/// Calls `ZipArchive::new` on the bytes: an archive exactly when the bytes
/// are a readable one, holding the named listing.
#[verifier::external_body]
fn zip_open(bytes: Vec<u8>) -> (r: Option<MemoryZip>)
    ensures
        r is Some <==> zip_listing(bytes@) is Some,
        r matches Some(a) ==> zip_listing(bytes@) == Some(zip_contents(a)),
{
    zip::ZipArchive::new(std::io::Cursor::new(bytes)).ok()
}

/// Calls `ZipArchive::len`: the number of entries.
#[verifier::external_body]
fn zip_len(a: &MemoryZip) -> (n: usize)
    ensures
        n == zip_contents(*a).len(),
{
    a.len()
}

/// Calls `ZipArchive::by_index` and gives the entry's `enclosed_name` split
/// into components and `is_dir`, without reading its data. The source
/// refuses an index past the last entry; an entry whose header cannot be
/// read is the listing's `None`. Reading does not change the contents.
#[verifier::external_body]
fn zip_entry_meta(a: &mut MemoryZip, i: usize) -> (r: Option<(Option<Vec<String>>, bool)>)
    ensures
        zip_contents(*final(a)) == zip_contents(*old(a)),
        r is None <==> (i >= zip_contents(*old(a)).len() || zip_contents(*old(a))[i as int] is None),
        r matches Some(m) ==> (zip_contents(*old(a))[i as int] matches Some(e) && e.0 == path_view(m.0)
            && e.1 == m.1),
{
    match a.by_index(i) {
        Ok(f) => Some((f.enclosed_name().map(|p| p.components().map(|c| c.as_os_str().to_string_lossy().into_owned()).collect()), f.is_dir())),
        Err(_) => None,
    }
}

/// Calls `ZipArchive::by_index` and reads the entry's data to the end;
/// `None` when the header or the data cannot be read. Reading does not
/// change the contents.
#[verifier::external_body]
fn zip_entry_data(a: &mut MemoryZip, i: usize) -> (r: Option<Vec<u8>>)
    ensures
        zip_contents(*final(a)) == zip_contents(*old(a)),
        r is Some <==> (i < zip_contents(*old(a)).len() && (zip_contents(*old(a))[i as int] matches Some(e)
            && e.2 is Some)),
        r matches Some(d) ==> (zip_contents(*old(a))[i as int] matches Some(e) && e.2 == Some(d@)),
{
    let mut f = match a.by_index(i) {
        Ok(f) => f,
        Err(_) => return None,
    };
    let mut data = Vec::new();
    match f.read_to_end(&mut data) {
        Ok(_) => Some(data),
        Err(_) => None,
    }
}

/// A file to install: its relative path and bytes.
pub struct StagedFile {
    /// Relative path components.
    pub path: Vec<String>,
    /// Contents.
    pub data: Vec<u8>,
}

/// A staged file seen by value.
pub open spec fn staged_view(f: StagedFile) -> (Seq<Seq<char>>, Seq<u8>) {
    (f.path@.map_values(|c: String| c@), f.data@)
}

/// An entry is installed when it is a file with a safe path whose first
/// component is not `config` or `logs`; other entries are passed over
/// without reading their data.
pub open spec fn installed_entry(e: (Option<Seq<Seq<char>>>, bool, Option<Seq<u8>>)) -> bool {
    !e.1 && match e.0 {
        Some(p) => p.len() > 0 && installable(p[0]),
        None => false,
    }
}

/// The entry's file name is the executable's (ASCII case ignored).
pub open spec fn names_exe(e: (Option<Seq<Seq<char>>>, bool, Option<Seq<u8>>), exe: Seq<char>) -> bool {
    match e.0 {
        Some(p) => p.len() > 0 && eq_ascii_case(p.last(), exe),
        None => false,
    }
}

/// Looking for the executable entry by entry: `None` when an entry's header
/// cannot be read before a match, else whether one names it.
pub open spec fn exe_scan(c: Seq<EntryModel>, exe: Seq<char>) -> Option<bool>
    decreases c.len(),
{
    if c.len() == 0 {
        Some(false)
    } else {
        match c[0] {
            None => None,
            Some(e) => if names_exe(e, exe) {
                Some(true)
            } else {
                exe_scan(c.drop_first(), exe)
            },
        }
    }
}

/// The installed files of a listing, in order, as (path, bytes): `None` when
/// an entry's header, or the data of an entry to install, cannot be read.
pub open spec fn staged_of(c: Seq<EntryModel>) -> Option<Seq<(Seq<Seq<char>>, Seq<u8>)>>
    decreases c.len(),
{
    if c.len() == 0 {
        Some(Seq::empty())
    } else {
        match staged_of(c.drop_last()) {
            None => None,
            Some(v) => match c.last() {
                None => None,
                Some(e) => if installed_entry(e) {
                    match e.2 {
                        Some(d) => Some(v.push((e.0.unwrap(), d))),
                        None => None,
                    }
                } else {
                    Some(v)
                },
            },
        }
    }
}

/// Why an archive cannot be staged or unpacked.
#[derive(Debug, Clone, PartialEq, Eq)]
pub enum ArchiveError {
    /// The bytes are not a readable archive, or an entry cannot be read.
    Unreadable,
    /// The archive does not carry the running executable.
    MissingExe,
    /// Nothing in the archive is to be installed.
    Empty,
    /// An entry's name would escape the target directory.
    UnsafePath,
}

/// What staging an update archive gives: unreadable bytes fail; with the
/// running executable's name known, the archive must carry it (scanning
/// stops at the first unreadable entry); then the installed files, which
/// must be readable and not none.
pub open spec fn stage_plan(bytes: Seq<u8>, exe: Option<Seq<char>>) -> Result<Seq<(Seq<Seq<char>>, Seq<u8>)>, ArchiveError> {
    match zip_listing(bytes) {
        None => Err(ArchiveError::Unreadable),
        Some(c) => {
            let scan: Result<(), ArchiveError> = match exe {
                None => Ok(()),
                Some(x) => match exe_scan(c, x) {
                    None => Err(ArchiveError::Unreadable),
                    Some(false) => Err(ArchiveError::MissingExe),
                    Some(true) => Ok(()),
                },
            };
            match scan {
                Err(e) => Err(e),
                Ok(()) => match staged_of(c) {
                    None => Err(ArchiveError::Unreadable),
                    Some(v) => if v.len() == 0 {
                        Err(ArchiveError::Empty)
                    } else {
                        Ok(v)
                    },
                },
            }
        },
    }
}

/// Once a prefix of the listing cannot be staged, no longer prefix can.
proof fn lemma_staged_stays_none(c: Seq<EntryModel>, k: int, m: int)
    requires
        0 <= k <= m <= c.len(),
        staged_of(c.take(k)) is None,
    ensures
        staged_of(c.take(m)) is None,
    decreases m - k,
{
    if m > k {
        lemma_staged_stays_none(c, k, m - 1);
        assert(c.take(m).drop_last() =~= c.take(m - 1));
    }
}

/// Whether some entry of `a` names the executable; `None` when an entry's
/// header cannot be read before a match is found.
fn find_exe(a: &mut MemoryZip, exe: &str) -> (r: Option<bool>)
    ensures
        zip_contents(*final(a)) == zip_contents(*old(a)),
        r == exe_scan(zip_contents(*old(a)), exe@),
{
    let ghost c = zip_contents(*a);
    let want = chars_of(exe);
    let n = zip_len(a);
    let mut i: usize = 0;
    assert(c.skip(0) =~= c);
    while i < n
        invariant
            zip_contents(*a) == c,
            c == zip_contents(*old(a)),
            n == c.len(),
            want@ == exe@,
            i <= n,
            exe_scan(c.skip(i as int), exe@) == exe_scan(c, exe@),
        decreases n - i,
    {
        let ghost rest = c.skip(i as int);
        assert(rest[0] == c[i as int]);
        assert(rest.drop_first() =~= c.skip(i + 1));
        let m = match zip_entry_meta(a, i) {
            Some(m) => m,
            None => return None,
        };
        let hit = match &m.0 {
            Some(p) => {
                if p.len() > 0 {
                    let last = chars_of(p[p.len() - 1].as_str());
                    chars_eq_ignore_ascii_case(last.as_slice(), want.as_slice())
                } else {
                    false
                }
            },
            None => false,
        };
        proof {
            let e = c[i as int].unwrap();
            match m.0 {
                Some(p) => {
                    if p@.len() > 0 {
                        assert(p@.map_values(|x: String| x@).last() == p@[p@.len() - 1]@);
                    }
                },
                None => {},
            }
            assert(hit == names_exe(e, exe@));
        }
        if hit {
            return Some(true);
        }
        i = i + 1;
    }
    assert(c.skip(n as int).len() == 0);
    Some(false)
}

/// The files of an update archive to install, in archive order: it must be
/// readable, carry the running executable (when its name is known), and
/// hold at least one installable file, whose data must read.
pub fn stage_archive(bytes: Vec<u8>, exe_name: Option<&str>) -> (r: Result<Vec<StagedFile>, ArchiveError>)
    ensures
        match r {
            Ok(files) => stage_plan(bytes@, match exe_name {
                Some(x) => Some(x@),
                None => None,
            }) == Ok::<Seq<(Seq<Seq<char>>, Seq<u8>)>, ArchiveError>(files@.map_values(|f: StagedFile| staged_view(f))),
            Err(e) => stage_plan(bytes@, match exe_name {
                Some(x) => Some(x@),
                None => None,
            }) == Err::<Seq<(Seq<Seq<char>>, Seq<u8>)>, ArchiveError>(e),
        },
{
    let ghost exe = match exe_name {
        Some(x) => Some(x@),
        None => None,
    };
    let ghost b = bytes@;
    let ghost listing = zip_listing(bytes@);
    let mut a = match zip_open(bytes) {
        Some(a) => a,
        None => return Err(ArchiveError::Unreadable),
    };
    let ghost c = zip_contents(a);
    match exe_name {
        Some(x) => match find_exe(&mut a, x) {
            None => return Err(ArchiveError::Unreadable),
            Some(false) => return Err(ArchiveError::MissingExe),
            Some(true) => {},
        },
        None => {},
    }
    let n = zip_len(&a);
    let mut files: Vec<StagedFile> = Vec::new();
    let mut i: usize = 0;
    assert(c.take(0) =~= Seq::<EntryModel>::empty());
    let ghost outcome: Result<Seq<(Seq<Seq<char>>, Seq<u8>)>, ArchiveError> = match staged_of(c) {
        None => Err(ArchiveError::Unreadable),
        Some(v) => if v.len() == 0 {
            Err(ArchiveError::Empty)
        } else {
            Ok(v)
        },
    };
    assert(stage_plan(b, exe) == outcome);
    while i < n
        invariant
            b == bytes@,
            exe == (match exe_name {
                Some(x) => Some(x@),
                None => None,
            }),
            stage_plan(b, exe) == outcome,
            outcome == (match staged_of(c) {
                None => Err(ArchiveError::Unreadable),
                Some(v) => if v.len() == 0 {
                    Err(ArchiveError::Empty)
                } else {
                    Ok(v)
                },
            }),
            zip_contents(a) == c,
            listing == Some(c),
            n == c.len(),
            i <= n,
            staged_of(c.take(i as int)) == Some(files@.map_values(|f: StagedFile| staged_view(f))),
        decreases n - i,
    {
        proof {
            assert(c.take(i + 1).drop_last() =~= c.take(i as int));
            assert(c.take(i + 1).last() == c[i as int]);
        }
        let m = match zip_entry_meta(&mut a, i) {
            Some(m) => m,
            None => {
                proof {
                    lemma_staged_stays_none(c, i + 1, n as int);
                    assert(c.take(n as int) =~= c);
                }
                return Err(ArchiveError::Unreadable);
            },
        };
        let ghost e = c[i as int].unwrap();
        let (path, is_dir) = m;
        if !is_dir {
            match path {
                Some(p) => {
                    proof {
                        if p@.len() > 0 {
                            assert(p@.map_values(|x: String| x@)[0] == p@[0]@);
                        }
                    }
                    if p.len() > 0 && crate::updater::entry_installable(p[0].as_str()) {
                        assert(installed_entry(e));
                        let data = match zip_entry_data(&mut a, i) {
                            Some(d) => d,
                            None => {
                                proof {
                                    lemma_staged_stays_none(c, i + 1, n as int);
                                    assert(c.take(n as int) =~= c);
                                }
                                return Err(ArchiveError::Unreadable);
                            },
                        };
                        let ghost before = files@;
                        files.push(StagedFile { path: p, data });
                        assert(files@.map_values(|f: StagedFile| staged_view(f)) =~= before.map_values(
                            |f: StagedFile| staged_view(f),
                        ).push((e.0.unwrap(), e.2.unwrap())));
                    } else {
                        assert(!installed_entry(e));
                    }
                },
                None => {
                    assert(!installed_entry(e));
                },
            }
        } else {
            assert(!installed_entry(e));
        }
        i = i + 1;
    }
    assert(c.take(n as int) =~= c);
    if files.len() == 0 {
        Err(ArchiveError::Empty)
    } else {
        Ok(files)
    }
}

// ---------------------------------------------------------------------------
// Unpacking an installer package.
// ---------------------------------------------------------------------------

/// One entry of an installer package to unpack: its relative path, whether
/// it is a directory (whose data is not read) and its contents.
pub struct ArchiveEntry {
    /// Relative path components.
    pub path: Vec<String>,
    /// Directory entry.
    pub is_dir: bool,
    /// Contents (empty for a directory).
    pub data: Vec<u8>,
}

/// An entry to unpack seen by value.
pub open spec fn entry_view(e: ArchiveEntry) -> (Seq<Seq<char>>, bool, Seq<u8>) {
    (e.path@.map_values(|c: String| c@), e.is_dir, e.data@)
}

/// Every entry of a package, in order: the first entry whose header or
/// (for a file) data cannot be read fails with `Unreadable`, the first with
/// an unsafe name with `UnsafePath`.
pub open spec fn package_of(c: Seq<EntryModel>) -> Result<Seq<(Seq<Seq<char>>, bool, Seq<u8>)>, ArchiveError>
    decreases c.len(),
{
    if c.len() == 0 {
        Ok(Seq::empty())
    } else {
        match package_of(c.drop_last()) {
            Err(e) => Err(e),
            Ok(v) => match c.last() {
                None => Err(ArchiveError::Unreadable),
                Some(e) => match e.0 {
                    None => Err(ArchiveError::UnsafePath),
                    Some(p) => if e.1 {
                        Ok(v.push((p, true, Seq::empty())))
                    } else {
                        match e.2 {
                            None => Err(ArchiveError::Unreadable),
                            Some(d) => Ok(v.push((p, false, d))),
                        }
                    },
                },
            },
        }
    }
}

/// What unpacking a package's bytes gives.
pub open spec fn package_plan(bytes: Seq<u8>) -> Result<Seq<(Seq<Seq<char>>, bool, Seq<u8>)>, ArchiveError> {
    match zip_listing(bytes) {
        None => Err(ArchiveError::Unreadable),
        Some(c) => package_of(c),
    }
}

/// Once a prefix of the listing fails, every longer prefix fails alike.
proof fn lemma_package_stays_err(c: Seq<EntryModel>, k: int, m: int)
    requires
        0 <= k <= m <= c.len(),
        package_of(c.take(k)) is Err,
    ensures
        package_of(c.take(m)) == package_of(c.take(k)),
    decreases m - k,
{
    if m > k {
        lemma_package_stays_err(c, k, m - 1);
        assert(c.take(m).drop_last() =~= c.take(m - 1));
    }
}

/// The entries of an installer package, in archive order, ready to be
/// written out: the package must be a readable archive whose entries all
/// read and have safe names.
pub fn package_entries(bytes: Vec<u8>) -> (r: Result<Vec<ArchiveEntry>, ArchiveError>)
    ensures
        match r {
            Ok(v) => package_plan(bytes@) == Ok::<Seq<(Seq<Seq<char>>, bool, Seq<u8>)>, ArchiveError>(
                v@.map_values(|e: ArchiveEntry| entry_view(e)),
            ),
            Err(e) => package_plan(bytes@) == Err::<Seq<(Seq<Seq<char>>, bool, Seq<u8>)>, ArchiveError>(e),
        },
{
    let ghost b = bytes@;
    let mut a = match zip_open(bytes) {
        Some(a) => a,
        None => return Err(ArchiveError::Unreadable),
    };
    let ghost c = zip_contents(a);
    let n = zip_len(&a);
    let mut out: Vec<ArchiveEntry> = Vec::new();
    let mut i: usize = 0;
    assert(c.take(0) =~= Seq::<EntryModel>::empty());
    assert(out@.map_values(|e: ArchiveEntry| entry_view(e)) =~= Seq::<(Seq<Seq<char>>, bool, Seq<u8>)>::empty());
    while i < n
        invariant
            b == bytes@,
            zip_listing(b) == Some(c),
            zip_contents(a) == c,
            n == c.len(),
            i <= n,
            package_of(c.take(i as int)) == Ok::<Seq<(Seq<Seq<char>>, bool, Seq<u8>)>, ArchiveError>(
                out@.map_values(|e: ArchiveEntry| entry_view(e)),
            ),
        decreases n - i,
    {
        proof {
            assert(c.take(i + 1).drop_last() =~= c.take(i as int));
            assert(c.take(i + 1).last() == c[i as int]);
        }
        let m = match zip_entry_meta(&mut a, i) {
            Some(m) => m,
            None => {
                proof {
                    lemma_package_stays_err(c, i + 1, n as int);
                    assert(c.take(n as int) =~= c);
                }
                return Err(ArchiveError::Unreadable);
            },
        };
        let ghost e = c[i as int].unwrap();
        let (path, is_dir) = m;
        let p = match path {
            Some(p) => p,
            None => {
                proof {
                    lemma_package_stays_err(c, i + 1, n as int);
                    assert(c.take(n as int) =~= c);
                }
                return Err(ArchiveError::UnsafePath);
            },
        };
        let data = if is_dir {
            Vec::new()
        } else {
            match zip_entry_data(&mut a, i) {
                Some(d) => d,
                None => {
                    proof {
                        lemma_package_stays_err(c, i + 1, n as int);
                        assert(c.take(n as int) =~= c);
                    }
                    return Err(ArchiveError::Unreadable);
                },
            }
        };
        let ghost before = out@;
        let ghost item = (p@.map_values(|x: String| x@), is_dir, data@);
        proof {
            if is_dir {
                assert(data@ =~= Seq::<u8>::empty());
            }
        }
        out.push(ArchiveEntry { path: p, is_dir, data });
        assert(out@.map_values(|x: ArchiveEntry| entry_view(x)) =~= before.map_values(
            |x: ArchiveEntry| entry_view(x),
        ).push(item));
        i = i + 1;
    }
    assert(c.take(n as int) =~= c);
    Ok(out)
}

} // verus!
