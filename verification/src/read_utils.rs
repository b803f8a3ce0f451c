//! The uniform file source over a directory or an archive dataset root, and
//! the typed record reader with strict and lossy row policies.

use vstd::prelude::*;

verus! {

use crate::Error;
use crate::collection::CollectionWithId;
use crate::collection::Id;
use crate::model::Contributor;
use crate::model::Dataset;
use crate::strings::concat_str;
use crate::strings::str_eq;
use vstd::string::StrSliceExecFns;

/// An archive opened from an in-memory byte buffer.
#[verifier::external_type_specification]
#[verifier::external_body]
#[verifier::reject_recursive_types(R)]
pub struct ExZipArchive<R>(zip::ZipArchive<R>);

/// The in-memory reader an archive is opened over.
#[verifier::external_type_specification]
#[verifier::external_body]
#[verifier::reject_recursive_types(T)]
pub struct ExCursor<T>(std::io::Cursor<T>);

/// The entries of an open archive: the stored name and the decompressed
/// content of each, in entry-index order.
pub uninterp spec fn zip_entries(archive: zip::ZipArchive<std::io::Cursor<Vec<u8>>>) -> Seq<
    (Seq<char>, Seq<u8>),
>;

/// Whether these bytes parse as a readable archive: the condition under
/// which opening them succeeds, a function of the bytes alone.
pub uninterp spec fn zip_well_formed(bytes: Seq<u8>) -> bool;

/// Whether the entry at the given index of this archive can be opened for
/// reading without a password: the condition under which addressing it by
/// index succeeds (an out-of-range index, an entry demanding a password,
/// or a corrupt local header make it fail), a function of the archive
/// value alone.
pub uninterp spec fn entry_openable(
    archive: zip::ZipArchive<std::io::Cursor<Vec<u8>>>,
    i: int,
) -> bool;

/// Whether the entry at the given index can be opened and its stream
/// decompressed to the end (a corrupt stream or a checksum mismatch make
/// it fail), a function of the archive value alone.
pub uninterp spec fn entry_decodable(
    archive: zip::ZipArchive<std::io::Cursor<Vec<u8>>>,
    i: int,
) -> bool;

/// Relies on zip::ZipArchive::new: opens an in-memory archive, succeeding
/// exactly when the bytes are a readable archive.
#[verifier::external_body]
fn zip_open(bytes: Vec<u8>) -> (r: Result<zip::ZipArchive<std::io::Cursor<Vec<u8>>>, Error>)
    ensures
        r is Ok <==> zip_well_formed(bytes@),
{
    match zip::ZipArchive::new(std::io::Cursor::new(bytes)) {
        Ok(archive) => Ok(archive),
        Err(e) => Err(Error::InvalidArchive(e.to_string())),
    }
}

/// Relies on zip::ZipArchive::len: the number of entries in the archive.
#[verifier::external_body]
fn zip_len(archive: &zip::ZipArchive<std::io::Cursor<Vec<u8>>>) -> (r: usize)
    ensures
        r == zip_entries(*archive).len(),
{
    archive.len()
}

/// Relies on zip::ZipArchive::by_index_decrypt, with an empty password,
/// and zip::read::ZipFile::name: the stored name of the entry at the given
/// index, yielded exactly when the entry can be opened. An entry that
/// demands a password is reported as a value, never a panic. Only the read
/// cursor moves, so the entries, their openability and their decodability
/// do not change.
#[verifier::external_body]
fn zip_entry_name(archive: &mut zip::ZipArchive<std::io::Cursor<Vec<u8>>>, i: usize) -> (r: Option<
    String,
>)
    ensures
        zip_entries(*final(archive)) == zip_entries(*old(archive)),
        forall|k: int| #[trigger] entry_openable(*final(archive), k) == entry_openable(
            *old(archive),
            k,
        ),
        forall|k: int| #[trigger] entry_decodable(*final(archive), k) == entry_decodable(
            *old(archive),
            k,
        ),
        r is Some <==> (i < zip_entries(*old(archive)).len() && entry_openable(
            *old(archive),
            i as int,
        )),
        r matches Some(name) ==> name@ == zip_entries(*old(archive))[i as int].0,
{
    match archive.by_index_decrypt(i, b"") {
        Ok(Ok(file)) => Some(file.name().to_string()),
        _ => None,
    }
}

/// Relies on zip::ZipArchive::by_index_decrypt, with an empty password,
/// and std::io::Read::read_to_end: the decompressed content of the entry
/// at the given index, succeeding exactly when the entry is decodable, and
/// otherwise yielding the underlying message. An entry that demands a
/// password is reported as a value, never a panic. Only the read cursor
/// moves, so the entries, their openability and their decodability do not
/// change.
#[verifier::external_body]
fn zip_read_entry(archive: &mut zip::ZipArchive<std::io::Cursor<Vec<u8>>>, i: usize) -> (r: Result<
    Vec<u8>,
    String,
>)
    ensures
        zip_entries(*final(archive)) == zip_entries(*old(archive)),
        forall|k: int| #[trigger] entry_openable(*final(archive), k) == entry_openable(
            *old(archive),
            k,
        ),
        forall|k: int| #[trigger] entry_decodable(*final(archive), k) == entry_decodable(
            *old(archive),
            k,
        ),
        r is Ok <==> (i < zip_entries(*old(archive)).len() && entry_decodable(
            *old(archive),
            i as int,
        )),
        r matches Ok(data) ==> data@ == zip_entries(*old(archive))[i as int].1,
{
    let mut file = match archive.by_index_decrypt(i, b"") {
        Ok(Ok(f)) => f,
        Ok(Err(e)) => return Err(e.to_string()),
        Err(e) => return Err(e.to_string()),
    };
    let mut data = Vec::new();
    if let Err(e) = std::io::Read::read_to_end(&mut file, &mut data) {
        return Err(e.to_string());
    }
    Ok(data)
}

/// The display path of `name` under `base`, joined with a slash.
pub fn join_display_path(base: &str, name: &str) -> (r: String)
    ensures
        r@ == base@ + "/"@ + name@,
{
    let s = concat_str(base, "/");
    concat_str(s.as_str(), name)
}

/// The index right after the last slash of an entry name, or zero when there
/// is none: where the base file name starts.
pub open spec fn cut_index(s: Seq<char>) -> int
    decreases s.len(),
{
    if s.len() == 0 {
        0
    } else if s.last() == '/' {
        s.len() as int
    } else {
        cut_index(s.drop_last())
    }
}

proof fn lemma_cut_index_at(s: Seq<char>, j: int)
    requires
        0 <= j <= s.len(),
        forall|k: int| j <= k < s.len() ==> s[k] != '/',
        j > 0 ==> s[j - 1] == '/',
    ensures
        cut_index(s) == j,
    decreases s.len(),
{
    if s.len() == 0 {
    } else if s.last() == '/' {
        if j < s.len() {
            assert(s[s.len() - 1] != '/');
        }
    } else {
        if j == s.len() {
            assert(s[j - 1] == '/');
        }
        lemma_cut_index_at(s.drop_last(), j);
    }
}

/// The base file name of an archive entry name: the component after the last
/// slash, ignoring any internal path prefix inside the archive.
pub open spec fn base_of(s: Seq<char>) -> Seq<char> {
    s.subrange(cut_index(s), s.len() as int)
}

/// Extracts the base file name, or nothing when the name has no base
/// component (it is empty or ends with a slash).
fn base_name(s: &str) -> (r: Option<String>)
    ensures
        r is Some <==> base_of(s@).len() > 0,
        r matches Some(b) ==> b@ == base_of(s@),
{
    let len = s.unicode_len();
    let mut j: usize = len;
    while j > 0 && s.get_char(j - 1) != '/'
        invariant
            j <= len,
            len == s@.len(),
            forall|k: int| j <= k < len ==> s@[k] != '/',
        decreases j,
    {
        j -= 1;
    }
    proof {
        lemma_cut_index_at(s@, j as int);
    }
    if j < len {
        let b = s.substring_char(j, len);
        Some(b.to_owned())
    } else {
        None
    }
}

/// The entry index an association list resolves a base name to; when one
/// name was recorded more than once, the recording that came last wins.
pub closed spec fn spec_lookup(pairs: Seq<(String, usize)>, name: Seq<char>) -> Option<usize>
    decreases pairs.len(),
{
    if pairs.len() == 0 {
        None
    } else if pairs.last().0@ == name {
        Some(pairs.last().1)
    } else {
        spec_lookup(pairs.drop_last(), name)
    }
}

proof fn lemma_lookup_push(pairs: Seq<(String, usize)>, p: (String, usize), name: Seq<char>)
    ensures
        spec_lookup(pairs.push(p), name) == if p.0@ == name {
            Some(p.1)
        } else {
            spec_lookup(pairs, name)
        },
{
    assert(pairs.push(p).last() == p);
    assert(pairs.push(p).drop_last() =~= pairs);
}

/// Resolves a base name through the association list, last recording first.
fn lookup(pairs: &Vec<(String, usize)>, name: &str) -> (r: Option<usize>)
    ensures
        r == spec_lookup(pairs@, name@),
{
    let mut i: usize = pairs.len();
    proof {
        assert(pairs@.take(i as int) =~= pairs@);
    }
    while i > 0
        invariant
            i <= pairs@.len(),
            spec_lookup(pairs@, name@) == spec_lookup(pairs@.take(i as int), name@),
        decreases i,
    {
        i -= 1;
        proof {
            assert(pairs@.take(i as int + 1).last() == pairs@[i as int]);
            assert(pairs@.take(i as int + 1).drop_last() =~= pairs@.take(i as int));
        }
        if str_eq(pairs[i].0.as_str(), name) {
            return Some(pairs[i].1);
        }
    }
    proof {
        assert(pairs@.take(0) =~= Seq::<(String, usize)>::empty());
    }
    None
}

/// Allows files in a directory or archive dataset root to be read through
/// one abstraction: a named file, if it exists, as its bytes.
pub trait FileHandler: Sized {
    /// The named files this source can produce: base file name to content.
    spec fn files(&self) -> Map<Seq<char>, Seq<u8>>;

    /// The display path reported for a given file name.
    spec fn path_of(&self, name: Seq<char>) -> Seq<char>;

    /// The human-readable name of the source itself.
    spec fn spec_source(&self) -> Seq<char>;

    /// Whether a read of this present name is bound to succeed: for an
    /// archive backing, that the winning entry's stream decodes cleanly.
    spec fn readable(&self, name: Seq<char>) -> bool;

    /// Return the file's content if it exists, along with its display path.
    fn get_file_if_exists(&mut self, name: &str) -> (r: Result<
        (Option<Vec<u8>>, String),
        Error,
    >)
        ensures
            final(self).files() == old(self).files(),
            forall|n: Seq<char>| #[trigger] final(self).path_of(n) == old(self).path_of(n),
            final(self).spec_source() == old(self).spec_source(),
            forall|n: Seq<char>| #[trigger] final(self).readable(n) == old(self).readable(n),
            !old(self).files().contains_key(name@) ==> (r matches Ok(p) && p.0 is None),
            old(self).files().contains_key(name@) && old(self).readable(name@) ==> (r matches Ok(
                p,
            ) && p.0 is Some),
            r matches Ok(p) ==> p.1@ == old(self).path_of(name@) && (p.0 is Some <==> old(
                self,
            ).files().contains_key(name@)) && (p.0 matches Some(b) ==> b@ == old(
                self,
            ).files()[name@]),
            r matches Err(e) ==> (e is InvalidArchive || e is EntryUnreadable),
    ;

    /// Return the file's content, or a missing-file error carrying the
    /// display path, for callers that require the file to exist.
    fn get_file(&mut self, name: &str) -> (r: Result<(Vec<u8>, String), Error>)
        ensures
            final(self).files() == old(self).files(),
            forall|n: Seq<char>| #[trigger] final(self).path_of(n) == old(self).path_of(n),
            final(self).spec_source() == old(self).spec_source(),
            forall|n: Seq<char>| #[trigger] final(self).readable(n) == old(self).readable(n),
            !old(self).files().contains_key(name@) ==> (r matches Err(e) && e matches
                Error::MissingFile(p) && p@ == old(self).path_of(name@)),
            old(self).files().contains_key(name@) && old(self).readable(name@) ==> r is Ok,
            r matches Ok(p) ==> old(self).files().contains_key(name@) && p.0@ == old(
                self,
            ).files()[name@] && p.1@ == old(self).path_of(name@),
            r matches Err(e) ==> (e is MissingFile || e is InvalidArchive
                || e is EntryUnreadable),
            r matches Err(e) ==> (e matches Error::MissingFile(p) ==> !old(
                self,
            ).files().contains_key(name@) && p@ == old(self).path_of(name@)),
    {
        match self.get_file_if_exists(name) {
            Err(e) => Err(e),
            Ok((opt, path)) => match opt {
                Some(bytes) => Ok((bytes, path)),
                None => Err(Error::MissingFile(path)),
            },
        }
    }

    /// The human-readable name of the source, for clearer diagnostics.
    fn source_name(&self) -> (r: &str)
        ensures
            r@ == self.spec_source(),
    ;
}

/// Addresses files under a directory dataset root. The existence probe and
/// the byte read are blocking file I/O at the edge of the library: the
/// caller performs them against `full_path` and hands the bytes to the
/// record reader.
pub struct PathFileHandler {
    base_path: String,
}

impl PathFileHandler {
    /// The directory path this handler addresses files under.
    pub closed spec fn spec_base(&self) -> Seq<char> {
        self.base_path@
    }

    /// Constructs a new PathFileHandler.
    pub fn new(path: String) -> (r: Self)
        ensures
            r.spec_base() == path@,
    {
        PathFileHandler { base_path: path }
    }

    /// The human-readable name of the source, for clearer diagnostics.
    pub fn source_name(&self) -> (r: &str)
        ensures
            r@ == self.spec_base(),
    {
        self.base_path.as_str()
    }

    /// The display path of a named file under this directory.
    pub fn full_path(&self, name: &str) -> (r: String)
        ensures
            r@ == self.spec_base() + "/"@ + name@,
    {
        join_display_path(self.base_path.as_str(), name)
    }
}

/// Gives access to an archive's files by their base names, not regarding
/// their paths inside the archive, so an archive with a sub directory can be
/// handled. When two entries share a base name, the later entry wins. An
/// entry whose stored name ends in a slash (a directory marker) has no base
/// component and is not indexed.
pub struct ZipHandler {
    archive: zip::ZipArchive<std::io::Cursor<Vec<u8>>>,
    archive_path: String,
    index_by_name: Vec<(String, usize)>,
}

impl ZipHandler {
    /// The archive's entries: stored name and content of each.
    pub closed spec fn entries(&self) -> Seq<(Seq<char>, Seq<u8>)> {
        zip_entries(self.archive)
    }

    /// Whether the archive entry at the given index can be opened.
    pub closed spec fn openable(&self, k: int) -> bool {
        entry_openable(self.archive, k)
    }

    /// The base-name index is faithful to the archive. Every file this
    /// source can produce is the content of an openable entry whose base
    /// name is the file's name, and no later openable entry shares that
    /// base name (a later entry wins a collision); conversely, every
    /// openable entry with a nonempty base name is reachable under it.
    pub open spec fn wf(&self) -> bool {
        &&& (forall|n: Seq<char>| (#[trigger] self.files().contains_key(n)) ==> exists|k: int|
            0 <= k < self.entries().len() && #[trigger] self.openable(k) && base_of(
                self.entries()[k].0,
            ) == n && self.files()[n] == self.entries()[k].1 && (forall|k2: int|
                k < k2 < self.entries().len() && #[trigger] self.openable(k2) ==> base_of(
                    self.entries()[k2].0,
                ) != n))
        &&& (forall|k: int| 0 <= k < self.entries().len() && #[trigger] self.openable(k)
            && base_of(self.entries()[k].0).len() > 0 ==> self.files().contains_key(
            base_of(self.entries()[k].0),
        ))
    }

    /// Opens an archive over the given bytes, succeeding exactly when they
    /// are a readable archive; `path` is the display path of the archive
    /// itself. Builds the base-name index once, by scanning all entries.
    pub fn new(bytes: Vec<u8>, path: String) -> (r: Result<Self, Error>)
        ensures
            r is Ok <==> zip_well_formed(bytes@),
            r matches Ok(h) ==> h.spec_source() == path@ && h.wf() && (forall|n: Seq<char>|
                #[trigger] h.path_of(n) == path@ + "/"@ + n),
    {
        let mut archive = match zip_open(bytes) {
            Ok(a) => a,
            Err(e) => return Err(e),
        };
        let index_by_name = Self::files_by_name(&mut archive);
        let h = ZipHandler { archive, archive_path: path, index_by_name };
        proof {
            assert forall|n: Seq<char>| (#[trigger] h.files().contains_key(n)) implies exists|
                k: int,
            |
                0 <= k < h.entries().len() && #[trigger] h.openable(k) && base_of(
                    h.entries()[k].0,
                ) == n && h.files()[n] == h.entries()[k].1 && (forall|k2: int|
                    k < k2 < h.entries().len() && #[trigger] h.openable(k2) ==> base_of(
                        h.entries()[k2].0,
                    ) != n) by {
                let ki = spec_lookup(h.index_by_name@, n)->0 as int;
                assert(0 <= ki < h.entries().len() && h.openable(ki) && base_of(
                    h.entries()[ki].0,
                ) == n && h.files()[n] == h.entries()[ki].1);
                assert(forall|k2: int| ki < k2 < h.entries().len() && #[trigger] h.openable(k2)
                    ==> base_of(h.entries()[k2].0) != n);
            }
            assert forall|k: int|
                0 <= k < h.entries().len() && #[trigger] h.openable(k) && base_of(
                    h.entries()[k].0,
                ).len() > 0 implies h.files().contains_key(base_of(h.entries()[k].0)) by {
                assert(spec_lookup(h.index_by_name@, base_of(h.entries()[k].0)) is Some);
            }
        }
        Ok(h)
    }

    /// Scans all entries once and records each openable entry under its
    /// base name; a later entry with the same base name wins over an
    /// earlier one, and an entry with no base name (a directory entry) is
    /// omitted.
    fn files_by_name(archive: &mut zip::ZipArchive<std::io::Cursor<Vec<u8>>>) -> (r: Vec<
        (String, usize),
    >)
        ensures
            zip_entries(*final(archive)) == zip_entries(*old(archive)),
            forall|k: int| #[trigger] entry_openable(*final(archive), k) == entry_openable(
                *old(archive),
                k,
            ),
            forall|m: Seq<char>| (#[trigger] spec_lookup(r@, m)) is Some ==> ({
                let k = spec_lookup(r@, m)->0 as int;
                &&& 0 <= k < zip_entries(*old(archive)).len()
                &&& entry_openable(*old(archive), k)
                &&& base_of(zip_entries(*old(archive))[k].0) == m
                &&& m.len() > 0
                &&& (forall|k2: int| k < k2 < zip_entries(*old(archive)).len()
                    && #[trigger] entry_openable(*old(archive), k2) ==> base_of(
                    zip_entries(*old(archive))[k2].0,
                ) != m)
            }),
            forall|k: int| 0 <= k < zip_entries(*old(archive)).len() && #[trigger] entry_openable(
                *old(archive),
                k,
            ) && base_of(zip_entries(*old(archive))[k].0).len() > 0 ==> spec_lookup(
                r@,
                base_of(zip_entries(*old(archive))[k].0),
            ) is Some,
    {
        let n = zip_len(archive);
        let mut pairs: Vec<(String, usize)> = Vec::new();
        let mut i: usize = 0;
        while i < n
            invariant
                n == zip_entries(*old(archive)).len(),
                zip_entries(*archive) == zip_entries(*old(archive)),
                forall|k: int| #[trigger] entry_openable(*archive, k) == entry_openable(
                    *old(archive),
                    k,
                ),
                i <= n,
                forall|m: Seq<char>| (#[trigger] spec_lookup(pairs@, m)) is Some ==> ({
                    let k = spec_lookup(pairs@, m)->0 as int;
                    &&& 0 <= k < i
                    &&& entry_openable(*old(archive), k)
                    &&& base_of(zip_entries(*old(archive))[k].0) == m
                    &&& m.len() > 0
                    &&& (forall|k2: int| k < k2 < i && #[trigger] entry_openable(
                        *old(archive),
                        k2,
                    ) ==> base_of(zip_entries(*old(archive))[k2].0) != m)
                }),
                forall|k: int| 0 <= k < i && #[trigger] entry_openable(*old(archive), k)
                    && base_of(zip_entries(*old(archive))[k].0).len() > 0 ==> spec_lookup(
                    pairs@,
                    base_of(zip_entries(*old(archive))[k].0),
                ) is Some,
            decreases n - i,
        {
            match zip_entry_name(archive, i) {
                Some(full) => {
                    proof {
                        assert(entry_openable(*old(archive), i as int));
                        assert(full@ == zip_entries(*old(archive))[i as int].0);
                    }
                    match base_name(full.as_str()) {
                        Some(base) => {
                            let ghost old_pairs = pairs@;
                            pairs.push((base, i));
                            proof {
                                assert forall|m: Seq<char>| (#[trigger] spec_lookup(
                                    pairs@,
                                    m,
                                )) is Some implies ({
                                    let k = spec_lookup(pairs@, m)->0 as int;
                                    &&& 0 <= k < i + 1
                                    &&& entry_openable(*old(archive), k)
                                    &&& base_of(zip_entries(*old(archive))[k].0) == m
                                    &&& m.len() > 0
                                    &&& (forall|k2: int| k < k2 < i + 1
                                        && #[trigger] entry_openable(*old(archive), k2)
                                        ==> base_of(zip_entries(*old(archive))[k2].0) != m)
                                }) by {
                                    lemma_lookup_push(old_pairs, pairs@.last(), m);
                                }
                                assert forall|k: int|
                                    0 <= k < i + 1 && #[trigger] entry_openable(
                                        *old(archive),
                                        k,
                                    ) && base_of(zip_entries(*old(archive))[k].0).len() > 0
                                    implies spec_lookup(
                                    pairs@,
                                    base_of(zip_entries(*old(archive))[k].0),
                                ) is Some by {
                                    lemma_lookup_push(
                                        old_pairs,
                                        pairs@.last(),
                                        base_of(zip_entries(*old(archive))[k].0),
                                    );
                                }
                            }
                        },
                        None => {
                            proof {
                                assert(base_of(zip_entries(*old(archive))[i as int].0).len()
                                    == 0);
                            }
                        },
                    }
                },
                None => {
                    proof {
                        assert(!entry_openable(*old(archive), i as int));
                    }
                },
            }
            i += 1;
        }
        pairs
    }
}

impl FileHandler for ZipHandler {
    /// Base file name to entry content, through the precomputed index.
    closed spec fn files(&self) -> Map<Seq<char>, Seq<u8>> {
        Map::new(
            |n: Seq<char>| spec_lookup(self.index_by_name@, n) is Some,
            |n: Seq<char>|
                zip_entries(self.archive)[spec_lookup(self.index_by_name@, n)->0 as int].1,
        )
    }

    closed spec fn path_of(&self, name: Seq<char>) -> Seq<char> {
        self.archive_path@ + "/"@ + name
    }

    closed spec fn spec_source(&self) -> Seq<char> {
        self.archive_path@
    }

    /// The entry the index resolves the name to decodes cleanly.
    closed spec fn readable(&self, name: Seq<char>) -> bool {
        spec_lookup(self.index_by_name@, name) matches Some(k) && (k as int) < zip_entries(
            self.archive,
        ).len() && entry_decodable(self.archive, k as int)
    }

    fn get_file_if_exists(&mut self, name: &str) -> (r: Result<(Option<Vec<u8>>, String), Error>) {
        let p = join_display_path(self.archive_path.as_str(), name);
        match lookup(&self.index_by_name, name) {
            None => {
                proof {
                    assert(!self.files().contains_key(name@));
                }
                Ok((None, p))
            },
            Some(i) => {
                proof {
                    assert(self.files().contains_key(name@));
                }
                match zip_read_entry(&mut self.archive, i) {
                    Ok(data) => {
                        proof {
                            assert(final(self).files() =~= old(self).files());
                            assert(data@ == old(self).files()[name@]);
                        }
                        Ok((Some(data), p))
                    },
                    Err(m) => {
                        proof {
                            assert(final(self).files() =~= old(self).files());
                        }
                        Err(Error::EntryUnreadable(m))
                    },
                }
            },
        }
    }

    fn source_name(&self) -> (r: &str) {
        self.archive_path.as_str()
    }
}

/// The rows of a delimited tabular file: for each raw row in order, the
/// sequence of its trimmed fields, or nothing for a row that cannot be
/// decoded.
pub uninterp spec fn csv_rows(bytes: Seq<u8>) -> Seq<Option<Seq<Seq<char>>>>;

/// No leading or trailing blank: the field neither starts nor ends with a
/// space, tab, carriage return or line feed.
pub open spec fn field_trimmed(f: Seq<char>) -> bool {
    f.len() > 0 ==> {
        &&& f[0] != ' ' && f[0] != '\t' && f[0] != '\r' && f[0] != '\n'
        &&& f[f.len() - 1] != ' ' && f[f.len() - 1] != '\t' && f[f.len() - 1] != '\r'
            && f[f.len() - 1] != '\n'
    }
}

/// Every decoded row of a file has every one of its fields trimmed.
pub open spec fn rows_trimmed(rows: Seq<Option<Seq<Seq<char>>>>) -> bool {
    forall|i: int, j: int| 0 <= i < rows.len() && rows[i] is Some && 0 <= j < rows[i]->0.len()
        ==> field_trimmed(#[trigger] rows[i]->0[j])
}

/// Relies on csv::Reader, configured for flexible field counts, trimming of
/// every field, and no implicit header row: yields each row's fields in
/// order, with an error message standing in for a row that cannot be
/// decoded. A row may have any field count, and every field of a decoded
/// row comes back trimmed.
#[verifier::external_body]
fn parse_rows(bytes: &Vec<u8>) -> (r: Vec<Result<Vec<String>, String>>)
    ensures
        r@.len() == csv_rows(bytes@).len(),
        forall|i: int| 0 <= i < r@.len() ==> {
            &&& ((#[trigger] r@[i]) matches Ok(row) ==> csv_rows(bytes@)[i] == Some(
                row.deep_view(),
            ))
            &&& (r@[i] is Err ==> csv_rows(bytes@)[i] is None)
        },
        forall|i: int, j: int|
            0 <= i < r@.len() && r@[i] is Ok && 0 <= j < r@[i]->Ok_0.deep_view().len()
                ==> field_trimmed(#[trigger] r@[i]->Ok_0.deep_view()[j]),
{
    let rdr = csv::ReaderBuilder::new()
        .flexible(true)
        .trim(csv::Trim::All)
        .has_headers(false)
        .from_reader(bytes.as_slice());
    let mut out = Vec::new();
    for record in rdr.into_records() {
        match record {
            Ok(rec) => out.push(Ok(rec.iter().map(|field| field.to_string()).collect())),
            Err(e) => out.push(Err(e.to_string())),
        }
    }
    out
}

/// First index at or after `i` of a header cell equal to `name`.
pub open spec fn spec_find_from(header: Seq<Seq<char>>, name: Seq<char>, i: int) -> Option<int>
    decreases header.len() - i,
{
    if i < 0 || i >= header.len() {
        None
    } else if header[i] == name {
        Some(i)
    } else {
        spec_find_from(header, name, i + 1)
    }
}

/// The column a field name resolves to: the first header cell equal to it.
pub open spec fn spec_find_col(header: Seq<Seq<char>>, name: Seq<char>) -> Option<int> {
    spec_find_from(header, name, 0)
}

/// Finds the first column with the given name in the header row.
pub fn find_column(header: &Vec<String>, name: &str) -> (r: Option<usize>)
    ensures
        match r {
            Some(j) => spec_find_col(header.deep_view(), name@) == Some(j as int),
            None => spec_find_col(header.deep_view(), name@) is None,
        },
{
    let n = header.len();
    let mut i: usize = 0;
    while i < n
        invariant
            i <= n,
            n == header@.len(),
            header.deep_view().len() == n,
            spec_find_col(header.deep_view(), name@) == spec_find_from(
                header.deep_view(),
                name@,
                i as int,
            ),
        decreases n - i,
    {
        if str_eq(header[i].as_str(), name) {
            return Some(i);
        }
        i += 1;
    }
    None
}

/// A record type constructible from one row of a tabular file, given the
/// file's header row.
pub trait FromRow: Sized {
    /// Whether this header and row convert into a record.
    spec fn row_ok(header: Seq<Seq<char>>, row: Seq<Seq<char>>) -> bool;

    /// Whether `self` is the record this header and row convert to.
    spec fn matches_row(self, header: Seq<Seq<char>>, row: Seq<Seq<char>>) -> bool;

    /// Converts one row, reporting a message when the row does not convert.
    fn from_row(header: &Vec<String>, row: &Vec<String>) -> (r: Result<Self, String>)
        ensures
            r matches Ok(o) ==> Self::row_ok(header.deep_view(), row.deep_view())
                && o.matches_row(header.deep_view(), row.deep_view()),
            r is Err ==> !Self::row_ok(header.deep_view(), row.deep_view()),
    ;
}

/// Whether a strict read of these raw rows succeeds: the header row decodes,
/// and every following row decodes and converts.
pub open spec fn strict_read_ok<O: FromRow>(rows: Seq<Option<Seq<Seq<char>>>>) -> bool {
    rows.len() == 0 || (rows[0] is Some && forall|i: int| 1 <= i < rows.len() ==> (
    #[trigger] rows[i]) is Some && O::row_ok(rows[0]->0, rows[i]->0))
}

/// Whether `out` is the record sequence of a strict read of these raw rows:
/// one record per row after the header, in order.
pub open spec fn strict_matches<O: FromRow>(out: Seq<O>, rows: Seq<Option<Seq<Seq<char>>>>) -> bool {
    if rows.len() == 0 {
        out.len() == 0
    } else {
        out.len() + 1 == rows.len() && forall|i: int| 0 <= i < out.len() ==> (
        #[trigger] out[i]).matches_row(rows[0]->0, rows[i + 1]->0)
    }
}

/// Whether `out` is the record sequence of a lossy read of the data rows
/// `rows` under `header`: every row that decodes and converts is kept in
/// order, every other row is dropped.
pub open spec fn lossy_matches<O: FromRow>(
    out: Seq<O>,
    header: Seq<Seq<char>>,
    rows: Seq<Option<Seq<Seq<char>>>>,
) -> bool
    decreases rows.len(),
{
    if rows.len() == 0 {
        out.len() == 0
    } else {
        match rows.last() {
            Some(raw) => if O::row_ok(header, raw) {
                out.len() > 0 && out.last().matches_row(header, raw) && lossy_matches(
                    out.drop_last(),
                    header,
                    rows.drop_last(),
                )
            } else {
                lossy_matches(out, header, rows.drop_last())
            },
            None => lossy_matches(out, header, rows.drop_last()),
        }
    }
}

/// The number of rows a lossy read keeps: those that decode and convert.
pub open spec fn count_valid<O: FromRow>(
    header: Seq<Seq<char>>,
    rows: Seq<Option<Seq<Seq<char>>>>,
) -> int
    decreases rows.len(),
{
    if rows.len() == 0 {
        0
    } else {
        count_valid::<O>(header, rows.drop_last()) + (match rows.last() {
            Some(raw) => if O::row_ok(header, raw) {
                1int
            } else {
                0int
            },
            None => 0int,
        })
    }
}

/// Law: a lossy read returns exactly as many records as the file has valid
/// rows, wherever the malformed rows sit in between.
pub proof fn lemma_lossy_count<O: FromRow>(
    out: Seq<O>,
    header: Seq<Seq<char>>,
    rows: Seq<Option<Seq<Seq<char>>>>,
)
    requires
        lossy_matches(out, header, rows),
    ensures
        out.len() == count_valid::<O>(header, rows),
    decreases rows.len(),
{
    if rows.len() == 0 {
    } else {
        match rows.last() {
            Some(raw) => if O::row_ok(header, raw) {
                lemma_lossy_count(out.drop_last(), header, rows.drop_last());
            } else {
                lemma_lossy_count(out, header, rows.drop_last());
            },
            None => lemma_lossy_count(out, header, rows.drop_last()),
        }
    }
}

/// Decides the outcome of a probed file, for a caller that performed the
/// existence probe itself: the bytes of a present file are read with the
/// strict row policy; an absent file yields no records when optional and
/// the missing-file error carrying `path` when required.
pub fn read_from_probed<O: FromRow>(found: Option<Vec<u8>>, path: String, required_file: bool) -> (r:
    Result<Vec<O>, Error>)
    ensures
        found is None && !required_file ==> (r matches Ok(v) && v@.len() == 0),
        found is None && required_file ==> (r matches Err(e) && e matches Error::MissingFile(p)
            && p == path),
        found matches Some(bytes) ==> ({
            let rows = csv_rows(bytes@);
            &&& (r matches Ok(v) ==> strict_read_ok::<O>(rows) && strict_matches(v@, rows))
            &&& (r is Ok <==> strict_read_ok::<O>(rows))
            &&& (r matches Err(e) ==> (e matches Error::MalformedRow { path: p, detail: d }
                && p == path))
            &&& rows_trimmed(rows)
        }),
{
    match found {
        Some(bytes) => records_from_bytes::<O>(&bytes, path),
        None => {
            if required_file {
                Err(Error::MissingFile(path))
            } else {
                Ok(Vec::new())
            }
        },
    }
}

/// Decides the outcome of a probed file, with the lossy row policy: the
/// bytes of a present file always yield the records of their valid rows;
/// an absent file yields no records when optional and the missing-file
/// error carrying `path` when required.
pub fn read_from_probed_loose<O: FromRow>(
    found: Option<Vec<u8>>,
    path: String,
    required_file: bool,
) -> (r: Result<Vec<O>, Error>)
    ensures
        found is None && !required_file ==> (r matches Ok(v) && v@.len() == 0),
        found is None && required_file ==> (r matches Err(e) && e matches Error::MissingFile(p)
            && p == path),
        found matches Some(bytes) ==> (r matches Ok(v) && ({
            let rows = csv_rows(bytes@);
            &&& (rows.len() == 0 ==> v@.len() == 0)
            &&& (rows.len() > 0 && rows[0] is None ==> v@.len() == 0)
            &&& (rows.len() > 0 && rows[0] is Some ==> lossy_matches(
                v@,
                rows[0]->0,
                rows.subrange(1, rows.len() as int),
            ))
            &&& rows_trimmed(rows)
        })),
{
    match found {
        Some(bytes) => Ok(records_from_bytes_loose::<O>(&bytes)),
        None => {
            if required_file {
                Err(Error::MissingFile(path))
            } else {
                Ok(Vec::new())
            }
        },
    }
}

/// Reads the typed records of one named file through a file source, with the
/// strict row policy: if the file is absent and not required, yields no
/// records; if absent and required, fails naming the file; if present, every
/// row must decode and convert, and the first malformed row aborts the read
/// with an error naming the file.
/// Converts a tabular file's bytes into records with the strict row
/// policy. The first row is the header; every following row must decode
/// and convert; the read succeeds exactly then, and otherwise aborts at
/// the first malformed row with a malformed-row error that carries the
/// display path `path` and the underlying failure.
pub fn records_from_bytes<O: FromRow>(bytes: &Vec<u8>, path: String) -> (r: Result<Vec<O>, Error>)
    ensures
        ({
            let rows = csv_rows(bytes@);
            &&& (r matches Ok(v) ==> strict_read_ok::<O>(rows) && strict_matches(v@, rows))
            &&& (r is Ok <==> strict_read_ok::<O>(rows))
            &&& (r matches Err(e) ==> (e matches Error::MalformedRow { path: p, detail: d }
                && p == path))
            &&& rows_trimmed(rows)
        }),
{
    let ghost rows = csv_rows(bytes@);
    let raw = parse_rows(bytes);
    proof {
        assert forall|i: int, j: int|
            0 <= i < rows.len() && rows[i] is Some && 0 <= j < rows[i]->0.len() implies
            field_trimmed(rows[i]->0[j]) by {
            assert(raw@[i] is Ok);
            assert(rows[i]->0 == raw@[i]->Ok_0.deep_view());
            assert(field_trimmed(raw@[i]->Ok_0.deep_view()[j]));
        }
        assert(rows_trimmed(rows));
    }
    let mut out: Vec<O> = Vec::new();
    if raw.len() == 0 {
        return Ok(out);
    }
    let header: &Vec<String> = match &raw[0] {
        Ok(h) => h,
        Err(m) => {
            proof {
                assert(rows[0] is None);
            }
            return Err(Error::MalformedRow { path, detail: m.clone() });
        },
    };
    let ghost hdr = header.deep_view();
    let n = raw.len();
    let mut i: usize = 1;
    while i < n
        invariant
            rows == csv_rows(bytes@),
            rows_trimmed(rows),
            1 <= i <= n,
            n == raw@.len(),
            raw@.len() == rows.len(),
            forall|k: int| 0 <= k < raw@.len() ==> {
                &&& ((#[trigger] raw@[k]) matches Ok(row) ==> rows[k] == Some(row.deep_view()))
                &&& (raw@[k] is Err ==> rows[k] is None)
            },
            rows[0] is Some && rows[0]->0 == hdr,
            hdr == header.deep_view(),
            out@.len() + 1 == i,
            forall|k: int| 0 <= k < out@.len() ==> (#[trigger] out@[k]).matches_row(
                hdr,
                rows[k + 1]->0,
            ),
            forall|k: int| 1 <= k < i ==> (#[trigger] rows[k]) is Some && O::row_ok(
                hdr,
                rows[k]->0,
            ),
        decreases n - i,
    {
        match &raw[i] {
            Ok(row) => {
                match O::from_row(header, row) {
                    Ok(o) => {
                        out.push(o);
                    },
                    Err(m) => {
                        proof {
                            assert(rows[i as int] is Some && !O::row_ok(hdr, rows[i as int]->0));
                            assert(!strict_read_ok::<O>(rows));
                        }
                        return Err(Error::MalformedRow { path, detail: m });
                    },
                }
            },
            Err(m) => {
                proof {
                    assert(rows[i as int] is None);
                    assert(!strict_read_ok::<O>(rows));
                }
                return Err(Error::MalformedRow { path, detail: m.clone() });
            },
        }
        i += 1;
    }
    Ok(out)
}

/// Converts the bytes of one present tabular file into records, with the
/// lossy row policy: a row that does not decode or convert is dropped and
/// reading continues.
pub fn records_from_bytes_loose<O: FromRow>(bytes: &Vec<u8>) -> (r: Vec<O>)
    ensures
        ({
            let rows = csv_rows(bytes@);
            &&& (rows.len() == 0 ==> r@.len() == 0)
            &&& (rows.len() > 0 && rows[0] is None ==> r@.len() == 0)
            &&& (rows.len() > 0 && rows[0] is Some ==> lossy_matches(
                r@,
                rows[0]->0,
                rows.subrange(1, rows.len() as int),
            ))
            &&& rows_trimmed(rows)
        }),
{
    let ghost rows = csv_rows(bytes@);
    let raw = parse_rows(bytes);
    proof {
        assert forall|i: int, j: int|
            0 <= i < rows.len() && rows[i] is Some && 0 <= j < rows[i]->0.len() implies
            field_trimmed(rows[i]->0[j]) by {
            assert(raw@[i] is Ok);
            assert(rows[i]->0 == raw@[i]->Ok_0.deep_view());
            assert(field_trimmed(raw@[i]->Ok_0.deep_view()[j]));
        }
        assert(rows_trimmed(rows));
    }
    let mut out: Vec<O> = Vec::new();
    if raw.len() == 0 {
        return out;
    }
    let header: &Vec<String> = match &raw[0] {
        Ok(h) => h,
        Err(_) => {
            return out;
        },
    };
    let ghost hdr = header.deep_view();
    let n = raw.len();
    let mut i: usize = 1;
    proof {
        assert(rows.subrange(1, 1) =~= Seq::<Option<Seq<Seq<char>>>>::empty());
    }
    while i < n
        invariant
            rows == csv_rows(bytes@),
            1 <= i <= n,
            n == raw@.len(),
            raw@.len() == rows.len(),
            forall|k: int| 0 <= k < raw@.len() ==> {
                &&& ((#[trigger] raw@[k]) matches Ok(row) ==> rows[k] == Some(row.deep_view()))
                &&& (raw@[k] is Err ==> rows[k] is None)
            },
            rows[0] is Some && rows[0]->0 == hdr,
            hdr == header.deep_view(),
            lossy_matches(out@, hdr, rows.subrange(1, i as int)),
        decreases n - i,
    {
        proof {
            assert(rows.subrange(1, i as int + 1).drop_last() =~= rows.subrange(1, i as int));
            assert(rows.subrange(1, i as int + 1).last() == rows[i as int]);
        }
        let ghost prev_out = out@;
        match &raw[i] {
            Ok(row) => {
                match O::from_row(header, row) {
                    Ok(o) => {
                        out.push(o);
                        proof {
                            assert(out@.drop_last() =~= prev_out);
                            assert(out@.last() == o);
                        }
                    },
                    Err(_) => {},
                }
            },
            Err(_) => {},
        }
        i += 1;
    }
    proof {
        assert(rows.subrange(1, rows.len() as int) =~= rows.subrange(1, n as int));
    }
    out
}

pub fn read_objects<H: FileHandler, O: FromRow>(
    file_handler: &mut H,
    file_name: &str,
    required_file: bool,
) -> (r: Result<Vec<O>, Error>)
    ensures
        final(file_handler).files() == old(file_handler).files(),
        forall|n: Seq<char>| #[trigger] final(file_handler).path_of(n) == old(
            file_handler,
        ).path_of(n),
        final(file_handler).spec_source() == old(file_handler).spec_source(),
        forall|n: Seq<char>| #[trigger] final(file_handler).readable(n) == old(
            file_handler,
        ).readable(n),
        !old(file_handler).files().contains_key(file_name@) && !required_file ==> (r matches Ok(v)
            && v@.len() == 0),
        !old(file_handler).files().contains_key(file_name@) && required_file ==> (r matches Err(e)
            && e matches Error::MissingFile(p) && p@ == old(file_handler).path_of(file_name@)),
        old(file_handler).files().contains_key(file_name@) ==> {
            let rows = csv_rows(old(file_handler).files()[file_name@]);
            &&& (r matches Ok(v) ==> strict_read_ok::<O>(rows) && strict_matches(v@, rows))
            &&& (!strict_read_ok::<O>(rows) ==> r is Err)
            &&& (r matches Err(e) ==> (e is InvalidArchive || e is EntryUnreadable || (e matches
                Error::MalformedRow { path: p, detail: d } && p@ == old(file_handler).path_of(
                    file_name@,
                ))))
            &&& (strict_read_ok::<O>(rows) ==> (r matches Err(e) ==> (e is InvalidArchive
                || e is EntryUnreadable)))
            &&& (old(file_handler).readable(file_name@) && strict_read_ok::<O>(rows) ==> r is Ok)
            &&& (r is Ok ==> rows_trimmed(rows))
        },
{
    match file_handler.get_file_if_exists(file_name) {
        Ok((reader, path)) => read_from_probed::<O>(reader, path, required_file),
        Err(e) => Err(e),
    }
}

/// Reads the typed records of one named file through a file source, with the
/// lossy row policy: a row that does not decode or convert is dropped and
/// reading continues, so only successfully converted rows are returned. The
/// required/optional semantics are those of the strict reader.
pub fn read_objects_loose<H: FileHandler, O: FromRow>(
    file_handler: &mut H,
    file_name: &str,
    required_file: bool,
) -> (r: Result<Vec<O>, Error>)
    ensures
        final(file_handler).files() == old(file_handler).files(),
        forall|n: Seq<char>| #[trigger] final(file_handler).path_of(n) == old(
            file_handler,
        ).path_of(n),
        final(file_handler).spec_source() == old(file_handler).spec_source(),
        forall|n: Seq<char>| #[trigger] final(file_handler).readable(n) == old(
            file_handler,
        ).readable(n),
        !old(file_handler).files().contains_key(file_name@) && !required_file ==> (r matches Ok(v)
            && v@.len() == 0),
        !old(file_handler).files().contains_key(file_name@) && required_file ==> (r matches Err(e)
            && e matches Error::MissingFile(p) && p@ == old(file_handler).path_of(file_name@)),
        old(file_handler).files().contains_key(file_name@) ==> {
            let rows = csv_rows(old(file_handler).files()[file_name@]);
            &&& (r matches Ok(v) ==> {
                &&& (rows.len() == 0 ==> v@.len() == 0)
                &&& (rows.len() > 0 && rows[0] is None ==> v@.len() == 0)
                &&& (rows.len() > 0 && rows[0] is Some ==> lossy_matches(
                    v@,
                    rows[0]->0,
                    rows.subrange(1, rows.len() as int),
                ))
            })
            &&& (r matches Err(e) ==> (e is InvalidArchive || e is EntryUnreadable))
            &&& (old(file_handler).readable(file_name@) ==> r is Ok)
            &&& (r is Ok ==> rows_trimmed(rows))
        },
{
    match file_handler.get_file_if_exists(file_name) {
        Ok((reader, path)) => read_from_probed_loose::<O>(reader, path, required_file),
        Err(e) => Err(e),
    }
}

/// Builds an identified collection from a probed file, for a caller that
/// performed the existence probe itself: a strict read of a present file's
/// bytes followed by the duplicate-identifier check; an absent file yields
/// the missing-file error carrying `path` when required, and an empty
/// collection otherwise.
pub fn collection_from_probed<O: FromRow + Id>(
    found: Option<Vec<u8>>,
    path: String,
    required_file: bool,
) -> (r: Result<CollectionWithId<O>, Error>)
    ensures
        found is None && !required_file ==> (r matches Ok(c) && c@.len() == 0),
        found is None && required_file ==> (r matches Err(e) && e matches Error::MissingFile(p)
            && p == path),
        found matches Some(bytes) ==> ({
            let rows = csv_rows(bytes@);
            &&& (r matches Ok(c) ==> strict_read_ok::<O>(rows) && strict_matches(c@, rows)
                && c.unique_ids())
            &&& (!strict_read_ok::<O>(rows) ==> r is Err)
            &&& (r matches Err(e) ==> (e is DuplicateId || (e matches Error::MalformedRow {
                path: p,
                detail: d,
            } && p == path)))
            &&& (r matches Err(e) ==> (e matches Error::DuplicateId(id) ==> exists|
                v: Seq<O>,
                i: int,
                j: int,
            |
                #![trigger strict_matches::<O>(v, rows), v[i], v[j]]
                strict_matches::<O>(v, rows) && 0 <= i < j < v.len() && v[i].spec_id()
                    == v[j].spec_id() && id@ == v[j].spec_id()))
            &&& ((strict_read_ok::<O>(rows) && (forall|v: Seq<O>| #[trigger] strict_matches::<O>(
                v,
                rows,
            ) ==> (forall|i: int, j: int| 0 <= i < j < v.len() ==> v[i].spec_id()
                != v[j].spec_id()))) ==> r is Ok)
            &&& rows_trimmed(rows)
        }),
{
    let ghost gfound = found;
    let vec = match read_from_probed::<O>(found, path, required_file) {
        Ok(v) => v,
        Err(e) => return Err(e),
    };
    let ghost gvec = vec@;
    let r = CollectionWithId::new(vec);
    proof {
        if gfound is Some {
            let rows = csv_rows(gfound->0@);
            assert(strict_matches::<O>(gvec, rows));
            if r is Err {
                let e = r->Err_0;
                if e is DuplicateId {
                    assert(exists|i0: int, j0: int|
                        0 <= i0 < j0 < gvec.len() && gvec[i0].spec_id() == gvec[j0].spec_id()
                            && e->DuplicateId_0@ == gvec[j0].spec_id());
                    let (i0, j0) = choose|i0: int, j0: int|
                        0 <= i0 < j0 < gvec.len() && gvec[i0].spec_id() == gvec[j0].spec_id()
                            && e->DuplicateId_0@ == gvec[j0].spec_id();
                    assert(strict_matches::<O>(gvec, rows) && 0 <= i0 < j0 < gvec.len()
                        && gvec[i0].spec_id() == gvec[j0].spec_id() && e->DuplicateId_0@
                        == gvec[j0].spec_id());
                }
            }
            if strict_read_ok::<O>(rows) && (forall|v: Seq<O>| #[trigger] strict_matches::<O>(
                v,
                rows,
            ) ==> (forall|i: int, j: int| 0 <= i < j < v.len() ==> v[i].spec_id()
                != v[j].spec_id())) {
                assert(forall|i: int, j: int| 0 <= i < j < gvec.len() ==> gvec[i].spec_id()
                    != gvec[j].spec_id());
                assert(r is Ok);
            }
        }
    }
    r
}

/// Reads an identified collection from a file that must exist: a strict read
/// followed by the duplicate-identifier check.
pub fn read_collection<H: FileHandler, O: FromRow + Id>(
    file_handler: &mut H,
    file_name: &str,
) -> (r: Result<CollectionWithId<O>, Error>)
    ensures
        final(file_handler).files() == old(file_handler).files(),
        forall|n: Seq<char>| #[trigger] final(file_handler).path_of(n) == old(
            file_handler,
        ).path_of(n),
        final(file_handler).spec_source() == old(file_handler).spec_source(),
        forall|n: Seq<char>| #[trigger] final(file_handler).readable(n) == old(
            file_handler,
        ).readable(n),
        !old(file_handler).files().contains_key(file_name@) ==> (r matches Err(e) && e matches
            Error::MissingFile(p) && p@ == old(file_handler).path_of(file_name@)),
        old(file_handler).files().contains_key(file_name@) ==> {
            let rows = csv_rows(old(file_handler).files()[file_name@]);
            &&& (r matches Ok(c) ==> strict_read_ok::<O>(rows) && strict_matches(c@, rows)
                && c.unique_ids())
            &&& (!strict_read_ok::<O>(rows) ==> r is Err)
            &&& (r matches Err(e) ==> (e is InvalidArchive || e is EntryUnreadable
                || e is DuplicateId || (e matches Error::MalformedRow { path: p, detail: d }
                && p@ == old(file_handler).path_of(file_name@))))
            &&& (r matches Err(e) ==> (e matches Error::DuplicateId(id) ==> exists|
                v: Seq<O>,
                i: int,
                j: int,
            |
                #![trigger strict_matches::<O>(v, rows), v[i], v[j]]
                strict_matches::<O>(v, rows) && 0 <= i < j < v.len() && v[i].spec_id() == v[j].spec_id() && id@ == v[j].spec_id()))
            &&& ((strict_read_ok::<O>(rows) && (forall|v: Seq<O>| #[trigger] strict_matches::<O>(
                v,
                rows,
            ) ==> (forall|i: int, j: int| 0 <= i < j < v.len() ==> v[i].spec_id() != v[j].spec_id()))) ==> (r matches Err(e) ==> (e is InvalidArchive
                || e is EntryUnreadable)))
            &&& ((old(file_handler).readable(file_name@) && strict_read_ok::<O>(rows) && (forall|
                v: Seq<O>,
            | #[trigger] strict_matches::<O>(v, rows) ==> (forall|i: int, j: int| 0 <= i < j < v.len()
                ==> v[i].spec_id() != v[j].spec_id()))) ==> r is Ok)
            &&& (r is Ok ==> rows_trimmed(rows))
        },
{
    let vec = match read_objects::<H, O>(file_handler, file_name, true) {
        Ok(v) => v,
        Err(e) => return Err(e),
    };
    let ghost gvec = vec@;
    let r = CollectionWithId::new(vec);
    proof {
        if old(file_handler).files().contains_key(file_name@) {
            let rows = csv_rows(old(file_handler).files()[file_name@]);
            assert(strict_matches::<O>(gvec, rows));
            if r is Err {
                let e = r->Err_0;
                if e is DuplicateId {
                    assert(exists|i0: int, j0: int|
                        0 <= i0 < j0 < gvec.len() && gvec[i0].spec_id() == gvec[j0].spec_id()
                            && e->DuplicateId_0@ == gvec[j0].spec_id());
                    let (i0, j0) = choose|i0: int, j0: int|
                        0 <= i0 < j0 < gvec.len() && gvec[i0].spec_id() == gvec[j0].spec_id()
                            && e->DuplicateId_0@ == gvec[j0].spec_id();
                    assert(strict_matches::<O>(gvec, rows) && 0 <= i0 < j0 < gvec.len()
                        && gvec[i0].spec_id() == gvec[j0].spec_id() && e->DuplicateId_0@ == gvec[j0].spec_id());
                }
            }
            if strict_read_ok::<O>(rows) && (forall|v: Seq<O>| #[trigger] strict_matches::<O>(
                v,
                rows,
            ) ==> (forall|i: int, j: int| 0 <= i < j < v.len() ==> v[i].spec_id() != v[j].spec_id())) {
                assert(forall|i: int, j: int| 0 <= i < j < gvec.len() ==> gvec[i].spec_id()
                    != gvec[j].spec_id());
                assert(r is Ok);
            }
        }
    }
    r
}

/// Reads an identified collection from an optional file: a strict read that
/// yields an empty collection when the file is absent, followed by the
/// duplicate-identifier check.
pub fn read_opt_collection<H: FileHandler, O: FromRow + Id>(
    file_handler: &mut H,
    file_name: &str,
) -> (r: Result<CollectionWithId<O>, Error>)
    ensures
        final(file_handler).files() == old(file_handler).files(),
        forall|n: Seq<char>| #[trigger] final(file_handler).path_of(n) == old(
            file_handler,
        ).path_of(n),
        final(file_handler).spec_source() == old(file_handler).spec_source(),
        forall|n: Seq<char>| #[trigger] final(file_handler).readable(n) == old(
            file_handler,
        ).readable(n),
        !old(file_handler).files().contains_key(file_name@) ==> (r matches Ok(c) && c@.len() == 0),
        old(file_handler).files().contains_key(file_name@) ==> {
            let rows = csv_rows(old(file_handler).files()[file_name@]);
            &&& (r matches Ok(c) ==> strict_read_ok::<O>(rows) && strict_matches(c@, rows)
                && c.unique_ids())
            &&& (!strict_read_ok::<O>(rows) ==> r is Err)
            &&& (r matches Err(e) ==> (e is InvalidArchive || e is EntryUnreadable
                || e is DuplicateId || (e matches Error::MalformedRow { path: p, detail: d }
                && p@ == old(file_handler).path_of(file_name@))))
            &&& (r matches Err(e) ==> (e matches Error::DuplicateId(id) ==> exists|
                v: Seq<O>,
                i: int,
                j: int,
            |
                #![trigger strict_matches::<O>(v, rows), v[i], v[j]]
                strict_matches::<O>(v, rows) && 0 <= i < j < v.len() && v[i].spec_id() == v[j].spec_id() && id@ == v[j].spec_id()))
            &&& ((strict_read_ok::<O>(rows) && (forall|v: Seq<O>| #[trigger] strict_matches::<O>(
                v,
                rows,
            ) ==> (forall|i: int, j: int| 0 <= i < j < v.len() ==> v[i].spec_id() != v[j].spec_id()))) ==> (r matches Err(e) ==> (e is InvalidArchive
                || e is EntryUnreadable)))
            &&& ((old(file_handler).readable(file_name@) && strict_read_ok::<O>(rows) && (forall|
                v: Seq<O>,
            | #[trigger] strict_matches::<O>(v, rows) ==> (forall|i: int, j: int| 0 <= i < j < v.len()
                ==> v[i].spec_id() != v[j].spec_id()))) ==> r is Ok)
            &&& (r is Ok ==> rows_trimmed(rows))
        },
{
    let vec = match read_objects::<H, O>(file_handler, file_name, false) {
        Ok(v) => v,
        Err(e) => return Err(e),
    };
    let ghost gvec = vec@;
    let r = CollectionWithId::new(vec);
    proof {
        if old(file_handler).files().contains_key(file_name@) {
            let rows = csv_rows(old(file_handler).files()[file_name@]);
            assert(strict_matches::<O>(gvec, rows));
            if r is Err {
                let e = r->Err_0;
                if e is DuplicateId {
                    assert(exists|i0: int, j0: int|
                        0 <= i0 < j0 < gvec.len() && gvec[i0].spec_id() == gvec[j0].spec_id()
                            && e->DuplicateId_0@ == gvec[j0].spec_id());
                    let (i0, j0) = choose|i0: int, j0: int|
                        0 <= i0 < j0 < gvec.len() && gvec[i0].spec_id() == gvec[j0].spec_id()
                            && e->DuplicateId_0@ == gvec[j0].spec_id();
                    assert(strict_matches::<O>(gvec, rows) && 0 <= i0 < j0 < gvec.len()
                        && gvec[i0].spec_id() == gvec[j0].spec_id() && e->DuplicateId_0@ == gvec[j0].spec_id());
                }
            }
            if strict_read_ok::<O>(rows) && (forall|v: Seq<O>| #[trigger] strict_matches::<O>(
                v,
                rows,
            ) ==> (forall|i: int, j: int| 0 <= i < j < v.len() ==> v[i].spec_id() != v[j].spec_id())) {
                assert(forall|i: int, j: int| 0 <= i < j < gvec.len() ==> gvec[i].spec_id()
                    != gvec[j].spec_id());
                assert(r is Ok);
            }
        }
    }
    r
}

/// Law: the read outcome of a file source is pinned by its file map alone,
/// so two sources holding the same named files with the same contents — a
/// directory and an equivalent archive, say — yield identical found or
/// not-found outcomes and byte-identical content for every name. The
/// contract of `get_file_if_exists` ties every result to `files()`, and two
/// equal file maps agree on every name.
pub proof fn lemma_uniform_access<H1: FileHandler, H2: FileHandler>(h1: H1, h2: H2, name: Seq<char>)
    requires
        h1.files() == h2.files(),
    ensures
        h1.files().contains_key(name) <==> h2.files().contains_key(name),
        h1.files().contains_key(name) ==> h1.files()[name] == h2.files()[name],
{
}

/// The dataset section of the configuration document.
pub struct ConfigDataset {
    pub dataset_id: String,
}

/// The parsed content of the optional JSON configuration document: a
/// contributor, a dataset identifier, and optional feed-info pairs. Reading
/// and decoding the document is I/O at the edge of the library; the caller
/// hands the parsed values in.
pub struct Config {
    pub contributor: Contributor,
    pub dataset: ConfigDataset,
    pub feed_infos: Option<Vec<(String, String)>>,
}

/// Seeds a contributor record, a dataset record and the feed-info pairs from
/// an optional configuration. Absence of the whole configuration is valid
/// and yields default values and an empty feed-info map.
pub fn read_config(config: Option<Config>) -> (r: (Contributor, Dataset, Vec<(String, String)>))
    ensures
        config is None ==> r.0.id@.len() == 0 && r.0.name@.len() == 0 && r.1.id@.len() == 0
            && r.1.contributor_id@.len() == 0 && r.2@.len() == 0,
        config matches Some(c) ==> r.0 == c.contributor && r.1.id == c.dataset.dataset_id
            && r.1.contributor_id@ == c.contributor.id@ && (c.feed_infos matches Some(f) ==> r.2
            == f) && (c.feed_infos is None ==> r.2@.len() == 0),
{
    match config {
        None => (Contributor::default(), Dataset::default(), Vec::new()),
        Some(c) => {
            let contributor = c.contributor;
            let dataset = Dataset::new(c.dataset.dataset_id, contributor.id.clone());
            let feed_infos = match c.feed_infos {
                Some(f) => f,
                None => Vec::new(),
            };
            (contributor, dataset, feed_infos)
        },
    }
}

} // verus!
