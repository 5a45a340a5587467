//! The execution session: scoped, exclusive storage for exactly one
//! external-tool invocation.
//!
//! A `FileSession` owns one scratch directory for the lifetime of a single
//! request. The session itself never touches the disk: staging returns a
//! `FileWrite` plan and closing returns a `FileRemoval` plan, both carried out
//! by the unverified driver that owns the real directory. The session keeps
//! an exact record of every file it has accepted, so that reading a staged
//! file back is answered from that record, and every path it ever emits lies
//! directly inside the session root.

use vstd::prelude::*;

use crate::error::CoreError;
use crate::text::{copy_bytes, str_eq};
use vstd::string::{StrSliceExecFns, StringExecFns};

verus! {

/// A filename is accepted only as a single path segment: non-empty, without
/// path separators and without the `..` parent segment anywhere in it, so a
/// staged file can never land outside the session root.
pub open spec fn valid_filename(name: Seq<char>) -> bool {
    &&& name.len() > 0
    &&& forall|i: int| 0 <= i < name.len() ==> name[i] != '/' && name[i] != '\\'
    &&& forall|i: int| 0 <= i < name.len() - 1 ==> !(#[trigger] name[i] == '.' && name[i + 1] == '.')
}

/// The path of a named file directly inside a root directory.
pub open spec fn spec_file_path(root: Seq<char>, name: Seq<char>) -> Seq<char> {
    root + seq!['/'] + name
}

/// Checks `valid_filename` on real input.
pub fn is_valid_filename(name: &str) -> (r: bool)
    ensures
        r == valid_filename(name@),
{
    let len = name.unicode_len();
    if len == 0 {
        return false;
    }
    let mut i: usize = 0;
    let mut prev: char = ' ';
    while i < len
        invariant
            i <= len,
            len == name@.len(),
            forall|j: int| 0 <= j < i ==> name@[j] != '/' && name@[j] != '\\',
            forall|j: int| 0 <= j < i - 1 ==> !(#[trigger] name@[j] == '.' && name@[j + 1] == '.'),
            i > 0 ==> prev == name@[i - 1],
        decreases len - i,
    {
        let c = name.get_char(i);
        if c == '/' || c == '\\' {
            return false;
        }
        if i > 0 && prev == '.' && c == '.' {
            return false;
        }
        prev = c;
        i += 1;
    }
    true
}

/// One file the session has accepted: its name and its exact bytes.
pub struct SessionFile {
    pub name: String,
    pub bytes: Vec<u8>,
}

/// A write the driver must perform: put `bytes` at `path`.
pub struct FileWrite {
    pub path: String,
    pub bytes: Vec<u8>,
}

/// A removal the driver must perform: delete the directory at `path` with
/// everything inside it.
pub struct FileRemoval {
    pub path: String,
}

/// The session's record of its files as a map from filename to content.
/// A later entry for the same name wins, which is how staging overwrites.
pub open spec fn files_model(entries: Seq<SessionFile>) -> Map<Seq<char>, Seq<u8>>
    decreases entries.len(),
{
    if entries.len() == 0 {
        Map::empty()
    } else {
        files_model(entries.drop_last()).insert(entries.last().name@, entries.last().bytes@)
    }
}

/// One isolated scratch directory, bound to the lifetime of a single request.
pub struct FileSession {
    root: String,
    live: bool,
    files: Vec<SessionFile>,
}

impl FileSession {
    /// The path of the session's scratch directory.
    pub closed spec fn spec_root(self) -> Seq<char> {
        self.root@
    }

    /// Whether the session is still open. A closed session answers no reads
    /// and accepts no files.
    pub closed spec fn spec_live(self) -> bool {
        self.live
    }

    /// The files the session holds, by name.
    pub closed spec fn spec_files(self) -> Map<Seq<char>, Seq<u8>> {
        files_model(self.files@)
    }

    /// Opens a session over a scratch directory the driver has allocated.
    /// The driver must hand every session a distinct, freshly created root.
    pub fn new(root: String) -> (s: Self)
        ensures
            s.spec_live(),
            s.spec_root() == root@,
            s.spec_files() == Map::<Seq<char>, Seq<u8>>::empty(),
    {
        FileSession { root, live: true, files: Vec::new() }
    }

    /// The session root path.
    pub fn path(&self) -> (p: &String)
        ensures
            p@ == self.spec_root(),
    {
        &self.root
    }

    /// Whether the session is still open.
    pub fn is_live(&self) -> (r: bool)
        ensures
            r == self.spec_live(),
    {
        self.live
    }

    /// The on-disk path of a named file of this session. Rejects any name
    /// that is not a single path segment, so the result always lies directly
    /// inside the session root.
    pub fn file_path(&self, name: &str) -> (r: Result<String, CoreError>)
        ensures
            valid_filename(name@) ==> (r matches Ok(p) && p@ == spec_file_path(
                self.spec_root(),
                name@,
            )),
            !valid_filename(name@) ==> r == Err::<String, CoreError>(CoreError::InvalidFilename),
    {
        if !is_valid_filename(name) {
            return Err(CoreError::InvalidFilename);
        }
        let mut p = self.root.clone();
        p.append("/");
        p.append(name);
        proof {
            reveal_strlit("/");
            assert("/"@ =~= seq!['/']);
        }
        Ok(p)
    }

    /// Stages a file: records its exact bytes under `name` and returns the
    /// write the driver must mirror to disk. A name that is not a single
    /// path segment is rejected with `InvalidFilename` and nothing changes;
    /// staging an existing name overwrites its bytes.
    pub fn add_file(&mut self, name: &str, bytes: Vec<u8>) -> (r: Result<FileWrite, CoreError>)
        ensures
            final(self).spec_root() == old(self).spec_root(),
            final(self).spec_live() == old(self).spec_live(),
            old(self).spec_live() && valid_filename(name@) ==> (r matches Ok(w)
                && w.path@ == spec_file_path(old(self).spec_root(), name@)
                && w.bytes@ == bytes@
                && final(self).spec_files() == old(self).spec_files().insert(name@, bytes@)),
            old(self).spec_live() && !valid_filename(name@) ==> r == Err::<FileWrite, CoreError>(
                CoreError::InvalidFilename,
            ) && final(self).spec_files() == old(self).spec_files(),
            !old(self).spec_live() ==> r == Err::<FileWrite, CoreError>(CoreError::WriteFailed)
                && final(self).spec_files() == old(self).spec_files(),
    {
        if !self.live {
            return Err(CoreError::WriteFailed);
        }
        let path = match self.file_path(name) {
            Ok(p) => p,
            Err(e) => {
                return Err(e);
            },
        };
        let stored = copy_bytes(&bytes);
        let ghost before = self.files@;
        self.files.push(SessionFile { name: String::from_str(name), bytes: stored });
        proof {
            assert(self.files@.drop_last() =~= before);
        }
        Ok(FileWrite { path, bytes })
    }

    /// Records a file the external tool has produced on disk, as reported by
    /// the driver, so it can be read back like a staged file. The same names
    /// are accepted as for staging.
    pub fn record_file(&mut self, name: &str, bytes: Vec<u8>) -> (r: Result<(), CoreError>)
        ensures
            final(self).spec_root() == old(self).spec_root(),
            final(self).spec_live() == old(self).spec_live(),
            old(self).spec_live() && valid_filename(name@) ==> (r matches Ok(u)
                && final(self).spec_files() == old(self).spec_files().insert(name@, bytes@)),
            old(self).spec_live() && !valid_filename(name@) ==> r == Err::<(), CoreError>(
                CoreError::InvalidFilename,
            ) && final(self).spec_files() == old(self).spec_files(),
            !old(self).spec_live() ==> r == Err::<(), CoreError>(CoreError::WriteFailed)
                && final(self).spec_files() == old(self).spec_files(),
    {
        if !self.live {
            return Err(CoreError::WriteFailed);
        }
        if !is_valid_filename(name) {
            return Err(CoreError::InvalidFilename);
        }
        let ghost before = self.files@;
        self.files.push(SessionFile { name: String::from_str(name), bytes });
        proof {
            assert(self.files@.drop_last() =~= before);
        }
        Ok(())
    }

    /// Reads a file of the session back: exactly the bytes most recently
    /// staged or recorded under `name`. On a closed session, or for a name
    /// the session does not hold, the answer is `NotFound`.
    pub fn read_file(&self, name: &str) -> (r: Result<Vec<u8>, CoreError>)
        ensures
            r matches Ok(b) ==> self.spec_live() && self.spec_files().contains_key(name@)
                && b@ == self.spec_files()[name@],
            r is Err ==> r == Err::<Vec<u8>, CoreError>(CoreError::NotFound),
            r is Err <==> !(self.spec_live() && self.spec_files().contains_key(name@)),
    {
        if !self.live {
            return Err(CoreError::NotFound);
        }
        let mut i: usize = self.files.len();
        while i > 0
            invariant
                self.spec_live(),
                i <= self.files.len(),
                forall|j: int| i <= j < self.files@.len() ==> self.files@[j].name@ != name@,
            decreases i,
        {
            i -= 1;
            if str_eq(self.files[i].name.as_str(), name) {
                proof {
                    lemma_model_lookup(self.files@, name@, i as int);
                }
                return Ok(copy_bytes(&self.files[i].bytes));
            }
        }
        proof {
            lemma_model_absent(self.files@, name@);
        }
        Err(CoreError::NotFound)
    }

    /// Ends the session: it stops answering, forgets its files, and hands the
    /// driver the removal of the whole session root. The driver performs the
    /// removal unconditionally, on every exit path.
    pub fn close(&mut self) -> (r: FileRemoval)
        ensures
            !final(self).spec_live(),
            final(self).spec_files() == Map::<Seq<char>, Seq<u8>>::empty(),
            final(self).spec_root() == old(self).spec_root(),
            r.path@ == old(self).spec_root(),
    {
        self.live = false;
        self.files = Vec::new();
        FileRemoval { path: self.root.clone() }
    }
}

/// In the session's record, the entry found by scanning from the most recent
/// end is exactly what the model map holds for that name.
proof fn lemma_model_lookup(entries: Seq<SessionFile>, name: Seq<char>, i: int)
    requires
        0 <= i < entries.len(),
        entries[i].name@ == name,
        forall|j: int| i < j < entries.len() ==> entries[j].name@ != name,
    ensures
        files_model(entries).contains_key(name),
        files_model(entries)[name] == entries[i].bytes@,
    decreases entries.len(),
{
    if i == entries.len() - 1 {
    } else {
        lemma_model_lookup(entries.drop_last(), name, i);
    }
}

/// A name no entry carries is absent from the model map.
proof fn lemma_model_absent(entries: Seq<SessionFile>, name: Seq<char>)
    requires
        forall|j: int| 0 <= j < entries.len() ==> entries[j].name@ != name,
    ensures
        !files_model(entries).contains_key(name),
    decreases entries.len(),
{
    if entries.len() > 0 {
        lemma_model_absent(entries.drop_last(), name);
    }
}

/// Staging and then reading the same name round-trips: the bytes read back
/// are exactly the bytes staged. `after` is any live session whose record
/// extends `before`'s by one staged file, as `add_file` ensures.
pub proof fn lemma_stage_read_round_trip(
    before: FileSession,
    after: FileSession,
    name: Seq<char>,
    bytes: Seq<u8>,
)
    requires
        after.spec_live(),
        after.spec_files() == before.spec_files().insert(name, bytes),
    ensures
        after.spec_files().contains_key(name),
        after.spec_files()[name] == bytes,
{
}

/// Every path the session emits for a valid filename lies directly inside
/// the session root: it extends the root by exactly one separator and one
/// separator-free segment that never contains the parent marker `..`.
pub proof fn lemma_file_path_stays_in_root(root: Seq<char>, name: Seq<char>)
    requires
        valid_filename(name),
    ensures
        spec_file_path(root, name).len() == root.len() + 1 + name.len(),
        spec_file_path(root, name).subrange(0, root.len() as int) == root,
        spec_file_path(root, name)[root.len() as int] == '/',
        forall|i: int|
            root.len() < i < spec_file_path(root, name).len() ==> spec_file_path(root, name)[i]
                != '/' && spec_file_path(root, name)[i] != '\\',
        forall|i: int|
            root.len() < i < spec_file_path(root, name).len() - 1 ==> !(#[trigger] spec_file_path(
                root,
                name,
            )[i] == '.' && spec_file_path(root, name)[i + 1] == '.'),
{
    assert(spec_file_path(root, name).subrange(0, root.len() as int) =~= root);
}

/// Within one session root, distinct filenames name distinct paths: no two
/// staged files can collide on disk.
pub proof fn lemma_distinct_names_distinct_paths(root: Seq<char>, n1: Seq<char>, n2: Seq<char>)
    requires
        n1 != n2,
    ensures
        spec_file_path(root, n1) != spec_file_path(root, n2),
{
    let p1 = spec_file_path(root, n1);
    let p2 = spec_file_path(root, n2);
    if p1 == p2 {
        assert((root + seq!['/']).len() == root.len() + 1);
        assert(p1.len() == root.len() + 1 + n1.len());
        assert(p2.len() == root.len() + 1 + n2.len());
        assert forall|i: int| 0 <= i < n1.len() implies n1[i] == n2[i] by {
            assert(p1[root.len() + 1 + i] == n1[i]);
            assert(p2[root.len() + 1 + i] == n2[i]);
        }
        assert(n1 =~= n2);
    }
}

/// Paths of different session roots never coincide: a file path determines
/// its root as everything before the final separator, so sessions with
/// distinct roots cannot touch each other's files.
pub proof fn lemma_distinct_roots_distinct_paths(
    root1: Seq<char>,
    n1: Seq<char>,
    root2: Seq<char>,
    n2: Seq<char>,
)
    requires
        valid_filename(n1),
        valid_filename(n2),
        root1 != root2,
    ensures
        spec_file_path(root1, n1) != spec_file_path(root2, n2),
{
    let p1 = spec_file_path(root1, n1);
    let p2 = spec_file_path(root2, n2);
    if p1 == p2 {
        assert((root1 + seq!['/']).len() == root1.len() + 1);
        assert((root2 + seq!['/']).len() == root2.len() + 1);
        assert(p1.len() == root1.len() + 1 + n1.len());
        assert(p2.len() == root2.len() + 1 + n2.len());
        if root1.len() < root2.len() {
            let j = root2.len() as int;
            assert(p2[j] == '/');
            assert(p1[j] == n1[j - root1.len() - 1]);
        } else if root2.len() < root1.len() {
            let j = root1.len() as int;
            assert(p1[j] == '/');
            assert(p2[j] == n2[j - root2.len() - 1]);
        } else {
            assert forall|i: int| 0 <= i < root1.len() implies root1[i] == root2[i] by {
                assert(p1[i] == root1[i]);
                assert(p2[i] == root2[i]);
            }
            assert(root1 =~= root2);
        }
    }
}

/// After `close`, no read can succeed: the session is no longer live and
/// holds no files, so `read_file` answers `NotFound` for every name.
pub proof fn lemma_read_after_close(s: FileSession, name: Seq<char>)
    requires
        !s.spec_live() || s.spec_files() == Map::<Seq<char>, Seq<u8>>::empty(),
    ensures
        !(s.spec_live() && s.spec_files().contains_key(name)),
{
}

} // verus!
