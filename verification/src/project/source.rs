//! The seam through which every external resource (configuration, styles, references, sources,
//! fonts, images) is read, and an in-memory implementation of it for deterministic use.

use vstd::prelude::*;
use vstd::utf8::*;
use vstd::string::*;
use crate::project::path::{ComponentView, ProjectPath};
use crate::project::path_table::PathTable;
use crate::strs::to_owned_string;

verus! {

#[verifier::external_type_specification]
#[verifier::external_body]
pub struct ExIoError(std::io::Error);

#[verifier::external_type_specification]
#[verifier::external_body]
pub struct ExUtf8Error(std::str::Utf8Error);

/// A failure to obtain a resource. It does not name the resource: the stage that asked for it
/// does.
#[derive(Debug)]
pub enum SourceReadError {
    /// Reading failed; the I/O error says why (not found, permission denied, ...).
    Io(std::io::Error),
    /// The content is not valid UTF-8.
    InvalidUtf8(std::str::Utf8Error),
    /// The in-memory source holds no file at the path.
    NotFound,
}

/// The message of an I/O error, as its `Display` renders it.
#[verifier::external_body]
fn io_error_message(e: &std::io::Error) -> String {
    e.to_string()
}

impl SourceReadError {
    /// What happened: the I/O error's own message for an I/O failure (nothing is added in
    /// front of it), a fixed sentence otherwise.
    pub fn message(&self) -> (s: String)
        ensures
            self is InvalidUtf8 ==> s@ == "ファイルを UTF-8 として読めません"@,
            self is NotFound ==> s@ == "プロジェクトに登録されていないパスです"@,
    {
        match self {
            SourceReadError::Io(e) => io_error_message(e),
            SourceReadError::InvalidUtf8(_) => to_owned_string("ファイルを UTF-8 として読めません"),
            SourceReadError::NotFound => to_owned_string("プロジェクトに登録されていないパスです"),
        }
    }
}

/// The text that `bytes` encode, or the UTF-8 error, as `std::str::from_utf8` decides.
#[verifier::external_body]
pub fn decode_text(bytes: &[u8]) -> (r: Result<String, std::str::Utf8Error>)
    ensures
        r is Ok <==> valid_utf8(bytes@),
        r matches Ok(s) ==> s@ == decode_utf8(bytes@),
{
    std::str::from_utf8(bytes).map(|s| s.to_string())
}

/// Where the project's external resources are read from.
pub trait ProjectSource {
    /// The resource at `path` as UTF-8 text (configuration, styles, references, sources).
    fn read_text(&mut self, path: &ProjectPath) -> Result<String, SourceReadError>;

    /// The resource at `path` as bytes (fonts, images).
    fn read_bytes(&mut self, path: &ProjectPath) -> Result<Vec<u8>, SourceReadError>;

    /// Whether a resource exists at `path`.
    fn path_exists(&self, path: &ProjectPath) -> bool;
}

/// A project held in memory: files registered by path, and a count of how often each path was
/// asked for (misses included). It keeps no cache, so every request is counted.
#[derive(Debug)]
pub struct MemoryProjectSource {
    files: PathTable<Vec<u8>>,
    read_counts: PathTable<usize>,
}

impl MemoryProjectSource {
    /// The registered files.
    pub closed spec fn spec_files(&self) -> Map<Seq<ComponentView>, Vec<u8>> {
        self.files.spec_map()
    }

    /// How often each path was asked for; paths never asked for are absent.
    pub closed spec fn spec_counts(&self) -> Map<Seq<ComponentView>, usize> {
        self.read_counts.spec_map()
    }

    /// How often `p` was asked for.
    pub open spec fn spec_count(&self, p: Seq<ComponentView>) -> nat {
        if self.spec_counts().dom().contains(p) {
            self.spec_counts()[p] as nat
        } else {
            0
        }
    }

    /// Internal consistency of the two tables.
    #[verifier::type_invariant]
    spec fn inv(&self) -> bool {
        self.files.wf() && self.read_counts.wf()
    }

    /// An empty project.
    pub fn new() -> (s: MemoryProjectSource)
        ensures
            s.spec_files() == Map::<Seq<ComponentView>, Vec<u8>>::empty(),
            s.spec_counts() == Map::<Seq<ComponentView>, usize>::empty(),
    {
        MemoryProjectSource { files: PathTable::new(), read_counts: PathTable::new() }
    }

    /// The project with the text `content` registered at `path` (replacing a previous file).
    pub fn with_text(self, path: &str, content: &str) -> (s: MemoryProjectSource)
        ensures
            s.spec_files() == self.spec_files().insert(
                crate::project::path::spec_components(path@),
                s.spec_files()[crate::project::path::spec_components(path@)],
            ),
            s.spec_files()[crate::project::path::spec_components(path@)]@ == content.spec_bytes(),
            s.spec_counts() == self.spec_counts(),
    {
        let bytes = content.as_bytes();
        let mut v: Vec<u8> = Vec::new();
        let mut i: usize = 0;
        while i < bytes.len()
            invariant
                0 <= i <= bytes@.len(),
                v@ == bytes@.subrange(0, i as int),
            decreases bytes@.len() - i,
        {
            v.push(bytes[i]);
            assert(v@ =~= bytes@.subrange(0, i + 1));
            i = i + 1;
        }
        assert(v@ =~= bytes@);
        self.with_bytes(path, v)
    }

    /// The project with the bytes `content` registered at `path` (replacing a previous file).
    pub fn with_bytes(self, path: &str, content: Vec<u8>) -> (s: MemoryProjectSource)
        ensures
            s.spec_files() == self.spec_files().insert(
                crate::project::path::spec_components(path@),
                content,
            ),
            s.spec_counts() == self.spec_counts(),
    {
        proof {
            use_type_invariant(&self);
        }
        let key = ProjectPath::new(path);
        let MemoryProjectSource { files, read_counts } = self;
        let mut files = files;
        files.insert(key, content);
        MemoryProjectSource { files, read_counts }
    }

    /// How often `path` was asked for, misses included.
    pub fn read_count(&self, path: &str) -> (n: usize)
        ensures
            n == self.spec_count(crate::project::path::spec_components(path@)),
    {
        proof {
            use_type_invariant(self);
        }
        let key = ProjectPath::new(path);
        match self.read_counts.get(&key) {
            Some(n) => *n,
            None => 0,
        }
    }

    /// Counts one request for `path` (the count stops growing at `usize::MAX`).
    fn record_read(&mut self, path: &ProjectPath)
        ensures
            final(self).spec_files() == old(self).spec_files(),
            final(self).spec_counts() == old(self).spec_counts().insert(
                path@,
                (if old(self).spec_count(path@) < usize::MAX {
                    old(self).spec_count(path@) + 1
                } else {
                    usize::MAX as nat
                }) as usize,
            ),
    {
        proof {
            use_type_invariant(&*self);
        }
        let current = match self.read_counts.get(path) {
            Some(n) => *n,
            None => 0,
        };
        let next = if current < usize::MAX { current + 1 } else { usize::MAX };
        let mut counts = PathTable::new();
        std::mem::swap(&mut counts, &mut self.read_counts);
        counts.insert(path.duplicate(), next);
        self.read_counts = counts;
    }

    /// The bytes registered at `path`, counting the request.
    pub fn read_bytes(&mut self, path: &ProjectPath) -> (r: Result<Vec<u8>, SourceReadError>)
        ensures
            final(self).spec_files() == old(self).spec_files(),
            final(self).spec_count(path@) == (if old(self).spec_count(path@) < usize::MAX {
                old(self).spec_count(path@) + 1
            } else {
                usize::MAX as nat
            }),
            forall|q: Seq<ComponentView>| q != path@ ==> final(self).spec_count(q) == old(self).spec_count(q),
            old(self).spec_files().dom().contains(path@) ==> (r matches Ok(b) && b@ == old(self).spec_files()[path@]@),
            !old(self).spec_files().dom().contains(path@) ==> (r matches Err(e) && e is NotFound),
    {
        self.record_read(path);
        proof {
            use_type_invariant(&*self);
        }
        match self.files.get(path) {
            Some(bytes) => Ok(bytes.clone()),
            None => Err(SourceReadError::NotFound),
        }
    }

    /// The text registered at `path`, counting the request.
    pub fn read_text(&mut self, path: &ProjectPath) -> (r: Result<String, SourceReadError>)
        ensures
            final(self).spec_files() == old(self).spec_files(),
            final(self).spec_count(path@) == (if old(self).spec_count(path@) < usize::MAX {
                old(self).spec_count(path@) + 1
            } else {
                usize::MAX as nat
            }),
            forall|q: Seq<ComponentView>| q != path@ ==> final(self).spec_count(q) == old(self).spec_count(q),
            !old(self).spec_files().dom().contains(path@) ==> (r matches Err(e) && e is NotFound),
            old(self).spec_files().dom().contains(path@) ==> {
                let b = old(self).spec_files()[path@]@;
                &&& valid_utf8(b) ==> (r matches Ok(s) && s@ == decode_utf8(b))
                &&& !valid_utf8(b) ==> (r matches Err(e) && e is InvalidUtf8)
            },
    {
        let bytes = self.read_bytes(path)?;
        match decode_text(bytes.as_slice()) {
            Ok(s) => Ok(s),
            Err(e) => Err(SourceReadError::InvalidUtf8(e)),
        }
    }

    /// Whether a file is registered at `path`.
    pub fn path_exists(&self, path: &ProjectPath) -> (b: bool)
        ensures
            b == self.spec_files().dom().contains(path@),
    {
        proof {
            use_type_invariant(self);
        }
        self.files.contains(path)
    }
}

impl ProjectSource for MemoryProjectSource {
    fn read_text(&mut self, path: &ProjectPath) -> (r: Result<String, SourceReadError>)
        ensures
            final(self).spec_files() == old(self).spec_files(),
            final(self).spec_count(path@) == (if old(self).spec_count(path@) < usize::MAX {
                old(self).spec_count(path@) + 1
            } else {
                usize::MAX as nat
            }),
            forall|q: Seq<ComponentView>| q != path@ ==> final(self).spec_count(q) == old(self).spec_count(q),
            !old(self).spec_files().dom().contains(path@) ==> (r matches Err(e) && e is NotFound),
            old(self).spec_files().dom().contains(path@) ==> {
                let b = old(self).spec_files()[path@]@;
                &&& valid_utf8(b) ==> (r matches Ok(s) && s@ == decode_utf8(b))
                &&& !valid_utf8(b) ==> (r matches Err(e) && e is InvalidUtf8)
            },
    {
        MemoryProjectSource::read_text(self, path)
    }

    fn read_bytes(&mut self, path: &ProjectPath) -> (r: Result<Vec<u8>, SourceReadError>)
        ensures
            final(self).spec_files() == old(self).spec_files(),
            final(self).spec_count(path@) == (if old(self).spec_count(path@) < usize::MAX {
                old(self).spec_count(path@) + 1
            } else {
                usize::MAX as nat
            }),
            forall|q: Seq<ComponentView>| q != path@ ==> final(self).spec_count(q) == old(self).spec_count(q),
            old(self).spec_files().dom().contains(path@) ==> (r matches Ok(b) && b@ == old(self).spec_files()[path@]@),
            !old(self).spec_files().dom().contains(path@) ==> (r matches Err(e) && e is NotFound),
    {
        MemoryProjectSource::read_bytes(self, path)
    }

    fn path_exists(&self, path: &ProjectPath) -> (b: bool)
        ensures
            b == self.spec_files().dom().contains(path@),
    {
        MemoryProjectSource::path_exists(self, path)
    }
}

} // verus!
