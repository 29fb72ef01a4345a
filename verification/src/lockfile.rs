use vstd::prelude::*;
use vstd::string::{StrSliceExecFns, StringExecFns};

use crate::ident::{parse_ok, parsed_parts, parsed_slug, parses_to, Locator};
use crate::ident::lemma_parses_unique;

verus! {

/// How a resolved package is linked into the project.
#[derive(Debug, Clone, Copy, PartialEq, Eq, Structural)]
pub enum LinkType {
    /// The package manager owns the package contents.
    Hard,
    /// The package is linked from elsewhere and has no cache artifact of its
    /// own.
    Soft,
}

/// The `__metadata` block of a lockfile.
#[derive(Debug, Clone)]
pub struct YarnLockMetadata {
    pub version: u32,
    /// Cache-format generation: cache entries written under one key are
    /// invisible to lockfiles of another.
    pub cache_key: String,
}

/// One resolved package of a lockfile.
#[derive(Debug, Clone)]
pub struct YarnLockEntry {
    pub version: String,
    /// The strict locator string this entry resolved to.
    pub resolution: String,
    pub dependencies: Vec<(String, String)>,
    pub checksum: String,
    pub language_name: String,
    pub link_type: LinkType,
}

/// A dependency lockfile: its metadata and its resolved packages in document
/// order.
#[derive(Debug, Clone)]
pub struct YarnLock {
    pub metadata: YarnLockMetadata,
    pub packages: Vec<YarnLockEntry>,
}

/// The reference prefix that marks a workspace-linked package.
pub open spec fn workspace_prefix() -> Seq<char> {
    seq!['w', 'o', 'r', 'k', 's', 'p', 'a', 'c', 'e', ':']
}

/// Whether a reference names a workspace-linked package, which has no cache
/// artifact.
pub open spec fn is_workspace_ref(r: Seq<char>) -> bool {
    r.len() >= 10 && r.subrange(0, 10) == workspace_prefix()
}

/// Whether an entry's resolution is accepted by the strict locator grammar.
pub open spec fn entry_ok(e: YarnLockEntry) -> bool {
    parse_ok(e.resolution@, true)
}

/// The slug of an entry's resolution.
pub open spec fn entry_slug(e: YarnLockEntry) -> Seq<char> {
    parsed_slug(e.resolution@, true)
}

/// The reference of an entry's resolution.
pub open spec fn entry_reference(e: YarnLockEntry) -> Seq<char> {
    parsed_parts(e.resolution@, true).2
}

/// Whether an entry owns a cache artifact: it parses and is not
/// workspace-linked.
pub open spec fn entry_kept(e: YarnLockEntry) -> bool {
    entry_ok(e) && !is_workspace_ref(entry_reference(e))
}

/// Whether every entry of a lockfile parses strictly.
pub open spec fn lock_ok(entries: Seq<YarnLockEntry>) -> bool {
    forall|i: int| 0 <= i < entries.len() ==> entry_ok(entries[i])
}

/// The slugs of the entries that own cache artifacts, in document order.
pub open spec fn cache_files_of(entries: Seq<YarnLockEntry>) -> Seq<Seq<char>>
    decreases entries.len(),
{
    if entries.len() == 0 {
        Seq::empty()
    } else {
        let rest = cache_files_of(entries.drop_last());
        if entry_kept(entries.last()) {
            rest.push(entry_slug(entries.last()))
        } else {
            rest
        }
    }
}

/// A lockfile entry whose resolution the strict grammar rejects; partial
/// lockfile data is untrustworthy, so one such entry fails the whole read.
#[derive(Debug, Clone)]
pub struct LockfileParseError {
    /// The resolution string that failed to parse.
    pub resolution: String,
}

impl LockfileParseError {
    pub fn message(&self) -> (r: String)
        ensures
            r@ == "Failed to parse resolution: "@ + self.resolution@,
    {
        let mut r = String::from_str("Failed to parse resolution: ");
        r.append(self.resolution.as_str());
        r
    }
}

/// Whether a reference string starts with the `workspace:` prefix.
fn has_workspace_prefix(s: &str) -> (r: bool)
    ensures
        r == is_workspace_ref(s@),
{
    let n = s.unicode_len();
    if n < 10 {
        return false;
    }
    let r = s.get_char(0) == 'w' && s.get_char(1) == 'o' && s.get_char(2) == 'r' && s.get_char(3)
        == 'k' && s.get_char(4) == 's' && s.get_char(5) == 'p' && s.get_char(6) == 'a'
        && s.get_char(7) == 'c' && s.get_char(8) == 'e' && s.get_char(9) == ':';
    proof {
        if r {
            assert(s@.subrange(0, 10) =~= workspace_prefix());
        } else {
            if s@.subrange(0, 10) == workspace_prefix() {
                assert(forall|i: int| 0 <= i < 10 ==> s@[i] == workspace_prefix()[i]);
                assert(false);
            }
        }
    }
    r
}

impl YarnLock {
    /// The names of the cache artifacts this lockfile still references: the
    /// slug of every non-workspace entry.  Any entry the strict grammar
    /// rejects fails the whole lockfile.
    pub fn get_cache_files(&self) -> (r: Result<Vec<String>, LockfileParseError>)
        ensures
            r is Ok <==> lock_ok(self.packages@),
            match r {
                Ok(files) => files.deep_view() == cache_files_of(self.packages@),
                Err(e) => exists|i: int|
                    {
                        &&& 0 <= i < self.packages@.len()
                        &&& !entry_ok(self.packages@[i])
                        &&& (forall|j: int| 0 <= j < i ==> entry_ok(self.packages@[j]))
                        &&& e.resolution == self.packages@[i].resolution
                    },
            },
    {
        let ghost entries = self.packages@;
        let mut files: Vec<String> = Vec::new();
        let mut idx: usize = 0;
        while idx < self.packages.len()
            invariant
                entries == self.packages@,
                0 <= idx <= entries.len(),
                forall|j: int| 0 <= j < idx ==> entry_ok(entries[j]),
                files.deep_view() == cache_files_of(entries.take(idx as int)),
            decreases entries.len() - idx,
        {
            let entry = &self.packages[idx];
            let ghost prefix = entries.take(idx as int);
            match Locator::try_parse(entry.resolution.as_str(), true) {
                None => {
                    return Err(LockfileParseError { resolution: entry.resolution.clone() });
                },
                Some(loc) => {
                    proof {
                        let (sc, nm, rf) = parsed_parts(entry.resolution@, true);
                        assert(parses_to(entry.resolution@, true, sc, nm, rf));
                        lemma_parses_unique(
                            entry.resolution@,
                            true,
                            sc,
                            nm,
                            rf,
                            loc.ident.scope_view(),
                            loc.ident.name@,
                            loc.reference@,
                        );
                    }
                    if !has_workspace_prefix(loc.reference.as_str()) {
                        let ghost old_files = files.deep_view();
                        let slug = loc.slugify();
                        files.push(slug);
                        proof {
                            assert(files.deep_view() =~= old_files.push(
                                entry_slug(entries[idx as int]),
                            ));
                        }
                    }
                },
            }
            idx = idx + 1;
            proof {
                assert(entries.take(idx as int).drop_last() =~= prefix);
                assert(entries.take(idx as int).last() == entries[idx - 1]);
            }
        }
        proof {
            assert(entries.take(entries.len() as int) =~= entries);
        }
        Ok(files)
    }
}

} // verus!
