//! Numbered versions of a file, the oldest dropped beyond a limit.

use vstd::prelude::*;
use std::collections::VecDeque;

verus! {

/// One saved version of a file.
#[derive(Debug, Clone)]
pub struct FileVersion {
    pub version_id: usize,
    pub content: String,
    /// When the version was made, in seconds since the Unix epoch (UTC).
    pub timestamp: i64,
    pub description: String,
}

/// The versions kept, oldest first, at most `max_versions` of them once a
/// version has been added.
pub struct HistoryManager {
    base_dir: String,
    max_versions: usize,
    versions: VecDeque<FileVersion>,
}

/// The first version with id `id`.
pub open spec fn find_version(s: Seq<FileVersion>, id: usize) -> Option<FileVersion>
    decreases s.len(),
{
    if s.len() == 0 {
        None
    } else if s[0].version_id == id {
        Some(s[0])
    } else {
        find_version(s.drop_first(), id)
    }
}

impl View for HistoryManager {
    type V = Seq<FileVersion>;

    closed spec fn view(&self) -> Seq<FileVersion> {
        self.versions@
    }
}

impl HistoryManager {
    /// The directory the versions are saved in.
    pub closed spec fn dir(&self) -> Seq<char> {
        self.base_dir@
    }

    /// The directory the versions are saved in.
    pub fn base_dir(&self) -> (r: &str)
        ensures
            r@ == self.dir(),
    {
        self.base_dir.as_str()
    }

    /// The limit on the number of versions kept.
    pub closed spec fn limit(&self) -> nat {
        self.max_versions as nat
    }

    /// No versions yet, keeping at most `max_versions`.
    pub fn new(base_dir: &str, max_versions: usize) -> (r: Self)
        ensures
            r@ == Seq::<FileVersion>::empty(),
            r.limit() == max_versions,
            r.dir() == base_dir@,
    {
        Self { base_dir: base_dir.to_owned(), max_versions, versions: VecDeque::new() }
    }

    /// Adds a version numbered one past the count of versions kept, then
    /// drops the oldest version if there are more than the limit. Returns the
    /// new version's id.
    pub fn add_version(&mut self, content: &str, description: &str, timestamp: i64) -> (r: usize)
        requires
            old(self)@.len() < usize::MAX,
        ensures
            r == old(self)@.len() + 1,
            final(self).limit() == old(self).limit(),
            final(self).dir() == old(self).dir(),
            exists|v: FileVersion| {
                &&& v.version_id == r
                &&& v.content@ == content@
                &&& v.description@ == description@
                &&& v.timestamp == timestamp
                &&& if old(self)@.len() + 1 > old(self).limit() {
                        final(self)@ == old(self)@.push(v).drop_first()
                    } else {
                        final(self)@ == old(self)@.push(v)
                    }
            },
    {
        let version_id = self.versions.len() + 1;
        let version = FileVersion {
            version_id,
            content: content.to_owned(),
            timestamp,
            description: description.to_owned(),
        };
        let ghost v = version;
        let ghost pushed = self.versions@.push(version);
        self.versions.push_back(version);
        if self.versions.len() > self.max_versions {
            let _ = self.versions.pop_front();
            assert(self.versions@ =~= pushed.drop_first());
        }
        version_id
    }

    /// The version numbered `version_id`.
    pub fn get_version(&self, version_id: usize) -> (r: Option<&FileVersion>)
        ensures
            r matches Some(v) ==> find_version(self@, version_id) == Some(*v),
            r is None ==> find_version(self@, version_id) is None,
    {
        let mut i: usize = 0;
        proof {
            assert(self@.subrange(0, self@.len() as int) =~= self@);
        }
        while i < self.versions.len()
            invariant
                0 <= i <= self.versions@.len(),
                find_version(self@, version_id) == find_version(self@.subrange(i as int, self@.len() as int), version_id),
            decreases self.versions@.len() - i,
        {
            let ghost rest = self@.subrange(i as int, self@.len() as int);
            proof {
                assert(rest.drop_first() =~= self@.subrange(i + 1, self@.len() as int));
            }
            if self.versions[i].version_id == version_id {
                return Some(&self.versions[i]);
            }
            i += 1;
        }
        None
    }

    /// Every version kept, oldest first.
    pub fn list_versions(&self) -> (r: Vec<&FileVersion>)
        ensures
            r@.len() == self@.len(),
            forall|i: int| 0 <= i < r@.len() ==> *r@[i] == #[trigger] self@[i],
    {
        let mut out: Vec<&FileVersion> = Vec::new();
        let mut i: usize = 0;
        while i < self.versions.len()
            invariant
                0 <= i <= self.versions@.len(),
                out@.len() == i,
                forall|j: int| 0 <= j < i ==> *out@[j] == #[trigger] self@[j],
            decreases self.versions@.len() - i,
        {
            out.push(&self.versions[i]);
            i += 1;
        }
        out
    }
}

} // verus!
