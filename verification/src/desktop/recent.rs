use vstd::prelude::*;

verus! {

/// Most projects remembered.
pub const RECENT_LIMIT: usize = 10;

/// A binary/metadata pair opened before.
#[derive(Debug, PartialEq, Eq)]
pub struct RecentProject {
    pub binary: String,
    pub metadata: String,
    pub opened_unix_seconds: u64,
}

/// Recently opened projects, most recent first.
pub struct RecentProjects {
    pub projects: Vec<RecentProject>,
}

impl Default for RecentProjects {
    fn default() -> (r: Self)
        ensures
            r.projects@.len() == 0,
    {
        RecentProjects { projects: Vec::new() }
    }
}

/// Whether `std::path::Path` holds the two paths equal. It compares paths component by
/// component, so repeated separators, a trailing separator and inner `.` components do not
/// tell two paths apart; which characters separate components is the platform's rule.
pub uninterp spec fn same_path(a: Seq<char>, b: Seq<char>) -> bool;

/// `Path::new(a) == Path::new(b)` (`<Path as PartialEq>::eq`).
#[verifier::external_body]
fn paths_equal(a: &str, b: &str) -> (r: bool)
    ensures
        r == same_path(a@, b@),
{
    std::path::Path::new(a) == std::path::Path::new(b)
}

/// `p` is a different pair than `binary`/`metadata`, paths compared as paths.
pub open spec fn other_pair(p: RecentProject, binary: Seq<char>, metadata: Seq<char>) -> bool {
    !same_path(p.binary@, binary) || !same_path(p.metadata@, metadata)
}

/// The projects that are not the given pair, in order.
pub open spec fn without_pair(projects: Seq<RecentProject>, binary: Seq<char>, metadata: Seq<char>) -> Seq<
    RecentProject,
>
    decreases projects.len(),
{
    if projects.len() == 0 {
        Seq::empty()
    } else {
        let rest = without_pair(projects.drop_last(), binary, metadata);
        if other_pair(projects.last(), binary, metadata) {
            rest.push(projects.last())
        } else {
            rest
        }
    }
}

proof fn lemma_without_pair_len(projects: Seq<RecentProject>, binary: Seq<char>, metadata: Seq<char>)
    ensures
        without_pair(projects, binary, metadata).len() <= projects.len(),
        forall|i: int|
            0 <= i < without_pair(projects, binary, metadata).len() ==> other_pair(
                #[trigger] without_pair(projects, binary, metadata)[i],
                binary,
                metadata,
            ),
    decreases projects.len(),
{
    if projects.len() > 0 {
        lemma_without_pair_len(projects.drop_last(), binary, metadata);
    }
}

impl RecentProjects {
    /// Puts the pair first, dropping an older entry for the same pair and keeping at most
    /// [`RECENT_LIMIT`] entries; `now` is the time it was opened.
    pub fn remember(&mut self, binary: String, metadata: String, now: u64)
        ensures
            ({
                let kept = seq![
                    RecentProject { binary, metadata, opened_unix_seconds: now },
                ] + without_pair(old(self).projects@, binary@, metadata@);
                final(self).projects@ == if kept.len() > RECENT_LIMIT {
                    kept.take(RECENT_LIMIT as int)
                } else {
                    kept
                }
            }),
    {
        let mut projects: Vec<RecentProject> = Vec::new();
        projects.push(RecentProject { binary: binary.clone(), metadata: metadata.clone(), opened_unix_seconds: now });
        let ghost first = projects@;
        let ghost all = without_pair(self.projects@, binary@, metadata@);
        let mut i: usize = 0;
        while i < self.projects.len()
            invariant
                first.len() == 1,
                first[0] == (RecentProject { binary, metadata, opened_unix_seconds: now }),
                i <= self.projects@.len(),
                projects@ == first + without_pair(self.projects@.take(i as int), binary@, metadata@),
            decreases self.projects@.len() - i,
        {
            let item = &self.projects[i];
            assert(self.projects@.take(i as int + 1).drop_last() =~= self.projects@.take(i as int));
            if !paths_equal(item.binary.as_str(), binary.as_str()) || !paths_equal(
                item.metadata.as_str(),
                metadata.as_str(),
            ) {
                projects.push(item.clone());
            }
            i = i + 1;
            assert(projects@ =~= first + without_pair(self.projects@.take(i as int), binary@, metadata@));
        }
        assert(self.projects@.take(i as int) =~= self.projects@);
        if projects.len() > RECENT_LIMIT {
            projects.truncate(RECENT_LIMIT);
        }
        self.projects = projects;
    }
}

impl Clone for RecentProject {
    fn clone(&self) -> (r: Self)
        ensures
            r == *self,
    {
        RecentProject {
            binary: self.binary.clone(),
            metadata: self.metadata.clone(),
            opened_unix_seconds: self.opened_unix_seconds,
        }
    }
}

/// After remembering a pair, it is the most recent entry, appears once, and at most
/// [`RECENT_LIMIT`] entries remain.
pub proof fn law_remember_puts_pair_first(
    projects: Seq<RecentProject>,
    entry: RecentProject,
    result: Seq<RecentProject>,
)
    requires
        ({
            let kept = seq![entry] + without_pair(projects, entry.binary@, entry.metadata@);
            result == if kept.len() > RECENT_LIMIT {
                kept.take(RECENT_LIMIT as int)
            } else {
                kept
            }
        }),
    ensures
        result.len() >= 1,
        result[0] == entry,
        result.len() <= RECENT_LIMIT,
        forall|i: int| 1 <= i < result.len() ==> other_pair(#[trigger] result[i], entry.binary@, entry.metadata@),
{
    lemma_without_pair_len(projects, entry.binary@, entry.metadata@);
    let rest = without_pair(projects, entry.binary@, entry.metadata@);
    assert forall|i: int| 1 <= i < result.len() implies other_pair(#[trigger] result[i], entry.binary@, entry.metadata@) by {
        assert(result[i] == rest[i - 1]);
    }
}

} // verus!
