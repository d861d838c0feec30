use vstd::prelude::*;
use vstd::string::*;
use crate::services::state_machine::StateEvent;
use crate::utils::text::{
    has_prefix, matches_at, number_of, parse_u32, starts_with, to_chars, trim, trim_range,
    trim_str, trimmed,
};

verus! {

/// What the `HEAD` file of a repository points at.
#[derive(Debug, Clone)]
pub enum Head {
    /// A symbolic reference: the path, below the `.git` directory, of the
    /// file that holds the commit hash.
    Ref(String),
    /// A detached head: the commit hash itself.
    Hash(String),
}

/// The mathematical content of a [`Head`].
pub enum HeadView {
    Ref(Seq<char>),
    Hash(Seq<char>),
}

impl View for Head {
    type V = HeadView;

    open spec fn view(&self) -> HeadView {
        match self {
            Head::Ref(path) => HeadView::Ref(path@),
            Head::Hash(hash) => HeadView::Hash(hash@),
        }
    }
}

/// The marker that opens a symbolic reference.
pub open spec fn ref_marker() -> Seq<char> {
    seq!['r', 'e', 'f', ':', ' ']
}

/// What the content of a `HEAD` file says. Content that opens with the
/// marker is a symbolic reference to what follows the marker in the trimmed
/// content; where trimming takes the marker apart, the content says nothing.
/// Any other content is a commit hash, once trimmed.
pub open spec fn head_of(content: Seq<char>) -> Option<HeadView> {
    if starts_with(content, ref_marker()) {
        if starts_with(trimmed(content), ref_marker()) {
            Some(HeadView::Ref(trimmed(content).skip(5)))
        } else {
            None
        }
    } else {
        Some(HeadView::Hash(trimmed(content)))
    }
}

/// The view of an optional head.
pub open spec fn head_view(head: Option<Head>) -> Option<HeadView> {
    match head {
        Some(h) => Some(h@),
        None => None,
    }
}

/// Reads the content of a `HEAD` file.
pub fn parse_head(content: &str) -> (head: Option<Head>)
    ensures
        head_view(head) == head_of(content@),
{
    let chars = to_chars(content);
    let marker = to_chars("ref: ");
    proof {
        reveal_strlit("ref: ");
        assert(marker@ =~= ref_marker());
    }
    if has_prefix(&chars, &marker) {
        let (a, b) = trim_range(&chars);
        if b - a >= 5 && matches_at(&chars, a, &marker) {
            assert(trimmed(content@).subrange(0, 5) == content@.subrange(a as int, a + 5));
            assert(trimmed(content@).skip(5) == content@.subrange(a + 5, b as int));
            Some(Head::Ref(String::from_str(content.substring_char(a + 5, b))))
        } else {
            assert(b - a >= 5 ==> trimmed(content@).subrange(0, 5) == content@.subrange(
                a as int,
                a + 5,
            ));
            None
        }
    } else {
        Some(Head::Hash(trim_str(content)))
    }
}

/// The number of commits that the output of
/// `git rev-list --count --since=midnight HEAD` reports: the number that the
/// trimmed output denotes, and zero where it denotes none.
pub open spec fn commit_count_of(output: Seq<char>) -> u32 {
    match number_of(trimmed(output)) {
        Some(count) => count,
        None => 0,
    }
}

/// Counts today's commits from the output of the `git` query. A query that
/// failed is handed over as `None` and counts as no commit.
pub fn count_today_commits(output: Option<&str>) -> (count: u32)
    ensures
        count == match output {
            Some(text) => commit_count_of(text@),
            None => 0u32,
        },
{
    match output {
        Some(text) => {
            let chars = to_chars(text);
            let number = trim(&chars);
            match parse_u32(&number) {
                Some(count) => count,
                None => 0,
            }
        },
        None => 0,
    }
}

/// The map that a list of repository and head pairs stands for. A later pair
/// replaces an earlier one for the same repository.
pub open spec fn heads_of(entries: Seq<(String, String)>) -> Map<Seq<char>, Seq<char>>
    decreases entries.len(),
{
    if entries.len() == 0 {
        Map::empty()
    } else {
        heads_of(entries.drop_last()).insert(entries.last().0@, entries.last().1@)
    }
}

/// No repository stands twice in `entries`.
pub open spec fn distinct_repos(entries: Seq<(String, String)>) -> bool {
    forall|i: int, j: int|
        0 <= i < j < entries.len() ==> (#[trigger] entries[i]).0@ != (#[trigger] entries[j]).0@
}

proof fn lemma_heads_of(entries: Seq<(String, String)>)
    requires
        distinct_repos(entries),
    ensures
        forall|i: int|
            0 <= i < entries.len() ==> heads_of(entries).contains_key((#[trigger] entries[i]).0@)
                && heads_of(entries)[entries[i].0@] == entries[i].1@,
        forall|repo: Seq<char>| #[trigger]
            heads_of(entries).contains_key(repo) ==> exists|i: int|
                0 <= i < entries.len() && (#[trigger] entries[i]).0@ == repo,
    decreases entries.len(),
{
    if entries.len() > 0 {
        let front = entries.drop_last();
        assert forall|i: int, j: int| 0 <= i < j < front.len() implies (#[trigger] front[i]).0@ != (
        #[trigger] front[j]).0@ by {
            assert(front[i] == entries[i] && front[j] == entries[j]);
        }
        lemma_heads_of(front);
        assert forall|i: int| 0 <= i < entries.len() implies heads_of(entries).contains_key(
            (#[trigger] entries[i]).0@,
        ) && heads_of(entries)[entries[i].0@] == entries[i].1@ by {
            if i < entries.len() - 1 {
                assert(front[i] == entries[i]);
                assert(entries[i].0@ != entries[entries.len() - 1].0@);
            }
        }
        assert forall|repo: Seq<char>| #[trigger]
            heads_of(entries).contains_key(repo) implies exists|i: int|
            0 <= i < entries.len() && (#[trigger] entries[i]).0@ == repo by {
            if repo == entries.last().0@ {
                assert(entries[entries.len() - 1].0@ == repo);
            } else {
                assert(heads_of(front).contains_key(repo));
                let i = choose|i: int| 0 <= i < front.len() && (#[trigger] front[i]).0@ == repo;
                assert(entries[i] == front[i]);
            }
        }
    }
}

/// The last head seen of each watched repository.
///
/// Kept as a list of pairs in which no repository stands twice: the keys are
/// paths, and vstd models the keys of a hash map for integers only.
pub struct HeadTracker {
    entries: Vec<(String, String)>,
}

impl View for HeadTracker {
    type V = Map<Seq<char>, Seq<char>>;

    closed spec fn view(&self) -> Map<Seq<char>, Seq<char>> {
        heads_of(self.entries@)
    }
}

impl HeadTracker {
    /// No repository is recorded twice.
    pub closed spec fn wf(&self) -> bool {
        distinct_repos(self.entries@)
    }

    /// A tracker that has seen no repository.
    pub fn new() -> (tracker: HeadTracker)
        ensures
            tracker.wf(),
            tracker@ == Map::<Seq<char>, Seq<char>>::empty(),
    {
        HeadTracker { entries: Vec::new() }
    }

    /// Whether a head other than `head` was recorded for `repo`.
    pub open spec fn moved(heads: Map<Seq<char>, Seq<char>>, repo: Seq<char>, head: Seq<char>) -> bool {
        heads.contains_key(repo) && heads[repo] != head
    }

    /// Records the head that was read for `repo` and reports a commit where
    /// the head differs from the one recorded before. The first head seen of
    /// a repository is no commit. With `enabled` unset nothing is recorded and
    /// nothing reported.
    pub fn observe(&mut self, repo: &str, head: &str, enabled: bool) -> (event: Option<StateEvent>)
        requires
            old(self).wf(),
        ensures
            final(self).wf(),
            final(self)@ == if enabled {
                old(self)@.insert(repo@, head@)
            } else {
                old(self)@
            },
            event == if enabled && Self::moved(old(self)@, repo@, head@) {
                Some(StateEvent::CommitDetected)
            } else {
                None
            },
    {
        if !enabled {
            return None;
        }
        proof {
            lemma_heads_of(self.entries@);
        }
        let repo_name = String::from_str(repo);
        let new_head = String::from_str(head);
        let mut i: usize = 0;
        while i < self.entries.len()
            invariant
                i <= self.entries.len(),
                self.entries@ == old(self).entries@,
                distinct_repos(self.entries@),
                enabled,
                repo_name@ == repo@,
                new_head@ == head@,
                forall|j: int| 0 <= j < i ==> (#[trigger] self.entries@[j]).0@ != repo@,
            decreases self.entries.len() - i,
        {
            if self.entries[i].0 == repo_name {
                let changed = !(self.entries[i].1 == new_head);
                self.entries.set(i, (repo_name, new_head));
                proof {
                    let before = old(self).entries@;
                    let after = self.entries@;
                    lemma_heads_of(before);
                    assert forall|a: int, b: int| 0 <= a < b < after.len() implies (
                    #[trigger] after[a]).0@ != (#[trigger] after[b]).0@ by {
                        assert(after[a].0@ == before[a].0@ && after[b].0@ == before[b].0@);
                        assert(before[a].0@ != before[b].0@);
                    }
                    lemma_heads_of(after);
                    assert forall|k: Seq<char>|
                        heads_of(after).contains_key(k) == heads_of(before).insert(
                            repo@,
                            head@,
                        ).contains_key(k) by {
                        if heads_of(after).contains_key(k) {
                            let a = choose|a: int| 0 <= a < after.len() && (#[trigger] after[a]).0@ == k;
                            assert(before[a].0@ == k);
                        }
                        if heads_of(before).contains_key(k) {
                            let a = choose|a: int|
                                0 <= a < before.len() && (#[trigger] before[a]).0@ == k;
                            assert(after[a].0@ == k);
                        }
                        if k == repo@ {
                            assert(after[i as int].0@ == k);
                        }
                    }
                    assert forall|k: Seq<char>| heads_of(after).contains_key(k) implies heads_of(
                        after,
                    )[k] == heads_of(before).insert(repo@, head@)[k] by {
                        let a = choose|a: int| 0 <= a < after.len() && (#[trigger] after[a]).0@ == k;
                        if a == i {
                        } else {
                            assert(after[a] == before[a]);
                        }
                    }
                    assert(heads_of(after) =~= heads_of(before).insert(repo@, head@));
                    assert(before[i as int].0@ == repo@);
                    assert(heads_of(before)[repo@] == before[i as int].1@);
                }
                return if changed {
                    Some(StateEvent::CommitDetected)
                } else {
                    None
                };
            }
            i += 1;
        }
        proof {
            let before = self.entries@;
            if heads_of(before).contains_key(repo@) {
                let a = choose|a: int| 0 <= a < before.len() && (#[trigger] before[a]).0@ == repo@;
                assert(false);
            }
            let after = before.push((repo_name, new_head));
            assert(after.drop_last() == before);
            assert forall|a: int, b: int| 0 <= a < b < after.len() implies (#[trigger] after[a]).0@
                != (#[trigger] after[b]).0@ by {
                assert(after[a] == before[a]);
                if b < before.len() {
                    assert(after[b] == before[b]);
                }
            }
        }
        self.entries.push((repo_name, new_head));
        None
    }

    /// The head that was last recorded for `repo`.
    pub fn head_of_repo(&self, repo: &str) -> (head: Option<String>)
        requires
            self.wf(),
        ensures
            match head {
                Some(hash) => self@.contains_key(repo@) && self@[repo@] == hash@,
                None => !self@.contains_key(repo@),
            },
    {
        proof {
            lemma_heads_of(self.entries@);
        }
        let repo_name = String::from_str(repo);
        let mut i: usize = 0;
        while i < self.entries.len()
            invariant
                i <= self.entries.len(),
                repo_name@ == repo@,
                distinct_repos(self.entries@),
                forall|j: int| 0 <= j < i ==> (#[trigger] self.entries@[j]).0@ != repo@,
            decreases self.entries.len() - i,
        {
            if self.entries[i].0 == repo_name {
                proof {
                    lemma_heads_of(self.entries@);
                    assert(self.entries@[i as int].0@ == repo@);
                }
                return Some(self.entries[i].1.clone());
            }
            i += 1;
        }
        proof {
            let entries = self.entries@;
            if heads_of(entries).contains_key(repo@) {
                let a = choose|a: int| 0 <= a < entries.len() && (#[trigger] entries[a]).0@ == repo@;
                assert(false);
            }
        }
        None
    }
}

} // verus!
