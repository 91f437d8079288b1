//! The sending side of the file ferry: in what order files go, and when the
//! connection to the diode is renewed.

use crate::clock::Clock;
use vstd::prelude::*;

verus! {

/// Least time between two wake-ups of the sending loop, in milliseconds.
pub const WAKEUP_PERIOD_MS: u64 = 50;

/// Limits on what goes through one connection: a number of files, and a
/// length of time.
pub struct Limits {
    pub maximum_files: Option<usize>,
    pub files_count: usize,
    /// In milliseconds.
    pub maximum_delay: Option<u64>,
    /// When the connection was made.
    pub since: u64,
    pub clock: Clock,
}

/// Model of the limits.
pub struct LimitsView {
    pub maximum_files: Option<usize>,
    pub files_count: usize,
    pub maximum_delay: Option<u64>,
    pub since: u64,
}

impl LimitsView {
    /// True when the connection has carried its share at `now`: at least one
    /// file went through it, and either as many files as allowed, or the
    /// connection is as old as allowed.
    pub open spec fn reached(self, now: u64) -> bool {
        &&& self.files_count > 0
        &&& {
            ||| self.maximum_files matches Some(max) && self.files_count >= max
            ||| self.maximum_delay matches Some(max) && now >= self.since && now - self.since
                >= max
        }
    }
}

impl LimitsView {
    /// The limits of a connection made at `now`.
    pub open spec fn reset(self, now: u64) -> LimitsView {
        LimitsView { files_count: 0, since: now, ..self }
    }
}

impl View for Limits {
    type V = LimitsView;

    open spec fn view(&self) -> LimitsView {
        LimitsView {
            maximum_files: self.maximum_files,
            files_count: self.files_count,
            maximum_delay: self.maximum_delay,
            since: self.since,
        }
    }
}

impl Limits {
    /// Limits for a connection made at `now`.
    pub fn new_at(maximum_files: Option<usize>, maximum_delay: Option<u64>, now: u64) -> (r: Limits)
        ensures
            r@ == (LimitsView { maximum_files, files_count: 0, maximum_delay, since: now }),
    {
        Limits { maximum_files, files_count: 0, maximum_delay, since: now, clock: Clock::new() }
    }

    /// Limits for a connection made now, timed on a clock of their own.
    pub fn new(maximum_files: Option<usize>, maximum_delay: Option<u64>) -> (r: Limits)
        ensures
            r@.maximum_files == maximum_files,
            r@.maximum_delay == maximum_delay,
            r@.files_count == 0,
    {
        let clock = Clock::new();
        let since: u64 = clock.now_ms();
        Limits { maximum_files, files_count: 0, maximum_delay, since, clock }
    }

    /// Counts a file; the count stays at the largest value once it is there.
    pub fn add_file(&mut self)
        ensures
            final(self)@ == (LimitsView {
                files_count: if old(self).files_count < usize::MAX {
                    (old(self).files_count + 1) as usize
                } else {
                    usize::MAX
                },
                ..old(self)@
            }),
    {
        self.files_count = self.files_count.saturating_add(1);
    }

    /// Starts over for a connection made at `now`.
    pub fn reset_at(&mut self, now: u64)
        ensures
            final(self)@ == old(self)@.reset(now),
    {
        self.files_count = 0;
        self.since = now;
    }

    /// Starts over for a connection made now.
    pub fn reset(&mut self)
        ensures
            exists|now: u64| final(self)@ == #[trigger] old(self)@.reset(now),
    {
        let now: u64 = self.clock.now_ms();
        self.reset_at(now);
    }

    /// Tells whether the connection has carried its share at `now`.
    pub fn reached_at(&self, now: u64) -> (r: bool)
        ensures
            r == self@.reached(now),
    {
        if self.files_count == 0 {
            return false;
        }
        match self.maximum_files {
            Some(max) => {
                if self.files_count >= max {
                    return true;
                }
            },
            None => {},
        }
        match self.maximum_delay {
            Some(max) => {
                if now >= self.since && now - self.since >= max {
                    return true;
                }
            },
            None => {},
        }
        false
    }

    /// Tells whether the connection has carried its share now.
    pub fn reached(&self) -> (r: bool)
        ensures
            exists|now: u64| r == #[trigger] self@.reached(now),
            self@.files_count == 0 ==> !r,
            self@.maximum_files matches Some(max) && 0 < self@.files_count && self@.files_count
                >= max ==> r,
    {
        let now: u64 = self.clock.now_ms();
        self.reached_at(now)
    }
}

/// Tells whether the sending loop is woken at `now` for a new file, when it was
/// last woken at `last`: at most once in fifty milliseconds.
pub fn wakeup_is_due(last: u64, now: u64) -> (r: bool)
    ensures
        r == (now >= last && now - last > 50),
{
    now >= last && now - last > WAKEUP_PERIOD_MS
}

#[verifier::external_type_specification]
#[verifier::external_body]
pub struct ExRegex(regex::Regex);

/// Whether a text matches a pattern, as `regex::Regex` finds it; nothing when
/// the pattern is no regular expression.
pub uninterp spec fn regex_match(pattern: Seq<char>, text: Seq<char>) -> Option<bool>;

/// The names of files that are left alone: those that match a pattern.
pub struct Ignore {
    pattern: String,
    compiled: regex::Regex,
}

impl Ignore {
    /// The pattern that names are held against.
    pub closed spec fn spec_pattern(&self) -> Seq<char> {
        self.pattern@
    }

    /// `regex::Regex::new`: the pattern compiled, kept with its text; nothing
    /// when the pattern is no regular expression. Claimed of it: whether it
    /// compiles depends on the pattern alone.
    #[verifier::external_body]
    fn compile(pattern: &str) -> (r: Option<Ignore>)
        ensures
            r is Some <==> regex_match(pattern@, Seq::empty()) is Some,
            r matches Some(ignore) ==> ignore.spec_pattern() == pattern@,
    {
        regex::Regex::new(pattern).ok().map(
            |compiled| Ignore { pattern: pattern.to_string(), compiled },
        )
    }

    /// `regex::Regex::is_match`, on the pattern that `compile` compiled.
    /// Claimed of it: the result depends on the pattern and the name alone.
    #[verifier::external_body]
    fn is_match(&self, name: &str) -> (r: bool)
        ensures
            regex_match(self.spec_pattern(), name@) == Some(r),
    {
        self.compiled.is_match(name)
    }

    /// Prepares a pattern; gives nothing when it is no regular expression.
    pub fn new(pattern: &str) -> (r: Option<Ignore>)
        ensures
            r is Some <==> regex_match(pattern@, Seq::empty()) is Some,
            r matches Some(ignore) ==> ignore.spec_pattern() == pattern@,
    {
        Ignore::compile(pattern)
    }

    /// Tells whether a file of this name is left alone.
    pub fn ignores(&self, name: &str) -> (r: bool)
        ensures
            regex_match(self.spec_pattern(), name@) == Some(r),
    {
        self.is_match(name)
    }
}

/// A file found in the directory: when it was last modified, and its path.
pub struct Found {
    pub modified: u128,
    pub path: String,
}

/// Where `modified` goes among files in sending order: before the first file
/// that is as recent or more.
pub open spec fn place_of(order: Seq<Found>, modified: u128) -> int
    decreases order.len(),
{
    if order.len() == 0 {
        0
    } else if order[0].modified >= modified {
        0
    } else {
        1 + place_of(order.skip(1), modified)
    }
}

/// The files in sending order: oldest first, and among files of one age, the
/// one found last first.
pub open spec fn sending_order(found: Seq<Found>) -> Seq<Found>
    decreases found.len(),
{
    if found.len() == 0 {
        Seq::empty()
    } else {
        let before = sending_order(found.drop_last());
        before.insert(place_of(before, found.last().modified), found.last())
    }
}

/// No file stands before an older one.
pub open spec fn oldest_first(order: Seq<Found>) -> bool {
    forall|i: int, j: int| 0 <= i <= j < order.len() ==> order[i].modified <= order[j].modified
}

/// Where a file goes is within the list, after every older file and before
/// every file as recent or more.
pub proof fn lemma_place_of(order: Seq<Found>, modified: u128)
    requires
        oldest_first(order),
    ensures
        0 <= place_of(order, modified) <= order.len(),
        forall|i: int| 0 <= i < place_of(order, modified) ==> order[i].modified < modified,
        forall|i: int|
            place_of(order, modified) <= i < order.len() ==> order[i].modified >= modified,
    decreases order.len(),
{
    if order.len() > 0 && order[0].modified < modified {
        let rest = order.skip(1);
        assert forall|i: int, j: int| 0 <= i <= j < rest.len() implies rest[i].modified
            <= rest[j].modified by {
            assert(rest[i] == order[i + 1] && rest[j] == order[j + 1]);
        }
        lemma_place_of(rest, modified);
        let p = place_of(rest, modified);
        assert forall|i: int| 0 <= i < 1 + p implies order[i].modified < modified by {
            if i > 0 {
                assert(rest[i - 1] == order[i]);
            }
        }
        assert forall|i: int| 1 + p <= i < order.len() implies order[i].modified >= modified by {
            assert(rest[i - 1] == order[i]);
        }
    } else if order.len() > 0 {
        assert forall|i: int| 0 <= i < order.len() implies order[i].modified >= modified by {
            assert(order[0].modified <= order[i].modified);
        }
    }
}

/// The sending order holds every file that was found, once, oldest first.
pub proof fn lemma_sending_order(found: Seq<Found>)
    ensures
        sending_order(found).len() == found.len(),
        oldest_first(sending_order(found)),
        sending_order(found).to_multiset() == found.to_multiset(),
    decreases found.len(),
{
    if found.len() == 0 {
        assert(sending_order(found) =~= found);
    } else {
        let front = found.drop_last();
        let last = found.last();
        let before = sending_order(front);
        lemma_sending_order(front);
        lemma_place_of(before, last.modified);
        let p = place_of(before, last.modified);
        let after = before.insert(p, last);
        assert forall|i: int, j: int| 0 <= i <= j < after.len() implies after[i].modified
            <= after[j].modified by {
            if i < p && j < p {
                assert(after[i] == before[i] && after[j] == before[j]);
            } else if i < p && j == p {
                assert(after[i] == before[i]);
            } else if i < p {
                assert(after[i] == before[i] && after[j] == before[j - 1]);
            } else if i == p && j == p {
            } else if i == p {
                assert(after[j] == before[j - 1]);
            } else {
                assert(after[i] == before[i - 1] && after[j] == before[j - 1]);
            }
        }
        assert(after.remove(p) =~= before);
        assert(after[p] == last);
        vstd::seq_lib::to_multiset_remove(after, p);
        after.to_multiset_ensures();
        assert(after.contains(last));
        assert(after.to_multiset() =~= before.to_multiset().insert(last));
        assert(found =~= front.push(last));
        vstd::seq_lib::to_multiset_build(front, last);
    }
}

/// Puts the files found in a directory in sending order: oldest first, and
/// among files of one age, the one found last first.
pub fn order_by_age(found: Vec<Found>) -> (r: Vec<Found>)
    ensures
        r@ == sending_order(found@),
{
    let mut found = found;
    let mut order: Vec<Found> = Vec::new();
    let ghost all = found@;
    let count: usize = found.len();
    let mut i: usize = 0;
    while i < count
        invariant
            i <= count,
            count == all.len(),
            found.len() == count,
            forall|k: int| i <= k < count ==> found[k] == all[k],
            order@ == sending_order(all.subrange(0, i as int)),
        decreases count - i,
    {
        let mut next = Found { modified: 0, path: String::new() };
        found.set_and_swap(i, &mut next);
        assert(next == all[i as int]);
        let ghost before = order@;
        let mut place: usize = 0;
        assert(before.skip(0) =~= before);
        while place < order.len() && order[place].modified < next.modified
            invariant
                place <= order.len(),
                order@ == before,
                place_of(before, next.modified) == place + place_of(
                    before.skip(place as int),
                    next.modified,
                ),
            decreases order.len() - place,
        {
            assert(before.skip(place as int).skip(1) =~= before.skip(place + 1));
            assert(before.skip(place as int)[0] == before[place as int]);
            place += 1;
        }
        assert(place_of(before.skip(place as int), next.modified) == 0) by {
            if place < before.len() {
                assert(before.skip(place as int)[0] == before[place as int]);
            }
        }
        order.insert(place, next);
        assert(all.subrange(0, i + 1).drop_last() =~= all.subrange(0, i as int));
        i += 1;
    }
    assert(all.subrange(0, count as int) =~= all);
    order
}

} // verus!
