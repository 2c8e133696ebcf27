//! The leaderboard snapshot as fetched: members, their scores, stars and
//! per-day completion instants. Read-only to this crate.

use vstd::prelude::*;

verus! {

/// One second past the last instant this crate will format
/// (9999-12-31 24:00:00 UTC as Unix seconds), so every rendered year has
/// four digits.
pub const TS_LIMIT: i64 = 253402300800;

/// Whether `t` is an instant this crate can format.
pub open spec fn ts_wf(t: i64) -> bool {
    0 <= t < TS_LIMIT
}

/// One day's completion record of a member: the instants (Unix seconds,
/// UTC) at which the member finished each part, when it has.
pub struct DayCompletion {
    pub day: u32,
    pub part1_ts: Option<i64>,
    pub part2_ts: Option<i64>,
}

/// One member of the private leaderboard.
pub struct Member {
    /// Opaque numeric identity assigned by the leaderboard source.
    pub id: u64,
    pub name: String,
    pub local_score: u32,
    pub stars: u32,
    /// Instant of the most recently earned star (Unix seconds, UTC).
    pub last_star_ts: i64,
    pub completions: Vec<DayCompletion>,
}

/// A point-in-time leaderboard snapshot; the order of `members` carries no
/// meaning.
pub struct Snapshot {
    pub members: Vec<Member>,
}

pub open spec fn completion_wf(c: DayCompletion) -> bool {
    &&& match c.part1_ts {
        Some(t) => ts_wf(t),
        None => true,
    }
    &&& match c.part2_ts {
        Some(t) => ts_wf(t),
        None => true,
    }
}

pub open spec fn member_wf(m: Member) -> bool {
    &&& ts_wf(m.last_star_ts)
    &&& forall|i: int|
        0 <= i < m.completions@.len() ==> completion_wf(#[trigger] m.completions@[i])
}

pub open spec fn snapshot_wf(s: Snapshot) -> bool {
    forall|i: int| 0 <= i < s.members@.len() ==> member_wf(#[trigger] s.members@[i])
}

/// The member's first-part completion instant for `day`: the one in the
/// first completion record carrying that day, if any.
pub open spec fn part1_ts_spec(cs: Seq<DayCompletion>, day: u32) -> Option<i64>
    decreases cs.len(),
{
    if cs.len() == 0 {
        None
    } else if cs[0].day == day {
        cs[0].part1_ts
    } else {
        part1_ts_spec(cs.skip(1), day)
    }
}

impl Member {
    /// Look up this member's first-part completion instant for `day`.
    pub fn part1_ts(&self, day: u32) -> (r: Option<i64>)
        ensures
            r == part1_ts_spec(self.completions@, day),
    {
        let ghost cs = self.completions@;
        proof {
            assert(cs.skip(0) =~= cs);
        }
        let n = self.completions.len();
        let mut i: usize = 0;
        while i < n
            invariant
                i <= n,
                n == cs.len(),
                cs == self.completions@,
                part1_ts_spec(cs, day) == part1_ts_spec(cs.skip(i as int), day),
            decreases n - i,
        {
            proof {
                assert(cs.skip(i as int).len() > 0);
                assert(cs.skip(i as int)[0] == cs[i as int]);
                assert(cs.skip(i as int).skip(1) =~= cs.skip(i + 1));
            }
            if self.completions[i].day == day {
                return self.completions[i].part1_ts;
            }
            i += 1;
        }
        proof {
            assert(cs.skip(i as int).len() == 0);
        }
        None
    }
}

fn completion_wf_check(c: &DayCompletion) -> (r: bool)
    ensures
        r == completion_wf(*c),
{
    let p1 = match &c.part1_ts {
        Some(t) => 0 <= *t && *t < TS_LIMIT,
        None => true,
    };
    let p2 = match &c.part2_ts {
        Some(t) => 0 <= *t && *t < TS_LIMIT,
        None => true,
    };
    p1 && p2
}

/// Every completion record of a well-formed member carries formattable
/// instants, so a first-part completion instant looked up in one is too.
pub proof fn lemma_part1_wf(cs: Seq<DayCompletion>, day: u32)
    requires
        forall|i: int| 0 <= i < cs.len() ==> completion_wf(#[trigger] cs[i]),
    ensures
        part1_ts_spec(cs, day) matches Some(t) ==> ts_wf(t),
    decreases cs.len(),
{
    if cs.len() > 0 && cs[0].day != day {
        assert forall|i: int| 0 <= i < cs.skip(1).len() implies completion_wf(
            #[trigger] cs.skip(1)[i],
        ) by {
            assert(cs.skip(1)[i] == cs[i + 1]);
        }
        lemma_part1_wf(cs.skip(1), day);
    }
}

/// Whether a member's timestamps are all in the formattable range.
pub fn member_wf_check(m: &Member) -> (r: bool)
    ensures
        r == member_wf(*m),
{
    if !(0 <= m.last_star_ts && m.last_star_ts < TS_LIMIT) {
        return false;
    }
    let n = m.completions.len();
    let mut i: usize = 0;
    while i < n
        invariant
            i <= n,
            n == m.completions@.len(),
            ts_wf(m.last_star_ts),
            forall|j: int| 0 <= j < i ==> completion_wf(#[trigger] m.completions@[j]),
        decreases n - i,
    {
        if !completion_wf_check(&m.completions[i]) {
            return false;
        }
        i += 1;
    }
    true
}

/// Whether every timestamp of the snapshot is in the formattable range.
/// The surrounding system calls this before asking for a document; fetched
/// data that fails it breaks the fetch/render contract.
pub fn snapshot_wf_check(s: &Snapshot) -> (r: bool)
    ensures
        r == snapshot_wf(*s),
{
    let n = s.members.len();
    let mut i: usize = 0;
    while i < n
        invariant
            i <= n,
            n == s.members@.len(),
            forall|j: int| 0 <= j < i ==> member_wf(#[trigger] s.members@[j]),
        decreases n - i,
    {
        if !member_wf_check(&s.members[i]) {
            return false;
        }
        i += 1;
    }
    true
}

} // verus!
