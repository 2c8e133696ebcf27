//! The rank engine: orders the fetched members, assigns dense ranks,
//! filters out zero-star members and paginates the result.

use vstd::prelude::*;

use crate::member::Member;

verus! {

/// The total order the roster is sorted by: descending local score, ties
/// broken by ascending member id. The secondary key makes the order
/// deterministic, since the fetched order is not guaranteed stable.
pub open spec fn member_le(a: Member, b: Member) -> bool {
    a.local_score > b.local_score || (a.local_score == b.local_score && a.id <= b.id)
}

pub open spec fn sorted(s: Seq<Member>) -> bool {
    forall|i: int, j: int| 0 <= i <= j < s.len() ==> member_le(#[trigger] s[i], #[trigger] s[j])
}

/// Insert `m` into the already sorted `s`, before the first element it
/// precedes or equals.
pub open spec fn sorted_insert_spec(s: Seq<Member>, m: Member) -> Seq<Member>
    decreases s.len(),
{
    if s.len() == 0 {
        seq![m]
    } else if member_le(m, s[0]) {
        seq![m] + s
    } else {
        seq![s[0]] + sorted_insert_spec(s.skip(1), m)
    }
}

/// Insertion sort of the roster.
pub open spec fn sort_spec(s: Seq<Member>) -> Seq<Member>
    decreases s.len(),
{
    if s.len() == 0 {
        Seq::<Member>::empty()
    } else {
        sorted_insert_spec(sort_spec(s.drop_last()), s.last())
    }
}

proof fn lemma_sorted_insert(s: Seq<Member>, m: Member)
    requires
        sorted(s),
    ensures
        sorted(sorted_insert_spec(s, m)),
        sorted_insert_spec(s, m).len() == s.len() + 1,
        forall|k: int|
            0 <= k < sorted_insert_spec(s, m).len() ==> (#[trigger] sorted_insert_spec(s, m)[k]
                == m || s.contains(sorted_insert_spec(s, m)[k])),
    decreases s.len(),
{
    let r = sorted_insert_spec(s, m);
    if s.len() == 0 {
    } else if member_le(m, s[0]) {
        assert forall|i: int, j: int| 0 <= i <= j < r.len() implies member_le(r[i], r[j]) by {
            if i == 0 && j > 0 {
                assert(member_le(s[0], s[j - 1]));
            } else if i > 0 {
                assert(member_le(s[i - 1], s[j - 1]));
            }
        }
        assert forall|k: int| 0 <= k < r.len() implies (r[k] == m || s.contains(r[k])) by {
            if k > 0 {
                assert(r[k] == s[k - 1]);
            }
        }
    } else {
        let tail = s.skip(1);
        assert(sorted(tail)) by {
            assert forall|i: int, j: int| 0 <= i <= j < tail.len() implies member_le(
                tail[i],
                tail[j],
            ) by {
                assert(member_le(s[i + 1], s[j + 1]));
            }
        }
        lemma_sorted_insert(tail, m);
        let rec = sorted_insert_spec(tail, m);
        assert(member_le(s[0], m));
        assert forall|i: int, j: int| 0 <= i <= j < r.len() implies member_le(r[i], r[j]) by {
            if i == 0 && j > 0 {
                assert(rec[j - 1] == m || tail.contains(rec[j - 1]));
                if rec[j - 1] != m {
                    let w = choose|w: int| 0 <= w < tail.len() && tail[w] == rec[j - 1];
                    assert(member_le(s[0], s[w + 1]));
                }
            } else if i > 0 {
                assert(member_le(rec[i - 1], rec[j - 1]));
            }
        }
        assert forall|k: int| 0 <= k < r.len() implies (r[k] == m || s.contains(r[k])) by {
            if k == 0 {
                assert(s.contains(s[0]));
            } else {
                assert(r[k] == rec[k - 1]);
                if rec[k - 1] != m {
                    let w = choose|w: int| 0 <= w < tail.len() && tail[w] == rec[k - 1];
                    assert(s[w + 1] == tail[w]);
                    assert(s.contains(s[w + 1]));
                }
            }
        }
    }
}

/// The sorted roster is sorted, keeps the roster's length, and holds only
/// the roster's members.
pub proof fn lemma_sort_spec(s: Seq<Member>)
    ensures
        sorted(sort_spec(s)),
        sort_spec(s).len() == s.len(),
        forall|k: int|
            0 <= k < sort_spec(s).len() ==> s.contains(#[trigger] sort_spec(s)[k]),
    decreases s.len(),
{
    if s.len() > 0 {
        let pre = s.drop_last();
        lemma_sort_spec(pre);
        lemma_sorted_insert(sort_spec(pre), s.last());
        assert forall|k: int| 0 <= k < sort_spec(s).len() implies s.contains(
            #[trigger] sort_spec(s)[k],
        ) by {
            let x = sort_spec(s)[k];
            if x == s.last() {
                assert(s[s.len() - 1] == x);
            } else {
                assert(sort_spec(pre).contains(x));
                let w = choose|w: int| 0 <= w < sort_spec(pre).len() && sort_spec(pre)[w] == x;
                assert(sort_spec(pre).contains(x));
                let v = choose|v: int| 0 <= v < pre.len() && pre[v] == x;
                assert(s[v] == x);
            }
        }
    }
}

/// The dense rank of position `i` of the sorted roster: 1 at the front,
/// the previous position's rank while the score repeats, the 1-based
/// position where it changes.
pub open spec fn rank_at(s: Seq<Member>, i: int) -> int
    decreases i,
{
    if i <= 0 {
        1
    } else if s[i].local_score == s[i - 1].local_score {
        rank_at(s, i - 1)
    } else {
        i + 1
    }
}

/// A computed rank paired with the member holding it.
pub struct RankedRow {
    pub rank: usize,
    pub member: Member,
}

/// Every position of the sorted roster with its dense rank.
pub open spec fn ranked_rows(s: Seq<Member>) -> Seq<RankedRow> {
    Seq::new(s.len(), |i: int| RankedRow { rank: rank_at(s, i) as usize, member: s[i] })
}

/// Rows that appear in the output: those of members with at least one star.
pub open spec fn qualifying(r: RankedRow) -> bool {
    r.member.stars > 0
}

/// The ranked rows of the sorted roster, zero-star members filtered out.
/// Ranks are assigned before the filter, on the whole sorted roster.
pub open spec fn filtered_rows(ms: Seq<Member>) -> Seq<RankedRow> {
    ranked_rows(sort_spec(ms)).filter(|r: RankedRow| qualifying(r))
}

/// `offset`/`limit` pagination over a filtered view.
pub open spec fn page_of(f: Seq<RankedRow>, offset: int, limit: int) -> Seq<RankedRow> {
    if offset >= f.len() {
        Seq::<RankedRow>::empty()
    } else if offset + limit <= f.len() {
        f.subrange(offset, offset + limit)
    } else {
        f.subrange(offset, f.len() as int)
    }
}

/// The rows the command answers with: the filtered, ranked view of the
/// roster, paginated.
pub open spec fn page_spec(ms: Seq<Member>, offset: int, limit: int) -> Seq<RankedRow> {
    page_of(filtered_rows(ms), offset, limit)
}

/// Dense ranking: the rank of a position is one more than the first
/// position holding the same score, so tied scores share a rank and a
/// distinct score's rank equals its 1-based position in the sorted roster.
pub proof fn lemma_dense_ranking(s: Seq<Member>, i: int)
    requires
        sorted(s),
        0 <= i < s.len(),
    ensures
        1 <= rank_at(s, i) <= i + 1,
        s[rank_at(s, i) - 1].local_score == s[i].local_score,
        rank_at(s, i) > 1 ==> s[rank_at(s, i) - 2].local_score > s[i].local_score,
    decreases i,
{
    if i > 0 {
        if s[i].local_score == s[i - 1].local_score {
            lemma_dense_ranking(s, i - 1);
        } else {
            assert(member_le(s[i - 1], s[i]));
        }
    }
}

/// Members with equal scores receive equal ranks.
pub proof fn lemma_equal_scores_equal_rank(s: Seq<Member>, i: int, j: int)
    requires
        sorted(s),
        0 <= i <= j < s.len(),
        s[i].local_score == s[j].local_score,
    ensures
        rank_at(s, i) == rank_at(s, j),
    decreases j - i,
{
    if i < j {
        assert(member_le(s[i], s[j - 1]));
        assert(member_le(s[j - 1], s[j]));
        lemma_equal_scores_equal_rank(s, i, j - 1);
    }
}

/// Pagination slices the filtered view: the page's `k`-th row is the
/// `offset + k`-th row of the filtered, ranked roster, so a row's rank —
/// and anything decided by it — does not depend on `offset` or `limit`.
pub proof fn lemma_pagination(ms: Seq<Member>, offset: int, limit: int, k: int)
    requires
        0 <= offset,
        0 <= limit,
        0 <= k < page_spec(ms, offset, limit).len(),
    ensures
        offset + k < filtered_rows(ms).len(),
        page_spec(ms, offset, limit)[k] == filtered_rows(ms)[offset + k],
{
}

proof fn lemma_filter_singleton(r: RankedRow, p: spec_fn(RankedRow) -> bool)
    ensures
        seq![r].filter(p) == if p(r) {
            seq![r]
        } else {
            Seq::<RankedRow>::empty()
        },
{
    reveal_with_fuel(Seq::<_>::filter, 2);
    assert(seq![r].drop_last() =~= Seq::<RankedRow>::empty());
    if p(r) {
        assert(seq![r].filter(p) =~= seq![r]);
    } else {
        assert(seq![r].filter(p) =~= Seq::<RankedRow>::empty());
    }
}

/// Appending one row to the filtered view extends the page by that row
/// exactly when the view has already covered the offset and the page is
/// not yet full.
proof fn lemma_page_of_push(f: Seq<RankedRow>, r: RankedRow, offset: int, limit: int)
    requires
        0 <= offset,
        0 <= limit,
    ensures
        page_of(f.push(r), offset, limit) == if f.len() >= offset && page_of(
            f,
            offset,
            limit,
        ).len() < limit {
            page_of(f, offset, limit).push(r)
        } else {
            page_of(f, offset, limit)
        },
{
    let g = f.push(r);
    if f.len() < offset {
        assert(page_of(g, offset, limit) =~= page_of(f, offset, limit));
    } else if f.len() - offset < limit {
        assert(page_of(g, offset, limit) =~= page_of(f, offset, limit).push(r));
    } else {
        assert(page_of(g, offset, limit) =~= page_of(f, offset, limit));
    }
}

fn member_le_exec(a: &Member, b: &Member) -> (r: bool)
    ensures
        r == member_le(*a, *b),
{
    a.local_score > b.local_score || (a.local_score == b.local_score && a.id <= b.id)
}

proof fn lemma_sorted_insert_at(s: Seq<Member>, m: Member, k: int)
    requires
        0 <= k <= s.len(),
        forall|j: int| 0 <= j < k ==> !member_le(m, #[trigger] s[j]),
        k < s.len() ==> member_le(m, s[k]),
    ensures
        sorted_insert_spec(s, m) == s.insert(k, m),
    decreases s.len(),
{
    if s.len() == 0 {
        assert(sorted_insert_spec(s, m) =~= s.insert(0, m));
    } else if member_le(m, s[0]) {
        assert(k == 0);
        assert(sorted_insert_spec(s, m) =~= s.insert(0, m));
    } else {
        assert(k >= 1);
        let tail = s.skip(1);
        assert(forall|j: int| 0 <= j < k - 1 ==> !member_le(m, #[trigger] tail[j]));
        lemma_sorted_insert_at(tail, m, k - 1);
        assert(seq![s[0]] + tail.insert(k - 1, m) =~= s.insert(k, m));
    }
}

fn insert_pos(out: &Vec<Member>, m: &Member) -> (k: usize)
    ensures
        k <= out@.len(),
        forall|j: int| 0 <= j < k ==> !member_le(*m, #[trigger] out@[j]),
        k < out@.len() ==> member_le(*m, out@[k as int]),
{
    let n = out.len();
    let mut k: usize = 0;
    while k < n
        invariant
            k <= n,
            n == out@.len(),
            forall|j: int| 0 <= j < k ==> !member_le(*m, #[trigger] out@[j]),
        decreases n - k,
    {
        if member_le_exec(m, &out[k]) {
            return k;
        }
        k += 1;
    }
    k
}

/// Sort the roster by descending local score, ties broken by ascending id.
fn sort_members(v: Vec<Member>) -> (r: Vec<Member>)
    ensures
        r@ == sort_spec(v@),
{
    let ghost orig = v@;
    let mut input = v;
    let mut out: Vec<Member> = Vec::new();
    proof {
        assert(orig.take(0) =~= Seq::<Member>::empty());
        assert(orig.skip(0) =~= orig);
    }
    let total = input.len();
    let mut i: usize = 0;
    while input.len() > 0
        invariant
            total == orig.len(),
            i <= orig.len(),
            input@ == orig.skip(i as int),
            out@ == sort_spec(orig.take(i as int)),
        decreases input@.len(),
    {
        proof {
            assert(orig.skip(i as int)[0] == orig[i as int]);
            assert(orig.skip(i as int).remove(0) =~= orig.skip(i + 1));
            assert(orig.take(i + 1).drop_last() =~= orig.take(i as int));
            assert(orig.take(i + 1).last() == orig[i as int]);
        }
        let m = input.remove(0);
        let k = insert_pos(&out, &m);
        proof {
            lemma_sorted_insert_at(out@, m, k as int);
        }
        out.insert(k, m);
        i += 1;
    }
    proof {
        assert(orig.take(i as int) =~= orig);
    }
    out
}

/// Produce the ordered, paginated rows for the command: dense ranks over
/// the sorted roster, zero-star members dropped after ranking, then
/// `offset`/`limit` applied to the filtered view. An empty result is valid
/// output, not an error.
pub fn rank_rows(members: Vec<Member>, offset: usize, limit: usize) -> (r: Vec<RankedRow>)
    ensures
        r@ == page_spec(members@, offset as int, limit as int),
        forall|k: int|
            0 <= k < r@.len() ==> (#[trigger] r@[k]).member.stars > 0 && r@[k].rank >= 1,
        forall|k: int| 0 <= k < r@.len() ==> members@.contains(#[trigger] r@[k].member),
{
    broadcast use vstd::seq_lib::group_seq_lib_default;

    let ghost orig = members@;
    let ghost p: spec_fn(RankedRow) -> bool = |row: RankedRow| qualifying(row);
    let mut sorted_v = sort_members(members);
    let ghost s = sorted_v@;
    proof {
        lemma_sort_spec(orig);
        assert(s.skip(0) =~= s);
        assert(ranked_rows(s).take(0) =~= Seq::<RankedRow>::empty());
        assert(Seq::<RankedRow>::empty().filter(p) =~= Seq::<RankedRow>::empty()) by {
            reveal_with_fuel(Seq::<_>::filter, 1);
        }
    }
    let n = sorted_v.len();
    let mut out: Vec<RankedRow> = Vec::new();
    let mut last_score: u32 = 0;
    let mut rank: usize = 0;
    let mut seen: usize = 0;
    let mut i: usize = 0;
    while i < n
        invariant
            i <= n,
            n == s.len(),
            s == sort_spec(orig),
            sorted(s),
            forall|k: int| 0 <= k < s.len() ==> orig.contains(#[trigger] s[k]),
            sorted_v@ == s.skip(i as int),
            p == (|row: RankedRow| qualifying(row)),
            i > 0 ==> last_score == s[i - 1].local_score && rank == rank_at(s, i - 1) && rank
                >= 1,
            seen == ranked_rows(s).take(i as int).filter(p).len(),
            seen <= i,
            out@ == page_of(ranked_rows(s).take(i as int).filter(p), offset as int, limit as int),
            forall|k: int|
                0 <= k < out@.len() ==> (#[trigger] out@[k]).member.stars > 0 && out@[k].rank
                    >= 1,
            forall|k: int| 0 <= k < out@.len() ==> orig.contains(#[trigger] out@[k].member),
        decreases n - i,
    {
        proof {
            assert(s.skip(i as int)[0] == s[i as int]);
            assert(s.skip(i as int).remove(0) =~= s.skip(i + 1));
        }
        let m = sorted_v.remove(0);
        if i == 0 || m.local_score != last_score {
            rank = i + 1;
        }
        last_score = m.local_score;
        let row = RankedRow { rank, member: m };
        proof {
            assert(rank == rank_at(s, i as int));
            assert(row == ranked_rows(s)[i as int]);
            assert(ranked_rows(s).take(i + 1) =~= ranked_rows(s).take(i as int).push(
                ranked_rows(s)[i as int],
            ));
            assert(ranked_rows(s).take(i as int).push(row) =~= ranked_rows(s).take(i as int)
                + seq![row]);
            Seq::<RankedRow>::filter_distributes_over_add(
                ranked_rows(s).take(i as int),
                seq![row],
                p,
            );
            lemma_filter_singleton(row, p);
            lemma_page_of_push(
                ranked_rows(s).take(i as int).filter(p),
                row,
                offset as int,
                limit as int,
            );
            if p(row) {
                assert(ranked_rows(s).take(i + 1).filter(p) =~= ranked_rows(s).take(
                    i as int,
                ).filter(p).push(row));
            } else {
                assert(ranked_rows(s).take(i + 1).filter(p) =~= ranked_rows(s).take(
                    i as int,
                ).filter(p));
            }
        }
        if row.member.stars > 0 {
            if seen >= offset && out.len() < limit {
                proof {
                    assert(out@.len() == page_of(
                        ranked_rows(s).take(i as int).filter(p),
                        offset as int,
                        limit as int,
                    ).len());
                }
                out.push(row);
            }
            seen += 1;
        }
        i += 1;
    }
    proof {
        assert(ranked_rows(s).take(i as int) =~= ranked_rows(s));
    }
    out
}

} // verus!
