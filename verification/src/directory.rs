//! Per-member auxiliary data: the user directory linking a leaderboard
//! identity to a chat identity and a repository, and the configured
//! repository title rewrite rules.

use vstd::prelude::*;

verus! {

/// One user-directory entry, keyed by the member's leaderboard id.
pub struct DirEntry {
    pub aoc_id: u64,
    /// A ready-to-render reference to the member's linked chat identity.
    pub matrix_uri: Option<String>,
    /// The member's repository reference, as configured.
    pub repo: Option<String>,
}

/// The user directory consulted while rendering.
pub struct Directory {
    pub entries: Vec<DirEntry>,
}

/// One configured title rewrite: a repository reference starting with
/// `pattern` is shown as `replacement`.
pub struct RewriteRule {
    pub pattern: String,
    pub replacement: String,
}

/// The configured rewrite rules, tried in order.
pub struct RepoRules {
    pub rules: Vec<RewriteRule>,
}

/// The first directory entry carrying `id`, if any.
pub open spec fn lookup_spec(es: Seq<DirEntry>, id: u64) -> Option<DirEntry>
    decreases es.len(),
{
    if es.len() == 0 {
        None
    } else if es[0].aoc_id == id {
        Some(es[0])
    } else {
        lookup_spec(es.skip(1), id)
    }
}

/// A rule matches a raw reference that starts with its pattern.
pub open spec fn rule_matches(pattern: Seq<char>, raw: Seq<char>) -> bool {
    pattern.len() <= raw.len() && raw.take(pattern.len() as int) == pattern
}

/// The replacement of the first matching rule, if any rule matches.
pub open spec fn rewrite_spec(rules: Seq<RewriteRule>, raw: Seq<char>) -> Option<Seq<char>>
    decreases rules.len(),
{
    if rules.len() == 0 {
        None
    } else if rule_matches(rules[0].pattern@, raw) {
        Some(rules[0].replacement@)
    } else {
        rewrite_spec(rules.skip(1), raw)
    }
}

/// The title shown for a raw repository reference: the first matching
/// rule's replacement, or the raw reference unchanged when no rule matches.
pub open spec fn title_spec(rules: Seq<RewriteRule>, raw: Seq<char>) -> Seq<char> {
    match rewrite_spec(rules, raw) {
        Some(t) => t,
        None => raw,
    }
}

/// When a configured rewrite rule matches the raw reference the rendered
/// title is that rule's replacement, and otherwise it is the raw reference
/// unchanged.
pub proof fn lemma_repo_title(rules: Seq<RewriteRule>, raw: Seq<char>)
    ensures
        rewrite_spec(rules, raw) matches Some(t) ==> title_spec(rules, raw) == t,
        rewrite_spec(rules, raw) is None ==> title_spec(rules, raw) == raw,
{
}

fn is_prefix(pattern: &str, raw: &str) -> (r: bool)
    ensures
        r == rule_matches(pattern@, raw@),
{
    let np = pattern.unicode_len();
    let nr = raw.unicode_len();
    if np > nr {
        return false;
    }
    let mut i: usize = 0;
    while i < np
        invariant
            i <= np,
            np == pattern@.len(),
            nr == raw@.len(),
            np <= nr,
            forall|j: int| 0 <= j < i ==> raw@[j] == pattern@[j],
        decreases np - i,
    {
        if raw.get_char(i) != pattern.get_char(i) {
            proof {
                assert(raw@.take(np as int)[i as int] != pattern@[i as int]);
            }
            return false;
        }
        i += 1;
    }
    proof {
        assert(raw@.take(np as int) =~= pattern@);
    }
    true
}

impl Directory {
    /// Look up the entry of the member with leaderboard id `id`.
    pub fn lookup(&self, id: u64) -> (r: Option<&DirEntry>)
        ensures
            (r is Some) == (lookup_spec(self.entries@, id) is Some),
            r matches Some(e) ==> lookup_spec(self.entries@, id) == Some(*e),
    {
        let ghost es = self.entries@;
        proof {
            assert(es.skip(0) =~= es);
        }
        let n = self.entries.len();
        let mut i: usize = 0;
        while i < n
            invariant
                i <= n,
                n == es.len(),
                es == self.entries@,
                lookup_spec(es, id) == lookup_spec(es.skip(i as int), id),
            decreases n - i,
        {
            proof {
                assert(es.skip(i as int)[0] == es[i as int]);
                assert(es.skip(i as int).skip(1) =~= es.skip(i + 1));
            }
            if self.entries[i].aoc_id == id {
                return Some(&self.entries[i]);
            }
            i += 1;
        }
        None
    }
}

impl RepoRules {
    /// Apply the first matching rewrite rule to a raw repository
    /// reference, yielding its replacement title.
    pub fn match_and_replace(&self, raw: &str) -> (r: Option<String>)
        ensures
            match r {
                Some(t) => rewrite_spec(self.rules@, raw@) == Some(t@),
                None => rewrite_spec(self.rules@, raw@) is None,
            },
    {
        let ghost rs = self.rules@;
        proof {
            assert(rs.skip(0) =~= rs);
        }
        let n = self.rules.len();
        let mut i: usize = 0;
        while i < n
            invariant
                i <= n,
                n == rs.len(),
                rs == self.rules@,
                rewrite_spec(rs, raw@) == rewrite_spec(rs.skip(i as int), raw@),
            decreases n - i,
        {
            proof {
                assert(rs.skip(i as int)[0] == rs[i as int]);
                assert(rs.skip(i as int).skip(1) =~= rs.skip(i + 1));
            }
            if is_prefix(self.rules[i].pattern.as_str(), raw) {
                return Some(self.rules[i].replacement.clone());
            }
            i += 1;
        }
        None
    }
}

} // verus!
