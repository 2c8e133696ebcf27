//! The renderer: turns the ranked rows, the per-member lookups and the
//! snapshot's last-update instant into one bounded HTML fragment, all or
//! nothing.

use vstd::prelude::*;

use crate::directory::{DirEntry, Directory, RepoRules, RewriteRule, lookup_spec, title_spec};
use crate::member::{Member, TS_LIMIT, lemma_part1_wf, member_wf, member_wf_check, part1_ts_spec};
use crate::params::{CommandParams, Scope, params_wf};
use crate::rank::{RankedRow, filtered_rows, lemma_pagination, page_spec};
use crate::text::{dec_spec, dec_u64, pad2_spec, pad2_u64};
use crate::time::{
    fmt_timedelta, format_local, format_local_z, local_ymd_hms_spec, local_ymd_hms_z_spec,
    timedelta_spec, unlock_instant, unlock_timestamp,
};

verus! {

/// A break of the fetch/render contract: the fetched data lacks something
/// rendering may assume (a second-part row without its first-part
/// completion, or an instant outside the formattable range). Propagated as
/// a fault, never answered with a user-facing reply.
#[derive(Clone, Copy, Debug, PartialEq, Eq, Structural)]
pub enum BuildFault {
    ContractViolation,
}

/// The header's scope suffix: empty for both parts, a part marker otherwise.
pub open spec fn scope_title_spec(scope: Scope) -> Seq<char> {
    match scope {
        Scope::FirstPart => "/1"@,
        Scope::SecondPart => "/2"@,
        Scope::Both => ""@,
    }
}

fn scope_title(scope: &Scope) -> (r: &'static str)
    ensures
        r@ == scope_title_spec(*scope),
{
    match scope {
        Scope::FirstPart => "/1",
        Scope::SecondPart => "/2",
        Scope::Both => "",
    }
}

/// The document's fixed header, naming the event year, the zero-padded day
/// and the scope.
pub open spec fn header_spec(year: u32, day: u32, scope: Scope) -> Seq<char> {
    "\n<h3>Private Leaderboard (Advent of Code "@ + dec_spec(year as nat) + "/"@ + pad2_spec(
        day as nat,
    ) + scope_title_spec(scope)
        + ")</h3>\n<table>\n<tr> <th>Rank</th> <th>Local Score</th> <th>Stars</th> <th>Completion</th> <th>AoC Name</th> <th>Matrix User</th> <th>Repository</th> </tr>\n"@
}

/// The document's footer, noting the last-update instant in the configured
/// local zone.
pub open spec fn footer_spec(last_update: int, tz: int) -> Seq<char> {
    "\n</table>\n<sup>Last update: "@ + local_ymd_hms_z_spec(last_update + tz, tz) + "</sup>\n"@
}

/// Whether a row is emphasized: exactly the rows ranked in the top three,
/// by the rank computed before pagination.
pub open spec fn emphasized(row: RankedRow) -> bool {
    row.rank <= 3
}

/// Whether a page row is emphasized is decided by the rank computed before
/// pagination: a page row is emphasized exactly when the same row of the
/// unpaginated filtered view is ranked in the top three, whatever `offset`
/// and `limit` were.
pub proof fn lemma_emphasis_pre_pagination(ms: Seq<Member>, offset: int, limit: int, k: int)
    requires
        0 <= offset,
        0 <= limit,
        0 <= k < page_spec(ms, offset, limit).len(),
    ensures
        emphasized(page_spec(ms, offset, limit)[k]) <==> filtered_rows(ms)[offset + k].rank <= 3,
{
    lemma_pagination(ms, offset, limit, k);
}

/// `s` wrapped in bold markers when `on` holds, `s` unchanged otherwise.
pub open spec fn emph_spec(s: Seq<char>, on: bool) -> Seq<char> {
    if on {
        "<b>"@ + s + "</b>"@
    } else {
        s
    }
}

/// The rendered reference to the member's linked chat identity: the
/// directory entry's, or empty when the member has none. An absent lookup
/// renders as an empty field, not an error.
pub open spec fn matrix_field_spec(dir: Seq<DirEntry>, id: u64) -> Seq<char> {
    match lookup_spec(dir, id) {
        Some(e) => match e.matrix_uri {
            Some(u) => u@,
            None => Seq::<char>::empty(),
        },
        None => Seq::<char>::empty(),
    }
}

/// The member's raw repository reference, or empty when the directory has
/// none.
pub open spec fn repo_field_spec(dir: Seq<DirEntry>, id: u64) -> Seq<char> {
    match lookup_spec(dir, id) {
        Some(e) => match e.repo {
            Some(u) => u@,
            None => Seq::<char>::empty(),
        },
        None => Seq::<char>::empty(),
    }
}

/// The start of the elapsed-time window of a row: the day's public unlock
/// instant, except under scope `SecondPart`, where it is the member's own
/// first-part completion instant for that day.
pub open spec fn start_instant(scope: Scope, year: u32, day: u32, m: Member) -> int {
    if scope is SecondPart {
        match part1_ts_spec(m.completions@, day) {
            Some(t) => t as int,
            None => 0,
        }
    } else {
        unlock_instant(year as int, day as int)
    }
}

/// Under scope `SecondPart` the elapsed-time window of a member starts at
/// that member's own first-part completion instant, not at the public
/// unlock instant, which is used for every other scope.
pub proof fn lemma_second_part_start(scope: Scope, year: u32, day: u32, m: Member, t: i64)
    requires
        part1_ts_spec(m.completions@, day) == Some(t),
    ensures
        scope is SecondPart ==> start_instant(scope, year, day, m) == t as int,
        !(scope is SecondPart) ==> start_instant(scope, year, day, m) == unlock_instant(
            year as int,
            day as int,
        ),
{
}

/// One table row: rank, score, stars, completion instant with the elapsed
/// time since the window start, name, linked chat identity and repository
/// link, the row's own fields emphasized for the top three ranks.
pub open spec fn member_row_spec(
    row: RankedRow,
    scope: Scope,
    year: u32,
    day: u32,
    dir: Seq<DirEntry>,
    rules: Seq<RewriteRule>,
    tz: int,
) -> Seq<char> {
    let m = row.member;
    let on = emphasized(row);
    let completion = local_ymd_hms_spec(m.last_star_ts + tz);
    let delta = timedelta_spec(m.last_star_ts - start_instant(scope, year, day, m));
    let repo = repo_field_spec(dir, m.id);
    "\n<tr>\n    <td>"@ + emph_spec(dec_spec(row.rank as nat), on) + "</td>\n    <td>"@
        + emph_spec(dec_spec(m.local_score as nat), on) + "</td>\n    <td>"@ + emph_spec(
        dec_spec(m.stars as nat),
        on,
    ) + "</td>\n    <td>"@ + completion + "("@ + emph_spec(delta, on) + ")</td>\n    <td>"@
        + emph_spec(m.name@, on) + "</td>\n    <td>"@ + matrix_field_spec(dir, m.id)
        + "</td>\n    <td>"@ + emph_spec(
        "<a href=\""@ + repo + "\">"@ + title_spec(rules, repo) + "</a>"@,
        on,
    ) + "</td>\n</tr>\n"@
}

/// The concatenation of all rendered rows, in order.
pub open spec fn rows_spec(
    rows: Seq<RankedRow>,
    scope: Scope,
    year: u32,
    day: u32,
    dir: Seq<DirEntry>,
    rules: Seq<RewriteRule>,
    tz: int,
) -> Seq<char>
    decreases rows.len(),
{
    if rows.len() == 0 {
        Seq::<char>::empty()
    } else {
        rows_spec(rows.drop_last(), scope, year, day, dir, rules, tz) + member_row_spec(
            rows.last(),
            scope,
            year,
            day,
            dir,
            rules,
            tz,
        )
    }
}

/// The whole document: header, one row per ranked-and-paginated member,
/// footer.
pub open spec fn doc_spec(
    params: CommandParams,
    rows: Seq<RankedRow>,
    dir: Seq<DirEntry>,
    rules: Seq<RewriteRule>,
    last_update: int,
    tz: int,
) -> Seq<char> {
    header_spec(params.year, params.day, params.scope) + rows_spec(
        rows,
        params.scope,
        params.year,
        params.day,
        dir,
        rules,
        tz,
    ) + footer_spec(last_update, tz)
}

/// With no qualifying rows the document is exactly header then footer,
/// with no row markup between them.
pub proof fn lemma_empty_document(
    params: CommandParams,
    dir: Seq<DirEntry>,
    rules: Seq<RewriteRule>,
    last_update: int,
    tz: int,
)
    ensures
        doc_spec(params, Seq::<RankedRow>::empty(), dir, rules, last_update, tz) == header_spec(
            params.year,
            params.day,
            params.scope,
        ) + footer_spec(last_update, tz),
{
    let hdr = header_spec(params.year, params.day, params.scope);
    assert(hdr + Seq::<char>::empty() =~= hdr);
}

/// What rendering demands of the fetched data: formattable instants, and,
/// under scope `SecondPart`, a first-part completion for every row's
/// member (a member with second-part data has necessarily finished the
/// first part). A failure is a broken contract with the fetch, not a user
/// error.
pub open spec fn render_ok(
    rows: Seq<RankedRow>,
    scope: Scope,
    day: u32,
    last_update: int,
    tz: int,
) -> bool {
    &&& 0 <= last_update + tz < TS_LIMIT
    &&& forall|k: int|
        0 <= k < rows.len() ==> member_wf((#[trigger] rows[k]).member) && 0 <= rows[k].member.last_star_ts
            + tz < TS_LIMIT && (scope is SecondPart ==> part1_ts_spec(
            rows[k].member.completions@,
            day,
        ) is Some)
}

fn emph(s: String, on: bool) -> (r: String)
    ensures
        r@ == emph_spec(s@, on),
{
    if on {
        let mut t = String::from_str("<b>");
        t.append(s.as_str());
        t.append("</b>");
        t
    } else {
        s
    }
}

fn render_row(
    row: &RankedRow,
    scope: &Scope,
    year: u32,
    day: u32,
    unlock: i64,
    directory: &Directory,
    rules: &RepoRules,
    tz: i32,
) -> (r: Result<String, BuildFault>)
    requires
        -86400 < tz < 86400,
        unlock as int == unlock_instant(year as int, day as int),
        0 <= unlock < TS_LIMIT,
        member_wf(row.member),
        0 <= row.member.last_star_ts + tz < TS_LIMIT,
    ensures
        (r is Ok) == (scope is SecondPart ==> part1_ts_spec(row.member.completions@, day) is Some),
        r matches Ok(s) ==> s@ == member_row_spec(
            *row,
            *scope,
            year,
            day,
            directory.entries@,
            rules.rules@,
            tz as int,
        ),
{
    let m = &row.member;
    let start: i64 = match scope {
        Scope::SecondPart => {
            match m.part1_ts(day) {
                Some(t) => {
                    proof {
                        lemma_part1_wf(m.completions@, day);
                    }
                    t
                },
                None => {
                    return Err(BuildFault::ContractViolation);
                },
            }
        },
        _ => unlock,
    };
    let delta = m.last_star_ts - start;
    let completion = format_local(m.last_star_ts, tz);
    let delta_str = fmt_timedelta(delta);
    let on = row.rank <= 3;
    let matrix_field: String = match directory.lookup(m.id) {
        Some(e) => match &e.matrix_uri {
            Some(u) => u.clone(),
            None => String::new(),
        },
        None => String::new(),
    };
    let repo: String = match directory.lookup(m.id) {
        Some(e) => match &e.repo {
            Some(u) => u.clone(),
            None => String::new(),
        },
        None => String::new(),
    };
    let title: String = match rules.match_and_replace(repo.as_str()) {
        Some(t) => t,
        None => repo.clone(),
    };
    let mut s = String::from_str("\n<tr>\n    <td>");
    let f_rank = emph(dec_u64(row.rank as u64), on);
    s.append(f_rank.as_str());
    s.append("</td>\n    <td>");
    let f_score = emph(dec_u64(m.local_score as u64), on);
    s.append(f_score.as_str());
    s.append("</td>\n    <td>");
    let f_stars = emph(dec_u64(m.stars as u64), on);
    s.append(f_stars.as_str());
    s.append("</td>\n    <td>");
    s.append(completion.as_str());
    s.append("(");
    let f_delta = emph(delta_str, on);
    s.append(f_delta.as_str());
    s.append(")</td>\n    <td>");
    let f_name = emph(m.name.clone(), on);
    s.append(f_name.as_str());
    s.append("</td>\n    <td>");
    s.append(matrix_field.as_str());
    s.append("</td>\n    <td>");
    let mut link = String::from_str("<a href=\"");
    link.append(repo.as_str());
    link.append("\">");
    link.append(title.as_str());
    link.append("</a>");
    let f_repo = emph(link, on);
    s.append(f_repo.as_str());
    s.append("</td>\n</tr>\n");
    Ok(s)
}

/// Render the whole document, or report the broken data contract. The
/// result is `Ok` exactly when the fetched data meets `render_ok`; nothing
/// is emitted otherwise (rendering is all or nothing).
pub fn render_document(
    params: &CommandParams,
    rows: &Vec<RankedRow>,
    directory: &Directory,
    rules: &RepoRules,
    last_update: i64,
    tz: i32,
) -> (r: Result<String, BuildFault>)
    requires
        params_wf(*params),
        -86400 < tz < 86400,
    ensures
        (r is Ok) == render_ok(rows@, params.scope, params.day, last_update as int, tz as int),
        r matches Ok(doc) ==> doc@ == doc_spec(
            *params,
            rows@,
            directory.entries@,
            rules.rules@,
            last_update as int,
            tz as int,
        ),
{
    if !(last_update > -86400 && last_update < TS_LIMIT + 86400) {
        return Err(BuildFault::ContractViolation);
    }
    let lu_local = last_update + (tz as i64);
    if lu_local < 0 || lu_local >= TS_LIMIT {
        return Err(BuildFault::ContractViolation);
    }
    let unlock = unlock_timestamp(params.year, params.day);
    let ghost hdr = header_spec(params.year, params.day, params.scope);
    let mut doc = String::from_str("\n<h3>Private Leaderboard (Advent of Code ");
    let y_str = dec_u64(params.year as u64);
    doc.append(y_str.as_str());
    doc.append("/");
    let d_str = pad2_u64(params.day as u64);
    doc.append(d_str.as_str());
    doc.append(scope_title(&params.scope));
    doc.append(
        ")</h3>\n<table>\n<tr> <th>Rank</th> <th>Local Score</th> <th>Stars</th> <th>Completion</th> <th>AoC Name</th> <th>Matrix User</th> <th>Repository</th> </tr>\n",
    );
    proof {
        assert(doc@ == hdr);
        assert(rows@.take(0) =~= Seq::<RankedRow>::empty());
        assert(hdr + Seq::<char>::empty() =~= hdr);
    }
    let n = rows.len();
    let mut i: usize = 0;
    while i < n
        invariant
            i <= n,
            n == rows@.len(),
            params_wf(*params),
            -86400 < tz < 86400,
            0 <= last_update + tz < TS_LIMIT,
            unlock as int == unlock_instant(params.year as int, params.day as int),
            0 <= unlock < TS_LIMIT,
            hdr == header_spec(params.year, params.day, params.scope),
            doc@ == hdr + rows_spec(
                rows@.take(i as int),
                params.scope,
                params.year,
                params.day,
                directory.entries@,
                rules.rules@,
                tz as int,
            ),
            forall|k: int|
                0 <= k < i ==> member_wf((#[trigger] rows@[k]).member) && 0 <= rows@[k].member.last_star_ts
                    + tz < TS_LIMIT && (params.scope is SecondPart ==> part1_ts_spec(
                    rows@[k].member.completions@,
                    params.day,
                ) is Some),
        decreases n - i,
    {
        if !member_wf_check(&rows[i].member) {
            return Err(BuildFault::ContractViolation);
        }
        let ts = rows[i].member.last_star_ts;
        let ts_local = ts + (tz as i64);
        if ts_local < 0 || ts_local >= TS_LIMIT {
            return Err(BuildFault::ContractViolation);
        }
        let row_str = match render_row(
            &rows[i],
            &params.scope,
            params.year,
            params.day,
            unlock,
            directory,
            rules,
            tz,
        ) {
            Ok(s) => s,
            Err(f) => {
                return Err(f);
            },
        };
        proof {
            assert(rows@.take(i + 1).drop_last() =~= rows@.take(i as int));
            assert(rows@.take(i + 1).last() == rows@[i as int]);
            let old_rows = rows_spec(
                rows@.take(i as int),
                params.scope,
                params.year,
                params.day,
                directory.entries@,
                rules.rules@,
                tz as int,
            );
            assert((hdr + old_rows) + row_str@ =~= hdr + (old_rows + row_str@));
        }
        doc.append(row_str.as_str());
        i += 1;
    }
    proof {
        assert(rows@.take(i as int) =~= rows@);
    }
    let ghost body = hdr + rows_spec(
        rows@,
        params.scope,
        params.year,
        params.day,
        directory.entries@,
        rules.rules@,
        tz as int,
    );
    doc.append("\n</table>\n<sup>Last update: ");
    let z_str = format_local_z(last_update, tz);
    doc.append(z_str.as_str());
    doc.append("</sup>\n");
    proof {
        assert(doc@ =~= body + ("\n</table>\n<sup>Last update: "@ + local_ymd_hms_z_spec(
            last_update + tz,
            tz as int,
        ) + "</sup>\n"@));
    }
    Ok(doc)
}

} // verus!
