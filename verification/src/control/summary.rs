//! What was used and charged in a period.
use crate::collections::{holds_key, lemma_entry, placed, TextMap};
use crate::control::error::{invalid, refused, Fault, ServiceResult};
use crate::domain::{ceil_minor_units, toward_zero, BillingSummary, Money, ProjectBilling, Timestamp};
use crate::text::same;
use vstd::prelude::*;

verus! {

/// The part of a usage event that a summary adds up.
#[derive(Clone, Debug)]
pub struct UsageLine {
    pub project_id: String,
    pub occurred_at: Timestamp,
    pub input_tokens: i64,
    pub output_tokens: i64,
    pub cost_microunits: i64,
}

/// Sums over the usage of one project.
#[derive(Clone, Copy, Debug)]
pub struct UsageSums {
    pub requests: i64,
    pub input_tokens: i64,
    pub output_tokens: i64,
    pub cost_microunits: i64,
}

/// The period is half-open; an empty or missing project stands for all.
pub open spec fn in_scope(
    line: UsageLine,
    project: Option<Seq<char>>,
    start: Timestamp,
    end: Timestamp,
) -> bool {
    &&& start <= line.occurred_at < end
    &&& project matches Some(id) ==> id.len() == 0 || line.project_id@ == id
}

pub open spec fn wanted_project(project: Option<&str>) -> Option<Seq<char>> {
    match project {
        Some(id) => Some(id@),
        None => None,
    }
}

/// What a line adds to one sum, if it belongs to the project.
pub open spec fn line_amount(line: UsageLine, field: int) -> int {
    if field == 0 {
        1
    } else if field == 1 {
        line.input_tokens as int
    } else if field == 2 {
        line.output_tokens as int
    } else {
        line.cost_microunits as int
    }
}

pub open spec fn sum_field(s: UsageSums, field: int) -> int {
    if field == 0 {
        s.requests as int
    } else if field == 1 {
        s.input_tokens as int
    } else if field == 2 {
        s.output_tokens as int
    } else if field == 3 {
        s.cost_microunits as int
    } else {
        covered(s.cost_microunits as int)
    }
}

/// Whole minor units that cover an amount of microunits.
pub open spec fn covered(microunits: int) -> int {
    toward_zero(microunits + 999_999, 1_000_000)
}

/// The sum of a field over the lines of a project.
pub open spec fn project_total(lines: Seq<UsageLine>, id: Seq<char>, field: int) -> int
    decreases lines.len(),
{
    if lines.len() == 0 {
        0
    } else {
        project_total(lines.drop_last(), id, field) + if lines.last().project_id@ == id {
            line_amount(lines.last(), field)
        } else {
            0
        }
    }
}

/// The sum of a field over all lines.
pub open spec fn grand_total(lines: Seq<UsageLine>, field: int) -> int
    decreases lines.len(),
{
    if lines.len() == 0 {
        0
    } else {
        grand_total(lines.drop_last(), field) + line_amount(lines.last(), field)
    }
}

/// Whole minor units that cover the cost of each project, added up over the
/// projects: a line adds what it raises its own project's by.
pub open spec fn minor_total(lines: Seq<UsageLine>) -> int
    decreases lines.len(),
{
    if lines.len() == 0 {
        0
    } else {
        let id = lines.last().project_id@;
        minor_total(lines.drop_last()) + covered(project_total(lines, id, 3)) - covered(
            project_total(lines.drop_last(), id, 3),
        )
    }
}

pub open spec fn scoped(
    lines: Seq<UsageLine>,
    project: Option<Seq<char>>,
    start: Timestamp,
    end: Timestamp,
) -> Seq<UsageLine> {
    lines.filter(|line: UsageLine| in_scope(line, project, start, end))
}

pub open spec fn nonnegative(lines: Seq<UsageLine>) -> bool {
    forall|i: int|
        0 <= i < lines.len() ==> (#[trigger] lines[i]).input_tokens >= 0 && lines[i].output_tokens
            >= 0 && lines[i].cost_microunits >= 0
}

/// What the projects are shown to owe, added up.
pub open spec fn cost_total(projects: Seq<ProjectBilling>) -> int
    decreases projects.len(),
{
    if projects.len() == 0 {
        0
    } else {
        cost_total(projects.drop_last()) + projects.last().cost.amount
    }
}

/// The lines of a project, added up.
pub open spec fn project_line(lines: Seq<UsageLine>, p: ProjectBilling) -> bool {
    &&& p.requests == project_total(lines, p.project_id@, 0)
    &&& p.input_tokens == project_total(lines, p.project_id@, 1)
    &&& p.output_tokens == project_total(lines, p.project_id@, 2)
    &&& p.cost.currency@ == "CNY"@
    &&& p.cost.amount == covered(project_total(lines, p.project_id@, 3))
}

pub open spec fn ids_ascending(projects: Seq<ProjectBilling>) -> bool {
    forall|i: int, j: int|
        0 <= i < j < projects.len() ==> crate::collections::text_before(
            #[trigger] projects[i].project_id@,
            #[trigger] projects[j].project_id@,
        )
}

pub open spec fn billed(projects: Seq<ProjectBilling>, id: Seq<char>) -> bool {
    exists|i: int| 0 <= i < projects.len() && #[trigger] projects[i].project_id@ == id
}

pub open spec fn used(lines: Seq<UsageLine>, id: Seq<char>) -> bool {
    exists|j: int| 0 <= j < lines.len() && #[trigger] lines[j].project_id@ == id
}

spec fn map_sum(entries: Seq<(String, UsageSums)>, field: int) -> int
    decreases entries.len(),
{
    if entries.len() == 0 {
        0
    } else {
        map_sum(entries.drop_last(), field) + sum_field(entries.last().1, field)
    }
}

proof fn lemma_map_sum_update(
    entries: Seq<(String, UsageSums)>,
    p: int,
    e: (String, UsageSums),
    field: int,
)
    requires
        0 <= p < entries.len(),
    ensures
        map_sum(entries.update(p, e), field) == map_sum(entries, field) - sum_field(
            entries[p].1,
            field,
        ) + sum_field(e.1, field),
    decreases entries.len(),
{
    let next = entries.update(p, e);
    if p == entries.len() - 1 {
        assert(next.drop_last() =~= entries.drop_last());
    } else {
        assert(next.drop_last() =~= entries.drop_last().update(p, e));
        lemma_map_sum_update(entries.drop_last(), p, e, field);
    }
}

proof fn lemma_map_sum_insert(
    entries: Seq<(String, UsageSums)>,
    p: int,
    e: (String, UsageSums),
    field: int,
)
    requires
        0 <= p <= entries.len(),
    ensures
        map_sum(entries.insert(p, e), field) == map_sum(entries, field) + sum_field(e.1, field),
    decreases entries.len(),
{
    let next = entries.insert(p, e);
    if p == entries.len() {
        assert(next.drop_last() =~= entries);
    } else {
        assert(next.drop_last() =~= entries.drop_last().insert(p, e));
        assert(next.last() == entries.last());
        lemma_map_sum_insert(entries.drop_last(), p, e, field);
    }
}

proof fn lemma_project_total_bound(lines: Seq<UsageLine>, id: Seq<char>, field: int)
    requires
        nonnegative(lines),
    ensures
        0 <= project_total(lines, id, field) <= grand_total(lines, field),
        0 <= grand_total(lines, field),
    decreases lines.len(),
{
    if lines.len() > 0 {
        assert(nonnegative(lines.drop_last()));
        lemma_project_total_bound(lines.drop_last(), id, field);
    }
}

proof fn lemma_prefix_sums(entries: Seq<(String, UsageSums)>, n: int, field: int)
    requires
        0 <= n <= entries.len(),
        forall|i: int| 0 <= i < entries.len() ==> #[trigger] sum_field(entries[i].1, field) >= 0,
    ensures
        map_sum(entries.take(n), field) <= map_sum(entries, field),
        0 <= map_sum(entries.take(n), field),
    decreases entries.len() - n,
{
    lemma_map_sum_nonnegative(entries.take(n), field);
    if n < entries.len() {
        assert(entries.take(n + 1).drop_last() =~= entries.take(n));
        lemma_prefix_sums(entries, n + 1, field);
    } else {
        assert(entries.take(n) =~= entries);
    }
}

proof fn lemma_map_sum_nonnegative(entries: Seq<(String, UsageSums)>, field: int)
    requires
        forall|i: int| 0 <= i < entries.len() ==> #[trigger] sum_field(entries[i].1, field) >= 0,
    ensures
        0 <= map_sum(entries, field),
    decreases entries.len(),
{
    if entries.len() > 0 {
        lemma_map_sum_nonnegative(entries.drop_last(), field);
    }
}

fn line_in_scope(
    line: &UsageLine,
    project: Option<&str>,
    start: Timestamp,
    end: Timestamp,
) -> (r: bool)
    ensures
        r == in_scope(
            *line,
            wanted_project(project),
            start,
            end,
        ),
{
    let wanted = match project {
        Some(id) => id.is_empty() || same(line.project_id.as_str(), id),
        None => true,
    };
    start <= line.occurred_at && line.occurred_at < end && wanted
}

/// What the map holds for the lines seen so far.
spec fn sums_of(sums: TextMap<UsageSums>, seen: Seq<UsageLine>) -> bool {
    &&& sums.wf()
    &&& forall|id: Seq<char>, field: int|
        0 <= field < 4 ==> #[trigger] project_total(seen, id, field) == if sums@.dom().contains(
            id,
        ) {
            sum_field(sums@[id], field)
        } else {
            0
        }
    &&& forall|field: int|
        0 <= field < 4 ==> #[trigger] map_sum(sums.entries@, field) == grand_total(seen, field)
    &&& map_sum(sums.entries@, 4) == minor_total(seen)
    &&& forall|id: Seq<char>|
        #[trigger] sums@.dom().contains(id) <==> used(seen, id)
}

proof fn lemma_line_added(seen: Seq<UsageLine>, line: UsageLine, prior: UsageSums, field: int)
    requires
        nonnegative(seen),
        line.input_tokens >= 0,
        line.output_tokens >= 0,
        line.cost_microunits >= 0,
        0 <= field < 4,
        project_total(seen, line.project_id@, field) == sum_field(prior, field),
        project_total(seen.push(line), line.project_id@, field) <= i64::MAX,
    ensures
        0 <= sum_field(prior, field),
        sum_field(prior, field) + line_amount(line, field) == project_total(
            seen.push(line),
            line.project_id@,
            field,
        ),
        sum_field(prior, field) + line_amount(line, field) <= i64::MAX,
{
    let next = seen.push(line);
    assert(next.drop_last() =~= seen);
    assert(nonnegative(next));
    lemma_project_total_bound(seen, line.project_id@, field);
    lemma_project_total_bound(next, line.project_id@, field);
}

/// What the map holds of a project: nothing counts as zero.
fn prior_sums(sums: &TextMap<UsageSums>, id: &str) -> (r: UsageSums)
    requires
        sums.wf(),
    ensures
        sums@.dom().contains(id@) ==> r == sums@[id@],
        !sums@.dom().contains(id@) ==> forall|field: int| #[trigger] sum_field(r, field) == 0,
{
    match sums.get(id) {
        Some(s) => *s,
        None => UsageSums { requests: 0, input_tokens: 0, output_tokens: 0, cost_microunits: 0 },
    }
}

/// Adds a line to the sums of its project.
fn add_line(sums: &mut TextMap<UsageSums>, line: &UsageLine, Ghost(seen): Ghost<Seq<UsageLine>>)
    requires
        sums_of(*old(sums), seen),
        nonnegative(seen),
        line.input_tokens >= 0,
        line.output_tokens >= 0,
        line.cost_microunits >= 0,
        forall|field: int|
            0 <= field < 4 ==> #[trigger] project_total(
                seen.push(*line),
                line.project_id@,
                field,
            ) <= i64::MAX,
    ensures
        sums_of(*final(sums), seen.push(*line)),
{
    let ghost id = line.project_id@;
    let ghost next = seen.push(*line);
    let prior = prior_sums(sums, line.project_id.as_str());
    proof {
        assert(next.drop_last() =~= seen);
        assert(project_total(seen, id, 0) == sum_field(prior, 0));
        assert(project_total(seen, id, 1) == sum_field(prior, 1));
        assert(project_total(seen, id, 2) == sum_field(prior, 2));
        assert(project_total(seen, id, 3) == sum_field(prior, 3));
        lemma_line_added(seen, *line, prior, 0);
        lemma_line_added(seen, *line, prior, 1);
        lemma_line_added(seen, *line, prior, 2);
        lemma_line_added(seen, *line, prior, 3);
    }
    let ghost before = *sums;
    let value = UsageSums {
        requests: prior.requests + 1,
        input_tokens: prior.input_tokens + line.input_tokens,
        output_tokens: prior.output_tokens + line.output_tokens,
        cost_microunits: prior.cost_microunits + line.cost_microunits,
    };
    sums.insert(line.project_id.as_str(), value);
    proof {
        assert forall|other: Seq<char>, field: int| 0 <= field < 4 implies #[trigger] project_total(
            next,
            other,
            field,
        ) == if sums@.dom().contains(other) {
            sum_field(sums@[other], field)
        } else {
            0
        } by {
            assert(project_total(seen, other, field) == if before@.dom().contains(other) {
                sum_field(before@[other], field)
            } else {
                0
            });
        }
        let p = choose|p: int|
            #[trigger] placed(before.entries@, sums.entries@, id, value, p);
        assert forall|field: int| 0 <= field < 5 implies #[trigger] map_sum(sums.entries@, field)
            == map_sum(before.entries@, field) - sum_field(prior, field) + sum_field(
            value,
            field,
        ) by {
            if p < before.entries@.len() && before.entries@[p].0@ == id && sums.entries@
                == before.entries@.update(p, sums.entries@[p]) {
                lemma_map_sum_update(before.entries@, p, sums.entries@[p], field);
                lemma_entry(before.entries@, p);
                assert(sum_field(before.entries@[p].1, field) == sum_field(prior, field));
            } else {
                lemma_map_sum_insert(before.entries@, p, sums.entries@[p], field);
                assert(!before@.dom().contains(id));
                assert(sum_field(prior, field) == 0);
            }
        }
        assert forall|field: int| 0 <= field < 4 implies #[trigger] map_sum(sums.entries@, field)
            == grand_total(next, field) by {
            assert(map_sum(before.entries@, field) == grand_total(seen, field));
        }
        assert(map_sum(sums.entries@, 4) == minor_total(next));
        assert forall|other: Seq<char>|
            #[trigger] sums@.dom().contains(other) <==> used(next, other) by {
            if before@.dom().contains(other) {
                let i = choose|i: int| 0 <= i < seen.len() && #[trigger] seen[i].project_id@ == other;
                assert(next[i].project_id@ == other);
            }
            if other == id {
                assert(next[seen.len() as int].project_id@ == other);
            }
            if used(next, other) {
                let i = choose|i: int| 0 <= i < next.len() && #[trigger] next[i].project_id@ == other;
                if i < seen.len() {
                    assert(seen[i].project_id@ == other);
                }
            }
        }
    }
}

/// What is added up is never negative and stays in range, and the cost of each project can
/// be rounded up to whole minor units. Nothing is asked of lines that are not added up.
pub open spec fn summary_in_range(
    lines: Seq<UsageLine>,
    project: Option<Seq<char>>,
    start: Timestamp,
    end: Timestamp,
) -> bool {
    start < end ==> {
        let seen = scoped(lines, project, start, end);
        &&& forall|i: int|
            0 <= i < lines.len() && in_scope(#[trigger] lines[i], project, start, end)
                ==> lines[i].input_tokens >= 0 && lines[i].output_tokens >= 0
                && lines[i].cost_microunits >= 0
        &&& seen.len() <= i64::MAX
        &&& grand_total(seen, 1) <= i64::MAX
        &&& grand_total(seen, 2) <= i64::MAX
        &&& forall|id: Seq<char>| #[trigger] project_total(seen, id, 3) <= i64::MAX - 999_999
        &&& minor_total(seen) <= i64::MAX
    }
}

/// Rounding up keeps the order of amounts.
proof fn lemma_covered(a: int, b: int)
    requires
        0 <= a <= b,
    ensures
        0 <= covered(a) <= covered(b) <= b,
{
}

/// A line raises what the projects owe, or leaves it.
proof fn lemma_minor_step(seen: Seq<UsageLine>, line: UsageLine)
    requires
        nonnegative(seen),
        line.cost_microunits >= 0,
    ensures
        minor_total(seen) <= minor_total(seen.push(line)),
        minor_total(seen.push(line)) == minor_total(seen) + covered(
            project_total(seen, line.project_id@, 3) + line.cost_microunits,
        ) - covered(project_total(seen, line.project_id@, 3)),
{
    assert(seen.push(line).drop_last() =~= seen);
    lemma_project_total_bound(seen, line.project_id@, 3);
    lemma_covered(
        project_total(seen, line.project_id@, 3),
        project_total(seen, line.project_id@, 3) + line.cost_microunits,
    );
}

/// What is taken of the first lines is never negative.
proof fn lemma_scoped_nonnegative(
    lines: Seq<UsageLine>,
    project: Option<Seq<char>>,
    start: Timestamp,
    end: Timestamp,
    n: int,
)
    requires
        0 <= n <= lines.len(),
        forall|i: int|
            0 <= i < lines.len() && in_scope(#[trigger] lines[i], project, start, end)
                ==> lines[i].input_tokens >= 0 && lines[i].output_tokens >= 0
                && lines[i].cost_microunits >= 0,
    ensures
        nonnegative(scoped(lines.take(n), project, start, end)),
    decreases n,
{
    broadcast use Seq::lemma_filter_push;

    let keep = |line: UsageLine| in_scope(line, project, start, end);
    if n > 0 {
        lemma_scoped_nonnegative(lines, project, start, end, n - 1);
        assert(lines.take(n) == lines.take(n - 1).push(lines[n - 1]));
        assert(keep(lines[n - 1]) == in_scope(lines[n - 1], project, start, end));
    } else {
        assert(lines.take(0).filter(keep) =~= Seq::empty());
    }
}

/// The sums over the first lines stay below those over all.
proof fn lemma_scoped_prefix(
    lines: Seq<UsageLine>,
    project: Option<Seq<char>>,
    start: Timestamp,
    end: Timestamp,
    n: int,
    field: int,
)
    requires
        0 <= n <= lines.len(),
        forall|i: int|
            0 <= i < lines.len() && in_scope(#[trigger] lines[i], project, start, end)
                ==> lines[i].input_tokens >= 0 && lines[i].output_tokens >= 0
                && lines[i].cost_microunits >= 0,
    ensures
        grand_total(scoped(lines.take(n), project, start, end), field) <= grand_total(
            scoped(lines, project, start, end),
            field,
        ),
        forall|id: Seq<char>|
            #[trigger] project_total(scoped(lines.take(n), project, start, end), id, field)
                <= project_total(scoped(lines, project, start, end), id, field),
        minor_total(scoped(lines.take(n), project, start, end)) <= minor_total(
            scoped(lines, project, start, end),
        ),
    decreases lines.len() - n,
{
    broadcast use Seq::lemma_filter_push;

    if n < lines.len() {
        let keep = |line: UsageLine| in_scope(line, project, start, end);
        let before = lines.take(n).filter(keep);
        assert(lines.take(n + 1) == lines.take(n).push(lines[n]));
        if keep(lines[n]) {
            assert(in_scope(lines[n], project, start, end));
            assert(before.push(lines[n]).drop_last() =~= before);
            lemma_scoped_nonnegative(lines, project, start, end, n);
            lemma_minor_step(before, lines[n]);
        }
        lemma_scoped_prefix(lines, project, start, end, n + 1, field);
        let after = lines.take(n + 1).filter(keep);
        assert forall|id: Seq<char>| #[trigger] project_total(
            scoped(lines.take(n), project, start, end),
            id,
            field,
        ) <= project_total(scoped(lines, project, start, end), id, field) by {
            assert(project_total(before, id, field) <= project_total(after, id, field));
        }
    } else {
        assert(lines.take(n) =~= lines);
    }
}

/// Whether a summary stays in range.
pub fn summarizes_in_range(
    lines: &Vec<UsageLine>,
    project: Option<&str>,
    start: Timestamp,
    end: Timestamp,
) -> (r: bool)
    ensures
        r ==> summary_in_range(lines@, wanted_project(project), start, end),
        !r ==> start < end && !summary_in_range(lines@, wanted_project(project), start, end),
{
    if end <= start {
        return true;
    }
    let ghost wanted = wanted_project(project);
    let ghost keep = |line: UsageLine| in_scope(line, wanted, start, end);
    let mut sums: TextMap<UsageSums> = TextMap::new();
    let mut count: i64 = 0;
    let mut input: i64 = 0;
    let mut output: i64 = 0;
    let mut minor: i64 = 0;
    let mut i: usize = 0;
    let ghost mut seen: Seq<UsageLine> = Seq::empty();
    proof {
        assert(lines@.take(0).filter(keep) =~= Seq::empty());
        assert(sums_of(sums, seen));
    }
    while i < lines.len()
        invariant
            i <= lines.len(),
            start < end,
            wanted == wanted_project(project),
            keep == (|line: UsageLine| in_scope(line, wanted, start, end)),
            seen == lines@.take(i as int).filter(keep),
            nonnegative(seen),
            sums_of(sums, seen),
            count == seen.len(),
            0 <= input == grand_total(seen, 1),
            0 <= output == grand_total(seen, 2),
            0 <= minor == minor_total(seen),
            forall|id: Seq<char>| #[trigger] project_total(seen, id, 3) <= i64::MAX - 999_999,
            forall|j: int|
                0 <= j < i && in_scope(#[trigger] lines@[j], wanted, start, end)
                    ==> lines@[j].input_tokens >= 0 && lines@[j].output_tokens >= 0
                    && lines@[j].cost_microunits >= 0,
        decreases lines.len() - i,
    {
        let line = &lines[i];
        proof {
            broadcast use Seq::lemma_filter_push;

            assert(lines@.take(i as int + 1) == lines@.take(i as int).push(lines@[i as int]));
            assert(seen.push(*line).drop_last() =~= seen);
        }
        if line_in_scope(line, project, start, end) {
            assert(keep(*line));
            if line.input_tokens < 0 || line.output_tokens < 0 || line.cost_microunits < 0 {
                assert(in_scope(lines@[i as int], wanted, start, end));
                return false;
            }
            let ghost id = line.project_id@;
            let ghost next = seen.push(*line);
            let prior = prior_sums(&sums, line.project_id.as_str());
            proof {
                assert(project_total(seen, id, 3) == sum_field(prior, 3));
                lemma_project_total_bound(seen, id, 3);
                lemma_minor_step(seen, *line);
                lemma_grand_total_zero(next);
                if summary_in_range(lines@, wanted, start, end) {
                    lemma_scoped_prefix(lines@, wanted, start, end, i as int + 1, 0);
                    lemma_scoped_prefix(lines@, wanted, start, end, i as int + 1, 1);
                    lemma_scoped_prefix(lines@, wanted, start, end, i as int + 1, 2);
                    lemma_scoped_prefix(lines@, wanted, start, end, i as int + 1, 3);
                    lemma_grand_total_zero(scoped(lines@, wanted, start, end));
                    assert(project_total(next, id, 3) <= project_total(
                        scoped(lines@, wanted, start, end),
                        id,
                        3,
                    ));
                }
            }
            if count == i64::MAX || input > i64::MAX - line.input_tokens || output > i64::MAX
                - line.output_tokens || line.cost_microunits > i64::MAX - 999_999
                - prior.cost_microunits {
                return false;
            }
            let before: i64 = ceil_minor_units(prior.cost_microunits);
            let after: i64 = ceil_minor_units(prior.cost_microunits + line.cost_microunits);
            proof {
                lemma_covered(
                    prior.cost_microunits as int,
                    prior.cost_microunits + line.cost_microunits,
                );
            }
            if minor > i64::MAX - (after - before) {
                return false;
            }
            proof {
                assert forall|field: int| 0 <= field < 4 implies #[trigger] project_total(
                    next,
                    id,
                    field,
                ) <= i64::MAX by {
                    lemma_project_total_bound(next, id, field);
                    assert(field == 0 || field == 1 || field == 2 || field == 3);
                }
            }
            add_line(&mut sums, line, Ghost(seen));
            proof {
                assert forall|other: Seq<char>|
                    #[trigger] project_total(next, other, 3) <= i64::MAX - 999_999 by {
                    assert(project_total(seen, other, 3) <= i64::MAX - 999_999);
                    assert(next.drop_last() =~= seen);
                }
                seen = next;
            }
            count = count + 1;
            input = input + line.input_tokens;
            output = output + line.output_tokens;
            minor = minor + (after - before);
        } else {
            assert(!keep(*line));
        }
        i += 1;
    }
    assert(lines@.take(lines@.len() as int) =~= lines@);
    true
}

/// Adds up what was used and charged in a period, project by project in the
/// order of their IDs. A project's cost is rounded up to whole minor units,
/// and the total is the sum of what is shown.
pub fn billing_summary(
    lines: &Vec<UsageLine>,
    project: Option<&str>,
    start: Timestamp,
    end: Timestamp,
) -> (r: ServiceResult<BillingSummary>)
    requires
        summary_in_range(lines@, wanted_project(project), start, end),
    ensures
        refused(
            r,
            if end <= start {
                Some(Fault::Invalid("to must be after from"@))
            } else {
                None
            },
        ),
        r matches Ok(s) ==> {
            let seen = scoped(lines@, wanted_project(project), start, end);
            &&& s.period_start == start
            &&& s.period_end == end
            &&& s.requests == seen.len()
            &&& s.input_tokens == grand_total(seen, 1)
            &&& s.output_tokens == grand_total(seen, 2)
            &&& s.total.currency@ == "CNY"@
            &&& s.total.amount == cost_total(s.projects@) == minor_total(seen)
            &&& ids_ascending(s.projects@)
            &&& forall|i: int|
                0 <= i < s.projects@.len() ==> project_line(seen, #[trigger] s.projects@[i])
            &&& forall|i: int|
                0 <= i < seen.len() ==> billed(s.projects@, (#[trigger] seen[i]).project_id@)
            &&& forall|i: int|
                0 <= i < s.projects@.len() ==> used(seen, (#[trigger] s.projects@[i]).project_id@)
        },
{
    if end <= start {
        return Err(invalid("to must be after from"));
    }
    let ghost wanted = wanted_project(project);
    let ghost keep = |line: UsageLine| in_scope(line, wanted, start, end);
    let mut sums: TextMap<UsageSums> = TextMap::new();
    let mut i: usize = 0;
    let ghost mut seen: Seq<UsageLine> = Seq::empty();
    proof {
        assert(lines@.take(0).filter(keep) =~= Seq::empty());
        assert(sums_of(sums, seen));
    }
    while i < lines.len()
        invariant
            i <= lines.len(),
            keep == (|line: UsageLine| in_scope(line, wanted, start, end)),
            wanted == wanted_project(project),
            start < end,
            summary_in_range(lines@, wanted, start, end),
            seen == lines@.take(i as int).filter(keep),
            nonnegative(seen),
            sums_of(sums, seen),
        decreases lines.len() - i,
    {
        let line = &lines[i];
        proof {
            broadcast use Seq::lemma_filter_push;

            assert(lines@.take(i as int + 1) == lines@.take(i as int).push(lines@[i as int]));
            assert(seen.push(*line).drop_last() =~= seen);
            lemma_scoped_prefix(lines@, wanted, start, end, i as int + 1, 0);
            lemma_scoped_prefix(lines@, wanted, start, end, i as int + 1, 1);
            lemma_scoped_prefix(lines@, wanted, start, end, i as int + 1, 2);
            lemma_scoped_prefix(lines@, wanted, start, end, i as int + 1, 3);
            lemma_grand_total_zero(scoped(lines@, wanted, start, end));
            if keep(*line) {
                assert(in_scope(lines@[i as int], wanted, start, end));
                assert(lines@.take(i as int + 1).filter(keep) == seen.push(*line));
                assert forall|field: int| 0 <= field < 4 implies #[trigger] project_total(
                    seen.push(*line),
                    line.project_id@,
                    field,
                ) <= i64::MAX by {
                    lemma_project_total_bound(seen.push(*line), line.project_id@, field);
                    assert(field == 0 || field == 1 || field == 2 || field == 3);
                }
            }
        }
        if line_in_scope(line, project, start, end) {
            assert(keep(*line));
            add_line(&mut sums, line, Ghost(seen));
            proof {
                seen = seen.push(*line);
            }
        }
        i += 1;
    }
    proof {
        assert(lines@.take(lines@.len() as int) =~= lines@);
    }
    let mut projects: Vec<ProjectBilling> = Vec::new();
    let mut requests: i64 = 0;
    let mut input_tokens: i64 = 0;
    let mut output_tokens: i64 = 0;
    let mut amount: i64 = 0;
    let mut k: usize = 0;
    proof {
        lemma_grand_total_zero(seen);
        assert(sums.entries@.take(0) =~= Seq::empty());
        assert forall|j: int| 0 <= j < sums.entries@.len() implies #[trigger] entry_sound(
            sums.entries@[j],
            seen,
        ) by {
            lemma_entry(sums.entries@, j);
            let id = sums.entries@[j].0@;
            assert(project_total(seen, id, 0) == sum_field(sums@[id], 0));
            assert(project_total(seen, id, 1) == sum_field(sums@[id], 1));
            assert(project_total(seen, id, 2) == sum_field(sums@[id], 2));
            assert(project_total(seen, id, 3) == sum_field(sums@[id], 3));
            lemma_project_total_bound(seen, id, 0);
            lemma_project_total_bound(seen, id, 1);
            lemma_project_total_bound(seen, id, 2);
            lemma_project_total_bound(seen, id, 3);
        }
        assert(map_sum(sums.entries@, 0) == grand_total(seen, 0));
        assert(map_sum(sums.entries@, 1) == grand_total(seen, 1));
        assert(map_sum(sums.entries@, 2) == grand_total(seen, 2));
    }
    while k < sums.entries.len()
        invariant
            k <= sums.entries@.len(),
            sums.wf(),
            forall|j: int|
                0 <= j < sums.entries@.len() ==> #[trigger] entry_sound(sums.entries@[j], seen),
            map_sum(sums.entries@, 0) <= i64::MAX,
            map_sum(sums.entries@, 1) <= i64::MAX,
            map_sum(sums.entries@, 2) <= i64::MAX,
            map_sum(sums.entries@, 4) <= i64::MAX,
            requests == map_sum(sums.entries@.take(k as int), 0),
            input_tokens == map_sum(sums.entries@.take(k as int), 1),
            output_tokens == map_sum(sums.entries@.take(k as int), 2),
            amount == map_sum(sums.entries@.take(k as int), 4),
            amount == cost_total(projects@),
            projects@.len() == k,
            forall|j: int|
                0 <= j < k ==> (#[trigger] projects@[j]).project_id@ == sums.entries@[j].0@
                    && project_line(seen, projects@[j]),
        decreases sums.entries@.len() - k,
    {
        let entry = &sums.entries[k];
        proof {
            assert(entry_sound(sums.entries@[k as int], seen));
            assert(sums.entries@.take(k as int + 1).drop_last() =~= sums.entries@.take(k as int));
            assert forall|j: int, field: int|
                0 <= j < sums.entries@.len() && 0 <= field < 5 implies #[trigger] sum_field(
                sums.entries@[j].1,
                field,
            ) >= 0 by {
                assert(entry_sound(sums.entries@[j], seen));
            }
            lemma_prefix_sums(sums.entries@, k as int + 1, 0);
            lemma_prefix_sums(sums.entries@, k as int + 1, 1);
            lemma_prefix_sums(sums.entries@, k as int + 1, 2);
            lemma_prefix_sums(sums.entries@, k as int + 1, 4);
        }
        let item = ProjectBilling {
            project_id: entry.0.clone(),
            requests: entry.1.requests,
            input_tokens: entry.1.input_tokens,
            output_tokens: entry.1.output_tokens,
            cost: Money::cny(ceil_minor_units(entry.1.cost_microunits)),
        };
        requests = requests + item.requests;
        input_tokens = input_tokens + item.input_tokens;
        output_tokens = output_tokens + item.output_tokens;
        amount = amount + item.cost.amount;
        assert(project_line(seen, item));
        let ghost before = projects@;
        projects.push(item);
        assert(projects@.drop_last() =~= before);
        k += 1;
    }
    proof {
        assert(sums.entries@.take(sums.entries@.len() as int) =~= sums.entries@);
        assert forall|j: int| 0 <= j < seen.len() implies billed(
            projects@,
            (#[trigger] seen[j]).project_id@,
        ) by {
            let id = seen[j].project_id@;
            assert(sums@.dom().contains(id));
            let p = choose|p: int| #[trigger] holds_key(sums.entries@, id, p);
            assert(projects@[p].project_id@ == id);
        }
        assert forall|j: int| 0 <= j < projects@.len() implies used(
            seen,
            (#[trigger] projects@[j]).project_id@,
        ) by {
            lemma_entry(sums.entries@, j);
            assert(sums@.dom().contains(projects@[j].project_id@));
        }
        assert(ids_ascending(projects@));
    }
    Ok(
        BillingSummary {
            period_start: start,
            period_end: end,
            requests,
            input_tokens,
            output_tokens,
            total: Money::cny(amount),
            projects,
        },
    )
}

spec fn entry_sound(e: (String, UsageSums), seen: Seq<UsageLine>) -> bool {
    &&& 0 <= e.1.requests == project_total(seen, e.0@, 0)
    &&& 0 <= e.1.input_tokens == project_total(seen, e.0@, 1)
    &&& 0 <= e.1.output_tokens == project_total(seen, e.0@, 2)
    &&& 0 <= e.1.cost_microunits == project_total(seen, e.0@, 3)
    &&& e.1.cost_microunits <= i64::MAX - 999_999
}

proof fn lemma_grand_total_zero(lines: Seq<UsageLine>)
    ensures
        grand_total(lines, 0) == lines.len(),
    decreases lines.len(),
{
    if lines.len() > 0 {
        lemma_grand_total_zero(lines.drop_last());
    }
}

/// Periods that follow each other share no usage and lose none: what happened in the whole
/// happened in exactly one of its parts.
pub proof fn law_periods_join_without_gap_or_overlap(
    line: UsageLine,
    project: Option<Seq<char>>,
    start: Timestamp,
    middle: Timestamp,
    end: Timestamp,
)
    requires
        start <= middle <= end,
    ensures
        in_scope(line, project, start, end) <==> in_scope(line, project, start, middle) || in_scope(
            line,
            project,
            middle,
            end,
        ),
        !(in_scope(line, project, start, middle) && in_scope(line, project, middle, end)),
        in_scope(line, project, start, end) && project is Some && project->0.len() > 0
            ==> line.project_id@ == project->0,
        start <= line.occurred_at < end && project is None ==> in_scope(line, project, start, end),
        !in_scope(line, project, start, start),
{
}

/// Totals add up: those of two lists together are the sum of those of each, for a project and
/// for all, and a single line counts as one request with its tokens and its cost.
pub proof fn law_totals_add_up(
    lines: Seq<UsageLine>,
    more: Seq<UsageLine>,
    line: UsageLine,
    id: Seq<char>,
    field: int,
)
    ensures
        grand_total(lines + more, field) == grand_total(lines, field) + grand_total(more, field),
        project_total(lines + more, id, field) == project_total(lines, id, field) + project_total(
            more,
            id,
            field,
        ),
        grand_total(seq![line], 0) == 1,
        grand_total(seq![line], 1) == line.input_tokens,
        grand_total(seq![line], 2) == line.output_tokens,
        grand_total(seq![line], 3) == line.cost_microunits,
        line.project_id@ == id ==> project_total(seq![line], id, field) == grand_total(
            seq![line],
            field,
        ),
        line.project_id@ != id ==> project_total(seq![line], id, field) == 0,
    decreases more.len(),
{
    assert(seq![line].drop_last() =~= Seq::<UsageLine>::empty());
    assert(seq![line].last() == line);
    reveal_with_fuel(grand_total, 2);
    reveal_with_fuel(project_total, 2);
    if more.len() == 0 {
        assert(lines + more =~= lines);
    } else {
        assert((lines + more).drop_last() =~= lines + more.drop_last());
        assert((lines + more).last() == more.last());
        law_totals_add_up(lines, more.drop_last(), line, id, field);
    }
}

/// A project is billed the least whole amount that covers what its usage cost, and the
/// requests and tokens that it used.
pub proof fn law_projects_are_billed_what_they_used(lines: Seq<UsageLine>, p: ProjectBilling)
    requires
        project_line(lines, p),
        project_total(lines, p.project_id@, 3) >= 0,
    ensures
        p.cost.amount * 1_000_000 >= project_total(lines, p.project_id@, 3),
        (p.cost.amount - 1) * 1_000_000 < project_total(lines, p.project_id@, 3),
        p.requests == project_total(lines, p.project_id@, 0),
        p.input_tokens == project_total(lines, p.project_id@, 1),
        p.output_tokens == project_total(lines, p.project_id@, 2),
{
}

/// The fields of a sum are told apart: the requests, the tokens of either kind and the cost are
/// each one of them.
pub proof fn law_sums_keep_their_fields_apart(s: UsageSums)
    ensures
        sum_field(s, 0) == s.requests,
        sum_field(s, 1) == s.input_tokens,
        sum_field(s, 2) == s.output_tokens,
        sum_field(s, 3) == s.cost_microunits,
{
}

} // verus!
