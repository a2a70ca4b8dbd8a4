//! Filtering and sorting of process records.

use crate::process::{
    ProcessDto, ProcessFilter, ProcessStatus, ProcessView, SortDirection, SortField, SortSpec,
};
use crate::text::{
    compare_text, decimal_string, decimal_text, is_infix, lemma_lex_cmp_antisymmetric,
    lemma_lex_cmp_range, lemma_lex_cmp_transitive, lex_cmp, lower_of, lowercase, ordering_of,
    same_text, text_contains,
};
use std::cmp::Ordering;
use vstd::prelude::*;

verus! {

/// Owners whose processes count as system processes.
pub open spec fn is_system_user(u: Seq<char>) -> bool {
    u == "root"@ || u == "SYSTEM"@ || u == "NT AUTHORITY\\SYSTEM"@
}

/// A process is a system process when its pid is below 500 or it is owned
/// by one of the system accounts.
pub open spec fn is_system_view(p: ProcessView) -> bool {
    p.pid < 500 || (p.user is Some && is_system_user(p.user->0))
}

/// The search text `q` occurs, ignoring case, in the name, in the path, or in
/// the decimal pid.
pub open spec fn search_hits(q: Seq<char>, p: ProcessView) -> bool {
    let ql = lower_of(q);
    is_infix(ql, lower_of(p.name)) || (p.path is Some && is_infix(ql, lower_of(p.path->0)))
        || is_infix(ql, decimal_text(p.pid as nat))
}

/// Whether the filter admits the process, for a caller whose user name is `me`.
pub open spec fn filter_accepts(f: ProcessFilter, p: ProcessView, me: Seq<char>) -> bool {
    &&& (f.search matches Some(q) ==> search_hits(q@, p))
    &&& (f.user matches Some(u) ==> p.user == Some(u@))
    &&& (f.mine_only == Some(true) ==> p.user == Some(me))
    &&& (f.system_only == Some(true) ==> is_system_view(p))
    &&& (f.non_system_only == Some(true) ==> !is_system_view(p))
    &&& (f.status matches Some(st) ==> p.status == st)
    &&& (f.cpu_gt matches Some(c) ==> p.cpu_millipercent >= c)
    &&& (f.memory_gt_bytes matches Some(m) ==> p.memory_bytes >= m)
}

/// Whether the process counts as a system process.
pub fn is_system(p: &ProcessDto) -> (r: bool)
    ensures
        r == is_system_view(p@),
{
    if p.pid < 500 {
        return true;
    }
    match &p.user {
        Some(u) => same_text(u.as_str(), "root") || same_text(u.as_str(), "SYSTEM") || same_text(
            u.as_str(),
            "NT AUTHORITY\\SYSTEM",
        ),
        None => false,
    }
}

impl ProcessFilter {
    /// Whether `p` passes every criterion of this filter, for a caller whose
    /// user name is `current_user`.
    pub fn matches(&self, p: &ProcessDto, current_user: &str) -> (r: bool)
        ensures
            r == filter_accepts(*self, p@, current_user@),
    {
        if let Some(q) = &self.search {
            let q_lower = lowercase(q.as_str());
            let pid_str = decimal_string(p.pid);
            let name_lower = lowercase(p.name.as_str());
            let name_match = text_contains(name_lower.as_str(), q_lower.as_str());
            let path_match = match &p.path {
                Some(pa) => {
                    let pa_lower = lowercase(pa.as_str());
                    text_contains(pa_lower.as_str(), q_lower.as_str())
                },
                None => false,
            };
            let pid_match = text_contains(pid_str.as_str(), q_lower.as_str());
            if !name_match && !path_match && !pid_match {
                return false;
            }
        }
        if let Some(u) = &self.user {
            match &p.user {
                Some(pu) => {
                    if !same_text(pu.as_str(), u.as_str()) {
                        return false;
                    }
                },
                None => {
                    return false;
                },
            }
        }
        if self.mine_only == Some(true) {
            match &p.user {
                Some(pu) => {
                    if !same_text(pu.as_str(), current_user) {
                        return false;
                    }
                },
                None => {
                    return false;
                },
            }
        }
        if self.system_only == Some(true) && !is_system(p) {
            return false;
        }
        if self.non_system_only == Some(true) && is_system(p) {
            return false;
        }
        if let Some(st) = self.status {
            if p.status != st {
                return false;
            }
        }
        if let Some(c) = self.cpu_gt {
            if p.cpu_millipercent < c {
                return false;
            }
        }
        if let Some(m) = self.memory_gt_bytes {
            if p.memory_bytes < m {
                return false;
            }
        }
        true
    }
}

/// Three-way comparison of integers: -1, 0 or 1.
pub open spec fn int_cmp(x: int, y: int) -> int {
    if x < y { -1 } else if x == y { 0 } else { 1 }
}

/// Position of a status in the alphabetical order of the status names.
pub open spec fn status_rank(s: ProcessStatus) -> int {
    match s {
        ProcessStatus::Running => 0,
        ProcessStatus::Sleeping => 1,
        ProcessStatus::Stopped => 2,
        ProcessStatus::Unknown => 3,
        ProcessStatus::Zombie => 4,
    }
}

/// The owning user's name, or the empty text when it is unknown.
pub open spec fn user_or_empty(p: ProcessView) -> Seq<char> {
    match p.user {
        Some(u) => u,
        None => Seq::empty(),
    }
}

/// Ascending comparison of two records on one column: names compare
/// ignoring case, users compare exactly, an unknown start time counts as 0.
pub open spec fn field_cmp(field: SortField, a: ProcessView, b: ProcessView) -> int {
    match field {
        SortField::Pid => int_cmp(a.pid as int, b.pid as int),
        SortField::Name => lex_cmp(lower_of(a.name), lower_of(b.name)),
        SortField::CpuPercent => int_cmp(a.cpu_millipercent as int, b.cpu_millipercent as int),
        SortField::MemoryBytes => int_cmp(a.memory_bytes as int, b.memory_bytes as int),
        SortField::User => lex_cmp(user_or_empty(a), user_or_empty(b)),
        SortField::Status => int_cmp(status_rank(a.status), status_rank(b.status)),
        SortField::StartTime => int_cmp(
            a.start_time.unwrap_or(0) as int,
            b.start_time.unwrap_or(0) as int,
        ),
    }
}

/// Comparison of two records under a sort specification: negative when `a`
/// comes first, zero when they tie.
pub open spec fn sort_order(spec: SortSpec, a: ProcessView, b: ProcessView) -> int {
    match spec.direction {
        SortDirection::Asc => field_cmp(spec.field, a, b),
        SortDirection::Desc => field_cmp(spec.field, b, a),
    }
}

/// Every record comes no later than the ones after it.
pub open spec fn sorted_by(s: Seq<ProcessView>, spec: SortSpec) -> bool {
    forall|i: int, j: int| 0 <= i < j < s.len() ==> sort_order(spec, #[trigger] s[i], #[trigger] s[j]) <= 0
}

/// The models of a sequence of records.
pub open spec fn views(v: Seq<ProcessDto>) -> Seq<ProcessView> {
    v.map_values(|p: ProcessDto| p@)
}

proof fn lemma_field_cmp_antisymmetric(field: SortField, a: ProcessView, b: ProcessView)
    ensures
        field_cmp(field, a, b) == -field_cmp(field, b, a),
        -1 <= field_cmp(field, a, b) <= 1,
{
    match field {
        SortField::Name => {
            lemma_lex_cmp_antisymmetric(lower_of(a.name), lower_of(b.name));
            lemma_lex_cmp_range(lower_of(a.name), lower_of(b.name));
        },
        SortField::User => {
            lemma_lex_cmp_antisymmetric(user_or_empty(a), user_or_empty(b));
            lemma_lex_cmp_range(user_or_empty(a), user_or_empty(b));
        },
        _ => {},
    }
}

proof fn lemma_field_cmp_transitive(field: SortField, a: ProcessView, b: ProcessView, c: ProcessView)
    requires
        field_cmp(field, a, b) <= 0,
        field_cmp(field, b, c) <= 0,
    ensures
        field_cmp(field, a, c) <= 0,
{
    match field {
        SortField::Name => {
            lemma_lex_cmp_transitive(lower_of(a.name), lower_of(b.name), lower_of(c.name));
        },
        SortField::User => {
            lemma_lex_cmp_transitive(user_or_empty(a), user_or_empty(b), user_or_empty(c));
        },
        _ => {},
    }
}

/// Swapping the records negates the comparison.
pub proof fn lemma_sort_order_antisymmetric(spec: SortSpec, a: ProcessView, b: ProcessView)
    ensures
        sort_order(spec, a, b) == -sort_order(spec, b, a),
{
    lemma_field_cmp_antisymmetric(spec.field, a, b);
}

/// "Comes no later than" is transitive under every sort specification.
pub proof fn lemma_sort_order_transitive(spec: SortSpec, a: ProcessView, b: ProcessView, c: ProcessView)
    requires
        sort_order(spec, a, b) <= 0,
        sort_order(spec, b, c) <= 0,
    ensures
        sort_order(spec, a, c) <= 0,
{
    match spec.direction {
        SortDirection::Asc => lemma_field_cmp_transitive(spec.field, a, b, c),
        SortDirection::Desc => lemma_field_cmp_transitive(spec.field, c, b, a),
    }
}

fn cmp_int(x: u64, y: u64) -> (r: Ordering)
    ensures
        r == ordering_of(int_cmp(x as int, y as int)),
{
    if x < y {
        Ordering::Less
    } else if x == y {
        Ordering::Equal
    } else {
        Ordering::Greater
    }
}

fn status_index(s: ProcessStatus) -> (r: u64)
    ensures
        r as int == status_rank(s),
{
    match s {
        ProcessStatus::Running => 0,
        ProcessStatus::Sleeping => 1,
        ProcessStatus::Stopped => 2,
        ProcessStatus::Unknown => 3,
        ProcessStatus::Zombie => 4,
    }
}

fn user_text(p: &ProcessDto) -> (r: &str)
    ensures
        r@ == user_or_empty(p@),
{
    match &p.user {
        Some(u) => u.as_str(),
        None => {
            proof {
                reveal_strlit("");
            }
            ""
        },
    }
}

/// Ascending comparison of two records on one column.
pub fn compare_field(a: &ProcessDto, b: &ProcessDto, field: SortField) -> (r: Ordering)
    ensures
        r == ordering_of(field_cmp(field, a@, b@)),
{
    match field {
        SortField::Pid => cmp_int(a.pid as u64, b.pid as u64),
        SortField::Name => {
            let an = lowercase(a.name.as_str());
            let bn = lowercase(b.name.as_str());
            compare_text(an.as_str(), bn.as_str())
        },
        SortField::CpuPercent => cmp_int(a.cpu_millipercent as u64, b.cpu_millipercent as u64),
        SortField::MemoryBytes => cmp_int(a.memory_bytes, b.memory_bytes),
        SortField::User => {
            compare_text(user_text(a), user_text(b))
        },
        SortField::Status => cmp_int(status_index(a.status), status_index(b.status)),
        SortField::StartTime => {
            let sa = match a.start_time {
                Some(t) => t,
                None => 0,
            };
            let sb = match b.start_time {
                Some(t) => t,
                None => 0,
            };
            cmp_int(sa, sb)
        },
    }
}

/// Comparison of two records under a sort specification.
pub fn compare_records(a: &ProcessDto, b: &ProcessDto, spec: &SortSpec) -> (r: Ordering)
    ensures
        r == ordering_of(sort_order(*spec, a@, b@)),
{
    match spec.direction {
        SortDirection::Asc => compare_field(a, b, spec.field),
        SortDirection::Desc => compare_field(b, a, spec.field),
    }
}

/// `after` rearranges `before`: position `k` of `after` holds the record from
/// position `origin[k]` of `before`, every position is used once, and records
/// that tie under `spec` keep their relative order.
pub open spec fn stable_arrangement(
    before: Seq<ProcessView>,
    after: Seq<ProcessView>,
    origin: Seq<int>,
    spec: SortSpec,
) -> bool {
    &&& after.len() == before.len()
    &&& origin.len() == after.len()
    &&& forall|k: int| 0 <= k < after.len() ==> 0 <= #[trigger] origin[k] < before.len() && after[k] == before[origin[k]]
    &&& forall|a: int, b: int| 0 <= a < b < after.len() ==> #[trigger] origin[a] != #[trigger] origin[b]
    &&& forall|a: int, b: int| 0 <= a < b < after.len() && sort_order(spec, #[trigger] after[a], #[trigger] after[b]) == 0 ==> origin[a] < origin[b]
}

/// Sorts the records in place by the given column and direction. The result
/// holds the same records, each comes no later than the ones after it, and
/// records that tie keep their relative order.
pub fn apply_sort(processes: &mut Vec<ProcessDto>, sort: &SortSpec)
    ensures
        views(final(processes)@).to_multiset() == views(old(processes)@).to_multiset(),
        sorted_by(views(final(processes)@), *sort),
        exists|origin: Seq<int>| stable_arrangement(views(old(processes)@), views(final(processes)@), origin, *sort),
{
    let ghost input = views(processes@);
    let mut out: Vec<ProcessDto> = Vec::new();
    proof {
        let empty = views(out@);
        assert(empty =~= Seq::<ProcessView>::empty());
        vstd::multiset::lemma_multiset_empty_len(empty.to_multiset());
        vstd::seq_lib::to_multiset_len(empty);
        assert(views(processes@).to_multiset().add(empty.to_multiset()) =~= input.to_multiset());
    }
    let ghost mut origin: Seq<int> = Seq::empty();
    while processes.len() > 0
        invariant
            views(processes@).to_multiset().add(views(out@).to_multiset()) == input.to_multiset(),
            sorted_by(views(out@), *sort),
            processes.len() <= input.len(),
            views(processes@) == input.subrange(0, processes.len() as int),
            out.len() + processes.len() == input.len(),
            origin.len() == out.len(),
            forall|k: int| 0 <= k < out.len() ==> processes.len() <= #[trigger] origin[k] < input.len() && out@[k]@ == input[origin[k]],
            forall|a: int, b: int| 0 <= a < b < out.len() ==> #[trigger] origin[a] != #[trigger] origin[b],
            forall|a: int, b: int| 0 <= a < b < out.len() && sort_order(*sort, #[trigger] out@[a]@, #[trigger] out@[b]@) == 0 ==> origin[a] < origin[b],
        decreases processes.len(),
    {
        let ghost before = processes@;
        let x = processes.pop().unwrap();
        let ghost at = processes.len() as int;
        proof {
            assert(views(before) =~= views(processes@).push(x@));
            assert(views(processes@) =~= input.subrange(0, at));
            assert(x@ == views(before)[at]);
            vstd::seq_lib::to_multiset_build(views(processes@), x@);
        }
        let mut pos: usize = 0;
        while pos < out.len()
            invariant
                pos <= out.len(),
                forall|k: int| 0 <= k < pos ==> sort_order(*sort, x@, #[trigger] out@[k]@) > 0,
            ensures
                pos <= out.len(),
                forall|k: int| 0 <= k < pos ==> sort_order(*sort, x@, #[trigger] out@[k]@) > 0,
                pos < out.len() ==> sort_order(*sort, x@, out@[pos as int]@) <= 0,
            decreases out.len() - pos,
        {
            match compare_records(&x, &out[pos], sort) {
                Ordering::Greater => {},
                _ => {
                    break;
                },
            }
            pos = pos + 1;
        }
        let ghost prev = views(out@);
        let ghost prev_origin = origin;
        out.insert(pos, x);
        proof {
            origin = prev_origin.insert(pos as int, at);
            let cur = views(out@);
            assert forall|k: int| 0 <= k < out.len() implies processes.len() <= #[trigger] origin[k] < input.len() && out@[k]@ == input[origin[k]] by {
                if k < pos as int {
                    assert(out@[k]@ == prev[k]);
                } else if k > pos as int {
                    assert(out@[k]@ == prev[k - 1]);
                }
            }
            assert forall|a: int, b: int| 0 <= a < b < out.len() implies #[trigger] origin[a] != #[trigger] origin[b] by {
                if a != pos as int && b != pos as int {
                    let a0 = if a < pos as int { a } else { a - 1 };
                    let b0 = if b < pos as int { b } else { b - 1 };
                    assert(prev_origin[a0] != prev_origin[b0]);
                }
            }
            assert forall|a: int, b: int| 0 <= a < b < out.len() && sort_order(*sort, #[trigger] out@[a]@, #[trigger] out@[b]@) == 0 implies origin[a] < origin[b] by {
                assert(out@[a]@ == cur[a]);
                assert(out@[b]@ == cur[b]);
                if a == pos as int {
                } else if b == pos as int {
                    lemma_sort_order_antisymmetric(*sort, x@, prev[a]);
                } else {
                    let a0 = if a < pos as int { a } else { a - 1 };
                    let b0 = if b < pos as int { b } else { b - 1 };
                    assert(cur[a] == prev[a0]);
                    assert(cur[b] == prev[b0]);
                    assert(out@[a]@ == cur[a]);
                }
            }
            assert(cur =~= prev.insert(pos as int, x@));
            vstd::seq_lib::to_multiset_insert(prev, pos as int, x@);
            assert forall|i: int, j: int| 0 <= i < j < cur.len() implies sort_order(
                *sort,
                #[trigger] cur[i],
                #[trigger] cur[j],
            ) <= 0 by {
                if i == pos as int {
                    if j > pos as int {
                        if j - 1 > pos as int {
                            assert(sort_order(*sort, prev[pos as int], prev[j - 1]) <= 0);
                        } else {
                            lemma_sort_order_antisymmetric(*sort, prev[pos as int], prev[pos as int]);
                        }
                        lemma_sort_order_transitive(*sort, x@, prev[pos as int], prev[j - 1]);
                    }
                } else if j == pos as int {
                    lemma_sort_order_antisymmetric(*sort, x@, prev[i]);
                }
            }
        }
    }
    proof {
        assert(views(processes@) =~= Seq::<ProcessView>::empty());
        vstd::seq_lib::to_multiset_len(views(processes@));
        vstd::multiset::lemma_multiset_empty_len(views(processes@).to_multiset());
        assert(views(processes@).to_multiset().add(views(out@).to_multiset()) =~= views(out@).to_multiset());
        assert(stable_arrangement(input, views(out@), origin, *sort));
    }
    *processes = out;
}

} // verus!
