//! The consolidated status of a network, from what each instance's own
//! status endpoint answered.
use vstd::prelude::*;

verus! {

/// The last block an instance added.
#[derive(PartialEq, Eq, Structural, Clone, Copy, Debug)]
pub struct BlockInfo {
    pub era_id: u64,
    pub height: u64,
}

/// What asking an instance for its status gave.
#[derive(PartialEq, Eq, Structural, Clone, Copy, Debug)]
pub enum Probe {
    /// No answer: refused, timed out, not running.
    Unreachable,
    /// A well-formed status, with the last added block when there is one.
    Answered(Option<BlockInfo>),
    /// An answer that is not a status.
    Malformed,
}

/// The status of one instance, as shown to the operator.
#[derive(Debug)]
pub struct InstanceStatus {
    pub name: String,
    pub validator: bool,
    pub running: bool,
    pub info: Option<BlockInfo>,
}

/// Why the status of a network cannot be shown.
#[derive(PartialEq, Eq, Structural, Clone, Copy, Debug)]
pub enum GatherError {
    /// A running instance answered with something that is not a status.
    MalformedStatus,
}

/// `a` comes before `b` or equals it, character by character.
pub open spec fn lex_le(a: Seq<char>, b: Seq<char>) -> bool
    decreases a.len(),
{
    if a.len() == 0 {
        true
    } else if b.len() == 0 {
        false
    } else if a[0] != b[0] {
        (a[0] as int) < (b[0] as int)
    } else {
        lex_le(a.drop_first(), b.drop_first())
    }
}

proof fn lemma_lex_total(a: Seq<char>, b: Seq<char>)
    ensures
        lex_le(a, b) || lex_le(b, a),
    decreases a.len(),
{
    if a.len() > 0 && b.len() > 0 && a[0] == b[0] {
        lemma_lex_total(a.drop_first(), b.drop_first());
    }
}

proof fn lemma_lex_trans(a: Seq<char>, b: Seq<char>, c: Seq<char>)
    requires
        lex_le(a, b),
        lex_le(b, c),
    ensures
        lex_le(a, c),
    decreases a.len(),
{
    if a.len() > 0 && b.len() > 0 && c.len() > 0 && a[0] == b[0] && b[0] == c[0] {
        lemma_lex_trans(a.drop_first(), b.drop_first(), c.drop_first());
    }
}

/// Whether `a` comes before `b` or equals it.
pub fn name_le(a: &str, b: &str) -> (r: bool)
    ensures
        r == lex_le(a@, b@),
{
    let n = a.unicode_len();
    let m = b.unicode_len();
    let mut i: usize = 0;
    proof {
        assert(a@.subrange(0, n as int) =~= a@);
        assert(b@.subrange(0, m as int) =~= b@);
    }
    while i < n && i < m
        invariant
            n == a@.len(),
            m == b@.len(),
            i <= n,
            i <= m,
            lex_le(a@, b@) == lex_le(a@.subrange(i as int, n as int), b@.subrange(i as int, m as int)),
        decreases n - i,
    {
        let x = a.get_char(i);
        let y = b.get_char(i);
        proof {
            let sa = a@.subrange(i as int, n as int);
            let sb = b@.subrange(i as int, m as int);
            assert(sa[0] == x);
            assert(sb[0] == y);
            assert(sa.drop_first() =~= a@.subrange(i + 1, n as int));
            assert(sb.drop_first() =~= b@.subrange(i + 1, m as int));
        }
        if x != y {
            return (x as u32) < (y as u32);
        }
        i = i + 1;
    }
    i == n
}

/// The status that an instance's probe shows.
pub open spec fn status_of(item: (String, bool, Probe)) -> InstanceStatus {
    InstanceStatus {
        name: item.0,
        validator: item.1,
        running: item.2 is Answered,
        info: match item.2 {
            Probe::Answered(info) => info,
            _ => None,
        },
    }
}

pub open spec fn sorted_by_name(s: Seq<InstanceStatus>) -> bool {
    forall|i: int, j: int| 0 <= i < j < s.len() ==> lex_le(s[i].name@, s[j].name@)
}

/// The status of every instance, sorted by name, from the probe of each
/// (its name, whether it validates, what its endpoint answered). An
/// instance that does not answer is shown as not running; one answer that
/// is not a status fails the whole view.
pub fn gather(items: Vec<(String, bool, Probe)>) -> (r: Result<Vec<InstanceStatus>, GatherError>)
    ensures
        r is Err <==> exists|i: int| 0 <= i < items@.len() && items@[i].2 == Probe::Malformed,
        r is Ok ==> {
            let s = r->Ok_0@;
            &&& sorted_by_name(s)
            &&& s.to_multiset() == items@.map_values(|it: (String, bool, Probe)| status_of(it)).to_multiset()
        },
{
    let ghost all = items@;
    let mut rest = items;
    let mut result: Vec<InstanceStatus> = Vec::new();
    let ghost mut k: int = 0;
    proof {
        broadcast use vstd::seq_lib::group_to_multiset_ensures;
        assert(all.subrange(0, 0).map_values(|it: (String, bool, Probe)| status_of(it)) =~= Seq::<InstanceStatus>::empty());
    }
    while rest.len() > 0
        invariant
            0 <= k <= all.len(),
            all == items@,
            rest@ == all.subrange(k, all.len() as int),
            forall|j: int| 0 <= j < k ==> all[j].2 != Probe::Malformed,
            sorted_by_name(result@),
            result@.to_multiset() == all.subrange(0, k).map_values(
                |it: (String, bool, Probe)| status_of(it),
            ).to_multiset(),
        decreases rest@.len(),
    {
        let (name, validator, probe) = rest.remove(0);
        proof {
            assert(all[k] == (name, validator, probe));
        }
        let status = match probe {
            Probe::Malformed => {
                return Err(GatherError::MalformedStatus);
            },
            Probe::Unreachable => InstanceStatus { name, validator, running: false, info: None },
            Probe::Answered(info) => InstanceStatus { name, validator, running: true, info },
        };
        proof {
            assert(status == status_of(all[k]));
        }
        let mut p: usize = 0;
        while p < result.len() && name_le(result[p].name.as_str(), status.name.as_str())
            invariant
                p <= result@.len(),
                forall|q: int| 0 <= q < p ==> lex_le(result@[q].name@, status.name@),
            decreases result@.len() - p,
        {
            p = p + 1;
        }
        let ghost before = result@;
        result.insert(p, status);
        proof {
            broadcast use vstd::seq_lib::group_to_multiset_ensures;
            if p < before.len() {
                lemma_lex_total(before[p as int].name@, status.name@);
            }
            assert forall|i: int, j: int| 0 <= i < j < result@.len() implies lex_le(
                result@[i].name@,
                result@[j].name@,
            ) by {
                if j == p {
                } else if i == p {
                    if j - 1 != p {
                        lemma_lex_trans(status.name@, before[p as int].name@, before[j - 1].name@);
                    }
                } else if i < p && j > p {
                    lemma_lex_total(before[p as int].name@, status.name@);
                    lemma_lex_trans(before[i].name@, status.name@, before[p as int].name@);
                    if j - 1 != p {
                        lemma_lex_trans(before[i].name@, before[p as int].name@, before[j - 1].name@);
                    }
                }
            }
            assert(result@.remove(p as int) =~= before);
            assert(result@[p as int] == status);
            let f = |it: (String, bool, Probe)| status_of(it);
            assert(all.subrange(0, k + 1).map_values(f) =~= all.subrange(0, k).map_values(f).push(
                status,
            ));
            assert(result@.to_multiset() =~= before.to_multiset().insert(status));
            k = k + 1;
        }
    }
    proof {
        assert(all.subrange(0, all.len() as int) =~= all);
    }
    Ok(result)
}

} // verus!
