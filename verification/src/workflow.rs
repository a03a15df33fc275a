//! Workflow targets and the list operations shared by all trigger kinds.
//!
//! Every trigger actor owns a private list of workflow targets. Two targets
//! are the same registration when their URL and name agree; adding a target
//! first drops any previous registration of the same pair, so the list never
//! holds duplicates once built through these operations.

use vstd::prelude::*;

verus! {

/// One workflow target: an HTTP destination plus metadata, notified on each
/// event.
#[derive(Clone, Debug)]
pub struct WorkflowInfo {
    pub workflow_name: String,
    pub workflow_url: String,
    pub workflow_state: String,
}

impl WorkflowInfo {
    /// A copy whose fields equal this one's.
    pub fn duplicate(&self) -> (r: WorkflowInfo)
        ensures
            r == *self,
    {
        WorkflowInfo {
            workflow_name: self.workflow_name.clone(),
            workflow_url: self.workflow_url.clone(),
            workflow_state: self.workflow_state.clone(),
        }
    }
}

/// Two targets name the same registration: URL and name both agree. The
/// delivery-state blob takes no part in identity.
pub open spec fn same_target(a: WorkflowInfo, b: WorkflowInfo) -> bool {
    a.workflow_url@ == b.workflow_url@ && a.workflow_name@ == b.workflow_name@
}

/// Some element of `s` names the same registration as `w`.
pub open spec fn has_target(s: Seq<WorkflowInfo>, w: WorkflowInfo) -> bool {
    exists|i: int| 0 <= i < s.len() && same_target(s[i], w)
}

/// `i` is the position of the first element of `s` naming the same
/// registration as `w`.
pub open spec fn is_first_target(s: Seq<WorkflowInfo>, w: WorkflowInfo, i: int) -> bool {
    &&& 0 <= i < s.len()
    &&& same_target(s[i], w)
    &&& forall|j: int| 0 <= j < i ==> !same_target(s[j], w)
}

/// The position of the first element of `s` naming the same registration as
/// `w`; meaningful only when `has_target(s, w)` holds.
pub open spec fn first_target(s: Seq<WorkflowInfo>, w: WorkflowInfo) -> int {
    choose|i: int| is_first_target(s, w, i)
}

/// Whenever some element matches, a unique first match exists.
pub proof fn lemma_first_target_exists(s: Seq<WorkflowInfo>, w: WorkflowInfo)
    requires
        has_target(s, w),
    ensures
        is_first_target(s, w, first_target(s, w)),
    decreases s.len(),
{
    if same_target(s[0], w) {
        assert(is_first_target(s, w, 0));
    } else {
        let sub = s.drop_first();
        assert(has_target(sub, w)) by {
            let i = choose|i: int| 0 <= i < s.len() && same_target(s[i], w);
            assert(sub[i - 1] == s[i]);
        }
        lemma_first_target_exists(sub, w);
        let f = first_target(sub, w);
        assert(s[f + 1] == sub[f]);
        assert forall|j: int| 0 <= j < f + 1 implies !same_target(s[j], w) by {
            if j > 0 {
                assert(sub[j - 1] == s[j]);
            }
        }
        assert(is_first_target(s, w, f + 1));
    }
}

/// The list after removing the first registration matching `w`, if any.
pub open spec fn remove_first_target(s: Seq<WorkflowInfo>, w: WorkflowInfo) -> Seq<WorkflowInfo> {
    if has_target(s, w) {
        s.remove(first_target(s, w))
    } else {
        s
    }
}

/// The list after adding `w`: any previous registration of the same pair is
/// dropped, and `w` goes to the end.
pub open spec fn add_one_target(s: Seq<WorkflowInfo>, w: WorkflowInfo) -> Seq<WorkflowInfo> {
    remove_first_target(s, w).push(w)
}

/// The list after adding every element of `ws` in order.
pub open spec fn add_targets(s: Seq<WorkflowInfo>, ws: Seq<WorkflowInfo>) -> Seq<WorkflowInfo>
    decreases ws.len(),
{
    if ws.len() == 0 {
        s
    } else {
        add_targets(add_one_target(s, ws[0]), ws.drop_first())
    }
}

/// The list after removing, for each element of `ws` in order, its first
/// matching registration.
pub open spec fn remove_targets(s: Seq<WorkflowInfo>, ws: Seq<WorkflowInfo>) -> Seq<WorkflowInfo>
    decreases ws.len(),
{
    if ws.len() == 0 {
        s
    } else {
        remove_targets(remove_first_target(s, ws[0]), ws.drop_first())
    }
}

/// Folding over a list extended by one element applies that element last.
pub proof fn lemma_add_targets_push(s: Seq<WorkflowInfo>, ws: Seq<WorkflowInfo>, w: WorkflowInfo)
    ensures
        add_targets(s, ws.push(w)) == add_one_target(add_targets(s, ws), w),
    decreases ws.len(),
{
    let e = ws.push(w);
    if ws.len() == 0 {
        assert(e[0] == w);
        assert(e.drop_first() =~= Seq::<WorkflowInfo>::empty());
        assert(add_targets(s, e) == add_targets(add_one_target(s, w), e.drop_first()));
        assert(add_targets(add_one_target(s, w), Seq::<WorkflowInfo>::empty())
            == add_one_target(s, w));
        assert(add_targets(s, ws) == s);
    } else {
        assert(e[0] == ws[0]);
        assert(e.drop_first() =~= ws.drop_first().push(w));
        lemma_add_targets_push(add_one_target(s, ws[0]), ws.drop_first(), w);
        assert(add_targets(s, e) == add_targets(add_one_target(s, ws[0]), e.drop_first()));
        assert(add_targets(s, ws) == add_targets(add_one_target(s, ws[0]), ws.drop_first()));
    }
}

/// Folding over a list extended by one element applies that element last.
pub proof fn lemma_remove_targets_push(s: Seq<WorkflowInfo>, ws: Seq<WorkflowInfo>, w: WorkflowInfo)
    ensures
        remove_targets(s, ws.push(w)) == remove_first_target(remove_targets(s, ws), w),
    decreases ws.len(),
{
    let e = ws.push(w);
    if ws.len() == 0 {
        assert(e[0] == w);
        assert(e.drop_first() =~= Seq::<WorkflowInfo>::empty());
        assert(remove_targets(s, e) == remove_targets(remove_first_target(s, w), e.drop_first()));
        assert(remove_targets(remove_first_target(s, w), Seq::<WorkflowInfo>::empty())
            == remove_first_target(s, w));
        assert(remove_targets(s, ws) == s);
    } else {
        assert(e[0] == ws[0]);
        assert(e.drop_first() =~= ws.drop_first().push(w));
        lemma_remove_targets_push(remove_first_target(s, ws[0]), ws.drop_first(), w);
        assert(remove_targets(s, e) == remove_targets(remove_first_target(s, ws[0]), e.drop_first()));
        assert(remove_targets(s, ws) == remove_targets(remove_first_target(s, ws[0]), ws.drop_first()));
    }
}

/// The position of the first element of `workflows` with the same URL and
/// name as `workflow_to_search`, or -1 when none matches.
pub fn find_element_index(
    workflow_to_search: &WorkflowInfo,
    workflows: &Vec<WorkflowInfo>,
) -> (r: isize)
    requires
        workflows@.len() <= isize::MAX as int,
    ensures
        r == -1 || r >= 0,
        r == -1 ==> !has_target(workflows@, *workflow_to_search),
        r >= 0 ==> is_first_target(workflows@, *workflow_to_search, r as int)
            && first_target(workflows@, *workflow_to_search) == r as int,
{
    let n = workflows.len();
    for i in 0..n
        invariant
            n == workflows@.len(),
            n <= isize::MAX as int,
            forall|j: int| 0 <= j < i ==> !same_target(workflows@[j], *workflow_to_search),
    {
        if workflows[i].workflow_url == workflow_to_search.workflow_url
            && workflows[i].workflow_name == workflow_to_search.workflow_name {
            proof {
                assert(is_first_target(workflows@, *workflow_to_search, i as int));
                let f = first_target(workflows@, *workflow_to_search);
                assert(is_first_target(workflows@, *workflow_to_search, f)) by {
                    assert(is_first_target(workflows@, *workflow_to_search, i as int));
                }
                if f < i as int {
                    assert(same_target(workflows@[f], *workflow_to_search));
                    assert(false);
                }
                if f > i as int {
                    assert(!same_target(workflows@[i as int], *workflow_to_search));
                    assert(false);
                }
                assert(f == i as int);
                assert(i as isize as int == i as int);
            }
            return i as isize;
        }
    }
    -1
}

/// Remove the first registration matching `w`, if any.
pub fn remove_matching_workflow(workflows: &mut Vec<WorkflowInfo>, w: &WorkflowInfo)
    requires
        old(workflows)@.len() <= isize::MAX as int,
    ensures
        final(workflows)@ == remove_first_target(old(workflows)@, *w),
{
    let idx = find_element_index(w, workflows);
    if idx >= 0 {
        workflows.remove(idx as usize);
    }
}

/// Add every element of `to_add`, dropping any previous registration of the
/// same (URL, name) pair first, so each pair occurs at most once afterwards
/// among the added ones.
pub fn add_workflows(workflows: &mut Vec<WorkflowInfo>, to_add: &Vec<WorkflowInfo>)
    requires
        old(workflows)@.len() + to_add@.len() <= isize::MAX as int,
    ensures
        final(workflows)@ == add_targets(old(workflows)@, to_add@),
{
    let n = to_add.len();
    for i in 0..n
        invariant
            n == to_add@.len(),
            workflows@ == add_targets(old(workflows)@, to_add@.take(i as int)),
            workflows@.len() <= old(workflows)@.len() + i,
            old(workflows)@.len() + to_add@.len() <= isize::MAX as int,
    {
        let w = to_add[i].duplicate();
        proof {
            lemma_add_targets_push(old(workflows)@, to_add@.take(i as int), to_add@[i as int]);
            assert(to_add@.take(i as int).push(to_add@[i as int]) =~= to_add@.take(i + 1 as int));
            if has_target(workflows@, w) {
                lemma_first_target_exists(workflows@, w);
            }
        }
        remove_matching_workflow(workflows, &w);
        workflows.push(w);
    }
    proof {
        assert(to_add@.take(n as int) =~= to_add@);
    }
}

/// Remove, for each element of `to_remove`, its first matching registration.
pub fn remove_workflows(workflows: &mut Vec<WorkflowInfo>, to_remove: &Vec<WorkflowInfo>)
    requires
        old(workflows)@.len() <= isize::MAX as int,
    ensures
        final(workflows)@ == remove_targets(old(workflows)@, to_remove@),
{
    let n = to_remove.len();
    for i in 0..n
        invariant
            n == to_remove@.len(),
            workflows@ == remove_targets(old(workflows)@, to_remove@.take(i as int)),
            workflows@.len() <= old(workflows)@.len(),
            old(workflows)@.len() <= isize::MAX as int,
    {
        proof {
            lemma_remove_targets_push(old(workflows)@, to_remove@.take(i as int), to_remove@[i as int]);
            assert(to_remove@.take(i as int).push(to_remove@[i as int]) =~= to_remove@.take(i + 1 as int));
            if has_target(workflows@, to_remove@[i as int]) {
                lemma_first_target_exists(workflows@, to_remove@[i as int]);
            }
        }
        let w = to_remove[i].duplicate();
        remove_matching_workflow(workflows, &w);
    }
    proof {
        assert(to_remove@.take(n as int) =~= to_remove@);
    }
}

/// Adding a registration that is not yet in the list and then removing the
/// same (URL, name) pair restores the list exactly.
pub proof fn lemma_add_then_remove_is_identity(s: Seq<WorkflowInfo>, w: WorkflowInfo)
    requires
        !has_target(s, w),
    ensures
        remove_targets(add_targets(s, seq![w]), seq![w]) == s,
{
    let one = seq![w];
    assert(one.len() == 1 && one[0] == w);
    assert(one.drop_first() =~= Seq::<WorkflowInfo>::empty());
    assert(add_targets(s, one) == add_targets(add_one_target(s, w), one.drop_first()));
    assert(add_targets(add_one_target(s, w), Seq::<WorkflowInfo>::empty()) == add_one_target(s, w));
    assert(add_targets(s, one) == add_one_target(s, w));
    assert(add_one_target(s, w) == s.push(w));
    let t = s.push(w);
    assert(same_target(t[s.len() as int], w));
    assert(has_target(t, w));
    assert forall|j: int| 0 <= j < s.len() implies !same_target(t[j], w) by {
        assert(t[j] == s[j]);
    }
    assert(is_first_target(t, w, s.len() as int));
    lemma_first_target_exists(t, w);
    let f = first_target(t, w);
    assert(f == s.len() as int);
    assert(remove_first_target(t, w) =~= s);
    assert(remove_targets(t, one) == remove_targets(remove_first_target(t, w), one.drop_first()));
    assert(remove_targets(remove_first_target(t, w), Seq::<WorkflowInfo>::empty())
        == remove_first_target(t, w));
    assert(remove_targets(t, one) == remove_first_target(t, w));
}

} // verus!
