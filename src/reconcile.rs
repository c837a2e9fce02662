//! Reconciles the markers found in code with the tickets asked for: by one
//! ticket, or by the tickets that a branch claims to resolve.

use vstd::prelude::*;

use crate::git::views;
use crate::todos::{models, opt_view, TodoInCode, TodoModel};

verus! {

/// The markers of `ms` that name `ticket`, in order; all of them where no
/// ticket is given.
pub open spec fn with_ticket(ms: Seq<TodoModel>, ticket: Option<Seq<char>>) -> Seq<TodoModel>
    decreases ms.len(),
{
    if ms.len() == 0 {
        Seq::empty()
    } else {
        let before = with_ticket(ms.drop_last(), ticket);
        match ticket {
            Some(t) if ms.last().ticket_id != t => before,
            _ => before.push(ms.last()),
        }
    }
}

/// The markers of `ms` whose ticket is one of `ids`, in order.
pub open spec fn claimed(ms: Seq<TodoModel>, ids: Seq<Seq<char>>) -> Seq<TodoModel>
    decreases ms.len(),
{
    if ms.len() == 0 {
        Seq::empty()
    } else {
        let before = claimed(ms.drop_last(), ids);
        if ids.contains(ms.last().ticket_id) {
            before.push(ms.last())
        } else {
            before
        }
    }
}

fn copy_todo(t: &TodoInCode) -> (r: TodoInCode)
    ensures
        r@ == t@,
{
    TodoInCode {
        file: t.file.clone(),
        line: t.line,
        ticket_id: t.ticket_id.clone(),
        message: match &t.message {
            Some(m) => Some(m.clone()),
            None => None,
        },
    }
}

fn contains_id(ids: &Vec<String>, id: &String) -> (r: bool)
    ensures
        r == views(ids@).contains(id@),
{
    let mut k: usize = 0;
    while k < ids.len()
        invariant
            k <= ids.len(),
            forall|j: int| 0 <= j < k ==> ids@[j]@ != id@,
        decreases ids.len() - k,
    {
        if ids[k] == *id {
            assert(views(ids@)[k as int] == id@);
            return true;
        }
        k = k + 1;
    }
    assert(!views(ids@).contains(id@)) by {
        if views(ids@).contains(id@) {
            let j = choose|j: int| 0 <= j < views(ids@).len() && views(ids@)[j] == id@;
            assert(ids@[j]@ == id@);
        }
    }
    false
}

/// The markers that name the ticket `issue`; all of them where it is `None`.
pub fn filter_by_ticket(todos: &Vec<TodoInCode>, issue: &Option<String>) -> (r: Vec<TodoInCode>)
    ensures
        models(r@) == with_ticket(models(todos@), opt_view(*issue)),
{
    let mut out: Vec<TodoInCode> = Vec::new();
    let mut k: usize = 0;
    while k < todos.len()
        invariant
            k <= todos.len(),
            models(out@) == with_ticket(models(todos@).take(k as int), opt_view(*issue)),
        decreases todos.len() - k,
    {
        assert(models(todos@).take(k + 1).drop_last() =~= models(todos@).take(k as int));
        let keep = match issue {
            Some(t) => todos[k].ticket_id == *t,
            None => true,
        };
        if keep {
            let item = copy_todo(&todos[k]);
            let ghost prev = out@;
            out.push(item);
            assert(models(out@) =~= models(prev).push(item@));
        }
        k = k + 1;
    }
    assert(models(todos@).take(k as int) =~= models(todos@));
    out
}

/// The markers whose ticket is one of `resolving`: work that the branch
/// claims to resolve and that is still marked as pending in code.
pub fn unresolved_todos(todos: &Vec<TodoInCode>, resolving: &Vec<String>) -> (r: Vec<TodoInCode>)
    ensures
        models(r@) == claimed(models(todos@), views(resolving@)),
{
    let mut out: Vec<TodoInCode> = Vec::new();
    let mut k: usize = 0;
    while k < todos.len()
        invariant
            k <= todos.len(),
            models(out@) == claimed(models(todos@).take(k as int), views(resolving@)),
        decreases todos.len() - k,
    {
        assert(models(todos@).take(k + 1).drop_last() =~= models(todos@).take(k as int));
        if contains_id(resolving, &todos[k].ticket_id) {
            let item = copy_todo(&todos[k]);
            let ghost prev = out@;
            out.push(item);
            assert(models(out@) =~= models(prev).push(item@));
        }
        k = k + 1;
    }
    assert(models(todos@).take(k as int) =~= models(todos@));
    out
}

/// Checks a branch: fails with the unresolved markers where there are any.
pub fn check_branch(todos: &Vec<TodoInCode>, resolving: &Vec<String>) -> (r: Result<
    (),
    Vec<TodoInCode>,
>)
    ensures
        r is Ok <==> claimed(models(todos@), views(resolving@)).len() == 0,
        r matches Err(v) ==> models(v@) == claimed(models(todos@), views(resolving@)),
{
    let unresolved = unresolved_todos(todos, resolving);
    if unresolved.len() == 0 {
        Ok(())
    } else {
        Err(unresolved)
    }
}

/// Filtering by no ticket keeps every marker; filtering by a ticket keeps
/// only markers that name it.
pub proof fn lemma_filter_by_ticket(ms: Seq<TodoModel>, ticket: Seq<char>)
    ensures
        with_ticket(ms, None) == ms,
        forall|j: int|
            0 <= j < with_ticket(ms, Some(ticket)).len() ==> (#[trigger] with_ticket(
                ms,
                Some(ticket),
            )[j]).ticket_id == ticket,
    decreases ms.len(),
{
    if ms.len() > 0 {
        lemma_filter_by_ticket(ms.drop_last(), ticket);
        assert(ms.drop_last().push(ms.last()) =~= ms);
    } else {
        assert(ms =~= Seq::<TodoModel>::empty());
    }
}

/// A marker whose ticket the branch claims to resolve is reported as
/// unresolved, so the branch check fails.
pub proof fn lemma_claimed_marker_is_reported(ms: Seq<TodoModel>, ids: Seq<Seq<char>>, k: int)
    requires
        0 <= k < ms.len(),
        ids.contains(ms[k].ticket_id),
    ensures
        claimed(ms, ids).contains(ms[k]),
        claimed(ms, ids).len() > 0,
    decreases ms.len(),
{
    if k < ms.len() - 1 {
        assert(ms.drop_last()[k] == ms[k]);
        lemma_claimed_marker_is_reported(ms.drop_last(), ids, k);
        let before = claimed(ms.drop_last(), ids);
        let j = choose|j: int| 0 <= j < before.len() && before[j] == ms[k];
        if ids.contains(ms.last().ticket_id) {
            assert(before.push(ms.last())[j] == ms[k]);
        }
    } else {
        assert(claimed(ms, ids).last() == ms[k]);
    }
}

/// Where no marker names a ticket the branch claims to resolve, nothing is
/// reported and the branch check passes.
pub proof fn lemma_unclaimed_markers_pass(ms: Seq<TodoModel>, ids: Seq<Seq<char>>)
    requires
        forall|k: int| 0 <= k < ms.len() ==> !ids.contains(#[trigger] ms[k].ticket_id),
    ensures
        claimed(ms, ids) == Seq::<TodoModel>::empty(),
    decreases ms.len(),
{
    if ms.len() > 0 {
        assert(!ids.contains(ms[ms.len() - 1].ticket_id));
        assert forall|k: int| 0 <= k < ms.len() - 1 implies !ids.contains(
            #[trigger] ms.drop_last()[k].ticket_id,
        ) by {
            assert(ms.drop_last()[k] == ms[k]);
        }
        lemma_unclaimed_markers_pass(ms.drop_last(), ids);
    }
}

} // verus!
