//! All plans in progress, each identified by a one-byte id, and the
//! operations that act on one of them by id.

use vstd::prelude::*;
use std::collections::HashMap;
use crate::context::{
    add_task_post, change_level_post, complete_task_post, distill, generate_lease_post, move_to_post, notes_post,
    opt_lease_value, remove_task_post, res_notes, res_task, res_text, task_notes_result, uncomplete_task_post,
    Context, ContextView,
};
use crate::distilled::{Current, PlanResponse};
use crate::external::{random_below, random_seed};
use crate::lease::{lease_value, Lease};
use crate::levels::default_levels;
use crate::plan::{current_with_history, levels_view, strings_view, Plan};
use crate::task::{has_task, opt_text, Task, TaskView};
use crate::text::{decimal, push_decimal};

verus! {

broadcast use vstd::std_specs::hash::group_hash_axioms;

/// Why an operation on a plan could not be carried out.
#[derive(Clone, Debug)]
pub enum PlanError {
    /// No plan has the id.
    PlanNotFound(Lease),
    /// The shared state could not be locked.
    LockError,
    /// Any other failure, described.
    Internal(String),
}

/// The message for a plan error, as its `Display` words it; a missing
/// plan's id is shown in its `Debug` form, such as `Lease(5)`.
pub open spec fn plan_error_text(e: PlanError) -> Seq<char> {
    match e {
        PlanError::PlanNotFound(id) => "Plan with ID 'Lease("@ + decimal(lease_value(id) as nat) + ")' not found"@,
        PlanError::LockError => "Failed to acquire lock for plan operations"@,
        PlanError::Internal(m) => "Internal error: "@ + m@,
    }
}

impl PlanError {
    /// The message for this error.
    pub fn message(&self) -> (s: String)
        ensures
            s@ == plan_error_text(*self),
    {
        match self {
            PlanError::PlanNotFound(id) => {
                let mut s = String::from_str("Plan with ID 'Lease(");
                push_decimal(&mut s, id.value() as usize);
                s.append(")' not found");
                s
            },
            PlanError::LockError => String::from_str("Failed to acquire lock for plan operations"),
            PlanError::Internal(m) => {
                let mut s = String::from_str("Internal error: ");
                s.append(m.as_str());
                s
            },
        }
    }
}

/// All plans in progress.
pub struct Core {
    plans: HashMap<u8, Context>,
}

impl View for Core {
    type V = Map<u8, ContextView>;

    closed spec fn view(&self) -> Map<u8, ContextView> {
        self.plans@.map_values(|c: Context| c@)
    }
}

impl Default for Core {
    /// No plans.
    fn default() -> (c: Self)
        ensures
            c.wf(),
            c@ == Map::<u8, ContextView>::empty(),
    {
        Core::new()
    }
}

/// The state of a newly created plan with the given goal and notes.
pub open spec fn fresh_plan(goal: Seq<char>, notes: Option<Seq<char>>) -> ContextView {
    ContextView {
        plan: crate::plan::PlanView {
            root: TaskView {
                description: "root"@,
                completed: false,
                subtasks: Seq::empty(),
                level_index: None,
                completion_summary: None,
                notes: None,
            },
            levels: crate::levels::default_levels_view(),
            goal: Some(goal),
            notes,
        },
        cursor: Seq::empty(),
        history: Seq::empty(),
        leases: Map::empty(),
    }
}

/// The answer to a completion: whether the task was completed (`false`
/// where it was refused), with the same context, and the reason for a
/// refusal.
pub fn completion_answer(resp: PlanResponse<Result<bool, String>>) -> (r: (PlanResponse<bool>, Option<String>))
    ensures
        r.0.distilled_context == resp.distilled_context,
        r.0.suggested_followups@.len() == 0,
        r.0.reminder is None,
        match resp.res {
            Ok(b) => r.0.res == b && r.1 is None,
            Err(e) => !r.0.res && r.1 == Some(e),
        },
{
    match resp.res {
        Ok(success) => (PlanResponse::new(success, resp.distilled_context), None),
        Err(e) => (PlanResponse::new(false, resp.distilled_context), Some(e)),
    }
}

/// The reason given when a plan is to be created under an id that is
/// taken.
pub open spec fn plan_taken_text(id: u8) -> Seq<char> {
    "Plan "@ + decimal(id as nat) + " already exists"@
}

/// The id of the plan that the server places the example in: 0.
pub fn default_plan_id() -> (l: Lease)
    ensures
        lease_value(l) == 0,
{
    Lease::new(0)
}

impl Core {
    /// Every plan's context is internally consistent.
    pub closed spec fn wf(&self) -> bool {
        forall|k: u8| #[trigger] self.plans@.contains_key(k) ==> self.plans@[k].wf()
    }

    /// No plans.
    pub fn new() -> (c: Self)
        ensures
            c.wf(),
            c@ == Map::<u8, ContextView>::empty(),
    {
        let c = Core { plans: HashMap::new() };
        assert(c@ =~= Map::<u8, ContextView>::empty());
        c
    }

    /// Whether some id is not taken by a plan.
    pub fn has_free_id(&self) -> (b: bool)
        ensures
            b == exists|k: u8| !self@.contains_key(k),
    {
        let mut v: usize = 0;
        while v < 256
            invariant
                v <= 256,
                forall|k: u8| (k as int) < v ==> #[trigger] self@.contains_key(k),
            decreases 256 - v,
        {
            if !self.plans.contains_key(&(v as u8)) {
                assert(!self@.contains_key(v as u8));
                return true;
            }
            v = v + 1;
        }
        false
    }

    /// Creates a plan with the default levels and the given goal and notes,
    /// under an id drawn at random from those not taken, and answers with
    /// that id. Its generator is seeded at random.
    pub fn create_plan(&mut self, goal: String, notes: Option<String>) -> (r: Result<Lease, PlanError>)
        requires
            old(self).wf(),
            exists|k: u8| !old(self)@.contains_key(k),
        ensures
            final(self).wf(),
            (r matches Ok(id) && !old(self)@.contains_key(lease_value(id)) && final(self)@ == old(self)@.insert(
                lease_value(id),
                fresh_plan(goal@, opt_text(notes)),
            )),
    {
        let mut free: Vec<u8> = Vec::new();
        let mut v: usize = 0;
        while v < 256
            invariant
                v <= 256,
                forall|i: int| 0 <= i < free@.len() ==> !self@.contains_key(#[trigger] free@[i]),
                forall|k: u8| (k as int) < v && !#[trigger] self@.contains_key(k) ==> exists|i: int| 0 <= i < free@.len() && #[trigger] free@[i] == k,
            decreases 256 - v,
        {
            let k = v as u8;
            if !self.plans.contains_key(&k) {
                let ghost before = free@;
                free.push(k);
                proof {
                    assert forall|q: u8| (q as int) < v + 1 && !#[trigger] self@.contains_key(q) implies exists|i: int| 0 <= i < free@.len() && #[trigger] free@[i] == q by {
                        if q == k {
                            assert(free@[free@.len() - 1] == k);
                        } else {
                            let i = choose|i: int| 0 <= i < before.len() && #[trigger] before[i] == q;
                            assert(free@[i] == before[i]);
                        }
                    }
                }
            }
            v = v + 1;
        }
        proof {
            let k = choose|k: u8| !self@.contains_key(k);
            assert(!self@.contains_key(k));
            assert((k as int) < 256);
        }
        let pick = random_below(free.len());
        let new_id = free[pick];
        let levels = default_levels();
        assert(levels_view(levels@) =~= levels@.map_values(|l: crate::levels::Level| l@));
        let plan = Plan::new(levels, Some(goal), notes);
        let context = Context::new_with_seed(plan, random_seed());
        self.plans.insert(new_id, context);
        proof {
            assert(self@ =~= old(self)@.insert(new_id, fresh_plan(goal@, opt_text(notes))));
        }
        Ok(Lease::new(new_id))
    }

    /// Creates a plan with the default levels and the given goal and notes
    /// under the id `id`, where no plan has it; its generator is seeded at
    /// random. Where the id is taken, nothing changes.
    pub fn create_plan_at(&mut self, id: &Lease, goal: String, notes: Option<String>) -> (r: Result<(), PlanError>)
        requires
            old(self).wf(),
        ensures
            final(self).wf(),
            !old(self)@.contains_key(lease_value(*id)) ==> r is Ok && final(self)@ == old(self)@.insert(
                lease_value(*id),
                fresh_plan(goal@, opt_text(notes)),
            ),
            old(self)@.contains_key(lease_value(*id)) ==> final(self)@ == old(self)@ && (r matches Err(
                PlanError::Internal(m),
            ) && m@ == plan_taken_text(lease_value(*id))),
    {
        if self.plans.contains_key(&id.0) {
            let mut text = String::from_str("Plan ");
            push_decimal(&mut text, id.0 as usize);
            text.append(" already exists");
            return Err(PlanError::Internal(text));
        }
        let levels = default_levels();
        assert(levels_view(levels@) =~= levels@.map_values(|l: crate::levels::Level| l@));
        let plan = Plan::new(levels, Some(goal), notes);
        let context = Context::new_with_seed(plan, random_seed());
        self.plans.insert(id.0, context);
        proof {
            assert(self@ =~= old(self)@.insert(id.0, fresh_plan(goal@, opt_text(notes))));
        }
        Ok(())
    }

    /// Deletes a plan.
    pub fn delete_plan(&mut self, id: &Lease) -> (r: Result<(), PlanError>)
        requires
            old(self).wf(),
        ensures
            final(self).wf(),
            old(self)@.contains_key(lease_value(*id)) ==> r is Ok && final(self)@ == old(self)@.remove(lease_value(*id)),
            !old(self)@.contains_key(lease_value(*id)) ==> final(self)@ == old(self)@ && r == Err::<(), PlanError>(PlanError::PlanNotFound(*id)),
    {
        if !self.plans.contains_key(&id.0) {
            return Err(PlanError::PlanNotFound(*id));
        }
        self.plans.remove(&id.0);
        assert(self@ =~= old(self)@.remove(id.0));
        Ok(())
    }

    /// The ids of all plans, in increasing order.
    pub fn list_plans(&self) -> (r: Result<Vec<Lease>, PlanError>)
        ensures
            (r matches Ok(v) && v@.map_values(|l: Lease| lease_value(l)).to_set() == self@.dom()
                && (forall|i: int, j: int| 0 <= i < j < v@.len() ==> lease_value(#[trigger] v@[i]) < lease_value(#[trigger] v@[j]))),
    {
        let mut ids: Vec<Lease> = Vec::new();
        let mut v: usize = 0;
        while v < 256
            invariant
                v <= 256,
                forall|i: int| 0 <= i < ids@.len() ==> self@.contains_key(lease_value(#[trigger] ids@[i])) && (lease_value(ids@[i]) as int) < v,
                forall|k: u8| (k as int) < v && #[trigger] self@.contains_key(k) ==> exists|i: int| 0 <= i < ids@.len() && lease_value(#[trigger] ids@[i]) == k,
                forall|i: int, j: int| 0 <= i < j < ids@.len() ==> lease_value(#[trigger] ids@[i]) < lease_value(#[trigger] ids@[j]),
            decreases 256 - v,
        {
            let k = v as u8;
            if self.plans.contains_key(&k) {
                let ghost before = ids@;
                ids.push(Lease::new(k));
                proof {
                    assert forall|q: u8| (q as int) < v + 1 && #[trigger] self@.contains_key(q) implies exists|i: int| 0 <= i < ids@.len() && lease_value(#[trigger] ids@[i]) == q by {
                        if q == k {
                            assert(lease_value(ids@[ids@.len() - 1]) == k);
                        } else {
                            let i = choose|i: int| 0 <= i < before.len() && lease_value(#[trigger] before[i]) == q;
                            assert(ids@[i] == before[i]);
                        }
                    }
                }
            }
            v = v + 1;
        }
        proof {
            let s = ids@.map_values(|l: Lease| lease_value(l));
            assert forall|k: u8| s.to_set().contains(k) <==> self@.dom().contains(k) by {
                if s.to_set().contains(k) {
                    let i = choose|i: int| 0 <= i < s.len() && s[i] == k;
                    assert(self@.contains_key(lease_value(ids@[i])));
                }
                if self@.dom().contains(k) {
                    assert(self@.contains_key(k));
                    let i = choose|i: int| 0 <= i < ids@.len() && lease_value(#[trigger] ids@[i]) == k;
                    assert(s[i] == k);
                }
            }
            assert(s.to_set() =~= self@.dom());
        }
        Ok(ids)
    }

    /// Takes the state of a plan out, leaving the others.
    pub(crate) fn take_context(&mut self, id: &Lease) -> (r: Option<Context>)
        requires
            old(self).wf(),
        ensures
            final(self).wf(),
            match r {
                Some(c) => old(self)@.contains_key(lease_value(*id)) && c@ == old(self)@[lease_value(*id)] && c.wf()
                    && final(self)@ == old(self)@.remove(lease_value(*id)),
                None => !old(self)@.contains_key(lease_value(*id)) && final(self)@ == old(self)@,
            },
    {
        let r = self.plans.remove(&id.0);
        proof {
            assert(self@ =~= old(self)@.remove(id.0));
        }
        r
    }

    /// Puts the state of a plan in.
    pub(crate) fn put_context(&mut self, id: &Lease, context: Context)
        requires
            old(self).wf(),
            context.wf(),
        ensures
            final(self).wf(),
            final(self)@ == old(self)@.insert(lease_value(*id), context@),
    {
        self.plans.insert(id.0, context);
        proof {
            assert(self@ =~= old(self)@.insert(id.0, context@));
        }
    }

    /// Runs `f` on the state of one plan and hands back what it returns.
    pub fn with_plan_context<F, R>(&mut self, id: &Lease, f: F) -> (r: Result<R, PlanError>)
        where
            F: FnOnce(&mut Context) -> R,
        requires
            old(self).wf(),
            forall|c: &mut Context| c.wf() ==> call_requires(f, (c,)),
            forall|c: &mut Context, out: R| c.wf() && call_ensures(f, (c,), out) ==> final(c).wf(),
        ensures
            final(self).wf(),
            !old(self)@.contains_key(lease_value(*id)) ==> final(self)@ == old(self)@ && r == Err::<R, PlanError>(PlanError::PlanNotFound(*id)),
            old(self)@.contains_key(lease_value(*id)) ==> (r matches Ok(out) && exists|c: &mut Context| {
                &&& c@ == old(self)@[lease_value(*id)]
                &&& call_ensures(f, (c,), out)
                &&& final(self)@ == old(self)@.insert(lease_value(*id), final(c)@)
            }),
    {
        match self.take_context(id) {
            None => Err(PlanError::PlanNotFound(*id)),
            Some(mut context) => {
                let out = f(&mut context);
                self.put_context(id, context);
                Ok(out)
            }
        }
    }

    /// Adds a task under the cursor of the plan (see `Context::add_task`).
    pub fn add_task(&mut self, id: &Lease, description: String, level_index: usize, notes: Option<String>) -> (r: Result<PlanResponse<(Task, Vec<usize>)>, PlanError>)
        requires
            old(self).wf(),
            old(self)@.contains_key(lease_value(*id)) ==> has_task(old(self)@[lease_value(*id)].plan.root, old(self)@[lease_value(*id)].cursor),
        ensures
            final(self).wf(),
            !old(self)@.contains_key(lease_value(*id)) ==> final(self)@ == old(self)@ && r == Err::<PlanResponse<(Task, Vec<usize>)>, PlanError>(PlanError::PlanNotFound(*id)),
            old(self)@.contains_key(lease_value(*id)) ==> (r matches Ok(resp) && {
                &&& final(self)@ == old(self)@.insert(lease_value(*id), final(self)@[lease_value(*id)])
                &&& add_task_post(old(self)@[lease_value(*id)], final(self)@[lease_value(*id)], description@, level_index, opt_text(notes), resp.res.0@, resp.res.1@)
                &&& resp.distilled_context@ == distill(final(self)@[lease_value(*id)])
            }),
    {
        match self.plans.remove(&id.0) {
            None => Err(PlanError::PlanNotFound(*id)),
            Some(mut context) => {
                let resp = context.add_task(description, level_index, notes);
                self.plans.insert(id.0, context);
                proof {
                    assert(self@ =~= old(self)@.insert(id.0, context@));
                }
                Ok(resp)
            },
        }
    }

    /// Moves the cursor of the plan (see `Context::move_to`).
    pub fn move_to(&mut self, id: &Lease, index: Vec<usize>) -> (r: Result<PlanResponse<Option<String>>, PlanError>)
        requires
            old(self).wf(),
        ensures
            final(self).wf(),
            !old(self)@.contains_key(lease_value(*id)) ==> final(self)@ == old(self)@ && r == Err::<PlanResponse<Option<String>>, PlanError>(PlanError::PlanNotFound(*id)),
            old(self)@.contains_key(lease_value(*id)) ==> (r matches Ok(resp) && {
                &&& final(self)@ == old(self)@.insert(lease_value(*id), final(self)@[lease_value(*id)])
                &&& move_to_post(old(self)@[lease_value(*id)], final(self)@[lease_value(*id)], index@, opt_text(resp.res))
                &&& resp.distilled_context@ == distill(final(self)@[lease_value(*id)])
            }),
    {
        match self.plans.remove(&id.0) {
            None => Err(PlanError::PlanNotFound(*id)),
            Some(mut context) => {
                let resp = context.move_to(index);
                self.plans.insert(id.0, context);
                proof {
                    assert(self@ =~= old(self)@.insert(id.0, context@));
                }
                Ok(resp)
            },
        }
    }

    /// Draws a lease for a task of the plan (see `Context::generate_lease`).
    pub fn generate_lease(&mut self, id: &Lease, index: Vec<usize>) -> (r: Result<PlanResponse<(Lease, Vec<String>)>, PlanError>)
        requires
            old(self).wf(),
        ensures
            final(self).wf(),
            !old(self)@.contains_key(lease_value(*id)) ==> final(self)@ == old(self)@ && r == Err::<PlanResponse<(Lease, Vec<String>)>, PlanError>(PlanError::PlanNotFound(*id)),
            old(self)@.contains_key(lease_value(*id)) ==> (r matches Ok(resp) && {
                &&& final(self)@ == old(self)@.insert(lease_value(*id), final(self)@[lease_value(*id)])
                &&& generate_lease_post(old(self)@[lease_value(*id)], final(self)@[lease_value(*id)], index@, lease_value(resp.res.0), strings_view(resp.res.1@))
                &&& resp.distilled_context@ == distill(final(self)@[lease_value(*id)])
            }),
    {
        match self.plans.remove(&id.0) {
            None => Err(PlanError::PlanNotFound(*id)),
            Some(mut context) => {
                let resp = context.generate_lease(index);
                self.plans.insert(id.0, context);
                proof {
                    assert(self@ =~= old(self)@.insert(id.0, context@));
                }
                Ok(resp)
            },
        }
    }

    /// Removes a task of the plan (see `Context::remove_task`).
    pub fn remove_task(&mut self, id: &Lease, index: Vec<usize>) -> (r: Result<PlanResponse<Result<Task, String>>, PlanError>)
        requires
            old(self).wf(),
        ensures
            final(self).wf(),
            !old(self)@.contains_key(lease_value(*id)) ==> final(self)@ == old(self)@ && r == Err::<PlanResponse<Result<Task, String>>, PlanError>(PlanError::PlanNotFound(*id)),
            old(self)@.contains_key(lease_value(*id)) ==> (r matches Ok(resp) && {
                &&& final(self)@ == old(self)@.insert(lease_value(*id), final(self)@[lease_value(*id)])
                &&& remove_task_post(old(self)@[lease_value(*id)], final(self)@[lease_value(*id)], index@, res_task(resp.res))
                &&& resp.distilled_context@ == distill(final(self)@[lease_value(*id)])
            }),
    {
        match self.plans.remove(&id.0) {
            None => Err(PlanError::PlanNotFound(*id)),
            Some(mut context) => {
                let resp = context.remove_task(index);
                self.plans.insert(id.0, context);
                proof {
                    assert(self@ =~= old(self)@.insert(id.0, context@));
                }
                Ok(resp)
            },
        }
    }

    /// Marks a task of the plan not completed (see `Context::uncomplete_task`).
    pub fn uncomplete_task(&mut self, id: &Lease, index: Vec<usize>) -> (r: Result<PlanResponse<Result<bool, String>>, PlanError>)
        requires
            old(self).wf(),
        ensures
            final(self).wf(),
            !old(self)@.contains_key(lease_value(*id)) ==> final(self)@ == old(self)@ && r == Err::<PlanResponse<Result<bool, String>>, PlanError>(PlanError::PlanNotFound(*id)),
            old(self)@.contains_key(lease_value(*id)) ==> (r matches Ok(resp) && {
                &&& final(self)@ == old(self)@.insert(lease_value(*id), final(self)@[lease_value(*id)])
                &&& uncomplete_task_post(old(self)@[lease_value(*id)], final(self)@[lease_value(*id)], index@, res_text(resp.res))
                &&& resp.distilled_context@ == distill(final(self)@[lease_value(*id)])
            }),
    {
        match self.plans.remove(&id.0) {
            None => Err(PlanError::PlanNotFound(*id)),
            Some(mut context) => {
                let resp = context.uncomplete_task(index);
                self.plans.insert(id.0, context);
                proof {
                    assert(self@ =~= old(self)@.insert(id.0, context@));
                }
                Ok(resp)
            },
        }
    }

    /// Changes the level of a task of the plan (see `Context::change_level`).
    pub fn change_level(&mut self, id: &Lease, index: Vec<usize>, level_index: usize) -> (r: Result<PlanResponse<Result<(), String>>, PlanError>)
        requires
            old(self).wf(),
        ensures
            final(self).wf(),
            !old(self)@.contains_key(lease_value(*id)) ==> final(self)@ == old(self)@ && r == Err::<PlanResponse<Result<(), String>>, PlanError>(PlanError::PlanNotFound(*id)),
            old(self)@.contains_key(lease_value(*id)) ==> (r matches Ok(resp) && {
                &&& final(self)@ == old(self)@.insert(lease_value(*id), final(self)@[lease_value(*id)])
                &&& change_level_post(old(self)@[lease_value(*id)], final(self)@[lease_value(*id)], index@, level_index, res_text(resp.res))
                &&& resp.distilled_context@ == distill(final(self)@[lease_value(*id)])
            }),
    {
        match self.plans.remove(&id.0) {
            None => Err(PlanError::PlanNotFound(*id)),
            Some(mut context) => {
                let resp = context.change_level(index, level_index);
                self.plans.insert(id.0, context);
                proof {
                    assert(self@ =~= old(self)@.insert(id.0, context@));
                }
                Ok(resp)
            },
        }
    }

    /// Sets the notes of a task of the plan (see `Context::set_task_notes`).
    pub fn set_task_notes(&mut self, id: &Lease, index: Vec<usize>, notes: String) -> (r: Result<PlanResponse<Result<(), String>>, PlanError>)
        requires
            old(self).wf(),
        ensures
            final(self).wf(),
            !old(self)@.contains_key(lease_value(*id)) ==> final(self)@ == old(self)@ && r == Err::<PlanResponse<Result<(), String>>, PlanError>(PlanError::PlanNotFound(*id)),
            old(self)@.contains_key(lease_value(*id)) ==> (r matches Ok(resp) && {
                &&& final(self)@ == old(self)@.insert(lease_value(*id), final(self)@[lease_value(*id)])
                &&& notes_post(old(self)@[lease_value(*id)], final(self)@[lease_value(*id)], index@, Some(notes@), res_text(resp.res))
                &&& resp.distilled_context@ == distill(final(self)@[lease_value(*id)])
            }),
    {
        match self.plans.remove(&id.0) {
            None => Err(PlanError::PlanNotFound(*id)),
            Some(mut context) => {
                let resp = context.set_task_notes(index, notes);
                self.plans.insert(id.0, context);
                proof {
                    assert(self@ =~= old(self)@.insert(id.0, context@));
                }
                Ok(resp)
            },
        }
    }

    /// Deletes the notes of a task of the plan (see `Context::delete_task_notes`).
    pub fn delete_task_notes(&mut self, id: &Lease, index: Vec<usize>) -> (r: Result<PlanResponse<Result<(), String>>, PlanError>)
        requires
            old(self).wf(),
        ensures
            final(self).wf(),
            !old(self)@.contains_key(lease_value(*id)) ==> final(self)@ == old(self)@ && r == Err::<PlanResponse<Result<(), String>>, PlanError>(PlanError::PlanNotFound(*id)),
            old(self)@.contains_key(lease_value(*id)) ==> (r matches Ok(resp) && {
                &&& final(self)@ == old(self)@.insert(lease_value(*id), final(self)@[lease_value(*id)])
                &&& notes_post(old(self)@[lease_value(*id)], final(self)@[lease_value(*id)], index@, None, res_text(resp.res))
                &&& resp.distilled_context@ == distill(final(self)@[lease_value(*id)])
            }),
    {
        match self.plans.remove(&id.0) {
            None => Err(PlanError::PlanNotFound(*id)),
            Some(mut context) => {
                let resp = context.delete_task_notes(index);
                self.plans.insert(id.0, context);
                proof {
                    assert(self@ =~= old(self)@.insert(id.0, context@));
                }
                Ok(resp)
            },
        }
    }

    /// Completes a task of the plan (see `Context::complete_task`), answering
    /// with the outcome, the reason included where the completion is refused.
    pub fn complete_task_outcome(
        &mut self,
        id: &Lease,
        index: Vec<usize>,
        lease_attempt: Option<u8>,
        force: bool,
        summary: Option<String>,
    ) -> (r: Result<PlanResponse<Result<bool, String>>, PlanError>)
        requires
            old(self).wf(),
        ensures
            final(self).wf(),
            !old(self)@.contains_key(lease_value(*id)) ==> final(self)@ == old(self)@ && r == Err::<PlanResponse<Result<bool, String>>, PlanError>(PlanError::PlanNotFound(*id)),
            old(self)@.contains_key(lease_value(*id)) ==> (r matches Ok(resp) && {
                &&& final(self)@ == old(self)@.insert(lease_value(*id), final(self)@[lease_value(*id)])
                &&& complete_task_post(
                    old(self)@[lease_value(*id)],
                    final(self)@[lease_value(*id)],
                    index@,
                    lease_attempt,
                    force,
                    opt_text(summary),
                    res_text(resp.res),
                )
                &&& resp.distilled_context@ == distill(final(self)@[lease_value(*id)])
            }),
    {
        match self.plans.remove(&id.0) {
            None => Err(PlanError::PlanNotFound(*id)),
            Some(mut context) => {
                let lease_attempt_typed = match lease_attempt {
                    Some(v) => Some(Lease::new(v)),
                    None => None,
                };
                let resp = context.complete_task(index, lease_attempt_typed, force, summary);
                self.plans.insert(id.0, context);
                proof {
                    assert(opt_lease_value(lease_attempt_typed) == lease_attempt);
                    assert(self@ =~= old(self)@.insert(id.0, context@));
                }
                Ok(resp)
            },
        }
    }

    /// Completes a task of the plan (see `Context::complete_task`), answering
    /// only whether it was completed: a refused completion answers `false`.
    pub fn complete_task(
        &mut self,
        id: &Lease,
        index: Vec<usize>,
        lease_attempt: Option<u8>,
        force: bool,
        summary: Option<String>,
    ) -> (r: Result<PlanResponse<bool>, PlanError>)
        requires
            old(self).wf(),
        ensures
            final(self).wf(),
            !old(self)@.contains_key(lease_value(*id)) ==> final(self)@ == old(self)@ && r == Err::<PlanResponse<bool>, PlanError>(PlanError::PlanNotFound(*id)),
            old(self)@.contains_key(lease_value(*id)) ==> (r matches Ok(resp) && {
                &&& final(self)@ == old(self)@.insert(lease_value(*id), final(self)@[lease_value(*id)])
                &&& exists|res: Result<bool, Seq<char>>| #[trigger] complete_task_post(
                    old(self)@[lease_value(*id)],
                    final(self)@[lease_value(*id)],
                    index@,
                    lease_attempt,
                    force,
                    opt_text(summary),
                    res,
                ) && resp.res == (res == Ok::<bool, Seq<char>>(true))
                &&& resp.distilled_context@ == distill(final(self)@[lease_value(*id)])
            }),
    {
        match self.complete_task_outcome(id, index, lease_attempt, force, summary) {
            Err(e) => Err(e),
            Ok(resp) => {
                let ghost outcome = res_text(resp.res);
                let (answer, _) = completion_answer(resp);
                assert(answer.res == (outcome == Ok::<bool, Seq<char>>(true)));
                Ok(answer)
            },
        }
    }

    /// A copy of the plan.
    pub fn get_plan(&self, id: &Lease) -> (r: Result<PlanResponse<Plan>, PlanError>)
        ensures
            !self@.contains_key(lease_value(*id)) ==> r == Err::<PlanResponse<Plan>, PlanError>(PlanError::PlanNotFound(*id)),
            self@.contains_key(lease_value(*id)) ==> (r matches Ok(resp) && resp.res@ == self@[lease_value(*id)].plan
                && resp.distilled_context@ == distill(self@[lease_value(*id)])),
    {
        match self.plans.get(&id.0) {
            None => Err(PlanError::PlanNotFound(*id)),
            Some(context) => Ok(context.get_plan()),
        }
    }

    /// The task under the cursor of the plan, with its index, level, and
    /// the descriptions passed on the way to it.
    pub fn current(&self, id: &Lease) -> (r: Result<PlanResponse<Option<Current>>, PlanError>)
        ensures
            !self@.contains_key(lease_value(*id)) ==> r == Err::<PlanResponse<Option<Current>>, PlanError>(PlanError::PlanNotFound(*id)),
            self@.contains_key(lease_value(*id)) ==> (r matches Ok(resp) && {
                let c = self@[lease_value(*id)];
                &&& match current_with_history(c.plan, c.cursor) {
                    Some(x) => resp.res matches Some(cur) && cur.index@ == c.cursor && cur.level@ == x.0
                        && cur.task@ == x.1 && strings_view(cur.history@) == x.2,
                    None => resp.res is None,
                }
                &&& resp.distilled_context@ == distill(c)
            }),
    {
        match self.plans.get(&id.0) {
            None => Err(PlanError::PlanNotFound(*id)),
            Some(context) => {
                let index = context.get_current_index().into_inner();
                let current_opt = match context.get_current_with_history() {
                    Some((level, task, history)) => Some(Current { index, level, task, history }),
                    None => None,
                };
                Ok(context.distilled_context().replace(current_opt))
            },
        }
    }

    /// The cursor of the plan.
    pub fn get_current_index(&self, id: &Lease) -> (r: Result<PlanResponse<Vec<usize>>, PlanError>)
        ensures
            !self@.contains_key(lease_value(*id)) ==> r == Err::<PlanResponse<Vec<usize>>, PlanError>(PlanError::PlanNotFound(*id)),
            self@.contains_key(lease_value(*id)) ==> (r matches Ok(resp) && resp.res@ == self@[lease_value(*id)].cursor
                && resp.distilled_context@ == distill(self@[lease_value(*id)])),
    {
        match self.plans.get(&id.0) {
            None => Err(PlanError::PlanNotFound(*id)),
            Some(context) => Ok(context.get_current_index()),
        }
    }

    /// The distilled context of the plan.
    pub fn distilled_context(&self, id: &Lease) -> (r: Result<PlanResponse<()>, PlanError>)
        ensures
            !self@.contains_key(lease_value(*id)) ==> r == Err::<PlanResponse<()>, PlanError>(PlanError::PlanNotFound(*id)),
            self@.contains_key(lease_value(*id)) ==> (r matches Ok(resp) && resp.distilled_context@ == distill(self@[lease_value(*id)])),
    {
        match self.plans.get(&id.0) {
            None => Err(PlanError::PlanNotFound(*id)),
            Some(context) => Ok(context.distilled_context()),
        }
    }

    /// The notes of a task of the plan.
    pub fn get_task_notes(&self, id: &Lease, index: Vec<usize>) -> (r: Result<PlanResponse<Result<Option<String>, String>>, PlanError>)
        ensures
            !self@.contains_key(lease_value(*id)) ==> r == Err::<PlanResponse<Result<Option<String>, String>>, PlanError>(PlanError::PlanNotFound(*id)),
            self@.contains_key(lease_value(*id)) ==> (r matches Ok(resp) && res_notes(resp.res) == task_notes_result(self@[lease_value(*id)], index@)
                && resp.distilled_context@ == distill(self@[lease_value(*id)])),
    {
        match self.plans.get(&id.0) {
            None => Err(PlanError::PlanNotFound(*id)),
            Some(context) => Ok(context.get_task_notes(index)),
        }
    }

    /// Whether the plan exists and its cursor points at a task.
    pub fn cursor_is_valid(&self, id: &Lease) -> (b: bool)
        ensures
            b == (self@.contains_key(lease_value(*id)) && has_task(self@[lease_value(*id)].plan.root, self@[lease_value(*id)].cursor)),
    {
        match self.plans.get(&id.0) {
            None => false,
            Some(context) => context.cursor_is_valid(),
        }
    }
}

} // verus!
