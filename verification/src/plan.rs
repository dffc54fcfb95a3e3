//! Operations that are a fixed list of steps.

use crate::effect;
use crate::effect::{Effect, EffectView, OutcomeView, Outcome, Reply, ReplyView};
use crate::service::{Error, ErrorView};
use vstd::prelude::*;
use vstd::string::*;

verus! {

/// What a step makes of the reply to its effect.
#[derive(Debug)]
pub enum Check {
    /// Any reply will do.
    Ignored,
    /// The answer must be yes; otherwise this is the error.
    Required { error: Error },
    /// A file operation must not fail.
    Completed,
    /// A command must have been started.
    Started { context: String },
    /// A command must have succeeded.
    Succeeded { context: String },
}

/// The model of a [`Check`].
pub enum CheckView {
    Ignored,
    Required { error: ErrorView },
    Completed,
    Started { context: Seq<char> },
    Succeeded { context: Seq<char> },
}

impl View for Check {
    type V = CheckView;

    open spec fn view(&self) -> CheckView {
        match self {
            Check::Ignored => CheckView::Ignored,
            Check::Required { error } => CheckView::Required { error: error@ },
            Check::Completed => CheckView::Completed,
            Check::Started { context } => CheckView::Started { context: context@ },
            Check::Succeeded { context } => CheckView::Succeeded { context: context@ },
        }
    }
}

impl CheckView {
    /// Whether the reply is of a kind that the check can judge.
    pub open spec fn reads(self, reply: ReplyView) -> bool {
        match self {
            CheckView::Ignored => true,
            CheckView::Required { .. } => reply is Flag,
            CheckView::Completed => reply is Done || reply is Failed,
            CheckView::Started { .. } | CheckView::Succeeded { .. } => reply is Ran,
        }
    }
}

impl Check {
    /// Whether the reply is of a kind that the check can judge.
    pub fn can_read(&self, reply: &Reply) -> (r: bool)
        ensures
            r == self@.reads(reply@),
    {
        match self {
            Check::Ignored => true,
            Check::Required { .. } => matches!(reply, Reply::Flag(_)),
            Check::Completed => matches!(reply, Reply::Done | Reply::Failed(_)),
            Check::Started { .. } | Check::Succeeded { .. } => matches!(reply, Reply::Ran(_)),
        }
    }
}

/// The error that a reply which the check can judge amounts to, if it does.
pub open spec fn verdict(check: CheckView, reply: ReplyView) -> Option<ErrorView>
    recommends
        check.reads(reply),
{
    match check {
        CheckView::Ignored => None,
        CheckView::Required { error } => if reply.yes() {
            None
        } else {
            Some(error)
        },
        CheckView::Completed => match reply {
            ReplyView::Failed(message) => Some(ErrorView::Io(message)),
            _ => None,
        },
        CheckView::Started { context } => match reply {
            ReplyView::Ran(OutcomeView::NotStarted { error }) => Some(
                ErrorView::Command(context + ": "@ + error),
            ),
            _ => None,
        },
        CheckView::Succeeded { context } => match reply {
            ReplyView::Ran(outcome) => effect::run_error(context, outcome),
            _ => None,
        },
    }
}

/// The error that a reply which the check can judge amounts to, if it does.
fn judge(check: &Check, reply: &Reply) -> (r: Option<Error>)
    requires
        check@.reads(reply@),
    ensures
        effect::opt_error(r) == verdict(check@, reply@),
{
    match check {
        Check::Ignored => None,
        Check::Required { error } => {
            if reply.is_yes() {
                None
            } else {
                Some(error.clone())
            }
        },
        Check::Completed => match reply {
            Reply::Failed(message) => Some(Error::Io(message.clone())),
            _ => None,
        },
        Check::Started { context } => match reply {
            Reply::Ran(Outcome::NotStarted { error }) => {
                let mut m = context.clone();
                m.append(": ");
                m.append(error.as_str());
                Some(Error::Command(m))
            },
            _ => None,
        },
        Check::Succeeded { context } => match reply {
            Reply::Ran(outcome) => effect::run(context.as_str(), outcome),
            _ => None,
        },
    }
}

/// An effect and what is made of the reply to it.
#[derive(Debug)]
pub struct Step {
    pub effect: Effect,
    pub check: Check,
}

/// The model of a [`Step`].
pub struct StepView {
    pub effect: EffectView,
    pub check: CheckView,
}

impl View for Step {
    type V = StepView;

    open spec fn view(&self) -> StepView {
        StepView { effect: self.effect@, check: self.check@ }
    }
}

impl StepView {
    /// Whether the reply is one to the effect of the step, and one that its check can judge.
    pub open spec fn answered_by(self, reply: ReplyView) -> bool {
        self.effect.answered_by(reply) && self.check.reads(reply)
    }

    /// Whether the reply is one to the step, and no error.
    pub open spec fn accepts(self, reply: ReplyView) -> bool {
        self.answered_by(reply) && verdict(self.check, reply) is None
    }

    /// Whether the reply is one to the step, and the given error.
    pub open spec fn rejects(self, reply: ReplyView, error: ErrorView) -> bool {
        self.answered_by(reply) && verdict(self.check, reply) == Some(error)
    }
}

/// The views of a sequence of steps.
pub open spec fn step_views(steps: Seq<Step>) -> Seq<StepView> {
    Seq::new(steps.len(), |i: int| steps[i]@)
}

/// An operation that performs its steps in order and stops at the first error.
#[derive(Debug)]
pub struct Plan {
    steps: Vec<Step>,
    at: usize,
    error: Option<Error>,
}

/// The model of a [`Plan`]: its steps, how many were performed, and the error that ended it.
#[verifier::ext_equal]
pub struct PlanView {
    pub steps: Seq<StepView>,
    pub at: nat,
    pub error: Option<ErrorView>,
}

impl View for Plan {
    type V = PlanView;

    closed spec fn view(&self) -> PlanView {
        PlanView {
            steps: step_views(self.steps@),
            at: self.at as nat,
            error: effect::opt_error(self.error),
        }
    }
}

/// The model of a result of an operation that gives back nothing.
pub open spec fn unit_result(r: Result<(), Error>) -> Result<(), ErrorView> {
    match r {
        Ok(()) => Ok(()),
        Err(e) => Err(e@),
    }
}

/// The model of an optional result of an operation that gives back nothing.
pub open spec fn opt_unit_result(r: Option<Result<(), Error>>) -> Option<Result<(), ErrorView>> {
    match r {
        Some(r) => Some(unit_result(r)),
        None => None,
    }
}

impl PlanView {
    /// A plan of which no step was performed.
    pub open spec fn fresh(steps: Seq<StepView>) -> PlanView {
        PlanView { steps, at: 0, error: None }
    }

    /// The effect of the next step, unless the plan has ended.
    pub open spec fn effect(self) -> Option<EffectView> {
        if self.error is None && self.at < self.steps.len() {
            Some(self.steps[self.at as int].effect)
        } else {
            None
        }
    }

    /// The plan after the reply to its next step. A reply of another kind leaves the step to be
    /// performed.
    pub open spec fn after(self, reply: ReplyView) -> PlanView {
        if self.effect() is None || !self.steps[self.at as int].answered_by(reply) {
            self
        } else {
            PlanView {
                steps: self.steps,
                at: self.at + 1,
                error: verdict(self.steps[self.at as int].check, reply),
            }
        }
    }

    /// How the plan ended, if it has: with an error, or at the end of its steps without one.
    pub open spec fn outcome(self) -> Option<Result<(), ErrorView>> {
        match self.error {
            Some(e) => Some(Err(e)),
            None => if self.at < self.steps.len() {
                None
            } else {
                Some(Ok(()))
            },
        }
    }

    /// The plan after a sequence of replies.
    pub open spec fn run(self, replies: Seq<ReplyView>) -> PlanView
        decreases replies.len(),
    {
        if replies.len() == 0 {
            self
        } else {
            self.run(replies.drop_last()).after(replies.last())
        }
    }
}

impl Plan {
    /// A plan of which no step was performed.
    pub fn new(steps: Vec<Step>) -> (r: Plan)
        ensures
            r@ == PlanView::fresh(step_views(steps@)),
    {
        Plan { steps, at: 0, error: None }
    }

    /// The effect of the next step, unless the plan has ended.
    pub fn pending(&self) -> (r: Option<Effect>)
        ensures
            effect::opt_effect(r) == self@.effect(),
    {
        if self.error.is_none() && self.at < self.steps.len() {
            Some(self.steps[self.at].effect.clone())
        } else {
            None
        }
    }

    /// Takes the reply to the next step.
    pub fn resume(self, reply: Reply) -> (r: Plan)
        ensures
            r@ == self@.after(reply@),
    {
        if self.error.is_none() && self.at < self.steps.len()
            && self.steps[self.at].effect.is_answered_by(&reply)
            && self.steps[self.at].check.can_read(&reply) {
            let error = judge(&self.steps[self.at].check, &reply);
            Plan { steps: self.steps, at: self.at + 1, error }
        } else {
            self
        }
    }

    /// How the plan ended, if it has.
    pub fn outcome(&self) -> (r: Option<Result<(), Error>>)
        ensures
            opt_unit_result(r) == self@.outcome(),
    {
        match &self.error {
            Some(e) => Some(Err(e.clone())),
            None => {
                if self.at < self.steps.len() {
                    None
                } else {
                    Some(Ok(()))
                }
            },
        }
    }
}

/// As long as every reply is accepted, a plan performs its steps one after the other, and it ends
/// well once all were performed.
pub proof fn plan_goes_in_order(steps: Seq<StepView>, replies: Seq<ReplyView>)
    requires
        replies.len() <= steps.len(),
        forall|i: int| 0 <= i < replies.len() ==> (#[trigger] steps[i]).accepts(replies[i]),
    ensures
        PlanView::fresh(steps).run(replies) == (PlanView { steps, at: replies.len(), error: None }),
        replies.len() < steps.len() ==> PlanView::fresh(steps).run(replies).effect() == Some(
            steps[replies.len() as int].effect,
        ),
        replies.len() == steps.len() ==> PlanView::fresh(steps).run(replies).outcome() == Some(
            Ok::<(), ErrorView>(()),
        ),
    decreases replies.len(),
{
    if replies.len() > 0 {
        let n = replies.len() - 1;
        let before = replies.drop_last();
        assert forall|i: int| 0 <= i < n implies (#[trigger] steps[i]).accepts(before[i]) by {
            assert(before[i] == replies[i]);
        }
        plan_goes_in_order(steps, before);
        assert(steps[n].accepts(replies[n]));
    }
}

/// A plan performs nothing after a step that failed, and ends with the error of that step.
pub proof fn plan_stops_at_first_error(
    steps: Seq<StepView>,
    replies: Seq<ReplyView>,
    k: int,
    error: ErrorView,
)
    requires
        0 <= k < steps.len(),
        k < replies.len(),
        forall|i: int| 0 <= i < k ==> (#[trigger] steps[i]).accepts(replies[i]),
        steps[k].rejects(replies[k], error),
    ensures
        PlanView::fresh(steps).run(replies).effect() is None,
        PlanView::fresh(steps).run(replies).outcome() == Some(Err::<(), ErrorView>(error)),
        PlanView::fresh(steps).run(replies).at == k + 1,
    decreases replies.len(),
{
    let before = replies.drop_last();
    assert forall|i: int| 0 <= i < k implies (#[trigger] steps[i]).accepts(before[i]) by {
        assert(before[i] == replies[i]);
    }
    if replies.len() == k + 1 {
        plan_goes_in_order(steps, before);
    } else {
        plan_stops_at_first_error(steps, before, k, error);
    }
}

/// A reply of a kind that the next step cannot have changes nothing.
pub proof fn plan_awaits_its_reply(plan: PlanView, reply: ReplyView)
    requires
        plan.effect() matches Some(effect) ==> !effect.answered_by(reply),
    ensures
        plan.after(reply) == plan,
{
}

/// What each check makes of a reply: nothing of any; its error of a no; the failure of a file
/// operation; that a command could not be started; and that a command could not be started or
/// exited otherwise than with zero.
pub proof fn checks_judge_their_replies(
    context: Seq<char>,
    error: ErrorView,
    message: Seq<char>,
    outcome: OutcomeView,
    reply: ReplyView,
)
    ensures
        CheckView::Ignored.reads(reply) && verdict(CheckView::Ignored, reply) is None,
        ({
            let check = CheckView::Required { error };
            &&& check.reads(reply) <==> reply is Flag
            &&& verdict(check, ReplyView::Flag(true)) is None
            &&& verdict(check, ReplyView::Flag(false)) == Some(error)
        }),
        CheckView::Completed.reads(reply) <==> reply is Done || reply is Failed,
        verdict(CheckView::Completed, ReplyView::Done) is None,
        verdict(CheckView::Completed, ReplyView::Failed(message)) == Some(ErrorView::Io(message)),
        ({
            let check = CheckView::Started { context };
            &&& check.reads(reply) <==> reply is Ran
            &&& match outcome {
                OutcomeView::NotStarted { error: why } => verdict(check, ReplyView::Ran(outcome))
                    == Some(ErrorView::Command(context + ": "@ + why)),
                OutcomeView::Exited { .. } => verdict(check, ReplyView::Ran(outcome)) is None,
            }
        }),
        ({
            let check = CheckView::Succeeded { context };
            &&& check.reads(reply) <==> reply is Ran
            &&& verdict(check, ReplyView::Ran(outcome)) == effect::run_error(context, outcome)
            &&& match outcome {
                OutcomeView::NotStarted { .. } => verdict(check, ReplyView::Ran(outcome)) is Some,
                OutcomeView::Exited { code, .. } => verdict(check, ReplyView::Ran(outcome)) is None
                    <==> code == Some(0i32),
            }
        }),
{
}

} // verus!
