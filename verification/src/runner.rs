//! The test phase as a machine that hands out work and takes replies.

use vstd::prelude::*;
use crate::error::{RunError, RunErrorModel};
use crate::init::{session_model, SessionMap};
use crate::judge::{collect_outcomes, outcomes, test_reply_models, TestReply};
use crate::plan::{
    category_plan, plan_category, planned_models, CategoryPlan, PlanModel, PlannedModel,
    PlannedRequest,
};
use crate::request::optional_text;
use crate::table::Table;
use crate::types::{
    data_model, outcome_models, step_models, InputCaterogy, InputDataMap, OutputResult,
    RecordModel,
};

verus! {

/// What the run asks of its driver next.
#[derive(Debug)]
pub enum Action {
    /// Send these requests, all at once, and hand back their replies.
    Dispatch { category: String, requests: Vec<PlannedRequest> },
    /// Nothing to send: the category was passed over.
    Skip { category: String },
    /// Every category has had its turn.
    Finish,
}

/// An action with its texts and requests as models.
pub enum ActionModel {
    Dispatch { category: Seq<char>, requests: Seq<PlannedModel> },
    Skip { category: Seq<char> },
    Finish,
}

impl View for Action {
    type V = ActionModel;

    open spec fn view(&self) -> ActionModel {
        match self {
            Action::Dispatch { category, requests } => ActionModel::Dispatch {
                category: category@,
                requests: planned_models(requests@),
            },
            Action::Skip { category } => ActionModel::Skip { category: category@ },
            Action::Finish => ActionModel::Finish,
        }
    }
}

/// An action or an error, both as models.
pub open spec fn action_result_model(result: Result<Action, RunError>) -> Result<
    ActionModel,
    RunErrorModel,
> {
    match result {
        Ok(action) => Ok(action@),
        Err(e) => Err(e@),
    }
}

/// What the run asks for when the categories before number `cursor` have
/// had their turn: the plan of category number `cursor`, or the end of the
/// run where there is none.
pub open spec fn next_action(
    base_url: Seq<char>,
    categories: Table<InputCaterogy>,
    data: Map<Seq<char>, Seq<RecordModel>>,
    session: Map<Seq<char>, Seq<char>>,
    continue_on_missing_auth: bool,
    cursor: int,
) -> Result<ActionModel, RunErrorModel> {
    if 0 <= cursor < categories.keys().len() {
        let name = categories.keys()[cursor];
        let category = categories.values()[cursor];
        match category_plan(
            base_url,
            name,
            optional_text(category.login),
            step_models(category.steps@),
            data,
            session,
            continue_on_missing_auth,
        ) {
            Ok(PlanModel::Dispatch(requests)) => Ok(
                ActionModel::Dispatch { category: name, requests },
            ),
            Ok(PlanModel::Skip) => Ok(ActionModel::Skip { category: name }),
            Err(e) => Err(e),
        }
    } else {
        Ok(ActionModel::Finish)
    }
}

/// The test phase as a machine. It takes the categories one at a time, in
/// the order of their table; its driver sends what it hands out and gives
/// the replies back.
#[derive(Debug)]
pub struct TestRun {
    cursor: usize,
    results: Vec<OutputResult>,
}

impl TestRun {
    /// The number of categories that have had their turn.
    pub closed spec fn cursor(&self) -> int {
        self.cursor as int
    }

    /// The outcomes gathered so far.
    pub closed spec fn results(&self) -> Seq<OutputResult> {
        self.results@
    }

    /// A run that has not begun.
    pub fn new() -> (run: TestRun)
        ensures
            run.cursor() == 0,
            run.results() == Seq::<OutputResult>::empty(),
    {
        TestRun { cursor: 0, results: Vec::new() }
    }

    /// The number of categories that have had their turn.
    pub fn position(&self) -> (n: usize)
        ensures
            n == self.cursor(),
    {
        self.cursor
    }

    /// Gives the next category its turn and says what to do for it. The
    /// outcomes stay as they are. An error leaves the run where it was; so
    /// does the end of the run.
    pub fn advance(
        &mut self,
        base_url: &str,
        categories: &Table<InputCaterogy>,
        data: &InputDataMap,
        session: &SessionMap,
        continue_on_missing_auth: bool,
    ) -> (result: Result<Action, RunError>)
        ensures
            action_result_model(result) == next_action(
                base_url@,
                *categories,
                data_model(*data),
                session_model(*session),
                continue_on_missing_auth,
                old(self).cursor(),
            ),
            final(self).results() == old(self).results(),
            final(self).cursor() == (if result is Ok && old(self).cursor()
                < categories.keys().len() {
                old(self).cursor() + 1
            } else {
                old(self).cursor()
            }),
    {
        if self.cursor >= categories.len() {
            return Ok(Action::Finish);
        }
        let name = categories.key_at(self.cursor);
        let category = categories.value_at(self.cursor);
        match plan_category(
            base_url,
            name.as_str(),
            category,
            data,
            session,
            continue_on_missing_auth,
        ) {
            Ok(CategoryPlan::Dispatch(requests)) => {
                self.cursor = self.cursor + 1;
                Ok(Action::Dispatch { category: name.clone(), requests })
            },
            Ok(CategoryPlan::Skip) => {
                self.cursor = self.cursor + 1;
                Ok(Action::Skip { category: name.clone() })
            },
            Err(e) => Err(e),
        }
    }

    /// Takes the replies of the category that was dispatched last and adds
    /// their outcomes, in reply order, behind those gathered before. Where
    /// a request got no reply the run gains nothing and the error is
    /// returned.
    pub fn absorb(&mut self, category: &str, replies: &Vec<TestReply>) -> (result: Result<
        (),
        RunError,
    >)
        ensures
            final(self).cursor() == old(self).cursor(),
            match outcomes(category@, test_reply_models(replies@)) {
                Ok(list) => result is Ok && outcome_models(final(self).results())
                    == outcome_models(old(self).results()) + list,
                Err(e) => result matches Err(x) && x@ == e && final(self).results()
                    == old(self).results(),
            },
    {
        match collect_outcomes(category, replies) {
            Ok(mut list) => {
                let ghost added = list@;
                let ghost before = self.results@;
                self.results.append(&mut list);
                assert(outcome_models(self.results@) =~= outcome_models(before) + outcome_models(
                    added,
                ));
                Ok(())
            },
            Err(e) => Err(e),
        }
    }

    /// The outcomes of the run.
    pub fn into_results(self) -> (results: Vec<OutputResult>)
        ensures
            results@ == self.results(),
    {
        self.results
    }
}

} // verus!
