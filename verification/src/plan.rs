//! Planning a category: whether it runs at all, and the requests of its
//! bound steps.

use vstd::prelude::*;
use crate::bind::{bind, flat_models, gen_flatten_step};
use crate::error::{RunError, RunErrorModel};
use crate::init::{
    harvest, lemma_harvest_keeps_cookie, session_model, InitReplyModel, SessionMap,
};
use crate::request::{
    build, build_request, optional_text, optional_text_ref, HttpRequest, RequestModel,
};
use crate::types::{
    data_model, step_models, BoundModel, FlattenStep, InputCaterogy, InputDataMap, RecordModel,
    StepModel,
};

verus! {

/// A request of the test phase with what is needed to judge its reply.
#[derive(Debug)]
pub struct PlannedRequest {
    pub name: String,
    pub expect_status: u16,
    pub request: HttpRequest,
}

/// A planned request with its name and request as models.
pub struct PlannedModel {
    pub name: Seq<char>,
    pub expect_status: u16,
    pub request: RequestModel,
}

impl View for PlannedRequest {
    type V = PlannedModel;

    open spec fn view(&self) -> PlannedModel {
        PlannedModel {
            name: self.name@,
            expect_status: self.expect_status,
            request: self.request@,
        }
    }
}

/// The models of a sequence of planned requests.
pub open spec fn planned_models(requests: Seq<PlannedRequest>) -> Seq<PlannedModel> {
    Seq::new(requests.len(), |i: int| requests[i]@)
}

/// What to do with a category: pass over it, or send these requests.
#[derive(Debug)]
pub enum CategoryPlan {
    Skip,
    Dispatch(Vec<PlannedRequest>),
}

/// A plan with its requests as models.
pub enum PlanModel {
    Skip,
    Dispatch(Seq<PlannedModel>),
}

impl View for CategoryPlan {
    type V = PlanModel;

    open spec fn view(&self) -> PlanModel {
        match self {
            CategoryPlan::Skip => PlanModel::Skip,
            CategoryPlan::Dispatch(requests) => PlanModel::Dispatch(planned_models(requests@)),
        }
    }
}

/// The requests of a list of bound steps, one for each and in order, all
/// with the same cookie; or the error of the first bound step that has no
/// request.
pub open spec fn planned(
    base_url: Seq<char>,
    bound: Seq<(nat, nat, BoundModel)>,
    cookie: Option<Seq<char>>,
) -> Result<Seq<PlannedModel>, RunErrorModel>
    decreases bound.len(),
{
    if bound.len() == 0 {
        Ok(Seq::empty())
    } else {
        match planned(base_url, bound.drop_last(), cookie) {
            Ok(earlier) => match build(base_url, bound.last().2, cookie) {
                Ok(request) => Ok(
                    earlier.push(
                        PlannedModel {
                            name: bound.last().2.name,
                            expect_status: bound.last().2.input_data.expect_status,
                            request,
                        },
                    ),
                ),
                Err(e) => Err(e),
            },
            Err(e) => Err(e),
        }
    }
}

/// Whether a category asks for a session that the init phase did not leave.
pub open spec fn lacks_session(login: Option<Seq<char>>, session: Map<Seq<char>, Seq<char>>) -> bool {
    login matches Some(name) && !session.contains_key(name)
}

/// The cookie that the requests of a category carry: the session of its
/// login, where it names one.
pub open spec fn category_cookie(login: Option<Seq<char>>, session: Map<Seq<char>, Seq<char>>) -> Option<
    Seq<char>,
> {
    match login {
        Some(name) => Some(session[name]),
        None => None,
    }
}

/// What to do with a category. Its login is looked at first: a category
/// whose session is missing is passed over where the caller said to go on,
/// and ends the run with an authentication error where not, before any of
/// its steps is bound. Otherwise its steps are bound and their requests
/// built, each with the session cookie of the login.
pub open spec fn category_plan(
    base_url: Seq<char>,
    category: Seq<char>,
    login: Option<Seq<char>>,
    steps: Seq<StepModel>,
    data: Map<Seq<char>, Seq<RecordModel>>,
    session: Map<Seq<char>, Seq<char>>,
    continue_on_missing_auth: bool,
) -> Result<PlanModel, RunErrorModel> {
    if lacks_session(login, session) {
        if continue_on_missing_auth {
            Ok(PlanModel::Skip)
        } else {
            Err(RunErrorModel::Auth { category })
        }
    } else {
        match bind(steps, data) {
            Ok(bound) => match planned(base_url, bound, category_cookie(login, session)) {
                Ok(requests) => Ok(PlanModel::Dispatch(requests)),
                Err(e) => Err(e),
            },
            Err(e) => Err(e),
        }
    }
}

/// A plan or an error, both as models.
pub open spec fn plan_result_model(result: Result<CategoryPlan, RunError>) -> Result<
    PlanModel,
    RunErrorModel,
> {
    match result {
        Ok(plan) => Ok(plan@),
        Err(e) => Err(e@),
    }
}

/// A plan that succeeds has one request for each bound step, at its own
/// place, with the step's name and expected status, and every one of them
/// carries the cookie that was handed in.
pub proof fn lemma_planned_shape(
    base_url: Seq<char>,
    bound: Seq<(nat, nat, BoundModel)>,
    cookie: Option<Seq<char>>,
)
    ensures
        planned(base_url, bound, cookie) matches Ok(requests) ==> {
            &&& requests.len() == bound.len()
            &&& forall|i: int|
                0 <= i < bound.len() ==> {
                    &&& (#[trigger] requests[i]).name == bound[i].2.name
                    &&& requests[i].expect_status == bound[i].2.input_data.expect_status
                    &&& requests[i].request.cookie == cookie
                    &&& build(base_url, bound[i].2, cookie) == Ok::<RequestModel, RunErrorModel>(
                        requests[i].request,
                    )
                }
        },
    decreases bound.len(),
{
    if bound.len() > 0 {
        let shorter = bound.drop_last();
        lemma_planned_shape(base_url, shorter, cookie);
        if planned(base_url, bound, cookie) is Ok {
            let requests = planned(base_url, bound, cookie)->Ok_0;
            assert forall|i: int| 0 <= i < bound.len() implies {
                &&& (#[trigger] requests[i]).name == bound[i].2.name
                &&& requests[i].expect_status == bound[i].2.input_data.expect_status
                &&& requests[i].request.cookie == cookie
                &&& build(base_url, bound[i].2, cookie) == Ok::<RequestModel, RunErrorModel>(
                    requests[i].request,
                )
            } by {
                if i < bound.len() - 1 {
                    assert(shorter[i] == bound[i]);
                }
            }
        }
    }
}

/// A category whose login left no session is never dispatched: the run
/// ends with an authentication error that names the category, or, where
/// the caller said to go on, the category is passed over.
pub proof fn lemma_missing_session_stops_category(
    base_url: Seq<char>,
    category: Seq<char>,
    login: Seq<char>,
    steps: Seq<StepModel>,
    data: Map<Seq<char>, Seq<RecordModel>>,
    session: Map<Seq<char>, Seq<char>>,
)
    requires
        !session.contains_key(login),
    ensures
        category_plan(base_url, category, Some(login), steps, data, session, false) == Err::<
            PlanModel,
            RunErrorModel,
        >(RunErrorModel::Auth { category }),
        category_plan(base_url, category, Some(login), steps, data, session, true) == Ok::<
            PlanModel,
            RunErrorModel,
        >(PlanModel::Skip),
{
}

/// The cookie that an init reply brought reaches every request of a
/// category that names the reply's step as its login, provided no later
/// reply for the same step brought another.
pub proof fn lemma_session_reaches_requests(
    replies: Seq<InitReplyModel>,
    i: int,
    base_url: Seq<char>,
    category: Seq<char>,
    steps: Seq<StepModel>,
    data: Map<Seq<char>, Seq<RecordModel>>,
    continue_on_missing_auth: bool,
)
    requires
        0 <= i < replies.len(),
        forall|j: int| 0 <= j < replies.len() ==> #[trigger] replies[j] is Answered,
        replies[i]->set_cookie is Some,
        forall|j: int|
            i < j < replies.len() ==> (#[trigger] replies[j])->name != replies[i]->name
                || replies[j]->set_cookie is None,
    ensures
        harvest(replies) is Ok,
        harvest(replies)->Ok_0[replies[i]->name] == replies[i]->set_cookie->0,
        category_plan(
            base_url,
            category,
            Some(replies[i]->name),
            steps,
            data,
            harvest(replies)->Ok_0,
            continue_on_missing_auth,
        ) matches Ok(PlanModel::Dispatch(requests)) ==> forall|k: int|
            0 <= k < requests.len() ==> (#[trigger] requests[k]).request.cookie
                == replies[i]->set_cookie,
{
    lemma_harvest_keeps_cookie(replies, i);
    let session = harvest(replies)->Ok_0;
    let login = Some(replies[i]->name);
    if bind(steps, data) is Ok {
        lemma_planned_shape(base_url, bind(steps, data)->Ok_0, category_cookie(login, session));
    }
}

/// An error among the first bound steps is the error of the whole.
proof fn lemma_planned_prefix_error(
    base_url: Seq<char>,
    bound: Seq<(nat, nat, BoundModel)>,
    cookie: Option<Seq<char>>,
    n: int,
)
    requires
        0 <= n <= bound.len(),
    ensures
        planned(base_url, bound.take(n), cookie) is Err ==> planned(base_url, bound, cookie)
            == planned(base_url, bound.take(n), cookie),
    decreases bound.len() - n,
{
    if n < bound.len() {
        lemma_planned_prefix_error(base_url, bound, cookie, n + 1);
        assert(bound.take(n + 1).drop_last() =~= bound.take(n));
    } else {
        assert(bound.take(n) =~= bound);
    }
}

/// The requests of a list of bound steps, all with the same cookie.
fn plan_requests(
    base_url: &str,
    bound: &Vec<(usize, usize, FlattenStep)>,
    cookie: Option<&String>,
) -> (result: Result<Vec<PlannedRequest>, RunError>)
    ensures
        match result {
            Ok(requests) => planned(
                base_url@,
                flat_models(bound@),
                optional_text_ref(cookie),
            ) == Ok::<Seq<PlannedModel>, RunErrorModel>(planned_models(requests@)),
            Err(e) => planned(
                base_url@,
                flat_models(bound@),
                optional_text_ref(cookie),
            ) == Err::<Seq<PlannedModel>, RunErrorModel>(e@),
        },
{
    let ghost models = flat_models(bound@);
    let ghost jar = optional_text_ref(cookie);
    let mut requests: Vec<PlannedRequest> = Vec::new();
    let mut i: usize = 0;
    assert(models.take(0) =~= Seq::<(nat, nat, BoundModel)>::empty());
    assert(planned_models(requests@) =~= Seq::<PlannedModel>::empty());
    while i < bound.len()
        invariant
            models == flat_models(bound@),
            jar == optional_text_ref(cookie),
            i <= bound@.len(),
            planned(base_url@, models.take(i as int), jar) == Ok::<
                Seq<PlannedModel>,
                RunErrorModel,
            >(planned_models(requests@)),
        decreases bound.len() - i,
    {
        proof {
            let upto = models.take(i + 1);
            assert(upto.drop_last() =~= models.take(i as int));
            assert(upto.last() == models[i as int]);
            lemma_planned_prefix_error(base_url@, models, jar, i + 1);
        }
        let step = &bound[i].2;
        match build_request(base_url, step, cookie) {
            Ok(request) => {
                let entry = PlannedRequest {
                    name: step.name.clone(),
                    expect_status: step.input_data.expect_status,
                    request,
                };
                let ghost earlier = requests@;
                requests.push(entry);
                assert(planned_models(requests@) =~= planned_models(earlier).push(entry@));
            },
            Err(e) => {
                return Err(e);
            },
        }
        i = i + 1;
    }
    assert(models.take(i as int) =~= models);
    Ok(requests)
}

/// Decides what to do with a category and, where it is to be run, builds
/// its requests: one for each bound step, in binding order, each with the
/// session cookie of the category's login. A category whose session is
/// missing is skipped or fatal, as `continue_on_missing_auth` says, and
/// nothing of it is bound or built.
pub fn plan_category(
    base_url: &str,
    name: &str,
    category: &InputCaterogy,
    data: &InputDataMap,
    session: &SessionMap,
    continue_on_missing_auth: bool,
) -> (result: Result<CategoryPlan, RunError>)
    ensures
        plan_result_model(result) == category_plan(
            base_url@,
            name@,
            optional_text(category.login),
            step_models(category.steps@),
            data_model(*data),
            session_model(*session),
            continue_on_missing_auth,
        ),
{
    let cookie: Option<&String> = match &category.login {
        Some(login) => match session.get(login.as_str()) {
            Some(value) => Some(value),
            None => {
                if continue_on_missing_auth {
                    return Ok(CategoryPlan::Skip);
                } else {
                    return Err(RunError::Auth { category: name.to_owned() });
                }
            },
        },
        None => None,
    };
    match gen_flatten_step(&category.steps, data) {
        Ok(bound) => match plan_requests(base_url, &bound, cookie) {
            Ok(requests) => Ok(CategoryPlan::Dispatch(requests)),
            Err(e) => Err(e),
        },
        Err(e) => Err(e),
    }
}

} // verus!
