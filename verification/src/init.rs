//! The init phase: one request for each init step, and the session cookies
//! that their replies bring.

use vstd::prelude::*;
use crate::bind::bound_record;
use crate::error::{RunError, RunErrorModel};
use crate::request::{
    build, build_request, optional_text, request_result_model, HttpRequest, RequestModel,
};
use crate::table::Table;
use crate::types::{
    data_model, duplicate_optional_object, step_models, BoundModel, FlattenStep, InputData,
    InputDataMap, InputStep, RecordModel, StepModel,
};

verus! {

/// The sessions of a run: the name of an init step with the raw value of
/// the `Set-Cookie` header that its reply brought.
pub type SessionMap = Table<String>;

/// What came back for one init request: the step's name with the value of
/// the reply's `Set-Cookie` header, if it had one, or nothing at all.
#[derive(Debug)]
pub enum InitReply {
    Answered { name: String, set_cookie: Option<String> },
    Failed,
}

/// An init reply with its texts as character sequences.
pub enum InitReplyModel {
    Answered { name: Seq<char>, set_cookie: Option<Seq<char>> },
    Failed,
}

impl View for InitReply {
    type V = InitReplyModel;

    open spec fn view(&self) -> InitReplyModel {
        match self {
            InitReply::Answered { name, set_cookie } => InitReplyModel::Answered {
                name: name@,
                set_cookie: optional_text(*set_cookie),
            },
            InitReply::Failed => InitReplyModel::Failed,
        }
    }
}

/// The models of a sequence of replies.
pub open spec fn init_reply_models(replies: Seq<InitReply>) -> Seq<InitReplyModel> {
    Seq::new(replies.len(), |i: int| replies[i]@)
}

/// The model of the sessions: each name with its cookie text.
pub open spec fn session_model(session: SessionMap) -> Map<Seq<char>, Seq<char>> {
    Map::new(|k: Seq<char>| session@.contains_key(k), |k: Seq<char>| session@[k]@)
}

/// The models of a sequence of requests.
pub open spec fn request_models(requests: Seq<HttpRequest>) -> Seq<RequestModel> {
    Seq::new(requests.len(), |i: int| requests[i]@)
}

/// The one bound step of an init step: it keeps the step's name and takes
/// from the first record under its data key, where there is one, what the
/// step asks for.
pub open spec fn init_bound(step: StepModel, records: Seq<RecordModel>) -> BoundModel {
    BoundModel {
        name: step.name,
        path: step.path,
        method: step.method,
        input_data: if records.len() > 0 {
            bound_record(step, records[0])
        } else {
            RecordModel { body: None, query: None, expect_status: 0 }
        },
    }
}

/// The request of an init step. It carries no cookie: an init step opens a
/// session and uses none.
pub open spec fn init_request_of(
    base_url: Seq<char>,
    step: StepModel,
    data: Map<Seq<char>, Seq<RecordModel>>,
) -> Result<RequestModel, RunErrorModel> {
    if data.contains_key(step.ref_data) {
        build(base_url, init_bound(step, data[step.ref_data]), None)
    } else {
        Err(RunErrorModel::DataReference { key: step.ref_data })
    }
}

/// The requests of the init phase, one for each step and in step order, or
/// the error of the first step that has none.
pub open spec fn init_plan(
    base_url: Seq<char>,
    steps: Seq<StepModel>,
    data: Map<Seq<char>, Seq<RecordModel>>,
) -> Result<Seq<RequestModel>, RunErrorModel>
    decreases steps.len(),
{
    if steps.len() == 0 {
        Ok(Seq::empty())
    } else {
        match init_plan(base_url, steps.drop_last(), data) {
            Ok(requests) => match init_request_of(base_url, steps.last(), data) {
                Ok(request) => Ok(requests.push(request)),
                Err(e) => Err(e),
            },
            Err(e) => Err(e),
        }
    }
}

/// The sessions that a sequence of replies leaves: each reply with a cookie
/// stores it under its step's name, a later one over an earlier one; a
/// reply without a cookie stores nothing. One request without a reply makes
/// the whole a network error.
pub open spec fn harvest(replies: Seq<InitReplyModel>) -> Result<
    Map<Seq<char>, Seq<char>>,
    RunErrorModel,
>
    decreases replies.len(),
{
    if replies.len() == 0 {
        Ok(Map::empty())
    } else {
        match harvest(replies.drop_last()) {
            Ok(sessions) => match replies.last() {
                InitReplyModel::Answered { name, set_cookie: Some(cookie) } => Ok(
                    sessions.insert(name, cookie),
                ),
                InitReplyModel::Answered { name, set_cookie: None } => Ok(sessions),
                InitReplyModel::Failed => Err(RunErrorModel::Network),
            },
            Err(e) => Err(e),
        }
    }
}

/// A list of requests or an error, both as models.
pub open spec fn requests_result_model(result: Result<Vec<HttpRequest>, RunError>) -> Result<
    Seq<RequestModel>,
    RunErrorModel,
> {
    match result {
        Ok(requests) => Ok(request_models(requests@)),
        Err(e) => Err(e@),
    }
}

/// The sessions or an error, both as models.
pub open spec fn session_result_model(result: Result<SessionMap, RunError>) -> Result<
    Map<Seq<char>, Seq<char>>,
    RunErrorModel,
> {
    match result {
        Ok(session) => Ok(session_model(session)),
        Err(e) => Err(e@),
    }
}

/// A plan that succeeds has one request for each step.
pub proof fn lemma_init_plan_len(
    base_url: Seq<char>,
    steps: Seq<StepModel>,
    data: Map<Seq<char>, Seq<RecordModel>>,
)
    ensures
        init_plan(base_url, steps, data) matches Ok(requests) ==> requests.len() == steps.len()
            && forall|i: int|
            0 <= i < steps.len() ==> init_request_of(base_url, #[trigger] steps[i], data) == Ok::<
                RequestModel,
                RunErrorModel,
            >(requests[i]) && requests[i].cookie is None,
    decreases steps.len(),
{
    if steps.len() > 0 {
        lemma_init_plan_len(base_url, steps.drop_last(), data);
        if init_plan(base_url, steps, data) is Ok {
            let requests = init_plan(base_url, steps, data)->Ok_0;
            assert forall|i: int| 0 <= i < steps.len() implies init_request_of(
                base_url,
                #[trigger] steps[i],
                data,
            ) == Ok::<RequestModel, RunErrorModel>(requests[i]) && requests[i].cookie is None by {
                if i < steps.len() - 1 {
                    assert(steps.drop_last()[i] == steps[i]);
                }
            }
        }
    }
}

/// Replies that all arrived leave sessions; the cookie of reply `i` stands
/// under its step's name unless a later reply for the same name brought
/// another.
pub proof fn lemma_harvest_keeps_cookie(replies: Seq<InitReplyModel>, i: int)
    requires
        0 <= i < replies.len(),
        forall|j: int| 0 <= j < replies.len() ==> #[trigger] replies[j] is Answered,
        replies[i]->set_cookie is Some,
        forall|j: int|
            i < j < replies.len() ==> (#[trigger] replies[j])->name != replies[i]->name
                || replies[j]->set_cookie is None,
    ensures
        harvest(replies) is Ok,
        harvest(replies)->Ok_0.contains_key(replies[i]->name),
        harvest(replies)->Ok_0[replies[i]->name] == replies[i]->set_cookie->0,
    decreases replies.len(),
{
    let shorter = replies.drop_last();
    lemma_harvest_total(shorter);
    if i < replies.len() - 1 {
        assert(shorter[i] == replies[i]);
        assert forall|j: int| i < j < shorter.len() implies (#[trigger] shorter[j])->name
            != shorter[i]->name || shorter[j]->set_cookie is None by {
            assert(shorter[j] == replies[j]);
        }
        lemma_harvest_keeps_cookie(shorter, i);
        assert(replies.last() == replies[replies.len() - 1]);
    }
}

/// Replies that all arrived leave sessions.
pub proof fn lemma_harvest_total(replies: Seq<InitReplyModel>)
    requires
        forall|j: int| 0 <= j < replies.len() ==> #[trigger] replies[j] is Answered,
    ensures
        harvest(replies) is Ok,
    decreases replies.len(),
{
    if replies.len() > 0 {
        lemma_harvest_total(replies.drop_last());
    }
}

/// The request of one init step.
pub fn init_request(base_url: &str, step: &InputStep, data: &InputDataMap) -> (result: Result<
    HttpRequest,
    RunError,
>)
    ensures
        request_result_model(result) == init_request_of(base_url@, step@, data_model(*data)),
{
    match data.get(step.ref_data.as_str()) {
        Some(records) => {
            let input_data = if records.len() > 0 {
                let record = &records[0];
                InputData {
                    body: if step.option.body {
                        duplicate_optional_object(&record.body)
                    } else {
                        None
                    },
                    query: if step.option.query {
                        duplicate_optional_object(&record.query)
                    } else {
                        None
                    },
                    expect_status: record.expect_status,
                }
            } else {
                InputData { body: None, query: None, expect_status: 0 }
            };
            let bound = FlattenStep {
                name: step.name.clone(),
                path: step.path.clone(),
                method: step.method.clone(),
                input_data,
            };
            assert(bound@ == init_bound(step@, data_model(*data)[step@.ref_data]));
            build_request(base_url, &bound, None)
        },
        None => Err(RunError::DataReference { key: step.ref_data.clone() }),
    }
}

/// Plans the init phase: the requests to send, one for each init step and
/// in step order, none of them with a cookie. Nothing is planned where a
/// step fails: the first step whose data key is unknown, or whose path
/// names a placeholder that its query lacks, gives its error.
pub fn init_requests(base_url: &str, init_steps: &Vec<InputStep>, data: &InputDataMap) -> (result:
    Result<Vec<HttpRequest>, RunError>)
    ensures
        requests_result_model(result) == init_plan(
            base_url@,
            step_models(init_steps@),
            data_model(*data),
        ),
        result matches Ok(requests) ==> requests@.len() == init_steps@.len(),
{
    let ghost steps = step_models(init_steps@);
    let mut requests: Vec<HttpRequest> = Vec::new();
    let mut i: usize = 0;
    assert(steps.take(0) =~= Seq::<StepModel>::empty());
    assert(request_models(requests@) =~= Seq::<RequestModel>::empty());
    while i < init_steps.len()
        invariant
            steps == step_models(init_steps@),
            i <= init_steps@.len(),
            requests@.len() == i,
            init_plan(base_url@, steps.take(i as int), data_model(*data)) == Ok::<
                Seq<RequestModel>,
                RunErrorModel,
            >(request_models(requests@)),
        decreases init_steps.len() - i,
    {
        let ghost upto = steps.take(i + 1);
        proof {
            assert(upto.drop_last() =~= steps.take(i as int));
            assert(upto.last() == steps[i as int]);
            lemma_init_plan_prefix_error(base_url@, steps, data_model(*data), i + 1);
        }
        match init_request(base_url, &init_steps[i], data) {
            Ok(request) => {
                let ghost earlier = requests@;
                requests.push(request);
                assert(request_models(requests@) =~= request_models(earlier).push(request@));
            },
            Err(e) => {
                return Err(e);
            },
        }
        i = i + 1;
    }
    assert(steps.take(i as int) =~= steps);
    Ok(requests)
}

/// An error among the first steps is the error of the whole plan.
proof fn lemma_init_plan_prefix_error(
    base_url: Seq<char>,
    steps: Seq<StepModel>,
    data: Map<Seq<char>, Seq<RecordModel>>,
    n: int,
)
    requires
        0 <= n <= steps.len(),
    ensures
        init_plan(base_url, steps.take(n), data) is Err ==> init_plan(base_url, steps, data)
            == init_plan(base_url, steps.take(n), data),
    decreases steps.len() - n,
{
    if n < steps.len() {
        lemma_init_plan_prefix_error(base_url, steps, data, n + 1);
        assert(steps.take(n + 1).drop_last() =~= steps.take(n));
    } else {
        assert(steps.take(n) =~= steps);
    }
}

/// Gathers the sessions of the init phase from its replies, taken in
/// order. A reply with a `Set-Cookie` value stores it under the name of its
/// step; a reply without one stores nothing and is no error. A single
/// request that got no reply fails the whole phase with a network error.
pub fn harvest_sessions(replies: &Vec<InitReply>) -> (result: Result<SessionMap, RunError>)
    ensures
        session_result_model(result) == harvest(init_reply_models(replies@)),
{
    let ghost models = init_reply_models(replies@);
    let mut session: SessionMap = Table::new();
    let mut i: usize = 0;
    assert(models.take(0) =~= Seq::<InitReplyModel>::empty());
    assert(session_model(session) =~= Map::<Seq<char>, Seq<char>>::empty());
    while i < replies.len()
        invariant
            models == init_reply_models(replies@),
            i <= replies@.len(),
            harvest(models.take(i as int)) == Ok::<Map<Seq<char>, Seq<char>>, RunErrorModel>(
                session_model(session),
            ),
        decreases replies.len() - i,
    {
        let ghost upto = models.take(i + 1);
        let ghost before = session_model(session);
        proof {
            assert(upto.drop_last() =~= models.take(i as int));
            assert(upto.last() == models[i as int]);
            lemma_harvest_prefix_error(models, i + 1);
        }
        match &replies[i] {
            InitReply::Answered { name, set_cookie } => {
                match set_cookie {
                    Some(cookie) => {
                        session.insert(name.clone(), cookie.clone());
                        assert(session_model(session) =~= before.insert(name@, cookie@));
                    },
                    None => {},
                }
            },
            InitReply::Failed => {
                return Err(RunError::Network);
            },
        }
        i = i + 1;
    }
    assert(models.take(i as int) =~= models);
    Ok(session)
}

/// An error among the first replies is the error of the whole.
proof fn lemma_harvest_prefix_error(replies: Seq<InitReplyModel>, n: int)
    requires
        0 <= n <= replies.len(),
    ensures
        harvest(replies.take(n)) is Err ==> harvest(replies) == harvest(replies.take(n)),
    decreases replies.len() - n,
{
    if n < replies.len() {
        lemma_harvest_prefix_error(replies, n + 1);
        assert(replies.take(n + 1).drop_last() =~= replies.take(n));
    } else {
        assert(replies.take(n) =~= replies);
    }
}

} // verus!
