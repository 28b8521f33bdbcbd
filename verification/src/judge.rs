//! Judging replies: a response is a success where it carries the expected
//! status and a failure where it does not; a request without a response is
//! fatal to the run.

use vstd::prelude::*;
use vstd::string::StringExecFns;
use crate::error::{RunError, RunErrorModel};
use crate::request::optional_text;
use crate::text::{decimal, push_decimal};
use crate::types::{outcome_models, OutcomeModel, OutputResult};

verus! {

/// The reason phrase that goes with a status code, for the codes that have
/// one.
pub uninterp spec fn canonical_reason(code: u16) -> Option<Seq<char>>;

/// The phrase that `reqwest::StatusCode::canonical_reason` gives for the
/// status code that `reqwest::StatusCode::from_u16` makes of `code`, which
/// it does for every code from 100 to 999. The phrase depends on the code
/// alone; nothing is claimed of which codes have one.
#[verifier::external_body]
fn reason_phrase(code: u16) -> (reason: Option<String>)
    requires
        100 <= code < 1000,
    ensures
        optional_text(reason) == canonical_reason(code),
{
    match reqwest::StatusCode::from_u16(code) {
        Ok(status) => status.canonical_reason().map(String::from),
        Err(_) => None,
    }
}

/// The reason phrase of a code that a response can carry, and none for any
/// other number.
pub open spec fn known_reason(code: u16) -> Option<Seq<char>> {
    if 100 <= code < 1000 {
        canonical_reason(code)
    } else {
        None
    }
}

/// How a status is shown: the code, a space, and its reason phrase or a
/// fixed text in its place.
pub open spec fn status_line(code: u16, reason: Option<Seq<char>>) -> Seq<char> {
    decimal(code as nat) + seq![' '] + match reason {
        Some(phrase) => phrase,
        None => "<unknown status code>"@,
    }
}

/// The message of an outcome: it cites the observed status and the
/// expected code.
pub open spec fn outcome_message(passed: bool, line: Seq<char>, expected: u16) -> Seq<char> {
    (if passed {
        "success"@
    } else {
        "failed"@
    }) + " (status: "@ + line + ", expect status: "@ + decimal(expected as nat) + seq![')']
}

/// The outcome of a step whose response carried the status `observed`: a
/// success exactly when that is the expected status.
pub open spec fn outcome(
    name: Seq<char>,
    category: Seq<char>,
    expected: u16,
    observed: u16,
    reason: Option<Seq<char>>,
    elapsed: u64,
) -> OutcomeModel {
    OutcomeModel {
        name,
        category,
        status: if observed == expected {
            "success"@
        } else {
            "failure"@
        },
        duration: elapsed,
        message: outcome_message(observed == expected, status_line(observed, reason), expected),
    }
}

/// What came back for one request of the test phase: the name and the
/// expected status of its bound step with the observed status and the
/// nanoseconds from dispatch to response, or nothing at all.
#[derive(Debug)]
pub enum TestReply {
    Answered { name: String, expect_status: u16, status: u16, elapsed: u64 },
    Failed,
}

/// A reply with its name as a character sequence.
pub enum TestReplyModel {
    Answered { name: Seq<char>, expect_status: u16, status: u16, elapsed: u64 },
    Failed,
}

impl View for TestReply {
    type V = TestReplyModel;

    open spec fn view(&self) -> TestReplyModel {
        match self {
            TestReply::Answered { name, expect_status, status, elapsed } => TestReplyModel::Answered {
                name: name@,
                expect_status: *expect_status,
                status: *status,
                elapsed: *elapsed,
            },
            TestReply::Failed => TestReplyModel::Failed,
        }
    }
}

/// The models of a sequence of replies.
pub open spec fn test_reply_models(replies: Seq<TestReply>) -> Seq<TestReplyModel> {
    Seq::new(replies.len(), |i: int| replies[i]@)
}

/// The outcomes of a category's replies, one for each reply and in reply
/// order. A request without a reply is no outcome: it makes the whole a
/// network error.
pub open spec fn outcomes(category: Seq<char>, replies: Seq<TestReplyModel>) -> Result<
    Seq<OutcomeModel>,
    RunErrorModel,
>
    decreases replies.len(),
{
    if replies.len() == 0 {
        Ok(Seq::empty())
    } else {
        match outcomes(category, replies.drop_last()) {
            Ok(earlier) => match replies.last() {
                TestReplyModel::Answered { name, expect_status, status, elapsed } => Ok(
                    earlier.push(
                        outcome(name, category, expect_status, status, known_reason(status), elapsed),
                    ),
                ),
                TestReplyModel::Failed => Err(RunErrorModel::Network),
            },
            Err(e) => Err(e),
        }
    }
}

/// A list of outcomes or an error, both as models.
pub open spec fn outcomes_result_model(result: Result<Vec<OutputResult>, RunError>) -> Result<
    Seq<OutcomeModel>,
    RunErrorModel,
> {
    match result {
        Ok(list) => Ok(outcome_models(list@)),
        Err(e) => Err(e@),
    }
}

/// A reply is a success exactly when its status is the expected one, a
/// failure otherwise, and its message holds both codes in decimal.
pub proof fn lemma_outcome_verdict(
    name: Seq<char>,
    category: Seq<char>,
    expected: u16,
    observed: u16,
    reason: Option<Seq<char>>,
    elapsed: u64,
)
    ensures
        "success"@ != "failure"@,
        outcome(name, category, expected, observed, reason, elapsed).status == "success"@
            <==> observed == expected,
        outcome(name, category, expected, observed, reason, elapsed).status == "failure"@
            <==> observed != expected,
        exists|before: Seq<char>, between: Seq<char>, behind: Seq<char>|
            outcome(name, category, expected, observed, reason, elapsed).message == before
                + decimal(observed as nat) + between + decimal(expected as nat) + behind,
{
    reveal_strlit("success");
    reveal_strlit("failure");
    assert("success"@[0] != "failure"@[0]);
    let passed = observed == expected;
    let before = (if passed {
        "success"@
    } else {
        "failed"@
    }) + " (status: "@;
    let between = seq![' '] + (match reason {
        Some(phrase) => phrase,
        None => "<unknown status code>"@,
    }) + ", expect status: "@;
    let behind = seq![')'];
    assert(outcome(name, category, expected, observed, reason, elapsed).message =~= before
        + decimal(observed as nat) + between + decimal(expected as nat) + behind);
}

/// Every reply has its outcome, at its own place; a request without a
/// reply, and nothing else, makes the whole a network error.
pub proof fn lemma_outcomes_shape(category: Seq<char>, replies: Seq<TestReplyModel>)
    ensures
        match outcomes(category, replies) {
            Ok(list) => {
                &&& list.len() == replies.len()
                &&& forall|i: int|
                    0 <= i < replies.len() ==> (#[trigger] replies[i]) is Answered && list[i]
                        == outcome(
                        replies[i]->name,
                        category,
                        replies[i]->expect_status,
                        replies[i]->status,
                        known_reason(replies[i]->status),
                        replies[i]->elapsed,
                    )
            },
            Err(e) => e == RunErrorModel::Network && exists|i: int|
                0 <= i < replies.len() && (#[trigger] replies[i]) is Failed,
        },
    decreases replies.len(),
{
    if replies.len() > 0 {
        let shorter = replies.drop_last();
        lemma_outcomes_shape(category, shorter);
        match outcomes(category, shorter) {
            Ok(earlier) => {
                if replies.last() is Failed {
                    assert(replies[replies.len() - 1] is Failed);
                } else {
                    let list = outcomes(category, replies)->Ok_0;
                    assert forall|i: int| 0 <= i < replies.len() implies (
                    #[trigger] replies[i]) is Answered && list[i] == outcome(
                        replies[i]->name,
                        category,
                        replies[i]->expect_status,
                        replies[i]->status,
                        known_reason(replies[i]->status),
                        replies[i]->elapsed,
                    ) by {
                        if i < replies.len() - 1 {
                            assert(shorter[i] == replies[i]);
                        }
                    }
                }
            },
            Err(e) => {
                let i = choose|i: int| 0 <= i < shorter.len() && (#[trigger] shorter[i]) is Failed;
                assert(replies[i] is Failed);
            },
        }
    }
}

/// The outcome of one reply, given the reason phrase of its status.
pub fn outcome_with_reason(
    name: &str,
    category: &str,
    expect_status: u16,
    status: u16,
    reason: Option<&str>,
    elapsed: u64,
) -> (result: OutputResult)
    ensures
        result@ == outcome(
            name@,
            category@,
            expect_status,
            status,
            match reason {
                Some(phrase) => Some(phrase@),
                None => None,
            },
            elapsed,
        ),
{
    let passed = status == expect_status;
    let mut message = if passed {
        String::from_str("success")
    } else {
        String::from_str("failed")
    };
    message.append(" (status: ");
    push_decimal(&mut message, status as u64);
    message.push(' ');
    match reason {
        Some(phrase) => message.append(phrase),
        None => message.append("<unknown status code>"),
    }
    message.append(", expect status: ");
    push_decimal(&mut message, expect_status as u64);
    message.push(')');
    let verdict = if passed {
        String::from_str("success")
    } else {
        String::from_str("failure")
    };
    let ghost line = status_line(
        status,
        match reason {
            Some(phrase) => Some(phrase@),
            None => None,
        },
    );
    assert(message@ =~= outcome_message(passed, line, expect_status));
    OutputResult {
        name: name.to_owned(),
        category: category.to_owned(),
        status: verdict,
        duration: elapsed,
        message,
    }
}

/// Judges one reply: a success where the observed status is the expected
/// one, a failure where it is not, with a message that cites both.
pub fn evaluate(name: &str, category: &str, expect_status: u16, status: u16, elapsed: u64) -> (result:
    OutputResult)
    ensures
        result@ == outcome(name@, category@, expect_status, status, known_reason(status), elapsed),
{
    if 100 <= status && status < 1000 {
        match reason_phrase(status) {
            Some(phrase) => outcome_with_reason(
                name,
                category,
                expect_status,
                status,
                Some(phrase.as_str()),
                elapsed,
            ),
            None => outcome_with_reason(name, category, expect_status, status, None, elapsed),
        }
    } else {
        outcome_with_reason(name, category, expect_status, status, None, elapsed)
    }
}

/// An error among the first replies is the error of the whole.
proof fn lemma_outcomes_prefix_error(category: Seq<char>, replies: Seq<TestReplyModel>, n: int)
    requires
        0 <= n <= replies.len(),
    ensures
        outcomes(category, replies.take(n)) is Err ==> outcomes(category, replies) == outcomes(
            category,
            replies.take(n),
        ),
    decreases replies.len() - n,
{
    if n < replies.len() {
        lemma_outcomes_prefix_error(category, replies, n + 1);
        assert(replies.take(n + 1).drop_last() =~= replies.take(n));
    } else {
        assert(replies.take(n) =~= replies);
    }
}

/// Folds the replies of one category into outcomes, one for each reply and
/// in reply order. A status that differs from the expected one is a failed
/// outcome, not an error. A single request without a reply is fatal: no
/// outcome of the category is kept.
pub fn collect_outcomes(category: &str, replies: &Vec<TestReply>) -> (result: Result<
    Vec<OutputResult>,
    RunError,
>)
    ensures
        outcomes_result_model(result) == outcomes(category@, test_reply_models(replies@)),
{
    let ghost models = test_reply_models(replies@);
    let mut list: Vec<OutputResult> = Vec::new();
    let mut i: usize = 0;
    assert(models.take(0) =~= Seq::<TestReplyModel>::empty());
    assert(outcome_models(list@) =~= Seq::<OutcomeModel>::empty());
    while i < replies.len()
        invariant
            models == test_reply_models(replies@),
            i <= replies@.len(),
            outcomes(category@, models.take(i as int)) == Ok::<Seq<OutcomeModel>, RunErrorModel>(
                outcome_models(list@),
            ),
        decreases replies.len() - i,
    {
        proof {
            let upto = models.take(i + 1);
            assert(upto.drop_last() =~= models.take(i as int));
            assert(upto.last() == models[i as int]);
            lemma_outcomes_prefix_error(category@, models, i + 1);
        }
        match &replies[i] {
            TestReply::Answered { name, expect_status, status, elapsed } => {
                let result = evaluate(name.as_str(), category, *expect_status, *status, *elapsed);
                let ghost earlier = list@;
                list.push(result);
                assert(outcome_models(list@) =~= outcome_models(earlier).push(result@));
            },
            TestReply::Failed => {
                return Err(RunError::Network);
            },
        }
        i = i + 1;
    }
    assert(models.take(i as int) =~= models);
    Ok(list)
}

} // verus!
