//! Answering each request once.
//!
//! Every request that writes carries an operation of its own. Sent again with
//! the same body it gets the recorded answer; sent again with another body it is
//! refused, because answering a question that was never asked would be worse.

use vstd::prelude::*;

use crate::domain::{Request, RequestModel, Response, ResponseModel};
use crate::error::{StoreError, StoreErrorModel};
use crate::ids::OperationId;
use crate::rows::{
    first_row, is_first, lemma_first, lemma_first_is_first, lemma_first_pushed, lemma_no_first,
};
use crate::tables::{OperationRow, OperationRowModel, Store, StoreModel};

verus! {

/// Being the operation `id`.
pub open spec fn is_operation(id: OperationId) -> spec_fn(OperationRowModel) -> bool {
    |row: OperationRowModel| row.id == id
}

/// What the store knows of an operation.
pub enum Recall {
    /// It was never sent.
    New,
    /// It was sent with another request.
    Conflict,
    /// It was sent with this request, and answered.
    Answered(ResponseModel),
}

/// What the store knows of an operation that carries `request`.
pub open spec fn recall(s: StoreModel, id: OperationId, request: RequestModel) -> Recall {
    match first_row(s.operations, is_operation(id)) {
        None => Recall::New,
        Some(row) => if row.request == request {
            Recall::Answered(row.response)
        } else {
            Recall::Conflict
        },
    }
}

/// The store with an answer recorded.
pub open spec fn with_operation(
    s: StoreModel,
    id: OperationId,
    request: RequestModel,
    response: ResponseModel,
    now: Seq<char>,
) -> StoreModel {
    StoreModel {
        operations: s.operations.push(
            OperationRowModel { id, request, response, created_at: now },
        ),
        ..s
    }
}

/// The refusal of a recorded answer that is not of the kind that was asked for.
pub open spec fn wrong_kind() -> StoreErrorModel {
    StoreErrorModel::Serialization("the recorded response answers another kind of request"@)
}

/// Running `body` once for an operation. `body` is what the request comes to on
/// a store that has not seen it: an answer and the store after it, or a refusal.
/// A refusal writes nothing.
pub open spec fn executed<R>(
    s: StoreModel,
    id: OperationId,
    request: RequestModel,
    body: Result<(R, StoreModel), StoreErrorModel>,
    answer: spec_fn(R) -> ResponseModel,
    reading: spec_fn(ResponseModel) -> Option<R>,
    now: Seq<char>,
) -> (Result<R, StoreErrorModel>, StoreModel) {
    match recall(s, id, request) {
        Recall::Conflict => (Err(StoreErrorModel::IdempotencyConflict(id)), s),
        Recall::Answered(response) => (
            match reading(response) {
                Some(result) => Ok(result),
                None => Err(wrong_kind()),
            },
            s,
        ),
        Recall::New => match body {
            Ok((result, after)) => (
                Ok(result),
                with_operation(after, id, request, answer(result), now),
            ),
            Err(error) => (Err(error), s),
        },
    }
}

impl Store {
    /// The recorded answer to an operation: `None` when it was never sent, and a
    /// refusal when it was sent with another request.
    pub fn lookup_operation(&self, id: OperationId, request: &Request) -> (r: Result<
        Option<Response>,
        StoreError,
    >)
        ensures
            match recall(self@, id, request@) {
                Recall::New => r matches Ok(found) && found is None,
                Recall::Conflict => r matches Err(error) && error@
                    == StoreErrorModel::IdempotencyConflict(id),
                Recall::Answered(response) => r matches Ok(found) && found matches Some(recorded)
                    && recorded@ == response,
            },
    {
        let ghost p = is_operation(id);
        let mut i: usize = 0;
        while i < self.operations.len()
            invariant
                i <= self.operations@.len(),
                p == is_operation(id),
                forall|j: int| 0 <= j < i ==> !p(#[trigger] self@.operations[j]),
            decreases self.operations@.len() - i,
        {
            if self.operations[i].id == id {
                proof {
                    assert(is_first(self@.operations, p, i as int));
                    lemma_first(self@.operations, p, i as int);
                }
                if self.operations[i].request.same(request) {
                    return Ok(Some(self.operations[i].response.dup()));
                }
                return Err(StoreError::IdempotencyConflict(id));
            }
            i += 1;
        }
        proof {
            lemma_no_first(self@.operations, p);
        }
        Ok(None)
    }

    /// Records the answer to an operation.
    pub fn record_operation(
        &mut self,
        id: OperationId,
        request: Request,
        response: Response,
        now: &str,
    )
        ensures
            final(self)@ == with_operation(old(self)@, id, request@, response@, now@),
    {
        let ghost before = self@;
        let row = OperationRow { id, request, response, created_at: now.to_owned() };
        let ghost added = row@;
        self.operations.push(row);
        assert(self@.operations =~= before.operations.push(added));
        assert(self@ =~= (StoreModel { operations: before.operations.push(added), ..before }));
    }
}

// --- laws ------------------------------------------------------------------

/// An operation that was answered is answered the same when it is sent again,
/// and sending it again changes nothing, whatever it would have come to had it
/// not been seen.
pub proof fn law_replay_gives_the_recorded_answer<R>(
    s: StoreModel,
    id: OperationId,
    request: RequestModel,
    body: Result<(R, StoreModel), StoreErrorModel>,
    again: Result<(R, StoreModel), StoreErrorModel>,
    answer: spec_fn(R) -> ResponseModel,
    reading: spec_fn(ResponseModel) -> Option<R>,
    now: Seq<char>,
    later: Seq<char>,
)
    requires
        forall|r: R| #[trigger] reading(answer(r)) == Some(r),
        body matches Ok((_, after)) ==> after.operations == s.operations,
        executed(s, id, request, body, answer, reading, now).0 is Ok,
    ensures
        ({
            let first = executed(s, id, request, body, answer, reading, now);
            executed(first.1, id, request, again, answer, reading, later) == first
        }),
{
    if recall(s, id, request) is New {
        let (result, after) = body->Ok_0;
        lemma_first_is_first(s.operations, is_operation(id));
        lemma_first_pushed(
            s.operations,
            is_operation(id),
            OperationRowModel { id, request, response: answer(result), created_at: now },
        );
    }
}

/// An operation that was answered is refused when it is sent again with another
/// request, and nothing changes.
pub proof fn law_another_request_is_refused<R>(
    s: StoreModel,
    id: OperationId,
    request: RequestModel,
    other: RequestModel,
    body: Result<(R, StoreModel), StoreErrorModel>,
    again: Result<(R, StoreModel), StoreErrorModel>,
    answer: spec_fn(R) -> ResponseModel,
    reading: spec_fn(ResponseModel) -> Option<R>,
    now: Seq<char>,
    later: Seq<char>,
)
    requires
        other != request,
        body matches Ok((_, after)) ==> after.operations == s.operations,
        executed(s, id, request, body, answer, reading, now).0 is Ok,
    ensures
        ({
            let after = executed(s, id, request, body, answer, reading, now).1;
            executed(after, id, other, again, answer, reading, later) == (
                Err::<R, StoreErrorModel>(StoreErrorModel::IdempotencyConflict(id)),
                after,
            )
        }),
{
    if recall(s, id, request) is New {
        let (result, after) = body->Ok_0;
        lemma_first_is_first(s.operations, is_operation(id));
        lemma_first_pushed(
            s.operations,
            is_operation(id),
            OperationRowModel { id, request, response: answer(result), created_at: now },
        );
    }
}

/// A refused operation leaves everything as it was.
pub proof fn law_refusal_writes_nothing<R>(
    s: StoreModel,
    id: OperationId,
    request: RequestModel,
    body: Result<(R, StoreModel), StoreErrorModel>,
    answer: spec_fn(R) -> ResponseModel,
    reading: spec_fn(ResponseModel) -> Option<R>,
    now: Seq<char>,
)
    ensures
        executed(s, id, request, body, answer, reading, now).0 is Err ==> executed(
            s,
            id,
            request,
            body,
            answer,
            reading,
            now,
        ).1 == s,
{
}

} // verus!
