use vstd::prelude::*;

use crate::config::Response;
use crate::executor::traits::{DatabaseProvider, DbModel, RequestContext, TimeProvider};
use crate::executor::{eval_entries_model, eval_model, Executor};
use crate::pipeline::error::ErrModel;
use crate::pipeline::{Context, ExecutionError, PipelineStep};
use crate::value::{entries_model, obj_insert, Val, Value};

verus! {

/// A response envelope: what an early return carries, and what a
/// structured response produces.
#[derive(Debug)]
pub struct Envelope {
    /// HTTP status code.
    pub status: u16,
    /// Response headers, each evaluated to a value.
    pub headers: Vec<(String, Value)>,
    /// Response body.
    pub body: Value,
}

/// What running a pipeline hands back to the HTTP collaborator: a
/// plain value, or a full response envelope.
#[derive(Debug)]
pub enum PipelineOutcome {
    /// A bare value from a conditional response expression.
    Value(Value),
    /// A response envelope, from a structured response or an early
    /// return.
    Envelope(Envelope),
}

/// The mathematical model of a pipeline outcome.
pub enum OutcomeModel {
    Value(Val),
    Envelope(u16, Seq<(Seq<char>, Val)>, Val),
}

impl View for PipelineOutcome {
    type V = OutcomeModel;

    open spec fn view(&self) -> OutcomeModel {
        match self {
            PipelineOutcome::Value(v) => OutcomeModel::Value(v@),
            PipelineOutcome::Envelope(env) => OutcomeModel::Envelope(
                env.status,
                entries_model(env.headers@),
                env.body@,
            ),
        }
    }
}

/// What the steps of a pipeline do to the context: each step's value
/// is evaluated; a named step binds its result, an unnamed one
/// discards it; the first error halts the walk.
pub open spec fn run_steps_model(
    now: Seq<char>,
    db: DbModel,
    ctx: Seq<(Seq<char>, Val)>,
    steps: Seq<PipelineStep>,
) -> (Result<Seq<(Seq<char>, Val)>, ErrModel>, DbModel)
    decreases steps.len(),
{
    if steps.len() == 0 {
        (Ok(ctx), db)
    } else {
        let (r0, db1) = eval_model(now, db, ctx, steps[0].value);
        match r0 {
            Err(e) => (Err(e), db1),
            Ok(v) => {
                let ctx2 = match steps[0].name {
                    Some(n) => obj_insert(ctx, n@, v),
                    None => ctx,
                };
                run_steps_model(now, db1, ctx2, steps.drop_first())
            },
        }
    }
}

/// What a whole pipeline returns: the steps run in order, then the
/// response expression is evaluated under the final context. An early
/// return anywhere becomes the outcome's envelope; any other error
/// propagates.
pub open spec fn run_pipeline_model(
    now: Seq<char>,
    db: DbModel,
    ctx: Seq<(Seq<char>, Val)>,
    steps: Seq<PipelineStep>,
    response: Response,
) -> (Result<OutcomeModel, ErrModel>, DbModel) {
    let (cr, db1) = run_steps_model(now, db, ctx, steps);
    match cr {
        Err(e) => (early_or_err(e), db1),
        Ok(ctx2) => match response {
            Response::Conditional(ov) => {
                let (r, db2) = eval_model(now, db1, ctx2, ov);
                (
                    match r {
                        Ok(v) => Ok(OutcomeModel::Value(v)),
                        Err(e) => early_or_err(e),
                    },
                    db2,
                )
            },
            Response::Static { status, headers, body } => {
                let (br, db2) = eval_model(now, db1, ctx2, body);
                match br {
                    Err(e) => (early_or_err(e), db2),
                    Ok(b) => {
                        let (hr, db3) = eval_entries_model(now, db2, ctx2, headers@, Seq::empty());
                        (
                            match hr {
                                Err(e) => early_or_err(e),
                                Ok(hs) => Ok(OutcomeModel::Envelope(status, hs, b)),
                            },
                            db3,
                        )
                    },
                }
            },
        },
    }
}

/// An early return read as a successful envelope; any other error
/// stays an error.
pub open spec fn early_or_err(e: ErrModel) -> Result<OutcomeModel, ErrModel> {
    match e {
        ErrModel::EarlyReturn { status, headers, body } => Ok(
            OutcomeModel::Envelope(status, headers, body),
        ),
        _ => Err(e),
    }
}

/// Turns an evaluation result into a pipeline outcome: an early
/// return becomes an envelope, any other error propagates.
fn outcome_of_error(e: ExecutionError) -> (r: Result<PipelineOutcome, ExecutionError>)
    ensures
        match r {
            Ok(o) => early_or_err(e@) == Ok::<OutcomeModel, ErrModel>(o@),
            Err(e2) => early_or_err(e@) == Err::<OutcomeModel, ErrModel>(e2@) && e2@ == e@,
        },
{
    match e {
        ExecutionError::EarlyReturn { status, headers, body } => Ok(
            PipelineOutcome::Envelope(Envelope { status, headers, body }),
        ),
        other => Err(other),
    }
}

/// Runs a pipeline and its response expression, exactly as
/// `run_pipeline_model` states: steps execute sequentially in declared
/// order, each step's storage effects visible to the next; an early
/// return is a successful terminal envelope, never an error.
pub fn run_pipeline<D: DatabaseProvider, T: TimeProvider, R: RequestContext>(
    executor: &mut Executor<D, T, R>,
    context: Context,
    steps: &Vec<PipelineStep>,
    response: &Response,
) -> (r: Result<PipelineOutcome, ExecutionError>)
    ensures
        ({
            let (res, db2) = run_pipeline_model(
                old(executor).time.iso_model(),
                old(executor).database.db_model(),
                context@,
                steps@,
                *response,
            );
            &&& final(executor).database.db_model() == db2
            &&& final(executor).time == old(executor).time
            &&& final(executor).request == old(executor).request
            &&& match r {
                Ok(o) => res == Ok::<OutcomeModel, ErrModel>(o@),
                Err(e) => res == Err::<OutcomeModel, ErrModel>(e@),
            }
        }),
{
    let ghost now = executor.time.iso_model();
    let ghost db0 = executor.database.db_model();
    let ghost cm0 = context@;
    let ghost t0 = executor.time;
    let ghost rq0 = executor.request;
    let mut ctx = context;
    proof {
        assert(steps@.skip(0) =~= steps@);
    }
    let mut i: usize = 0;
    while i < steps.len()
        invariant
            i <= steps.len(),
            executor.time == t0,
            executor.request == rq0,
            now == t0.iso_model(),
            t0 == old(executor).time,
            rq0 == old(executor).request,
            db0 == old(executor).database.db_model(),
            cm0 == context@,
            run_steps_model(now, db0, cm0, steps@) == run_steps_model(
                now,
                executor.database.db_model(),
                ctx@,
                steps@.skip(i as int),
            ),
        decreases steps.len() - i,
    {
        proof {
            assert(steps@.skip(i as int)[0] == steps@[i as int]);
            assert(steps@.skip(i as int).drop_first() =~= steps@.skip(i + 1));
        }
        let v = match executor.eval(&ctx, &steps[i].value) {
            Ok(v) => v,
            Err(e) => {
                return outcome_of_error(e);
            },
        };
        match &steps[i].name {
            Some(n) => {
                ctx.set_var(n.as_str(), v);
            },
            None => {},
        }
        i = i + 1;
    }
    proof {
        assert(steps@.skip(steps@.len() as int).len() == 0);
    }
    match response {
        Response::Conditional(ov) => {
            match executor.eval(&ctx, ov) {
                Ok(v) => Ok(PipelineOutcome::Value(v)),
                Err(e) => outcome_of_error(e),
            }
        },
        Response::Static { status, headers, body } => {
            let b = match executor.eval(&ctx, body) {
                Ok(v) => v,
                Err(e) => {
                    return outcome_of_error(e);
                },
            };
            let hs = match eval_response_headers(executor, &ctx, headers) {
                Ok(hs) => hs,
                Err(e) => {
                    return outcome_of_error(e);
                },
            };
            Ok(PipelineOutcome::Envelope(Envelope { status: *status, headers: hs, body: b }))
        },
    }
}

/// The headers of a structured response, each evaluated, as
/// `eval_entries_model` states.
fn eval_response_headers<D: DatabaseProvider, T: TimeProvider, R: RequestContext>(
    executor: &mut Executor<D, T, R>,
    context: &Context,
    headers: &Vec<(String, crate::operators::OperatorValue)>,
) -> (r: Result<Vec<(String, Value)>, ExecutionError>)
    ensures
        ({
            let (res, db2) = eval_entries_model(
                old(executor).time.iso_model(),
                old(executor).database.db_model(),
                context@,
                headers@,
                Seq::empty(),
            );
            &&& final(executor).database.db_model() == db2
            &&& final(executor).time == old(executor).time
            &&& final(executor).request == old(executor).request
            &&& match r {
                Ok(out) => res == Ok::<Seq<(Seq<char>, Val)>, ErrModel>(entries_model(out@)),
                Err(e) => res == Err::<Seq<(Seq<char>, Val)>, ErrModel>(e@),
            }
        }),
{
    let ghost now = executor.time.iso_model();
    let ghost db0 = executor.database.db_model();
    let ghost cm = context@;
    let ghost t0 = executor.time;
    let ghost rq0 = executor.request;
    let mut out: Vec<(String, Value)> = Vec::new();
    proof {
        assert(headers@.skip(0) =~= headers@);
        assert(entries_model(out@) =~= Seq::<(Seq<char>, Val)>::empty());
    }
    let mut i: usize = 0;
    while i < headers.len()
        invariant
            i <= headers.len(),
            executor.time == t0,
            executor.request == rq0,
            now == t0.iso_model(),
            t0 == old(executor).time,
            rq0 == old(executor).request,
            db0 == old(executor).database.db_model(),
            cm == context@,
            eval_entries_model(now, db0, cm, headers@, Seq::empty()) == eval_entries_model(
                now,
                executor.database.db_model(),
                cm,
                headers@.skip(i as int),
                entries_model(out@),
            ),
        decreases headers.len() - i,
    {
        proof {
            assert(headers@.skip(i as int)[0] == headers@[i as int]);
            assert(headers@.skip(i as int).drop_first() =~= headers@.skip(i + 1));
        }
        match executor.eval(context, &headers[i].1) {
            Err(e) => {
                return Err(e);
            },
            Ok(v) => {
                crate::value::obj_set(&mut out, headers[i].0.clone(), v);
            },
        }
        i = i + 1;
    }
    proof {
        assert(headers@.skip(headers@.len() as int).len() == 0);
    }
    Ok(out)
}

} // verus!
