use vstd::prelude::*;

use crate::error::PipelineError;
use crate::features::{column_index, feature_names, feature_names_spec, find_column, has_columns};
use crate::table::names_of;

verus! {

/// A prediction request as named fields. A value is `Some` with the bit
/// pattern of a number, or `None` where the field held something else.
pub struct PredictRequest {
    pub names: Vec<String>,
    pub values: Vec<Option<u64>>,
}

impl PredictRequest {
    pub open spec fn names_view(&self) -> Seq<Seq<char>> {
        names_of(self.names@)
    }
}

/// Exactly the thirteen feature fields, each once and each numeric.
pub open spec fn request_is_valid(names: Seq<Seq<char>>, values: Seq<Option<u64>>) -> bool {
    &&& names.len() == values.len()
    &&& names.len() == 13
    &&& has_columns(names, feature_names_spec())
    &&& forall|j: int|
        0 <= j < 13 ==> (#[trigger] values[column_index(names, feature_names_spec()[j])]) is Some
}

/// The feature values of a request, in schema order.
pub open spec fn request_features(names: Seq<Seq<char>>, values: Seq<Option<u64>>) -> Seq<u64> {
    Seq::new(13, |j: int| values[column_index(names, feature_names_spec()[j])]->0)
}

/// The feature vector of a request in schema order; fails with `Validation`
/// unless the request holds exactly the feature fields, all numeric.
pub fn features_from_request(req: &PredictRequest) -> (r: Result<Vec<u64>, PipelineError>)
    ensures
        r is Ok <==> request_is_valid(req.names_view(), req.values@),
        r is Err ==> r->Err_0 == PipelineError::Validation,
        r is Ok ==> r->Ok_0@ == request_features(req.names_view(), req.values@),
{
    let ghost ns = req.names_view();
    let ghost fs = feature_names_spec();
    if req.names.len() != req.values.len() || req.names.len() != 13 {
        return Err(PipelineError::Validation);
    }
    let wanted = feature_names();
    assert(wanted@.len() == names_of(wanted@).len());
    let mut out: Vec<u64> = Vec::new();
    let mut j: usize = 0;
    while j < wanted.len()
        invariant
            j <= 13,
            wanted@.len() == 13,
            names_of(wanted@) == fs,
            fs == feature_names_spec(),
            ns == req.names_view(),
            req.names@.len() == 13,
            req.values@.len() == 13,
            out@.len() == j,
            forall|k: int| 0 <= k < j ==> crate::features::has_column(ns, #[trigger] fs[k]),
            forall|k: int|
                0 <= k < j ==> (#[trigger] req.values@[column_index(ns, fs[k])]) is Some
                    && out@[k] == req.values@[column_index(ns, fs[k])]->0,
        decreases 13 - j,
    {
        assert(names_of(wanted@)[j as int] == wanted@[j as int]@);
        match find_column(&req.names, &wanted[j]) {
            Some(c) => {
                match req.values[c] {
                    Some(v) => {
                        out.push(v);
                    },
                    None => {
                        assert(req.values@[column_index(ns, fs[j as int])] is None);
                        return Err(PipelineError::Validation);
                    },
                }
            },
            None => {
                return Err(PipelineError::Validation);
            },
        }
        j += 1;
    }
    assert(out@ =~= request_features(ns, req.values@));
    Ok(out)
}

/// Where the prediction service stands: before or after its model is loaded.
#[derive(Debug, Clone, Copy, PartialEq, Eq, Structural)]
pub enum ServiceState {
    Unloaded,
    Ready,
}

/// What happens to the service.
pub enum Event {
    /// The artifact was downloaded and deserialised.
    ModelLoaded,
    /// The artifact could not be downloaded or deserialised.
    ModelLoadFailed,
    /// A health check arrived.
    Health,
    /// A prediction request arrived.
    Predict(PredictRequest),
}

/// What the service does in answer.
#[derive(Debug)]
pub enum Action {
    /// Start accepting requests.
    Serve,
    /// Stop the process: the model could not be loaded.
    Exit,
    /// Answer that no model is loaded yet.
    Unavailable,
    /// Nothing to do: the loaded model is never replaced.
    Ignore,
    /// Answer the health check.
    Healthy,
    /// Run the model on these features (bit patterns, schema order).
    Infer(Vec<u64>),
    /// Answer with a client error.
    Reject(PipelineError),
}

/// The model of an event.
pub enum EventModel {
    ModelLoaded,
    ModelLoadFailed,
    Health,
    Predict(Seq<Seq<char>>, Seq<Option<u64>>),
}

/// The model of an action.
pub enum ActionModel {
    Serve,
    Exit,
    Unavailable,
    Ignore,
    Healthy,
    Infer(Seq<u64>),
    Reject(PipelineError),
}

impl View for Event {
    type V = EventModel;

    open spec fn view(&self) -> EventModel {
        match self {
            Event::ModelLoaded => EventModel::ModelLoaded,
            Event::ModelLoadFailed => EventModel::ModelLoadFailed,
            Event::Health => EventModel::Health,
            Event::Predict(req) => EventModel::Predict(req.names_view(), req.values@),
        }
    }
}

impl View for Action {
    type V = ActionModel;

    open spec fn view(&self) -> ActionModel {
        match self {
            Action::Serve => ActionModel::Serve,
            Action::Exit => ActionModel::Exit,
            Action::Unavailable => ActionModel::Unavailable,
            Action::Ignore => ActionModel::Ignore,
            Action::Healthy => ActionModel::Healthy,
            Action::Infer(v) => ActionModel::Infer(v@),
            Action::Reject(e) => ActionModel::Reject(*e),
        }
    }
}

/// The service's transitions. It becomes ready once, on a loaded model, and
/// stays ready: no request can unload or replace the model.
pub open spec fn step_spec(state: ServiceState, event: EventModel) -> (ServiceState, ActionModel) {
    match state {
        ServiceState::Unloaded => match event {
            EventModel::ModelLoaded => (ServiceState::Ready, ActionModel::Serve),
            EventModel::ModelLoadFailed => (ServiceState::Unloaded, ActionModel::Exit),
            _ => (ServiceState::Unloaded, ActionModel::Unavailable),
        },
        ServiceState::Ready => match event {
            EventModel::Health => (ServiceState::Ready, ActionModel::Healthy),
            EventModel::Predict(names, values) => (
                ServiceState::Ready,
                if request_is_valid(names, values) {
                    ActionModel::Infer(request_features(names, values))
                } else {
                    ActionModel::Reject(PipelineError::Validation)
                },
            ),
            _ => (ServiceState::Ready, ActionModel::Ignore),
        },
    }
}

/// The next state and the action for `event` in `state`.
pub fn step(state: ServiceState, event: &Event) -> (r: (ServiceState, Action))
    ensures
        (r.0, r.1@) == step_spec(state, event@),
{
    match state {
        ServiceState::Unloaded => match event {
            Event::ModelLoaded => (ServiceState::Ready, Action::Serve),
            Event::ModelLoadFailed => (ServiceState::Unloaded, Action::Exit),
            _ => (ServiceState::Unloaded, Action::Unavailable),
        },
        ServiceState::Ready => match event {
            Event::Health => (ServiceState::Ready, Action::Healthy),
            Event::Predict(req) => match features_from_request(req) {
                Ok(v) => (ServiceState::Ready, Action::Infer(v)),
                Err(e) => (ServiceState::Ready, Action::Reject(e)),
            },
            _ => (ServiceState::Ready, Action::Ignore),
        },
    }
}

/// A ready service answers the same prediction request the same way twice:
/// the first answer leaves it ready, and the second equals the first.
pub proof fn lemma_predict_repeatable(names: Seq<Seq<char>>, values: Seq<Option<u64>>)
    ensures
        ({
            let (s1, a1) = step_spec(ServiceState::Ready, EventModel::Predict(names, values));
            let (s2, a2) = step_spec(s1, EventModel::Predict(names, values));
            s1 == ServiceState::Ready && s2 == ServiceState::Ready && a1 == a2
        }),
{
}

/// A malformed request to a ready service gets a client error and leaves it
/// ready, so a valid request after it is answered with the model's input.
pub proof fn lemma_bad_request_keeps_serving(
    bad_names: Seq<Seq<char>>,
    bad_values: Seq<Option<u64>>,
    names: Seq<Seq<char>>,
    values: Seq<Option<u64>>,
)
    requires
        !request_is_valid(bad_names, bad_values),
        request_is_valid(names, values),
    ensures
        ({
            let (s1, a1) = step_spec(
                ServiceState::Ready,
                EventModel::Predict(bad_names, bad_values),
            );
            let (s2, a2) = step_spec(s1, EventModel::Predict(names, values));
            &&& s1 == ServiceState::Ready
            &&& a1 == ActionModel::Reject(PipelineError::Validation)
            &&& s2 == ServiceState::Ready
            &&& a2 == ActionModel::Infer(request_features(names, values))
        }),
{
}

} // verus!
