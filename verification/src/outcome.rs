use vstd::prelude::*;

verus! {

/// The mathematical image of one operation's outcome: the batch
/// identifier it is labeled with, together with the payload on success
/// or the cause on failure.
pub enum ResultView {
    Success { identifier: Seq<char>, payload: Seq<char> },
    Failure { identifier: Seq<char>, cause: Seq<char> },
}

impl ResultView {
    /// The identifier the outcome is labeled with.
    pub open spec fn id(self) -> Seq<char> {
        match self {
            ResultView::Success { identifier, .. } => identifier,
            ResultView::Failure { identifier, .. } => identifier,
        }
    }

    pub open spec fn is_success(self) -> bool {
        self is Success
    }

    /// The payload of a successful outcome; empty for a failure.
    pub open spec fn payload(self) -> Seq<char> {
        match self {
            ResultView::Success { payload, .. } => payload,
            ResultView::Failure { .. } => Seq::empty(),
        }
    }

    /// The cause of a failed outcome; empty for a success.
    pub open spec fn cause(self) -> Seq<char> {
        match self {
            ResultView::Success { .. } => Seq::empty(),
            ResultView::Failure { cause, .. } => cause,
        }
    }
}

/// One operation's labeled outcome, produced exactly once per
/// dispatched identifier: the payload the operation returned, or the
/// cause it failed with.
#[derive(Debug)]
pub enum OperationResult {
    Success { identifier: String, payload: String },
    Failure { identifier: String, cause: String },
}

impl View for OperationResult {
    type V = ResultView;

    open spec fn view(&self) -> ResultView {
        match self {
            OperationResult::Success { identifier, payload } => ResultView::Success {
                identifier: identifier@,
                payload: payload@,
            },
            OperationResult::Failure { identifier, cause } => ResultView::Failure {
                identifier: identifier@,
                cause: cause@,
            },
        }
    }
}

impl OperationResult {
    /// The identifier the result is labeled with.
    pub fn identifier(&self) -> (r: &String)
        ensures
            r@ == self@.id(),
    {
        match self {
            OperationResult::Success { identifier, .. } => identifier,
            OperationResult::Failure { identifier, .. } => identifier,
        }
    }

    pub fn is_success(&self) -> (b: bool)
        ensures
            b == self@.is_success(),
    {
        match self {
            OperationResult::Success { .. } => true,
            OperationResult::Failure { .. } => false,
        }
    }
}

impl PartialEq for OperationResult {
    fn eq(&self, other: &OperationResult) -> (r: bool) {
        match (self, other) {
            (
                OperationResult::Success { identifier: a, payload: b },
                OperationResult::Success { identifier: c, payload: d },
            ) => *a == *c && *b == *d,
            (
                OperationResult::Failure { identifier: a, cause: b },
                OperationResult::Failure { identifier: c, cause: d },
            ) => *a == *c && *b == *d,
            _ => false,
        }
    }
}

impl vstd::std_specs::cmp::PartialEqSpecImpl for OperationResult {
    open spec fn obeys_eq_spec() -> bool {
        true
    }

    open spec fn eq_spec(&self, other: &OperationResult) -> bool {
        self@ == other@
    }
}

} // verus!
