use vstd::prelude::*;

verus! {

/// The mathematical image of a transport-level outcome: the payload on
/// success, the cause on failure.
pub open spec fn outcome_view(r: Result<String, String>) -> Result<Seq<char>, Seq<char>> {
    match r {
        Ok(payload) => Ok(payload@),
        Err(cause) => Err(cause@),
    }
}

/// The collaborator that performs one remote operation. It is stateless
/// across calls, safe to run concurrently with itself, and answers a
/// fixed outcome per identifier: the payload on success, a
/// human-readable cause on failure. The transport itself (HTTP, retry
/// policy, timeouts) is the implementor's business, not modeled here.
pub trait Invoker {
    /// The outcome this invoker owes to `identifier`.
    spec fn outcome(&self, identifier: Seq<char>) -> Result<Seq<char>, Seq<char>>;

    /// Performs the operation for one identifier and reports exactly
    /// the outcome owed to it.
    fn invoke(&self, identifier: &String) -> (r: Result<String, String>)
        ensures
            outcome_view(r) == self.outcome(identifier@),
    ;
}

/// An invoker that answers out of a fixed table of identifier/outcome
/// pairs; identifiers missing from the table fail. The first matching
/// entry wins, so duplicate keys behave like one.
pub struct FixedInvoker {
    entries: Vec<(String, Result<String, String>)>,
}

impl FixedInvoker {
    /// The outcome the table assigns to `identifier`: the first
    /// matching entry, or a failure when none matches.
    pub open spec fn lookup(
        entries: Seq<(String, Result<String, String>)>,
        identifier: Seq<char>,
    ) -> Result<Seq<char>, Seq<char>>
        decreases entries.len(),
    {
        if entries.len() == 0 {
            Err("unknown identifier"@)
        } else if entries[0].0@ == identifier {
            outcome_view(entries[0].1)
        } else {
            Self::lookup(entries.drop_first(), identifier)
        }
    }

    pub closed spec fn table(&self) -> Seq<(String, Result<String, String>)> {
        self.entries@
    }

    pub fn new(entries: Vec<(String, Result<String, String>)>) -> (inv: FixedInvoker)
        ensures
            inv.table() == entries@,
    {
        FixedInvoker { entries }
    }
}

impl Invoker for FixedInvoker {
    open spec fn outcome(&self, identifier: Seq<char>) -> Result<Seq<char>, Seq<char>> {
        Self::lookup(self.table(), identifier)
    }

    fn invoke(&self, identifier: &String) -> (r: Result<String, String>)
        ensures
            outcome_view(r) == self.outcome(identifier@),
    {
        let n = self.entries.len();
        proof {
            assert(self.entries@.subrange(0, n as int) =~= self.entries@);
        }
        for idx in 0..n
            invariant
                n == self.entries@.len(),
                Self::lookup(self.entries@.subrange(idx as int, n as int), identifier@)
                    == Self::lookup(self.entries@, identifier@),
        {
            proof {
                assert(self.entries@.subrange(idx as int, n as int)[0] == self.entries@[idx as int]);
                assert(self.entries@.subrange(idx as int, n as int).drop_first()
                    =~= self.entries@.subrange(idx + 1, n as int));
            }
            if self.entries[idx].0 == *identifier {
                let entry = &self.entries[idx];
                return match &entry.1 {
                    Ok(payload) => Ok(payload.clone()),
                    Err(cause) => Err(cause.clone()),
                };
            }
        }
        proof {
            assert(self.entries@.subrange(n as int, n as int).len() == 0);
        }
        Err(String::from_str("unknown identifier"))
    }
}

} // verus!
