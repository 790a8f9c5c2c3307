//! Replayable generated step sequences for application-owned model tests,
//! and the generated change kinds.
use vstd::prelude::*;

verus! {

/// Replayable generated sequence for application-owned model tests.
#[derive(Clone, Debug, PartialEq, Eq)]
pub struct ModelSequence<Step> {
    steps: Vec<Step>,
}

impl<Step> View for ModelSequence<Step> {
    type V = Seq<Step>;

    closed spec fn view(&self) -> Seq<Step> {
        self.steps@
    }
}

impl<Step> ModelSequence<Step> {
    /// Creates a generated model sequence from ordered steps.
    pub fn new(steps: Vec<Step>) -> (r: Self)
        ensures
            r@ == steps@,
    {
        ModelSequence { steps }
    }

    /// Returns generated steps in replay order.
    pub fn steps(&self) -> (r: &[Step])
        ensures
            r@ == self@,
    {
        self.steps.as_slice()
    }

    /// Consumes this sequence into its ordered steps.
    pub fn into_steps(self) -> (r: Vec<Step>)
        ensures
            r@ == self@,
    {
        self.steps
    }

    /// Returns true when the generated sequence has no steps.
    pub fn is_empty(&self) -> (b: bool)
        ensures
            b == (self@.len() == 0),
    {
        self.steps.len() == 0
    }

    /// Returns the generated step count.
    pub fn len(&self) -> (n: usize)
        ensures
            n == self@.len(),
    {
        self.steps.len()
    }
}

/// Debug text of a value (std `format!` with `{:?}`).
///
/// Trusted, and nothing is claimed of the text: it is whatever the value's
/// `Debug` implementation writes.
#[verifier::external_body]
fn debug_text<T: std::fmt::Debug>(value: &T) -> String {
    format!("{:?}", value)
}

/// The replay text of step texts: one line per step, its index, a colon
/// and its text.
pub open spec fn replay_lines(texts: Seq<Seq<char>>) -> Seq<char>
    decreases texts.len(),
{
    if texts.len() == 0 {
        Seq::empty()
    } else {
        replay_lines(texts.drop_last()) + crate::text::dec((texts.len() - 1) as nat) + ": "@
            + texts.last() + "\n"@
    }
}

impl<Step: std::fmt::Debug> ModelSequence<Step> {
    /// Returns deterministic replay-friendly debug text for failure output:
    /// one line per step, its index and its debug text.
    pub fn to_replay_debug_string(&self) -> (r: String)
        ensures
            exists|texts: Seq<Seq<char>>| texts.len() == self@.len() && r@ == replay_lines(texts),
    {
        let mut out = String::new();
        let ghost mut texts: Seq<Seq<char>> = Seq::empty();
        let mut i: usize = 0;
        while i < self.steps.len()
            invariant
                i <= self.steps@.len(),
                texts.len() == i,
                out@ == replay_lines(texts),
            decreases self.steps.len() - i,
        {
            let t = debug_text(&self.steps[i]);
            crate::text::push_dec(&mut out, i as u64);
            crate::text::append(&mut out, ": ");
            crate::text::append(&mut out, t.as_str());
            crate::text::append(&mut out, "\n");
            proof {
                let nt = texts.push(t@);
                assert(nt.drop_last() =~= texts);
                texts = nt;
            }
            i = i + 1;
        }
        out
    }
}

/// Generated canonical input mutation.
#[derive(Clone, Debug, PartialEq, Eq)]
pub enum InputChange<I> {
    /// Replace the canonical input with an app-owned value.
    SetTo(I),
}

/// Generated scope lifecycle mutation.
#[derive(Clone, Debug, PartialEq, Eq)]
pub enum ScopeChange<S> {
    /// Open an app-owned scope identity.
    Open(S),
    /// Close an app-owned scope identity.
    Close(S),
}

/// Generated collection mutation.
#[derive(Clone, Debug, PartialEq, Eq)]
pub enum CollectionChange<K, V> {
    /// Add a key/value pair.
    Add {
        /// App-owned collection key.
        key: K,
        /// App-owned collection value.
        value: V,
    },
    /// Remove a key.
    Remove {
        /// App-owned collection key.
        key: K,
    },
    /// Update a key/value pair.
    Update {
        /// App-owned collection key.
        key: K,
        /// App-owned collection value.
        value: V,
    },
}

/// Generated host resource status mutation.
#[derive(Clone, Debug, PartialEq, Eq)]
pub enum ResourceStatusChange<R, E> {
    /// Resource command completed successfully.
    Succeeded(R),
    /// Resource command failed with an app-owned error value.
    Failed {
        /// App-owned resource identity.
        resource: R,
        /// App-owned failure value.
        error: E,
    },
}

/// Generated transaction expectation for failure/retry models.
#[derive(Clone, Debug, PartialEq, Eq)]
pub enum TransactionChange<E> {
    /// The next transaction is expected to fail with app-owned detail.
    ExpectFailure(E),
    /// Retry the last failed transaction when the application models retries.
    RetryLastFailure,
}

/// Generated materialized output mutation.
#[derive(Clone, Debug, PartialEq, Eq)]
pub enum OutputChange<O> {
    /// Ask the graph to rebaseline an app-owned output identity.
    Rebaseline(O),
}

} // verus!
