//! Versioned, data-only transaction scripts.
use vstd::prelude::*;
use crate::text::owned;

verus! {

/// Version for serialized script and trace artifacts.
pub const TRACE_FORMAT_VERSION: u32 = 2;

/// Redactor that preserves all trace data.
#[derive(Clone, Copy, Debug, Default, PartialEq, Eq, Structural)]
pub struct NoRedaction;

/// Why a serialized artifact cannot be used.
#[derive(Clone, Debug, PartialEq, Eq, Structural)]
pub enum ScenarioError {
    /// A serialized script or trace used an unsupported format version.
    TraceFormatVersionMismatch {
        /// Format version supported by this crate.
        expected: u32,
        /// Format version found in the serialized artifact.
        actual: u32,
    },
}

/// Accepts exactly the supported format version.
pub fn validate_format_version(actual: u32) -> (r: Result<(), ScenarioError>)
    ensures
        r is Ok <==> actual == TRACE_FORMAT_VERSION,
        r is Err ==> r == Err::<(), ScenarioError>(
            ScenarioError::TraceFormatVersionMismatch { expected: TRACE_FORMAT_VERSION, actual },
        ),
{
    if actual == TRACE_FORMAT_VERSION {
        Ok(())
    } else {
        Err(ScenarioError::TraceFormatVersionMismatch { expected: TRACE_FORMAT_VERSION, actual })
    }
}

/// One named transaction step in a data-only transaction script.
#[derive(Clone, Debug, PartialEq, Eq)]
pub struct DataScriptStep<Operation> {
    name: String,
    operations: Vec<Operation>,
}

impl<Operation> View for DataScriptStep<Operation> {
    type V = (Seq<char>, Seq<Operation>);

    closed spec fn view(&self) -> (Seq<char>, Seq<Operation>) {
        (self.name@, self.operations@)
    }
}

impl<Operation> DataScriptStep<Operation> {
    /// Returns the step name.
    pub fn name(&self) -> (r: &str)
        ensures
            r@ == self@.0,
    {
        self.name.as_str()
    }

    /// Returns data operations in staging order.
    pub fn operations(&self) -> (r: &[Operation])
        ensures
            r@ == self@.1,
    {
        self.operations.as_slice()
    }
}

/// A versioned, data-only transaction script.
#[derive(Clone, Debug, PartialEq, Eq)]
pub struct DataTransactionScript<Operation> {
    format_version: u32,
    steps: Vec<DataScriptStep<Operation>>,
}

/// What a script holds: its format version, and each step's name and
/// operations in replay order.
pub struct DataTransactionScriptView<Operation> {
    /// Format version.
    pub format_version: u32,
    /// Steps in replay order.
    pub steps: Seq<(Seq<char>, Seq<Operation>)>,
}

impl<Operation> View for DataTransactionScript<Operation> {
    type V = DataTransactionScriptView<Operation>;

    closed spec fn view(&self) -> DataTransactionScriptView<Operation> {
        DataTransactionScriptView {
            format_version: self.format_version,
            steps: self.steps@.map_values(|s: DataScriptStep<Operation>| s@),
        }
    }
}

/// Builder for one data-only transaction script step; it holds the
/// script it adds to.
pub struct DataScriptStepBuilder<'script, Operation> {
    /// The script the step is added to.
    pub script: &'script mut DataTransactionScript<Operation>,
    /// The step name.
    pub name: String,
    /// Operations staged so far.
    pub operations: Vec<Operation>,
}

impl<'script, Operation> DataScriptStepBuilder<'script, Operation> {
    /// The script the step will be added to, as it is now.
    pub closed spec fn script(&self) -> DataTransactionScriptView<Operation> {
        (*self.script)@
    }

    /// The step name.
    pub closed spec fn name(&self) -> Seq<char> {
        self.name@
    }

    /// Operations staged so far.
    pub closed spec fn operations(&self) -> Seq<Operation> {
        self.operations@
    }
}

impl<Operation> DataTransactionScript<Operation> {
    /// Creates an empty script of the current format version.
    pub fn new() -> (r: Self)
        ensures
            r@.format_version == TRACE_FORMAT_VERSION,
            r@.steps.len() == 0,
    {
        let r = DataTransactionScript { format_version: TRACE_FORMAT_VERSION, steps: Vec::new() };
        assert(r@.steps =~= Seq::<(Seq<char>, Seq<Operation>)>::empty());
        r
    }

    /// Starts a named step; `commit` on the builder adds it to this script.
    pub fn step(&mut self, name: &str) -> (b: DataScriptStepBuilder<'_, Operation>)
        ensures
            b.script() == old(self)@,
            final(self)@ == (*final(b.script))@,
            b.name() == name@,
            b.operations().len() == 0,
    {
        DataScriptStepBuilder { script: self, name: owned(name), operations: Vec::new() }
    }

    /// Returns the serialized format version.
    pub fn format_version(&self) -> (v: u32)
        ensures
            v == self@.format_version,
    {
        self.format_version
    }

    /// Returns script steps in replay order.
    pub fn steps(&self) -> (r: &[DataScriptStep<Operation>])
        ensures
            r@.map_values(|s: DataScriptStep<Operation>| s@) == self@.steps,
    {
        self.steps.as_slice()
    }

    /// Fails when the script uses an unsupported format version.
    pub fn validate_format_version(&self) -> (r: Result<(), ScenarioError>)
        ensures
            r is Ok <==> self@.format_version == TRACE_FORMAT_VERSION,
            r is Err ==> r == Err::<(), ScenarioError>(
                ScenarioError::TraceFormatVersionMismatch {
                    expected: TRACE_FORMAT_VERSION,
                    actual: self@.format_version,
                },
            ),
    {
        validate_format_version(self.format_version)
    }
}

impl<'script, Operation> DataScriptStepBuilder<'script, Operation> {
    /// Adds one app-defined data operation to this step.
    pub fn operation(self, operation: Operation) -> (b: Self)
        ensures
            b.script() == self.script(),
            *final(b.script) == *final(self.script),
            b.name() == self.name(),
            b.operations() == self.operations().push(operation),
    {
        let DataScriptStepBuilder { script, name, operations } = self;
        let mut operations = operations;
        operations.push(operation);
        DataScriptStepBuilder { script, name, operations }
    }

    /// Adds this step to the script.
    pub fn commit(self)
        ensures
            (*final(self.script))@.format_version == self.script().format_version,
            (*final(self.script))@.steps == self.script().steps.push((self.name(), self.operations())),
    {
        let DataScriptStepBuilder { script, name, operations } = self;
        let ghost old_steps = script.steps@;
        let st = DataScriptStep { name, operations };
        let ghost sv = st@;
        script.steps.push(st);
        assert(script@.steps =~= old_steps.map_values(|s: DataScriptStep<Operation>| s@).push(sv));
    }
}

} // verus!
