//! Types describing a typemake workflow.

use vstd::prelude::*;

verus! {

/// The stage of a value of a tool property, as seen in specifications.
///
/// This mirrors [`ToolPropertyStage`] with every payload replaced by its view.
#[verifier::ext_equal]
pub enum ToolPropertyStageView<PreliminaryView, FinalView> {
    /// The property is not defined on the tool.
    Empty,
    /// The property is defined on the tool, but no attempt at evaluation was made up to now.
    Raw,
    /// The property was evaluated, but the evaluation failed completely or partially.
    Partial(PreliminaryView),
    /// The property was successfully evaluated.
    Resolved(FinalView),
}

/// The stage of a value of a tool property.
///
/// The value of a tool property is computed using the script interpreter, but its
/// evaluation is allowed to fail or to be deferred. The parser only ever produces
/// the [`ToolPropertyStage::Empty`] and [`ToolPropertyStage::Raw`] stages; the
/// script-execution collaborator writes the other two later.
#[derive(Debug, Clone, PartialEq, Eq)]
pub enum ToolPropertyStage<PreliminaryType, FinalType> {
    /// The property is not defined on the tool.
    Empty,
    /// The property is defined on the tool, but no attempt at evaluation was made up to now.
    Raw,
    /// The property was evaluated, but the evaluation failed completely or partially.
    Partial(PreliminaryType),
    /// The property was successfully evaluated.
    Resolved(FinalType),
}

impl<PreliminaryType: View, FinalType: View> View for ToolPropertyStage<PreliminaryType, FinalType> {
    type V = ToolPropertyStageView<PreliminaryType::V, FinalType::V>;

    open spec fn view(&self) -> Self::V {
        match self {
            ToolPropertyStage::Empty => ToolPropertyStageView::Empty,
            ToolPropertyStage::Raw => ToolPropertyStageView::Raw,
            ToolPropertyStage::Partial(p) => ToolPropertyStageView::Partial(p.view()),
            ToolPropertyStage::Resolved(f) => ToolPropertyStageView::Resolved(f.view()),
        }
    }
}

impl<PreliminaryType, FinalType> Default for ToolPropertyStage<PreliminaryType, FinalType> {
    fn default() -> (r: Self)
        ensures
            r is Empty,
    {
        Self::Empty
    }
}

/// A property value of a tool, as seen in specifications.
#[verifier::ext_equal]
pub struct ToolPropertyView<PreliminaryView, FinalView> {
    /// The view of the original string that defines the value in the typefile.
    pub string_value: Seq<char>,
    /// The view of the evaluation stage of the property value.
    pub value_stage: ToolPropertyStageView<PreliminaryView, FinalView>,
}

/// A property value of a tool.
#[derive(Debug, Clone, PartialEq, Eq)]
pub struct ToolProperty<PreliminaryType, FinalType> {
    /// The original string that is used to define the value in the typefile.
    pub string_value: String,
    /// The value of the tool property as computed by the script interpreter.
    /// This field captures all possible stages of evaluation.
    pub value_stage: ToolPropertyStage<PreliminaryType, FinalType>,
}

impl<PreliminaryType: View, FinalType: View> View for ToolProperty<PreliminaryType, FinalType> {
    type V = ToolPropertyView<PreliminaryType::V, FinalType::V>;

    open spec fn view(&self) -> Self::V {
        ToolPropertyView {
            string_value: self.string_value.view(),
            value_stage: self.value_stage.view(),
        }
    }
}

impl<PreliminaryType, FinalType> ToolProperty<PreliminaryType, FinalType> {
    /// Returns a property that is not set.
    pub fn empty() -> (r: Self)
        ensures
            r.string_value@ == Seq::<char>::empty(),
            r.value_stage is Empty,
    {
        Self { string_value: String::new(), value_stage: ToolPropertyStage::Empty }
    }

    /// Returns a property whose text was captured verbatim from the typefile
    /// but not yet evaluated.
    pub fn raw(string_value: String) -> (r: Self)
        ensures
            r.string_value == string_value,
            r.value_stage is Raw,
    {
        Self { string_value, value_stage: ToolPropertyStage::Raw }
    }

    /// Returns true if the tool property value is empty, i.e. not set.
    pub fn is_empty(&self) -> (r: bool)
        ensures
            r == (self.value_stage is Empty),
    {
        match &self.value_stage {
            ToolPropertyStage::Empty => true,
            _ => false,
        }
    }
}

impl<PreliminaryType, FinalType> Default for ToolProperty<PreliminaryType, FinalType> {
    fn default() -> (r: Self)
        ensures
            r.string_value@ == Seq::<char>::empty(),
            r.value_stage is Empty,
    {
        Self::empty()
    }
}

/// A tool definition, as seen in specifications.
#[verifier::ext_equal]
pub struct ToolView {
    /// The view of the tool's unique name.
    pub name: Seq<char>,
    /// The view of the tool's script property.
    pub script: ToolPropertyView<Seq<char>, Seq<char>>,
}

/// A tool definition.
/// A tool is the basic building block of a workflow.
/// It describes how files with certain properties are transformed into files with other properties.
#[derive(Debug, Clone, PartialEq, Eq)]
pub struct Tool {
    /// Each tool has a unique name.
    pub name: String,

    /// The interpreter executing the tool.
    /// Typically this would be a bash interpreter executing another program or a set of programs.
    pub script: ToolProperty<String, String>,
}

impl View for Tool {
    type V = ToolView;

    open spec fn view(&self) -> ToolView {
        ToolView { name: self.name.view(), script: self.script.view() }
    }
}

impl Tool {
    /// Returns a tool with the given name and no properties set.
    pub fn new(name: String) -> (r: Self)
        ensures
            r@.name == name@,
            r@.script.string_value == Seq::<char>::empty(),
            r@.script.value_stage is Empty,
    {
        Self { name, script: ToolProperty::empty() }
    }
}

impl Default for Tool {
    fn default() -> (r: Self)
        ensures
            r@.name == Seq::<char>::empty(),
            r@.script.string_value == Seq::<char>::empty(),
            r@.script.value_stage is Empty,
    {
        Self { name: String::new(), script: ToolProperty::empty() }
    }
}

} // verus!
