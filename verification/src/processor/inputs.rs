//! The inputs a pipeline processes: file paths or literal text values.

use vstd::prelude::*;

verus! {

/// One input to the pipeline.
#[derive(Debug)]
pub enum InputType {
    /// A file path; the pipeline works on its filename component.
    File(FileInput),
    /// A literal text value.
    Text(TextInput),
}

/// A file path input.
#[derive(Debug)]
pub struct FileInput {
    value: String,
}

/// A literal text input.
#[derive(Debug)]
pub struct TextInput {
    value: String,
}

/// The mathematical content of an [`InputType`]: which sort it is, and its
/// characters.
pub ghost enum InputTypeView {
    /// A file path's characters.
    File(Seq<char>),
    /// A text value's characters.
    Text(Seq<char>),
}

impl View for FileInput {
    type V = Seq<char>;

    closed spec fn view(&self) -> Seq<char> {
        self.value@
    }
}

impl View for TextInput {
    type V = Seq<char>;

    closed spec fn view(&self) -> Seq<char> {
        self.value@
    }
}

impl View for InputType {
    type V = InputTypeView;

    open spec fn view(&self) -> InputTypeView {
        match self {
            InputType::File(f) => InputTypeView::File(f@),
            InputType::Text(t) => InputTypeView::Text(t@),
        }
    }
}

impl DeepView for InputType {
    type V = InputTypeView;

    open spec fn deep_view(&self) -> InputTypeView {
        self.view()
    }
}

impl PartialEq for InputType {
    /// Two inputs are equal when they are of the same sort and hold the same
    /// characters.
    fn eq(&self, other: &Self) -> (r: bool) {
        match (self, other) {
            (InputType::File(a), InputType::File(b)) => a.value == b.value,
            (InputType::Text(a), InputType::Text(b)) => a.value == b.value,
            _ => false,
        }
    }
}

impl vstd::std_specs::cmp::PartialEqSpecImpl for InputType {
    open spec fn obeys_eq_spec() -> bool {
        true
    }

    open spec fn eq_spec(&self, other: &Self) -> bool {
        self@ == other@
    }
}

impl InputType {
    /// A new file-path input.
    pub fn new_file(value: &str) -> (r: Self)
        ensures
            r@ == InputTypeView::File(value@),
    {
        InputType::File(FileInput::new(value))
    }

    /// A new literal-text input.
    pub fn new_text(value: &str) -> (r: Self)
        ensures
            r@ == InputTypeView::Text(value@),
    {
        InputType::Text(TextInput::new(value))
    }
}

impl FileInput {
    /// A new file-path input.
    pub fn new(value: &str) -> (r: Self)
        ensures
            r@ == value@,
    {
        FileInput { value: value.to_owned() }
    }

    /// The path as a string.
    pub fn value(&self) -> (r: &str)
        ensures
            r@ == self@,
    {
        self.value.as_str()
    }
}

impl TextInput {
    /// A new literal-text input.
    pub fn new(value: &str) -> (r: Self)
        ensures
            r@ == value@,
    {
        TextInput { value: value.to_owned() }
    }

    /// The text value.
    pub fn value(&self) -> (r: &str)
        ensures
            r@ == self@,
    {
        self.value.as_str()
    }
}

} // verus!
