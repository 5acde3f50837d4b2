use vstd::prelude::*;

verus! {

/// An error that carries its message.
pub enum TestError {
    Custom(String),
}

impl TestError {
    /// The error's message.
    pub fn message(&self) -> (r: String)
        ensures
            match self {
                TestError::Custom(m) => r@ == m@,
            },
    {
        match self {
            TestError::Custom(m) => m.clone(),
        }
    }
}

/// Why an argument does not name an input.
pub enum InputError {
    /// The argument is neither `-` nor an existing path.
    NotFound(String),
}

impl InputError {
    /// `No such file or directory: ` followed by the argument.
    pub fn message(&self) -> (r: String)
        ensures
            match self {
                InputError::NotFound(p) => r@ == "No such file or directory: "@ + p@,
            },
    {
        match self {
            InputError::NotFound(p) => String::from_str("No such file or directory: ").concat(
                p.as_str(),
            ),
        }
    }
}

} // verus!
