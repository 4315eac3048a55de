use vstd::prelude::*;

verus! {

/// What went wrong, as a caller can tell causes apart.
#[derive(Clone, Copy, Debug, PartialEq, Eq, Structural)]
pub enum ErrorKind {
    /// A parent or department reference names no existing department.
    UnknownDepartment,
    /// A text that should hold a decimal numeral does not.
    InvalidNumber,
    /// A text that should hold a department identifier does not.
    UnconvertibleDepartmentId,
    /// A text that should hold a `YYYY-MM-DD` date does not.
    InvalidDate,
    /// A gender code other than `m` or `f`.
    InvalidGender,
    /// A lookup named a department that does not exist.
    InvalidDepartmentId,
    /// A menu command was handed an input of the wrong shape.
    UnrecognizedInput,
    /// A text pattern that could not be compiled.
    InvalidPattern,
}

/// The error every fallible operation of the directory returns.
#[derive(Clone, Copy, Debug, PartialEq, Eq, Structural)]
pub struct ApplicationError(pub ErrorKind);

impl ErrorKind {
    /// The human-readable message of each kind.
    pub open spec fn spec_message(self) -> Seq<char> {
        match self {
            ErrorKind::UnknownDepartment => "Unknown department"@,
            ErrorKind::InvalidNumber => "Input unable to convert to a number"@,
            ErrorKind::UnconvertibleDepartmentId => "Input unable to convert to DepartmentId"@,
            ErrorKind::InvalidDate => "Please enter a valid date in YYYY-MM-DD format"@,
            ErrorKind::InvalidGender => "Invalid input. Please enter 'm' or 'f' only"@,
            ErrorKind::InvalidDepartmentId => "Invalid department ID"@,
            ErrorKind::UnrecognizedInput => "Unrecognized input"@,
            ErrorKind::InvalidPattern => "Invalid pattern"@,
        }
    }
}

impl ApplicationError {
    pub fn kind(&self) -> (r: ErrorKind)
        ensures
            r == self.0,
    {
        self.0
    }

    /// The message that tells this error's cause.
    pub fn message(&self) -> (r: &'static str)
        ensures
            r@ == self.0.spec_message(),
    {
        match self.0 {
            ErrorKind::UnknownDepartment => "Unknown department",
            ErrorKind::InvalidNumber => "Input unable to convert to a number",
            ErrorKind::UnconvertibleDepartmentId => "Input unable to convert to DepartmentId",
            ErrorKind::InvalidDate => "Please enter a valid date in YYYY-MM-DD format",
            ErrorKind::InvalidGender => "Invalid input. Please enter 'm' or 'f' only",
            ErrorKind::InvalidDepartmentId => "Invalid department ID",
            ErrorKind::UnrecognizedInput => "Unrecognized input",
            ErrorKind::InvalidPattern => "Invalid pattern",
        }
    }

    /// The full text shown to a user: `Application Error: <message>`.
    pub fn to_text(&self) -> (r: String)
        ensures
            r@ == "Application Error: "@ + self.0.spec_message(),
    {
        let mut s = String::from_str("Application Error: ");
        s.append(self.message());
        s
    }
}

} // verus!
