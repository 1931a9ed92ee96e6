use vstd::prelude::*;

verus! {

/// Every way in which locating, loading, resolving or running a test can fail.
#[derive(Debug, PartialEq, Eq)]
pub enum ArrError {
    ArgValueNotFound(String),
    OtherNomError(String),
    OsNotSupported,
    FileNotFound(String),
    CannotParseYaml(String),
    CannotLocateYamlFile,
    FilePathNotSet(String),
    CommandIoFailure(String),
    CommandExecutionFailed,
    RootRequired,
    Other(String),
}

impl ArrError {
    /// The text shown to a user for this failure.
    pub open spec fn message_spec(&self) -> Seq<char> {
        match self {
            ArrError::ArgValueNotFound(s) => s@,
            ArrError::OtherNomError(s) => s@,
            ArrError::OsNotSupported => "The test does not support this OS"@,
            ArrError::FileNotFound(s) => s@,
            ArrError::CannotParseYaml(s) => s@,
            ArrError::CannotLocateYamlFile => "Cannot Locate YAML file"@,
            ArrError::FilePathNotSet(s) => s@,
            ArrError::CommandIoFailure(s) => s@,
            ArrError::CommandExecutionFailed => "Command ran, but returned an unsuccess return code"@,
            ArrError::RootRequired => "Root required"@,
            ArrError::Other(s) => s@,
        }
    }

    /// Renders the failure as text: the carried detail where there is one,
    /// a fixed sentence otherwise.
    pub fn message(&self) -> (r: String)
        ensures
            r@ == self.message_spec(),
    {
        match self {
            ArrError::ArgValueNotFound(s) => s.clone(),
            ArrError::OtherNomError(s) => s.clone(),
            ArrError::OsNotSupported => String::from_str("The test does not support this OS"),
            ArrError::FileNotFound(s) => s.clone(),
            ArrError::CannotParseYaml(s) => s.clone(),
            ArrError::CannotLocateYamlFile => String::from_str("Cannot Locate YAML file"),
            ArrError::FilePathNotSet(s) => s.clone(),
            ArrError::CommandIoFailure(s) => s.clone(),
            ArrError::CommandExecutionFailed => String::from_str(
                "Command ran, but returned an unsuccess return code",
            ),
            ArrError::RootRequired => String::from_str("Root required"),
            ArrError::Other(s) => s.clone(),
        }
    }
}

} // verus!
