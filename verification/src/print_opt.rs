//! What a run that validates files prints.

use vstd::prelude::*;
use vstd::string::StringExecFns;
use crate::utf8_parser::pt::same_text;

verus! {

/// What to print for each file.
#[derive(Debug, Clone, Copy, PartialEq, Eq, Structural)]
pub enum PrintOpt {
    PrettyErrors,
    ErrorStatus,
    OkStatus,
    Status,
    StatusAndPrettyError,
}

impl PrintOpt {
    /// The option that `s` names.
    pub open spec fn named(s: Seq<char>) -> Option<PrintOpt> {
        if s == "pretty-errors"@ {
            Some(PrintOpt::PrettyErrors)
        } else if s == "err-status"@ {
            Some(PrintOpt::ErrorStatus)
        } else if s == "ok-status"@ {
            Some(PrintOpt::OkStatus)
        } else if s == "status"@ {
            Some(PrintOpt::Status)
        } else if s == "status-and-pretty-errors"@ {
            Some(PrintOpt::StatusAndPrettyError)
        } else {
            None
        }
    }

    /// The names of the options.
    pub fn variants() -> (res: [&'static str; 5])
        ensures
            res@ == seq![
                "pretty-errors",
                "err-status",
                "ok-status",
                "status",
                "status-and-pretty-errors",
            ],
    {
        let res = ["pretty-errors", "err-status", "ok-status", "status", "status-and-pretty-errors"];
        assert(res@ =~= seq![
            "pretty-errors",
            "err-status",
            "ok-status",
            "status",
            "status-and-pretty-errors",
        ]);
        res
    }

    /// The option that `s` names; for a text that names none, the message
    /// that lists the names.
    pub fn from_str(s: &str) -> (res: Result<PrintOpt, String>)
        ensures
            match Self::named(s@) {
                Some(opt) => res == Ok::<PrintOpt, String>(opt),
                None => res matches Err(message) && message@
                    == "valid values: pretty-errors, err-status, ok-status, status, status-and-pretty-errors"@,
            },
    {
        if same_text(s, "pretty-errors") {
            Ok(PrintOpt::PrettyErrors)
        } else if same_text(s, "err-status") {
            Ok(PrintOpt::ErrorStatus)
        } else if same_text(s, "ok-status") {
            Ok(PrintOpt::OkStatus)
        } else if same_text(s, "status") {
            Ok(PrintOpt::Status)
        } else if same_text(s, "status-and-pretty-errors") {
            Ok(PrintOpt::StatusAndPrettyError)
        } else {
            Err(
                String::from_str(
                    "valid values: pretty-errors, err-status, ok-status, status, status-and-pretty-errors",
                ),
            )
        }
    }

    /// Is a line printed for a file that is valid?
    pub open spec fn shows_ok(self) -> bool {
        self == PrintOpt::OkStatus || self == PrintOpt::StatusAndPrettyError || self
            == PrintOpt::Status
    }

    /// Is a line printed for a file that is not valid?
    pub open spec fn shows_err(self) -> bool {
        self == PrintOpt::ErrorStatus || self == PrintOpt::StatusAndPrettyError || self
            == PrintOpt::Status
    }

    /// Is the report of an error printed?
    pub open spec fn shows_pretty_error(self) -> bool {
        self == PrintOpt::PrettyErrors || self == PrintOpt::StatusAndPrettyError
    }

    /// Is a line printed for a file that is valid?
    pub fn wants_ok(&self) -> (res: bool)
        ensures
            res == self.shows_ok(),
    {
        match self {
            PrintOpt::OkStatus | PrintOpt::StatusAndPrettyError | PrintOpt::Status => true,
            _ => false,
        }
    }

    /// Is a line printed for a file that is not valid?
    pub fn wants_err(&self) -> (res: bool)
        ensures
            res == self.shows_err(),
    {
        match self {
            PrintOpt::ErrorStatus | PrintOpt::StatusAndPrettyError | PrintOpt::Status => true,
            _ => false,
        }
    }

    /// Is the report of an error printed?
    pub fn wants_pretty_error(&self) -> (res: bool)
        ensures
            res == self.shows_pretty_error(),
    {
        match self {
            PrintOpt::PrettyErrors | PrintOpt::StatusAndPrettyError => true,
            _ => false,
        }
    }
}

} // verus!
