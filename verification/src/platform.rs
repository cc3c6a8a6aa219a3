//! Showing a directory with the program that the platform has for it.
use vstd::prelude::*;
use crate::settings::Platform;

verus! {

#[derive(Debug, Clone, Copy, PartialEq, Eq, Structural)]
pub enum RevealError {
    Unsupported,
    Failed,
}

impl RevealError {
    pub fn message(self) -> (text: &'static str)
        ensures
            text@ == match self {
                RevealError::Unsupported => "destination reveal is unsupported"@,
                RevealError::Failed => "destination reveal failed"@,
            },
    {
        match self {
            Self::Unsupported => "destination reveal is unsupported",
            Self::Failed => "destination reveal failed",
        }
    }
}

/// A program to run, and what it is given before the directory.
#[derive(Debug, Clone, Copy, PartialEq, Eq)]
pub struct RevealCommand {
    pub program: &'static str,
    pub option: Option<&'static str>,
}

/// The program that shows a directory, where the platform is known to have one.
pub fn reveal_command(platform: Platform, linux: bool) -> (result: Result<RevealCommand, RevealError>)
    ensures
        match platform {
            Platform::MacOs => result matches Ok(command) && command.program@ == "open"@
                && (command.option matches Some(option) && option@ == "-R"@),
            Platform::Windows => result matches Ok(command) && command.program@ == "explorer"@
                && command.option is None,
            Platform::Other => if linux {
                result matches Ok(command) && command.program@ == "xdg-open"@
                    && command.option is None
            } else {
                result == Err::<RevealCommand, RevealError>(RevealError::Unsupported)
            },
        },
{
    match platform {
        Platform::MacOs => Ok(RevealCommand { program: "open", option: Some("-R") }),
        Platform::Windows => Ok(RevealCommand { program: "explorer", option: None }),
        Platform::Other => if linux {
            Ok(RevealCommand { program: "xdg-open", option: None })
        } else {
            Err(RevealError::Unsupported)
        },
    }
}

/// What running the program came to: whether it could be run, and whether it succeeded.
pub fn settle_reveal(success: Option<bool>) -> (result: Result<(), RevealError>)
    ensures
        result == (if success == Some(true) {
            Ok::<(), RevealError>(())
        } else {
            Err(RevealError::Failed)
        }),
{
    match success {
        Some(true) => Ok(()),
        _ => Err(RevealError::Failed),
    }
}

} // verus!
