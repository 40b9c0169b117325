//! Program errors.

use vstd::prelude::*;

verus! {

/// Errors focused on the format of the provided keystore entry buffer.
#[derive(Clone, Copy, Debug, PartialEq, Eq, Structural)]
pub enum KeyringProgramError {
    /// Invalid format for keystore entry: Entry
    InvalidFormatForEntry,
    /// Invalid format for keystore entry: Key
    InvalidFormatForKey,
    /// Invalid format for keystore entry: Config
    InvalidFormatForConfig,
    /// Invalid format for keystore entry: Config Entry
    InvalidFormatForConfigEntry,
    /// Keystore entry not found
    KeystoreEntryNotFound,
}

impl KeyringProgramError {
    /// The number under which the program reports this error.
    pub fn code(&self) -> (code: u32)
        ensures
            code == self.spec_code(),
    {
        match self {
            KeyringProgramError::InvalidFormatForEntry => 0,
            KeyringProgramError::InvalidFormatForKey => 1,
            KeyringProgramError::InvalidFormatForConfig => 2,
            KeyringProgramError::InvalidFormatForConfigEntry => 3,
            KeyringProgramError::KeystoreEntryNotFound => 4,
        }
    }

    /// The number under which the program reports this error: the place of
    /// the variant in the enum, counted from zero.
    pub open spec fn spec_code(&self) -> u32 {
        match self {
            KeyringProgramError::InvalidFormatForEntry => 0,
            KeyringProgramError::InvalidFormatForKey => 1,
            KeyringProgramError::InvalidFormatForConfig => 2,
            KeyringProgramError::InvalidFormatForConfigEntry => 3,
            KeyringProgramError::KeystoreEntryNotFound => 4,
        }
    }

    /// The message of this error.
    pub fn message(&self) -> (message: &'static str)
        ensures
            message@ == self.spec_message(),
    {
        match self {
            KeyringProgramError::InvalidFormatForEntry => {
                "Invalid format for keystore entry: Entry"
            },
            KeyringProgramError::InvalidFormatForKey => "Invalid format for keystore entry: Key",
            KeyringProgramError::InvalidFormatForConfig => {
                "Invalid format for keystore entry: Config"
            },
            KeyringProgramError::InvalidFormatForConfigEntry => {
                "Invalid format for keystore entry: Config Entry"
            },
            KeyringProgramError::KeystoreEntryNotFound => "Keystore entry not found",
        }
    }

    /// The message of this error.
    pub open spec fn spec_message(&self) -> Seq<char> {
        match self {
            KeyringProgramError::InvalidFormatForEntry => {
                "Invalid format for keystore entry: Entry"@
            },
            KeyringProgramError::InvalidFormatForKey => "Invalid format for keystore entry: Key"@,
            KeyringProgramError::InvalidFormatForConfig => {
                "Invalid format for keystore entry: Config"@
            },
            KeyringProgramError::InvalidFormatForConfigEntry => {
                "Invalid format for keystore entry: Config Entry"@
            },
            KeyringProgramError::KeystoreEntryNotFound => "Keystore entry not found"@,
        }
    }

    /// This error as the program reports it: a custom error under its number.
    pub fn to_program_error(&self) -> (error: ProgramError)
        ensures
            error == ProgramError::Custom(self.spec_code()),
    {
        ProgramError::Custom(self.code())
    }
}

/// Reasons for the program to refuse an instruction.
#[derive(Clone, Copy, Debug, PartialEq, Eq, Structural)]
pub enum ProgramError {
    /// An error of the program's own, under its number
    Custom(u32),
    /// The instruction data cannot be read
    InvalidInstructionData,
    /// The passed address is not the one that the seeds give
    InvalidSeeds,
    /// The authority did not sign
    MissingRequiredSignature,
    /// The instruction names fewer accounts than it needs
    NotEnoughAccountKeys,
}

} // verus!
