//! The options of the flag-driven command line.

use vstd::prelude::*;

verus! {

/// What one run is asked to produce.
#[derive(Clone, Copy, Debug, PartialEq, Eq, Structural)]
pub enum Mode {
    /// Random passwords.
    Password,
    /// Random ports.
    Port,
    /// Random identifiers.
    Uuid,
    /// The text behind a base64 string.
    Base64,
}

/// The options as they were given, or their defaults.
#[derive(Debug)]
pub struct Args {
    /// Generates random ports instead of passwords.
    pub port: bool,
    /// Generates UUIDs instead of passwords.
    pub uuid: bool,
    /// Decodes base64 instead of generating passwords.
    pub base64: bool,
    /// The number of passwords, ports or UUIDs to generate.
    pub count: u8,
    /// The password length.
    pub length: u8,
    /// Include numbers in the password.
    pub number: bool,
    /// Include uppercase characters in the password.
    pub uppercase: bool,
    /// Include lowercase characters in the password.
    pub lowercase: bool,
    /// Include special characters in the password.
    pub symbols: bool,
    /// The port range for ports, the base64 string for decoding.
    pub additional: Option<String>,
}

impl Args {
    /// What the options ask for. Ports come before identifiers, identifiers
    /// before base64, and passwords are what is left.
    pub open spec fn spec_mode(self) -> Mode {
        if self.port {
            Mode::Port
        } else if self.uuid {
            Mode::Uuid
        } else if self.base64 {
            Mode::Base64
        } else {
            Mode::Password
        }
    }

    /// What the options ask for.
    pub fn mode(&self) -> (mode: Mode)
        ensures
            mode == self.spec_mode(),
    {
        if self.port {
            Mode::Port
        } else if self.uuid {
            Mode::Uuid
        } else if self.base64 {
            Mode::Base64
        } else {
            Mode::Password
        }
    }
}

impl Default for Args {
    /// Five passwords of eighteen characters, with numbers and letters of
    /// both cases and without special characters.
    fn default() -> (args: Args)
        ensures
            !args.port,
            !args.uuid,
            !args.base64,
            args.count == 5,
            args.length == 18,
            args.number,
            args.uppercase,
            args.lowercase,
            !args.symbols,
            args.additional is None,
    {
        Args {
            port: false,
            uuid: false,
            base64: false,
            count: 5,
            length: 18,
            number: true,
            uppercase: true,
            lowercase: true,
            symbols: false,
            additional: None,
        }
    }
}

} // verus!
