//! The ways in which a command can fail.

use vstd::prelude::*;
use vstd::string::*;
use crate::number::{decimal_text, write_unsigned};

verus! {

/// A member of the group schema, named in a [`DecodeError`].
#[derive(Clone, Copy, Debug, PartialEq, Eq, Structural)]
pub enum Field {
    Name,
    Lights,
    Sensors,
    Type,
    State,
    AllOn,
    AnyOn,
    Recycle,
    Class,
    Action,
    On,
    Bri,
    Hue,
    Sat,
    Effect,
    Xy,
    Ct,
    Alert,
    Colormode,
}

/// Why a response of the bridge is not a group catalog.
#[derive(Clone, Copy, Debug, PartialEq, Eq, Structural)]
pub enum DecodeError {
    /// The bytes are not a JSON document; the position is where the reader
    /// gave up. Lines count from one. Columns count from one too, but the
    /// column is 0 where the reader gave up before the first character of
    /// a line.
    Syntax { line: usize, column: usize },
    /// A catalog or a group is not a JSON object.
    NotAnObject,
    /// A group lacks a member that the schema requires.
    MissingField(Field),
    /// A member is present but holds a value of the wrong kind, or a number
    /// outside the range of its field.
    InvalidField(Field),
    /// The summary of a group reports every member on and no member on.
    IncoherentState,
}

/// Why a command failed. Every error ends the command: nothing is retried
/// and no partial result is reported.
#[derive(Clone, Debug, PartialEq, Eq)]
pub enum LightError {
    /// The bridge could not be reached, or the connection broke.
    Transport(String),
    /// The bridge answered with something that is no group catalog.
    Decode(DecodeError),
    /// The hardware device tree could not be opened or walked.
    BusUnavailable(String),
    /// An attribute file could not be opened, or the write to it was
    /// rejected or fell short.
    Io(String),
}

/// The mathematical content of a [`LightError`].
pub enum LightErrorView {
    Transport(Seq<char>),
    Decode(DecodeError),
    BusUnavailable(Seq<char>),
    Io(Seq<char>),
}

impl View for LightError {
    type V = LightErrorView;

    open spec fn view(&self) -> LightErrorView {
        match self {
            LightError::Transport(reason) => LightErrorView::Transport(reason@),
            LightError::Decode(error) => LightErrorView::Decode(*error),
            LightError::BusUnavailable(reason) => LightErrorView::BusUnavailable(reason@),
            LightError::Io(reason) => LightErrorView::Io(reason@),
        }
    }
}

impl Field {
    /// The name of the member in a JSON document.
    pub open spec fn key(self) -> Seq<char> {
        match self {
            Field::Name => "name"@,
            Field::Lights => "lights"@,
            Field::Sensors => "sensors"@,
            Field::Type => "type"@,
            Field::State => "state"@,
            Field::AllOn => "all_on"@,
            Field::AnyOn => "any_on"@,
            Field::Recycle => "recycle"@,
            Field::Class => "class"@,
            Field::Action => "action"@,
            Field::On => "on"@,
            Field::Bri => "bri"@,
            Field::Hue => "hue"@,
            Field::Sat => "sat"@,
            Field::Effect => "effect"@,
            Field::Xy => "xy"@,
            Field::Ct => "ct"@,
            Field::Alert => "alert"@,
            Field::Colormode => "colormode"@,
        }
    }

    /// The name of the member in a JSON document.
    pub fn name(self) -> (name: &'static str)
        ensures
            name@ == self.key(),
    {
        match self {
            Field::Name => "name",
            Field::Lights => "lights",
            Field::Sensors => "sensors",
            Field::Type => "type",
            Field::State => "state",
            Field::AllOn => "all_on",
            Field::AnyOn => "any_on",
            Field::Recycle => "recycle",
            Field::Class => "class",
            Field::Action => "action",
            Field::On => "on",
            Field::Bri => "bri",
            Field::Hue => "hue",
            Field::Sat => "sat",
            Field::Effect => "effect",
            Field::Xy => "xy",
            Field::Ct => "ct",
            Field::Alert => "alert",
            Field::Colormode => "colormode",
        }
    }
}

impl DecodeError {
    /// The message that describes the error.
    pub open spec fn message(self) -> Seq<char> {
        match self {
            DecodeError::Syntax { line, column } => "malformed JSON at line "@ + decimal_text(
                line as nat,
            ) + " column "@ + decimal_text(column as nat),
            DecodeError::NotAnObject => "expected a JSON object"@,
            DecodeError::MissingField(field) => "missing field `"@ + field.key() + "`"@,
            DecodeError::InvalidField(field) => "invalid value for field `"@ + field.key() + "`"@,
            DecodeError::IncoherentState => "state reports all members on and none on"@,
        }
    }

    /// The message that describes the error.
    pub fn describe(&self) -> (text: String)
        ensures
            text@ == self.message(),
    {
        match self {
            DecodeError::Syntax { line, column } => {
                let mut text = String::from_str("malformed JSON at line ");
                text.append(write_unsigned(*line as u64).as_str());
                text.append(" column ");
                text.append(write_unsigned(*column as u64).as_str());
                text
            },
            DecodeError::NotAnObject => String::from_str("expected a JSON object"),
            DecodeError::MissingField(field) => {
                let mut text = String::from_str("missing field `");
                text.append(field.name());
                text.append("`");
                text
            },
            DecodeError::InvalidField(field) => {
                let mut text = String::from_str("invalid value for field `");
                text.append(field.name());
                text.append("`");
                text
            },
            DecodeError::IncoherentState => String::from_str(
                "state reports all members on and none on",
            ),
        }
    }
}

impl LightErrorView {
    /// The message that describes the error: its kind, then its reason.
    pub open spec fn message(self) -> Seq<char> {
        match self {
            LightErrorView::Transport(reason) => "transport error: "@ + reason,
            LightErrorView::Decode(error) => "decode error: "@ + error.message(),
            LightErrorView::BusUnavailable(reason) => "hardware bus unavailable: "@ + reason,
            LightErrorView::Io(reason) => "i/o error: "@ + reason,
        }
    }
}

impl LightError {
    /// The message that describes the error, as it is shown to the user.
    pub fn describe(&self) -> (text: String)
        ensures
            text@ == self@.message(),
    {
        match self {
            LightError::Transport(reason) => {
                let mut text = String::from_str("transport error: ");
                text.append(reason.as_str());
                text
            },
            LightError::Decode(error) => {
                let mut text = String::from_str("decode error: ");
                text.append(error.describe().as_str());
                text
            },
            LightError::BusUnavailable(reason) => {
                let mut text = String::from_str("hardware bus unavailable: ");
                text.append(reason.as_str());
                text
            },
            LightError::Io(reason) => {
                let mut text = String::from_str("i/o error: ");
                text.append(reason.as_str());
                text
            },
        }
    }
}

} // verus!
