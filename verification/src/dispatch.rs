//! The command dispatcher: from a parsed command to what has to be done.

use vstd::prelude::*;
use vstd::string::*;
use crate::bridge::{
    change_hue_group, get_hue_request, listing_request, power_request, BridgeConfig,
    BridgeConfigView, BridgeRequest, BridgeRequestView,
};
use crate::error::LightError;

verus! {

/// A command for the bridge backend.
#[derive(Clone, Debug, PartialEq, Eq)]
pub enum HueCommand {
    /// List the groups.
    List,
    /// Turn a group on. The colour is accepted but not applied.
    On { group: String, color: Option<String> },
    /// Turn a group off.
    Off { group: String },
    /// A subcommand that the dispatcher does not know.
    Other(String),
}

/// A parsed command: one backend and what to do with it.
#[derive(Clone, Debug, PartialEq, Eq)]
pub enum Command {
    /// The light groups of the bridge.
    Hue(HueCommand),
    /// The static effect on the attached peripherals.
    Razer,
}

/// The mathematical content of a [`HueCommand`].
pub enum HueCommandView {
    List,
    On { group: Seq<char>, color: Option<Seq<char>> },
    Off { group: Seq<char> },
    Other(Seq<char>),
}

/// The mathematical content of a [`Command`].
pub enum CommandView {
    Hue(HueCommandView),
    Razer,
}

impl View for HueCommand {
    type V = HueCommandView;

    open spec fn view(&self) -> HueCommandView {
        match self {
            HueCommand::List => HueCommandView::List,
            HueCommand::On { group, color } => HueCommandView::On {
                group: group@,
                color: match color {
                    Some(value) => Some(value@),
                    None => None,
                },
            },
            HueCommand::Off { group } => HueCommandView::Off { group: group@ },
            HueCommand::Other(word) => HueCommandView::Other(word@),
        }
    }
}

impl View for Command {
    type V = CommandView;

    open spec fn view(&self) -> CommandView {
        match self {
            Command::Hue(command) => CommandView::Hue(command@),
            Command::Razer => CommandView::Razer,
        }
    }
}

/// Something that the user is told and that is no error.
#[derive(Clone, Copy, Debug, PartialEq, Eq, Structural)]
pub enum Notice {
    /// The subcommand is accepted but does nothing yet.
    NotImplemented,
    /// A colour was given; it is accepted but not applied.
    ColorUnsupported,
}

impl Notice {
    /// The text of the notice.
    pub open spec fn text(self) -> Seq<char> {
        match self {
            Notice::NotImplemented => "need to be implemented"@,
            Notice::ColorUnsupported => "color is accepted but unsupported: it is not applied"@,
        }
    }

    /// The text of the notice, as it is shown to the user.
    pub fn describe(self) -> (text: String)
        ensures
            text@ == self.text(),
    {
        match self {
            Notice::NotImplemented => String::from_str("need to be implemented"),
            Notice::ColorUnsupported => String::from_str(
                "color is accepted but unsupported: it is not applied",
            ),
        }
    }
}

/// What has to be done for a command.
#[derive(Clone, Debug, PartialEq, Eq)]
pub enum Plan {
    /// Send the request and show the catalog that the bridge lists.
    ListGroups { request: BridgeRequest },
    /// Show the notice, if there is one, and send the request.
    SetPower { request: BridgeRequest, notice: Option<Notice> },
    /// Enumerate the devices of the subsystem and trigger the static
    /// effect on each that exposes the marker attribute.
    StaticEffect { subsystem: String, marker: String },
    /// Show the notice and do nothing else.
    Tell(Notice),
}

/// The mathematical content of a [`Plan`].
pub enum PlanView {
    ListGroups { request: BridgeRequestView },
    SetPower { request: BridgeRequestView, notice: Option<Notice> },
    StaticEffect { subsystem: Seq<char>, marker: Seq<char> },
    Tell(Notice),
}

impl View for Plan {
    type V = PlanView;

    open spec fn view(&self) -> PlanView {
        match self {
            Plan::ListGroups { request } => PlanView::ListGroups { request: request@ },
            Plan::SetPower { request, notice } => PlanView::SetPower {
                request: request@,
                notice: *notice,
            },
            Plan::StaticEffect { subsystem, marker } => PlanView::StaticEffect {
                subsystem: subsystem@,
                marker: marker@,
            },
            Plan::Tell(notice) => PlanView::Tell(*notice),
        }
    }
}

/// What has to be done for a command.
///
/// `list` fetches the groups. `on` and `off` change the power of one group
/// and nothing else; a colour given with `on` changes nothing of the
/// request and is answered with a notice. An unknown subcommand is
/// answered with a notice, and is no error. The hardware command runs one
/// pass over the `hid` subsystem, with `device_type` as the marker.
pub open spec fn planned(config: BridgeConfigView, command: CommandView) -> PlanView {
    match command {
        CommandView::Hue(HueCommandView::List) => PlanView::ListGroups {
            request: listing_request(config),
        },
        CommandView::Hue(HueCommandView::On { group, color }) => PlanView::SetPower {
            request: power_request(config, group, true),
            notice: if color is Some {
                Some(Notice::ColorUnsupported)
            } else {
                None
            },
        },
        CommandView::Hue(HueCommandView::Off { group }) => PlanView::SetPower {
            request: power_request(config, group, false),
            notice: None,
        },
        CommandView::Hue(HueCommandView::Other(_)) => PlanView::Tell(
            Notice::NotImplemented,
        ),
        CommandView::Razer => PlanView::StaticEffect {
            subsystem: "hid"@,
            marker: "device_type"@,
        },
    }
}

/// Maps a parsed command onto what has to be done.
pub fn dispatch(config: &BridgeConfig, command: &Command) -> (plan: Plan)
    ensures
        plan@ == planned(config@, command@),
{
    match command {
        Command::Hue(HueCommand::List) => Plan::ListGroups { request: get_hue_request(config) },
        Command::Hue(HueCommand::On { group, color }) => Plan::SetPower {
            request: change_hue_group(config, group.as_str(), true),
            notice: if color.is_some() {
                Some(Notice::ColorUnsupported)
            } else {
                None
            },
        },
        Command::Hue(HueCommand::Off { group }) => Plan::SetPower {
            request: change_hue_group(config, group.as_str(), false),
            notice: None,
        },
        Command::Hue(HueCommand::Other(_)) => Plan::Tell(Notice::NotImplemented),
        Command::Razer => Plan::StaticEffect {
            subsystem: String::from_str("hid"),
            marker: String::from_str("device_type"),
        },
    }
}

/// The exit status of the process: zero exactly where the command
/// succeeded.
pub fn exit_status(outcome: &Result<(), LightError>) -> (status: u8)
    ensures
        status == if outcome is Ok {
            0u8
        } else {
            1u8
        },
{
    match outcome {
        Ok(_) => 0,
        Err(_) => 1,
    }
}

} // verus!
