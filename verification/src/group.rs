//! The group model: what the bridge reports of a light group, how a JSON
//! object is read into it and how it is written back.

use vstd::prelude::*;
use vstd::string::*;
use crate::error::{DecodeError, Field};
use crate::json::{
    items_view, lemma_array_view, lemma_member_value_absent, lemma_member_value_push,
    lemma_object_view, member_value, members_view, same_json, Json, JsonView, Member, MemberView,
};
use crate::number::{decimal_text, lemma_decimal_round_trip, write_unsigned};
use crate::reader::{
    all_numbers, all_text, defect, first_of, flag_member, number_items, number_list_member,
    number_member, object_member, or_absent, read_flag, read_number, read_number_list, read_object,
    read_text, read_text_list, text_items, text_list_member, text_member,
};
use crate::text::texts_view;

verus! {

/// The summary that the bridge derives from the members of a group:
/// whether every member is on, and whether at least one is. Where every
/// member is on, some member is: no value of this type says otherwise.
#[derive(Clone, Copy, Debug, PartialEq, Eq)]
pub struct GroupState {
    all_on: bool,
    any_on: bool,
}

/// The mathematical content of a [`GroupState`].
pub struct GroupStateView {
    /// Every member is on.
    pub all_on: bool,
    /// At least one member is on.
    pub any_on: bool,
}

impl GroupStateView {
    /// The summary is coherent: where every member is on, some member is.
    pub open spec fn coherent(self) -> bool {
        self.all_on ==> self.any_on
    }
}

impl View for GroupState {
    type V = GroupStateView;

    closed spec fn view(&self) -> GroupStateView {
        GroupStateView { all_on: self.all_on, any_on: self.any_on }
    }
}

/// The control vector of a group. It always carries every field: one that
/// the bridge leaves out, as it does for a group without colour
/// capability, holds its placeholder.
#[derive(Clone, Debug, PartialEq, Eq)]
pub struct GroupAction {
    pub on: bool,
    pub bri: u8,
    pub hue: u16,
    pub sat: u8,
    pub effect: String,
    /// The chromaticity coordinates, each as the decimal literal that the
    /// JSON reader prints for the number; empty for a group that has no
    /// colour.
    pub xy: Vec<String>,
    pub ct: usize,
    pub alert: String,
    pub colormode: String,
}

/// One light group as the bridge reports it.
#[derive(Clone, Debug, PartialEq, Eq)]
pub struct Group {
    pub name: String,
    pub lights: Vec<String>,
    pub sensors: Vec<String>,
    /// The bridge's `type` tag.
    pub kind: String,
    pub state: GroupState,
    pub recycle: bool,
    pub class: String,
    pub action: GroupAction,
}

/// The mathematical content of a [`GroupAction`].
pub struct GroupActionView {
    pub on: bool,
    pub bri: u8,
    pub hue: u16,
    pub sat: u8,
    pub effect: Seq<char>,
    pub xy: Seq<Seq<char>>,
    pub ct: usize,
    pub alert: Seq<char>,
    pub colormode: Seq<char>,
}

/// The mathematical content of a [`Group`].
pub struct GroupView {
    pub name: Seq<char>,
    pub lights: Seq<Seq<char>>,
    pub sensors: Seq<Seq<char>>,
    pub kind: Seq<char>,
    pub state: GroupStateView,
    pub recycle: bool,
    pub class: Seq<char>,
    pub action: GroupActionView,
}

impl View for GroupAction {
    type V = GroupActionView;

    open spec fn view(&self) -> GroupActionView {
        GroupActionView {
            on: self.on,
            bri: self.bri,
            hue: self.hue,
            sat: self.sat,
            effect: self.effect@,
            xy: texts_view(self.xy@),
            ct: self.ct,
            alert: self.alert@,
            colormode: self.colormode@,
        }
    }
}

impl View for Group {
    type V = GroupView;

    open spec fn view(&self) -> GroupView {
        GroupView {
            name: self.name@,
            lights: texts_view(self.lights@),
            sensors: texts_view(self.sensors@),
            kind: self.kind@,
            state: self.state@,
            recycle: self.recycle,
            class: self.class@,
            action: self.action@,
        }
    }
}

impl GroupState {
    #[verifier::type_invariant]
    spec fn is_coherent(self) -> bool {
        self.all_on ==> self.any_on
    }

    /// A summary, unless it would report every member on and none on.
    pub fn new(all_on: bool, any_on: bool) -> (state: Option<GroupState>)
        ensures
            match state {
                Some(state) => state@ == (GroupStateView { all_on, any_on }) && state@.coherent(),
                None => all_on && !any_on,
            },
    {
        if all_on && !any_on {
            None
        } else {
            Some(GroupState { all_on, any_on })
        }
    }

    /// The summary of a group whose members are all on, or all off.
    pub fn uniform(on: bool) -> (state: GroupState)
        ensures
            state@ == (GroupStateView { all_on: on, any_on: on }),
    {
        GroupState { all_on: on, any_on: on }
    }

    /// Whether every member is on.
    pub fn all_on(&self) -> (all_on: bool)
        ensures
            all_on == self@.all_on,
            self@.coherent(),
    {
        proof {
            use_type_invariant(self);
        }
        self.all_on
    }

    /// Whether at least one member is on.
    pub fn any_on(&self) -> (any_on: bool)
        ensures
            any_on == self@.any_on,
            self@.coherent(),
    {
        proof {
            use_type_invariant(self);
        }
        self.any_on
    }
}

/// What is wrong with the members of a `state` object, if anything.
pub open spec fn state_defect(members: Seq<MemberView>) -> Option<DecodeError> {
    first_of(
        defect(flag_member(members, Field::AllOn)),
        first_of(
            defect(flag_member(members, Field::AnyOn)),
            if state_content(members).coherent() {
                None
            } else {
                Some(DecodeError::IncoherentState)
            },
        ),
    )
}

/// The state that the members of a faultless `state` object describe.
pub open spec fn state_content(members: Seq<MemberView>) -> GroupStateView {
    GroupStateView {
        all_on: flag_member(members, Field::AllOn)->Ok_0,
        any_on: flag_member(members, Field::AnyOn)->Ok_0,
    }
}

/// The reading of a `state` object: its members are required, in the order
/// `all_on`, `any_on`, and the first that is missing or ill-typed is the
/// error. A summary that reports every member on and none on is an error
/// too.
pub open spec fn state_of(members: Seq<MemberView>) -> Result<GroupStateView, DecodeError> {
    match state_defect(members) {
        Some(error) => Err(error),
        None => Ok(state_content(members)),
    }
}

/// The placeholders of the action: what a field holds where the bridge
/// leaves its member out.
pub open spec fn placeholder_action() -> GroupActionView {
    GroupActionView {
        on: false,
        bri: 0,
        hue: 0,
        sat: 0,
        effect: "none"@,
        xy: Seq::empty(),
        ct: 0,
        alert: "none"@,
        colormode: Seq::empty(),
    }
}

/// The reading of the member `on`.
pub open spec fn on_of(members: Seq<MemberView>) -> Result<bool, DecodeError> {
    or_absent(flag_member(members, Field::On), placeholder_action().on)
}

/// The reading of the member `bri`.
pub open spec fn bri_of(members: Seq<MemberView>) -> Result<nat, DecodeError> {
    or_absent(number_member(members, Field::Bri, u8::MAX as nat), placeholder_action().bri as nat)
}

/// The reading of the member `hue`.
pub open spec fn hue_of(members: Seq<MemberView>) -> Result<nat, DecodeError> {
    or_absent(number_member(members, Field::Hue, u16::MAX as nat), placeholder_action().hue as nat)
}

/// The reading of the member `sat`.
pub open spec fn sat_of(members: Seq<MemberView>) -> Result<nat, DecodeError> {
    or_absent(number_member(members, Field::Sat, u8::MAX as nat), placeholder_action().sat as nat)
}

/// The reading of the member `effect`.
pub open spec fn effect_of(members: Seq<MemberView>) -> Result<Seq<char>, DecodeError> {
    or_absent(text_member(members, Field::Effect), placeholder_action().effect)
}

/// The reading of the member `xy`.
pub open spec fn xy_of(members: Seq<MemberView>) -> Result<Seq<Seq<char>>, DecodeError> {
    or_absent(number_list_member(members, Field::Xy), placeholder_action().xy)
}

/// The reading of the member `ct`.
pub open spec fn ct_of(members: Seq<MemberView>) -> Result<nat, DecodeError> {
    or_absent(number_member(members, Field::Ct, usize::MAX as nat), placeholder_action().ct as nat)
}

/// The reading of the member `alert`.
pub open spec fn alert_of(members: Seq<MemberView>) -> Result<Seq<char>, DecodeError> {
    or_absent(text_member(members, Field::Alert), placeholder_action().alert)
}

/// The reading of the member `colormode`.
pub open spec fn colormode_of(members: Seq<MemberView>) -> Result<Seq<char>, DecodeError> {
    or_absent(text_member(members, Field::Colormode), placeholder_action().colormode)
}

/// What is wrong with the members of an `action` object, if anything.
pub open spec fn action_defect(members: Seq<MemberView>) -> Option<DecodeError> {
    first_of(
        defect(on_of(members)),
        first_of(
            defect(bri_of(members)),
            first_of(
                defect(hue_of(members)),
                first_of(
                    defect(sat_of(members)),
                    first_of(
                        defect(effect_of(members)),
                        first_of(
                            defect(xy_of(members)),
                            first_of(
                                defect(ct_of(members)),
                                first_of(defect(alert_of(members)), defect(colormode_of(members))),
                            ),
                        ),
                    ),
                ),
            ),
        ),
    )
}

/// The action that the members of a faultless `action` object describe.
pub open spec fn action_content(members: Seq<MemberView>) -> GroupActionView {
    GroupActionView {
        on: on_of(members)->Ok_0,
        bri: bri_of(members)->Ok_0 as u8,
        hue: hue_of(members)->Ok_0 as u16,
        sat: sat_of(members)->Ok_0 as u8,
        effect: effect_of(members)->Ok_0,
        xy: xy_of(members)->Ok_0,
        ct: ct_of(members)->Ok_0 as usize,
        alert: alert_of(members)->Ok_0,
        colormode: colormode_of(members)->Ok_0,
    }
}

/// The reading of an `action` object. No member is required: one that is
/// absent is valid and gives its field the placeholder. A member that is
/// present must be of the right kind and, if a number, in the range of its
/// field; the members are examined in the order `on`, `bri`, `hue`, `sat`,
/// `effect`, `xy`, `ct`, `alert`, `colormode`, and the first that is not is
/// the error. No member is judged by the values of the others.
pub open spec fn action_of(members: Seq<MemberView>) -> Result<GroupActionView, DecodeError> {
    match action_defect(members) {
        Some(error) => Err(error),
        None => Ok(action_content(members)),
    }
}

/// What is wrong with the `state` member of a group, if anything.
pub open spec fn nested_state_defect(members: Seq<MemberView>) -> Option<DecodeError> {
    match object_member(members, Field::State) {
        Err(error) => Some(error),
        Ok(inner) => state_defect(inner),
    }
}

/// What is wrong with the `action` member of a group, if anything.
pub open spec fn nested_action_defect(members: Seq<MemberView>) -> Option<DecodeError> {
    match object_member(members, Field::Action) {
        Err(error) => Some(error),
        Ok(inner) => action_defect(inner),
    }
}

/// What is wrong with the members of a group object, if anything.
pub open spec fn group_defect(members: Seq<MemberView>) -> Option<DecodeError> {
    first_of(
        defect(text_member(members, Field::Name)),
        first_of(
            defect(text_list_member(members, Field::Lights)),
            first_of(
                defect(text_list_member(members, Field::Sensors)),
                first_of(
                    defect(text_member(members, Field::Type)),
                    first_of(
                        nested_state_defect(members),
                        first_of(
                            defect(flag_member(members, Field::Recycle)),
                            first_of(
                                defect(text_member(members, Field::Class)),
                                nested_action_defect(members),
                            ),
                        ),
                    ),
                ),
            ),
        ),
    )
}

/// The group that the members of a faultless group object describe.
pub open spec fn group_content(members: Seq<MemberView>) -> GroupView {
    GroupView {
        name: text_member(members, Field::Name)->Ok_0,
        lights: text_list_member(members, Field::Lights)->Ok_0,
        sensors: text_list_member(members, Field::Sensors)->Ok_0,
        kind: text_member(members, Field::Type)->Ok_0,
        state: state_content(object_member(members, Field::State)->Ok_0),
        recycle: flag_member(members, Field::Recycle)->Ok_0,
        class: text_member(members, Field::Class)->Ok_0,
        action: action_content(object_member(members, Field::Action)->Ok_0),
    }
}

/// The reading of a group from a JSON value.
///
/// The value must be an object. Its members `name`, `lights`, `sensors`,
/// `type`, `state`, `recycle`, `class` and `action` are all required and
/// are examined in that order; the first that is missing, ill-typed or out
/// of range is the error. Members that the schema does not name are
/// ignored.
pub open spec fn group_of(payload: JsonView) -> Result<GroupView, DecodeError> {
    match payload {
        JsonView::Object(members) => match group_defect(members) {
            Some(error) => Err(error),
            None => Ok(group_content(members)),
        },
        _ => Err(DecodeError::NotAnObject),
    }
}

/// A reading with its value replaced by the value's view.
pub open spec fn decoded<T: View>(reading: Result<T, DecodeError>) -> Result<T::V, DecodeError> {
    match reading {
        Ok(value) => Ok(value@),
        Err(error) => Err(error),
    }
}

impl GroupState {
    /// Reads a state from the members of a `state` object.
    pub fn from_members(members: &Vec<Member>) -> (reading: Result<GroupState, DecodeError>)
        ensures
            decoded(reading) == state_of(members_view(members@)),
    {
        let all_on = match read_flag(members, Field::AllOn) {
            Ok(flag) => flag,
            Err(error) => {
                return Err(error);
            },
        };
        let any_on = match read_flag(members, Field::AnyOn) {
            Ok(flag) => flag,
            Err(error) => {
                return Err(error);
            },
        };
        match GroupState::new(all_on, any_on) {
            Some(state) => Ok(state),
            None => Err(DecodeError::IncoherentState),
        }
    }
}

impl GroupAction {
    /// The action whose every field holds its placeholder.
    pub fn placeholder() -> (action: GroupAction)
        ensures
            action@ == placeholder_action(),
    {
        let action = GroupAction {
            on: false,
            bri: 0,
            hue: 0,
            sat: 0,
            effect: String::from_str("none"),
            xy: Vec::new(),
            ct: 0,
            alert: String::from_str("none"),
            colormode: String::new(),
        };
        assert(action@.xy =~= Seq::<Seq<char>>::empty());
        action
    }

    /// Reads an action from the members of an `action` object.
    pub fn from_members(members: &Vec<Member>) -> (reading: Result<GroupAction, DecodeError>)
        ensures
            decoded(reading) == action_of(members_view(members@)),
    {
        let GroupAction { on, bri, hue, sat, effect, xy, ct, alert, colormode } =
            GroupAction::placeholder();
        let on = match read_flag(members, Field::On) {
            Ok(flag) => flag,
            Err(DecodeError::MissingField(_)) => on,
            Err(error) => {
                return Err(error);
            },
        };
        let bri = match read_number(members, Field::Bri, 255) {
            Ok(value) => value as u8,
            Err(DecodeError::MissingField(_)) => bri,
            Err(error) => {
                return Err(error);
            },
        };
        let hue = match read_number(members, Field::Hue, 65535) {
            Ok(value) => value as u16,
            Err(DecodeError::MissingField(_)) => hue,
            Err(error) => {
                return Err(error);
            },
        };
        let sat = match read_number(members, Field::Sat, 255) {
            Ok(value) => value as u8,
            Err(DecodeError::MissingField(_)) => sat,
            Err(error) => {
                return Err(error);
            },
        };
        let effect = match read_text(members, Field::Effect) {
            Ok(text) => text,
            Err(DecodeError::MissingField(_)) => effect,
            Err(error) => {
                return Err(error);
            },
        };
        let xy = match read_number_list(members, Field::Xy) {
            Ok(literals) => literals,
            Err(DecodeError::MissingField(_)) => xy,
            Err(error) => {
                return Err(error);
            },
        };
        let ct = match read_number(members, Field::Ct, usize::MAX as u64) {
            Ok(value) => value as usize,
            Err(DecodeError::MissingField(_)) => ct,
            Err(error) => {
                return Err(error);
            },
        };
        let alert = match read_text(members, Field::Alert) {
            Ok(text) => text,
            Err(DecodeError::MissingField(_)) => alert,
            Err(error) => {
                return Err(error);
            },
        };
        let colormode = match read_text(members, Field::Colormode) {
            Ok(text) => text,
            Err(DecodeError::MissingField(_)) => colormode,
            Err(error) => {
                return Err(error);
            },
        };
        Ok(GroupAction { on, bri, hue, sat, effect, xy, ct, alert, colormode })
    }
}

impl Group {
    /// Reads a group from a JSON value.
    pub fn from_json(payload: &Json) -> (reading: Result<Group, DecodeError>)
        ensures
            decoded(reading) == group_of(payload@),
    {
        let members = match payload {
            Json::Object(members) => members,
            _ => {
                return Err(DecodeError::NotAnObject);
            },
        };
        proof {
            lemma_object_view(*members);
        }
        let name = match read_text(members, Field::Name) {
            Ok(text) => text,
            Err(error) => {
                return Err(error);
            },
        };
        let lights = match read_text_list(members, Field::Lights) {
            Ok(texts) => texts,
            Err(error) => {
                return Err(error);
            },
        };
        let sensors = match read_text_list(members, Field::Sensors) {
            Ok(texts) => texts,
            Err(error) => {
                return Err(error);
            },
        };
        let kind = match read_text(members, Field::Type) {
            Ok(text) => text,
            Err(error) => {
                return Err(error);
            },
        };
        let state = match read_object(members, Field::State) {
            Ok(inner) => match GroupState::from_members(inner) {
                Ok(state) => state,
                Err(error) => {
                    return Err(error);
                },
            },
            Err(error) => {
                return Err(error);
            },
        };
        let recycle = match read_flag(members, Field::Recycle) {
            Ok(flag) => flag,
            Err(error) => {
                return Err(error);
            },
        };
        let class = match read_text(members, Field::Class) {
            Ok(text) => text,
            Err(error) => {
                return Err(error);
            },
        };
        let action = match read_object(members, Field::Action) {
            Ok(inner) => match GroupAction::from_members(inner) {
                Ok(action) => action,
                Err(error) => {
                    return Err(error);
                },
            },
            Err(error) => {
                return Err(error);
            },
        };
        Ok(Group { name, lights, sensors, kind, state, recycle, class, action })
    }
}

/// A member of an object.
pub open spec fn member(name: Seq<char>, value: JsonView) -> MemberView {
    MemberView { name, value }
}

/// An array of strings.
pub open spec fn text_array(texts: Seq<Seq<char>>) -> JsonView {
    JsonView::Array(Seq::new(texts.len(), |i: int| JsonView::Text(texts[i])))
}

/// An array of numbers, given by their literals.
pub open spec fn number_array(literals: Seq<Seq<char>>) -> JsonView {
    JsonView::Array(Seq::new(literals.len(), |i: int| JsonView::Number(literals[i])))
}

/// An unsigned integer as a JSON number.
pub open spec fn unsigned_json(n: nat) -> JsonView {
    JsonView::Number(decimal_text(n))
}

/// The `state` object of a group.
pub open spec fn state_json(state: GroupStateView) -> JsonView {
    JsonView::Object(
        Seq::empty()
            .push(member(Field::AllOn.key(), JsonView::Bool(state.all_on)))
            .push(member(Field::AnyOn.key(), JsonView::Bool(state.any_on))),
    )
}

/// The `action` object of a group.
pub open spec fn action_json(action: GroupActionView) -> JsonView {
    JsonView::Object(
        Seq::empty()
            .push(member(Field::On.key(), JsonView::Bool(action.on)))
            .push(member(Field::Bri.key(), unsigned_json(action.bri as nat)))
            .push(member(Field::Hue.key(), unsigned_json(action.hue as nat)))
            .push(member(Field::Sat.key(), unsigned_json(action.sat as nat)))
            .push(member(Field::Effect.key(), JsonView::Text(action.effect)))
            .push(member(Field::Xy.key(), number_array(action.xy)))
            .push(member(Field::Ct.key(), unsigned_json(action.ct as nat)))
            .push(member(Field::Alert.key(), JsonView::Text(action.alert)))
            .push(member(Field::Colormode.key(), JsonView::Text(action.colormode))),
    )
}

/// The JSON object that stands for a group: the members of the schema in
/// its order, each integer as its shortest decimal literal.
pub open spec fn group_json(group: GroupView) -> JsonView {
    JsonView::Object(
        Seq::empty()
            .push(member(Field::Name.key(), JsonView::Text(group.name)))
            .push(member(Field::Lights.key(), text_array(group.lights)))
            .push(member(Field::Sensors.key(), text_array(group.sensors)))
            .push(member(Field::Type.key(), JsonView::Text(group.kind)))
            .push(member(Field::State.key(), state_json(group.state)))
            .push(member(Field::Recycle.key(), JsonView::Bool(group.recycle)))
            .push(member(Field::Class.key(), JsonView::Text(group.class)))
            .push(member(Field::Action.key(), action_json(group.action))),
    )
}

fn make_member(field: Field, value: Json) -> (made: Member)
    ensures
        made.name@ == field.key(),
        made.value == value,
{
    Member { name: String::from_str(field.name()), value }
}

fn text_array_json(texts: &Vec<String>) -> (array: Json)
    ensures
        array@ == text_array(texts_view(texts@)),
{
    let mut items: Vec<Json> = Vec::new();
    let mut i: usize = 0;
    while i < texts.len()
        invariant
            i <= texts.len(),
            items@.len() == i,
            forall|j: int| 0 <= j < i ==> (#[trigger] items@[j])@ == JsonView::Text(texts@[j]@),
        decreases texts.len() - i,
    {
        items.push(Json::Text(texts[i].clone()));
        i += 1;
    }
    proof {
        lemma_array_view(items);
        assert(items_view(items@) =~= text_array(texts_view(texts@))->Array_0);
    }
    Json::Array(items)
}

fn number_array_json(literals: &Vec<String>) -> (array: Json)
    ensures
        array@ == number_array(texts_view(literals@)),
{
    let mut items: Vec<Json> = Vec::new();
    let mut i: usize = 0;
    while i < literals.len()
        invariant
            i <= literals.len(),
            items@.len() == i,
            forall|j: int| 0 <= j < i ==> (#[trigger] items@[j])@ == JsonView::Number(literals@[j]@),
        decreases literals.len() - i,
    {
        items.push(Json::Number(literals[i].clone()));
        i += 1;
    }
    proof {
        lemma_array_view(items);
        assert(items_view(items@) =~= number_array(texts_view(literals@))->Array_0);
    }
    Json::Array(items)
}

impl GroupState {
    /// Writes the state as a `state` object.
    pub fn to_json(&self) -> (object: Json)
        ensures
            object@ == state_json(self@),
    {
        let mut members: Vec<Member> = Vec::new();
        members.push(make_member(Field::AllOn, Json::Bool(self.all_on)));
        members.push(make_member(Field::AnyOn, Json::Bool(self.any_on)));
        proof {
            lemma_object_view(members);
            assert(members_view(members@) =~= state_json(self@)->Object_0);
        }
        Json::Object(members)
    }
}

impl GroupAction {
    /// Writes the action as an `action` object.
    pub fn to_json(&self) -> (object: Json)
        ensures
            object@ == action_json(self@),
    {
        let mut members: Vec<Member> = Vec::new();
        members.push(make_member(Field::On, Json::Bool(self.on)));
        members.push(make_member(Field::Bri, Json::Number(write_unsigned(self.bri as u64))));
        members.push(make_member(Field::Hue, Json::Number(write_unsigned(self.hue as u64))));
        members.push(make_member(Field::Sat, Json::Number(write_unsigned(self.sat as u64))));
        members.push(make_member(Field::Effect, Json::Text(self.effect.clone())));
        members.push(make_member(Field::Xy, number_array_json(&self.xy)));
        members.push(make_member(Field::Ct, Json::Number(write_unsigned(self.ct as u64))));
        members.push(make_member(Field::Alert, Json::Text(self.alert.clone())));
        members.push(make_member(Field::Colormode, Json::Text(self.colormode.clone())));
        proof {
            lemma_object_view(members);
            assert(members_view(members@) =~= action_json(self@)->Object_0);
        }
        Json::Object(members)
    }
}

impl Group {
    /// Writes the group as a JSON object.
    pub fn to_json(&self) -> (object: Json)
        ensures
            object@ == group_json(self@),
    {
        let mut members: Vec<Member> = Vec::new();
        members.push(make_member(Field::Name, Json::Text(self.name.clone())));
        members.push(make_member(Field::Lights, text_array_json(&self.lights)));
        members.push(make_member(Field::Sensors, text_array_json(&self.sensors)));
        members.push(make_member(Field::Type, Json::Text(self.kind.clone())));
        members.push(make_member(Field::State, self.state.to_json()));
        members.push(make_member(Field::Recycle, Json::Bool(self.recycle)));
        members.push(make_member(Field::Class, Json::Text(self.class.clone())));
        members.push(make_member(Field::Action, self.action.to_json()));
        proof {
            lemma_object_view(members);
            assert(members_view(members@) =~= group_json(self@)->Object_0);
        }
        Json::Object(members)
    }
}

/// Reading an array of strings that was written from a sequence gives the
/// sequence back.
pub proof fn lemma_text_array_round_trip(texts: Seq<Seq<char>>)
    ensures
        all_text(text_array(texts)->Array_0),
        text_items(text_array(texts)->Array_0) == texts,
{
    assert(text_items(text_array(texts)->Array_0) =~= texts);
}

/// Reading an array of numbers that was written from a sequence of
/// literals gives the sequence back.
pub proof fn lemma_number_array_round_trip(literals: Seq<Seq<char>>)
    ensures
        all_numbers(number_array(literals)->Array_0),
        number_items(number_array(literals)->Array_0) == literals,
{
    assert(number_items(number_array(literals)->Array_0) =~= literals);
}

/// Reading the `state` object that was written from a state gives the
/// state back.
pub proof fn lemma_state_round_trip(state: GroupStateView)
    requires
        state.coherent(),
    ensures
        state_of(state_json(state)->Object_0) == Ok::<GroupStateView, DecodeError>(state),
{
    broadcast use lemma_member_value_push;

    reveal_strlit("all_on");
    reveal_strlit("any_on");
    assert("all_on"@[1] != "any_on"@[1]);
    let members = state_json(state)->Object_0;
    assert(member_value(members, "all_on"@) == Some(JsonView::Bool(state.all_on)));
    assert(member_value(members, "any_on"@) == Some(JsonView::Bool(state.any_on)));
}

/// Reading the `action` object that was written from an action gives the
/// action back.
pub proof fn lemma_action_round_trip(action: GroupActionView)
    ensures
        action_of(action_json(action)->Object_0) == Ok::<GroupActionView, DecodeError>(action),
{
    broadcast use lemma_member_value_push;

    reveal_strlit("on");
    reveal_strlit("bri");
    reveal_strlit("hue");
    reveal_strlit("sat");
    reveal_strlit("effect");
    reveal_strlit("xy");
    reveal_strlit("ct");
    reveal_strlit("alert");
    reveal_strlit("colormode");
    assert("on"@.len() == 2 && "on"@[0] == 'o');
    assert("xy"@.len() == 2 && "xy"@[0] == 'x');
    assert("ct"@.len() == 2 && "ct"@[0] == 'c');
    assert("bri"@.len() == 3 && "bri"@[0] == 'b');
    assert("hue"@.len() == 3 && "hue"@[0] == 'h');
    assert("sat"@.len() == 3 && "sat"@[0] == 's');
    assert("alert"@.len() == 5);
    assert("effect"@.len() == 6);
    assert("colormode"@.len() == 9);
    lemma_decimal_round_trip(action.bri as nat);
    lemma_decimal_round_trip(action.hue as nat);
    lemma_decimal_round_trip(action.sat as nat);
    lemma_decimal_round_trip(action.ct as nat);
    lemma_number_array_round_trip(action.xy);
    let members = action_json(action)->Object_0;
    assert(member_value(members, "on"@) == Some(JsonView::Bool(action.on)));
    assert(member_value(members, "bri"@) == Some(unsigned_json(action.bri as nat)));
    assert(member_value(members, "hue"@) == Some(unsigned_json(action.hue as nat)));
    assert(member_value(members, "sat"@) == Some(unsigned_json(action.sat as nat)));
    assert(member_value(members, "effect"@) == Some(JsonView::Text(action.effect)));
    assert(member_value(members, "xy"@) == Some(number_array(action.xy)));
    assert(member_value(members, "ct"@) == Some(unsigned_json(action.ct as nat)));
    assert(member_value(members, "alert"@) == Some(JsonView::Text(action.alert)));
    assert(member_value(members, "colormode"@) == Some(JsonView::Text(action.colormode)));
    assert(action_defect(members) is None);
    assert(action_content(members) == action);
}

/// Decoding the object that was encoded from a group gives the group back,
/// field for field.
pub proof fn lemma_group_round_trip(group: GroupView)
    requires
        group.state.coherent(),
    ensures
        group_of(group_json(group)) == Ok::<GroupView, DecodeError>(group),
{
    broadcast use lemma_member_value_push;

    reveal_strlit("name");
    reveal_strlit("lights");
    reveal_strlit("sensors");
    reveal_strlit("type");
    reveal_strlit("state");
    reveal_strlit("recycle");
    reveal_strlit("class");
    reveal_strlit("action");
    assert("name"@.len() == 4 && "name"@[0] == 'n');
    assert("type"@.len() == 4 && "type"@[0] == 't');
    assert("state"@.len() == 5 && "state"@[0] == 's');
    assert("class"@.len() == 5 && "class"@[0] == 'c');
    assert("lights"@.len() == 6 && "lights"@[0] == 'l');
    assert("action"@.len() == 6 && "action"@[0] == 'a');
    assert("sensors"@.len() == 7 && "sensors"@[0] == 's');
    assert("recycle"@.len() == 7 && "recycle"@[0] == 'r');
    lemma_text_array_round_trip(group.lights);
    lemma_text_array_round_trip(group.sensors);
    lemma_state_round_trip(group.state);
    lemma_action_round_trip(group.action);
    let members = group_json(group)->Object_0;
    assert(member_value(members, "name"@) == Some(JsonView::Text(group.name)));
    assert(member_value(members, "lights"@) == Some(text_array(group.lights)));
    assert(member_value(members, "sensors"@) == Some(text_array(group.sensors)));
    assert(member_value(members, "type"@) == Some(JsonView::Text(group.kind)));
    assert(member_value(members, "state"@) == Some(state_json(group.state)));
    assert(member_value(members, "recycle"@) == Some(JsonView::Bool(group.recycle)));
    assert(member_value(members, "class"@) == Some(JsonView::Text(group.class)));
    assert(member_value(members, "action"@) == Some(action_json(group.action)));
    assert(group_defect(members) is None);
    assert(group_content(members) == group);
}

/// A group that was decoded has a coherent summary.
pub proof fn lemma_decoded_is_coherent(payload: JsonView)
    requires
        group_of(payload) is Ok,
    ensures
        group_of(payload)->Ok_0.state.coherent(),
{
}

/// A payload that decodes to a group is equivalent to the encoding of that
/// group: decoding either gives the same group, field for field.
pub proof fn lemma_decode_then_encode(payload: JsonView)
    requires
        group_of(payload) is Ok,
    ensures
        group_of(group_json(group_of(payload)->Ok_0)) == group_of(payload),
{
    lemma_decoded_is_coherent(payload);
    lemma_group_round_trip(group_of(payload)->Ok_0);
}

/// Whether a name is that of a member of a `state` object.
pub open spec fn is_state_key(name: Seq<char>) -> bool {
    name == Field::AllOn.key() || name == Field::AnyOn.key()
}

/// Whether a name is that of a member of an `action` object.
pub open spec fn is_action_key(name: Seq<char>) -> bool {
    ||| name == Field::On.key()
    ||| name == Field::Bri.key()
    ||| name == Field::Hue.key()
    ||| name == Field::Sat.key()
    ||| name == Field::Effect.key()
    ||| name == Field::Xy.key()
    ||| name == Field::Ct.key()
    ||| name == Field::Alert.key()
    ||| name == Field::Colormode.key()
}

/// Whether a name is that of a member of a group object.
pub open spec fn is_group_key(name: Seq<char>) -> bool {
    ||| name == Field::Name.key()
    ||| name == Field::Lights.key()
    ||| name == Field::Sensors.key()
    ||| name == Field::Type.key()
    ||| name == Field::State.key()
    ||| name == Field::Recycle.key()
    ||| name == Field::Class.key()
    ||| name == Field::Action.key()
}

/// A `state` object that names no member outside the schema.
pub open spec fn exact_state(members: Seq<MemberView>) -> bool {
    forall|i: int| 0 <= i < members.len() ==> is_state_key((#[trigger] members[i]).name)
}

/// An `action` object that names every member of the schema and no other.
pub open spec fn exact_action(members: Seq<MemberView>) -> bool {
    &&& forall|i: int| 0 <= i < members.len() ==> is_action_key((#[trigger] members[i]).name)
    &&& member_value(members, Field::On.key()) is Some
    &&& member_value(members, Field::Bri.key()) is Some
    &&& member_value(members, Field::Hue.key()) is Some
    &&& member_value(members, Field::Sat.key()) is Some
    &&& member_value(members, Field::Effect.key()) is Some
    &&& member_value(members, Field::Xy.key()) is Some
    &&& member_value(members, Field::Ct.key()) is Some
    &&& member_value(members, Field::Alert.key()) is Some
    &&& member_value(members, Field::Colormode.key()) is Some
}

/// A group object with exactly the members of the schema: in the group,
/// in its `state` and in its `action`, every member of the schema is named
/// and no other.
pub open spec fn exact_group(payload: JsonView) -> bool {
    &&& payload matches JsonView::Object(members)
    &&& forall|i: int| 0 <= i < members.len() ==> is_group_key((#[trigger] members[i]).name)
    &&& object_member(members, Field::State) matches Ok(state)
    &&& exact_state(state)
    &&& object_member(members, Field::Action) matches Ok(action)
    &&& exact_action(action)
}

/// An array of strings, written again from the strings that were read
/// from it, is the array itself.
pub proof fn lemma_text_array_rewritten(items: Seq<JsonView>)
    requires
        all_text(items),
    ensures
        text_array(text_items(items)) == JsonView::Array(items),
        forall|depth: nat| same_json(JsonView::Array(items), JsonView::Array(items), depth),
{
    assert(text_array(text_items(items))->Array_0 =~= items);
    assert forall|depth: nat| same_json(JsonView::Array(items), JsonView::Array(items), depth) by {
        reveal_with_fuel(same_json, 2);
    }
}

/// An array of numbers, written again from the literals that were read
/// from it, is the array itself.
pub proof fn lemma_number_array_rewritten(items: Seq<JsonView>)
    requires
        all_numbers(items),
    ensures
        number_array(number_items(items)) == JsonView::Array(items),
        forall|depth: nat| same_json(JsonView::Array(items), JsonView::Array(items), depth),
{
    assert(number_array(number_items(items))->Array_0 =~= items);
    assert forall|depth: nat| same_json(JsonView::Array(items), JsonView::Array(items), depth) by {
        reveal_with_fuel(same_json, 2);
    }
}

/// The `state` object of a payload and the one written from what was read
/// of it are equal as JSON values.
pub proof fn lemma_state_reencoded(members: Seq<MemberView>, depth: nat)
    requires
        state_of(members) is Ok,
        exact_state(members),
        depth >= 1,
    ensures
        same_json(state_json(state_of(members)->Ok_0), JsonView::Object(members), depth),
{
    broadcast use lemma_member_value_push;

    reveal_strlit("all_on");
    reveal_strlit("any_on");
    assert("all_on"@[1] != "any_on"@[1]);
    let written = state_json(state_of(members)->Ok_0)->Object_0;
    assert forall|name: Seq<char>|
        match (#[trigger] member_value(written, name), member_value(members, name)) {
            (None, None) => true,
            (Some(u), Some(v)) => same_json(u, v, (depth - 1) as nat),
            _ => false,
        } by {
        if !is_state_key(name) {
            lemma_member_value_absent(members, name);
        }
    }
}

/// The `action` object of a payload and the one written from what was
/// read of it are equal as JSON values.
pub proof fn lemma_action_reencoded(members: Seq<MemberView>, depth: nat)
    requires
        action_of(members) is Ok,
        exact_action(members),
        depth >= 2,
    ensures
        same_json(action_json(action_of(members)->Ok_0), JsonView::Object(members), depth),
{
    broadcast use lemma_member_value_push;

    reveal_strlit("on");
    reveal_strlit("bri");
    reveal_strlit("hue");
    reveal_strlit("sat");
    reveal_strlit("effect");
    reveal_strlit("xy");
    reveal_strlit("ct");
    reveal_strlit("alert");
    reveal_strlit("colormode");
    assert("on"@.len() == 2 && "on"@[0] == 'o');
    assert("xy"@.len() == 2 && "xy"@[0] == 'x');
    assert("ct"@.len() == 2 && "ct"@[0] == 'c');
    assert("bri"@.len() == 3 && "bri"@[0] == 'b');
    assert("hue"@.len() == 3 && "hue"@[0] == 'h');
    assert("sat"@.len() == 3 && "sat"@[0] == 's');
    assert("alert"@.len() == 5);
    assert("effect"@.len() == 6);
    assert("colormode"@.len() == 9);
    let action = action_of(members)->Ok_0;
    let written = action_json(action)->Object_0;
    lemma_decimal_round_trip(action.bri as nat);
    lemma_decimal_round_trip(action.hue as nat);
    lemma_decimal_round_trip(action.sat as nat);
    lemma_decimal_round_trip(action.ct as nat);
    let coordinates = member_value(members, Field::Xy.key())->0->Array_0;
    lemma_number_array_rewritten(coordinates);
    assert(member_value(written, "on"@) == Some(JsonView::Bool(action.on)));
    assert(member_value(written, "bri"@) == Some(unsigned_json(action.bri as nat)));
    assert(member_value(written, "hue"@) == Some(unsigned_json(action.hue as nat)));
    assert(member_value(written, "sat"@) == Some(unsigned_json(action.sat as nat)));
    assert(member_value(written, "effect"@) == Some(JsonView::Text(action.effect)));
    assert(member_value(written, "xy"@) == Some(number_array(action.xy)));
    assert(member_value(written, "ct"@) == Some(unsigned_json(action.ct as nat)));
    assert(member_value(written, "alert"@) == Some(JsonView::Text(action.alert)));
    assert(member_value(written, "colormode"@) == Some(JsonView::Text(action.colormode)));
    assert forall|name: Seq<char>|
        match (#[trigger] member_value(written, name), member_value(members, name)) {
            (None, None) => true,
            (Some(u), Some(v)) => same_json(u, v, (depth - 1) as nat),
            _ => false,
        } by {
        if !is_action_key(name) {
            lemma_member_value_absent(members, name);
        }
    }
}

/// A payload with exactly the members of the schema and its re-encoding
/// are equal as JSON values: the same members under the same names,
/// `kind` back under `type`, every string and flag as it was, every list
/// with its items in their order, and every number with its value.
pub proof fn lemma_group_reencoded(payload: JsonView, depth: nat)
    requires
        group_of(payload) is Ok,
        exact_group(payload),
        depth >= 3,
    ensures
        same_json(group_json(group_of(payload)->Ok_0), payload, depth),
{
    broadcast use lemma_member_value_push;

    reveal_strlit("name");
    reveal_strlit("lights");
    reveal_strlit("sensors");
    reveal_strlit("type");
    reveal_strlit("state");
    reveal_strlit("recycle");
    reveal_strlit("class");
    reveal_strlit("action");
    assert("name"@.len() == 4 && "name"@[0] == 'n');
    assert("type"@.len() == 4 && "type"@[0] == 't');
    assert("state"@.len() == 5 && "state"@[0] == 's');
    assert("class"@.len() == 5 && "class"@[0] == 'c');
    assert("lights"@.len() == 6 && "lights"@[0] == 'l');
    assert("action"@.len() == 6 && "action"@[0] == 'a');
    assert("sensors"@.len() == 7 && "sensors"@[0] == 's');
    assert("recycle"@.len() == 7 && "recycle"@[0] == 'r');
    let members = payload->Object_0;
    let group = group_of(payload)->Ok_0;
    let written = group_json(group)->Object_0;
    lemma_text_array_rewritten(member_value(members, Field::Lights.key())->0->Array_0);
    lemma_text_array_rewritten(member_value(members, Field::Sensors.key())->0->Array_0);
    lemma_state_reencoded(object_member(members, Field::State)->Ok_0, (depth - 1) as nat);
    lemma_action_reencoded(object_member(members, Field::Action)->Ok_0, (depth - 1) as nat);
    assert(member_value(written, "name"@) == Some(JsonView::Text(group.name)));
    assert(member_value(written, "lights"@) == Some(text_array(group.lights)));
    assert(member_value(written, "sensors"@) == Some(text_array(group.sensors)));
    assert(member_value(written, "type"@) == Some(JsonView::Text(group.kind)));
    assert(member_value(written, "state"@) == Some(state_json(group.state)));
    assert(member_value(written, "recycle"@) == Some(JsonView::Bool(group.recycle)));
    assert(member_value(written, "class"@) == Some(JsonView::Text(group.class)));
    assert(member_value(written, "action"@) == Some(action_json(group.action)));
    assert forall|name: Seq<char>|
        match (#[trigger] member_value(written, name), member_value(members, name)) {
            (None, None) => true,
            (Some(u), Some(v)) => same_json(u, v, (depth - 1) as nat),
            _ => false,
        } by {
        if !is_group_key(name) {
            lemma_member_value_absent(members, name);
        }
    }
}

/// The object written from a group has exactly the members of the
/// schema.
pub proof fn lemma_written_group_is_exact(group: GroupView)
    ensures
        exact_group(group_json(group)),
{
    broadcast use lemma_member_value_push;

    reveal_strlit("state");
    reveal_strlit("recycle");
    reveal_strlit("class");
    reveal_strlit("action");
    assert("state"@.len() == 5 && "state"@[0] == 's');
    assert("class"@.len() == 5 && "class"@[0] == 'c');
    assert("action"@.len() == 6);
    assert("recycle"@.len() == 7);
    let members = group_json(group)->Object_0;
    assert(member_value(members, "state"@) == Some(state_json(group.state)));
    assert(member_value(members, "action"@) == Some(action_json(group.action)));
    let action = action_json(group.action)->Object_0;
    assert(member_value(action, "colormode"@) is Some);
    assert(member_value(action, "alert"@) is Some);
    assert(member_value(action, "ct"@) is Some);
    assert(member_value(action, "xy"@) is Some);
    assert(member_value(action, "effect"@) is Some);
    assert(member_value(action, "sat"@) is Some);
    assert(member_value(action, "hue"@) is Some);
    assert(member_value(action, "bri"@) is Some);
    assert(member_value(action, "on"@) is Some);
}

/// An `action` object without members is valid, and every field of the
/// action holds its placeholder.
pub proof fn lemma_empty_action_is_valid()
    ensures
        action_of(Seq::empty()) == Ok::<GroupActionView, DecodeError>(placeholder_action()),
{
}

/// The action of a group without colour capability: where the members
/// `hue`, `sat`, `effect`, `xy`, `ct` and `colormode` are absent and the
/// others are valid, the action is valid, holds what the others say and
/// the placeholders for the rest.
pub proof fn lemma_action_without_colour(members: Seq<MemberView>)
    requires
        member_value(members, Field::Hue.key()) is None,
        member_value(members, Field::Sat.key()) is None,
        member_value(members, Field::Effect.key()) is None,
        member_value(members, Field::Xy.key()) is None,
        member_value(members, Field::Ct.key()) is None,
        member_value(members, Field::Colormode.key()) is None,
        on_of(members) is Ok,
        bri_of(members) is Ok,
        alert_of(members) is Ok,
    ensures
        action_of(members) == Ok::<GroupActionView, DecodeError>(
            GroupActionView {
                on: on_of(members)->Ok_0,
                bri: bri_of(members)->Ok_0 as u8,
                alert: alert_of(members)->Ok_0,
                ..placeholder_action()
            },
        ),
{
}

/// An object without the member `name` is no group: the reading fails and
/// reports that member, whatever else the object holds.
pub proof fn lemma_missing_name_rejected(members: Seq<MemberView>)
    requires
        member_value(members, "name"@) is None,
    ensures
        group_of(JsonView::Object(members)) == Err::<GroupView, DecodeError>(
            DecodeError::MissingField(Field::Name),
        ),
{
}

} // verus!
