//! Typed access to the members of a JSON object: each reader either yields
//! the value of a member or says what is wrong with it.

use vstd::prelude::*;
use crate::error::{DecodeError, Field};
use crate::json::{
    find_member, items_view, lemma_array_view, lemma_object_view, member_value, members_view, Json,
    JsonView, Member, MemberView,
};
use crate::number::{bounded_value, read_unsigned};
use crate::text::texts_view;

verus! {

/// Whether every item of an array is a string.
pub open spec fn all_text(items: Seq<JsonView>) -> bool {
    forall|i: int| 0 <= i < items.len() ==> (#[trigger] items[i]) is Text
}

/// Whether every item of an array is a number.
pub open spec fn all_numbers(items: Seq<JsonView>) -> bool {
    forall|i: int| 0 <= i < items.len() ==> (#[trigger] items[i]) is Number
}

/// The strings of an array of strings.
pub open spec fn text_items(items: Seq<JsonView>) -> Seq<Seq<char>> {
    Seq::new(items.len(), |i: int| items[i]->Text_0)
}

/// The literals of an array of numbers.
pub open spec fn number_items(items: Seq<JsonView>) -> Seq<Seq<char>> {
    Seq::new(items.len(), |i: int| items[i]->Number_0)
}

/// A member that must hold a string.
pub open spec fn text_member(members: Seq<MemberView>, field: Field) -> Result<
    Seq<char>,
    DecodeError,
> {
    match member_value(members, field.key()) {
        None => Err(DecodeError::MissingField(field)),
        Some(JsonView::Text(text)) => Ok(text),
        Some(_) => Err(DecodeError::InvalidField(field)),
    }
}

/// A member that must hold `true` or `false`.
pub open spec fn flag_member(members: Seq<MemberView>, field: Field) -> Result<
    bool,
    DecodeError,
> {
    match member_value(members, field.key()) {
        None => Err(DecodeError::MissingField(field)),
        Some(JsonView::Bool(flag)) => Ok(flag),
        Some(_) => Err(DecodeError::InvalidField(field)),
    }
}

/// A member that must hold an unsigned integer no greater than `limit`.
pub open spec fn number_member(
    members: Seq<MemberView>,
    field: Field,
    limit: nat,
) -> Result<nat, DecodeError> {
    match member_value(members, field.key()) {
        None => Err(DecodeError::MissingField(field)),
        Some(JsonView::Number(literal)) => match bounded_value(literal, limit) {
            Some(value) => Ok(value),
            None => Err(DecodeError::InvalidField(field)),
        },
        Some(_) => Err(DecodeError::InvalidField(field)),
    }
}

/// A member that must hold an array of strings.
pub open spec fn text_list_member(
    members: Seq<MemberView>,
    field: Field,
) -> Result<Seq<Seq<char>>, DecodeError> {
    match member_value(members, field.key()) {
        None => Err(DecodeError::MissingField(field)),
        Some(JsonView::Array(items)) => if all_text(items) {
            Ok(text_items(items))
        } else {
            Err(DecodeError::InvalidField(field))
        },
        Some(_) => Err(DecodeError::InvalidField(field)),
    }
}

/// A member that must hold an array of numbers, of any kind; each is kept
/// as its literal.
pub open spec fn number_list_member(
    members: Seq<MemberView>,
    field: Field,
) -> Result<Seq<Seq<char>>, DecodeError> {
    match member_value(members, field.key()) {
        None => Err(DecodeError::MissingField(field)),
        Some(JsonView::Array(items)) => if all_numbers(items) {
            Ok(number_items(items))
        } else {
            Err(DecodeError::InvalidField(field))
        },
        Some(_) => Err(DecodeError::InvalidField(field)),
    }
}

/// A member that must hold an object.
pub open spec fn object_member(members: Seq<MemberView>, field: Field) -> Result<
    Seq<MemberView>,
    DecodeError,
> {
    match member_value(members, field.key()) {
        None => Err(DecodeError::MissingField(field)),
        Some(JsonView::Object(inner)) => Ok(inner),
        Some(_) => Err(DecodeError::InvalidField(field)),
    }
}

/// The reading of a member that may be left out: where the member is
/// absent the reading is the placeholder, and that is no defect. A member
/// that is present is read as it is, so a wrong kind or a number out of
/// range stays an error.
pub open spec fn or_absent<T>(reading: Result<T, DecodeError>, placeholder: T) -> Result<
    T,
    DecodeError,
> {
    match reading {
        Err(DecodeError::MissingField(_)) => Ok(placeholder),
        _ => reading,
    }
}

/// The error of a reading, if it has one.
pub open spec fn defect<T>(reading: Result<T, DecodeError>) -> Option<DecodeError> {
    match reading {
        Ok(_) => None,
        Err(error) => Some(error),
    }
}

/// The first of two defects.
pub open spec fn first_of(first: Option<DecodeError>, second: Option<DecodeError>) -> Option<
    DecodeError,
> {
    if first is Some {
        first
    } else {
        second
    }
}

/// Reads a member that must hold a string.
pub fn read_text(members: &Vec<Member>, field: Field) -> (reading: Result<
    String,
    DecodeError,
>)
    ensures
        match reading {
            Ok(text) => text_member(members_view(members@), field) == Ok::<
                Seq<char>,
                DecodeError,
            >(text@),
            Err(error) => text_member(members_view(members@), field) == Err::<
                Seq<char>,
                DecodeError,
            >(error),
        },
{
    match find_member(members, field.name()) {
        None => Err(DecodeError::MissingField(field)),
        Some(Json::Text(text)) => Ok(text.clone()),
        Some(_) => Err(DecodeError::InvalidField(field)),
    }
}

/// Reads a member that must hold `true` or `false`.
pub fn read_flag(members: &Vec<Member>, field: Field) -> (reading: Result<
    bool,
    DecodeError,
>)
    ensures
        reading == flag_member(members_view(members@), field),
{
    match find_member(members, field.name()) {
        None => Err(DecodeError::MissingField(field)),
        Some(Json::Bool(flag)) => Ok(*flag),
        Some(_) => Err(DecodeError::InvalidField(field)),
    }
}

/// Reads a member that must hold an unsigned integer no greater than
/// `limit`.
pub fn read_number(members: &Vec<Member>, field: Field, limit: u64) -> (reading:
    Result<u64, DecodeError>)
    ensures
        match reading {
            Ok(value) => number_member(members_view(members@), field, limit as nat) == Ok::<
                nat,
                DecodeError,
            >(value as nat),
            Err(error) => number_member(members_view(members@), field, limit as nat) == Err::<
                nat,
                DecodeError,
            >(error),
        },
{
    match find_member(members, field.name()) {
        None => Err(DecodeError::MissingField(field)),
        Some(Json::Number(literal)) => match read_unsigned(literal.as_str(), limit) {
            Some(value) => Ok(value),
            None => Err(DecodeError::InvalidField(field)),
        },
        Some(_) => Err(DecodeError::InvalidField(field)),
    }
}

/// Reads a member that must hold an array of strings.
pub fn read_text_list(members: &Vec<Member>, field: Field) -> (reading: Result<
    Vec<String>,
    DecodeError,
>)
    ensures
        match reading {
            Ok(texts) => text_list_member(members_view(members@), field) == Ok::<
                Seq<Seq<char>>,
                DecodeError,
            >(texts_view(texts@)),
            Err(error) => text_list_member(members_view(members@), field) == Err::<
                Seq<Seq<char>>,
                DecodeError,
            >(error),
        },
{
    match find_member(members, field.name()) {
        None => Err(DecodeError::MissingField(field)),
        Some(Json::Array(items)) => {
            proof {
                lemma_array_view(*items);
            }
            let ghost views = items_view(items@);
            let mut texts: Vec<String> = Vec::new();
            let mut i: usize = 0;
            while i < items.len()
                invariant
                    i <= items.len(),
                    views == items_view(items@),
                    member_value(members_view(members@), field.key()) == Some(JsonView::Array(views)),
                    texts@.len() == i,
                    forall|j: int| 0 <= j < i ==> (#[trigger] views[j]) is Text,
                    forall|j: int| 0 <= j < i ==> (#[trigger] texts@[j])@ == views[j]->Text_0,
                decreases items.len() - i,
            {
                match &items[i] {
                    Json::Text(text) => {
                        texts.push(text.clone());
                    },
                    _ => {
                        assert(!(views[i as int] is Text));
                        return Err(DecodeError::InvalidField(field));
                    },
                }
                i += 1;
            }
            assert(all_text(views));
            assert(texts_view(texts@) =~= text_items(views));
            Ok(texts)
        },
        Some(_) => Err(DecodeError::InvalidField(field)),
    }
}

/// Reads a member that must hold an array of numbers; each is returned as
/// its literal.
pub fn read_number_list(members: &Vec<Member>, field: Field) -> (reading: Result<
    Vec<String>,
    DecodeError,
>)
    ensures
        match reading {
            Ok(literals) => number_list_member(members_view(members@), field) == Ok::<
                Seq<Seq<char>>,
                DecodeError,
            >(texts_view(literals@)),
            Err(error) => number_list_member(members_view(members@), field) == Err::<
                Seq<Seq<char>>,
                DecodeError,
            >(error),
        },
{
    match find_member(members, field.name()) {
        None => Err(DecodeError::MissingField(field)),
        Some(Json::Array(items)) => {
            proof {
                lemma_array_view(*items);
            }
            let ghost views = items_view(items@);
            let mut literals: Vec<String> = Vec::new();
            let mut i: usize = 0;
            while i < items.len()
                invariant
                    i <= items.len(),
                    views == items_view(items@),
                    member_value(members_view(members@), field.key()) == Some(JsonView::Array(views)),
                    literals@.len() == i,
                    forall|j: int| 0 <= j < i ==> (#[trigger] views[j]) is Number,
                    forall|j: int| 0 <= j < i ==> (#[trigger] literals@[j])@ == views[j]->Number_0,
                decreases items.len() - i,
            {
                match &items[i] {
                    Json::Number(literal) => {
                        literals.push(literal.clone());
                    },
                    _ => {
                        assert(!(views[i as int] is Number));
                        return Err(DecodeError::InvalidField(field));
                    },
                }
                i += 1;
            }
            assert(all_numbers(views));
            assert(texts_view(literals@) =~= number_items(views));
            Ok(literals)
        },
        Some(_) => Err(DecodeError::InvalidField(field)),
    }
}

/// Reads a member that must hold an object, and returns its members.
pub fn read_object<'a>(members: &'a Vec<Member>, field: Field) -> (reading: Result<
    &'a Vec<Member>,
    DecodeError,
>)
    ensures
        match reading {
            Ok(inner) => object_member(members_view(members@), field) == Ok::<
                Seq<MemberView>,
                DecodeError,
            >(members_view(inner@)),
            Err(error) => object_member(members_view(members@), field) == Err::<
                Seq<MemberView>,
                DecodeError,
            >(error),
        },
{
    match find_member(members, field.name()) {
        None => Err(DecodeError::MissingField(field)),
        Some(Json::Object(inner)) => {
            proof {
                lemma_object_view(*inner);
            }
            Ok(inner)
        },
        Some(_) => Err(DecodeError::InvalidField(field)),
    }
}

} // verus!
