//! Contact records and the birthday rule.
use vstd::prelude::*;
use crate::calendar::{days_in_month, is_leap_year, Date, DateView};
use crate::greetings::{copy_optional_text, optional_text, same_optional_text, Greeting, GreetingView};

verus! {

/// What a `FriendData` stands for.
pub struct FriendView {
    pub name: Seq<char>,
    pub surname: Seq<char>,
    pub birthdate: DateView,
    pub email: Seq<char>,
    pub phone_number: Option<Seq<char>>,
}

/// A contact: who they are, when they were born and how to reach them.
#[derive(Debug)]
pub struct FriendData {
    pub name: String,
    pub surname: String,
    pub birthdate: Date,
    pub email: String,
    pub phone_number: Option<String>,
}

impl View for FriendData {
    type V = FriendView;

    open spec fn view(&self) -> FriendView {
        FriendView {
            name: self.name@,
            surname: self.surname@,
            birthdate: self.birthdate@,
            email: self.email@,
            phone_number: optional_text(self.phone_number),
        }
    }
}

/// Whether someone born on `birth` celebrates on `date`: the same month and
/// day, or, for those born on February 29th, February 28th of a year that has
/// no February 29th.
pub open spec fn is_birthday_on(birth: DateView, date: DateView) -> bool {
    ||| (birth.month == date.month && birth.day == date.day)
    ||| (date.month == 2 && date.day == 28 && days_in_month(date.year, 2) == 28 && birth.month
        == 2 && birth.day == 29)
}

/// The greeting composed for a contact: their name, surname, email and phone number.
pub open spec fn greeting_of(friend: FriendView) -> GreetingView {
    GreetingView {
        friend_name: friend.name,
        friend_surname: friend.surname,
        email: friend.email,
        phone_number: friend.phone_number,
    }
}

/// The contacts of `friends` whose birthday is `date`, in their order.
pub open spec fn celebrating(friends: Seq<FriendView>, date: DateView) -> Seq<FriendView>
    decreases friends.len(),
{
    if friends.len() == 0 {
        Seq::empty()
    } else {
        let earlier = celebrating(friends.drop_last(), date);
        if is_birthday_on(friends.last().birthdate, date) {
            earlier.push(friends.last())
        } else {
            earlier
        }
    }
}

pub open spec fn friend_views(friends: Seq<FriendData>) -> Seq<FriendView> {
    friends.map_values(|f: FriendData| f@)
}

impl FriendData {
    /// A contact with a phone number.
    pub fn new(name: &str, surname: &str, birthdate: Date, email: &str, phone_number: &str) -> (r:
        FriendData)
        ensures
            r@ == (FriendView {
                name: name@,
                surname: surname@,
                birthdate: birthdate@,
                email: email@,
                phone_number: Some(phone_number@),
            }),
    {
        FriendData {
            name: name.to_owned(),
            surname: surname.to_owned(),
            birthdate,
            email: email.to_owned(),
            phone_number: Some(phone_number.to_owned()),
        }
    }

    /// A contact without a phone number.
    pub fn without_phone_number(name: &str, surname: &str, birthdate: Date, email: &str) -> (r:
        FriendData)
        ensures
            r@ == (FriendView {
                name: name@,
                surname: surname@,
                birthdate: birthdate@,
                email: email@,
                phone_number: None,
            }),
    {
        FriendData {
            name: name.to_owned(),
            surname: surname.to_owned(),
            birthdate,
            email: email.to_owned(),
            phone_number: None,
        }
    }

    /// Whether `date` is this contact's birthday.
    pub fn is_birthday(&self, date: Date) -> (r: bool)
        ensures
            r == is_birthday_on(self.birthdate@, date@),
    {
        let birthday = self.birthdate;
        birthday.month() == date.month() && birthday.day() == date.day() || date.month() == 2
            && date.day() == 28 && date.february_has_28_days() && birthday.month() == 2
            && birthday.day() == 29
    }

    /// The greeting for this contact.
    pub fn greeting(&self) -> (r: Greeting)
        ensures
            r@ == greeting_of(self@),
    {
        Greeting {
            friend_name: self.name.clone(),
            friend_surname: self.surname.clone(),
            email: self.email.clone(),
            phone_number: copy_optional_text(&self.phone_number),
        }
    }
}

impl Clone for FriendData {
    fn clone(&self) -> (r: FriendData)
        ensures
            r@ == self@,
    {
        FriendData {
            name: self.name.clone(),
            surname: self.surname.clone(),
            birthdate: self.birthdate,
            email: self.email.clone(),
            phone_number: copy_optional_text(&self.phone_number),
        }
    }
}

impl PartialEq for FriendData {
    fn eq(&self, other: &FriendData) -> (r: bool) {
        let same_date = self.birthdate == other.birthdate;
        let same_phone = same_optional_text(&self.phone_number, &other.phone_number);
        self.name == other.name && self.surname == other.surname && same_date && self.email
            == other.email && same_phone
    }
}

impl vstd::std_specs::cmp::PartialEqSpecImpl for FriendData {
    open spec fn obeys_eq_spec() -> bool {
        true
    }

    open spec fn eq_spec(&self, other: &FriendData) -> bool {
        self@ == other@
    }
}

/// The roster of contacts.
pub trait FriendsGateway {
    fn get_friends(&self) -> Vec<FriendData>;
}

/// In a leap year nobody born on February 29th celebrates on February 28th:
/// their day comes the day after.
pub proof fn lemma_leap_year_waits_for_february_29(birth: DateView, date: DateView)
    requires
        is_leap_year(date.year),
        date.month == 2,
        date.day == 28,
        birth.month == 2,
        birth.day == 29,
    ensures
        !is_birthday_on(birth, date),
        is_birthday_on(birth, DateView { day: 29, ..date }),
{
}

} // verus!
