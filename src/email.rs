//! The email channel.
use std::rc::Rc;
use vstd::prelude::*;
use crate::greetings::{Greeting, GreetingView, GreetingsSender, SendGreetingsError};
use crate::message::{birthday_message, birthday_text};

verus! {

/// Address that birthday emails are sent from.
pub const SENDER_ADDRESS: &'static str = "greeting@service.com";

/// Subject of every birthday email.
pub const SUBJECT: &'static str = "Happy birthday!";

/// What an `Email` stands for.
pub struct EmailView {
    pub from: Seq<char>,
    pub to: Seq<char>,
    pub subject: Seq<char>,
    pub text_body: Seq<char>,
}

#[derive(Debug)]
pub struct Email {
    pub from: String,
    pub to: String,
    pub subject: String,
    pub text_body: String,
}

impl View for Email {
    type V = EmailView;

    open spec fn view(&self) -> EmailView {
        EmailView {
            from: self.from@,
            to: self.to@,
            subject: self.subject@,
            text_body: self.text_body@,
        }
    }
}

impl Email {
    pub fn new(from: &str, to: &str, subject: &str, text_body: &str) -> (r: Email)
        ensures
            r@ == (EmailView { from: from@, to: to@, subject: subject@, text_body: text_body@ }),
    {
        Email {
            from: from.to_owned(),
            to: to.to_owned(),
            subject: subject.to_owned(),
            text_body: text_body.to_owned(),
        }
    }
}

impl Clone for Email {
    fn clone(&self) -> (r: Email)
        ensures
            r@ == self@,
    {
        Email {
            from: self.from.clone(),
            to: self.to.clone(),
            subject: self.subject.clone(),
            text_body: self.text_body.clone(),
        }
    }
}

impl PartialEq for Email {
    fn eq(&self, other: &Email) -> (r: bool) {
        self.from == other.from && self.to == other.to && self.subject == other.subject
            && self.text_body == other.text_body
    }
}

impl vstd::std_specs::cmp::PartialEqSpecImpl for Email {
    open spec fn obeys_eq_spec() -> bool {
        true
    }

    open spec fn eq_spec(&self, other: &Email) -> bool {
        self@ == other@
    }
}

/// The birthday email for one greeting.
pub open spec fn greeting_email(g: GreetingView) -> EmailView {
    EmailView {
        from: SENDER_ADDRESS@,
        to: g.email,
        subject: SUBJECT@,
        text_body: birthday_text(g.friend_name),
    }
}

/// One birthday email per greeting, in the order of the greetings.
pub fn greeting_emails(greetings: &Vec<Greeting>) -> (r: Vec<Email>)
    ensures
        r@.len() == greetings@.len(),
        forall|i: int| 0 <= i < r@.len() ==> (#[trigger] r@[i])@ == greeting_email(greetings@[i]@),
{
    let mut emails: Vec<Email> = Vec::new();
    let mut i: usize = 0;
    while i < greetings.len()
        invariant
            i <= greetings@.len(),
            emails@.len() == i,
            forall|j: int| 0 <= j < i ==> (#[trigger] emails@[j])@ == greeting_email(greetings@[j]@),
        decreases greetings@.len() - i,
    {
        let g = &greetings[i];
        let text = birthday_message(g.friend_name.as_str());
        emails.push(Email::new(SENDER_ADDRESS, g.email.as_str(), SUBJECT, text.as_str()));
        i = i + 1;
    }
    emails
}

/// The outgoing mail service.
pub trait Mailer {
    fn send(&self, emails: Vec<Email>);
}

/// Delivers greetings as emails through a `Mailer`.
pub struct EmailGreetingsSender<M: Mailer + ?Sized> {
    mailer: Rc<M>,
}

impl<M: Mailer + ?Sized> EmailGreetingsSender<M> {
    pub fn new(mailer: Rc<M>) -> (r: Self)
        ensures
            r.mailer() == mailer,
    {
        EmailGreetingsSender { mailer }
    }

    /// The mail service that the emails go to.
    pub closed spec fn mailer(&self) -> Rc<M> {
        self.mailer
    }
}

impl<M: Mailer + ?Sized> GreetingsSender for EmailGreetingsSender<M> {
    /// Hands the mailer one email per greeting; the mailer reports no failure.
    fn send(&self, greetings: Vec<Greeting>) -> (r: Result<(), SendGreetingsError>)
        ensures
            r.is_ok(),
    {
        let emails = greeting_emails(&greetings);
        self.mailer.send(emails);
        Ok(())
    }
}

} // verus!
