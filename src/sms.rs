//! The SMS channel.
use std::rc::Rc;
use vstd::prelude::*;
use crate::greetings::{
    failure_views, failures_of, greeting_views, Failure, FailureView, Greeting, GreetingView,
    GreetingsSender, SendGreetingsError, SendSingleGreetingError,
};
use crate::message::{birthday_message, birthday_text};

verus! {

/// Number that birthday messages are sent from.
pub const SENDER_NUMBER: &'static str = "3334445551";

/// Reason given for a greeting whose contact has no phone number.
pub const MISSING_PHONE_NUMBER: &'static str = "no phone number";

/// What an `Sms` stands for.
pub struct SmsView {
    pub from: Seq<char>,
    pub to: Seq<char>,
    pub text_body: Seq<char>,
}

#[derive(Debug)]
pub struct Sms {
    pub from: String,
    pub to: String,
    pub text_body: String,
}

impl View for Sms {
    type V = SmsView;

    open spec fn view(&self) -> SmsView {
        SmsView { from: self.from@, to: self.to@, text_body: self.text_body@ }
    }
}

impl Sms {
    pub fn new(from: &str, to: &str, text_body: &str) -> (r: Sms)
        ensures
            r@ == (SmsView { from: from@, to: to@, text_body: text_body@ }),
    {
        Sms { from: from.to_owned(), to: to.to_owned(), text_body: text_body.to_owned() }
    }
}

impl Clone for Sms {
    fn clone(&self) -> (r: Sms)
        ensures
            r@ == self@,
    {
        Sms { from: self.from.clone(), to: self.to.clone(), text_body: self.text_body.clone() }
    }
}

impl PartialEq for Sms {
    fn eq(&self, other: &Sms) -> (r: bool) {
        self.from == other.from && self.to == other.to && self.text_body == other.text_body
    }
}

impl vstd::std_specs::cmp::PartialEqSpecImpl for Sms {
    open spec fn obeys_eq_spec() -> bool {
        true
    }

    open spec fn eq_spec(&self, other: &Sms) -> bool {
        self@ == other@
    }
}

/// The birthday messages for `greetings`: one for each greeting with a phone
/// number, in the order of the greetings.
pub open spec fn greeting_messages(greetings: Seq<GreetingView>) -> Seq<SmsView>
    decreases greetings.len(),
{
    if greetings.len() == 0 {
        Seq::empty()
    } else {
        let earlier = greeting_messages(greetings.drop_last());
        let g = greetings.last();
        match g.phone_number {
            Some(number) => earlier.push(
                SmsView { from: SENDER_NUMBER@, to: number, text_body: birthday_text(g.friend_name) },
            ),
            None => earlier,
        }
    }
}

/// The failures for `greetings`: one for each greeting without a phone number,
/// in the order of the greetings.
pub open spec fn missing_number_failures(greetings: Seq<GreetingView>) -> Seq<FailureView>
    decreases greetings.len(),
{
    if greetings.len() == 0 {
        Seq::empty()
    } else {
        let earlier = missing_number_failures(greetings.drop_last());
        let g = greetings.last();
        match g.phone_number {
            Some(_) => earlier,
            None => earlier.push((g, MISSING_PHONE_NUMBER@)),
        }
    }
}

/// Every failure for a missing number names a greeting of the batch.
pub proof fn lemma_missing_number_failures_within(greetings: Seq<GreetingView>)
    ensures
        forall|k: int|
            0 <= k < missing_number_failures(greetings).len() ==> greetings.contains(
                #[trigger] missing_number_failures(greetings)[k].0,
            ),
    decreases greetings.len(),
{
    if greetings.len() > 0 {
        let front = greetings.drop_last();
        lemma_missing_number_failures_within(front);
        assert forall|k: int| 0 <= k < missing_number_failures(greetings).len() implies greetings.contains(
            #[trigger] missing_number_failures(greetings)[k].0,
        ) by {
            if k < missing_number_failures(front).len() {
                let g = missing_number_failures(front)[k].0;
                let j = choose|j: int| 0 <= j < front.len() && front[j] == g;
                assert(greetings[j] == g);
            } else {
                assert(greetings[greetings.len() - 1] == greetings.last());
            }
        }
    }
}

pub open spec fn sms_views(messages: Seq<Sms>) -> Seq<SmsView> {
    messages.map_values(|m: Sms| m@)
}

/// Splits `greetings` into the messages to send and the greetings that cannot
/// be sent for want of a phone number.
pub fn greeting_sms(greetings: &Vec<Greeting>) -> (r: (Vec<Sms>, Vec<Failure>))
    ensures
        sms_views(r.0@) == greeting_messages(greeting_views(greetings@)),
        failure_views(r.1@) == missing_number_failures(greeting_views(greetings@)),
{
    let ghost all = greeting_views(greetings@);
    let mut messages: Vec<Sms> = Vec::new();
    let mut failures: Vec<Failure> = Vec::new();
    let mut i: usize = 0;
    while i < greetings.len()
        invariant
            i <= greetings@.len(),
            all == greeting_views(greetings@),
            sms_views(messages@) == greeting_messages(all.subrange(0, i as int)),
            failure_views(failures@) == missing_number_failures(all.subrange(0, i as int)),
        decreases greetings@.len() - i,
    {
        let g = &greetings[i];
        let ghost before = all.subrange(0, i as int);
        proof {
            assert(all.subrange(0, i + 1).drop_last() =~= before);
            assert(all.subrange(0, i + 1).last() == g@);
        }
        match &g.phone_number {
            Some(number) => {
                let text = birthday_message(g.friend_name.as_str());
                let ghost prior = messages@;
                messages.push(Sms::new(SENDER_NUMBER, number.as_str(), text.as_str()));
                proof {
                    assert(sms_views(messages@) =~= sms_views(prior).push(messages@.last()@));
                }
            },
            None => {
                let ghost prior = failures@;
                failures.push((g.clone(), SendSingleGreetingError::new(String::from_str(MISSING_PHONE_NUMBER))));
                proof {
                    assert(failure_views(failures@) =~= failure_views(prior).push((g@, MISSING_PHONE_NUMBER@)));
                }
            },
        }
        i = i + 1;
    }
    proof {
        assert(all.subrange(0, greetings@.len() as int) =~= all);
    }
    (messages, failures)
}

/// The text message service.
pub trait SmsService {
    fn send(&self, sms: Vec<Sms>);
}

/// Delivers greetings as text messages through an `SmsService`.
pub struct SmsGreetingsSender<S: SmsService + ?Sized> {
    sms_service: Rc<S>,
}

impl<S: SmsService + ?Sized> SmsGreetingsSender<S> {
    pub fn new(sms_service: Rc<S>) -> (r: Self)
        ensures
            r.sms_service() == sms_service,
    {
        SmsGreetingsSender { sms_service }
    }

    /// The text message service that the messages go to.
    pub closed spec fn sms_service(&self) -> Rc<S> {
        self.sms_service
    }
}

impl<S: SmsService + ?Sized> GreetingsSender for SmsGreetingsSender<S> {
    /// Hands the service one message per greeting with a phone number, and
    /// reports each greeting without one as not sent.
    fn send(&self, greetings: Vec<Greeting>) -> (r: Result<(), SendGreetingsError>)
        ensures
            failures_of(r) == missing_number_failures(greeting_views(greetings@)),
            r.is_ok() == (missing_number_failures(greeting_views(greetings@)).len() == 0),
    {
        let (messages, failures) = greeting_sms(&greetings);
        proof {
            lemma_missing_number_failures_within(greeting_views(greetings@));
        }
        self.sms_service.send(messages);
        if failures.len() == 0 {
            Ok(())
        } else {
            Err(SendGreetingsError::new(failures))
        }
    }
}

} // verus!
