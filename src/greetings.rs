//! Greetings, delivery outcomes and the delivery channel interface.
use vstd::prelude::*;

verus! {

/// What a `Greeting` stands for.
pub struct GreetingView {
    pub friend_name: Seq<char>,
    pub friend_surname: Seq<char>,
    pub email: Seq<char>,
    pub phone_number: Option<Seq<char>>,
}

/// The payload prepared for one contact whose birthday it is, whatever the medium.
#[derive(Debug)]
pub struct Greeting {
    pub friend_name: String,
    pub friend_surname: String,
    pub email: String,
    pub phone_number: Option<String>,
}

pub open spec fn optional_text(s: Option<String>) -> Option<Seq<char>> {
    match s {
        Some(t) => Some(t@),
        None => None,
    }
}

impl View for Greeting {
    type V = GreetingView;

    open spec fn view(&self) -> GreetingView {
        GreetingView {
            friend_name: self.friend_name@,
            friend_surname: self.friend_surname@,
            email: self.email@,
            phone_number: optional_text(self.phone_number),
        }
    }
}

pub(crate) fn copy_optional_text(s: &Option<String>) -> (r: Option<String>)
    ensures
        optional_text(r) == optional_text(*s),
{
    match s {
        Some(t) => Some(t.clone()),
        None => None,
    }
}

pub(crate) fn same_optional_text(a: &Option<String>, b: &Option<String>) -> (r: bool)
    ensures
        r == (optional_text(*a) == optional_text(*b)),
{
    match (a, b) {
        (Some(x), Some(y)) => *x == *y,
        (None, None) => true,
        _ => false,
    }
}

impl Greeting {
    /// A greeting for a contact with a phone number.
    pub fn new(friend_name: &str, friend_surname: &str, email: &str, phone_number: &str) -> (r:
        Greeting)
        ensures
            r@ == (GreetingView {
                friend_name: friend_name@,
                friend_surname: friend_surname@,
                email: email@,
                phone_number: Some(phone_number@),
            }),
    {
        Greeting {
            friend_name: friend_name.to_owned(),
            friend_surname: friend_surname.to_owned(),
            email: email.to_owned(),
            phone_number: Some(phone_number.to_owned()),
        }
    }

    /// A greeting for a contact without a phone number.
    pub fn without_phone_number(friend_name: &str, friend_surname: &str, email: &str) -> (r:
        Greeting)
        ensures
            r@ == (GreetingView {
                friend_name: friend_name@,
                friend_surname: friend_surname@,
                email: email@,
                phone_number: None,
            }),
    {
        Greeting {
            friend_name: friend_name.to_owned(),
            friend_surname: friend_surname.to_owned(),
            email: email.to_owned(),
            phone_number: None,
        }
    }
}

impl Clone for Greeting {
    fn clone(&self) -> (r: Greeting)
        ensures
            r@ == self@,
    {
        Greeting {
            friend_name: self.friend_name.clone(),
            friend_surname: self.friend_surname.clone(),
            email: self.email.clone(),
            phone_number: copy_optional_text(&self.phone_number),
        }
    }
}

impl PartialEq for Greeting {
    fn eq(&self, other: &Greeting) -> (r: bool) {
        self.friend_name == other.friend_name && self.friend_surname == other.friend_surname
            && self.email == other.email && same_optional_text(
            &self.phone_number,
            &other.phone_number,
        )
    }
}

impl vstd::std_specs::cmp::PartialEqSpecImpl for Greeting {
    open spec fn obeys_eq_spec() -> bool {
        true
    }

    open spec fn eq_spec(&self, other: &Greeting) -> bool {
        self@ == other@
    }
}

/// Why one greeting could not be delivered.
#[derive(Debug)]
pub struct SendSingleGreetingError {
    pub message: String,
}

impl View for SendSingleGreetingError {
    type V = Seq<char>;

    open spec fn view(&self) -> Seq<char> {
        self.message@
    }
}

impl SendSingleGreetingError {
    pub fn new(message: String) -> (r: SendSingleGreetingError)
        ensures
            r@ == message@,
    {
        SendSingleGreetingError { message }
    }
}

impl Clone for SendSingleGreetingError {
    fn clone(&self) -> (r: SendSingleGreetingError)
        ensures
            r@ == self@,
    {
        SendSingleGreetingError { message: self.message.clone() }
    }
}

impl PartialEq for SendSingleGreetingError {
    fn eq(&self, other: &SendSingleGreetingError) -> (r: bool) {
        self.message == other.message
    }
}

impl vstd::std_specs::cmp::PartialEqSpecImpl for SendSingleGreetingError {
    open spec fn obeys_eq_spec() -> bool {
        true
    }

    open spec fn eq_spec(&self, other: &SendSingleGreetingError) -> bool {
        self@ == other@
    }
}

/// One greeting that was not delivered, with the reason.
pub type Failure = (Greeting, SendSingleGreetingError);

/// What a `Failure` stands for.
pub type FailureView = (GreetingView, Seq<char>);

pub open spec fn failure_view(f: Failure) -> FailureView {
    (f.0@, f.1@)
}

pub open spec fn failure_views(fs: Seq<Failure>) -> Seq<FailureView> {
    fs.map_values(|f: Failure| failure_view(f))
}

pub open spec fn greeting_views(gs: Seq<Greeting>) -> Seq<GreetingView> {
    gs.map_values(|g: Greeting| g@)
}

/// The greetings that a channel did not deliver, each with the reason.
#[derive(Debug)]
pub struct SendGreetingsError {
    pub greetings_not_sent: Vec<Failure>,
}

impl View for SendGreetingsError {
    type V = Seq<FailureView>;

    open spec fn view(&self) -> Seq<FailureView> {
        failure_views(self.greetings_not_sent@)
    }
}

impl SendGreetingsError {
    pub fn new(greetings_not_sent: Vec<Failure>) -> (r: SendGreetingsError)
        ensures
            r@ == failure_views(greetings_not_sent@),
    {
        SendGreetingsError { greetings_not_sent }
    }
}

pub(crate) fn copy_failures(fs: &Vec<Failure>) -> (r: Vec<Failure>)
    ensures
        failure_views(r@) == failure_views(fs@),
{
    let mut r: Vec<Failure> = Vec::new();
    let mut i: usize = 0;
    while i < fs.len()
        invariant
            i <= fs@.len(),
            r@.len() == i,
            forall|j: int| 0 <= j < i ==> failure_view(#[trigger] r@[j]) == failure_view(fs@[j]),
        decreases fs@.len() - i,
    {
        let f = &fs[i];
        r.push((f.0.clone(), f.1.clone()));
        i = i + 1;
    }
    proof {
        assert(failure_views(r@) =~= failure_views(fs@));
    }
    r
}

impl Clone for SendGreetingsError {
    fn clone(&self) -> (r: SendGreetingsError)
        ensures
            r@ == self@,
    {
        SendGreetingsError { greetings_not_sent: copy_failures(&self.greetings_not_sent) }
    }
}

impl PartialEq for SendGreetingsError {
    fn eq(&self, other: &SendGreetingsError) -> (r: bool) {
        let a = &self.greetings_not_sent;
        let b = &other.greetings_not_sent;
        if a.len() != b.len() {
            proof {
                assert(self@.len() != other@.len());
            }
            return false;
        }
        let mut i: usize = 0;
        while i < a.len()
            invariant
                i <= a@.len(),
                a@.len() == b@.len(),
                a == self.greetings_not_sent,
                b == other.greetings_not_sent,
                forall|j: int| 0 <= j < i ==> failure_view(a@[j]) == failure_view(b@[j]),
            decreases a@.len() - i,
        {
            if !(a[i].0 == b[i].0 && a[i].1 == b[i].1) {
                proof {
                    assert(self@[i as int] != other@[i as int]);
                }
                return false;
            }
            i = i + 1;
        }
        proof {
            assert(self@ =~= other@);
        }
        true
    }
}

impl vstd::std_specs::cmp::PartialEqSpecImpl for SendGreetingsError {
    open spec fn obeys_eq_spec() -> bool {
        true
    }

    open spec fn eq_spec(&self, other: &SendGreetingsError) -> bool {
        self@ == other@
    }
}

/// The failures that a delivery outcome reports: none for `Ok`.
pub open spec fn failures_of(r: Result<(), SendGreetingsError>) -> Seq<FailureView> {
    match r {
        Ok(_) => Seq::empty(),
        Err(e) => e@,
    }
}

/// Whether every failure of `r` names one of `greetings`.
pub open spec fn failures_within(r: Result<(), SendGreetingsError>, greetings: Seq<GreetingView>) -> bool {
    forall|i: int| 0 <= i < failures_of(r).len() ==> greetings.contains(#[trigger] failures_of(r)[i].0)
}

/// A medium through which greetings are delivered (email, SMS, a log, ...).
pub trait GreetingsSender {
    /// Delivers every greeting of the batch it can, and reports each one it could
    /// not deliver, with the reason. It reports only greetings of the batch.
    fn send(&self, greetings: Vec<Greeting>) -> (r: Result<(), SendGreetingsError>)
        ensures
            failures_within(r, greeting_views(greetings@)),
    ;
}

/// Whether `failures` names `g`.
pub open spec fn is_reported(failures: Seq<FailureView>, g: GreetingView) -> bool {
    exists|i: int| 0 <= i < failures.len() && (#[trigger] failures[i]).0 == g
}

/// The greetings of `greetings` that `failures` does not name, in their order.
pub open spec fn delivered(greetings: Seq<GreetingView>, failures: Seq<FailureView>) -> Seq<GreetingView>
    decreases greetings.len(),
{
    if greetings.len() == 0 {
        Seq::empty()
    } else {
        let earlier = delivered(greetings.drop_last(), failures);
        if is_reported(failures, greetings.last()) {
            earlier
        } else {
            earlier.push(greetings.last())
        }
    }
}

/// The greetings that an outcome reports as not sent.
pub open spec fn failed_set(outcome: Result<(), SendGreetingsError>) -> Set<GreetingView> {
    Set::new(|g: GreetingView| is_reported(failures_of(outcome), g))
}

/// The greetings of a batch that an outcome counts as sent.
pub open spec fn sent_set(
    greetings: Seq<GreetingView>,
    outcome: Result<(), SendGreetingsError>,
) -> Set<GreetingView> {
    delivered(greetings, failures_of(outcome)).to_set()
}

/// A greeting is delivered exactly when it is in the batch and not reported.
pub proof fn lemma_delivered_contains(greetings: Seq<GreetingView>, failures: Seq<FailureView>, g: GreetingView)
    ensures
        delivered(greetings, failures).contains(g) == (greetings.contains(g) && !is_reported(failures, g)),
    decreases greetings.len(),
{
    if greetings.len() > 0 {
        let front = greetings.drop_last();
        lemma_delivered_contains(front, failures, g);
        if front.contains(g) {
            let j = choose|j: int| 0 <= j < front.len() && front[j] == g;
            assert(greetings[j] == g);
        }
        if greetings.contains(g) && g != greetings.last() {
            let j = choose|j: int| 0 <= j < greetings.len() && greetings[j] == g;
            assert(front[j] == g);
        }
        if g == greetings.last() {
            assert(greetings[greetings.len() - 1] == g);
        }
        let earlier = delivered(front, failures);
        if !is_reported(failures, greetings.last()) {
            assert(earlier.push(greetings.last()).last() == greetings.last());
            if earlier.contains(g) {
                let j = choose|j: int| 0 <= j < earlier.len() && earlier[j] == g;
                assert(earlier.push(greetings.last())[j] == g);
            }
            if earlier.push(greetings.last()).contains(g) && g != greetings.last() {
                let j = choose|j: int| 0 <= j < earlier.len() + 1 && earlier.push(greetings.last())[j] == g;
                assert(earlier[j] == g);
            }
        }
    }
}

/// The greetings sent and the greetings that failed make up the batch, and no
/// greeting is both, wherever the outcome reports only greetings of the batch.
pub proof fn lemma_sent_and_failed_cover_batch(
    greetings: Seq<GreetingView>,
    outcome: Result<(), SendGreetingsError>,
)
    requires
        failures_within(outcome, greetings),
    ensures
        sent_set(greetings, outcome) + failed_set(outcome) == greetings.to_set(),
        sent_set(greetings, outcome).disjoint(failed_set(outcome)),
{
    let failures = failures_of(outcome);
    assert forall|g: GreetingView|
        #[trigger] (sent_set(greetings, outcome) + failed_set(outcome)).contains(g)
            == greetings.to_set().contains(g) by {
        lemma_delivered_contains(greetings, failures, g);
        if is_reported(failures, g) {
            let i = choose|i: int| 0 <= i < failures.len() && (#[trigger] failures[i]).0 == g;
            assert(greetings.contains(failures[i].0));
        }
    }
    assert(sent_set(greetings, outcome) + failed_set(outcome) =~= greetings.to_set());
    assert forall|g: GreetingView|
        sent_set(greetings, outcome).contains(g) implies !failed_set(outcome).contains(g) by {
        lemma_delivered_contains(greetings, failures, g);
    }
}

/// The greetings of `greetings` that `outcome` does not report, in their order.
pub fn sent_greetings(greetings: &Vec<Greeting>, outcome: &Result<(), SendGreetingsError>) -> (r: Vec<Greeting>)
    ensures
        greeting_views(r@) == delivered(greeting_views(greetings@), failures_of(*outcome)),
{
    let ghost all = greeting_views(greetings@);
    let ghost failures = failures_of(*outcome);
    let mut sent: Vec<Greeting> = Vec::new();
    let mut i: usize = 0;
    while i < greetings.len()
        invariant
            i <= greetings@.len(),
            all == greeting_views(greetings@),
            failures == failures_of(*outcome),
            greeting_views(sent@) == delivered(all.subrange(0, i as int), failures),
        decreases greetings@.len() - i,
    {
        let g = &greetings[i];
        proof {
            assert(all.subrange(0, i + 1).drop_last() =~= all.subrange(0, i as int));
            assert(all.subrange(0, i + 1).last() == g@);
        }
        let reported = match outcome {
            Ok(()) => false,
            Err(e) => is_named(&e.greetings_not_sent, g),
        };
        if !reported {
            let ghost prior = sent@;
            sent.push(g.clone());
            proof {
                assert(greeting_views(sent@) =~= greeting_views(prior).push(g@));
            }
        }
        i = i + 1;
    }
    proof {
        assert(all.subrange(0, greetings@.len() as int) =~= all);
    }
    sent
}

fn is_named(failures: &Vec<Failure>, g: &Greeting) -> (r: bool)
    ensures
        r == is_reported(failure_views(failures@), g@),
{
    let ghost views = failure_views(failures@);
    let mut i: usize = 0;
    while i < failures.len()
        invariant
            i <= failures@.len(),
            views == failure_views(failures@),
            forall|j: int| 0 <= j < i ==> (#[trigger] views[j]).0 != g@,
        decreases failures@.len() - i,
    {
        if failures[i].0 == *g {
            proof {
                assert(views[i as int].0 == g@);
            }
            return true;
        }
        i = i + 1;
    }
    false
}

} // verus!
