//! One run: fetch the roster, keep those whose birthday it is, tell the
//! observer, and hand one greeting per contact to the channels.
use std::rc::Rc;
use vstd::prelude::*;
use crate::calendar::Date;
use crate::friends::{celebrating, friend_views, greeting_of, FriendData, FriendView, FriendsGateway};
use crate::greetings::{greeting_views, Greeting, GreetingView, GreetingsSender};

verus! {

/// Tells which day it is.
pub trait Calendar {
    fn today(&self) -> Date;
}

/// Learns which contacts celebrate their birthday in each run.
pub trait Observer {
    fn observe_friends_celebrating_their_birthdays(&self, _friends: Vec<FriendData>) {
    }
}

/// An observer that does nothing.
pub struct DummyObserver {}

impl Observer for DummyObserver {
}

/// The greetings for `friends`, one each, in their order.
pub open spec fn greetings_for(friends: Seq<FriendView>) -> Seq<GreetingView> {
    friends.map_values(|f: FriendView| greeting_of(f))
}

/// The contacts of `friends` whose birthday is `today`, in their order.
pub fn friends_celebrating_birthday(friends: &Vec<FriendData>, today: Date) -> (r: Vec<FriendData>)
    ensures
        friend_views(r@) == celebrating(friend_views(friends@), today@),
{
    let ghost all = friend_views(friends@);
    let mut chosen: Vec<FriendData> = Vec::new();
    let mut i: usize = 0;
    while i < friends.len()
        invariant
            i <= friends@.len(),
            all == friend_views(friends@),
            friend_views(chosen@) == celebrating(all.subrange(0, i as int), today@),
        decreases friends@.len() - i,
    {
        let f = &friends[i];
        proof {
            assert(all.subrange(0, i + 1).drop_last() =~= all.subrange(0, i as int));
            assert(all.subrange(0, i + 1).last() == f@);
        }
        if f.is_birthday(today) {
            let ghost prior = chosen@;
            chosen.push(f.clone());
            proof {
                assert(friend_views(chosen@) =~= friend_views(prior).push(f@));
            }
        }
        i = i + 1;
    }
    proof {
        assert(all.subrange(0, friends@.len() as int) =~= all);
    }
    chosen
}

/// One greeting per contact, in their order.
pub fn greetings_for_friends(friends: &Vec<FriendData>) -> (r: Vec<Greeting>)
    ensures
        greeting_views(r@) == greetings_for(friend_views(friends@)),
{
    let mut greetings: Vec<Greeting> = Vec::new();
    let mut i: usize = 0;
    while i < friends.len()
        invariant
            i <= friends@.len(),
            greetings@.len() == i,
            forall|j: int| 0 <= j < i ==> (#[trigger] greetings@[j])@ == greeting_of(friends@[j]@),
        decreases friends@.len() - i,
    {
        greetings.push(friends[i].greeting());
        i = i + 1;
    }
    proof {
        assert(greeting_views(greetings@) =~= greetings_for(friend_views(friends@)));
    }
    greetings
}

/// What one run does with the roster on `today`: the contacts to tell the
/// observer of, and the greetings to hand to the channels.
pub fn plan_greetings(friends: &Vec<FriendData>, today: Date) -> (r: (Vec<FriendData>, Vec<Greeting>))
    ensures
        friend_views(r.0@) == celebrating(friend_views(friends@), today@),
        greeting_views(r.1@) == greetings_for(celebrating(friend_views(friends@), today@)),
{
    let celebrating_friends = friends_celebrating_birthday(friends, today);
    let greetings = greetings_for_friends(&celebrating_friends);
    (celebrating_friends, greetings)
}

/// The collaborators of one run.
pub struct GreeterService<
    F: FriendsGateway + ?Sized,
    C: Calendar + ?Sized,
    S: GreetingsSender + ?Sized,
    O: Observer + ?Sized = DummyObserver,
> {
    friends_gateway: Rc<F>,
    calendar: Rc<C>,
    greetings_sender: Rc<S>,
    observer: Rc<O>,
}

impl<F: FriendsGateway + ?Sized, C: Calendar + ?Sized, S: GreetingsSender + ?Sized> GreeterService<
    F,
    C,
    S,
    DummyObserver,
> {
    /// A service whose observer does nothing.
    pub fn new(friends_gateway: Rc<F>, calendar: Rc<C>, greetings_sender: Rc<S>) -> (r: Self)
        ensures
            r.friends_gateway() == friends_gateway,
            r.calendar() == calendar,
            r.greetings_sender() == greetings_sender,
    {
        GreeterService {
            friends_gateway,
            calendar,
            greetings_sender,
            observer: Rc::new(DummyObserver {  }),
        }
    }
}

impl<
    F: FriendsGateway + ?Sized,
    C: Calendar + ?Sized,
    S: GreetingsSender + ?Sized,
    O: Observer + ?Sized,
> GreeterService<F, C, S, O> {
    pub closed spec fn friends_gateway(&self) -> Rc<F> {
        self.friends_gateway
    }

    pub closed spec fn calendar(&self) -> Rc<C> {
        self.calendar
    }

    pub closed spec fn greetings_sender(&self) -> Rc<S> {
        self.greetings_sender
    }

    pub closed spec fn observer(&self) -> Rc<O> {
        self.observer
    }

    /// The same service, with `observer` told of the contacts of each run.
    pub fn configure_observer<P: Observer + ?Sized>(self, observer: Rc<P>) -> (r: GreeterService<
        F,
        C,
        S,
        P,
    >)
        ensures
            r.friends_gateway() == self.friends_gateway(),
            r.calendar() == self.calendar(),
            r.greetings_sender() == self.greetings_sender(),
            r.observer() == observer,
    {
        GreeterService {
            friends_gateway: self.friends_gateway,
            calendar: self.calendar,
            greetings_sender: self.greetings_sender,
            observer,
        }
    }

    /// Greets every contact of the roster whose birthday is today: the observer
    /// learns of them first, then the channels get one greeting each, in roster
    /// order. Both are called where nobody celebrates, with nothing in hand.
    pub fn run(&self) {
        let friends = self.friends_gateway.get_friends();
        let today = self.calendar.today();
        let (celebrating_friends, greetings) = plan_greetings(&friends, today);
        self.observer.observe_friends_celebrating_their_birthdays(celebrating_friends);
        let _outcome = self.greetings_sender.send(greetings);
    }
}

} // verus!
