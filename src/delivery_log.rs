//! The lines that a logging channel writes about a delivery, and those that a
//! logging observer writes about the contacts of a run.
use vstd::prelude::*;
use crate::friends::{FriendData, FriendView};
use crate::greetings::{
    delivered, failures_of, greeting_views, sent_greetings, FailureView, Greeting, GreetingView,
    SendGreetingsError,
};

verus! {

/// How much a log line matters.
#[derive(Clone, Copy, Debug, PartialEq, Eq, Structural)]
pub enum LogLevel {
    Info,
    Error,
}

/// One line to log.
#[derive(Debug)]
pub struct LogEntry {
    pub level: LogLevel,
    pub message: String,
}

impl View for LogEntry {
    type V = (LogLevel, Seq<char>);

    open spec fn view(&self) -> (LogLevel, Seq<char>) {
        (self.level, self.message@)
    }
}

pub open spec fn entry_views(entries: Seq<LogEntry>) -> Seq<(LogLevel, Seq<char>)> {
    entries.map_values(|e: LogEntry| e@)
}

/// "Greeting sent to <name> <surname>"
pub open spec fn sent_line(g: GreetingView) -> Seq<char> {
    "Greeting sent to "@ + g.friend_name + " "@ + g.friend_surname
}

/// "Error sending greeting to <name> <surname> - <reason>"
pub open spec fn failure_line(f: FailureView) -> Seq<char> {
    "Error sending greeting to "@ + f.0.friend_name + " "@ + f.0.friend_surname + " - "@ + f.1
}

/// One informative line per greeting sent, in batch order, then one error line
/// per failure, in the order reported.
pub open spec fn delivery_entries(greetings: Seq<GreetingView>, failures: Seq<FailureView>) -> Seq<
    (LogLevel, Seq<char>),
> {
    delivered(greetings, failures).map_values(|g: GreetingView| (LogLevel::Info, sent_line(g)))
        + failures.map_values(|f: FailureView| (LogLevel::Error, failure_line(f)))
}

fn sent_message(g: &Greeting) -> (r: String)
    ensures
        r@ == sent_line(g@),
{
    let mut text = String::from_str("Greeting sent to ");
    text.append(g.friend_name.as_str());
    text.append(" ");
    text.append(g.friend_surname.as_str());
    text
}

fn failure_message(g: &Greeting, reason: &String) -> (r: String)
    ensures
        r@ == failure_line((g@, reason@)),
{
    let mut text = String::from_str("Error sending greeting to ");
    text.append(g.friend_name.as_str());
    text.append(" ");
    text.append(g.friend_surname.as_str());
    text.append(" - ");
    text.append(reason.as_str());
    text
}

/// The lines to log about a batch and the outcome of its delivery.
pub fn delivery_log(greetings: &Vec<Greeting>, outcome: &Result<(), SendGreetingsError>) -> (r: Vec<
    LogEntry,
>)
    ensures
        entry_views(r@) == delivery_entries(greeting_views(greetings@), failures_of(*outcome)),
{
    let sent = sent_greetings(greetings, outcome);
    let mut entries: Vec<LogEntry> = Vec::new();
    let mut i: usize = 0;
    while i < sent.len()
        invariant
            i <= sent@.len(),
            entries@.len() == i,
            forall|j: int| 0 <= j < i ==> (#[trigger] entries@[j])@ == (LogLevel::Info, sent_line(sent@[j]@)),
        decreases sent@.len() - i,
    {
        entries.push(LogEntry { level: LogLevel::Info, message: sent_message(&sent[i]) });
        i = i + 1;
    }
    let ghost failures = failures_of(*outcome);
    let n = sent.len();
    proof {
        if let Err(e) = outcome {
            assert(failures.len() == e.greetings_not_sent@.len());
        }
    }
    match outcome {
        Ok(()) => {
        },
        Err(e) => {
            let reported = &e.greetings_not_sent;
            let mut k: usize = 0;
            while k < reported.len()
                invariant
                    k <= reported@.len(),
                    n == sent@.len(),
                    failures == e@,
                    failures.len() == reported@.len(),
                    reported == e.greetings_not_sent,
                    entries@.len() == n + k,
                    forall|j: int|
                        0 <= j < n ==> (#[trigger] entries@[j])@ == (
                            LogLevel::Info,
                            sent_line(sent@[j]@),
                        ),
                    forall|j: int|
                        0 <= j < k ==> (#[trigger] entries@[n + j])@ == (
                            LogLevel::Error,
                            failure_line(failures[j]),
                        ),
                decreases reported@.len() - k,
            {
                let f = &reported[k];
                entries.push(LogEntry { level: LogLevel::Error, message: failure_message(&f.0, &f.1.message) });
                proof {
                    assert(failures[k as int] == (f.0@, f.1@));
                }
                k = k + 1;
            }
        },
    }
    proof {
        let expected = delivery_entries(greeting_views(greetings@), failures);
        assert(greeting_views(sent@).len() == sent@.len());
        assert(entries@.len() == n + failures.len());
        assert forall|j: int| 0 <= j < entries@.len() implies entry_views(entries@)[j] == expected[j] by {
            if j < n {
                assert(greeting_views(sent@)[j] == sent@[j]@);
            } else {
                assert(entries@[n + (j - n)] == entries@[j]);
            }
        }
        assert(entry_views(entries@) =~= expected);
    }
    entries
}

/// The decimal digits, in order.
pub const DIGITS: &'static str = "0123456789";

/// A number below 100 written with two decimal digits.
pub open spec fn two_digits(n: int) -> Seq<char> {
    seq![DIGITS@[n / 10], DIGITS@[n % 10]]
}

/// "<name> <surname> celebreting her birtday on <dd>/<mm>"
pub open spec fn celebration_line(f: FriendView) -> Seq<char> {
    f.name + " "@ + f.surname + " celebreting her birtday on "@ + two_digits(f.birthdate.day) + "/"@
        + two_digits(f.birthdate.month)
}

fn push_two_digits(text: &mut String, n: u32)
    requires
        n < 100,
    ensures
        final(text)@ == old(text)@ + two_digits(n as int),
{
    proof {
        reveal_strlit("0123456789");
    }
    let tens = (n / 10) as usize;
    let units = (n % 10) as usize;
    text.append(DIGITS.substring_char(tens, tens + 1));
    text.append(DIGITS.substring_char(units, units + 1));
    proof {
        assert(DIGITS@.subrange(tens as int, tens + 1) =~= seq![DIGITS@[tens as int]]);
        assert(DIGITS@.subrange(units as int, units + 1) =~= seq![DIGITS@[units as int]]);
        assert(final(text)@ =~= old(text)@ + two_digits(n as int));
    }
}

/// One line per contact celebrating, in their order.
pub fn celebration_log(friends: &Vec<FriendData>) -> (r: Vec<String>)
    ensures
        r@.len() == friends@.len(),
        forall|i: int| 0 <= i < r@.len() ==> (#[trigger] r@[i])@ == celebration_line(friends@[i]@),
{
    let mut lines: Vec<String> = Vec::new();
    let mut i: usize = 0;
    while i < friends.len()
        invariant
            i <= friends@.len(),
            lines@.len() == i,
            forall|j: int| 0 <= j < i ==> (#[trigger] lines@[j])@ == celebration_line(friends@[j]@),
        decreases friends@.len() - i,
    {
        let f = &friends[i];
        let mut text = f.name.clone();
        text.append(" ");
        text.append(f.surname.as_str());
        text.append(" celebreting her birtday on ");
        let day = f.birthdate.day();
        let month = f.birthdate.month();
        push_two_digits(&mut text, day);
        text.append("/");
        push_two_digits(&mut text, month);
        lines.push(text);
        i = i + 1;
    }
    lines
}

} // verus!
