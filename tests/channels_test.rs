use birthday_greetings::announcer::{merge_outcomes, GreetingsSenderAnnouncer};
use birthday_greetings::email::{greeting_emails, Email, EmailGreetingsSender, Mailer};
use birthday_greetings::greetings::{
    sent_greetings, Greeting, GreetingsSender, SendGreetingsError, SendSingleGreetingError,
};
use birthday_greetings::message::birthday_message;
use birthday_greetings::sms::{greeting_sms, Sms, SmsGreetingsSender, SmsService};
use std::cell::RefCell;
use std::rc::Rc;

struct MailerTestDouble {
    sent_emails: RefCell<Vec<Email>>,
}

impl MailerTestDouble {
    fn new() -> Self {
        Self {
            sent_emails: RefCell::new(Vec::new()),
        }
    }

    fn spied_emails_to_send(&self) -> Vec<Email> {
        self.sent_emails.borrow().clone()
    }
}

impl Mailer for MailerTestDouble {
    fn send(&self, emails: Vec<Email>) {
        self.sent_emails.borrow_mut().extend(emails)
    }
}

struct SmsServiceTestDouble {
    sent_sms: RefCell<Vec<Sms>>,
}

impl SmsServiceTestDouble {
    fn new() -> Self {
        Self {
            sent_sms: RefCell::new(Vec::new()),
        }
    }

    fn spied_sms_to_send(&self) -> Vec<Sms> {
        self.sent_sms.borrow().clone()
    }
}

impl SmsService for SmsServiceTestDouble {
    fn send(&self, sms: Vec<Sms>) {
        self.sent_sms.borrow_mut().extend(sms)
    }
}

struct GreetingsSenderTestDouble {
    sent_greetings: RefCell<Vec<Greeting>>,
    calls: RefCell<usize>,
    failing_email: Option<(String, String)>,
}

impl GreetingsSenderTestDouble {
    fn new() -> Self {
        Self {
            sent_greetings: RefCell::new(Vec::new()),
            calls: RefCell::new(0),
            failing_email: None,
        }
    }

    fn failing_for(email: &str, reason: &str) -> Self {
        Self {
            sent_greetings: RefCell::new(Vec::new()),
            calls: RefCell::new(0),
            failing_email: Some((email.to_string(), reason.to_string())),
        }
    }

    fn spied_sent_greetings(&self) -> Vec<Greeting> {
        self.sent_greetings.borrow().clone()
    }
}

impl GreetingsSender for GreetingsSenderTestDouble {
    fn send(&self, greetings: Vec<Greeting>) -> Result<(), SendGreetingsError> {
        *self.calls.borrow_mut() += 1;
        let mut failures = Vec::new();
        for g in &greetings {
            if let Some((email, reason)) = &self.failing_email {
                if &g.email == email {
                    failures.push((g.clone(), SendSingleGreetingError::new(reason.clone())));
                }
            }
        }
        self.sent_greetings.borrow_mut().extend(greetings);
        if failures.is_empty() {
            Ok(())
        } else {
            Err(SendGreetingsError::new(failures))
        }
    }
}

#[test]
fn send_greetings_as_email() {
    let mailer_test_double = Rc::new(MailerTestDouble::new());
    let email_greetings_sender = EmailGreetingsSender::new(Rc::clone(&mailer_test_double));

    let greetings = vec![
        Greeting::new("Franco", "Franchi", "franco@franchi.com", "3334445550"),
        Greeting::new("Mary", "Doe", "mary@doe.com", "3336667770"),
    ];
    let result = email_greetings_sender.send(greetings);

    assert_eq!(result, Ok(()));
    let emails = mailer_test_double.spied_emails_to_send();
    assert_eq!(
        emails,
        vec![
            Email::new(
                "greeting@service.com",
                "franco@franchi.com",
                "Happy birthday!",
                "Happy birthday, dear Franco!"
            ),
            Email::new(
                "greeting@service.com",
                "mary@doe.com",
                "Happy birthday!",
                "Happy birthday, dear Mary!"
            )
        ]
    )
}

#[test]
fn email_greetings_sender_test_does_not_send_anything_when_asked_to_send_no_greeting() {
    let mailer_test_double = Rc::new(MailerTestDouble::new());
    let email_greetings_sender = EmailGreetingsSender::new(Rc::clone(&mailer_test_double));

    let result = email_greetings_sender.send(Vec::new());

    assert_eq!(result, Ok(()));
    let emails = mailer_test_double.spied_emails_to_send();
    assert_eq!(emails, Vec::new())
}

#[test]
fn send_greetings_as_sms() {
    let sms_service_test_double = Rc::new(SmsServiceTestDouble::new());
    let sms_greetings_sender = SmsGreetingsSender::new(Rc::clone(&sms_service_test_double));

    let greetings = vec![
        Greeting::new("Franco", "Franchi", "franco@franchi.com", "3398889990"),
        Greeting::new("Mary", "Doe", "mary@doe.com", "3396665559"),
    ];
    let result = sms_greetings_sender.send(greetings);

    assert_eq!(result, Ok(()));
    let sms = sms_service_test_double.spied_sms_to_send();
    assert_eq!(
        sms,
        vec![
            Sms::new("3334445551", "3398889990", "Happy birthday, dear Franco!"),
            Sms::new("3334445551", "3396665559", "Happy birthday, dear Mary!")
        ]
    )
}

#[test]
fn sms_greetings_sender_test_does_not_send_anything_when_asked_to_send_no_greeting() {
    let sms_service_test_double = Rc::new(SmsServiceTestDouble::new());
    let sms_greetings_sender = SmsGreetingsSender::new(Rc::clone(&sms_service_test_double));

    let result = sms_greetings_sender.send(Vec::new());

    assert_eq!(result, Ok(()));
    let emails = sms_service_test_double.spied_sms_to_send();
    assert_eq!(emails, Vec::new())
}

#[test]
fn sms_reports_greetings_without_phone_number_as_not_sent() {
    let sms_service_test_double = Rc::new(SmsServiceTestDouble::new());
    let sms_greetings_sender = SmsGreetingsSender::new(Rc::clone(&sms_service_test_double));
    let without_number = Greeting::without_phone_number("Mary", "Doe", "mary@doe.com");

    let result = sms_greetings_sender.send(vec![
        Greeting::new("Franco", "Franchi", "franco@franchi.com", "3398889990"),
        without_number.clone(),
    ]);

    assert_eq!(
        result,
        Err(SendGreetingsError::new(vec![(
            without_number,
            SendSingleGreetingError::new("no phone number".to_string())
        )]))
    );
    assert_eq!(
        sms_service_test_double.spied_sms_to_send(),
        vec![Sms::new("3334445551", "3398889990", "Happy birthday, dear Franco!")]
    );
}

#[test]
fn greeting_sms_splits_messages_and_missing_numbers() {
    let greetings = vec![
        Greeting::without_phone_number("Ada", "Rossi", "ada@rossi.com"),
        Greeting::new("Bea", "Neri", "bea@neri.com", "3330001112"),
    ];
    let (messages, failures) = greeting_sms(&greetings);
    assert_eq!(messages, vec![Sms::new("3334445551", "3330001112", "Happy birthday, dear Bea!")]);
    assert_eq!(
        failures,
        vec![(greetings[0].clone(), SendSingleGreetingError::new("no phone number".to_string()))]
    );
}

#[test]
fn greeting_emails_compose_one_email_per_greeting() {
    let emails = greeting_emails(&vec![Greeting::without_phone_number("Ada", "Rossi", "ada@rossi.com")]);
    assert_eq!(
        emails,
        vec![Email::new("greeting@service.com", "ada@rossi.com", "Happy birthday!", "Happy birthday, dear Ada!")]
    );
}

#[test]
fn birthday_message_wraps_the_name() {
    assert_eq!(birthday_message("Mario"), "Happy birthday, dear Mario!".to_string());
    assert_eq!(birthday_message(""), "Happy birthday, dear !".to_string());
}

#[test]
fn send_greetings_using_all_the_given_greetings_senders() {
    let greetings_sender_1 = Rc::new(GreetingsSenderTestDouble::new());
    let greetings_sender_2 = Rc::new(GreetingsSenderTestDouble::new());

    let greetings_sender_announcer = GreetingsSenderAnnouncer::new(vec![
        Rc::clone(&greetings_sender_1),
        Rc::clone(&greetings_sender_2),
    ]);

    let greetings = vec![
        Greeting::new("Franco", "Franchi", "franco@franchi.com", "3398889990"),
        Greeting::new("Mary", "Doe", "mary@doe.com", "3396665559"),
    ];
    let result = greetings_sender_announcer.send(greetings.clone());

    assert_eq!(result, Ok(()));
    assert_eq!(&greetings, &(greetings_sender_1.spied_sent_greetings()));
    assert_eq!(&greetings, &(greetings_sender_2.spied_sent_greetings()));
}

#[test]
fn greetings_sender_announcer_test_does_not_send_anything_when_asked_to_send_no_greeting() {
    let greetings_sender_1 = Rc::new(GreetingsSenderTestDouble::new());
    let greetings_sender_2 = Rc::new(GreetingsSenderTestDouble::new());

    let greetings_sender_announcer = GreetingsSenderAnnouncer::new(vec![
        Rc::clone(&greetings_sender_1),
        Rc::clone(&greetings_sender_2),
    ]);

    let result = greetings_sender_announcer.send(Vec::new());

    assert_eq!(result, Ok(()));
    assert_eq!(
        Vec::<Greeting>::new(),
        greetings_sender_1.spied_sent_greetings()
    );
    assert_eq!(
        Vec::<Greeting>::new(),
        greetings_sender_2.spied_sent_greetings()
    );
    assert_eq!(*greetings_sender_1.calls.borrow(), 1);
    assert_eq!(*greetings_sender_2.calls.borrow(), 1);
}

#[test]
fn announcer_reports_the_failure_of_one_channel_among_two() {
    let failing = Rc::new(GreetingsSenderTestDouble::failing_for("mario@x.com", "bounced"));
    let succeeding = Rc::new(GreetingsSenderTestDouble::new());
    let senders: Vec<Rc<dyn GreetingsSender>> = vec![failing.clone(), succeeding.clone()];
    let announcer = GreetingsSenderAnnouncer::new(senders);
    let mario = Greeting::new("Mario", "Rossi", "mario@x.com", "3331112223");
    let anna = Greeting::new("Anna", "Bianchi", "anna@x.com", "3331112224");
    let batch = vec![mario.clone(), anna.clone()];

    let result = announcer.send(batch.clone());

    assert_eq!(
        result,
        Err(SendGreetingsError::new(vec![(
            mario.clone(),
            SendSingleGreetingError::new("bounced".to_string())
        )]))
    );
    assert_eq!(sent_greetings(&batch, &result), vec![anna]);
    assert_eq!(succeeding.spied_sent_greetings(), batch);
    assert_eq!(failing.spied_sent_greetings(), batch);
}

#[test]
fn announcer_keeps_failures_of_every_channel() {
    let first = Rc::new(GreetingsSenderTestDouble::failing_for("mario@x.com", "bounced"));
    let second = Rc::new(GreetingsSenderTestDouble::failing_for("anna@x.com", "unreachable"));
    let announcer = GreetingsSenderAnnouncer::new(vec![first, second]);
    let mario = Greeting::new("Mario", "Rossi", "mario@x.com", "3331112223");
    let anna = Greeting::new("Anna", "Bianchi", "anna@x.com", "3331112224");
    let batch = vec![mario.clone(), anna.clone()];

    let result = announcer.send(batch.clone());
    let again = announcer.send(batch.clone());

    let expected = Err(SendGreetingsError::new(vec![
        (mario, SendSingleGreetingError::new("bounced".to_string())),
        (anna, SendSingleGreetingError::new("unreachable".to_string())),
    ]));
    assert_eq!(result, expected);
    assert_eq!(again, expected);
    assert_eq!(sent_greetings(&batch, &result), Vec::new());
}

#[test]
fn merge_outcomes_joins_failures_in_channel_order() {
    let a = Greeting::without_phone_number("A", "One", "a@x.com");
    let b = Greeting::without_phone_number("B", "Two", "b@x.com");
    let outcomes = vec![
        Err(SendGreetingsError::new(vec![(b.clone(), SendSingleGreetingError::new("x".to_string()))])),
        Ok(()),
        Err(SendGreetingsError::new(vec![(a.clone(), SendSingleGreetingError::new("y".to_string()))])),
        Err(SendGreetingsError::new(Vec::new())),
    ];
    assert_eq!(
        merge_outcomes(outcomes),
        Err(SendGreetingsError::new(vec![
            (b, SendSingleGreetingError::new("x".to_string())),
            (a, SendSingleGreetingError::new("y".to_string())),
        ]))
    );
    assert_eq!(merge_outcomes(vec![Ok(()), Err(SendGreetingsError::new(Vec::new()))]), Ok(()));
    assert_eq!(merge_outcomes(Vec::new()), Ok(()));
}
