use birthday_greetings::calendar::Date;
use birthday_greetings::delivery_log::{celebration_log, delivery_log, LogLevel};
use birthday_greetings::friends::FriendData;
use birthday_greetings::greetings::{Greeting, SendGreetingsError, SendSingleGreetingError};

#[test]
fn log_info_sent_greetings() {
    let greetings = vec![
        Greeting::new("Carla", "Sandri", "carla@sandri.com", "3334445550"),
        Greeting::new("Mario", "Verdi", "mario@verdi.com", "3336667770"),
    ];
    let send_result: Result<(), SendGreetingsError> = Ok(());

    let captured_logs = delivery_log(&greetings, &send_result);

    assert!(matches!(send_result, Ok(())));
    assert_eq!(captured_logs.len(), 2);
    assert_eq!(captured_logs[0].message, "Greeting sent to Carla Sandri");
    assert_eq!(captured_logs[0].level, LogLevel::Info);
    assert_eq!(captured_logs[1].message, "Greeting sent to Mario Verdi");
    assert_eq!(captured_logs[1].level, LogLevel::Info);
}

#[test]
fn log_info_only_sent_greetings() {
    let no_sent_greeting = Greeting::new("Carla", "Sandri", "carla@sandri.com", "3334445550");
    let sent_greeting = Greeting::new("Mario", "Verdi", "mario@verdi.com", "3336667770");
    let send_greetings_error = SendGreetingsError::new(vec![(
        no_sent_greeting.clone(),
        SendSingleGreetingError::new("error".to_string()),
    )]);
    let send_result = Err(send_greetings_error.clone());

    let captured_logs = delivery_log(&vec![no_sent_greeting, sent_greeting], &send_result);

    assert_eq!(send_result, Err(send_greetings_error));
    assert_eq!(captured_logs.len(), 2);
    assert_eq!(captured_logs[0].message, "Greeting sent to Mario Verdi");
    assert_eq!(captured_logs[0].level, LogLevel::Info);
}

#[test]
fn log_error_no_sent_greetings() {
    let greetings = vec![
        Greeting::new("Carla", "Sandri", "carla@sandri.com", "3334445550"),
        Greeting::new("Mario", "Verdi", "mario@verdi.com", "3336667770"),
    ];
    let send_greetings_error = SendGreetingsError::new(vec![
        (
            Greeting::new("Carla", "Sandri", "carla@sandri.com", "3334445550"),
            SendSingleGreetingError::new("error".to_string()),
        ),
        (
            Greeting::new("Mario", "Verdi", "mario@verdi.com", "3336667770"),
            SendSingleGreetingError::new("error".to_string()),
        ),
    ]);
    let send_result = Err(send_greetings_error.clone());

    let captured_logs = delivery_log(&greetings, &send_result);

    assert_eq!(send_result, Err(send_greetings_error));
    assert_eq!(captured_logs.len(), 2);
    assert_eq!(
        captured_logs[0].message,
        "Error sending greeting to Carla Sandri - error"
    );
    assert_eq!(captured_logs[0].level, LogLevel::Error);
    assert_eq!(
        captured_logs[1].message,
        "Error sending greeting to Mario Verdi - error"
    );
    assert_eq!(captured_logs[1].level, LogLevel::Error);
}

#[test]
fn log_error_only_no_sent_greetings() {
    let greetings = vec![
        Greeting::new("Carla", "Sandri", "carla@sandri.com", "3334445550"),
        Greeting::new("Mario", "Verdi", "mario@verdi.com", "3336667770"),
    ];
    let send_greetings_error = SendGreetingsError::new(vec![(
        Greeting::new("Carla", "Sandri", "carla@sandri.com", "3334445550"),
        SendSingleGreetingError::new("error".to_string()),
    )]);
    let send_result = Err(send_greetings_error.clone());

    let captured_logs = delivery_log(&greetings, &send_result);

    assert_eq!(send_result, Err(send_greetings_error));
    assert_eq!(captured_logs.len(), 2);
    assert_eq!(
        captured_logs[1].message,
        "Error sending greeting to Carla Sandri - error"
    );
    assert_eq!(captured_logs[1].level, LogLevel::Error);
}

#[test]
fn log_friends_celebrating_their_birthdays() {
    let friends = vec![
        FriendData::new(
            "Carla",
            "Sandri",
            Date::from_ymd_opt(1980, 6, 12).unwrap(),
            "carla-sandri@email.com",
            "3335556667",
        ),
        FriendData::new(
            "Mario",
            "Verdi",
            Date::from_ymd_opt(1991, 6, 12).unwrap(),
            "mario-verdi@email.com",
            "3336669991",
        ),
    ];

    let captured_logs = celebration_log(&friends);

    assert_eq!(captured_logs.len(), 2);
    assert_eq!(captured_logs[0], "Carla Sandri celebreting her birtday on 12/06");
    assert_eq!(captured_logs[1], "Mario Verdi celebreting her birtday on 12/06");
}

#[test]
fn celebration_log_pads_day_and_month() {
    let friends = vec![FriendData::without_phone_number(
        "Ada",
        "Rossi",
        Date::from_ymd_opt(1990, 1, 5).unwrap(),
        "ada@rossi.com",
    )];
    assert_eq!(celebration_log(&friends), vec!["Ada Rossi celebreting her birtday on 05/01".to_string()]);
    assert_eq!(celebration_log(&Vec::new()), Vec::<String>::new());
}
