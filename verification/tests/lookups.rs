use trivia_bot::handler::{Command, Handler};
use trivia_bot::records::{
    asks_for_year, constructor_words, driver_words, find_year, name_reply, title_reply, year_reply,
    years_won, Car, Champion,
};

fn champion(year: &str, driver: &str) -> Champion {
    Champion { year: year.to_string(), driver: driver.to_string() }
}

fn car(year: &str, constructor: &str) -> Car {
    Car { year: year.to_string(), constructor: constructor.to_string() }
}

fn bot() -> Handler {
    let champions = vec![
        champion("1950", "Giuseppe Farina"),
        champion("2020", "Lewis Hamilton"),
        champion("2021", "Max Verstappen"),
        champion("2022", "Max Verstappen"),
        champion("2023", "Max Verstappen"),
    ];
    let cars = vec![
        car("1958", "Vanwall"),
        car("2021", "Mercedes"),
        car("2022", "Red Bull Racing"),
        car("2023", "Red Bull Racing"),
    ];
    Handler::new(Vec::new(), Vec::new(), champions, cars)
}

#[test]
fn route_knows_the_commands() {
    assert_eq!(Handler::route("!quote"), Command::Quote);
    assert_eq!(Handler::route("!driver 44"), Command::Driver);
    assert_eq!(Handler::route("!champion 2021"), Command::Champion);
    assert_eq!(Handler::route("!constructor ferrari"), Command::Constructor);
    assert_eq!(Handler::route("!points"), Command::Points);
    assert_eq!(Handler::route("!leaderboard"), Command::Leaderboard);
}

#[test]
fn route_matches_lookups_by_prefix_of_the_first_word() {
    assert_eq!(Handler::route("!quotes please"), Command::Quote);
    assert_eq!(Handler::route("!driver7"), Command::Driver);
    assert_eq!(Handler::route("  !champion 2021"), Command::Champion);
    assert_eq!(Handler::route("!constructors"), Command::Constructor);
}

#[test]
fn route_matches_boards_by_the_whole_text() {
    assert_eq!(Handler::route("!points now"), Command::Nothing);
    assert_eq!(Handler::route("!leaderboards"), Command::Nothing);
    assert_eq!(Handler::route("!Points"), Command::Nothing);
}

#[test]
fn route_ignores_other_text() {
    assert_eq!(Handler::route(""), Command::Nothing);
    assert_eq!(Handler::route("   "), Command::Nothing);
    assert_eq!(Handler::route("hello !quote"), Command::Nothing);
    assert_eq!(Handler::route("!quot"), Command::Nothing);
    assert_eq!(Handler::route("Max Verstappen"), Command::Nothing);
}

#[test]
fn driver_lookup_with_a_photo() {
    let r = Handler::process_driver("!driver 7", true);
    assert_eq!(r.text, "This is Driver number 7");
    assert_eq!(r.photo, Some("drivers_photos/7-driver.jpg".to_string()));
}

#[test]
fn driver_lookup_without_a_photo() {
    let r = Handler::process_driver("!driver 7", false);
    assert_eq!(r.text, "No driver had this number.");
    assert_eq!(r.photo, None);
}

#[test]
fn driver_lookup_rejects_numbers_out_of_range() {
    assert_eq!(Handler::process_driver("!driver 150", true).text, "Please provide a valid driver number (1-99).");
    assert_eq!(Handler::process_driver("!driver 0", true).text, "Please provide a valid driver number (1-99).");
    assert_eq!(Handler::process_driver("!driver 100", true).text, "Please provide a valid driver number (1-99).");
    assert_eq!(Handler::process_driver("!driver 0", true).photo, None);
}

#[test]
fn driver_lookup_rejects_what_is_no_number() {
    assert_eq!(Handler::process_driver("!driver abc", true).text, "Please provide a valid driver number (1-99).");
    assert_eq!(Handler::process_driver("!driver -7", true).text, "Please provide a valid driver number (1-99).");
    assert_eq!(Handler::process_driver("!driver", true).text, "Please provide a valid driver number (1-99).");
    assert_eq!(Handler::process_driver("!driver 7.0", false).text, "Please provide a valid driver number (1-99).");
}

#[test]
fn driver_request_reads_the_second_word() {
    assert_eq!(Handler::driver_request("!driver 7"), Some(7));
    assert_eq!(Handler::driver_request("!driver   99   extra"), Some(99));
    assert_eq!(Handler::driver_request("!driver 1"), Some(1));
    assert_eq!(Handler::driver_request("!driver 007"), Some(7));
    assert_eq!(Handler::driver_request("!driver seven 7"), None);
    assert_eq!(Handler::driver_request("7"), None);
}

#[test]
fn driver_number_keeps_one_to_ninety_nine() {
    assert_eq!(Handler::driver_number(Some(1)), Some(1));
    assert_eq!(Handler::driver_number(Some(99)), Some(99));
    assert_eq!(Handler::driver_number(Some(0)), None);
    assert_eq!(Handler::driver_number(Some(100)), None);
    assert_eq!(Handler::driver_number(None), None);
}

#[test]
fn driver_reply_and_photo_path() {
    assert_eq!(Handler::driver_photo_path(44), "drivers_photos/44-driver.jpg");
    let r = Handler::driver_reply(Some(44), true);
    assert_eq!(r.text, "This is Driver number 44");
    assert_eq!(r.photo, Some("drivers_photos/44-driver.jpg".to_string()));
    assert_eq!(Handler::driver_reply(None, true).text, "Please provide a valid driver number (1-99).");
    assert_eq!(Handler::driver_reply(None, true).photo, None);
}

#[test]
fn champion_by_year() {
    let h = bot();
    assert_eq!(h.process_champion("!champion 2021"), "Year: 2021, Drivers' Champion: Max Verstappen");
    assert_eq!(h.process_champion("!champion 1950"), "Year: 1950, Drivers' Champion: Giuseppe Farina");
}

#[test]
fn champion_year_in_range_but_not_in_the_table() {
    let h = bot();
    assert_eq!(h.process_champion("!champion 1999"), "Drivers' Champion not found for the specified year.");
}

#[test]
fn champion_year_out_of_range_is_a_name() {
    let h = bot();
    assert_eq!(h.process_champion("!champion 1949"), "No Drivers' Championship found for '1949'.");
    assert_eq!(h.process_champion("!champion 2024"), "No Drivers' Championship found for '2024'.");
}

#[test]
fn champion_by_name_lists_every_year() {
    let h = bot();
    assert_eq!(
        h.process_champion("!champion max VERSTAPPEN"),
        "Max Verstappen won the Drivers' Championship in: 2021, 2022, 2023"
    );
    assert_eq!(
        h.process_champion("!champion   lewis    hamilton  "),
        "Lewis Hamilton won the Drivers' Championship in: 2020"
    );
}

#[test]
fn champion_by_unknown_name() {
    let h = bot();
    assert_eq!(
        h.process_champion("!champion nigel mansell"),
        "No Drivers' Championship found for 'Nigel Mansell'."
    );
    assert_eq!(h.process_champion("!champion max"), "No Drivers' Championship found for 'Max'.");
}

#[test]
fn champion_without_an_argument() {
    let h = bot();
    assert_eq!(h.process_champion("!champion"), "Please provide a year or a full driver name.");
    assert_eq!(h.process_champion("!champion   "), "Please provide a year or a full driver name.");
}

#[test]
fn constructor_first_year_is_a_year_query() {
    let h = bot();
    assert_eq!(h.process_constructor("!constructor 1958"), "Year: 1958, Constructors' Champion: Vanwall");
}

#[test]
fn constructor_year_before_the_first_is_a_name_query() {
    let h = bot();
    assert_eq!(
        h.process_constructor("!constructor 1957"),
        "No Constructors' championship found for '1957'."
    );
}

#[test]
fn constructor_year_before_the_first_never_looks_up_the_year() {
    let cars = vec![car("1957", "Nobody"), car("1958", "Vanwall")];
    let w = constructor_words();
    assert_eq!(
        title_reply(&cars, "!constructor 1957", &w),
        "No Constructors' championship found for '1957'."
    );
}

#[test]
fn constructor_by_name_and_missing_argument() {
    let h = bot();
    assert_eq!(
        h.process_constructor("!constructor RED bull racing"),
        "Red Bull Racing won the Constructors' Championship in: 2022, 2023"
    );
    assert_eq!(
        h.process_constructor("!constructor 2020"),
        "Constructors' Champion not found for the specified year."
    );
    assert_eq!(h.process_constructor("!constructor"), "Please provide a year or a full constructor name.");
}

#[test]
fn year_lookup_takes_the_first_record_and_the_text_as_given() {
    let champions = vec![champion("2021", "First"), champion("2021", "Second")];
    let w = driver_words();
    assert_eq!(title_reply(&champions, "!champion 2021", &w), "Year: 2021, Drivers' Champion: First");
    assert_eq!(
        title_reply(&champions, "!champion +2021", &w),
        "Drivers' Champion not found for the specified year."
    );
}

#[test]
fn asks_for_year_bounds() {
    assert!(asks_for_year(Some(1950), 1950));
    assert!(asks_for_year(Some(2023), 1950));
    assert!(!asks_for_year(Some(1949), 1950));
    assert!(!asks_for_year(Some(2024), 1950));
    assert!(asks_for_year(Some(1958), 1958));
    assert!(!asks_for_year(Some(1957), 1958));
    assert!(!asks_for_year(None, 1958));
}

#[test]
fn find_year_and_years_won() {
    let champions = vec![champion("2020", "Lewis Hamilton"), champion("2021", "Max Verstappen")];
    assert_eq!(find_year(&champions, "2021"), 1);
    assert_eq!(find_year(&champions, "2019"), 2);
    assert_eq!(years_won(&champions, &"max verstappen".to_string()), vec!["2021".to_string()]);
    assert!(years_won(&champions, &"Max Verstappen".to_string()).is_empty());
}

#[test]
fn year_reply_and_name_reply() {
    let cars = vec![car("1958", "Vanwall")];
    let w = constructor_words();
    assert_eq!(year_reply(&cars, 0, &w), "Year: 1958, Constructors' Champion: Vanwall");
    assert_eq!(year_reply(&cars, 1, &w), "Constructors' Champion not found for the specified year.");
    let none: Vec<String> = Vec::new();
    assert_eq!(name_reply(&"Vanwall".to_string(), &none, &w), "No Constructors' championship found for 'Vanwall'.");
    assert_eq!(
        name_reply(&"Vanwall".to_string(), &vec!["1958".to_string()], &w),
        "Vanwall won the Constructors' Championship in: 1958"
    );
}
