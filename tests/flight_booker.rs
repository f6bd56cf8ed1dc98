use seven_guis::flight_booker::{format_date, validate_date, Flight, FlightBooker, Message};

#[test]
fn april_has_thirty_days() {
    assert_eq!(validate_date("31.4.2023"), None);
    assert_eq!(validate_date("30.4.2023"), Some((30, 4, 2023)));
}

#[test]
fn leap_years() {
    assert_eq!(validate_date("29.2.2024"), Some((29, 2, 2024)));
    assert_eq!(validate_date("29.2.2023"), None);
    assert_eq!(validate_date("29.2.1900"), None);
    assert_eq!(validate_date("29.2.2000"), Some((29, 2, 2000)));
    assert_eq!(validate_date("28.2.2023"), Some((28, 2, 2023)));
}

#[test]
fn malformed_dates_are_rejected() {
    assert_eq!(validate_date(""), None);
    assert_eq!(validate_date("1.1"), None);
    assert_eq!(validate_date("1.1.2020.1"), None);
    assert_eq!(validate_date("1..2020"), None);
    assert_eq!(validate_date("a.1.2020"), None);
    assert_eq!(validate_date("0.1.2020"), None);
    assert_eq!(validate_date("1.0.2020"), None);
    assert_eq!(validate_date("1.1.0"), None);
    assert_eq!(validate_date("1.13.2020"), None);
    assert_eq!(validate_date("32.1.2020"), None);
    assert_eq!(validate_date("-1.1.2020"), None);
    assert_eq!(validate_date("+.1.2020"), None);
    assert_eq!(validate_date("1.1.4294967296"), None);
    assert_eq!(validate_date(" 1.1.2020"), None);
    assert_eq!(validate_date("1.1.2020é"), None);
}

#[test]
fn numbers_as_rust_reads_them() {
    assert_eq!(validate_date("+5.03.2020"), Some((5, 3, 2020)));
    assert_eq!(validate_date("007.7.0007"), Some((7, 7, 7)));
    assert_eq!(validate_date("1.1.4294967295"), Some((1, 1, 4294967295)));
}

#[test]
fn dates_are_written_with_leading_zeros() {
    assert_eq!(format_date((1, 2, 3)), "01.02.0003");
    assert_eq!(format_date((31, 12, 2023)), "31.12.2023");
    assert_eq!(format_date((5, 6, 12345)), "05.06.12345");
}

#[test]
fn one_way_booking() {
    let mut b = FlightBooker::new();
    assert!(!b.book);
    b.update(Message::OneWayFlightChanged("5.6.2024".to_string()));
    assert!(b.book);
    assert_eq!(b.one_way_flight_date, Some((5, 6, 2024)));
    b.update(Message::Book);
    assert!(b.show_dialogue);
    assert_eq!(b.dialogue_string, "You have booked a one-way flight on 05.06.2024");
}

#[test]
fn return_booking() {
    let mut b = FlightBooker::new();
    b.update(Message::FlightSelected(Flight::Return));
    b.update(Message::OneWayFlightChanged("5.6.2024".to_string()));
    assert!(!b.book);
    b.update(Message::ReturnFlightChanged("1.7.2024".to_string()));
    assert!(b.book);
    b.update(Message::Book);
    assert!(b.show_dialogue);
    assert_eq!(
        b.dialogue_string,
        "You have booked a flight leaving on 05.06.2024 and returning on 01.07.2024"
    );
    b.update(Message::ReturnFlightChanged("2.7.2024".to_string()));
    assert!(!b.show_dialogue);
}

#[test]
fn return_before_outbound_cannot_be_booked() {
    let mut b = FlightBooker::new();
    b.update(Message::FlightSelected(Flight::Return));
    b.update(Message::OneWayFlightChanged("10.6.2024".to_string()));
    b.update(Message::ReturnFlightChanged("9.6.2024".to_string()));
    assert!(!b.book);
    b.update(Message::Book);
    assert!(!b.show_dialogue);
    assert_eq!(b.dialogue_string, "");
}

#[test]
fn return_compares_year_then_month_then_day() {
    let mut b = FlightBooker::new();
    b.update(Message::FlightSelected(Flight::Return));
    b.update(Message::OneWayFlightChanged("20.12.2023".to_string()));
    b.update(Message::ReturnFlightChanged("5.1.2024".to_string()));
    assert!(b.book);
    b.update(Message::ReturnFlightChanged("20.12.2023".to_string()));
    assert!(b.book);
}

#[test]
fn switching_trip_kind_revalidates() {
    let mut b = FlightBooker::new();
    b.update(Message::OneWayFlightChanged("5.6.2024".to_string()));
    assert!(b.book);
    b.update(Message::Book);
    assert!(b.show_dialogue);
    b.update(Message::FlightSelected(Flight::Return));
    assert!(!b.book);
    assert!(!b.show_dialogue);
    b.update(Message::FlightSelected(Flight::OneWay));
    assert!(b.book);
}

#[test]
fn validators_set_book() {
    let mut b = FlightBooker::new();
    b.one_way_flight_date = Some((1, 1, 2024));
    b.validate_one_way_flight();
    assert!(b.book);
    b.validate_return_flight();
    assert!(!b.book);
    b.return_flight_date = Some((1, 1, 2024));
    b.validate_return_flight();
    assert!(b.book);
    b.return_flight_date = Some((31, 12, 2023));
    b.validate_flight();
    assert!(b.book);
    b.selected_flight = Flight::Return;
    b.validate_flight();
    assert!(!b.book);
}

#[test]
fn flight_labels() {
    assert_eq!(Flight::OneWay.label(), "one-way flight");
    assert_eq!(Flight::Return.label(), "return flight");
    assert_eq!(Flight::default(), Flight::OneWay);
}
