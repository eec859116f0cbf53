use plant_paladin::nag::Overdue;
use plant_paladin::text::{deserialize_string_lowercase, push_decimal, push_digits};

#[test]
fn names_come_out_in_lower_case() {
    assert_eq!(deserialize_string_lowercase("MoNsTeRa".to_string()), "monstera");
    assert_eq!(deserialize_string_lowercase("fern".to_string()), "fern");
    assert_eq!(deserialize_string_lowercase(String::new()), "");
    assert_eq!(deserialize_string_lowercase("AZ az @[ `{ 09".to_string()), "az az @[ `{ 09");
}

#[test]
fn letters_outside_ascii_stay_as_they_are() {
    assert_eq!(deserialize_string_lowercase("ÄLOE Vera".to_string()), "Äloe vera");
}

#[test]
fn digits_of_natural_numbers() {
    let mut text = String::from("n=");
    push_digits(&mut text, 0);
    assert_eq!(text, "n=0");
    let mut text = String::new();
    push_digits(&mut text, 9);
    push_digits(&mut text, 10);
    push_digits(&mut text, 1905);
    assert_eq!(text, "9101905");
    let mut text = String::new();
    push_digits(&mut text, u64::MAX);
    assert_eq!(text, "18446744073709551615");
}

#[test]
fn decimal_of_integers() {
    for n in [0i64, 1, -1, 9, 10, -10, 105, -45290, i64::MAX, i64::MIN, i64::MIN + 1] {
        let mut text = String::new();
        push_decimal(&mut text, n);
        assert_eq!(text, n.to_string());
    }
    let mut text = String::from("x");
    push_decimal(&mut text, -7);
    assert_eq!(text, "x-7");
}

#[test]
fn the_line_for_an_overdue_plant() {
    let found = Overdue { name: "fern".to_string(), days: 3 };
    assert_eq!(found.message(), "Plant needs watering: fern (3 days since last watered)");
    let found = Overdue { name: "old cactus".to_string(), days: 45290 };
    assert_eq!(found.message(), "Plant needs watering: old cactus (45290 days since last watered)");
    let found = Overdue { name: String::new(), days: 0 };
    assert_eq!(found.message(), "Plant needs watering:  (0 days since last watered)");
}
