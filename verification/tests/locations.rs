use dice_encounter::locations::location_id;

fn by_std(name: &str) -> Option<usize> {
    if name.starts_with("Location.") {
        name.replace("Location.", "").parse::<usize>().ok()
    } else {
        None
    }
}

#[test]
fn a_place_is_named_by_its_number() {
    assert_eq!(location_id("Location.0"), Some(0));
    assert_eq!(location_id("Location.5"), Some(5));
    assert_eq!(location_id("Location.13"), Some(13));
    assert_eq!(location_id("Location.007"), Some(7));
    assert_eq!(location_id("Location.+4"), Some(4));
}

#[test]
fn other_names_are_no_places() {
    assert_eq!(location_id(""), None);
    assert_eq!(location_id("Location"), None);
    assert_eq!(location_id("Location."), None);
    assert_eq!(location_id("Location.+"), None);
    assert_eq!(location_id("Location.-1"), None);
    assert_eq!(location_id("Location.1a"), None);
    assert_eq!(location_id("Location. 1"), None);
    assert_eq!(location_id("location.1"), None);
    assert_eq!(location_id("Camera"), None);
    assert_eq!(location_id("1"), None);
    assert_eq!(location_id(" Location.1"), None);
    assert_eq!(location_id("Location.١"), None);
}

#[test]
fn every_marker_is_taken_out() {
    assert_eq!(location_id("Location.1Location.2"), Some(12));
    assert_eq!(location_id("Location.Location.3"), Some(3));
    assert_eq!(location_id("Location.4Location."), Some(4));
    assert_eq!(location_id("Location.LocLocation.ation.5"), None);
}

#[test]
fn a_number_too_large_is_no_place() {
    let largest = format!("Location.{}", usize::MAX);
    assert_eq!(location_id(&largest), Some(usize::MAX));
    let beyond = format!("Location.{}0", usize::MAX);
    assert_eq!(location_id(&beyond), None);
    let next = format!("Location.{}", usize::MAX as u128 + 1);
    assert_eq!(location_id(&next), None);
    assert_eq!(location_id("Location.99999999999999999999999999999999999999"), None);
}

#[test]
fn location_id_agrees_with_the_standard_library() {
    let names = [
        "",
        "Location.",
        "Location.0",
        "Location.42",
        "Location.+42",
        "Location.++42",
        "Location.-42",
        "Location.4 2",
        "Location.42.",
        "Location.Location.42",
        "Location.4Location.2",
        "LLocation.42",
        "Location.LLocation.ocation.42",
        "Location.000000000000000000000000000000000000001",
        "Location.18446744073709551615",
        "Location.18446744073709551616",
        "Location.4294967295",
        "Location.4294967296",
        "Location.é1",
        "Location.１",
        "Plain",
    ];
    for name in names.iter() {
        assert_eq!(location_id(name), by_std(name), "{}", name);
    }
    for number in 0..500usize {
        let name = format!("Location.{}", number);
        assert_eq!(location_id(&name), Some(number));
    }
}
