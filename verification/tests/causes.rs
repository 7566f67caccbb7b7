use losses::cause::{Cause, CAUSES};
use losses::Cause as RootCause;

#[test]
fn names_are_the_variant_names() {
    assert_eq!(Cause::Opening.name(), "Opening");
    assert_eq!(Cause::Middlegame.name(), "Middlegame");
    assert_eq!(Cause::Endgame.name(), "Endgame");
    assert_eq!(Cause::Time.name(), "Time");
    assert_eq!(Cause::Strategy.name(), "Strategy");
}

#[test]
fn names_read_back() {
    for place in 0..CAUSES {
        let cause = Cause::from_index(place).unwrap();
        assert_eq!(Cause::from_name(&cause.name()), Some(cause));
        assert_eq!(cause.index(), place);
        assert_eq!(format!("{:?}", cause), cause.name());
    }
    assert_eq!(Cause::from_index(CAUSES), None);
}

#[test]
fn other_texts_name_no_cause() {
    assert_eq!(Cause::from_name(&"".to_string()), None);
    assert_eq!(Cause::from_name(&"time".to_string()), None);
    assert_eq!(Cause::from_name(&"Time ".to_string()), None);
    assert_eq!(Cause::from_name(&"Openings".to_string()), None);
}

#[test]
fn same_variant_is_equal() {
    assert_eq!(RootCause::Time, Cause::Time);
    assert_ne!(RootCause::Time, Cause::Opening);
}
