use morse_codec::MorseBit::{Dah, Dit, LetterSpace, WordSpace};
use morse_codec::{encode, to_durations, MorseBit};

#[test]
fn each_symbol_has_its_length() {
    assert_eq!(Dit.units(), 1);
    assert_eq!(Dah.units(), 3);
    assert_eq!(LetterSpace.units(), 3);
    assert_eq!(WordSpace.units(), 7);
}

#[test]
fn gaps_are_gaps_and_pulses_are_not() {
    assert!(!Dit.is_gap());
    assert!(!Dah.is_gap());
    assert!(LetterSpace.is_gap());
    assert!(WordSpace.is_gap());
}

#[test]
fn to_durations_of_nothing_is_empty() {
    assert_eq!(to_durations(&[]), vec![]);
}

#[test]
fn to_durations_of_each_symbol() {
    assert_eq!(to_durations(&[Dit]), vec![(true, 1), (false, 1)]);
    assert_eq!(to_durations(&[Dah]), vec![(true, 3), (false, 1)]);
    assert_eq!(to_durations(&[LetterSpace]), vec![(false, 3)]);
    assert_eq!(to_durations(&[WordSpace]), vec![(false, 7)]);
}

#[test]
fn to_durations_keeps_the_order_of_the_symbols() {
    assert_eq!(
        to_durations(&[Dit, Dah, LetterSpace, WordSpace, Dit]),
        vec![
            (true, 1), (false, 1),
            (true, 3), (false, 1),
            (false, 3),
            (false, 7),
            (true, 1), (false, 1),
        ]
    );
}

#[test]
fn to_durations_of_an_encoded_letter() {
    assert_eq!(
        to_durations(&encode("a").unwrap()),
        vec![(true, 1), (false, 1), (true, 3), (false, 1), (false, 3)]
    );
}

#[test]
fn the_signal_is_high_for_as_long_as_the_pulses_are() {
    let symbols = encode("sos sos").unwrap();
    let high: u64 = to_durations(&symbols).iter().filter(|p| p.0).map(|p| p.1).sum();
    let pulses: u64 = symbols.iter().filter(|s| !s.is_gap()).map(|s: &MorseBit| s.units()).sum();
    assert_eq!(high, pulses);
    assert_eq!(high, 2 * (3 + 9 + 3));
}
