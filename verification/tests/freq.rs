use hammerhead::freq::{band_for, Band, Freq, FreqError, Step};

#[test]
fn base_vhf_ok() {
    let f = Freq::new(128_500_000, Band::Base, Step::Khz25).unwrap();
    assert_eq!(f.encode(), *b"128500");
}

#[test]
fn base_uhf_ok() {
    let f = Freq::new(251_950_000, Band::Base, Step::Khz25).unwrap();
    assert_eq!(f.encode(), *b"251950");
}

#[test]
fn lvhf_ok_and_band_marker_is_leading_zero() {
    let f = Freq::new(51_950_000, Band::Lvhf, Step::Khz25).unwrap();
    assert_eq!(f.encode(), *b"051950");
}

#[test]
fn uhf400_ok_and_band_marker_is_leading_four() {
    let f = Freq::new(412_500_000, Band::Uhf400, Step::Khz25).unwrap();
    assert_eq!(f.encode(), *b"412500");
}

#[test]
fn out_of_range_rejected() {
    assert!(matches!(
        Freq::new(100_000_000, Band::Base, Step::Khz25),
        Err(FreqError::OutOfRange { .. })
    ));
    assert!(matches!(
        Freq::new(95_000_000, Band::Lvhf, Step::Khz25),
        Err(FreqError::OutOfRange { .. })
    ));
    assert!(matches!(
        Freq::new(425_000_000, Band::Uhf400, Step::Khz25),
        Err(FreqError::OutOfRange { .. })
    ));
}

#[test]
fn misaligned_step_rejected() {
    assert!(matches!(
        Freq::new(251_900_001, Band::Base, Step::Khz25),
        Err(FreqError::MisalignedStep { .. })
    ));
}

#[test]
fn twelve_five_step_accepted() {
    let f = Freq::new(251_937_500, Band::Base, Step::Khz12_5).unwrap();
    assert_eq!(f.hz(), 251_937_500);
    assert_eq!(f.encode(), *b"251937"); // kHz truncates the .5
}

#[test]
fn lvhf_rejects_5khz_and_833() {
    assert!(matches!(
        Freq::new(50_005_000, Band::Lvhf, Step::Khz5),
        Err(FreqError::IncompatibleBandStep { .. })
    ));
    assert!(matches!(
        Freq::new(50_000_000, Band::Lvhf, Step::Khz8_33),
        Err(FreqError::IncompatibleBandStep { .. })
    ));
}

#[test]
fn frequency_error_sentences() {
    let e = Freq::new(100_000_000, Band::Base, Step::Khz25).unwrap_err();
    assert_eq!(e.message(), "100000000 Hz is outside Base band");
    let e = Freq::new(251_900_001, Band::Base, Step::Khz12_5).unwrap_err();
    assert_eq!(e.message(), "251900001 Hz is not on the Khz12_5 grid");
    let e = Freq::new(50_000_000, Band::Lvhf, Step::Khz8_33).unwrap_err();
    assert_eq!(e.message(), "Khz8_33 step not supported on Lvhf band");
}

#[test]
fn band_edges() {
    assert_eq!(band_for(114_999_999), None);
    assert_eq!(band_for(115_000_000), Some(Band::Base));
    assert_eq!(band_for(173_995_000), Some(Band::Base));
    assert_eq!(band_for(173_995_001), None);
    assert_eq!(band_for(225_000_000), Some(Band::Base));
    assert_eq!(band_for(399_995_000), Some(Band::Base));
    assert_eq!(band_for(399_995_001), None);
    assert_eq!(band_for(400_000_000), Some(Band::Uhf400));
    assert_eq!(band_for(420_000_000), Some(Band::Uhf400));
    assert_eq!(band_for(420_000_001), None);
    assert_eq!(band_for(30_000_000), Some(Band::Lvhf));
    assert_eq!(band_for(90_000_000), Some(Band::Lvhf));
    assert_eq!(band_for(90_000_001), None);
}

#[test]
fn step_widths() {
    assert_eq!(Step::Khz25.hz(), 25_000);
    assert_eq!(Step::Khz12_5.hz(), 12_500);
    assert_eq!(Step::Khz5.hz(), 5_000);
    assert_eq!(Step::Khz8_33.hz(), 8_333);
    let f = Freq::new(118_008_333, Band::Base, Step::Khz8_33).unwrap();
    assert_eq!((f.hz(), f.band(), f.step()), (118_008_333, Band::Base, Step::Khz8_33));
    assert_eq!(f.encode(), *b"118008");
}
