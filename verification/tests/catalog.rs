use phrasle::lastfm::{Error, ImageSize, LfmStatus, Period, Session};

#[test]
fn display_period() {
    assert_eq!(Period::Overall.as_str(), "overall");
}

#[test]
fn period_wire_names() {
    assert_eq!(Period::SevenDay.as_str(), "7day");
    assert_eq!(Period::OneMonth.as_str(), "1month");
    assert_eq!(Period::ThreeMonth.as_str(), "3month");
    assert_eq!(Period::SixMonth.as_str(), "6month");
    assert_eq!(Period::TwelveMonth.as_str(), "12month");
}

#[test]
fn into_result_maps_both_arms() {
    let ok: LfmStatus<i32> = LfmStatus::Success(7);
    assert_eq!(ok.into_result(), Ok(7));
    let failed: LfmStatus<i32> = LfmStatus::Failed(Error {
        code: "10".to_string(),
        message: "Invalid API Key".to_string(),
    });
    let e = failed.into_result().unwrap_err();
    assert_eq!(e.code, "10");
    assert_eq!(e.message, "Invalid API Key");
}

#[test]
fn describe_known_code() {
    let e = Error {
        code: "10".to_string(),
        message: "Invalid API Key".to_string(),
    };
    assert_eq!(
        e.describe(),
        "10: Invalid API key - You must be granted a valid key by last.fm: Invalid API Key"
    );
}

#[test]
fn describe_unknown_code() {
    let e = Error {
        code: "42".to_string(),
        message: "what".to_string(),
    };
    assert_eq!(e.describe(), "unknown code 42: 42: what");
}

#[test]
fn image_size_from_code() {
    assert_eq!(ImageSize::from_code("small"), ImageSize::Small);
    assert_eq!(ImageSize::from_code("medium"), ImageSize::Medium);
    assert_eq!(ImageSize::from_code("large"), ImageSize::Large);
    assert_eq!(ImageSize::from_code("extralarge"), ImageSize::Extralarge);
    assert_eq!(ImageSize::from_code("mega"), ImageSize::Mega);
    assert_eq!(
        ImageSize::from_code("huge"),
        ImageSize::Unknown("huge".to_string())
    );
}

#[test]
fn session_fields_carry_over() {
    let s = Session {
        name: "MyLastFMUsername".to_string(),
        key: "d580d57f32848f5dcf574d1ce18d78b2".to_string(),
        subscriber: 0,
    };
    let t = s.clone();
    assert_eq!(s, t);
}
