use dice_sim::unit_conversion::{ConversionQuery, Rational};

#[test]
fn success1() {
    let input = ConversionQuery::new(Rational::from_int(2), "m", "in")
        .expect("Expected creation of Conversion Query");
    let converted = input
        .convert_units()
        .expect("Expected Unit Conversion 2 meters to inches");
    let res: f32 = converted.num() as f32 / converted.den() as f32;
    let output: f32 = 78.72;
    assert_eq!(res, output);
}

#[test]
fn success2() {
    let input = ConversionQuery::new(Rational::from_int(13), "in", "m")
        .expect("Expected creation of Conversion Query");
    let converted = input
        .convert_units()
        .expect("Expected Unit Conversion 13.0 inches to meters");
    let res: f32 = converted.num() as f32 / converted.den() as f32;
    let output: f32 = 0.330; // roughly
    let precision: f32 = 1000.0; // For 3 decimal places
                                 // Round both values to the same number of decimal places
    let res_rounded = (res * precision).round() / precision;
    let output_rounded = (output * precision).round() / precision;

    assert_eq!(res_rounded, output_rounded);
}

#[test]
fn conversion_query_input_error() {
    let result = ConversionQuery::new(Rational::from_int(13), "in", "hr");
    match result {
        Ok(_) => panic!("Expected an error, but got Ok"),
        Err(e) => {
            assert_eq!(
                e.message(),
                "Cannot convert distance to time: unit: 13, from: in, to: hr"
            );
        }
    }
}

#[test]
fn unknown_from_code_is_rejected() {
    let result = ConversionQuery::new(Rational::from_int(1), "xx", "m");
    match result {
        Ok(_) => panic!("Expected an error, but got Ok"),
        Err(e) => assert_eq!(e.message(), "Unknown from type: xx"),
    }
}

#[test]
fn unknown_to_code_is_rejected() {
    let result = ConversionQuery::new(Rational::from_int(1), "m", "zz");
    match result {
        Ok(_) => panic!("Expected an error, but got Ok"),
        Err(e) => assert_eq!(e.message(), "Unknown to type: zz"),
    }
}

#[test]
fn time_to_distance_is_rejected() {
    let result = ConversionQuery::new(Rational::from_int(5), "hr", "m");
    match result {
        Ok(_) => panic!("Expected an error, but got Ok"),
        Err(e) => assert_eq!(
            e.message(),
            "Cannot convert time to distance: unit: 5, from: hr, to: m"
        ),
    }
}

#[test]
fn same_unit_pair_is_rejected() {
    let query = ConversionQuery::new(Rational::from_int(1), "m", "m")
        .expect("same-family pair must validate");
    match query.convert_units() {
        Ok(_) => panic!("Expected an error, but got Ok"),
        Err(e) => assert_eq!(
            e.message(),
            "Cannot convert for Unkonwn Conversion type: from: Distance(Meters), to: Distance(Meters)"
        ),
    }
}

#[test]
fn hours_to_minutes() {
    let converted =
        ConversionQuery::convert(Rational::from_int(2), "hr", "min").expect("2 hours in minutes");
    assert_eq!(converted.num() as f32 / converted.den() as f32, 120.0);
}

#[test]
fn convert_rejects_cross_family() {
    let result = ConversionQuery::convert(Rational::from_int(13), "in", "hr");
    match result {
        Ok(_) => panic!("Expected an error, but got Ok"),
        Err(e) => assert_eq!(
            e.message(),
            "Cannot convert distance to time: unit: 13, from: in, to: hr"
        ),
    }
}

/// The round trip value times the denominator of the original must equal
/// the original numerator times the round trip denominator: exact rational
/// equality, no tolerance.
fn assert_round_trip(v: i64, a: &str, b: &str) {
    let once = ConversionQuery::convert(Rational::from_int(v), a, b).expect("forward conversion");
    let query = ConversionQuery::new(once, b, a).expect("reverse query");
    let back = query.convert_units().expect("reverse conversion");
    assert_eq!(back.num() as i128 * 1, v as i128 * back.den() as i128);
}

#[test]
fn round_trips_are_exact() {
    assert_round_trip(7, "m", "ft");
    assert_round_trip(7, "ft", "m");
    assert_round_trip(9, "m", "in");
    assert_round_trip(9, "in", "m");
    assert_round_trip(11, "ft", "in");
    assert_round_trip(11, "in", "ft");
    assert_round_trip(13, "hr", "min");
    assert_round_trip(13, "min", "hr");
}
