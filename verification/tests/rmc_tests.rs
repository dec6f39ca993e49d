use nmea_rmc::coord::{parse_latitude_ddmm_mmm, parse_longitude_dddmm_mmm, Coordinate};
use nmea_rmc::datetime::{parse_yymmdd_hhmmss, Timestamp};
use nmea_rmc::errors::{FieldName, ParseErrorKind};
use nmea_rmc::numeral::{parse_numeral, DecimalNumber};
use nmea_rmc::rmc::{decode_status, decode_variation, NavigationSystem, ParsedMessage};
use nmea_rmc::sentence::parse_sentence;

fn dec_text(d: &DecimalNumber) -> String {
    let mut s = String::new();
    if d.negative {
        s.push('-');
    }
    for digit in &d.int_digits {
        s.push((b'0' + digit) as char);
    }
    s.push('.');
    if d.frac_digits.is_empty() {
        s.push('0');
    }
    for digit in &d.frac_digits {
        s.push((b'0' + digit) as char);
    }
    s
}

fn dec_to_f64(d: &DecimalNumber) -> f64 {
    dec_text(d).parse().unwrap()
}

fn coord_to_f64(c: &Coordinate) -> f64 {
    let mut deg: f64 = 0.0;
    for digit in &c.deg_digits {
        deg = deg * 10.0 + *digit as f64;
    }
    let mut min_s = String::new();
    for digit in &c.min_digits {
        min_s.push((b'0' + digit) as char);
    }
    min_s.push('.');
    if c.min_frac_digits.is_empty() {
        min_s.push('0');
    }
    for digit in &c.min_frac_digits {
        min_s.push((b'0' + digit) as char);
    }
    let minutes: f64 = min_s.parse().unwrap();
    let v = deg + minutes / 60.0;
    if c.negative {
        -v
    } else {
        v
    }
}

#[test]
fn test_parse_cprmc() {
    // General test
    match parse_sentence("$GPRMC,225446,A,4916.45,N,12311.12,W,000.5,054.7,191120,020.3,E*67") {
        Ok(ps) => {
            match ps {
                // The expected result
                ParsedMessage::Rmc(rmc) => {
                    assert_eq!(rmc.status_active, Some(true));
                    assert_eq!(
                        rmc.timestamp,
                        Some(Timestamp {
                            year: 2020,
                            month: 11,
                            day: 19,
                            hour: 22,
                            minute: 54,
                            second: 46,
                        })
                    );
                    assert_eq!(dec_to_f64(rmc.sog_knots.as_ref().unwrap()), 0.5);
                    assert!((dec_to_f64(rmc.bearing.as_ref().unwrap()) - 54.7).abs() < 0.1);
                    assert_eq!(dec_to_f64(rmc.variation.as_ref().unwrap()), 20.3);
                }
                ParsedMessage::Incomplete => {
                    assert!(false);
                }
            }
        }
        Err(_) => {
            assert!(false);
        }
    }

    // Empty fields test
    match parse_sentence("$GPRMC,225446,A,,,,,,,070809,,*23") {
        Ok(ps) => {
            match ps {
                // The expected result
                ParsedMessage::Rmc(rmc) => {
                    assert_eq!(rmc.status_active, Some(true));
                    assert_eq!(
                        rmc.timestamp,
                        Some(Timestamp {
                            year: 2009,
                            month: 8,
                            day: 7,
                            hour: 22,
                            minute: 54,
                            second: 46,
                        })
                    );
                    assert_eq!(rmc.sog_knots, None);
                    assert_eq!(rmc.bearing, None);
                    assert_eq!(rmc.variation, None);
                }
                ParsedMessage::Incomplete => {
                    assert!(false);
                }
            }
        }
        Err(_) => {
            assert!(false);
        }
    }
}

#[test]
fn test_status_letters() {
    assert_eq!(decode_status("A").unwrap(), Some(true));
    assert_eq!(decode_status("D").unwrap(), Some(true));
    assert_eq!(decode_status("V").unwrap(), Some(false));
    assert_eq!(decode_status("").unwrap(), None);
    let e = decode_status("X").unwrap_err();
    assert_eq!(e.kind, ParseErrorKind::InvalidEnumeration);
    assert_eq!(e.field, FieldName::Status);
    assert_eq!(e.value, "X");
    assert!(decode_status("AA").is_err());
    assert!(decode_status("a").is_err());
}

#[test]
fn test_coordinate_decode() {
    // Both fields empty: the coordinate is absent.
    assert_eq!(parse_latitude_ddmm_mmm("", "").unwrap(), None);
    // An empty numeral is absent whatever the hemisphere field holds,
    // as an empty variation magnitude leaves its sign letter unread.
    assert_eq!(parse_latitude_ddmm_mmm("", "N").unwrap(), None);
    // A valid numeral with a hemisphere letter of the wrong axis fails.
    let e = parse_latitude_ddmm_mmm("4916.45", "E").unwrap_err();
    assert_eq!(e.kind, ParseErrorKind::InvalidEnumeration);
    assert_eq!(e.field, FieldName::LatitudeHemisphere);
    // Correctly signed decimal degrees.
    let north = parse_latitude_ddmm_mmm("4916.45", "N").unwrap().unwrap();
    assert_eq!(coord_to_f64(&north), 49.0 + 16.45 / 60.0);
    let south = parse_latitude_ddmm_mmm("4916.45", "S").unwrap().unwrap();
    assert_eq!(coord_to_f64(&south), -(49.0 + 16.45 / 60.0));
    let west = parse_longitude_dddmm_mmm("12311.12", "W").unwrap().unwrap();
    assert_eq!(coord_to_f64(&west), -(123.0 + 11.12 / 60.0));
    let east = parse_longitude_dddmm_mmm("12311.12", "E").unwrap().unwrap();
    assert_eq!(coord_to_f64(&east), 123.0 + 11.12 / 60.0);
    // Fewer than two digits before the decimal point is malformed.
    let e = parse_latitude_ddmm_mmm("1.5", "N").unwrap_err();
    assert_eq!(e.kind, ParseErrorKind::MalformedNumeral);
    assert_eq!(e.field, FieldName::Latitude);
    // A non-digit in the numeral is malformed.
    assert!(parse_longitude_dddmm_mmm("12x11.12", "E").is_err());
}

#[test]
fn test_variation_decode() {
    // Empty magnitude: absent, whatever the sign field holds.
    assert_eq!(decode_variation("", "").unwrap(), None);
    assert_eq!(decode_variation("", "Q").unwrap(), None);
    // East keeps the sign, west negates.
    let east = decode_variation("020.3", "E").unwrap().unwrap();
    assert_eq!(dec_to_f64(&east), 20.3);
    let west = decode_variation("020.3", "W").unwrap().unwrap();
    assert_eq!(dec_to_f64(&west), -20.3);
    // Any other letter beside a present magnitude fails.
    let e = decode_variation("020.3", "Q").unwrap_err();
    assert_eq!(e.kind, ParseErrorKind::InvalidEnumeration);
    assert_eq!(e.field, FieldName::VariationSide);
    assert_eq!(e.value, "Q");
    // A malformed magnitude fails before the sign letter is read.
    let e = decode_variation("2q.3", "E").unwrap_err();
    assert_eq!(e.kind, ParseErrorKind::MalformedNumeral);
    assert_eq!(e.field, FieldName::Variation);
}

#[test]
fn test_numeral_exact_digits() {
    let d = parse_numeral("054.7").unwrap();
    assert!(!d.negative);
    assert_eq!(d.int_digits, vec![0, 5, 4]);
    assert_eq!(d.frac_digits, vec![7]);
    let d = parse_numeral("-12.5").unwrap();
    assert!(d.negative);
    assert_eq!(d.int_digits, vec![1, 2]);
    assert_eq!(d.frac_digits, vec![5]);
    let d = parse_numeral("+3").unwrap();
    assert!(!d.negative);
    assert_eq!(d.int_digits, vec![3]);
    assert_eq!(d.frac_digits, Vec::<u8>::new());
    assert!(parse_numeral(".5").is_some());
    assert!(parse_numeral("5.").is_some());
    assert!(parse_numeral("").is_none());
    assert!(parse_numeral(".").is_none());
    assert!(parse_numeral("-").is_none());
    assert!(parse_numeral("1.2.3").is_none());
    assert!(parse_numeral("12a").is_none());
}

#[test]
fn test_timestamp_decode() {
    assert_eq!(
        parse_yymmdd_hhmmss("191120", "225446"),
        Some(Timestamp { year: 2020, month: 11, day: 19, hour: 22, minute: 54, second: 46 })
    );
    assert_eq!(
        parse_yymmdd_hhmmss("070809", "225446"),
        Some(Timestamp { year: 2009, month: 8, day: 7, hour: 22, minute: 54, second: 46 })
    );
    // The two-digit year pivots at 69 into the previous century.
    assert_eq!(parse_yymmdd_hhmmss("010169", "000000").unwrap().year, 1969);
    // Malformed or impossible parts are lenient: no timestamp, no failure.
    assert_eq!(parse_yymmdd_hhmmss("", "225446"), None);
    assert_eq!(parse_yymmdd_hhmmss("191120", ""), None);
    assert_eq!(parse_yymmdd_hhmmss("320101", "000000"), None);
    assert_eq!(parse_yymmdd_hhmmss("011301", "000000"), None);
    assert_eq!(parse_yymmdd_hhmmss("191120", "245446"), None);
    assert_eq!(parse_yymmdd_hhmmss("191120", "226046"), None);
    assert_eq!(parse_yymmdd_hhmmss("191120", "225460"), None);
    assert_eq!(parse_yymmdd_hhmmss("19112", "225446"), None);
    assert_eq!(parse_yymmdd_hhmmss("19112x", "225446"), None);
    // Leap-year February.
    assert!(parse_yymmdd_hhmmss("290220", "120000").is_some());
    assert_eq!(parse_yymmdd_hhmmss("290221", "120000"), None);
    assert!(parse_yymmdd_hhmmss("290200", "120000").is_some());
}

#[test]
fn test_truncated_like_empty() {
    let truncated = parse_sentence("$GPRMC,225446,A");
    let explicit = parse_sentence("$GPRMC,225446,A,,,,,,,,,");
    assert!(truncated.is_ok());
    assert_eq!(truncated.unwrap(), explicit.unwrap());
}

#[test]
fn test_decode_is_pure() {
    let text = "$GPRMC,225446,A,4916.45,N,12311.12,W,000.5,054.7,191120,020.3,E*67";
    assert_eq!(parse_sentence(text).unwrap(), parse_sentence(text).unwrap());
    let bad = "$GPRMC,225446,Z,,,,,,,070809,,*23";
    assert_eq!(parse_sentence(bad).unwrap_err(), parse_sentence(bad).unwrap_err());
}

#[test]
fn test_handler_failures() {
    // A present but unrecognized status letter aborts the record.
    let e = parse_sentence("$GPRMC,225446,Z,,,,,,,070809,,*23").unwrap_err();
    assert_eq!(e.kind, ParseErrorKind::InvalidEnumeration);
    assert_eq!(e.field, FieldName::Status);
    assert_eq!(e.value, "Z");
    // A malformed speed field aborts the record.
    let e = parse_sentence("$GPRMC,225446,A,,,,,abc,,070809,,*23").unwrap_err();
    assert_eq!(e.kind, ParseErrorKind::MalformedNumeral);
    assert_eq!(e.field, FieldName::SpeedOverGround);
    assert_eq!(e.value, "abc");
    // A malformed track-angle field aborts the record.
    let e = parse_sentence("$GPRMC,225446,A,,,,,,x,070809,,*23").unwrap_err();
    assert_eq!(e.kind, ParseErrorKind::MalformedNumeral);
    assert_eq!(e.field, FieldName::TrackAngle);
    // A bad latitude hemisphere beside a present numeral aborts the record.
    let e = parse_sentence("$GPRMC,225446,A,4916.45,Q,,,,,070809,,*23").unwrap_err();
    assert_eq!(e.kind, ParseErrorKind::InvalidEnumeration);
    assert_eq!(e.field, FieldName::LatitudeHemisphere);
    // An unsupported sentence type is refused.
    let e = parse_sentence("$GPGGA,123519,4807.038,N,01131.000,E,1,08,0.9,545.4,M,46.9,M,,*47")
        .unwrap_err();
    assert_eq!(e.kind, ParseErrorKind::UnsupportedSentence);
    assert_eq!(e.field, FieldName::SentenceType);
    let e = parse_sentence("nonsense").unwrap_err();
    assert_eq!(e.kind, ParseErrorKind::UnsupportedSentence);
}

#[test]
fn test_record_fields_and_getters() {
    match parse_sentence("$GPRMC,225446,A,4916.45,N,12311.12,W,000.5,054.7,191120,020.3,E*67") {
        Ok(ParsedMessage::Rmc(rmc)) => {
            assert_eq!(rmc.source, NavigationSystem::Gps);
            let lat = rmc.latitude().unwrap();
            assert_eq!(coord_to_f64(lat), 49.0 + 16.45 / 60.0);
            let lon = rmc.longitude().unwrap();
            assert_eq!(coord_to_f64(lon), -(123.0 + 11.12 / 60.0));
        }
        _ => {
            assert!(false);
        }
    }
    // Absent coordinates give absent getters.
    match parse_sentence("$GPRMC,225446,A,,,,,,,070809,,*23") {
        Ok(ParsedMessage::Rmc(rmc)) => {
            assert!(rmc.latitude().is_none());
            assert!(rmc.longitude().is_none());
        }
        _ => {
            assert!(false);
        }
    }
}

#[test]
fn test_talker_codes() {
    let source_of = |text: &str| match parse_sentence(text) {
        Ok(ParsedMessage::Rmc(rmc)) => rmc.source,
        _ => panic!("expected a record"),
    };
    assert_eq!(source_of("$GPRMC,,V,,,,,,,,,"), NavigationSystem::Gps);
    assert_eq!(source_of("$GNRMC,,V,,,,,,,,,"), NavigationSystem::Combination);
    assert_eq!(source_of("$GLRMC,,V,,,,,,,,,"), NavigationSystem::Glonass);
    assert_eq!(source_of("$GARMC,,V,,,,,,,,,"), NavigationSystem::Galileo);
    assert_eq!(source_of("$GBRMC,,V,,,,,,,,,"), NavigationSystem::Beidou);
    assert_eq!(source_of("$BDRMC,,V,,,,,,,,,"), NavigationSystem::Beidou);
    assert_eq!(source_of("$GIRMC,,V,,,,,,,,,"), NavigationSystem::Navic);
    assert_eq!(source_of("$QZRMC,,V,,,,,,,,,"), NavigationSystem::Qzss);
    assert_eq!(source_of("$XXRMC,,V,,,,,,,,,"), NavigationSystem::Other);
}
