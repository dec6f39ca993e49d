//! The Recommended-Minimum (RMC) sentence handler: position, velocity and
//! time. The handler tokenizes one sentence and composes the primitive field
//! decoders against the sentence's fixed field positions. The first failing
//! strict decoder aborts the whole record; empty fields decode to absent
//! values, never to defaults.

use vstd::prelude::*;
use crate::coord::{
    Coordinate, CoordView, coordinate_fails, hemisphere_negative, hemisphere_valid,
    is_coordinate_numeral, spec_coordinate, parse_latitude_ddmm_mmm, parse_longitude_dddmm_mmm,
};
use crate::datetime::{Timestamp, spec_datetime, parse_yymmdd_hhmmss};
use crate::errors::{ErrorView, FieldName, ParseError, ParseErrorKind};
use crate::numeral::{
    DecimalNumber, DecimalView, is_numeral, spec_numeral, parse_numeral, decode_numeral_field,
};
use crate::tokenize::{fld, field_view, split_fields, lemma_truncated_reads_like_empty};

verus! {

/// The navigation system a sentence's talker prefix names.
#[derive(Clone, Copy, Debug, PartialEq, Eq, Structural)]
pub enum NavigationSystem {
    Combination,
    Gps,
    Glonass,
    Galileo,
    Beidou,
    Navic,
    Qzss,
    Other,
}

/// RMC: position, velocity and time. Every value field is independently
/// optional: `None` exactly when its source fields were empty or absent.
#[derive(Clone, Debug, PartialEq, Eq)]
pub struct RmcData {
    /// Navigation system.
    pub source: NavigationSystem,
    /// Fix date-time from the `DDMMYY` and `HHMMSS` fields.
    pub timestamp: Option<Timestamp>,
    /// Status: true = active, false = void.
    pub status_active: Option<bool>,
    /// Latitude in degrees.
    pub latitude: Option<Coordinate>,
    /// Longitude in degrees.
    pub longitude: Option<Coordinate>,
    /// Speed over ground in knots.
    pub sog_knots: Option<DecimalNumber>,
    /// Track angle in degrees (true).
    pub bearing: Option<DecimalNumber>,
    /// Magnetic variation in degrees.
    pub variation: Option<DecimalNumber>,
}

/// Ghost image of a decoded record.
pub ghost struct RmcView {
    pub source: NavigationSystem,
    pub timestamp: Option<Timestamp>,
    pub status_active: Option<bool>,
    pub latitude: Option<CoordView>,
    pub longitude: Option<CoordView>,
    pub sog_knots: Option<DecimalView>,
    pub bearing: Option<DecimalView>,
    pub variation: Option<DecimalView>,
}

impl RmcView {
    /// Every present part is well-formed.
    pub open spec fn wf(self) -> bool {
        &&& (self.timestamp matches Some(t) ==> t.wf())
        &&& (self.latitude matches Some(c) ==> c.wf())
        &&& (self.longitude matches Some(c) ==> c.wf())
        &&& (self.sog_knots matches Some(d) ==> d.wf())
        &&& (self.bearing matches Some(d) ==> d.wf())
        &&& (self.variation matches Some(d) ==> d.wf())
    }
}

impl View for RmcData {
    type V = RmcView;

    open spec fn view(&self) -> RmcView {
        RmcView {
            source: self.source,
            timestamp: self.timestamp,
            status_active: self.status_active,
            latitude: match self.latitude {
                Some(c) => Some(c@),
                None => None,
            },
            longitude: match self.longitude {
                Some(c) => Some(c@),
                None => None,
            },
            sog_knots: match self.sog_knots {
                Some(d) => Some(d@),
                None => None,
            },
            bearing: match self.bearing {
                Some(d) => Some(d@),
                None => None,
            },
            variation: match self.variation {
                Some(d) => Some(d@),
                None => None,
            },
        }
    }
}

impl RmcData {
    /// Latitude in degrees, when present.
    pub fn latitude(&self) -> (r: Option<&Coordinate>)
        ensures
            r is Some <==> self.latitude is Some,
            r matches Some(c) ==> self.latitude == Some(*c),
    {
        self.latitude.as_ref()
    }

    /// Longitude in degrees, when present.
    pub fn longitude(&self) -> (r: Option<&Coordinate>)
        ensures
            r is Some <==> self.longitude is Some,
            r matches Some(c) ==> self.longitude == Some(*c),
    {
        self.longitude.as_ref()
    }
}

/// The outcome of decoding one sentence: a structured record tagged by its
/// sentence kind, or the sentinel for a recognized but not yet complete
/// sentence of a multi-part family (none such in the RMC family).
#[derive(Clone, Debug, PartialEq, Eq)]
pub enum ParsedMessage {
    Rmc(RmcData),
    Incomplete,
}

/// A present status field fails exactly when it is none of the three
/// recognized letters.
pub open spec fn status_fails(f: Seq<char>) -> bool {
    f.len() > 0 && f != seq!['A'] && f != seq!['D'] && f != seq!['V']
}

/// The status a non-failing status field denotes: `A` (autonomous) and `D`
/// (differential) are active, `V` is void, empty is unavailable.
pub open spec fn status_value(f: Seq<char>) -> Option<bool> {
    if f.len() == 0 {
        None
    } else if f == seq!['A'] || f == seq!['D'] {
        Some(true)
    } else {
        Some(false)
    }
}

/// Decode the status field: `A` or `D` is `Some(true)`, `V` is
/// `Some(false)`, empty is `None`, and any other present text is an invalid
/// enumeration.
pub fn decode_status(field: &str) -> (r: Result<Option<bool>, ParseError>)
    ensures
        r is Ok <==> !status_fails(field@),
        r matches Ok(v) ==> v == status_value(field@),
        r matches Err(e) ==> e@ == (ErrorView {
            kind: ParseErrorKind::InvalidEnumeration,
            field: FieldName::Status,
            value: field@,
        }),
{
    let n = field.unicode_len();
    if n == 0 {
        return Ok(None);
    }
    if n == 1 {
        let c = field.get_char(0);
        proof {
            assert(field@ == seq!['A'] ==> field@[0] == 'A');
            assert(field@ == seq!['D'] ==> field@[0] == 'D');
            assert(field@ == seq!['V'] ==> field@[0] == 'V');
            if c == 'A' {
                assert(field@ =~= seq!['A']);
            } else if c == 'D' {
                assert(field@ =~= seq!['D']);
            } else if c == 'V' {
                assert(field@ =~= seq!['V']);
            }
        }
        if c == 'A' || c == 'D' {
            return Ok(Some(true));
        }
        if c == 'V' {
            return Ok(Some(false));
        }
    }
    proof {
        assert(field@ == seq!['A'] ==> field@.len() == 1);
        assert(field@ == seq!['D'] ==> field@.len() == 1);
        assert(field@ == seq!['V'] ==> field@.len() == 1);
    }
    Err(ParseError::new(ParseErrorKind::InvalidEnumeration, FieldName::Status, field))
}

/// A present variation fails exactly when its magnitude is no numeral or
/// its sign letter is neither `E` nor `W`.
pub open spec fn variation_fails(mag: Seq<char>, side: Seq<char>) -> bool {
    mag.len() > 0 && (!is_numeral(mag) || (side != seq!['E'] && side != seq!['W']))
}

/// The variation a non-failing pair of fields denotes: the magnitude as it
/// stands for `E`, negated for `W`, absent when the magnitude is empty.
pub open spec fn spec_variation(mag: Seq<char>, side: Seq<char>) -> Option<DecimalView> {
    if mag.len() == 0 {
        None
    } else if side == seq!['W'] {
        Some(spec_numeral(mag).negated())
    } else {
        Some(spec_numeral(mag))
    }
}

/// Decode the magnetic variation from its magnitude and sign-letter fields:
/// an empty magnitude is an absent variation (the sign letter is then not
/// read); `E` keeps the magnitude's sign, `W` negates it; any other letter
/// beside a present magnitude is an invalid enumeration.
pub fn decode_variation(mag: &str, side: &str) -> (r: Result<Option<DecimalNumber>, ParseError>)
    ensures
        r is Ok <==> !variation_fails(mag@, side@),
        r matches Ok(v) ==> (match v {
            Some(d) => mag@.len() > 0 && Some(d@) == spec_variation(mag@, side@) && d@.wf(),
            None => mag@.len() == 0,
        }),
        r matches Err(e) ==> e@ == (if !is_numeral(mag@) {
            ErrorView {
                kind: ParseErrorKind::MalformedNumeral,
                field: FieldName::Variation,
                value: mag@,
            }
        } else {
            ErrorView {
                kind: ParseErrorKind::InvalidEnumeration,
                field: FieldName::VariationSide,
                value: side@,
            }
        }),
{
    if mag.unicode_len() == 0 {
        return Ok(None);
    }
    let d = match parse_numeral(mag) {
        Some(d) => d,
        None => {
            return Err(ParseError::new(ParseErrorKind::MalformedNumeral, FieldName::Variation, mag));
        },
    };
    let sn = side.unicode_len();
    if sn == 1 {
        let c = side.get_char(0);
        proof {
            assert(side@ == seq!['E'] ==> side@[0] == 'E');
            assert(side@ == seq!['W'] ==> side@[0] == 'W');
            if c == 'E' {
                assert(side@ =~= seq!['E']);
            } else if c == 'W' {
                assert(side@ =~= seq!['W']);
            }
        }
        if c == 'E' {
            return Ok(Some(d));
        }
        if c == 'W' {
            return Ok(
                Some(
                    DecimalNumber {
                        negative: !d.negative,
                        int_digits: d.int_digits,
                        frac_digits: d.frac_digits,
                    },
                ),
            );
        }
    }
    proof {
        assert(side@ == seq!['E'] ==> side@.len() == 1);
        assert(side@ == seq!['W'] ==> side@.len() == 1);
    }
    Err(ParseError::new(ParseErrorKind::InvalidEnumeration, FieldName::VariationSide, side))
}

/// A present optional-numeral field fails exactly when it is no numeral.
pub open spec fn numeral_field_fails(f: Seq<char>) -> bool {
    f.len() > 0 && !is_numeral(f)
}

/// The optional numeral a non-failing field denotes.
pub open spec fn spec_opt_numeral(f: Seq<char>) -> Option<DecimalView> {
    if f.len() == 0 {
        None
    } else {
        Some(spec_numeral(f))
    }
}

/// The optional coordinate a non-failing pair of fields denotes.
pub open spec fn spec_opt_coordinate(num: Seq<char>, h: Seq<char>, neg: char) -> Option<CoordView> {
    if num.len() == 0 {
        None
    } else {
        Some(spec_coordinate(num, hemisphere_negative(h, neg)))
    }
}

/// The outcome of the RMC handler on the given positional fields, strict
/// decoders tried in sentence order: status, latitude, longitude, speed,
/// track angle, variation. The first failure is the outcome; otherwise the
/// record holds every decoded value, the lenient date-time included.
pub open spec fn spec_rmc_fields(
    nav: NavigationSystem,
    time: Seq<char>,
    status: Seq<char>,
    lat: Seq<char>,
    lat_h: Seq<char>,
    lon: Seq<char>,
    lon_h: Seq<char>,
    sog: Seq<char>,
    brg: Seq<char>,
    date: Seq<char>,
    var: Seq<char>,
    var_side: Seq<char>,
) -> Result<RmcView, ErrorView> {
    if status_fails(status) {
        Err(
            ErrorView {
                kind: ParseErrorKind::InvalidEnumeration,
                field: FieldName::Status,
                value: status,
            },
        )
    } else if coordinate_fails(lat, lat_h, 'N', 'S') {
        Err(
            if !hemisphere_valid(lat_h, 'N', 'S') {
                ErrorView {
                    kind: ParseErrorKind::InvalidEnumeration,
                    field: FieldName::LatitudeHemisphere,
                    value: lat_h,
                }
            } else {
                ErrorView {
                    kind: ParseErrorKind::MalformedNumeral,
                    field: FieldName::Latitude,
                    value: lat,
                }
            },
        )
    } else if coordinate_fails(lon, lon_h, 'E', 'W') {
        Err(
            if !hemisphere_valid(lon_h, 'E', 'W') {
                ErrorView {
                    kind: ParseErrorKind::InvalidEnumeration,
                    field: FieldName::LongitudeHemisphere,
                    value: lon_h,
                }
            } else {
                ErrorView {
                    kind: ParseErrorKind::MalformedNumeral,
                    field: FieldName::Longitude,
                    value: lon,
                }
            },
        )
    } else if numeral_field_fails(sog) {
        Err(
            ErrorView {
                kind: ParseErrorKind::MalformedNumeral,
                field: FieldName::SpeedOverGround,
                value: sog,
            },
        )
    } else if numeral_field_fails(brg) {
        Err(
            ErrorView {
                kind: ParseErrorKind::MalformedNumeral,
                field: FieldName::TrackAngle,
                value: brg,
            },
        )
    } else if variation_fails(var, var_side) {
        Err(
            if !is_numeral(var) {
                ErrorView {
                    kind: ParseErrorKind::MalformedNumeral,
                    field: FieldName::Variation,
                    value: var,
                }
            } else {
                ErrorView {
                    kind: ParseErrorKind::InvalidEnumeration,
                    field: FieldName::VariationSide,
                    value: var_side,
                }
            },
        )
    } else {
        Ok(
            RmcView {
                source: nav,
                timestamp: spec_datetime(date, time),
                status_active: status_value(status),
                latitude: spec_opt_coordinate(lat, lat_h, 'S'),
                longitude: spec_opt_coordinate(lon, lon_h, 'W'),
                sog_knots: spec_opt_numeral(sog),
                bearing: spec_opt_numeral(brg),
                variation: spec_variation(var, var_side),
            },
        )
    }
}

/// The outcome of the RMC handler on one sentence: its positional fields
/// (1-indexed after the talker/type prefix) fed to `spec_rmc_fields`. A
/// position past the last field reads as an empty field.
pub open spec fn spec_rmc(s: Seq<char>, nav: NavigationSystem) -> Result<RmcView, ErrorView> {
    spec_rmc_fields(
        nav,
        fld(s, 1),
        fld(s, 2),
        fld(s, 3),
        fld(s, 4),
        fld(s, 5),
        fld(s, 6),
        fld(s, 7),
        fld(s, 8),
        fld(s, 9),
        fld(s, 10),
        fld(s, 11),
    )
}

/// What the handler promises: its result is exactly the outcome `spec_rmc`
/// names for the sentence text, as a well-formed record or as the first
/// failure.
pub open spec fn handle_post(
    s: Seq<char>,
    nav: NavigationSystem,
    r: Result<ParsedMessage, ParseError>,
) -> bool {
    match r {
        Ok(m) => spec_rmc(s, nav) matches Ok(rv) && m matches ParsedMessage::Rmc(d) && d@ == rv
            && rv.wf(),
        Err(e) => spec_rmc(s, nav) matches Err(ev) && e@ == ev,
    }
}

/// The field at position `i`, an absent position reading as empty.
fn field_ref<'a>(fields: &'a Vec<String>, i: usize) -> (f: &'a str)
    ensures
        f@ == field_view(fields@, i as int),
{
    if i < fields.len() {
        fields[i].as_str()
    } else {
        proof {
            reveal_strlit("");
            assert(""@ =~= Seq::<char>::empty());
        }
        ""
    }
}

/// Decode one RMC sentence (talker/type prefix included, checksum already
/// stripped) into a record, or fail on the first malformed present field.
pub fn handle(sentence: &str, nav_system: NavigationSystem) -> (r: Result<
    ParsedMessage,
    ParseError,
>)
    ensures
        handle_post(sentence@, nav_system, r),
{
    let fields = split_fields(sentence);
    proof {
        assert forall|i: int| field_view(fields@, i) == fld(sentence@, i) by {
            if 0 <= i < fields@.len() {
                assert(fields@[i]@ == crate::tokenize::spec_fields(sentence@)[i]);
            }
        }
    }
    let status_active = match decode_status(field_ref(&fields, 2)) {
        Ok(v) => v,
        Err(e) => {
            return Err(e);
        },
    };
    let latitude = match parse_latitude_ddmm_mmm(field_ref(&fields, 3), field_ref(&fields, 4)) {
        Ok(v) => v,
        Err(e) => {
            return Err(e);
        },
    };
    let longitude = match parse_longitude_dddmm_mmm(field_ref(&fields, 5), field_ref(&fields, 6)) {
        Ok(v) => v,
        Err(e) => {
            return Err(e);
        },
    };
    let sog_knots = match decode_numeral_field(&fields, 7, FieldName::SpeedOverGround) {
        Ok(v) => v,
        Err(e) => {
            return Err(e);
        },
    };
    let bearing = match decode_numeral_field(&fields, 8, FieldName::TrackAngle) {
        Ok(v) => v,
        Err(e) => {
            return Err(e);
        },
    };
    let variation = match decode_variation(field_ref(&fields, 10), field_ref(&fields, 11)) {
        Ok(v) => v,
        Err(e) => {
            return Err(e);
        },
    };
    let timestamp = parse_yymmdd_hhmmss(field_ref(&fields, 9), field_ref(&fields, 1));
    Ok(
        ParsedMessage::Rmc(
            RmcData {
                source: nav_system,
                timestamp,
                status_active,
                latitude,
                longitude,
                sog_knots,
                bearing,
                variation,
            },
        ),
    )
}

/// Decoding is pure: any two outcomes that the handler's contract allows
/// for the same sentence text and navigation system are the same record,
/// or the same failure.
pub proof fn lemma_decode_deterministic(
    s: Seq<char>,
    nav: NavigationSystem,
    r1: Result<ParsedMessage, ParseError>,
    r2: Result<ParsedMessage, ParseError>,
)
    requires
        handle_post(s, nav, r1),
        handle_post(s, nav, r2),
    ensures
        r1 is Ok <==> r2 is Ok,
        r1 matches Ok(ParsedMessage::Rmc(d1)) ==> (r2 matches Ok(ParsedMessage::Rmc(d2)) && d1@
            == d2@),
        r1 matches Err(e1) ==> (r2 matches Err(e2) && e1@ == e2@),
{
}

/// Absence is never a default: in a decoded record every optional value
/// field is absent exactly when its source field was empty or missing, and
/// the timestamp exactly when its date and time fields name no instant.
/// Present-but-malformed data fails the whole record instead.
pub proof fn lemma_absent_iff_empty(s: Seq<char>, nav: NavigationSystem)
    ensures
        match spec_rmc(s, nav) {
            Ok(rv) => {
                &&& (rv.status_active is None <==> fld(s, 2).len() == 0)
                &&& (rv.latitude is None <==> fld(s, 3).len() == 0)
                &&& (rv.longitude is None <==> fld(s, 5).len() == 0)
                &&& (rv.sog_knots is None <==> fld(s, 7).len() == 0)
                &&& (rv.bearing is None <==> fld(s, 8).len() == 0)
                &&& (rv.variation is None <==> fld(s, 10).len() == 0)
                &&& (rv.timestamp is None <==> spec_datetime(fld(s, 9), fld(s, 1)) is None)
            },
            Err(_) => true,
        },
{
}

/// A truncated sentence behaves exactly like one whose missing trailing
/// fields are present and empty: appending one empty field (a trailing
/// comma) never changes the outcome, and by repetition neither does
/// appending any number of them.
pub proof fn lemma_truncated_decodes_like_empty(s: Seq<char>, nav: NavigationSystem)
    ensures
        spec_rmc(s.push(','), nav) == spec_rmc(s, nav),
{
    assert forall|i: int| fld(s.push(','), i) == fld(s, i) by {
        lemma_truncated_reads_like_empty(s, i);
    }
}

} // verus!
