//! Field decoders for the supported sentence kinds: GST, GSA, GSV and the
//! u-blox proprietary PUBX 00, 03 and 04 sentences.

use vstd::prelude::*;
use vstd::slice::slice_to_vec;
use vstd::string::*;
use crate::datetime::GpsDate;
use crate::datetime::GpsTime;
use crate::datetime::date_field_ok;
use crate::datetime::date_field_value;
use crate::datetime::parse_date;
use crate::datetime::parse_time;
use crate::datetime::time_field_ok;
use crate::datetime::time_field_value;
use crate::dms::GPSDMS;
use crate::dms::dms_field_ok;
use crate::dms::dms_field_value;
use crate::fields::lemma_field_view;
use crate::fields::spec_fields;
use crate::fields::split_fields;
use crate::nmea_types::GsaMode;
use crate::nmea_types::GsaSelectionMode;
use crate::nmea_types::NMEAError;
use crate::nmea_types::SystemID;
use crate::num::FixedPoint;
use crate::num::dec_digits_value;
use crate::num::dec_field_ok;
use crate::num::dec_field_value;
use crate::num::parse_decimal;
use crate::num::parse_i16;
use crate::num::parse_u16;
use crate::num::parse_u32;
use crate::num::parse_u8;
use crate::num::i16_in_range;
use crate::num::i16_value;
use crate::num::uint_digits;
use crate::num::uint_in_range;

verus! {

/// Reads a sentence type from its text. Decoders accept the sentence whole
/// and pick their fields from it.
pub trait GpsDataFromNmeaString {
    type Output;

    fn from_nmea_str(data: &str) -> Result<Self::Output, NMEAError>;
}

/// The number a numeric field spells, if it fits `u8`.
pub open spec fn spec_u8_opt(b: Seq<u8>) -> Option<u8> {
    if uint_in_range(b, u8::MAX as nat) {
        Some(dec_digits_value(uint_digits(b)) as u8)
    } else {
        None
    }
}

/// The number a numeric field spells, if it fits `u16`.
pub open spec fn spec_u16_opt(b: Seq<u8>) -> Option<u16> {
    if uint_in_range(b, u16::MAX as nat) {
        Some(dec_digits_value(uint_digits(b)) as u16)
    } else {
        None
    }
}

/// The number a signed numeric field spells, if it fits `i16`.
pub open spec fn spec_i16_opt(b: Seq<u8>) -> Option<i16> {
    if i16_in_range(b) {
        Some(i16_value(b) as i16)
    } else {
        None
    }
}

/// The fixed-point number a decimal field spells, if any.
pub open spec fn spec_dec_opt(b: Seq<u8>) -> Option<FixedPoint> {
    if dec_field_ok(b) {
        Some(dec_field_value(b))
    } else {
        None
    }
}

/// The time of day a time field spells, if any.
pub open spec fn spec_time_opt(b: Seq<u8>) -> Option<GpsTime> {
    if time_field_ok(b) {
        Some(time_field_value(b))
    } else {
        None
    }
}

/// The date a date field spells, if any.
pub open spec fn spec_date_opt(b: Seq<u8>) -> Option<GpsDate> {
    if date_field_ok(b) {
        Some(date_field_value(b))
    } else {
        None
    }
}

fn u8_opt(f: &Vec<u8>) -> (r: Option<u8>)
    ensures
        r == spec_u8_opt(f@),
{
    parse_u8(f.as_slice())
}

fn u16_opt(f: &Vec<u8>) -> (r: Option<u16>)
    ensures
        r == spec_u16_opt(f@),
{
    parse_u16(f.as_slice())
}

fn i16_opt(f: &Vec<u8>) -> (r: Option<i16>)
    ensures
        r == spec_i16_opt(f@),
{
    parse_i16(f.as_slice())
}

fn dec_opt(f: &Vec<u8>) -> (r: Option<FixedPoint>)
    ensures
        r == spec_dec_opt(f@),
{
    parse_decimal(f.as_slice())
}

fn time_opt(f: &Vec<u8>) -> (r: Option<GpsTime>)
    ensures
        r == spec_time_opt(f@),
{
    parse_time(f.as_slice())
}

fn date_opt(f: &Vec<u8>) -> (r: Option<GpsDate>)
    ensures
        r == spec_date_opt(f@),
{
    parse_date(f.as_slice())
}

/// Does the first field end in the given three-letter sentence type, after
/// a three-character talker prefix?
pub open spec fn talker_type_ok(f0: Seq<u8>, t0: u8, t1: u8, t2: u8) -> bool {
    f0.len() == 6 && f0[3] == t0 && f0[4] == t1 && f0[5] == t2
}

/// Checks the first field against a three-letter sentence type.
fn check_talker_type(f0: &Vec<u8>, t0: u8, t1: u8, t2: u8) -> (r: bool)
    ensures
        r == talker_type_ok(f0@, t0, t1, t2),
{
    f0.len() == 6 && *f0.get(3).unwrap() == t0 && *f0.get(4).unwrap() == t1 && *f0.get(5).unwrap()
        == t2
}

/// Does the first field read `PUBX` after a one-character lead?
pub open spec fn pubx_ok(f0: Seq<u8>) -> bool {
    f0.len() == 5 && f0[1] == 80 && f0[2] == 85 && f0[3] == 66 && f0[4] == 88
}

/// Checks the first field for the `PUBX` proprietary prefix.
fn check_pubx(f0: &Vec<u8>) -> (r: bool)
    ensures
        r == pubx_ok(f0@),
{
    f0.len() == 5 && *f0.get(1).unwrap() == 80 && *f0.get(2).unwrap() == 85 && *f0.get(3).unwrap()
        == 66 && *f0.get(4).unwrap() == 88
}

/// GPS pseudorange noise statistics.
#[derive(Clone, Debug, PartialEq, Eq, Structural)]
pub struct GstData {
    /// UTC of the position fix.
    pub fix_timestamp: Option<GpsTime>,
    /// RMS value of the pseudorange residuals.
    pub rms_dev: Option<FixedPoint>,
    /// Error ellipse semi-major axis 1-sigma error, in meters.
    pub semi_major_dev: Option<FixedPoint>,
    /// Error ellipse semi-minor axis 1-sigma error, in meters.
    pub semi_minor_dev: Option<FixedPoint>,
    /// Orientation of the semi-major axis, true north degrees.
    pub semi_major_orientation: Option<FixedPoint>,
    /// Standard deviation of latitude error, meters.
    pub latitude_error: Option<FixedPoint>,
    /// Standard deviation of longitude error, meters.
    pub longitude_error: Option<FixedPoint>,
    /// Standard deviation of altitude error, meters.
    pub altitude_error: Option<FixedPoint>,
}

/// Does a sentence read as GST: the type in its first field and exactly ten
/// fields, the checksum field included?
pub open spec fn gst_ok(s: Seq<u8>) -> bool {
    let fs = spec_fields(s);
    talker_type_ok(fs[0], 71, 83, 84) && fs.len() == 10
}

/// The GST record of an accepted sentence: every numeric field degrades to
/// `None` alone when malformed.
pub open spec fn gst_value(s: Seq<u8>) -> GstData {
    let fs = spec_fields(s);
    GstData {
        fix_timestamp: spec_time_opt(fs[1]),
        rms_dev: spec_dec_opt(fs[2]),
        semi_major_dev: spec_dec_opt(fs[3]),
        semi_minor_dev: spec_dec_opt(fs[4]),
        semi_major_orientation: spec_dec_opt(fs[5]),
        latitude_error: spec_dec_opt(fs[6]),
        longitude_error: spec_dec_opt(fs[7]),
        altitude_error: spec_dec_opt(fs[8]),
    }
}

impl GstData {
    /// Decodes a GST sentence given as raw bytes.
    pub fn decode(s: &[u8]) -> (r: Result<GstData, NMEAError>)
        ensures
            match r {
                Ok(d) => gst_ok(s@) && d == gst_value(s@),
                Err(e) => !gst_ok(s@) && (e matches NMEAError::InvalidData(raw) && raw@ == s@),
            },
    {
        let fields = split_fields(s);
        proof {
            lemma_field_view(&fields, 0);
        }
        if !check_talker_type(&fields[0], 71, 83, 84) || fields.len() != 10 {
            return Err(NMEAError::InvalidData(slice_to_vec(s)));
        }
        proof {
            lemma_field_view(&fields, 1);
            lemma_field_view(&fields, 2);
            lemma_field_view(&fields, 3);
            lemma_field_view(&fields, 4);
            lemma_field_view(&fields, 5);
            lemma_field_view(&fields, 6);
            lemma_field_view(&fields, 7);
            lemma_field_view(&fields, 8);
        }
        Ok(GstData {
            fix_timestamp: time_opt(&fields[1]),
            rms_dev: dec_opt(&fields[2]),
            semi_major_dev: dec_opt(&fields[3]),
            semi_minor_dev: dec_opt(&fields[4]),
            semi_major_orientation: dec_opt(&fields[5]),
            latitude_error: dec_opt(&fields[6]),
            longitude_error: dec_opt(&fields[7]),
            altitude_error: dec_opt(&fields[8]),
        })
    }
}

impl GpsDataFromNmeaString for GstData {
    type Output = Self;

    fn from_nmea_str(data: &str) -> Result<Self, NMEAError> {
        GstData::decode(data.as_bytes())
    }
}

/// GPS DOP and active satellites.
#[derive(Clone, Debug, PartialEq)]
pub struct GsaData {
    /// Selection mode: manual or automatic.
    pub selection_mode: GsaSelectionMode,
    /// Fix mode: none, 2D or 3D.
    pub mode: GsaMode,
    /// PRN numbers of the satellites used in the solution, twelve slots.
    pub prn_numbers: Vec<Option<u8>>,
    pub pdop: Option<FixedPoint>,
    pub hdop: Option<FixedPoint>,
    pub vdop: Option<FixedPoint>,
    /// System ID that NMEA 4.1+ receivers append.
    pub system_id: Option<SystemID>,
}

/// Does a selection-mode value match its field: `M` manual, `A` automatic,
/// anything else kept as unknown with its text?
pub open spec fn sel_mode_matches(b: Seq<u8>, m: GsaSelectionMode) -> bool {
    if b =~= seq![77u8] {
        m == GsaSelectionMode::Manual
    } else if b =~= seq![65u8] {
        m == GsaSelectionMode::Automatic
    } else {
        m matches GsaSelectionMode::Unknown(v) && v@ == b
    }
}

/// Does a fix-mode value match its field: 1 no fix, 2 a 2D fix, 3 a 3D fix,
/// anything else kept as unknown with its text?
pub open spec fn gsa_mode_matches(b: Seq<u8>, m: GsaMode) -> bool {
    if spec_u32_of(b) == Some(1u32) {
        m == GsaMode::ModeNone
    } else if spec_u32_of(b) == Some(2u32) {
        m == GsaMode::Mode2D
    } else if spec_u32_of(b) == Some(3u32) {
        m == GsaMode::Mode3D
    } else {
        m matches GsaMode::Unknown(v) && v@ == b
    }
}

/// The number a numeric field spells, if it fits `u32`.
pub open spec fn spec_u32_of(b: Seq<u8>) -> Option<u32> {
    if uint_in_range(b, u32::MAX as nat) {
        Some(dec_digits_value(uint_digits(b)) as u32)
    } else {
        None
    }
}

/// Does a system-ID value match its field: 1 GPS, 2 GLONASS, 3 Galileo, 4
/// BeiDou, anything else kept as unknown carrying the bytes of `unk`?
pub open spec fn sysid_matches(b: Seq<u8>, unk: Seq<u8>, m: SystemID) -> bool {
    if spec_u32_of(b) == Some(1u32) {
        m == SystemID::GPS
    } else if spec_u32_of(b) == Some(2u32) {
        m == SystemID::GLONASS
    } else if spec_u32_of(b) == Some(3u32) {
        m == SystemID::Galileo
    } else if spec_u32_of(b) == Some(4u32) {
        m == SystemID::BeiDou
    } else {
        m matches SystemID::Unknown(v) && v@ == unk
    }
}

/// Reads a system-ID field; an unrecognised one keeps the bytes of `unk`.
fn decode_sysid(b: &Vec<u8>, unk: &Vec<u8>) -> (r: SystemID)
    ensures
        sysid_matches(b@, unk@, r),
{
    match parse_u32(b.as_slice()) {
        Some(1) => SystemID::GPS,
        Some(2) => SystemID::GLONASS,
        Some(3) => SystemID::Galileo,
        Some(4) => SystemID::BeiDou,
        _ => SystemID::Unknown(slice_to_vec(unk.as_slice())),
    }
}

/// Does a sentence read as GSA: the type in its first field and at least
/// nineteen fields, the checksum field included?
pub open spec fn gsa_ok(s: Seq<u8>) -> bool {
    let fs = spec_fields(s);
    talker_type_ok(fs[0], 71, 83, 65) && fs.len() >= 19
}

/// Does a GSA record match an accepted sentence? The twelve PRN slots and
/// the DOP values degrade to `None` alone when malformed; the system ID is
/// present only when a twentieth field is.
pub open spec fn gsa_matches(s: Seq<u8>, d: GsaData) -> bool {
    let fs = spec_fields(s);
    &&& sel_mode_matches(fs[1], d.selection_mode)
    &&& gsa_mode_matches(fs[2], d.mode)
    &&& d.prn_numbers@ == Seq::new(12, |i: int| spec_u8_opt(fs[3 + i]))
    &&& d.pdop == spec_dec_opt(fs[15])
    &&& d.hdop == spec_dec_opt(fs[16])
    &&& d.vdop == spec_dec_opt(fs[17])
    &&& if fs.len() > 19 {
        d.system_id matches Some(m) && sysid_matches(fs[18], fs[18], m)
    } else {
        d.system_id is None
    }
}

impl GsaData {
    /// Decodes a GSA sentence given as raw bytes.
    pub fn decode(s: &[u8]) -> (r: Result<GsaData, NMEAError>)
        ensures
            match r {
                Ok(d) => gsa_ok(s@) && gsa_matches(s@, d),
                Err(e) => !gsa_ok(s@) && (e matches NMEAError::InvalidData(raw) && raw@ == s@),
            },
    {
        let fields = split_fields(s);
        let ghost fs = spec_fields(s@);
        proof {
            lemma_field_view(&fields, 0);
        }
        if !check_talker_type(&fields[0], 71, 83, 65) || fields.len() < 19 {
            return Err(NMEAError::InvalidData(slice_to_vec(s)));
        }
        proof {
            lemma_field_view(&fields, 1);
            lemma_field_view(&fields, 2);
            lemma_field_view(&fields, 15);
            lemma_field_view(&fields, 16);
            lemma_field_view(&fields, 17);
            lemma_field_view(&fields, 18);
        }
        let f1 = &fields[1];
        let selection_mode = if f1.len() == 1 && *f1.get(0).unwrap() == 77 {
            proof {
                assert(f1@ =~= seq![77u8]);
            }
            GsaSelectionMode::Manual
        } else if f1.len() == 1 && *f1.get(0).unwrap() == 65 {
            proof {
                assert(f1@ =~= seq![65u8]);
            }
            GsaSelectionMode::Automatic
        } else {
            GsaSelectionMode::Unknown(slice_to_vec(f1.as_slice()))
        };
        let mode = match parse_u32(fields[2].as_slice()) {
            Some(1) => GsaMode::ModeNone,
            Some(2) => GsaMode::Mode2D,
            Some(3) => GsaMode::Mode3D,
            _ => GsaMode::Unknown(slice_to_vec(fields[2].as_slice())),
        };
        let mut prn_numbers: Vec<Option<u8>> = Vec::new();
        let mut i: usize = 0;
        while i < 12
            invariant
                0 <= i <= 12,
                fields.deep_view() == fs,
                fs.len() >= 19,
                fields@.len() == fs.len(),
                prn_numbers@.len() == i,
                forall|k: int| 0 <= k < i ==> prn_numbers@[k] == spec_u8_opt(fs[3 + k]),
            decreases 12 - i,
        {
            proof {
                lemma_field_view(&fields, 3 + i);
            }
            prn_numbers.push(u8_opt(&fields[3 + i]));
            i = i + 1;
        }
        proof {
            assert(prn_numbers@ =~= Seq::new(12, |i: int| spec_u8_opt(fs[3 + i])));
        }
        let system_id = if fields.len() > 19 {
            Some(decode_sysid(&fields[18], &fields[18]))
        } else {
            None
        };
        Ok(GsaData {
            selection_mode,
            mode,
            prn_numbers,
            pdop: dec_opt(&fields[15]),
            hdop: dec_opt(&fields[16]),
            vdop: dec_opt(&fields[17]),
            system_id,
        })
    }
}

impl GpsDataFromNmeaString for GsaData {
    type Output = Self;

    fn from_nmea_str(data: &str) -> Result<Self, NMEAError> {
        GsaData::decode(data.as_bytes())
    }
}


/// One GSV quadruple sentence: sky positions of satellites in view.
#[derive(Clone, Debug, PartialEq)]
pub struct GsvData {
    /// Total number of GSV sentences in this group.
    pub total_count: Option<u16>,
    /// Sentence number within the current group.
    pub count: Option<u16>,
    /// Total number of satellites in view.
    pub sat_in_view: Option<u16>,
    /// Satellite ID or PRN number.
    pub id_or_prn_number: Option<u16>,
    /// Elevation in degrees, -90 to 90.
    pub elevation: Option<i16>,
    /// Azimuth in degrees to true north, 000 to 359.
    pub azimuth: Option<u16>,
    /// SNR in dB, 00 to 99.
    pub snr: Option<u16>,
    /// System ID that NMEA 4.1+ receivers append.
    pub system_id: Option<SystemID>,
}

/// Does a sentence read as GSV: the type in its first field and at least
/// eight fields, the checksum field included?
pub open spec fn gsv_ok(s: Seq<u8>) -> bool {
    let fs = spec_fields(s);
    talker_type_ok(fs[0], 71, 83, 86) && fs.len() >= 8
}

/// The field whose bytes an unrecognised GSV system ID keeps: the
/// nineteenth where the sentence has one, else the system-ID field itself.
pub open spec fn gsv_unk(fs: Seq<Seq<u8>>) -> Seq<u8> {
    if fs.len() > 18 {
        fs[18]
    } else {
        fs[8]
    }
}

/// Does a GSV record match an accepted sentence?
pub open spec fn gsv_matches(s: Seq<u8>, d: GsvData) -> bool {
    let fs = spec_fields(s);
    &&& d.total_count == spec_u16_opt(fs[1])
    &&& d.count == spec_u16_opt(fs[2])
    &&& d.sat_in_view == spec_u16_opt(fs[3])
    &&& d.id_or_prn_number == spec_u16_opt(fs[4])
    &&& d.elevation == spec_i16_opt(fs[5])
    &&& d.azimuth == spec_u16_opt(fs[6])
    &&& d.snr == spec_u16_opt(fs[7])
    &&& if fs.len() > 8 {
        d.system_id matches Some(m) && sysid_matches(fs[8], gsv_unk(fs), m)
    } else {
        d.system_id is None
    }
}

impl GsvData {
    /// Decodes one GSV sentence given as raw bytes.
    pub fn decode(s: &[u8]) -> (r: Result<GsvData, NMEAError>)
        ensures
            match r {
                Ok(d) => gsv_ok(s@) && gsv_matches(s@, d),
                Err(e) => !gsv_ok(s@) && (e matches NMEAError::InvalidData(raw) && raw@ == s@),
            },
    {
        let fields = split_fields(s);
        let ghost fs = spec_fields(s@);
        proof {
            lemma_field_view(&fields, 0);
        }
        if !check_talker_type(&fields[0], 71, 83, 86) || fields.len() < 8 {
            return Err(NMEAError::InvalidData(slice_to_vec(s)));
        }
        proof {
            lemma_field_view(&fields, 1);
            lemma_field_view(&fields, 2);
            lemma_field_view(&fields, 3);
            lemma_field_view(&fields, 4);
            lemma_field_view(&fields, 5);
            lemma_field_view(&fields, 6);
            lemma_field_view(&fields, 7);
        }
        let system_id = if fields.len() > 8 {
            proof {
                lemma_field_view(&fields, 8);
                if fs.len() > 18 {
                    lemma_field_view(&fields, 18);
                }
            }
            let unk = if fields.len() > 18 {
                &fields[18]
            } else {
                &fields[8]
            };
            Some(decode_sysid(&fields[8], unk))
        } else {
            None
        };
        Ok(GsvData {
            total_count: u16_opt(&fields[1]),
            count: u16_opt(&fields[2]),
            sat_in_view: u16_opt(&fields[3]),
            id_or_prn_number: u16_opt(&fields[4]),
            elevation: i16_opt(&fields[5]),
            azimuth: u16_opt(&fields[6]),
            snr: u16_opt(&fields[7]),
            system_id,
        })
    }
}

impl GpsDataFromNmeaString for GsvData {
    type Output = Self;

    fn from_nmea_str(data: &str) -> Result<Self, NMEAError> {
        GsvData::decode(data.as_bytes())
    }
}

/// A group of GSV sentences shipped space-separated in one line.
#[derive(Clone, Debug, PartialEq)]
pub struct GsvDataCollection {
    pub inner: Vec<GsvData>,
}

/// Does a line read as a GSV collection: every space-separated group reads
/// as one GSV sentence?
pub open spec fn gsv_collection_ok(s: Seq<u8>) -> bool {
    let gs = crate::fields::spec_groups(s);
    forall|i: int| 0 <= i < gs.len() ==> gsv_ok(#[trigger] gs[i])
}

/// Does a GSV collection match an accepted line, group by group?
pub open spec fn gsv_collection_matches(s: Seq<u8>, d: GsvDataCollection) -> bool {
    let gs = crate::fields::spec_groups(s);
    d.inner@.len() == gs.len() && forall|i: int|
        0 <= i < gs.len() ==> gsv_matches(#[trigger] gs[i], d.inner@[i])
}

impl GsvDataCollection {
    /// Decodes a line of space-separated GSV sentences.
    #[verifier::loop_isolation(false)]
    pub fn decode(s: &[u8]) -> (r: Result<GsvDataCollection, NMEAError>)
        ensures
            match r {
                Ok(d) => gsv_collection_ok(s@) && gsv_collection_matches(s@, d),
                Err(e) => !gsv_collection_ok(s@) && (e matches NMEAError::InvalidData(raw)
                    && exists|i: int|
                    0 <= i < crate::fields::spec_groups(s@).len() && !gsv_ok(
                        #[trigger] crate::fields::spec_groups(s@)[i],
                    ) && raw@ == crate::fields::spec_groups(s@)[i]),
            },
    {
        let groups = crate::fields::split_groups(s);
        let ghost gs = crate::fields::spec_groups(s@);
        let mut inner: Vec<GsvData> = Vec::new();
        let mut i: usize = 0;
        while i < groups.len()
            invariant
                0 <= i <= groups@.len(),
                groups.deep_view() == gs,
                groups@.len() == gs.len(),
                inner@.len() == i,
                forall|k: int| 0 <= k < i ==> gsv_ok(#[trigger] gs[k]),
                forall|k: int| 0 <= k < i ==> gsv_matches(#[trigger] gs[k], inner@[k]),
            decreases groups@.len() - i,
        {
            proof {
                lemma_field_view(&groups, i as int);
            }
            match GsvData::decode(groups[i].as_slice()) {
                Ok(d) => {
                    inner.push(d);
                },
                Err(e) => {
                    proof {
                        assert(!gsv_ok(crate::fields::spec_groups(s@)[i as int]));
                        assert(e matches NMEAError::InvalidData(raw) && raw@
                            == crate::fields::spec_groups(s@)[i as int]);
                        assert(!gsv_collection_ok(s@));
                    }
                    return Err(e);
                },
            }
            i = i + 1;
        }
        Ok(GsvDataCollection { inner })
    }
}

impl GpsDataFromNmeaString for GsvDataCollection {
    type Output = Self;

    fn from_nmea_str(data: &str) -> Result<Self, NMEAError> {
        GsvDataCollection::decode(data.as_bytes())
    }
}

/// The first character of a field, or NUL where the field is empty. Fields
/// are ASCII on the wire, so the first byte is the first character.
pub open spec fn first_char_of(b: Seq<u8>) -> char {
    if b.len() > 0 {
        b[0] as char
    } else {
        '\0'
    }
}


/// Reads the first character of a field, or NUL where the field is empty.
fn first_char(f: &Vec<u8>) -> (r: char)
    ensures
        r == first_char_of(f@),
{
    if f.len() > 0 {
        *f.get(0).unwrap() as char
    } else {
        '\0'
    }
}

/// u-blox position data, from a `PUBX,00` sentence.
#[derive(Clone, Debug, Copy, PartialEq, Eq, Structural)]
pub struct Pubx00Data {
    /// UTC time of day.
    pub current_time: Option<GpsTime>,
    /// Latitude magnitude.
    pub latitude: GPSDMS,
    /// `N` for north or `S` for south.
    pub n: char,
    /// Longitude magnitude.
    pub longitude: GPSDMS,
    /// `E` for east or `W` for west.
    pub e: char,
    /// Altitude above the user datum ellipsoid, meters.
    pub altitude: FixedPoint,
    /// Navigation status.
    pub nav_stat: crate::nmea_types::GpsNavigationStatus,
    /// Horizontal accuracy estimate.
    pub h_acc: FixedPoint,
    /// Vertical accuracy estimate.
    pub v_acc: FixedPoint,
    /// Speed over ground, km/h.
    pub sog_kmh: FixedPoint,
    /// Course over ground, degrees.
    pub cog: FixedPoint,
    /// Vertical velocity, positive downward, m/s.
    pub vvel: FixedPoint,
    /// Age of the most recent DGPS corrections; empty means none.
    pub age_c: Option<FixedPoint>,
    /// Horizontal dilution of precision.
    pub hdop: FixedPoint,
    /// Vertical dilution of precision.
    pub vdop: FixedPoint,
    /// Time dilution of precision.
    pub tdop: FixedPoint,
    /// GPS satellites used in the solution.
    pub gps_sat_used: u8,
    /// GLONASS satellites used in the solution.
    pub glonass_sat_used: u8,
    /// Dead-reckoning satellites used in the solution.
    pub dr_sat_used: u8,
}

/// Does a sentence read as `PUBX,00`: the proprietary prefix, at least 21
/// fields, and every critical field well formed? The critical fields are
/// the positions, the altitude, the navigation status, the accuracy, speed,
/// course and velocity numbers, the DOP values and the satellite counts.
pub open spec fn pubx00_ok(s: Seq<u8>) -> bool {
    let fs = spec_fields(s);
    &&& pubx_ok(fs[0])
    &&& fs.len() >= 21
    &&& dms_field_ok(fs[3])
    &&& dms_field_ok(fs[5])
    &&& dec_field_ok(fs[7])
    &&& crate::nmea_types::nav_status_of(fs[8]) is Some
    &&& dec_field_ok(fs[9])
    &&& dec_field_ok(fs[10])
    &&& dec_field_ok(fs[11])
    &&& dec_field_ok(fs[12])
    &&& dec_field_ok(fs[13])
    &&& dec_field_ok(fs[15])
    &&& dec_field_ok(fs[16])
    &&& dec_field_ok(fs[17])
    &&& uint_in_range(fs[18], u8::MAX as nat)
    &&& uint_in_range(fs[19], u8::MAX as nat)
    &&& uint_in_range(fs[20], u8::MAX as nat)
}

/// The position record of an accepted `PUBX,00` sentence. Only the time of
/// day and the DGPS age degrade to `None` when malformed.
pub open spec fn pubx00_value(s: Seq<u8>) -> Pubx00Data {
    let fs = spec_fields(s);
    Pubx00Data {
        current_time: spec_time_opt(fs[2]),
        latitude: dms_field_value(fs[3]),
        n: first_char_of(fs[4]),
        longitude: dms_field_value(fs[5]),
        e: first_char_of(fs[6]),
        altitude: dec_field_value(fs[7]),
        nav_stat: crate::nmea_types::nav_status_of(fs[8]).unwrap(),
        h_acc: dec_field_value(fs[9]),
        v_acc: dec_field_value(fs[10]),
        sog_kmh: dec_field_value(fs[11]),
        cog: dec_field_value(fs[12]),
        vvel: dec_field_value(fs[13]),
        age_c: spec_dec_opt(fs[14]),
        hdop: dec_field_value(fs[15]),
        vdop: dec_field_value(fs[16]),
        tdop: dec_field_value(fs[17]),
        gps_sat_used: dec_digits_value(uint_digits(fs[18])) as u8,
        glonass_sat_used: dec_digits_value(uint_digits(fs[19])) as u8,
        dr_sat_used: dec_digits_value(uint_digits(fs[20])) as u8,
    }
}

impl Pubx00Data {
    /// Decodes a `PUBX,00` sentence given as raw bytes.
    pub fn decode(s: &[u8]) -> (r: Result<Pubx00Data, NMEAError>)
        ensures
            match r {
                Ok(d) => pubx00_ok(s@) && d == pubx00_value(s@),
                Err(e) => !pubx00_ok(s@) && (e matches NMEAError::InvalidData(raw) && raw@
                    == s@),
            },
    {
        let fields = split_fields(s);
        proof {
            lemma_field_view(&fields, 0);
        }
        if !check_pubx(&fields[0]) || fields.len() < 21 {
            return Err(NMEAError::InvalidData(slice_to_vec(s)));
        }
        proof {
            lemma_field_view(&fields, 2);
            lemma_field_view(&fields, 3);
            lemma_field_view(&fields, 4);
            lemma_field_view(&fields, 5);
            lemma_field_view(&fields, 6);
            lemma_field_view(&fields, 7);
            lemma_field_view(&fields, 8);
            lemma_field_view(&fields, 9);
            lemma_field_view(&fields, 10);
            lemma_field_view(&fields, 11);
            lemma_field_view(&fields, 12);
            lemma_field_view(&fields, 13);
            lemma_field_view(&fields, 14);
            lemma_field_view(&fields, 15);
            lemma_field_view(&fields, 16);
            lemma_field_view(&fields, 17);
            lemma_field_view(&fields, 18);
            lemma_field_view(&fields, 19);
            lemma_field_view(&fields, 20);
        }
        let latitude = match GPSDMS::from_field(fields[3].as_slice()) {
            Ok(v) => v,
            Err(_) => {
                return Err(NMEAError::InvalidData(slice_to_vec(s)));
            },
        };
        let longitude = match GPSDMS::from_field(fields[5].as_slice()) {
            Ok(v) => v,
            Err(_) => {
                return Err(NMEAError::InvalidData(slice_to_vec(s)));
            },
        };
        let altitude = match parse_decimal(fields[7].as_slice()) {
            Some(v) => v,
            None => {
                return Err(NMEAError::InvalidData(slice_to_vec(s)));
            },
        };
        let nav_stat = match crate::nmea_types::GpsNavigationStatus::from_field(
            fields[8].as_slice(),
        ) {
            Ok(v) => v,
            Err(_) => {
                return Err(NMEAError::InvalidData(slice_to_vec(s)));
            },
        };
        let h_acc = match parse_decimal(fields[9].as_slice()) {
            Some(v) => v,
            None => {
                return Err(NMEAError::InvalidData(slice_to_vec(s)));
            },
        };
        let v_acc = match parse_decimal(fields[10].as_slice()) {
            Some(v) => v,
            None => {
                return Err(NMEAError::InvalidData(slice_to_vec(s)));
            },
        };
        let sog_kmh = match parse_decimal(fields[11].as_slice()) {
            Some(v) => v,
            None => {
                return Err(NMEAError::InvalidData(slice_to_vec(s)));
            },
        };
        let cog = match parse_decimal(fields[12].as_slice()) {
            Some(v) => v,
            None => {
                return Err(NMEAError::InvalidData(slice_to_vec(s)));
            },
        };
        let vvel = match parse_decimal(fields[13].as_slice()) {
            Some(v) => v,
            None => {
                return Err(NMEAError::InvalidData(slice_to_vec(s)));
            },
        };
        let hdop = match parse_decimal(fields[15].as_slice()) {
            Some(v) => v,
            None => {
                return Err(NMEAError::InvalidData(slice_to_vec(s)));
            },
        };
        let vdop = match parse_decimal(fields[16].as_slice()) {
            Some(v) => v,
            None => {
                return Err(NMEAError::InvalidData(slice_to_vec(s)));
            },
        };
        let tdop = match parse_decimal(fields[17].as_slice()) {
            Some(v) => v,
            None => {
                return Err(NMEAError::InvalidData(slice_to_vec(s)));
            },
        };
        let gps_sat_used = match parse_u8(fields[18].as_slice()) {
            Some(v) => v,
            None => {
                return Err(NMEAError::InvalidData(slice_to_vec(s)));
            },
        };
        let glonass_sat_used = match parse_u8(fields[19].as_slice()) {
            Some(v) => v,
            None => {
                return Err(NMEAError::InvalidData(slice_to_vec(s)));
            },
        };
        let dr_sat_used = match parse_u8(fields[20].as_slice()) {
            Some(v) => v,
            None => {
                return Err(NMEAError::InvalidData(slice_to_vec(s)));
            },
        };
        Ok(Pubx00Data {
            current_time: time_opt(&fields[2]),
            latitude,
            n: first_char(&fields[4]),
            longitude,
            e: first_char(&fields[6]),
            altitude,
            nav_stat,
            h_acc,
            v_acc,
            sog_kmh,
            cog,
            vvel,
            age_c: dec_opt(&fields[14]),
            hdop,
            vdop,
            tdop,
            gps_sat_used,
            glonass_sat_used,
            dr_sat_used,
        })
    }
}

impl GpsDataFromNmeaString for Pubx00Data {
    type Output = Self;

    fn from_nmea_str(data: &str) -> Result<Self, NMEAError> {
        Pubx00Data::decode(data.as_bytes())
    }
}


/// One satellite of a `PUBX,03` report.
#[derive(Clone, Debug, Default, Copy, PartialEq, Eq, Structural)]
pub struct Pubx03SatData {
    /// Satellite PRN number.
    pub prn: u16,
    /// Whether the satellite is used in the solution (`U`).
    pub used: bool,
    /// Satellite azimuth, 000 to 359 degrees.
    pub azimuth: Option<u16>,
    /// Satellite elevation, 00 to 90 degrees.
    pub elevation: Option<u16>,
    /// Signal strength, 0 to 99; blank when not tracking.
    pub snr: Option<u8>,
    /// Carrier lock time, 0 to 64 seconds.
    pub lock_time: u8,
}

/// The whole satellite report of a `PUBX,03` sentence.
#[derive(Clone, Debug, PartialEq)]
pub struct Pubx03Data {
    pub satellites: Vec<Pubx03SatData>,
}

/// The satellite count a `PUBX,03` sentence declares in its third field.
pub open spec fn pubx03_count(s: Seq<u8>) -> nat {
    dec_digits_value(uint_digits(spec_fields(s)[2]))
}

/// The satellite read from the six fields at index `3 + 6 i`.
pub open spec fn pubx03_sat(fs: Seq<Seq<u8>>, i: int) -> Pubx03SatData {
    let off = 3 + 6 * i;
    Pubx03SatData {
        prn: dec_digits_value(uint_digits(fs[off])) as u16,
        used: first_char_of(fs[off + 1]) == 'U',
        azimuth: spec_u16_opt(fs[off + 2]),
        elevation: spec_u16_opt(fs[off + 3]),
        snr: spec_u8_opt(fs[off + 4]),
        lock_time: dec_digits_value(uint_digits(fs[off + 5])) as u8,
    }
}

/// Does a sentence read as `PUBX,03`: the proprietary prefix, a count that
/// the field tally matches exactly, and, for each declared satellite, a PRN
/// and a lock time that parse? Azimuth, elevation and signal strength
/// degrade to `None` alone.
pub open spec fn pubx03_ok(s: Seq<u8>) -> bool {
    let fs = spec_fields(s);
    &&& pubx_ok(fs[0])
    &&& fs.len() >= 4
    &&& uint_in_range(fs[2], u16::MAX as nat)
    &&& fs.len() == 4 + 6 * pubx03_count(s)
    &&& forall|i: int|
        0 <= i < pubx03_count(s) ==> uint_in_range(#[trigger] fs[3 + 6 * i], u16::MAX as nat)
            && uint_in_range(fs[3 + 6 * i + 5], u8::MAX as nat)
}

/// Does a satellite report match an accepted `PUBX,03` sentence?
pub open spec fn pubx03_matches(s: Seq<u8>, d: Pubx03Data) -> bool {
    &&& d.satellites@.len() == pubx03_count(s)
    &&& forall|i: int|
        0 <= i < pubx03_count(s) ==> d.satellites@[i] == pubx03_sat(spec_fields(s), i)
}

impl Pubx03Data {
    /// Decodes a `PUBX,03` sentence given as raw bytes.
    #[verifier::loop_isolation(false)]
    pub fn decode(s: &[u8]) -> (r: Result<Pubx03Data, NMEAError>)
        ensures
            match r {
                Ok(d) => pubx03_ok(s@) && pubx03_matches(s@, d),
                Err(e) => !pubx03_ok(s@) && (e matches NMEAError::InvalidData(raw) && raw@
                    == s@),
            },
    {
        let fields = split_fields(s);
        let ghost fs = spec_fields(s@);
        proof {
            lemma_field_view(&fields, 0);
        }
        if !check_pubx(&fields[0]) || fields.len() < 4 {
            return Err(NMEAError::InvalidData(slice_to_vec(s)));
        }
        proof {
            lemma_field_view(&fields, 2);
        }
        let count = match parse_u16(fields[2].as_slice()) {
            Some(v) => v as usize,
            None => {
                return Err(NMEAError::InvalidData(slice_to_vec(s)));
            },
        };
        if fields.len() != 4 + 6 * count {
            return Err(NMEAError::InvalidData(slice_to_vec(s)));
        }
        let mut satellites: Vec<Pubx03SatData> = Vec::new();
        let mut i: usize = 0;
        while i < count
            invariant
                0 <= i <= count,
                satellites@.len() == i,
                forall|k: int|
                    0 <= k < i ==> uint_in_range(#[trigger] fs[3 + 6 * k], u16::MAX as nat)
                        && uint_in_range(fs[3 + 6 * k + 5], u8::MAX as nat),
                forall|k: int| 0 <= k < i ==> satellites@[k] == pubx03_sat(fs, k),
            decreases count - i,
        {
            let off = 3 + 6 * i;
            proof {
                lemma_field_view(&fields, off as int);
                lemma_field_view(&fields, off + 1);
                lemma_field_view(&fields, off + 2);
                lemma_field_view(&fields, off + 3);
                lemma_field_view(&fields, off + 4);
                lemma_field_view(&fields, off + 5);
            }
            let prn = match parse_u16(fields[off].as_slice()) {
                Some(v) => v,
                None => {
                    proof {
                        assert(!uint_in_range(fs[3 + 6 * (i as int)], u16::MAX as nat));
                    }
                    return Err(NMEAError::InvalidData(slice_to_vec(s)));
                },
            };
            let lock_time = match parse_u8(fields[off + 5].as_slice()) {
                Some(v) => v,
                None => {
                    proof {
                        assert(!uint_in_range(fs[3 + 6 * (i as int) + 5], u8::MAX as nat));
                    }
                    return Err(NMEAError::InvalidData(slice_to_vec(s)));
                },
            };
            satellites.push(
                Pubx03SatData {
                    prn,
                    used: first_char(&fields[off + 1]) == 'U',
                    azimuth: u16_opt(&fields[off + 2]),
                    elevation: u16_opt(&fields[off + 3]),
                    snr: u8_opt(&fields[off + 4]),
                    lock_time,
                },
            );
            i = i + 1;
        }
        Ok(Pubx03Data { satellites })
    }
}

impl GpsDataFromNmeaString for Pubx03Data {
    type Output = Self;

    fn from_nmea_str(data: &str) -> Result<Self, NMEAError> {
        Pubx03Data::decode(data.as_bytes())
    }
}

/// A field with every `D` byte removed, as the leap-second field marks the
/// firmware-default value with a `D`.
pub open spec fn strip_d(b: Seq<u8>) -> Seq<u8>
    decreases b.len(),
{
    if b.len() == 0 {
        b
    } else if b[0] == 68 {
        strip_d(b.drop_first())
    } else {
        seq![b[0]] + strip_d(b.drop_first())
    }
}

/// Removes every `D` byte from a field.
fn remove_d(f: &[u8]) -> (r: Vec<u8>)
    ensures
        r@ == strip_d(f@),
    decreases f@.len(),
{
    if f.len() == 0 {
        Vec::new()
    } else {
        let tail = &f[1..f.len()];
        proof {
            assert(tail@ =~= f@.drop_first());
        }
        let mut rest = remove_d(tail);
        if f[0] == 68 {
            rest
        } else {
            rest.insert(0, f[0]);
            proof {
                assert(rest@ =~= seq![f@[0]] + strip_d(f@.drop_first()));
            }
            rest
        }
    }
}

/// Does the field contain a `D` byte?
#[verifier::loop_isolation(false)]
fn contains_d(f: &[u8]) -> (r: bool)
    ensures
        r == f@.contains(68u8),
{
    let mut i: usize = 0;
    while i < f.len()
        invariant
            0 <= i <= f@.len(),
            forall|k: int| 0 <= k < i ==> f@[k] != 68,
        decreases f@.len() - i,
    {
        if f[i] == 68 {
            return true;
        }
        i = i + 1;
    }
    false
}

/// u-blox time-of-day and clock data, from a `PUBX,04` sentence.
#[derive(Clone, Debug, Copy, PartialEq)]
pub struct Pubx04Data {
    /// UTC time of day, `hhmmss.ss`.
    pub current_time: Option<GpsTime>,
    /// UTC date, `ddmmyy`.
    pub current_date: Option<GpsDate>,
    /// UTC time of week, seconds.
    pub time_of_week: FixedPoint,
    /// UTC week number.
    pub week_number: Option<u16>,
    /// Leap seconds, with a flag set when the value is the firmware
    /// default, which the receiver marks with a `D`.
    pub leap_seconds: Option<(u8, bool)>,
    /// Receiver clock bias, ns.
    pub clock_bias: FixedPoint,
    /// Receiver clock drift, ns/s.
    pub clock_drift: FixedPoint,
    /// Timepulse granularity, ns.
    pub timepulse_granularity: FixedPoint,
}

/// Does a sentence read as `PUBX,04`: the proprietary prefix, at least ten
/// fields, and the time of week, leap seconds, clock bias, clock drift and
/// timepulse granularity well formed?
pub open spec fn pubx04_ok(s: Seq<u8>) -> bool {
    let fs = spec_fields(s);
    &&& pubx_ok(fs[0])
    &&& fs.len() >= 10
    &&& dec_field_ok(fs[4])
    &&& uint_in_range(strip_d(fs[6]), u8::MAX as nat)
    &&& dec_field_ok(fs[7])
    &&& dec_field_ok(fs[8])
    &&& dec_field_ok(fs[9])
}

/// The clock record of an accepted `PUBX,04` sentence.
pub open spec fn pubx04_value(s: Seq<u8>) -> Pubx04Data {
    let fs = spec_fields(s);
    Pubx04Data {
        current_time: spec_time_opt(fs[2]),
        current_date: spec_date_opt(fs[3]),
        time_of_week: dec_field_value(fs[4]),
        week_number: spec_u16_opt(fs[5]),
        leap_seconds: Some(
            (dec_digits_value(uint_digits(strip_d(fs[6]))) as u8, fs[6].contains(68u8)),
        ),
        clock_bias: dec_field_value(fs[7]),
        clock_drift: dec_field_value(fs[8]),
        timepulse_granularity: dec_field_value(fs[9]),
    }
}

impl Pubx04Data {
    /// Decodes a `PUBX,04` sentence given as raw bytes.
    pub fn decode(s: &[u8]) -> (r: Result<Pubx04Data, NMEAError>)
        ensures
            match r {
                Ok(d) => pubx04_ok(s@) && d == pubx04_value(s@),
                Err(e) => !pubx04_ok(s@) && (e matches NMEAError::InvalidData(raw) && raw@
                    == s@),
            },
    {
        let fields = split_fields(s);
        proof {
            lemma_field_view(&fields, 0);
        }
        if !check_pubx(&fields[0]) || fields.len() < 10 {
            return Err(NMEAError::InvalidData(slice_to_vec(s)));
        }
        proof {
            lemma_field_view(&fields, 2);
            lemma_field_view(&fields, 3);
            lemma_field_view(&fields, 4);
            lemma_field_view(&fields, 5);
            lemma_field_view(&fields, 6);
            lemma_field_view(&fields, 7);
            lemma_field_view(&fields, 8);
            lemma_field_view(&fields, 9);
        }
        let time_of_week = match parse_decimal(fields[4].as_slice()) {
            Some(v) => v,
            None => {
                return Err(NMEAError::InvalidData(slice_to_vec(s)));
            },
        };
        let stripped = remove_d(fields[6].as_slice());
        let leap_value = match parse_u8(stripped.as_slice()) {
            Some(v) => v,
            None => {
                return Err(NMEAError::InvalidData(slice_to_vec(s)));
            },
        };
        let leap_default = contains_d(fields[6].as_slice());
        let clock_bias = match parse_decimal(fields[7].as_slice()) {
            Some(v) => v,
            None => {
                return Err(NMEAError::InvalidData(slice_to_vec(s)));
            },
        };
        let clock_drift = match parse_decimal(fields[8].as_slice()) {
            Some(v) => v,
            None => {
                return Err(NMEAError::InvalidData(slice_to_vec(s)));
            },
        };
        let timepulse_granularity = match parse_decimal(fields[9].as_slice()) {
            Some(v) => v,
            None => {
                return Err(NMEAError::InvalidData(slice_to_vec(s)));
            },
        };
        Ok(Pubx04Data {
            current_time: time_opt(&fields[2]),
            current_date: date_opt(&fields[3]),
            time_of_week,
            week_number: u16_opt(&fields[5]),
            leap_seconds: Some((leap_value, leap_default)),
            clock_bias,
            clock_drift,
            timepulse_granularity,
        })
    }
}

impl GpsDataFromNmeaString for Pubx04Data {
    type Output = Self;

    fn from_nmea_str(data: &str) -> Result<Self, NMEAError> {
        Pubx04Data::decode(data.as_bytes())
    }
}

/// A decoded NMEA sentence: one variant for each supported kind, and one
/// for anything else, carrying the raw bytes.
#[derive(Clone, Debug, PartialEq)]
pub enum NMEASentenceType {
    /// GPS pseudorange noise statistics.
    GST(GstData),
    /// GPS DOP and active satellites.
    GSA(GsaData),
    /// Satellites in view.
    GSV(GsvDataCollection),
    /// u-blox position data.
    PUBX00(Pubx00Data),
    /// u-blox satellite status.
    PUBX03(Pubx03Data),
    /// u-blox time-of-day and clock data.
    PUBX04(Pubx04Data),
    /// A sentence of a kind this engine does not decode.
    Unsupported(Vec<u8>),
}

/// Splits a sentence into its fields: the pieces between commas, with `*`
/// treated as one more field terminator.
pub fn nmea_str_to_vec(data: &str) -> (r: Vec<Vec<u8>>)
    ensures
        r.deep_view() == spec_fields(data.spec_bytes()),
        r@.len() >= 1,
{
    split_fields(data.as_bytes())
}

} // verus!
