//! The live navigation snapshot: every field independently optional, so
//! that "not yet observed" stays distinct from "observed as zero", and the
//! aggregation of decoded sentences into it.

use vstd::prelude::*;
use crate::datetime::GpsDate;
use crate::datetime::GpsDateTime;
use crate::datetime::today_utc;
use crate::dms::GPSDMS;
use crate::nmea_data::NMEASentenceType;
use crate::nmea_data::Pubx03SatData;
use crate::nmea_types::GpsNavigationStatus;
use crate::num::FixedPoint;

verus! {

/// A satellite record of the live snapshot.
pub type GPSSatInfo = Pubx03SatData;

/// The aggregated navigation state. Each field is `None` until a sentence
/// has reported it.
#[derive(Clone, Debug, Default, PartialEq)]
pub struct GPSInfo {
    /// UTC date and time of day.
    pub current_time: Option<GpsDateTime>,
    /// Latitude magnitude with its `N`/`S` hemisphere.
    pub latitude: Option<(GPSDMS, char)>,
    /// Longitude magnitude with its `E`/`W` hemisphere.
    pub longitude: Option<(GPSDMS, char)>,
    /// Altitude above the user datum ellipsoid, meters.
    pub altitude: Option<FixedPoint>,
    /// Navigation fix status.
    pub nav_stat: Option<GpsNavigationStatus>,
    /// Horizontal accuracy estimate.
    pub h_acc: Option<FixedPoint>,
    /// Vertical accuracy estimate.
    pub v_acc: Option<FixedPoint>,
    /// Speed over ground, km/h.
    pub sog_kmh: Option<FixedPoint>,
    /// Course over ground, degrees.
    pub cog: Option<FixedPoint>,
    /// Vertical velocity, positive downward, m/s.
    pub vvel: Option<FixedPoint>,
    /// Age of the most recent DGPS corrections.
    pub age_c: Option<FixedPoint>,
    /// Horizontal dilution of precision.
    pub hdop: Option<FixedPoint>,
    /// Vertical dilution of precision.
    pub vdop: Option<FixedPoint>,
    /// Time dilution of precision.
    pub tdop: Option<FixedPoint>,
    /// Per-satellite records, replaced whole by each satellite report.
    pub satellites: Vec<GPSSatInfo>,
    /// Receiver clock bias, ns.
    pub clock_bias: Option<FixedPoint>,
    /// Receiver clock drift, ns/s.
    pub clock_drift: Option<FixedPoint>,
    /// Timepulse granularity, ns.
    pub timepulse_granularity: Option<FixedPoint>,
}

/// Do two snapshots agree on the timestamp?
pub open spec fn same_time(a: GPSInfo, b: GPSInfo) -> bool {
    a.current_time == b.current_time
}

/// Do two snapshots agree on every position, velocity, accuracy and DOP
/// field: the group that a position sentence overwrites together?
pub open spec fn same_position(a: GPSInfo, b: GPSInfo) -> bool {
    &&& a.latitude == b.latitude
    &&& a.longitude == b.longitude
    &&& a.altitude == b.altitude
    &&& a.nav_stat == b.nav_stat
    &&& a.h_acc == b.h_acc
    &&& a.v_acc == b.v_acc
    &&& a.sog_kmh == b.sog_kmh
    &&& a.cog == b.cog
    &&& a.vvel == b.vvel
    &&& a.age_c == b.age_c
    &&& a.hdop == b.hdop
    &&& a.vdop == b.vdop
    &&& a.tdop == b.tdop
}

/// Do two snapshots agree on the satellite list?
pub open spec fn same_satellites(a: GPSInfo, b: GPSInfo) -> bool {
    a.satellites@ == b.satellites@
}

/// Do two snapshots agree on the clock group: bias, drift and timepulse
/// granularity?
pub open spec fn same_clock(a: GPSInfo, b: GPSInfo) -> bool {
    &&& a.clock_bias == b.clock_bias
    &&& a.clock_drift == b.clock_drift
    &&& a.timepulse_granularity == b.timepulse_granularity
}

/// Do two snapshots agree on every field?
pub open spec fn same_info(a: GPSInfo, b: GPSInfo) -> bool {
    same_time(a, b) && same_position(a, b) && same_satellites(a, b) && same_clock(a, b)
}

/// How one decoded sentence turns the snapshot `old` into `new`, with
/// `today` standing in for the host's date.
///
/// A position sentence overwrites the whole position group and, only until
/// a date has been observed, fills the timestamp from `today` and its time
/// of day. A satellite report replaces the satellite list whole. A clock
/// sentence overwrites the timestamp and the clock group. Every other
/// sentence, a supported one included, leaves the snapshot unchanged.
pub open spec fn updated_from(old: GPSInfo, new: GPSInfo, s: NMEASentenceType, today: GpsDate) -> bool {
    match s {
        NMEASentenceType::PUBX00(d) => {
            &&& same_satellites(new, old)
            &&& same_clock(new, old)
            &&& new.current_time == (if old.current_time is None && d.current_time is Some {
                Some(GpsDateTime { date: today, time: d.current_time.unwrap() })
            } else {
                old.current_time
            })
            &&& new.latitude == Some((d.latitude, d.n))
            &&& new.longitude == Some((d.longitude, d.e))
            &&& new.altitude == Some(d.altitude)
            &&& new.nav_stat == Some(d.nav_stat)
            &&& new.h_acc == Some(d.h_acc)
            &&& new.v_acc == Some(d.v_acc)
            &&& new.sog_kmh == Some(d.sog_kmh)
            &&& new.cog == Some(d.cog)
            &&& new.vvel == Some(d.vvel)
            &&& new.age_c == d.age_c
            &&& new.hdop == Some(d.hdop)
            &&& new.vdop == Some(d.vdop)
            &&& new.tdop == Some(d.tdop)
        },
        NMEASentenceType::PUBX03(d) => {
            &&& same_time(new, old)
            &&& same_position(new, old)
            &&& same_clock(new, old)
            &&& new.satellites@ == d.satellites@
        },
        NMEASentenceType::PUBX04(d) => {
            &&& same_position(new, old)
            &&& same_satellites(new, old)
            &&& new.current_time == (if d.current_date is Some && d.current_time is Some {
                Some(GpsDateTime { date: d.current_date.unwrap(), time: d.current_time.unwrap() })
            } else {
                old.current_time
            })
            &&& new.clock_bias == Some(d.clock_bias)
            &&& new.clock_drift == Some(d.clock_drift)
            &&& new.timepulse_granularity == Some(d.timepulse_granularity)
        },
        _ => same_info(new, old),
    }
}

/// Copies a satellite list element by element.
#[verifier::loop_isolation(false)]
fn copy_satellites(src: &Vec<GPSSatInfo>) -> (r: Vec<GPSSatInfo>)
    ensures
        r@ == src@,
{
    let mut r: Vec<GPSSatInfo> = Vec::new();
    let mut i: usize = 0;
    while i < src.len()
        invariant
            0 <= i <= src@.len(),
            r@ =~= src@.take(i as int),
        decreases src@.len() - i,
    {
        r.push(*src.get(i).unwrap());
        proof {
            assert(src@.take(i + 1) =~= src@.take(i as int).push(src@[i as int]));
        }
        i = i + 1;
    }
    proof {
        assert(src@.take(src@.len() as int) =~= src@);
    }
    r
}

impl GPSInfo {
    /// A snapshot with every field unobserved.
    pub fn empty() -> (r: GPSInfo)
        ensures
            r.current_time is None,
            r.latitude is None,
            r.longitude is None,
            r.altitude is None,
            r.nav_stat is None,
            r.h_acc is None,
            r.v_acc is None,
            r.sog_kmh is None,
            r.cog is None,
            r.vvel is None,
            r.age_c is None,
            r.hdop is None,
            r.vdop is None,
            r.tdop is None,
            r.satellites@.len() == 0,
            r.clock_bias is None,
            r.clock_drift is None,
            r.timepulse_granularity is None,
    {
        GPSInfo {
            current_time: None,
            latitude: None,
            longitude: None,
            altitude: None,
            nav_stat: None,
            h_acc: None,
            v_acc: None,
            sog_kmh: None,
            cog: None,
            vvel: None,
            age_c: None,
            hdop: None,
            vdop: None,
            tdop: None,
            satellites: Vec::new(),
            clock_bias: None,
            clock_drift: None,
            timepulse_granularity: None,
        }
    }

    /// A field-by-field copy of the snapshot.
    pub fn duplicate(&self) -> (r: GPSInfo)
        ensures
            same_info(r, *self),
    {
        GPSInfo {
            current_time: self.current_time,
            latitude: self.latitude,
            longitude: self.longitude,
            altitude: self.altitude,
            nav_stat: self.nav_stat,
            h_acc: self.h_acc,
            v_acc: self.v_acc,
            sog_kmh: self.sog_kmh,
            cog: self.cog,
            vvel: self.vvel,
            age_c: self.age_c,
            hdop: self.hdop,
            vdop: self.vdop,
            tdop: self.tdop,
            satellites: copy_satellites(&self.satellites),
            clock_bias: self.clock_bias,
            clock_drift: self.clock_drift,
            timepulse_granularity: self.timepulse_granularity,
        }
    }

    /// Merges one decoded sentence into the snapshot, taking the host's
    /// date for a position sentence seen before any date.
    pub fn update_from_nmea_sentence_at(&mut self, sentence: &NMEASentenceType, today: GpsDate)
        ensures
            updated_from(*old(self), *final(self), *sentence, today),
    {
        match sentence {
            NMEASentenceType::PUBX00(data) => {
                if self.current_time.is_none() && data.current_time.is_some() {
                    self.current_time = Some(
                        GpsDateTime { date: today, time: data.current_time.unwrap() },
                    );
                }
                self.latitude = Some((data.latitude, data.n));
                self.longitude = Some((data.longitude, data.e));
                self.altitude = Some(data.altitude);
                self.nav_stat = Some(data.nav_stat);
                self.h_acc = Some(data.h_acc);
                self.v_acc = Some(data.v_acc);
                self.sog_kmh = Some(data.sog_kmh);
                self.cog = Some(data.cog);
                self.vvel = Some(data.vvel);
                self.age_c = data.age_c;
                self.hdop = Some(data.hdop);
                self.vdop = Some(data.vdop);
                self.tdop = Some(data.tdop);
            },
            NMEASentenceType::PUBX03(data) => {
                self.satellites = copy_satellites(&data.satellites);
            },
            NMEASentenceType::PUBX04(data) => {
                if data.current_date.is_some() && data.current_time.is_some() {
                    self.current_time = Some(
                        GpsDateTime {
                            date: data.current_date.unwrap(),
                            time: data.current_time.unwrap(),
                        },
                    );
                }
                self.clock_bias = Some(data.clock_bias);
                self.clock_drift = Some(data.clock_drift);
                self.timepulse_granularity = Some(data.timepulse_granularity);
            },
            _ => {
                // Every other kind is dropped: a documented simplification.
            },
        }
    }

    /// Merges one decoded sentence into the snapshot, reading the host's
    /// wall clock for the date. Whatever date the clock gave, the rest of
    /// the update is that of [Self::update_from_nmea_sentence_at].
    pub fn update_from_nmea_sentence(&mut self, sentence: &NMEASentenceType)
        ensures
            exists|d: GpsDate|
                #[trigger] d.wf() && updated_from(*old(self), *final(self), *sentence, d),
    {
        let today = today_utc();
        self.update_from_nmea_sentence_at(sentence, today);
    }

    /// Whether the receiver reports a positional fix: a navigation status
    /// that has been observed and is not `NoFix`.
    pub fn has_lock(&self) -> (r: bool)
        ensures
            r == (self.nav_stat is Some && self.nav_stat != Some(GpsNavigationStatus::NoFix)),
    {
        match self.nav_stat {
            Some(GpsNavigationStatus::NoFix) => false,
            Some(_) => true,
            None => false,
        }
    }
}


/// The field groups of the snapshot move independently, and each sentence
/// kind fills only its own. From a snapshot whose satellite list and clock
/// group are unobserved: a position report alone leaves them so while it
/// fills the position group; a satellite report and then a clock report
/// leave the position group standing, so that one snapshot then carries
/// all three groups at once.
pub proof fn lemma_groups_populate_in_order(
    i0: GPSInfo,
    i1: GPSInfo,
    i2: GPSInfo,
    i3: GPSInfo,
    d0: crate::nmea_data::Pubx00Data,
    d3: crate::nmea_data::Pubx03Data,
    d4: crate::nmea_data::Pubx04Data,
    t0: GpsDate,
    t1: GpsDate,
    t2: GpsDate,
)
    requires
        i0.satellites@.len() == 0,
        i0.clock_bias is None,
        i0.clock_drift is None,
        i0.timepulse_granularity is None,
        updated_from(i0, i1, NMEASentenceType::PUBX00(d0), t0),
        updated_from(i1, i2, NMEASentenceType::PUBX03(d3), t1),
        updated_from(i2, i3, NMEASentenceType::PUBX04(d4), t2),
    ensures
        i1.satellites@.len() == 0,
        i1.clock_bias is None,
        i1.latitude is Some,
        i1.nav_stat is Some,
        i3.latitude == i1.latitude,
        i3.nav_stat == i1.nav_stat,
        i3.satellites@ == d3.satellites@,
        i3.clock_bias is Some,
        i3.clock_drift is Some,
        i3.timepulse_granularity is Some,
{
}

} // verus!
