//! The small NMEA vocabulary types: error classification, talker IDs, FAA
//! modes, fix-quality and navigation-status codes.

use vstd::prelude::*;
use vstd::slice::slice_to_vec;
use vstd::string::*;

verus! {

/// How a candidate NMEA line was classified when it could not be decoded
/// whole. The partial variants are not failures: they are the intermediate
/// states of sentence reassembly across short reads, carrying the raw
/// fragment.
#[derive(Debug, Clone, PartialEq)]
pub enum NMEAError {
    /// Malformed data, carrying the offending raw bytes.
    InvalidData(Vec<u8>),
    /// An unknown mode letter, carrying the offending raw bytes.
    InvalidMode(Vec<u8>),
    /// A line that starts a sentence (`$...`) without ending it.
    PartialStart(Vec<u8>),
    /// A continuation of a sentence started earlier.
    Partial(Vec<u8>),
    /// A line that ends a sentence started earlier (`...*HH`).
    PartialEnd(Vec<u8>),
}

/// The two-character prefix that names the transmitting unit of a sentence.
#[derive(Debug, Clone, PartialEq)]
pub enum NMEATalkerID {
    /// BeiDou (China) - `$BD`
    Beidou,
    /// Galileo Positioning System - `$GA`
    Galileo,
    /// GLONASS - `$GL`
    Glonass,
    /// Combination of multiple satellite systems - `$GN`
    Combination,
    /// Global Positioning System receiver - `$GP`
    Gps,
    /// NavIC, IRNSS (India) - `$GI`
    Navic,
    /// QZSS regional GPS augmentation system (Japan) - `$GQ`
    Qzss,
    /// Any other prefix.
    Unknown(String),
}

/// Signal-integrity mode carried by several NMEA sentences.
#[derive(Clone, Debug, PartialEq)]
pub enum FAAModeType {
    Autonomous,
    Caution,
    Differential,
    Estimated,
    RTKFloat,
    ManualInput,
    DataNotValid,
    Precise,
    RTKInteger,
    Simulated,
    Unsafe,
    Unknown(String),
}

/// An FAA mode: its letter, its kind, and a description in words.
#[derive(Clone, Debug, PartialEq)]
pub struct FAAMode {
    pub mode: String,
    pub mode_type: FAAModeType,
    pub description: String,
}

/// The FAA mode kind named by a one-letter field, if any.
pub open spec fn faa_type_for(b: Seq<u8>) -> Option<FAAModeType> {
    if b =~= seq![65u8] {
        Some(FAAModeType::Autonomous)
    } else if b =~= seq![67u8] {
        Some(FAAModeType::Caution)
    } else if b =~= seq![68u8] {
        Some(FAAModeType::Differential)
    } else if b =~= seq![69u8] {
        Some(FAAModeType::Estimated)
    } else if b =~= seq![70u8] {
        Some(FAAModeType::RTKFloat)
    } else if b =~= seq![77u8] {
        Some(FAAModeType::ManualInput)
    } else if b =~= seq![78u8] {
        Some(FAAModeType::DataNotValid)
    } else if b =~= seq![80u8] {
        Some(FAAModeType::Precise)
    } else if b =~= seq![82u8] {
        Some(FAAModeType::RTKInteger)
    } else if b =~= seq![83u8] {
        Some(FAAModeType::Simulated)
    } else if b =~= seq![85u8] {
        Some(FAAModeType::Unsafe)
    } else {
        None
    }
}

/// The letter that spells a known FAA mode kind.
pub open spec fn faa_letter(t: FAAModeType) -> Seq<char> {
    match t {
        FAAModeType::Autonomous => "A"@,
        FAAModeType::Caution => "C"@,
        FAAModeType::Differential => "D"@,
        FAAModeType::Estimated => "E"@,
        FAAModeType::RTKFloat => "F"@,
        FAAModeType::ManualInput => "M"@,
        FAAModeType::DataNotValid => "N"@,
        FAAModeType::Precise => "P"@,
        FAAModeType::RTKInteger => "R"@,
        FAAModeType::Simulated => "S"@,
        FAAModeType::Unsafe => "U"@,
        FAAModeType::Unknown(s) => s@,
    }
}

impl FAAMode {
    /// A mode letter and kind that agree, for every known kind.
    pub open spec fn wf_known(&self) -> bool {
        !(self.mode_type matches FAAModeType::Unknown(_)) && self.mode@ == faa_letter(
            self.mode_type,
        )
    }

    /// Creates the FAA mode named by a one-letter field.
    pub fn from(mode: &str) -> (r: Result<Self, NMEAError>)
        ensures
            match r {
                Ok(m) => faa_type_for(mode.spec_bytes()) == Some(m.mode_type) && m.wf_known(),
                Err(e) => faa_type_for(mode.spec_bytes()) is None && (e matches
                    NMEAError::InvalidMode(raw) && raw@ == mode.spec_bytes()),
            },
    {
        let b = mode.as_bytes();
        if b.len() != 1 {
            let raw = mode.as_bytes_vec();
            return Err(NMEAError::InvalidMode(raw));
        }
        let c = b[0];
        proof {
            assert(c == mode.spec_bytes()[0]);
            assert(seq![c] =~= mode.spec_bytes());
        }
        match c {
            65 => Ok(Self::new_as_autonomous()),
            67 => Ok(Self::new_as_caution()),
            68 => Ok(Self::new_as_differential()),
            69 => Ok(Self::new_as_estimated()),
            70 => Ok(Self::new_as_rtk_float()),
            77 => Ok(Self::new_as_manual_input()),
            78 => Ok(Self::new_as_data_not_valid()),
            80 => Ok(Self::new_as_precise()),
            82 => Ok(Self::new_as_rtk_integer()),
            83 => Ok(Self::new_as_simulated()),
            85 => Ok(Self::new_as_unsafe()),
            _ => Err(NMEAError::InvalidMode(mode.as_bytes_vec())),
        }
    }

    /// Returns the FAA mode of a given kind.
    pub fn from_mode(mode_type: &FAAModeType) -> (r: Self)
        ensures
            match mode_type {
                FAAModeType::Unknown(s) => r.mode@ == s@ && r.mode_type == FAAModeType::Unsafe,
                _ => r.mode_type == *mode_type && r.wf_known(),
            },
    {
        match mode_type {
            FAAModeType::Autonomous => Self::new_as_autonomous(),
            FAAModeType::Caution => Self::new_as_caution(),
            FAAModeType::Differential => Self::new_as_differential(),
            FAAModeType::Estimated => Self::new_as_estimated(),
            FAAModeType::RTKFloat => Self::new_as_rtk_float(),
            FAAModeType::ManualInput => Self::new_as_manual_input(),
            FAAModeType::DataNotValid => Self::new_as_data_not_valid(),
            FAAModeType::Precise => Self::new_as_precise(),
            FAAModeType::RTKInteger => Self::new_as_rtk_integer(),
            FAAModeType::Simulated => Self::new_as_simulated(),
            FAAModeType::Unsafe => Self::new_as_unsafe(),
            FAAModeType::Unknown(s) => Self::new_as_unknown(s),
        }
    }

    pub fn new_as_autonomous() -> (r: Self)
        ensures
            r.mode_type == FAAModeType::Autonomous,
            r.wf_known(),
            r.description@ == "Autonomous mode"@,
    {
        Self {
            mode: String::from_str("A"),
            mode_type: FAAModeType::Autonomous,
            description: String::from_str("Autonomous mode"),
        }
    }

    pub fn new_as_caution() -> (r: Self)
        ensures
            r.mode_type == FAAModeType::Caution,
            r.wf_known(),
            r.description@ == "Quectel Querk, \"Caution\" mode"@,
    {
        Self {
            mode: String::from_str("C"),
            mode_type: FAAModeType::Caution,
            description: String::from_str("Quectel Querk, \"Caution\" mode"),
        }
    }

    pub fn new_as_differential() -> (r: Self)
        ensures
            r.mode_type == FAAModeType::Differential,
            r.wf_known(),
            r.description@ == "Differential Mode"@,
    {
        Self {
            mode: String::from_str("D"),
            mode_type: FAAModeType::Differential,
            description: String::from_str("Differential Mode"),
        }
    }

    pub fn new_as_estimated() -> (r: Self)
        ensures
            r.mode_type == FAAModeType::Estimated,
            r.wf_known(),
            r.description@ == "Estimated (dead-reckoning) mode"@,
    {
        Self {
            mode: String::from_str("E"),
            mode_type: FAAModeType::Estimated,
            description: String::from_str("Estimated (dead-reckoning) mode"),
        }
    }

    pub fn new_as_rtk_float() -> (r: Self)
        ensures
            r.mode_type == FAAModeType::RTKFloat,
            r.wf_known(),
            r.description@ == "RTK Float mode"@,
    {
        Self {
            mode: String::from_str("F"),
            mode_type: FAAModeType::RTKFloat,
            description: String::from_str("RTK Float mode"),
        }
    }

    pub fn new_as_manual_input() -> (r: Self)
        ensures
            r.mode_type == FAAModeType::ManualInput,
            r.wf_known(),
            r.description@ == "Manual Input Mode"@,
    {
        Self {
            mode: String::from_str("M"),
            mode_type: FAAModeType::ManualInput,
            description: String::from_str("Manual Input Mode"),
        }
    }

    pub fn new_as_data_not_valid() -> (r: Self)
        ensures
            r.mode_type == FAAModeType::DataNotValid,
            r.wf_known(),
            r.description@ == "Data Not Valid"@,
    {
        Self {
            mode: String::from_str("N"),
            mode_type: FAAModeType::DataNotValid,
            description: String::from_str("Data Not Valid"),
        }
    }

    pub fn new_as_precise() -> (r: Self)
        ensures
            r.mode_type == FAAModeType::Precise,
            r.wf_known(),
            r.description@ == "Precise (4.00 and later)"@,
    {
        Self {
            mode: String::from_str("P"),
            mode_type: FAAModeType::Precise,
            description: String::from_str("Precise (4.00 and later)"),
        }
    }

    pub fn new_as_rtk_integer() -> (r: Self)
        ensures
            r.mode_type == FAAModeType::RTKInteger,
            r.wf_known(),
            r.description@ == "RTK Integer mode"@,
    {
        Self {
            mode: String::from_str("R"),
            mode_type: FAAModeType::RTKInteger,
            description: String::from_str("RTK Integer mode"),
        }
    }

    pub fn new_as_simulated() -> (r: Self)
        ensures
            r.mode_type == FAAModeType::Simulated,
            r.wf_known(),
            r.description@ == "Simulated Mode"@,
    {
        Self {
            mode: String::from_str("S"),
            mode_type: FAAModeType::Simulated,
            description: String::from_str("Simulated Mode"),
        }
    }

    pub fn new_as_unsafe() -> (r: Self)
        ensures
            r.mode_type == FAAModeType::Unsafe,
            r.wf_known(),
            r.description@ == "Quectel Querk, \"Unsafe\""@,
    {
        Self {
            mode: String::from_str("U"),
            mode_type: FAAModeType::Unsafe,
            description: String::from_str("Quectel Querk, \"Unsafe\""),
        }
    }

    /// An unrecognised mode letter keeps its text; its kind falls back to
    /// `Unsafe`.
    pub fn new_as_unknown(value: &String) -> (r: Self)
        ensures
            r.mode@ == value@,
            r.mode_type == FAAModeType::Unsafe,
            r.description@ == "Unknown mode: "@ + value@,
    {
        let mode = value.clone();
        let description = String::from_str("Unknown mode: ").concat(value.as_str());
        Self { mode, mode_type: FAAModeType::Unsafe, description }
    }
}

/// Fix quality reported by a GGA sentence.
#[derive(Clone, Debug, PartialEq)]
pub enum GgaQualityIndicator {
    FixNotAvailable,
    GpsFix,
    DifferentialGpsFix,
    PPSFix,
    RTKInteger,
    RTKFloat,
    Estimate,
    ManualInputMode,
    SimulationMode,
}

/// Selection mode of a GSA sentence.
#[derive(Debug, Clone, PartialEq)]
pub enum GsaSelectionMode {
    /// Forced to operate in 2D or 3D.
    Manual,
    /// Automatic, 2D/3D.
    Automatic,
    /// Any other selection-mode field, kept as its raw bytes.
    Unknown(Vec<u8>),
}

/// Fix mode of a GSA sentence.
#[derive(Debug, Clone, PartialEq)]
pub enum GsaMode {
    /// 1 = no fix.
    ModeNone,
    /// 2 = 2D fix.
    Mode2D,
    /// 3 = 3D fix.
    Mode3D,
    /// Any other mode field, kept as its raw bytes.
    Unknown(Vec<u8>),
}

/// System ID that NMEA 4.1+ receivers append before the checksum.
#[derive(Debug, Clone, PartialEq)]
pub enum SystemID {
    GPS,
    GLONASS,
    Galileo,
    BeiDou,
    /// Any other system-ID field, kept as its raw bytes.
    Unknown(Vec<u8>),
}

/// Navigation status reported by a PUBX,00 sentence.
#[derive(Clone, Debug, Copy, PartialEq, Eq, Structural)]
pub enum GpsNavigationStatus {
    /// `NF`: no fix.
    NoFix,
    /// `DR`: dead reckoning only solution.
    DeadReckoningOnly,
    /// `G2`: stand alone 2D solution.
    StandAlone2D,
    /// `G3`: stand alone 3D solution.
    StandAlone3D,
    /// `D2`: differential 2D solution.
    Differential2D,
    /// `D3`: differential 3D solution.
    Differential3D,
    /// `RK`: combined GPS and dead reckoning solution.
    CombinedRKGPSDeadReckoning,
    /// `TT`: time only solution.
    TimeOnly,
}

/// The navigation status named by a two-letter field, if any.
pub open spec fn nav_status_of(b: Seq<u8>) -> Option<GpsNavigationStatus> {
    if b =~= seq![78u8, 70u8] {
        Some(GpsNavigationStatus::NoFix)
    } else if b =~= seq![68u8, 82u8] {
        Some(GpsNavigationStatus::DeadReckoningOnly)
    } else if b =~= seq![71u8, 50u8] {
        Some(GpsNavigationStatus::StandAlone2D)
    } else if b =~= seq![71u8, 51u8] {
        Some(GpsNavigationStatus::StandAlone3D)
    } else if b =~= seq![68u8, 50u8] {
        Some(GpsNavigationStatus::Differential2D)
    } else if b =~= seq![68u8, 51u8] {
        Some(GpsNavigationStatus::Differential3D)
    } else if b =~= seq![82u8, 75u8] {
        Some(GpsNavigationStatus::CombinedRKGPSDeadReckoning)
    } else if b =~= seq![84u8, 84u8] {
        Some(GpsNavigationStatus::TimeOnly)
    } else {
        None
    }
}

impl GpsNavigationStatus {
    /// Reads a navigation-status field.
    pub fn from_str(s: &str) -> (r: Result<GpsNavigationStatus, NMEAError>)
        ensures
            match r {
                Ok(v) => nav_status_of(s.spec_bytes()) == Some(v),
                Err(e) => nav_status_of(s.spec_bytes()) is None && (e matches
                    NMEAError::InvalidData(raw) && raw@ == s.spec_bytes()),
            },
    {
        let b = s.as_bytes();
        Self::from_field(b)
    }

    /// Reads a navigation-status field given as raw bytes.
    pub fn from_field(b: &[u8]) -> (r: Result<GpsNavigationStatus, NMEAError>)
        ensures
            match r {
                Ok(v) => nav_status_of(b@) == Some(v),
                Err(e) => nav_status_of(b@) is None && (e matches NMEAError::InvalidData(raw)
                    && raw@ == b@),
            },
    {
        if b.len() != 2 {
            return Err(NMEAError::InvalidData(slice_to_vec(b)));
        }
        let c0 = b[0];
        let c1 = b[1];
        proof {
            assert(b@ =~= seq![c0, c1]);
        }
        if c0 == 78 && c1 == 70 {
            Ok(GpsNavigationStatus::NoFix)
        } else if c0 == 68 && c1 == 82 {
            Ok(GpsNavigationStatus::DeadReckoningOnly)
        } else if c0 == 71 && c1 == 50 {
            Ok(GpsNavigationStatus::StandAlone2D)
        } else if c0 == 71 && c1 == 51 {
            Ok(GpsNavigationStatus::StandAlone3D)
        } else if c0 == 68 && c1 == 50 {
            Ok(GpsNavigationStatus::Differential2D)
        } else if c0 == 68 && c1 == 51 {
            Ok(GpsNavigationStatus::Differential3D)
        } else if c0 == 82 && c1 == 75 {
            Ok(GpsNavigationStatus::CombinedRKGPSDeadReckoning)
        } else if c0 == 84 && c1 == 84 {
            Ok(GpsNavigationStatus::TimeOnly)
        } else {
            Err(NMEAError::InvalidData(slice_to_vec(b)))
        }
    }
}

} // verus!
