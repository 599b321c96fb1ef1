//! The NMEA sentence: a validated line of ASCII text, classified on arrival
//! as complete or partial, and dispatched to its field decoder by prefix.

use vstd::prelude::*;
use vstd::slice::slice_to_vec;
use vstd::string::*;
use crate::fields::lemma_field_view;
use crate::fields::spec_fields;
use crate::fields::spec_lines;
use crate::fields::spec_remove_crlf;
use crate::fields::split_fields;
use crate::fields::split_lines;
use crate::fields::remove_crlf;
use crate::nmea_data::GsaData;
use crate::nmea_data::GstData;
use crate::nmea_data::GsvDataCollection;
use crate::nmea_data::NMEASentenceType;
use crate::nmea_data::Pubx00Data;
use crate::nmea_data::Pubx03Data;
use crate::nmea_data::Pubx04Data;
use crate::nmea_data::gsa_matches;
use crate::nmea_data::gsa_ok;
use crate::nmea_data::gst_ok;
use crate::nmea_data::gst_value;
use crate::nmea_data::gsv_collection_matches;
use crate::nmea_data::gsv_collection_ok;
use crate::nmea_data::pubx00_ok;
use crate::nmea_data::pubx00_value;
use crate::nmea_data::pubx03_matches;
use crate::nmea_data::pubx03_ok;
use crate::nmea_data::pubx04_ok;
use crate::nmea_data::pubx04_value;
use crate::nmea_types::NMEAError;

verus! {

/// Does a line start a sentence: a `$` in its first position?
pub open spec fn is_sentence_start(l: Seq<u8>) -> bool {
    l.len() > 0 && l[0] == 36
}

/// Is `b` an ASCII hexadecimal digit?
pub open spec fn is_hex_digit(b: u8) -> bool {
    (48 <= b <= 57) || (65 <= b <= 70) || (97 <= b <= 102)
}

/// Does a line carry a checksum marker: a `*` followed by two hexadecimal
/// digits, anywhere in the line?
pub open spec fn has_checksum(l: Seq<u8>) -> bool {
    exists|i: int|
        0 <= i && i + 3 <= l.len() && #[trigger] l[i] == 42 && is_hex_digit(l[i + 1])
            && is_hex_digit(l[i + 2])
}

/// Is every byte of a read plain ASCII?
pub open spec fn ascii_bytes(b: Seq<u8>) -> bool {
    forall|i: int| 0 <= i < b.len() ==> #[trigger] b[i] < 128
}

fn is_hex_byte(b: u8) -> (r: bool)
    ensures
        r == is_hex_digit(b),
{
    (48 <= b && b <= 57) || (65 <= b && b <= 70) || (97 <= b && b <= 102)
}

/// How one line of a read is classified: a complete sentence, or one of the
/// partial reassembly states, each carrying the line's bytes.
pub open spec fn line_matches(l: Seq<u8>, r: Result<NMEASentence, NMEAError>) -> bool {
    if is_sentence_start(l) && has_checksum(l) {
        r matches Ok(ns) && ns.inner@ == l
    } else if is_sentence_start(l) {
        r matches Err(NMEAError::PartialStart(v)) && v@ == l
    } else if has_checksum(l) {
        r matches Err(NMEAError::PartialEnd(v)) && v@ == l
    } else {
        r matches Err(NMEAError::Partial(v)) && v@ == l
    }
}

/// Is a sentence one this engine decodes, so that [NMEASentence::data]
/// returns a record for it? The first field names the kind: `$GNGST`,
/// `$GPGST`, `$GNGSA`, `$GPGSA`, `$GNGSV` and `$GPGSV` dispatch on the
/// talker; `$PUBX` dispatches on its second field, `00`, `03` or `04`.
pub open spec fn data_ok(s: Seq<u8>) -> bool {
    let fs = spec_fields(s);
    if head_is(fs[0], 84) {
        gst_ok(s)
    } else if head_is(fs[0], 65) {
        gsa_ok(s)
    } else if head_is(fs[0], 86) {
        gsv_collection_ok(s)
    } else if fs[0] =~= seq![36u8, 80u8, 85u8, 66u8, 88u8] {
        &&& fs.len() >= 2
        &&& if fs[1] =~= seq![48u8, 48u8] {
            pubx00_ok(s)
        } else if fs[1] =~= seq![48u8, 51u8] {
            pubx03_ok(s)
        } else if fs[1] =~= seq![48u8, 52u8] {
            pubx04_ok(s)
        } else {
            false
        }
    } else {
        false
    }
}

/// Does the first field read `$GN` or `$GP`, then `GS` and the given
/// letter?
pub open spec fn head_is(f0: Seq<u8>, t2: u8) -> bool {
    f0.len() == 6 && f0[0] == 36 && f0[1] == 71 && (f0[2] == 78 || f0[2] == 80) && f0[3] == 71
        && f0[4] == 83 && f0[5] == t2
}

/// Does a decoded record match the sentence it was decoded from?
pub open spec fn data_matches(s: Seq<u8>, t: NMEASentenceType) -> bool {
    let fs = spec_fields(s);
    if head_is(fs[0], 84) {
        t matches NMEASentenceType::GST(d) && d == gst_value(s)
    } else if head_is(fs[0], 65) {
        t matches NMEASentenceType::GSA(d) && gsa_matches(s, d)
    } else if head_is(fs[0], 86) {
        t matches NMEASentenceType::GSV(d) && gsv_collection_matches(s, d)
    } else if fs[0] =~= seq![36u8, 80u8, 85u8, 66u8, 88u8] {
        if fs[1] =~= seq![48u8, 48u8] {
            t matches NMEASentenceType::PUBX00(d) && d == pubx00_value(s)
        } else if fs[1] =~= seq![48u8, 51u8] {
            t matches NMEASentenceType::PUBX03(d) && pubx03_matches(s, d)
        } else {
            t matches NMEASentenceType::PUBX04(d) && d == pubx04_value(s)
        }
    } else {
        false
    }
}

/// A GPS NMEA sentence: one line of the wire text, CR-LF stripped.
#[derive(Debug, Clone, PartialEq)]
pub struct NMEASentence {
    pub inner: Vec<u8>,
}

impl NMEASentence {
    /// Takes a sentence from text, stripping every CR-LF pair.
    pub fn new(raw_data: &str) -> (r: Result<Self, NMEAError>)
        ensures
            r matches Ok(ns) && ns.inner@ == spec_remove_crlf(raw_data.spec_bytes()),
    {
        Ok(NMEASentence { inner: remove_crlf(raw_data.as_bytes()) })
    }

    /// Takes a sentence from raw bytes, stripping every CR-LF pair.
    pub fn from_line(raw_data: &[u8]) -> (r: Self)
        ensures
            r.inner@ == spec_remove_crlf(raw_data@),
    {
        NMEASentence { inner: remove_crlf(raw_data) }
    }

    /// Splits one read into CR-LF-delimited lines and classifies each as a
    /// complete sentence or a partial reassembly state. A read that is not
    /// plain ASCII text is rejected whole as invalid data, so that binary
    /// input falls through to the UBX decoder.
    pub fn from_bytes(bytes: &[u8]) -> (r: Vec<Result<Self, NMEAError>>)
        ensures
            ascii_bytes(bytes@) ==> r@.len() == spec_lines(bytes@).len() && (forall|i: int|
                0 <= i < r@.len() ==> line_matches(spec_lines(bytes@)[i], #[trigger] r@[i])),
            !ascii_bytes(bytes@) ==> r@.len() == 1 && (r@[0] matches Err(NMEAError::InvalidData(
                raw,
            )) && raw@ == bytes@),
    {
        let mut out: Vec<Result<Self, NMEAError>> = Vec::new();
        if !check_ascii(bytes) {
            out.push(Err(NMEAError::InvalidData(slice_to_vec(bytes))));
            return out;
        }
        let lines = split_lines(bytes);
        let ghost ls = spec_lines(bytes@);
        let mut i: usize = 0;
        while i < lines.len()
            invariant
                0 <= i <= lines@.len(),
                lines.deep_view() == ls,
                lines@.len() == ls.len(),
                out@.len() == i,
                forall|k: int| 0 <= k < i ==> line_matches(ls[k], #[trigger] out@[k]),
            decreases lines@.len() - i,
        {
            proof {
                lemma_field_view(&lines, i as int);
            }
            let line = lines[i].as_slice();
            let start = line.len() > 0 && line[0] == 36;
            let check = contains_checksum_bytes(line);
            let item: Result<Self, NMEAError> = if start && check {
                Ok(NMEASentence { inner: slice_to_vec(line) })
            } else if start {
                Err(NMEAError::PartialStart(slice_to_vec(line)))
            } else if check {
                Err(NMEAError::PartialEnd(slice_to_vec(line)))
            } else {
                Err(NMEAError::Partial(slice_to_vec(line)))
            };
            out.push(item);
            i = i + 1;
        }
        out
    }

    /// Does the text open a sentence: a `$` at its start?
    pub fn is_start(sentence: &str) -> (r: bool)
        ensures
            r == is_sentence_start(sentence.spec_bytes()),
    {
        let b = sentence.as_bytes();
        b.len() > 0 && b[0] == 36
    }

    /// Does the text carry a checksum marker: a `*` followed by two
    /// hexadecimal digits?
    pub fn contains_checksum(sentence: &str) -> (r: bool)
        ensures
            r == has_checksum(sentence.spec_bytes()),
    {
        contains_checksum_bytes(sentence.as_bytes())
    }

    /// Decodes this sentence into its record, dispatching on its prefix;
    /// a sentence of any other kind is invalid data carrying its text.
    pub fn data(&self) -> (r: Result<NMEASentenceType, NMEAError>)
        ensures
            match r {
                Ok(t) => data_ok(self.inner@) && data_matches(self.inner@, t),
                Err(e) => !data_ok(self.inner@) && e matches NMEAError::InvalidData(_),
            },
    {
        let fields = split_fields(self.inner.as_slice());
        proof {
            lemma_field_view(&fields, 0);
        }
        let f0 = &fields[0];
        if check_head(f0, 84) {
            match GstData::decode(self.inner.as_slice()) {
                Ok(d) => Ok(NMEASentenceType::GST(d)),
                Err(e) => Err(e),
            }
        } else if check_head(f0, 65) {
            match GsaData::decode(self.inner.as_slice()) {
                Ok(d) => Ok(NMEASentenceType::GSA(d)),
                Err(e) => Err(e),
            }
        } else if check_head(f0, 86) {
            match GsvDataCollection::decode(self.inner.as_slice()) {
                Ok(d) => Ok(NMEASentenceType::GSV(d)),
                Err(e) => Err(e),
            }
        } else if f0.len() == 5 && *f0.get(0).unwrap() == 36 && *f0.get(1).unwrap() == 80
            && *f0.get(2).unwrap() == 85 && *f0.get(3).unwrap() == 66 && *f0.get(4).unwrap()
            == 88 {
            proof {
                assert(f0@ =~= seq![36u8, 80u8, 85u8, 66u8, 88u8]);
            }
            if fields.len() < 2 {
                return Err(NMEAError::InvalidData(slice_to_vec(self.inner.as_slice())));
            }
            proof {
                lemma_field_view(&fields, 1);
            }
            let f1 = &fields[1];
            if f1.len() == 2 && *f1.get(0).unwrap() == 48 && *f1.get(1).unwrap() == 48 {
                proof {
                    assert(f1@ =~= seq![48u8, 48u8]);
                }
                match Pubx00Data::decode(self.inner.as_slice()) {
                    Ok(d) => Ok(NMEASentenceType::PUBX00(d)),
                    Err(e) => Err(e),
                }
            } else if f1.len() == 2 && *f1.get(0).unwrap() == 48 && *f1.get(1).unwrap() == 51 {
                proof {
                    assert(f1@ =~= seq![48u8, 51u8]);
                }
                match Pubx03Data::decode(self.inner.as_slice()) {
                    Ok(d) => Ok(NMEASentenceType::PUBX03(d)),
                    Err(e) => Err(e),
                }
            } else if f1.len() == 2 && *f1.get(0).unwrap() == 48 && *f1.get(1).unwrap() == 52 {
                proof {
                    assert(f1@ =~= seq![48u8, 52u8]);
                }
                match Pubx04Data::decode(self.inner.as_slice()) {
                    Ok(d) => Ok(NMEASentenceType::PUBX04(d)),
                    Err(e) => Err(e),
                }
            } else {
                Err(NMEAError::InvalidData(slice_to_vec(self.inner.as_slice())))
            }
        } else {
            Err(NMEAError::InvalidData(slice_to_vec(self.inner.as_slice())))
        }
    }
}

/// Checks the first field for `$GN` or `$GP`, then `GS` and a letter.
fn check_head(f0: &Vec<u8>, t2: u8) -> (r: bool)
    ensures
        r == head_is(f0@, t2),
{
    f0.len() == 6 && *f0.get(0).unwrap() == 36 && *f0.get(1).unwrap() == 71 && (*f0.get(2).unwrap()
        == 78 || *f0.get(2).unwrap() == 80) && *f0.get(3).unwrap() == 71 && *f0.get(4).unwrap()
        == 83 && *f0.get(5).unwrap() == t2
}

/// Scans a line for a checksum marker.
#[verifier::loop_isolation(false)]
fn contains_checksum_bytes(l: &[u8]) -> (r: bool)
    ensures
        r == has_checksum(l@),
{
    if l.len() < 3 {
        return false;
    }
    let mut i: usize = 0;
    while i <= l.len() - 3
        invariant
            0 <= i,
            l@.len() >= 3,
            i + 3 <= l@.len() + 1,
            forall|k: int|
                0 <= k < i ==> !(#[trigger] l@[k] == 42 && is_hex_digit(l@[k + 1]) && is_hex_digit(
                    l@[k + 2],
                )),
        decreases l@.len() - i,
    {
        if l[i] == 42 && is_hex_byte(l[i + 1]) && is_hex_byte(l[i + 2]) {
            return true;
        }
        i = i + 1;
    }
    false
}

/// Checks that every byte of a read is plain ASCII.
#[verifier::loop_isolation(false)]
fn check_ascii(b: &[u8]) -> (r: bool)
    ensures
        r == ascii_bytes(b@),
{
    let mut i: usize = 0;
    while i < b.len()
        invariant
            0 <= i <= b@.len(),
            forall|k: int| 0 <= k < i ==> #[trigger] b@[k] < 128,
        decreases b@.len() - i,
    {
        if b[i] >= 128 {
            return false;
        }
        i = i + 1;
    }
    true
}

} // verus!
