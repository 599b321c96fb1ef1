//! Splitting raw sentence bytes: into comma/star-separated fields, into
//! space-separated groups, and into CR-LF-delimited lines.

use vstd::prelude::*;
use vstd::slice::slice_to_vec;

verus! {

/// Where the first separator byte stands in `s`, or `s.len()` if none.
pub open spec fn sep_position(s: Seq<u8>, seps: Seq<u8>) -> int
    decreases s.len(),
{
    if s.len() == 0 {
        0
    } else if seps.contains(s[0]) {
        0
    } else {
        1 + sep_position(s.drop_first(), seps)
    }
}

pub proof fn lemma_sep_position(s: Seq<u8>, seps: Seq<u8>)
    ensures
        0 <= sep_position(s, seps) <= s.len(),
        forall|j: int| 0 <= j < sep_position(s, seps) ==> !seps.contains(#[trigger] s[j]),
        sep_position(s, seps) < s.len() ==> seps.contains(s[sep_position(s, seps)]),
    decreases s.len(),
{
    if s.len() > 0 && !seps.contains(s[0]) {
        lemma_sep_position(s.drop_first(), seps);
        assert forall|j: int| 0 <= j < sep_position(s, seps) implies !seps.contains(
            #[trigger] s[j],
        ) by {
            if j > 0 {
                assert(s[j] == s.drop_first()[j - 1]);
            }
        }
    }
}

/// `s` split on the separator bytes: the pieces between them, in order.
/// Splitting the empty sequence gives one empty piece, and a separator at
/// either end gives an empty piece there, as `str::split` does.
pub open spec fn spec_split(s: Seq<u8>, seps: Seq<u8>) -> Seq<Seq<u8>>
    decreases s.len(),
{
    let p = sep_position(s, seps);
    if 0 <= p && p < s.len() {
        seq![s.take(p)] + spec_split(s.skip(p + 1), seps)
    } else {
        seq![s]
    }
}

/// A split has at least one piece.
pub proof fn lemma_spec_split_len(s: Seq<u8>, seps: Seq<u8>)
    ensures
        spec_split(s, seps).len() >= 1,
    decreases s.len(),
{
    lemma_sep_position(s, seps);
    let p = sep_position(s, seps);
    if 0 <= p && p < s.len() {
        lemma_spec_split_len(s.skip(p + 1), seps);
    }
}

/// Finds the first separator byte: its index, or the length if none.
#[verifier::loop_isolation(false)]
pub fn find_sep(s: &[u8], seps: &[u8]) -> (r: usize)
    ensures
        r as int == sep_position(s@, seps@),
{
    proof {
        lemma_sep_position(s@, seps@);
    }
    let mut j: usize = 0;
    while j < s.len()
        invariant
            0 <= j <= s@.len(),
            forall|k: int| 0 <= k < j ==> !seps@.contains(#[trigger] s@[k]),
        decreases s@.len() - j,
    {
        if byte_in(seps, s[j]) {
            return j;
        }
        j = j + 1;
    }
    j
}

/// Is `b` one of the bytes of `seps`?
#[verifier::loop_isolation(false)]
pub fn byte_in(seps: &[u8], b: u8) -> (r: bool)
    ensures
        r == seps@.contains(b),
{
    let mut i: usize = 0;
    while i < seps.len()
        invariant
            0 <= i <= seps@.len(),
            forall|k: int| 0 <= k < i ==> seps@[k] != b,
        decreases seps@.len() - i,
    {
        if seps[i] == b {
            return true;
        }
        i = i + 1;
    }
    false
}

/// Splits `s` on the separator bytes.
pub fn split_bytes(s: &[u8], seps: &[u8]) -> (r: Vec<Vec<u8>>)
    ensures
        r.deep_view() == spec_split(s@, seps@),
    decreases s@.len(),
{
    proof {
        lemma_sep_position(s@, seps@);
    }
    let p = find_sep(s, seps);
    if p == s.len() {
        let mut r: Vec<Vec<u8>> = Vec::new();
        r.push(slice_to_vec(s));
        proof {
            assert(r.deep_view() =~~= spec_split(s@, seps@));
        }
        r
    } else {
        let head = slice_to_vec(&s[0..p]);
        let tail = &s[p + 1..s.len()];
        proof {
            assert(tail@ =~= s@.skip(p + 1));
        }
        let mut rest = split_bytes(tail, seps);
        rest.insert(0, head);
        proof {
            assert(rest.deep_view() =~~= spec_split(s@, seps@));
        }
        rest
    }
}

/// The NMEA field list of a sentence: the pieces between commas, with `*`
/// treated as one more field terminator, so that the checksum stands as a
/// field of its own.
pub open spec fn spec_fields(s: Seq<u8>) -> Seq<Seq<u8>> {
    spec_split(s, seq![44u8, 42u8])
}

/// Splits a sentence into its NMEA fields.
pub fn split_fields(s: &[u8]) -> (r: Vec<Vec<u8>>)
    ensures
        r.deep_view() == spec_fields(s@),
        r@.len() >= 1,
{
    let seps: [u8; 2] = [44, 42];
    proof {
        assert(seps@ =~= seq![44u8, 42u8]);
        lemma_spec_split_len(s@, seq![44u8, 42u8]);
    }
    let r = split_bytes(s, seps.as_slice());
    proof {
        assert(r@.len() == r.deep_view().len());
    }
    r
}

/// The space-separated groups of a line, for sentence kinds that ship
/// several sentences in one line.
pub open spec fn spec_groups(s: Seq<u8>) -> Seq<Seq<u8>> {
    spec_split(s, seq![32u8])
}

/// Splits a line into its space-separated groups.
pub fn split_groups(s: &[u8]) -> (r: Vec<Vec<u8>>)
    ensures
        r.deep_view() == spec_groups(s@),
        r@.len() >= 1,
{
    let seps: [u8; 1] = [32];
    proof {
        assert(seps@ =~= seq![32u8]);
        lemma_spec_split_len(s@, seq![32u8]);
    }
    let r = split_bytes(s, seps.as_slice());
    proof {
        assert(r@.len() == r.deep_view().len());
    }
    r
}

/// Where the first CR-LF pair stands in `s`, or `s.len()` if none.
pub open spec fn crlf_position(s: Seq<u8>) -> int
    decreases s.len(),
{
    if s.len() < 2 {
        s.len() as int
    } else if s[0] == 13 && s[1] == 10 {
        0
    } else {
        1 + crlf_position(s.drop_first())
    }
}

pub proof fn lemma_crlf_position(s: Seq<u8>)
    ensures
        0 <= crlf_position(s) <= s.len(),
        crlf_position(s) < s.len() ==> crlf_position(s) + 2 <= s.len() && s[crlf_position(s)]
            == 13 && s[crlf_position(s) + 1] == 10,
        forall|j: int|
            0 <= j < crlf_position(s) && j + 2 <= s.len() ==> !(#[trigger] s[j] == 13 && s[j + 1]
                == 10),
    decreases s.len(),
{
    if s.len() >= 2 && !(s[0] == 13 && s[1] == 10) {
        lemma_crlf_position(s.drop_first());
        assert forall|j: int|
            0 <= j < crlf_position(s) && j + 2 <= s.len() implies !(#[trigger] s[j] == 13 && s[j
            + 1] == 10) by {
            if j > 0 {
                assert(s[j] == s.drop_first()[j - 1]);
                assert(s[j + 1] == s.drop_first()[j]);
            }
        }
    }
}

/// The CR-LF-delimited lines of a read, as `str::split("\r\n")` yields
/// them: the pieces between the pairs, empty pieces included.
pub open spec fn spec_lines(s: Seq<u8>) -> Seq<Seq<u8>>
    decreases s.len(),
{
    let p = crlf_position(s);
    if 0 <= p && p + 2 <= s.len() {
        seq![s.take(p)] + spec_lines(s.skip(p + 2))
    } else {
        seq![s]
    }
}

/// `s` with every CR-LF pair removed, scanning left to right: the
/// concatenation of its lines.
pub open spec fn spec_remove_crlf(s: Seq<u8>) -> Seq<u8>
    decreases s.len(),
{
    let p = crlf_position(s);
    if 0 <= p && p + 2 <= s.len() {
        s.take(p) + spec_remove_crlf(s.skip(p + 2))
    } else {
        s
    }
}

/// Finds the first CR-LF pair: its index, or the length if none.
#[verifier::loop_isolation(false)]
pub fn find_crlf(s: &[u8]) -> (r: usize)
    ensures
        r as int == crlf_position(s@),
{
    proof {
        lemma_crlf_position(s@);
    }
    if s.len() < 2 {
        return s.len();
    }
    let mut j: usize = 0;
    while j < s.len() - 1
        invariant
            0 <= j <= s@.len(),
            forall|k: int| 0 <= k < j && k + 2 <= s@.len() ==> !(#[trigger] s@[k] == 13 && s@[k + 1] == 10),
        decreases s@.len() - j,
    {
        if s[j] == 13 && s[j + 1] == 10 {
            return j;
        }
        j = j + 1;
    }
    proof {
        assert(crlf_position(s@) == s@.len()) by {
            if crlf_position(s@) < s@.len() {
                assert(s@[crlf_position(s@)] == 13 && s@[crlf_position(s@) + 1] == 10);
            }
        }
    }
    s.len()
}

/// Splits a read into its CR-LF-delimited lines.
pub fn split_lines(s: &[u8]) -> (r: Vec<Vec<u8>>)
    ensures
        r.deep_view() == spec_lines(s@),
        r@.len() >= 1,
    decreases s@.len(),
{
    proof {
        lemma_crlf_position(s@);
    }
    let p = find_crlf(s);
    if p == s.len() {
        let mut r: Vec<Vec<u8>> = Vec::new();
        r.push(slice_to_vec(s));
        proof {
            assert(r.deep_view() =~~= spec_lines(s@));
        }
        r
    } else {
        let head = slice_to_vec(&s[0..p]);
        let tail = &s[p + 2..s.len()];
        proof {
            assert(tail@ =~= s@.skip(p + 2));
        }
        let mut rest = split_lines(tail);
        rest.insert(0, head);
        proof {
            assert(rest.deep_view() =~~= spec_lines(s@));
            assert(rest@.len() == rest.deep_view().len());
        }
        rest
    }
}

/// Removes every CR-LF pair from a read.
pub fn remove_crlf(s: &[u8]) -> (r: Vec<u8>)
    ensures
        r@ == spec_remove_crlf(s@),
    decreases s@.len(),
{
    proof {
        lemma_crlf_position(s@);
    }
    let p = find_crlf(s);
    if p == s.len() {
        slice_to_vec(s)
    } else {
        let mut head = slice_to_vec(&s[0..p]);
        let tail = &s[p + 2..s.len()];
        proof {
            assert(tail@ =~= s@.skip(p + 2));
        }
        let mut rest = remove_crlf(tail);
        head.append(&mut rest);
        proof {
            assert(head@ =~= spec_remove_crlf(s@));
        }
        head
    }
}

/// Do two byte strings hold the same bytes?
#[verifier::loop_isolation(false)]
pub fn bytes_eq(a: &[u8], b: &[u8]) -> (r: bool)
    ensures
        r == (a@ =~= b@),
{
    if a.len() != b.len() {
        return false;
    }
    let mut i: usize = 0;
    while i < a.len()
        invariant
            0 <= i <= a@.len(),
            a@.len() == b@.len(),
            forall|k: int| 0 <= k < i ==> a@[k] == b@[k],
        decreases a@.len() - i,
    {
        if a[i] != b[i] {
            return false;
        }
        i = i + 1;
    }
    true
}


/// The deep view of a vector of byte vectors indexes to the element's view.
pub proof fn lemma_field_view(fields: &Vec<Vec<u8>>, i: int)
    requires
        0 <= i < fields@.len(),
    ensures
        fields.deep_view()[i] == fields@[i]@,
        fields.deep_view().len() == fields@.len(),
{
    assert(fields@[i].deep_view() =~= fields@[i]@);
}

} // verus!
