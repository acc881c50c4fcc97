//! Byte-range requests and content-range responses.
//!
//! A `RangeSpec` names a byte sub-region of a remote resource. It is turned
//! into a `Range` request header by `to_range_header`, and recovered from a
//! `Content-Range` response header by `parse_content_range`. Parsing is
//! deliberately lenient: a field that does not parse falls back to its
//! default instead of failing the whole header.
use vstd::prelude::*;

use vstd::string::StringSliceAdditionalSpecFns;

use crate::digits::{dec_str, parse_u64, u64_parses, u64_to_string, u64_value};

verus! {

/// A byte sub-region of a resource. `start` is the first byte offset;
/// `end`, when present, is the last byte offset (inclusive); `total`, when
/// present, is the size the resource was reported to have.
pub struct RangeSpec {
    pub start: u64,
    pub end: Option<u64>,
    pub total: Option<u64>,
}

impl Clone for RangeSpec {
    fn clone(&self) -> (r: Self)
        ensures
            r == *self,
    {
        RangeSpec { start: self.start, end: self.end, total: self.total }
    }
}

impl Copy for RangeSpec {

}

impl RangeSpec {
    /// The whole resource: no start offset, no end, no reported total.
    pub open spec fn spec_full() -> RangeSpec {
        RangeSpec { start: 0, end: None, total: None }
    }

    /// The range standing for the entire resource, for which no range
    /// header is emitted.
    pub fn full() -> (r: RangeSpec)
        ensures
            r == RangeSpec::spec_full(),
    {
        RangeSpec { start: 0, end: None, total: None }
    }

    /// A range is full when it starts at the first byte and is open-ended.
    pub open spec fn spec_is_full(self) -> bool {
        self.start == 0 && self.end is None
    }

    pub fn is_full(&self) -> (r: bool)
        ensures
            r == self.spec_is_full(),
    {
        self.start == 0 && self.end.is_none()
    }

    /// Whether the served region covers the fixed 42-byte metadata header
    /// at the start of the file: it must begin at offset 0 and, when
    /// bounded, reach at least offset 41.
    pub open spec fn spec_contains_flac_header(self) -> bool {
        self.start == 0 && match self.end {
            Some(e) => e >= 41,
            None => true,
        }
    }

    pub fn contains_flac_header(&self) -> (r: bool)
        ensures
            r == self.spec_contains_flac_header(),
    {
        self.start == 0 && match self.end {
            Some(e) => e >= 41,
            None => true,
        }
    }

    /// The text of the range request header for a non-full range:
    /// `bytes={start}-{end}`, with `end` left empty for an open-ended range.
    pub open spec fn spec_range_header(self) -> Seq<char> {
        "bytes="@ + dec_str(self.start as nat) + "-"@ + match self.end {
            Some(e) => dec_str(e as nat),
            None => Seq::<char>::empty(),
        }
    }

    /// Emits the range request header: none at all for the full range,
    /// otherwise exactly the text of `spec_range_header`.
    pub fn to_range_header(&self) -> (r: Option<String>)
        ensures
            match r {
                None => self.spec_is_full(),
                Some(s) => !self.spec_is_full() && s@ == self.spec_range_header(),
            },
    {
        if self.is_full() {
            None
        } else {
            let mut s = String::from_str("bytes=");
            let start_str = u64_to_string(self.start);
            s.append(start_str.as_str());
            s.append("-");
            match self.end {
                Some(e) => {
                    let end_str = u64_to_string(e);
                    s.append(end_str.as_str());
                },
                None => {},
            }
            proof {
                assert(s@ =~= self.spec_range_header());
            }
            Some(s)
        }
    }
}

/// The position of the first occurrence of `b` in `s`, if any.
pub open spec fn find_byte(s: Seq<u8>, b: u8) -> Option<int>
    decreases s.len(),
{
    if s.len() == 0 {
        None
    } else if s[0] == b {
        Some(0)
    } else {
        match find_byte(s.drop_first(), b) {
            Some(i) => Some(i + 1),
            None => None,
        }
    }
}

proof fn lemma_find_byte(s: Seq<u8>, b: u8)
    ensures
        match find_byte(s, b) {
            Some(i) => 0 <= i < s.len() && s[i] == b && forall|j: int|
                0 <= j < i ==> s[j] != b,
            None => forall|j: int| 0 <= j < s.len() ==> s[j] != b,
        },
    decreases s.len(),
{
    if s.len() > 0 && s[0] != b {
        let t = s.drop_first();
        lemma_find_byte(t, b);
        assert(forall|j: int| 0 <= j < t.len() ==> t[j] == s[j + 1]);
        match find_byte(t, b) {
            Some(i) => {
                assert(s[i + 1] == t[i]);
                assert(forall|j: int| 1 <= j < i + 1 ==> s[j] == t[j - 1] && t[j - 1] != b);
            },
            None => {
                assert(forall|j: int| 1 <= j < s.len() ==> s[j] == t[j - 1] && t[j - 1] != b);
            },
        }
    }
}

/// Finds the first occurrence of `b` in `s`.
fn find_byte_exec(s: &[u8], b: u8) -> (r: Option<usize>)
    ensures
        match r {
            Some(i) => find_byte(s@, b) == Some(i as int),
            None => find_byte(s@, b) is None,
        },
{
    proof {
        lemma_find_byte(s@, b);
    }
    let mut i: usize = 0;
    while i < s.len()
        invariant
            0 <= i <= s@.len(),
            forall|j: int| 0 <= j < i ==> s@[j] != b,
            match find_byte(s@, b) {
                Some(k) => 0 <= k < s@.len() && s@[k] == b && forall|j: int|
                    0 <= j < k ==> s@[j] != b,
                None => forall|j: int| 0 <= j < s@.len() ==> s@[j] != b,
            },
        decreases s@.len() - i,
    {
        if s[i] == b {
            return Some(i);
        }
        i += 1;
    }
    None
}

/// The fields of a content-range header split at the first `-` and then the
/// first `/`: `(start text, end text, total text)`. A missing separator
/// leaves the remainder in the earlier field and the later fields empty.
pub open spec fn spec_split_content_range(rest: Seq<u8>) -> (Seq<u8>, Seq<u8>, Seq<u8>) {
    let (from, tail) = match find_byte(rest, 45) {
        Some(i) => (rest.take(i), rest.skip(i + 1)),
        None => (rest, Seq::<u8>::empty()),
    };
    let (to, total) = match find_byte(tail, 47) {
        Some(i) => (tail.take(i), tail.skip(i + 1)),
        None => (tail, Seq::<u8>::empty()),
    };
    (from, to, total)
}

/// The range a content-range header text denotes, by the lenient policy:
/// a header of no more than the six prefix bytes (`bytes `) is the full
/// range; otherwise the text after the prefix is split at `-` and `/`, and
/// each field that fails to parse falls back to its default (`start` to 0,
/// `end` and `total` to absent).
pub open spec fn spec_parse_content_range(s: Seq<u8>) -> RangeSpec {
    if s.len() <= 6 {
        RangeSpec::spec_full()
    } else {
        let (from, to, total) = spec_split_content_range(s.skip(6));
        RangeSpec {
            start: if u64_parses(from) {
                u64_value(from) as u64
            } else {
                0
            },
            end: if u64_parses(to) {
                Some(u64_value(to) as u64)
            } else {
                None
            },
            total: if u64_parses(total) {
                Some(u64_value(total) as u64)
            } else {
                None
            },
        }
    }
}

/// Parses an optional `Content-Range` response header. An absent header
/// means the full resource was served; a present one is read by the
/// lenient policy of `spec_parse_content_range` over its bytes.
pub fn parse_content_range(header: Option<&str>) -> (r: RangeSpec)
    ensures
        match header {
            None => r == RangeSpec::spec_full(),
            Some(h) => r == spec_parse_content_range(h.spec_bytes()),
        },
{
    let h = match header {
        Some(h) => h,
        None => {
            return RangeSpec::full();
        },
    };
    let bytes = h.as_bytes();
    if bytes.len() <= 6 {
        return RangeSpec::full();
    }
    let rest = vstd::slice::slice_subrange(bytes, 6, bytes.len());
    proof {
        assert(rest@ =~= h.spec_bytes().skip(6));
    }
    proof {
        lemma_find_byte(rest@, 45);
    }
    let (from, tail): (&[u8], &[u8]) = match find_byte_exec(rest, 45) {
        Some(i) => (
            vstd::slice::slice_subrange(rest, 0, i),
            vstd::slice::slice_subrange(rest, i + 1, rest.len()),
        ),
        None => (rest, vstd::slice::slice_subrange(rest, rest.len(), rest.len())),
    };
    proof {
        lemma_find_byte(tail@, 47);
    }
    let (to, total): (&[u8], &[u8]) = match find_byte_exec(tail, 47) {
        Some(i) => (
            vstd::slice::slice_subrange(tail, 0, i),
            vstd::slice::slice_subrange(tail, i + 1, tail.len()),
        ),
        None => (tail, vstd::slice::slice_subrange(tail, tail.len(), tail.len())),
    };
    proof {
        let (sfrom, sto, stotal) = spec_split_content_range(h.spec_bytes().skip(6));
        assert(from@ =~= sfrom);
        assert(to@ =~= sto);
        assert(total@ =~= stotal);
    }
    let start = match parse_u64(from) {
        Some(v) => v,
        None => 0,
    };
    RangeSpec { start, end: parse_u64(to), total: parse_u64(total) }
}

/// Every range with `end` present is not full, so `to_range_header` emits
/// a header, and its text is exactly `bytes={start}-{end}`.
pub proof fn lemma_range_header_with_end(r: RangeSpec)
    requires
        r.end is Some,
    ensures
        !r.spec_is_full(),
        r.spec_range_header() == "bytes="@ + dec_str(r.start as nat) + "-"@ + dec_str(
            r.end->Some_0 as nat,
        ),
{
}

/// A served range that does not begin at the first byte never covers the
/// metadata header, so duration extraction is skipped for it: the duration
/// is reported as 0 and the stream is handed back untouched.
pub proof fn lemma_nonzero_start_skips_extraction(r: RangeSpec)
    requires
        r.start != 0,
    ensures
        !r.spec_contains_flac_header(),
{
}

/// A header text no longer than the six-byte `bytes ` prefix is read as
/// the full range.
pub proof fn lemma_short_header_is_full(s: Seq<u8>)
    requires
        s.len() <= 6,
    ensures
        spec_parse_content_range(s) == RangeSpec::spec_full(),
{
}

} // verus!
