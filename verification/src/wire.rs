//! The server wire protocol's framing: each message is a block of
//! `key: value` header lines terminated by a blank line, among them a
//! mandatory `Content-Length: <n>`, followed by exactly `n` bytes of
//! payload.
use vstd::prelude::*;

verus! {

/// An ASCII decimal digit.
pub open spec fn is_digit_byte(b: u8) -> bool {
    48 <= b <= 57
}

/// Every byte of `s` is a decimal digit.
pub open spec fn all_digit_bytes(s: Seq<u8>) -> bool {
    forall|i: int| 0 <= i < s.len() ==> is_digit_byte(#[trigger] s[i])
}

/// The number denoted by the digit string `s`, most significant first.
pub open spec fn dec_val(s: Seq<u8>) -> nat
    decreases s.len(),
{
    if s.len() == 0 {
        0
    } else {
        dec_val(s.drop_last()) * 10 + (s.last() - 48) as nat
    }
}

/// The canonical digit string of `n`, without leading zeroes (a single zero
/// for zero).
pub open spec fn dec_bytes(n: nat) -> Seq<u8>
    decreases n,
{
    if n < 10 {
        seq![(48 + n) as u8]
    } else {
        dec_bytes(n / 10).push((48 + n % 10) as u8)
    }
}

/// Appending digits never makes the denoted number smaller.
proof fn lemma_dec_val_prefix_le(s: Seq<u8>, i: int)
    requires
        0 <= i <= s.len(),
    ensures
        dec_val(s.take(i)) <= dec_val(s),
    decreases s.len() - i,
{
    if i < s.len() {
        assert(s.take(i + 1).drop_last() =~= s.take(i));
        assert(dec_val(s.take(i + 1)) == dec_val(s.take(i)) * 10 + (s.take(i + 1).last() - 48) as nat);
        assert(dec_val(s.take(i)) <= dec_val(s.take(i)) * 10) by (nonlinear_arith)
            requires dec_val(s.take(i)) >= 0;
        lemma_dec_val_prefix_le(s, i + 1);
        assert(s.take(s.len() as int) =~= s);
    } else {
        assert(s.take(i) =~= s);
    }
}

/// Reads an ASCII decimal number. Returns the value exactly when the input
/// is non-empty, all digits, and denotes a number that fits in a `u64`;
/// anything else is rejected.
pub fn parse_dec_bytes(s: &[u8]) -> (r: Option<u64>)
    ensures
        r is Some <==> (s@.len() > 0 && all_digit_bytes(s@) && dec_val(s@) <= u64::MAX),
        r is Some ==> r.unwrap() == dec_val(s@),
{
    let n = s.len();
    if n == 0 {
        return None;
    }
    let mut acc: u64 = 0;
    let mut i: usize = 0;
    while i < n
        invariant
            0 <= i <= n,
            n == s@.len(),
            all_digit_bytes(s@.take(i as int)),
            acc == dec_val(s@.take(i as int)),
        decreases n - i,
    {
        let b = s[i];
        if b < 48 || b > 57 {
            proof {
                assert(!is_digit_byte(s@[i as int]));
            }
            return None;
        }
        let d = b - 48;
        if acc > (u64::MAX - (d as u64)) / 10 {
            proof {
                assert(s@.take(i as int + 1).drop_last() =~= s@.take(i as int));
                assert(dec_val(s@.take(i as int + 1)) == acc * 10 + d);
                assert(acc * 10 + d > u64::MAX) by (nonlinear_arith)
                    requires
                        acc > (u64::MAX - (d as u64)) / 10,
                        0 <= d <= 9,
                        acc <= u64::MAX,
                ;
                lemma_dec_val_prefix_le(s@, i as int + 1);
            }
            return None;
        }
        proof {
            assert(acc * 10 + d <= u64::MAX) by (nonlinear_arith)
                requires
                    acc <= (u64::MAX - (d as u64)) / 10,
                    0 <= d <= 9,
                    acc >= 0,
            ;
            assert(s@.take(i as int + 1).drop_last() =~= s@.take(i as int));
            assert(all_digit_bytes(s@.take(i as int + 1)));
        }
        acc = acc * 10 + (d as u64);
        i += 1;
    }
    proof {
        assert(s@.take(n as int) =~= s@);
    }
    Some(acc)
}

/// Appends the canonical digit string of `n`.
fn push_dec(n: u64, out: &mut Vec<u8>)
    ensures
        final(out)@ == old(out)@ + dec_bytes(n as nat),
    decreases n,
{
    if n < 10 {
        out.push(48 + (n as u8));
        proof {
            assert(out@ =~= old(out)@ + dec_bytes(n as nat));
        }
    } else {
        push_dec(n / 10, out);
        out.push(48 + ((n % 10) as u8));
        proof {
            assert(out@ =~= old(out)@ + dec_bytes(n as nat));
        }
    }
}

/// The bytes of the `Content-Length` header name.
pub open spec fn content_length_key() -> Seq<u8> {
    seq![67u8, 111u8, 110u8, 116u8, 101u8, 110u8, 116u8, 45u8, 76u8, 101u8, 110u8, 103u8, 116u8, 104u8]
}

/// `"Content-Length: "`, the prefix every frame starts with.
pub open spec fn frame_header_prefix() -> Seq<u8> {
    content_length_key() + seq![58u8, 32u8]
}

/// A whole frame: the length header, a blank line, then the payload.
pub open spec fn frame_spec(p: Seq<u8>) -> Seq<u8> {
    frame_header_prefix() + dec_bytes(p.len()) + seq![13u8, 10u8, 13u8, 10u8] + p
}

/// The `Content-Length` header name, as written on the wire.
fn content_length_bytes() -> (r: Vec<u8>)
    ensures
        r@ == content_length_key(),
{
    let mut v: Vec<u8> = Vec::new();
    v.push(67);
    v.push(111);
    v.push(110);
    v.push(116);
    v.push(101);
    v.push(110);
    v.push(116);
    v.push(45);
    v.push(76);
    v.push(101);
    v.push(110);
    v.push(103);
    v.push(116);
    v.push(104);
    proof {
        assert(v@ =~= content_length_key());
    }
    v
}

/// Wraps a payload in the wire framing: `Content-Length: <n>`, a blank
/// line, then the payload itself.
pub fn encode_frame(payload: &Vec<u8>) -> (r: Vec<u8>)
    ensures
        r@ == frame_spec(payload@),
{
    let mut out = content_length_bytes();
    out.push(58);
    out.push(32);
    proof {
        assert(out@ =~= frame_header_prefix());
    }
    push_dec(payload.len() as u64, &mut out);
    out.push(13);
    out.push(10);
    out.push(13);
    out.push(10);
    out.extend_from_slice(payload.as_slice());
    proof {
        assert(out@ =~= frame_spec(payload@));
    }
    out
}

/// A `": "` separator starts at `i` in `s`.
pub open spec fn is_sep_at(s: Seq<u8>, i: int) -> bool {
    0 <= i && i + 2 <= s.len() && s[i] == 58 && s[i + 1] == 32
}

/// Number of `": "` separators starting below `upto`.
pub open spec fn count_seps(s: Seq<u8>, upto: int) -> nat
    decreases upto,
{
    if upto <= 0 {
        0
    } else {
        count_seps(s, upto - 1) + if is_sep_at(s, upto - 1) {
            1nat
        } else {
            0nat
        }
    }
}

/// Splits a header line at its `": "` separator into name and value.
/// Succeeds exactly when the line holds exactly one separator, as the
/// protocol's `key: value` shape demands.
pub fn split_header_line(line: &[u8]) -> (r: Option<(Vec<u8>, Vec<u8>)>)
    ensures
        r is Some <==> count_seps(line@, line@.len() as int) == 1,
        r is Some ==> {
            let (k, v) = r.unwrap();
            &&& is_sep_at(line@, k@.len() as int)
            &&& k@ == line@.take(k@.len() as int)
            &&& v@ == line@.skip(k@.len() as int + 2)
        },
{
    let n = line.len();
    let mut first: Option<usize> = None;
    let mut count: usize = 0;
    let mut i: usize = 0;
    while i < n
        invariant
            0 <= i <= n,
            n == line@.len(),
            count == count_seps(line@, i as int),
            count <= i,
            match first {
                Some(j) => count >= 1 && is_sep_at(line@, j as int) && count_seps(
                    line@,
                    j as int,
                ) == 0,
                None => count == 0,
            },
        decreases n - i,
    {
        if line[i] == 58 && i + 1 < n && line[i + 1] == 32 {
            if first.is_none() {
                first = Some(i);
            }
            count = count + 1;
        }
        i += 1;
    }
    if count != 1 {
        return None;
    }
    let j = first.unwrap();
    let mut key: Vec<u8> = Vec::new();
    let mut k: usize = 0;
    while k < j
        invariant
            0 <= k <= j,
            j + 2 <= line@.len(),
            key@ == line@.take(k as int),
        decreases j - k,
    {
        key.push(line[k]);
        proof {
            assert(key@ =~= line@.take(k as int + 1));
        }
        k += 1;
    }
    let mut value: Vec<u8> = Vec::new();
    let mut m: usize = j + 2;
    while m < n
        invariant
            j + 2 <= m <= n,
            n == line@.len(),
            value@ == line@.subrange(j as int + 2, m as int),
        decreases n - m,
    {
        value.push(line[m]);
        proof {
            assert(value@ =~= line@.subrange(j as int + 2, m as int + 1));
        }
        m += 1;
    }
    proof {
        assert(key@ == line@.take(j as int));
        assert(value@ =~= line@.skip(j as int + 2));
    }
    Some((key, value))
}

/// The position of the line's separator; meaningful when the line holds
/// exactly one.
pub open spec fn sep_index(line: Seq<u8>) -> int {
    choose|i: int| is_sep_at(line, i)
}

/// The header name: what stands before the separator.
pub open spec fn header_name(line: Seq<u8>) -> Seq<u8> {
    line.take(sep_index(line))
}

/// The header value: what stands after the separator.
pub open spec fn header_value(line: Seq<u8>) -> Seq<u8> {
    line.skip(sep_index(line) + 2)
}

/// A positive separator count names a separator.
proof fn lemma_count_pos_exists(s: Seq<u8>, n: int)
    requires
        count_seps(s, n) >= 1,
    ensures
        exists|i: int| is_sep_at(s, i),
    decreases n,
{
    if n > 0 {
        if is_sep_at(s, n - 1) {
            assert(exists|i: int| is_sep_at(s, i));
        } else {
            lemma_count_pos_exists(s, n - 1);
        }
    }
}

/// What one header line does to the block: the step outcome and the
/// recorded content length afterwards. A blank line ends the block (the
/// payload length if one was announced, else the block is malformed); a
/// line without exactly one `": "` separator is malformed; a
/// `Content-Length` line records its value, which must be a non-empty
/// digit string fitting a `u64`; any other header is skipped.
pub open spec fn header_line_spec(recorded: Option<u64>, line: Seq<u8>) -> (HeaderStep, Option<
    u64,
>) {
    if line.len() == 0 {
        (
            match recorded {
                Some(n) => HeaderStep::Body(n),
                None => HeaderStep::Malformed,
            },
            recorded,
        )
    } else if count_seps(line, line.len() as int) != 1 {
        (HeaderStep::Malformed, recorded)
    } else if header_name(line) == content_length_key() {
        let value = header_value(line);
        if value.len() > 0 && all_digit_bytes(value) && dec_val(value) <= u64::MAX {
            (HeaderStep::Continue, Some(dec_val(value) as u64))
        } else {
            (HeaderStep::Malformed, recorded)
        }
    } else {
        (HeaderStep::Continue, recorded)
    }
}

/// Step outcome of the header-block reader.
#[derive(Clone, PartialEq, Eq, Structural, Debug)]
pub enum HeaderStep {
    /// Header line consumed; more lines follow.
    Continue,
    /// Blank terminator seen: the payload of this many bytes follows.
    Body(u64),
    /// The block breaks the protocol; the reader must stop.
    Malformed,
}

/// Accumulated state of one header block: the content length seen so far.
pub struct HeaderAccum {
    content_length: Option<u64>,
}

impl HeaderAccum {
    /// The content length announced so far.
    pub closed spec fn spec_content_length(self) -> Option<u64> {
        self.content_length
    }

    /// An empty header block: no length announced yet.
    pub fn new() -> (r: Self)
        ensures
            r.spec_content_length() is None,
    {
        HeaderAccum { content_length: None }
    }

    /// Consumes one header line, already stripped of its line terminator:
    /// exactly the step `header_line_spec` prescribes, with the recorded
    /// content length updated accordingly.
    pub fn feed_line(&mut self, line: &[u8]) -> (r: HeaderStep)
        ensures
            (r, final(self).spec_content_length()) == header_line_spec(
                old(self).spec_content_length(),
                line@,
            ),
    {
        if line.len() == 0 {
            return match &self.content_length {
                Some(len) => HeaderStep::Body(*len),
                None => HeaderStep::Malformed,
            };
        }
        let parts = split_header_line(line);
        match parts {
            None => HeaderStep::Malformed,
            Some((key, value)) => {
                proof {
                    assert(is_sep_at(line@, key@.len() as int));
                    assert(exists|i: int| is_sep_at(line@, i));
                    lemma_unique_sep(line@, sep_index(line@), key@.len() as int);
                    assert(header_name(line@) == key@);
                    assert(header_value(line@) == value@);
                }
                if bytes_eq(&key, &content_length_bytes()) {
                    match parse_dec_bytes(value.as_slice()) {
                        Some(len) => {
                            self.content_length = Some(len);
                            HeaderStep::Continue
                        },
                        None => HeaderStep::Malformed,
                    }
                } else {
                    HeaderStep::Continue
                }
            },
        }
    }
}

/// A line with a single separator has it in only one place.
proof fn lemma_unique_sep(s: Seq<u8>, i: int, j: int)
    requires
        count_seps(s, s.len() as int) == 1,
        is_sep_at(s, i),
        is_sep_at(s, j),
    ensures
        i == j,
{
    if i != j {
        let lo = if i < j {
            i
        } else {
            j
        };
        let hi = if i < j {
            j
        } else {
            i
        };
        lemma_count_seps_at(s, lo);
        lemma_count_seps_at(s, hi);
        lemma_count_seps_mono(s, lo + 1, hi);
        lemma_count_seps_mono(s, hi + 1, s.len() as int);
    }
}

/// Counting one more position adds the separator there, if any.
proof fn lemma_count_seps_at(s: Seq<u8>, i: int)
    requires
        is_sep_at(s, i),
    ensures
        count_seps(s, i + 1) >= count_seps(s, i) + 1,
{
}

/// The separator count is monotone in the scanned prefix.
proof fn lemma_count_seps_mono(s: Seq<u8>, a: int, b: int)
    requires
        a <= b,
    ensures
        count_seps(s, a) <= count_seps(s, b),
    decreases b - a,
{
    if a < b {
        lemma_count_seps_mono(s, a, b - 1);
    }
}

/// Byte-for-byte equality of two byte strings.
fn bytes_eq(a: &Vec<u8>, b: &Vec<u8>) -> (r: bool)
    ensures
        r == (a@ == b@),
{
    if a.len() != b.len() {
        proof {
            assert(a@.len() != b@.len());
        }
        return false;
    }
    let n = a.len();
    let mut i: usize = 0;
    while i < n
        invariant
            0 <= i <= n,
            n == a@.len(),
            n == b@.len(),
            forall|j: int| 0 <= j < i ==> a@[j] == b@[j],
        decreases n - i,
    {
        if a[i] != b[i] {
            return false;
        }
        i += 1;
    }
    proof {
        assert(a@ =~= b@);
    }
    true
}

} // verus!
