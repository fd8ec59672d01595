use crate::error::{HeaderKey, MissingHeaderKey, SubfileError};
use vstd::prelude::*;
use vstd::string::*;
use vstd::utf8::*;

verus! {

/// Length in bytes of the header block at the start of every subfile.
pub const HEADER_LEN: usize = 4096;

/// The first position at or after `i` where `s` holds `c`.
pub open spec fn find_from(s: Seq<char>, c: char, i: nat) -> Option<nat>
    decreases s.len() - i,
{
    if i >= s.len() {
        None
    } else if s[i as int] == c {
        Some(i)
    } else {
        find_from(s, c, i + 1)
    }
}

/// The key of a header line: what stands before its first space (nothing
/// for a line without a space).
pub open spec fn key_of(line: Seq<char>) -> Seq<char> {
    match find_from(line, ' ', 0) {
        Some(p) => line.subrange(0, p as int),
        None => Seq::empty(),
    }
}

/// The value of a header line: what follows its first space (nothing for a
/// line without a space).
pub open spec fn value_of(line: Seq<char>) -> Seq<char> {
    match find_from(line, ' ', 0) {
        Some(p) => line.subrange(p + 1int, line.len() as int),
        None => Seq::empty(),
    }
}

/// The pieces of `s` between separators, where the current piece began at
/// `start` and the scan has reached `i`.
pub open spec fn split_from(s: Seq<char>, sep: char, start: nat, i: nat) -> Seq<Seq<char>>
    decreases s.len() - i,
{
    if i >= s.len() {
        seq![s.subrange(start as int, s.len() as int)]
    } else if s[i as int] == sep {
        seq![s.subrange(start as int, i as int)] + split_from(s, sep, i + 1, i + 1)
    } else {
        split_from(s, sep, start, i + 1)
    }
}

/// The lines of a header text: the pieces between newlines, the last one
/// included even where it is empty.
pub open spec fn header_lines(text: Seq<char>) -> Seq<Seq<char>> {
    split_from(text, '\n', 0, 0)
}

/// The value of the first line whose key is `key`.
pub open spec fn lookup(lines: Seq<Seq<char>>, key: Seq<char>) -> Option<Seq<char>>
    decreases lines.len(),
{
    if lines.len() == 0 {
        None
    } else if key_of(lines[0]) == key {
        Some(value_of(lines[0]))
    } else {
        lookup(lines.drop_first(), key)
    }
}

/// The characters of each line.
pub open spec fn view_lines(lines: Seq<&str>) -> Seq<Seq<char>> {
    lines.map_values(|l: &str| l@)
}

/// Finds the first line of `header` whose key is `key` and returns its value.
pub fn read_subfile_header_key(header: &Vec<&str>, key: &str) -> (r: Result<
    String,
    MissingHeaderKey,
>)
    ensures
        match r {
            Ok(v) => lookup(view_lines(header@), key@) == Some(v@),
            Err(e) => lookup(view_lines(header@), key@) is None && e.key@ == key@,
        },
{
    let ghost lines = view_lines(header@);
    assert(lines.subrange(0, lines.len() as int) =~= lines);
    let mut i: usize = 0;
    while i < header.len()
        invariant
            i <= header@.len(),
            lines == view_lines(header@),
            lookup(lines, key@) == lookup(lines.subrange(i as int, lines.len() as int), key@),
        decreases header@.len() - i,
    {
        let line: &str = header[i];
        let (found_key, value) = split_key_value(line);
        proof {
            let rest = lines.subrange(i as int, lines.len() as int);
            assert(rest[0] == line@);
            assert(rest.drop_first() =~= lines.subrange(i + 1, lines.len() as int));
        }
        if str_equal(found_key, key) {
            return Ok(value.to_owned());
        }
        i = i + 1;
    }
    proof {
        assert(lines.subrange(i as int, lines.len() as int).len() == 0);
    }
    Err(MissingHeaderKey { key: key.to_owned() })
}

/// Whether two strings hold the same characters.
fn str_equal(a: &str, b: &str) -> (r: bool)
    ensures
        r == (a@ == b@),
{
    let n = a.unicode_len();
    if n != b.unicode_len() {
        return false;
    }
    let mut i: usize = 0;
    while i < n
        invariant
            n == a@.len(),
            n == b@.len(),
            i <= n,
            forall|j: int| 0 <= j < i ==> a@[j] == b@[j],
        decreases n - i,
    {
        if a.get_char(i) != b.get_char(i) {
            return false;
        }
        i = i + 1;
    }
    assert(a@ =~= b@);
    true
}

/// The first position of `c` in `s`, if any.
fn find_char(s: &str, c: char) -> (r: Option<usize>)
    ensures
        match r {
            Some(p) => find_from(s@, c, 0) == Some(p as nat),
            None => find_from(s@, c, 0) is None,
        },
{
    let n = s.unicode_len();
    let mut i: usize = 0;
    while i < n
        invariant
            n == s@.len(),
            i <= n,
            find_from(s@, c, 0) == find_from(s@, c, i as nat),
        decreases n - i,
    {
        if s.get_char(i) == c {
            return Some(i);
        }
        i = i + 1;
    }
    None
}

/// Splits a header line at its first space into key and value.
fn split_key_value<'a>(line: &'a str) -> (r: (&'a str, &'a str))
    ensures
        r.0@ == key_of(line@),
        r.1@ == value_of(line@),
{
    match find_char(line, ' ') {
        Some(p) => {
            proof {
                lemma_find_from_in_bounds(line@, ' ', 0);
            }
            let n = line.unicode_len();
            (line.substring_char(0, p), line.substring_char(p + 1, n))
        },
        None => {
            proof {
                reveal_strlit("");
            }
            ("", "")
        },
    }
}

proof fn lemma_find_from_in_bounds(s: Seq<char>, c: char, i: nat)
    ensures
        match find_from(s, c, i) {
            Some(p) => i <= p < s.len() && s[p as int] == c,
            None => true,
        },
    decreases s.len() - i,
{
    if i < s.len() && s[i as int] != c {
        lemma_find_from_in_bounds(s, c, i + 1);
    }
}

/// Splits a header text into its lines at every newline.
pub fn split_header_lines<'a>(text: &'a str) -> (r: Vec<&'a str>)
    ensures
        view_lines(r@) == header_lines(text@),
{
    let n = text.unicode_len();
    let mut lines: Vec<&'a str> = Vec::new();
    let mut start: usize = 0;
    let mut i: usize = 0;
    while i < n
        invariant
            n == text@.len(),
            start <= i <= n,
            view_lines(lines@) + split_from(text@, '\n', start as nat, i as nat) == header_lines(
                text@,
            ),
        decreases n - i,
    {
        if text.get_char(i) == '\n' {
            let line = text.substring_char(start, i);
            proof {
                assert(view_lines(lines@.push(line)) =~= view_lines(lines@).push(line@));
                assert(view_lines(lines@).push(line@) + split_from(text@, '\n', (i + 1) as nat, (i + 1) as nat)
                    =~= view_lines(lines@) + split_from(text@, '\n', start as nat, i as nat));
            }
            lines.push(line);
            start = i + 1;
        }
        i = i + 1;
    }
    let last = text.substring_char(start, n);
    proof {
        assert(view_lines(lines@.push(last)) =~= view_lines(lines@).push(last@));
        assert(view_lines(lines@).push(last@) =~= view_lines(lines@) + split_from(text@, '\n', start as nat, i as nat));
    }
    lines.push(last);
    lines
}

/// An ASCII decimal digit.
pub open spec fn is_digit(c: char) -> bool {
    '0' <= c && c <= '9'
}

/// The number that a run of decimal digits writes.
pub open spec fn digits_value(s: Seq<char>) -> nat
    decreases s.len(),
{
    if s.len() == 0 {
        0
    } else {
        digits_value(s.drop_last()) * 10 + (s.last() as u32 - '0' as u32) as nat
    }
}

/// The digits of a number written with an optional leading `+`.
pub open spec fn digit_part(s: Seq<char>) -> Seq<char> {
    if s.len() > 0 && s[0] == '+' {
        s.drop_first()
    } else {
        s
    }
}

/// The value of a non-negative decimal integer that fits in 64 bits: an
/// optional `+` and then one or more digits, and nothing else.
pub open spec fn decimal_value(s: Seq<char>) -> Option<nat> {
    let d = digit_part(s);
    if d.len() > 0 && (forall|i: int| 0 <= i < d.len() ==> is_digit(d[i])) && digits_value(d)
        <= u64::MAX {
        Some(digits_value(d))
    } else {
        None
    }
}

/// Reads a non-negative decimal integer that fits in 64 bits.
pub fn parse_decimal(s: &str) -> (r: Option<u64>)
    ensures
        match r {
            Some(v) => decimal_value(s@) == Some(v as nat),
            None => decimal_value(s@) is None,
        },
{
    let n = s.unicode_len();
    let mut first: usize = 0;
    if n > 0 && s.get_char(0) == '+' {
        first = 1;
    }
    let ghost d = digit_part(s@);
    assert(d =~= s@.subrange(first as int, n as int));
    if first == n {
        return None;
    }
    let mut acc: u64 = 0;
    let mut over = false;
    let mut i: usize = first;
    assert(s@.subrange(first as int, first as int).len() == 0);
    while i < n
        invariant
            n == s@.len(),
            first < n,
            first <= i <= n,
            d == s@.subrange(first as int, n as int),
            d == digit_part(s@),
            forall|j: int| first <= j < i ==> is_digit(s@[j]),
            !over ==> acc as nat == digits_value(s@.subrange(first as int, i as int)),
            over ==> digits_value(s@.subrange(first as int, i as int)) > u64::MAX,
        decreases n - i,
    {
        let c = s.get_char(i);
        if !('0' <= c && c <= '9') {
            assert(!is_digit(d[i - first]));
            return None;
        }
        let digit: u64 = (c as u32 - '0' as u32) as u64;
        let ghost before = digits_value(s@.subrange(first as int, i as int));
        proof {
            let next = s@.subrange(first as int, i + 1);
            assert(next.drop_last() =~= s@.subrange(first as int, i as int));
            assert(digits_value(next) == before * 10 + digit);
        }
        if !over {
            if acc > (u64::MAX - digit) / 10 {
                assert(acc * 10 + digit > u64::MAX) by (nonlinear_arith)
                    requires
                        acc > (u64::MAX - digit) / 10,
                        digit <= 9,
                ;
                over = true;
            } else {
                assert(acc * 10 + digit <= u64::MAX) by (nonlinear_arith)
                    requires
                        acc <= (u64::MAX - digit) / 10,
                        digit <= 9,
                ;
                acc = acc * 10 + digit;
            }
        }
        i = i + 1;
    }
    assert(s@.subrange(first as int, n as int) =~= d);
    if over {
        None
    } else {
        Some(acc)
    }
}

/// The fields of a subfile header that packet statistics need.
#[derive(Clone, Debug)]
pub struct SubfileHeader {
    /// `SUBOBS_ID`: the sub-observation this subfile belongs to.
    pub subobs_id: String,
    /// `NINPUTS`: the number of inputs, two per tile.
    pub ninputs: usize,
    /// `COARSE_CHANNEL`: the coarse channel of this subfile.
    pub chan: String,
    /// The packet map's offset, counted from the end of the header block.
    pub map_start_index: u64,
    /// The packet map's length in bytes.
    pub map_length: usize,
}

/// What a `SubfileHeader` holds, as mathematical values.
pub struct HeaderView {
    pub subobs_id: Seq<char>,
    pub ninputs: nat,
    pub chan: Seq<char>,
    pub map_start_index: nat,
    pub map_length: nat,
}

impl View for SubfileHeader {
    type V = HeaderView;

    open spec fn view(&self) -> HeaderView {
        HeaderView {
            subobs_id: self.subobs_id@,
            ninputs: self.ninputs as nat,
            chan: self.chan@,
            map_start_index: self.map_start_index as nat,
            map_length: self.map_length as nat,
        }
    }
}

/// A parse result with the header seen through its view.
pub open spec fn header_result_view(r: Result<SubfileHeader, SubfileError>) -> Result<
    HeaderView,
    SubfileError,
> {
    match r {
        Ok(h) => Ok(h@),
        Err(e) => Err(e),
    }
}

/// What the header lines say, or the first fault found in them. The keys are
/// looked up in this order: `IDX_PACKET_MAP`, `NINPUTS` (and its number),
/// `SUBOBS_ID`, `COARSE_CHANNEL`; then `IDX_PACKET_MAP` is split at its
/// first `+` into start and length. `NINPUTS` and the length must fit in a
/// `usize`, the start in a `u64`.
pub open spec fn header_from_lines(lines: Seq<Seq<char>>) -> Result<HeaderView, SubfileError> {
    match lookup(lines, HeaderKey::IdxPacketMap.spec_name()) {
        None => Err(SubfileError::MissingKey(HeaderKey::IdxPacketMap)),
        Some(idx) => match lookup(lines, HeaderKey::Ninputs.spec_name()) {
            None => Err(SubfileError::MissingKey(HeaderKey::Ninputs)),
            Some(nin) => match decimal_value(nin) {
                Some(ninputs) if ninputs <= usize::MAX => match lookup(lines, HeaderKey::SubobsId.spec_name()) {
                    None => Err(SubfileError::MissingKey(HeaderKey::SubobsId)),
                    Some(subobs_id) => match lookup(lines, HeaderKey::CoarseChannel.spec_name()) {
                        None => Err(SubfileError::MissingKey(HeaderKey::CoarseChannel)),
                        Some(chan) => match find_from(idx, '+', 0) {
                            None => Err(SubfileError::MalformedPacketMapIndex),
                            Some(p) => match (
                                decimal_value(idx.subrange(0, p as int)),
                                decimal_value(idx.subrange(p + 1int, idx.len() as int)),
                            ) {
                                (Some(start), Some(length)) if length <= usize::MAX => Ok(
                                    HeaderView {
                                        subobs_id,
                                        ninputs,
                                        chan,
                                        map_start_index: start,
                                        map_length: length,
                                    },
                                ),
                                _ => Err(SubfileError::InvalidNumber(HeaderKey::IdxPacketMap)),
                            },
                        },
                    },
                },
                _ => Err(SubfileError::InvalidNumber(HeaderKey::Ninputs)),
            },
        },
    }
}

/// What a header block says: its lines' fields where it is valid UTF-8.
pub open spec fn header_from_bytes(buf: Seq<u8>) -> Result<HeaderView, SubfileError> {
    if valid_utf8(buf) {
        header_from_lines(header_lines(decode_utf8(buf)))
    } else {
        Err(SubfileError::InvalidUtf8)
    }
}

/// Reads the header fields from the lines of a header.
pub fn parse_header_lines(lines: &Vec<&str>) -> (r: Result<SubfileHeader, SubfileError>)
    ensures
        header_result_view(r) == header_from_lines(view_lines(lines@)),
{
    let idx = match read_subfile_header_key(lines, HeaderKey::IdxPacketMap.name()) {
        Ok(v) => v,
        Err(_) => return Err(SubfileError::MissingKey(HeaderKey::IdxPacketMap)),
    };
    let nin = match read_subfile_header_key(lines, HeaderKey::Ninputs.name()) {
        Ok(v) => v,
        Err(_) => return Err(SubfileError::MissingKey(HeaderKey::Ninputs)),
    };
    let ninputs: usize = match parse_decimal(nin.as_str()) {
        Some(n) if n <= usize::MAX as u64 => n as usize,
        _ => return Err(SubfileError::InvalidNumber(HeaderKey::Ninputs)),
    };
    let subobs_id = match read_subfile_header_key(lines, HeaderKey::SubobsId.name()) {
        Ok(v) => v,
        Err(_) => return Err(SubfileError::MissingKey(HeaderKey::SubobsId)),
    };
    let chan = match read_subfile_header_key(lines, HeaderKey::CoarseChannel.name()) {
        Ok(v) => v,
        Err(_) => return Err(SubfileError::MissingKey(HeaderKey::CoarseChannel)),
    };
    let idx_str = idx.as_str();
    let plus = match find_char(idx_str, '+') {
        Some(p) => p,
        None => return Err(SubfileError::MalformedPacketMapIndex),
    };
    proof {
        lemma_find_from_in_bounds(idx_str@, '+', 0);
    }
    let n = idx_str.unicode_len();
    let start = parse_decimal(idx_str.substring_char(0, plus));
    let length = parse_decimal(idx_str.substring_char(plus + 1, n));
    match (start, length) {
        (Some(map_start_index), Some(map_length)) if map_length <= usize::MAX as u64 => Ok(
            SubfileHeader {
                subobs_id,
                ninputs,
                chan,
                map_start_index,
                map_length: map_length as usize,
            },
        ),
        _ => Err(SubfileError::InvalidNumber(HeaderKey::IdxPacketMap)),
    }
}

/// Relies on `std::str::from_utf8`: it succeeds exactly on valid UTF-8, and
/// the `str` it returns holds the same bytes.
#[verifier::external_body]
fn utf8_text(buf: &[u8]) -> (r: Option<&str>)
    ensures
        r is Some <==> valid_utf8(buf@),
        match r {
            Some(text) => text.spec_bytes() == buf@,
            None => true,
        },
{
    std::str::from_utf8(buf).ok()
}

/// Reads the header fields from a subfile's header block, decoded as UTF-8
/// and split into lines at every newline.
pub fn parse_header(buf: &[u8]) -> (r: Result<SubfileHeader, SubfileError>)
    ensures
        header_result_view(r) == header_from_bytes(buf@),
{
    let text = match utf8_text(buf) {
        Some(t) => t,
        None => return Err(SubfileError::InvalidUtf8),
    };
    proof {
        encode_utf8_decode_utf8(text@);
    }
    let lines = split_header_lines(text);
    parse_header_lines(&lines)
}

impl SubfileHeader {
    /// The packet map's absolute offset in the subfile: the header block's
    /// length plus the start that `IDX_PACKET_MAP` gives.
    pub fn packet_map_offset(&self) -> (r: Result<u64, SubfileError>)
        ensures
            HEADER_LEN + self.map_start_index <= u64::MAX ==> r == Ok::<u64, SubfileError>(
                (HEADER_LEN + self.map_start_index) as u64,
            ),
            HEADER_LEN + self.map_start_index > u64::MAX ==> r == Err::<u64, SubfileError>(
                SubfileError::PacketMapOutOfRange,
            ),
    {
        match self.map_start_index.checked_add(HEADER_LEN as u64) {
            Some(o) => Ok(o),
            None => Err(SubfileError::PacketMapOutOfRange),
        }
    }
}

/// Where several lines carry the same key, the value comes from the first
/// of them.
pub proof fn lemma_first_line_wins(lines: Seq<Seq<char>>, key: Seq<char>, first: int, later: int)
    requires
        0 <= first < later < lines.len(),
        key_of(lines[first]) == key,
        key_of(lines[later]) == key,
        forall|k: int| 0 <= k < first ==> key_of(#[trigger] lines[k]) != key,
    ensures
        lookup(lines, key) == Some(value_of(lines[first])),
    decreases first,
{
    if first > 0 {
        let rest = lines.drop_first();
        assert forall|k: int| 0 <= k < first - 1 implies key_of(#[trigger] rest[k]) != key by {
            assert(rest[k] == lines[k + 1]);
        }
        lemma_first_line_wins(rest, key, first - 1, later - 1);
    }
}

/// A header block that lacks any of the required keys is refused, so no
/// packet map is read and no statistics are written for it.
pub proof fn lemma_missing_key_refused(buf: Seq<u8>, key: HeaderKey)
    requires
        lookup(header_lines(decode_utf8(buf)), key.spec_name()) is None,
    ensures
        header_from_bytes(buf) is Err,
{
}

/// A header block whose `IDX_PACKET_MAP` value holds no `+` is refused (as
/// malformed, or for an earlier fault), so no packet map offset comes out
/// of it and no packet map is read.
pub proof fn lemma_malformed_packet_map_index_refused(buf: Seq<u8>, idx: Seq<char>)
    requires
        lookup(header_lines(decode_utf8(buf)), HeaderKey::IdxPacketMap.spec_name()) == Some(idx),
        forall|i: int| 0 <= i < idx.len() ==> idx[i] != '+',
    ensures
        header_from_bytes(buf) is Err,
{
    lemma_find_from_in_bounds(idx, '+', 0);
}

} // verus!
