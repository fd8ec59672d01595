use crate::error::SubfileError;
use crate::header::SubfileHeader;
use crate::loss::{count_lost_packets, loss_counts};
use vstd::prelude::*;
use vstd::string::*;

verus! {

/// The on-disk record of a sequence of counters: each as two bytes, low
/// byte first, in order, with nothing between them.
pub open spec fn le_bytes(counts: Seq<u16>) -> Seq<u8> {
    Seq::new(
        2 * counts.len(),
        |i: int|
            if i % 2 == 0 {
                (counts[i / 2] % 256) as u8
            } else {
                (counts[i / 2] / 256) as u8
            },
    )
}

/// Reads a record back as little-endian 16-bit counters; a trailing odd
/// byte is not a counter.
pub open spec fn read_le_u16s(bytes: Seq<u8>) -> Seq<u16> {
    Seq::new(bytes.len() / 2, |i: int| (bytes[2 * i] + 256 * bytes[2 * i + 1]) as u16)
}

/// Encodes the lost-packet counters as the packet statistics record: two
/// bytes per input, little-endian, in input order.
pub fn encode_packet_stats(packets_lost: &[u16]) -> (r: Vec<u8>)
    ensures
        r@ == le_bytes(packets_lost@),
{
    let mut out: Vec<u8> = Vec::new();
    let mut i: usize = 0;
    while i < packets_lost.len()
        invariant
            i <= packets_lost@.len(),
            out@ =~= le_bytes(packets_lost@.subrange(0, i as int)),
        decreases packets_lost@.len() - i,
    {
        let c = packets_lost[i];
        out.push((c % 256) as u8);
        out.push((c / 256) as u8);
        i = i + 1;
        assert(out@ =~= le_bytes(packets_lost@.subrange(0, i as int)));
    }
    assert(packets_lost@.subrange(0, i as int) =~= packets_lost@);
    out
}

/// Reading the record of any counters back as little-endian 16-bit values
/// gives the same counters, in the same order.
pub proof fn lemma_stats_round_trip(counts: Seq<u16>)
    ensures
        read_le_u16s(le_bytes(counts)) == counts,
{
    let bytes = le_bytes(counts);
    assert forall|i: int| 0 <= i < counts.len() implies #[trigger] read_le_u16s(bytes)[i]
        == counts[i] by {
        assert((2 * i) % 2 == 0);
        assert((2 * i + 1) % 2 == 1);
        assert((2 * i) / 2 == i);
        assert((2 * i + 1) / 2 == i);
    }
    assert(read_le_u16s(bytes) =~= counts);
}

/// The decimal digit `d` as a one-character string.
pub open spec fn digit_chars(d: nat) -> Seq<char> {
    "0123456789"@.subrange(d as int, d + 1int)
}

/// The decimal writing of `n`, without leading zeros.
pub open spec fn decimal_chars(n: nat) -> Seq<char>
    decreases n,
{
    if n < 10 {
        digit_chars(n)
    } else {
        decimal_chars(n / 10) + digit_chars(n % 10)
    }
}

/// Appends the decimal writing of `n` to `s`.
pub(crate) fn push_decimal(s: &mut String, n: usize)
    ensures
        final(s)@ == old(s)@ + decimal_chars(n as nat),
    decreases n,
{
    if n >= 10 {
        push_decimal(s, n / 10);
    }
    let d: usize = n % 10;
    proof {
        reveal_strlit("0123456789");
    }
    s.append("0123456789".substring_char(d, d + 1));
}

/// The name of the packet statistics file of a subfile:
/// `packetstats_<SUBOBS_ID>_<NINPUTS/2>T_ch<COARSE_CHANNEL>_<hostname>.dat`,
/// where `NINPUTS/2` is the number of tiles.
pub fn packet_stats_filename(header: &SubfileHeader, hostname: &str) -> (r: String)
    ensures
        r@ == "packetstats_"@ + header.subobs_id@ + "_"@ + decimal_chars(header.ninputs as nat / 2)
            + "T_ch"@ + header.chan@ + "_"@ + hostname@ + ".dat"@,
{
    let mut name = String::from_str("packetstats_");
    name.append(header.subobs_id.as_str());
    name.append("_");
    push_decimal(&mut name, header.ninputs / 2);
    name.append("T_ch");
    name.append(header.chan.as_str());
    name.append("_");
    name.append(hostname);
    name.append(".dat");
    name
}

/// The packet statistics of a subfile whose header has been read and whose
/// packet map has been fetched: the output file's name and its contents.
///
/// Fails where the header's `NINPUTS` is zero or the map cannot be laid out
/// as `NINPUTS` equal rows; then no file is to be written.
pub fn packet_stats_record(header: &SubfileHeader, map: Vec<u8>, hostname: &str) -> (r: Result<
    (String, Vec<u8>),
    SubfileError,
>)
    requires
        map@.len() <= isize::MAX,
    ensures
        header.ninputs == 0 ==> r == Err::<(String, Vec<u8>), SubfileError>(
            SubfileError::ZeroInputs,
        ),
        header.ninputs > 0 && (map@.len() % (header.ninputs as nat) != 0 || header.ninputs
            > isize::MAX) ==> r == Err::<
            (String, Vec<u8>),
            SubfileError,
        >(SubfileError::UnevenPacketMap),
        0 < header.ninputs <= isize::MAX && map@.len() % (header.ninputs as nat) == 0 ==> (r matches Ok(
            (name, bytes),
        ) && name@ == "packetstats_"@ + header.subobs_id@ + "_"@ + decimal_chars(
            header.ninputs as nat / 2,
        ) + "T_ch"@ + header.chan@ + "_"@ + hostname@ + ".dat"@ && bytes@ == le_bytes(
            loss_counts(map@, header.ninputs as nat),
        )),
{
    let packets_lost = count_lost_packets(map, header.ninputs)?;
    let name = packet_stats_filename(header, hostname);
    let bytes = encode_packet_stats(packets_lost.as_slice());
    Ok((name, bytes))
}

} // verus!
