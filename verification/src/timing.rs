//! Device timestamps: from raw counter entries to nanoseconds.

use vstd::prelude::*;

use crate::bytes::{native_word, word_from_native};

verus! {

/// Bytes of one timestamp value at the start of a counter-heap entry.
pub const TIMESTAMP_BYTES: usize = 8;

/// Counter-heap entry of the timestamp before a timed dispatch.
pub const TIMESTAMP_BEGIN: usize = 0;

/// Counter-heap entry of the timestamp after a timed dispatch.
pub const TIMESTAMP_END: usize = 1;

/// Counter-heap entries of a timed dispatch.
pub const TIMESTAMP_COUNT: usize = 2;

/// Device ticks in nanoseconds, rounded down, in 64 bits. A frequency of zero means that ticks
/// already are nanoseconds.
pub open spec fn nanoseconds(frequency_hz: u64, ticks: u64) -> u64 {
    if frequency_hz == 0 {
        ticks
    } else {
        ((ticks * 1_000_000_000 / frequency_hz as int) % 0x1_0000_0000_0000_0000) as u64
    }
}

/// Converts device ticks to nanoseconds.
pub fn ticks_to_ns(frequency_hz: u64, ticks: u64) -> (ns: u64)
    ensures
        ns == nanoseconds(frequency_hz, ticks),
{
    if frequency_hz > 0 {
        proof {
            assert(ticks * 1_000_000_000 <= u128::MAX) by (nonlinear_arith)
                requires
                    ticks <= u64::MAX,
            ;
        }
        let wide: u128 = ticks as u128 * 1_000_000_000 / frequency_hz as u128;
        (wide % 0x1_0000_0000_0000_0000) as u64
    } else {
        ticks
    }
}

/// The timestamp in entry `index` of resolved counter data, where the data reaches that far.
pub open spec fn timestamp_at(data: Seq<u8>, entry_size: nat, index: nat) -> Option<u64> {
    let start = (index * entry_size) as int;
    if start + TIMESTAMP_BYTES <= data.len() {
        Some(native_word(data.subrange(start, start + TIMESTAMP_BYTES)))
    } else {
        None
    }
}

/// Reads the timestamp in entry `index` of resolved counter data.
pub fn read_timestamp(data: &[u8], entry_size: usize, index: usize) -> (r: Option<u64>)
    requires
        index * entry_size + TIMESTAMP_BYTES <= usize::MAX,
    ensures
        r == timestamp_at(data@, entry_size as nat, index as nat),
{
    let start: usize = index * entry_size;
    if start + TIMESTAMP_BYTES <= data.len() {
        let raw = [
            data[start],
            data[start + 1],
            data[start + 2],
            data[start + 3],
            data[start + 4],
            data[start + 5],
            data[start + 6],
            data[start + 7],
        ];
        assert(raw@ =~= data@.subrange(start as int, start + TIMESTAMP_BYTES));
        Some(word_from_native(raw))
    } else {
        None
    }
}

/// How long a timed dispatch took, from the resolved counter data: the time from the first
/// timestamp to the second, or zero where the second is not later. Fails where there is no data,
/// or where it is too short to hold both timestamps.
pub open spec fn duration_of(
    data: Option<Seq<u8>>,
    entry_size: nat,
    frequency_hz: u64,
) -> Result<u64, Seq<char>> {
    match data {
        None => Err("timestamp resolve returned no data"@),
        Some(bytes) => match (
            timestamp_at(bytes, entry_size, TIMESTAMP_BEGIN as nat),
            timestamp_at(bytes, entry_size, TIMESTAMP_END as nat),
        ) {
            (Some(begin), Some(end)) => Ok(
                nanoseconds(
                    frequency_hz,
                    if end > begin {
                        (end - begin) as u64
                    } else {
                        0
                    },
                ),
            ),
            _ => Err("timestamp entry out of range"@),
        },
    }
}

/// Computes how long a timed dispatch took, in nanoseconds.
pub fn timed_duration(data: Option<Vec<u8>>, entry_size: usize, frequency_hz: u64) -> (r: Result<
    u64,
    String,
>)
    requires
        entry_size + TIMESTAMP_BYTES <= usize::MAX,
    ensures
        match duration_of(
            match data {
                Some(bytes) => Some(bytes@),
                None => None,
            },
            entry_size as nat,
            frequency_hz,
        ) {
            Ok(ns) => r == Ok::<u64, String>(ns),
            Err(message) => r matches Err(e) && e@ == message,
        },
{
    let bytes = match data {
        None => {
            return Err(String::from_str("timestamp resolve returned no data"));
        },
        Some(bytes) => bytes,
    };
    let begin = match read_timestamp(bytes.as_slice(), entry_size, TIMESTAMP_BEGIN) {
        None => {
            return Err(String::from_str("timestamp entry out of range"));
        },
        Some(begin) => begin,
    };
    let end = match read_timestamp(bytes.as_slice(), entry_size, TIMESTAMP_END) {
        None => {
            return Err(String::from_str("timestamp entry out of range"));
        },
        Some(end) => end,
    };
    Ok(ticks_to_ns(frequency_hz, end.saturating_sub(begin)))
}

/// More ticks are no fewer nanoseconds, as long as the nanoseconds fit 64 bits.
pub proof fn law_nanoseconds_monotonic(frequency_hz: u64, a: u64, b: u64)
    requires
        a <= b,
        frequency_hz == 0 || b * 1_000_000_000 / frequency_hz as int <= u64::MAX,
    ensures
        nanoseconds(frequency_hz, a) <= nanoseconds(frequency_hz, b),
{
    if frequency_hz > 0 {
        let f = frequency_hz as int;
        vstd::arithmetic::div_mod::lemma_div_is_ordered(a * 1_000_000_000, b * 1_000_000_000, f);
        vstd::arithmetic::div_mod::lemma_div_pos_is_pos(a * 1_000_000_000, f);
    }
}

/// A device that ticks once a nanosecond needs no conversion.
pub proof fn law_nanosecond_clock(ticks: u64)
    ensures
        nanoseconds(1_000_000_000, ticks) == ticks,
{
    vstd::arithmetic::div_mod::lemma_div_by_multiple(ticks as int, 1_000_000_000);
}

/// Nanoseconds are the whole part of the ticks divided by their frequency: no more than the ticks
/// take, and less than one short of it. `k` is how often 64 bits overflow; a frequency of zero
/// changes nothing.
pub proof fn law_nanoseconds_rounded_down(frequency_hz: u64, ticks: u64) -> (k: nat)
    ensures
        frequency_hz == 0 ==> nanoseconds(frequency_hz, ticks) == ticks,
        frequency_hz > 0 ==> {
            let ns = nanoseconds(frequency_hz, ticks) + k * 0x1_0000_0000_0000_0000;
            ns * frequency_hz <= ticks * 1_000_000_000 < (ns + 1) * frequency_hz
        },
        frequency_hz > 0 && ticks * 1_000_000_000 < frequency_hz * 0x1_0000_0000_0000_0000 ==> k
            == 0,
{
    if frequency_hz > 0 {
        let f = frequency_hz as int;
        let t = ticks * 1_000_000_000;
        let q = t / f;
        let wrap = 0x1_0000_0000_0000_0000int;
        vstd::arithmetic::div_mod::lemma_fundamental_div_mod(t, f);
        vstd::arithmetic::div_mod::lemma_div_pos_is_pos(t, f);
        vstd::arithmetic::div_mod::lemma_fundamental_div_mod(q, wrap);
        let k = (q / wrap) as nat;
        assert(q * f <= t < (q + 1) * f) by (nonlinear_arith)
            requires
                t == f * q + t % f,
                0 <= t % f < f,
        ;
        if t < f * wrap {
            assert(q < wrap) by (nonlinear_arith)
                requires
                    q * f <= t,
                    t < f * wrap,
                    f > 0,
            ;
        }
        assert(nanoseconds(frequency_hz, ticks) + k * wrap == q);
        k
    } else {
        0
    }
}

/// A timestamp is there exactly if the data reaches over all of it, and it is the word whose bytes
/// stand at its entry.
pub proof fn law_timestamp_holds_its_bytes(data: Seq<u8>, entry_size: nat, index: nat)
    ensures
        timestamp_at(data, entry_size, index) is Some <==> index * entry_size + 8 <= data.len(),
        timestamp_at(data, entry_size, index) matches Some(word) ==> crate::bytes::native_bytes(
            word,
        ) == data.subrange((index * entry_size) as int, (index * entry_size + 8) as int),
{
    let start = (index * entry_size) as int;
    assert(start >= 0);
    if start + 8 <= data.len() {
        crate::bytes::law_bytes_read_back(data.subrange(start, start + 8));
    }
}

/// A timed dispatch takes the time from its first timestamp to its second, or none where the second
/// is not later. The two are found at the start of the data and one entry behind it.
pub proof fn law_duration_between_timestamps(
    data: Seq<u8>,
    entry_size: nat,
    frequency_hz: u64,
    begin: u64,
    end: u64,
)
    requires
        entry_size + 8 <= data.len(),
        data.take(8) == crate::bytes::native_bytes(begin),
        data.subrange(entry_size as int, (entry_size + 8) as int) == crate::bytes::native_bytes(end),
    ensures
        begin <= end ==> duration_of(Some(data), entry_size, frequency_hz) == Ok::<u64, Seq<char>>(
            nanoseconds(frequency_hz, (end - begin) as u64),
        ),
        end <= begin ==> duration_of(Some(data), entry_size, frequency_hz) == Ok::<u64, Seq<char>>(
            0,
        ),
{
    crate::bytes::law_word_read_back(begin);
    crate::bytes::law_word_read_back(end);
    assert(0 * entry_size == 0 && 1 * entry_size == entry_size) by (nonlinear_arith);
    assert(data.subrange(0, 8) =~= data.take(8));
    assert(nanoseconds(frequency_hz, 0) == 0) by {
        if frequency_hz > 0 {
            vstd::arithmetic::div_mod::lemma_div_basics(frequency_hz as int);
        }
    }
}

/// Without data, or with data too short for both timestamps, there is no duration, and the error
/// says which.
pub proof fn law_no_duration_without_timestamps(
    data: Option<Seq<u8>>,
    entry_size: nat,
    frequency_hz: u64,
)
    ensures
        data is None ==> duration_of(data, entry_size, frequency_hz) == Err::<u64, Seq<char>>(
            "timestamp resolve returned no data"@,
        ),
        data matches Some(bytes) ==> (bytes.len() < 8 || bytes.len() < entry_size + 8)
            ==> duration_of(data, entry_size, frequency_hz) == Err::<u64, Seq<char>>(
            "timestamp entry out of range"@,
        ),
{
    assert(0 * entry_size == 0 && 1 * entry_size == entry_size) by (nonlinear_arith);
}

/// Nanoseconds are the ticks in whole nanoseconds of the clock, rounded down, where they can be
/// written down. Without a clock they are the ticks.
pub proof fn law_ticks_in_whole_nanoseconds(frequency_hz: u64, ticks: u64, ns: u64)
    requires
        call_ensures(ticks_to_ns, (frequency_hz, ticks), ns),
        ticks * 1_000_000_000 < frequency_hz * 0x1_0000_0000_0000_0000 || frequency_hz == 0,
    ensures
        frequency_hz == 0 ==> ns == ticks,
        frequency_hz > 0 ==> ns * frequency_hz <= ticks * 1_000_000_000 < (ns + 1) * frequency_hz,
{
    let k = law_nanoseconds_rounded_down(frequency_hz, ticks);
    assert(k == 0 || frequency_hz == 0);
}

/// A duration is the time between the two timestamps that the data holds, none where they run
/// backwards. It is there exactly where the data holds both.
pub proof fn law_timed_between_its_timestamps(
    data: Vec<u8>,
    entry_size: usize,
    frequency_hz: u64,
    begin: Option<u64>,
    end: Option<u64>,
    r: Result<u64, String>,
    ns: u64,
)
    requires
        call_ensures(timed_duration, (Some(data), entry_size, frequency_hz), r),
        begin == timestamp_at(data@, entry_size as nat, 0),
        end == timestamp_at(data@, entry_size as nat, 1),
        begin matches Some(b) ==> (end matches Some(e) ==> (b <= e ==> call_ensures(
            ticks_to_ns,
            (frequency_hz, (e - b) as u64),
            ns,
        ))),
    ensures
        r is Ok <==> data@.len() >= 8 && data@.len() >= entry_size + 8,
        r matches Ok(duration) ==> begin is Some && end is Some && duration == (if begin->0
            <= end->0 {
            ns
        } else {
            0
        }),
{
    law_timestamp_holds_its_bytes(data@, entry_size as nat, 0);
    law_timestamp_holds_its_bytes(data@, entry_size as nat, 1);
    law_no_duration_without_timestamps(Some(data@), entry_size as nat, frequency_hz);
    assert(0 * entry_size == 0);
    assert(1 * entry_size == entry_size);
    if begin is Some && end is Some && begin->0 > end->0 {
        let k = law_nanoseconds_rounded_down(frequency_hz, 0);
        law_duration_between_timestamps(
            data@,
            entry_size as nat,
            frequency_hz,
            begin->0,
            end->0,
        );
    }
}

/// A timestamp is read from the eight bytes of its entry, where the data holds them.
pub proof fn law_timestamp_is_read_from_its_entry(
    data: &[u8],
    entry_size: usize,
    index: usize,
    r: Option<u64>,
)
    requires
        call_ensures(read_timestamp, (data, entry_size, index), r),
    ensures
        r is Some <==> index * entry_size + 8 <= data@.len(),
        r matches Some(word) ==> crate::bytes::native_bytes(word) == data@.subrange(
            index * entry_size,
            index * entry_size + 8,
        ),
{
    law_timestamp_holds_its_bytes(data@, entry_size as nat, index as nat);
}

} // verus!
