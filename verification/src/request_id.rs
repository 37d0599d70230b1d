//! Request ids: a prefix, a time, a count and a process in fixed places.
use vstd::prelude::*;

use crate::text::digit;
use crate::text::hexadecimal;
use crate::text::hexadecimal_text;
use crate::text::hexadecimal_value;
use crate::text::law_hexadecimal_reads_back;
use crate::text::sixteens;

verus! {

/// The id of a request, the `count`-th of the process `process`, that came
/// `millis` milliseconds after the epoch: the low 32 bits of the time, the low
/// 14 bits of the count below a set top bit, the next 16 bits of the time, the
/// low 16 bits of the process.
pub open spec fn request_id(prefix: Seq<char>, count: nat, millis: nat, process: nat) -> Seq<char> {
    prefix + seq!['-'] + hexadecimal(millis % 0x1_0000_0000, 8) + seq!['-'] + hexadecimal(
        0x8000 + count % 0x4000,
        4,
    ) + seq!['-'] + hexadecimal((millis / 0x1_0000_0000) % 0x1_0000, 4) + seq!['-'] + hexadecimal(
        process % 0x1_0000,
        4,
    )
}

/// Makes the id of a request.
pub fn rustenphp_request_id(prefix: &str, seq: u64, millis: u128, process_id: u32) -> (id: String)
    ensures
        id@ == request_id(prefix@, seq as nat, millis as nat, process_id as nat),
{
    let timestamp = millis as u64;
    let node_id = process_id as u64;
    let time_low = (timestamp & 0xFFFF_FFFF) as u32;
    let time_mid = ((timestamp >> 32) & 0xFFFF) as u16;
    let clock_seq = (seq & 0x3FFF) as u16 | 0x8000;
    let node = (node_id & 0xFFFF) as u16;
    assert(time_low == millis % 0x1_0000_0000) by (bit_vector)
        requires
            time_low == ((millis as u64) & 0xFFFF_FFFF) as u32,
    ;
    assert(time_mid == (millis / 0x1_0000_0000) % 0x1_0000) by (bit_vector)
        requires
            time_mid == (((millis as u64) >> 32) & 0xFFFF) as u16,
    ;
    assert(clock_seq == 0x8000 + seq % 0x4000) by (bit_vector)
        requires
            clock_seq == (seq & 0x3FFF) as u16 | 0x8000,
    ;
    assert(node == node_id % 0x1_0000) by (bit_vector)
        requires
            node == (node_id & 0xFFFF) as u16,
    ;
    let mut id = prefix.to_owned();
    id.push('-');
    id.append(hexadecimal_text(time_low as u64, 8).as_str());
    id.push('-');
    id.append(hexadecimal_text(clock_seq as u64, 4).as_str());
    id.push('-');
    id.append(hexadecimal_text(time_mid as u64, 4).as_str());
    id.push('-');
    id.append(hexadecimal_text(node as u64, 4).as_str());
    assert(id@ == request_id(prefix@, seq as nat, millis as nat, process_id as nat));
    id
}

/// The numbers that `width` hexadecimal digits tell apart.
spec fn span(width: nat) -> nat
    decreases width,
{
    if width == 0 {
        1
    } else {
        16 * span((width - 1) as nat)
    }
}

proof fn lemma_hexadecimal_length(n: nat, width: nat)
    ensures
        hexadecimal(n, width).len() == width,
    decreases width,
{
    if width > 0 {
        lemma_hexadecimal_length(n / 16, (width - 1) as nat);
    }
}

proof fn lemma_hexadecimal_differs(a: nat, b: nat, width: nat)
    requires
        a < span(width),
        b < span(width),
        hexadecimal(a, width) == hexadecimal(b, width),
    ensures
        a == b,
    decreases width,
{
    if width > 0 {
        let w = (width - 1) as nat;
        let x = hexadecimal(a, width);
        assert(hexadecimal(a / 16, w) == x.drop_last() && digit(a % 16) == x.last());
        assert(hexadecimal(b / 16, w) == x.drop_last() && digit(b % 16) == x.last());
        lemma_hexadecimal_differs(a / 16, b / 16, w);
    }
}

proof fn lemma_hexadecimal_digits(n: nat, width: nat)
    ensures
        forall|i: int|
            0 <= i < width ==> {
                ||| '0' <= #[trigger] hexadecimal(n, width)[i] && hexadecimal(n, width)[i] <= '9'
                ||| 'a' <= hexadecimal(n, width)[i] && hexadecimal(n, width)[i] <= 'f'
            },
    decreases width,
{
    lemma_hexadecimal_length(n, width);
    if width > 0 {
        let w = (width - 1) as nat;
        lemma_hexadecimal_length(n / 16, w);
        lemma_hexadecimal_digits(n / 16, w);
        assert forall|i: int| 0 <= i < width implies {
            ||| '0' <= #[trigger] hexadecimal(n, width)[i] && hexadecimal(n, width)[i] <= '9'
            ||| 'a' <= hexadecimal(n, width)[i] && hexadecimal(n, width)[i] <= 'f'
        } by {
            if i < w {
                assert(hexadecimal(n, width)[i] == hexadecimal(n / 16, w)[i]);
            }
        }
    }
}

proof fn lemma_id_places(prefix: Seq<char>, count: nat, millis: nat, process: nat)
    ensures
        ({
            let id = request_id(prefix, count, millis, process);
            let n = prefix.len() as int;
            &&& id.len() == n + 24
            &&& id.take(n) == prefix
            &&& id[n] == '-' && id[n + 9] == '-' && id[n + 14] == '-' && id[n + 19] == '-'
            &&& id.subrange(n + 1, n + 9) == hexadecimal(millis % 0x1_0000_0000, 8)
            &&& id.subrange(n + 10, n + 14) == hexadecimal(0x8000 + count % 0x4000, 4)
            &&& id.subrange(n + 15, n + 19) == hexadecimal(
                (millis / 0x1_0000_0000) % 0x1_0000,
                4,
            )
            &&& id.subrange(n + 20, n + 24) == hexadecimal(process % 0x1_0000, 4)
        }),
{
    let low = millis % 0x1_0000_0000;
    let clock = 0x8000 + count % 0x4000;
    let mid = (millis / 0x1_0000_0000) % 0x1_0000;
    let node = process % 0x1_0000;
    lemma_hexadecimal_length(low, 8);
    lemma_hexadecimal_length(clock, 4);
    lemma_hexadecimal_length(mid, 4);
    lemma_hexadecimal_length(node, 4);
    let id = request_id(prefix, count, millis, process);
    let n = prefix.len() as int;
    assert(id.take(n) == prefix);
    assert(id.subrange(n + 1, n + 9) == hexadecimal(low, 8));
    assert(id.subrange(n + 10, n + 14) == hexadecimal(clock, 4));
    assert(id.subrange(n + 15, n + 19) == hexadecimal(mid, 4));
    assert(id.subrange(n + 20, n + 24) == hexadecimal(node, 4));
}

/// An id is its prefix and 24 more characters, all of them `-`, digits and the
/// letters `a` to `f`.
pub proof fn law_id_is_plain(prefix: Seq<char>, count: nat, millis: nat, process: nat)
    ensures
        request_id(prefix, count, millis, process).len() == prefix.len() + 24,
        request_id(prefix, count, millis, process).take(prefix.len() as int) == prefix,
        forall|i: int|
            prefix.len() <= i < prefix.len() + 24 ==> {
                let c = #[trigger] request_id(prefix, count, millis, process)[i];
                c == '-' || ('0' <= c && c <= '9') || ('a' <= c && c <= 'f')
            },
{
    let low = millis % 0x1_0000_0000;
    let clock = 0x8000 + count % 0x4000;
    let mid = (millis / 0x1_0000_0000) % 0x1_0000;
    let node = process % 0x1_0000;
    lemma_id_places(prefix, count, millis, process);
    lemma_hexadecimal_digits(low, 8);
    lemma_hexadecimal_digits(clock, 4);
    lemma_hexadecimal_digits(mid, 4);
    lemma_hexadecimal_digits(node, 4);
    let id = request_id(prefix, count, millis, process);
    let n = prefix.len() as int;
    assert forall|i: int| n <= i < n + 24 implies {
        let c = #[trigger] id[i];
        c == '-' || ('0' <= c && c <= '9') || ('a' <= c && c <= 'f')
    } by {
        if n + 1 <= i < n + 9 {
            assert(id[i] == hexadecimal(low, 8)[i - n - 1]);
        } else if n + 10 <= i < n + 14 {
            assert(id[i] == hexadecimal(clock, 4)[i - n - 10]);
        } else if n + 15 <= i < n + 19 {
            assert(id[i] == hexadecimal(mid, 4)[i - n - 15]);
        } else if n + 20 <= i < n + 24 {
            assert(id[i] == hexadecimal(node, 4)[i - n - 20]);
        }
    }
}

/// Two ids with one prefix are the same only where the count agrees in its low
/// 14 bits, the time in its low 48 bits and the process in its low 16 bits.
pub proof fn law_ids_differ(
    prefix: Seq<char>,
    count: nat,
    millis: nat,
    process: nat,
    other_count: nat,
    other_millis: nat,
    other_process: nat,
)
    requires
        request_id(prefix, count, millis, process) == request_id(
            prefix,
            other_count,
            other_millis,
            other_process,
        ),
    ensures
        count % 0x4000 == other_count % 0x4000,
        millis % 0x1_0000_0000_0000 == other_millis % 0x1_0000_0000_0000,
        process % 0x1_0000 == other_process % 0x1_0000,
{
    lemma_id_places(prefix, count, millis, process);
    lemma_id_places(prefix, other_count, other_millis, other_process);
    reveal_with_fuel(span, 9);
    lemma_hexadecimal_differs(millis % 0x1_0000_0000, other_millis % 0x1_0000_0000, 8);
    lemma_hexadecimal_differs(0x8000 + count % 0x4000, 0x8000 + other_count % 0x4000, 4);
    lemma_hexadecimal_differs(
        (millis / 0x1_0000_0000) % 0x1_0000,
        (other_millis / 0x1_0000_0000) % 0x1_0000,
        4,
    );
    lemma_hexadecimal_differs(process % 0x1_0000, other_process % 0x1_0000, 4);
}

/// The ids that one process gives to requests fewer than 16384 apart differ,
/// whatever the clock says.
pub proof fn law_near_ids_differ(
    prefix: Seq<char>,
    count: nat,
    other_count: nat,
    millis: nat,
    other_millis: nat,
    process: nat,
)
    requires
        count < other_count < count + 0x4000,
    ensures
        request_id(prefix, count, millis, process) != request_id(
            prefix,
            other_count,
            other_millis,
            process,
        ),
{
    if request_id(prefix, count, millis, process) == request_id(
        prefix,
        other_count,
        other_millis,
        process,
    ) {
        law_ids_differ(prefix, count, millis, process, other_count, other_millis, process);
    }
}

/// An id tells the prefix it was made with, the low 32 bits of the time, the low
/// 14 bits of the count with the top bit of 16 set, the next 16 bits of the time
/// and the low 16 bits of the process: each of them in fixed places behind a dash,
/// in hexadecimal.
pub proof fn law_id_reads_back(prefix: Seq<char>, count: nat, millis: nat, process: nat)
    ensures
        ({
            let id = request_id(prefix, count, millis, process);
            let n = prefix.len() as int;
            &&& id.len() == n + 24
            &&& id.take(n) == prefix
            &&& id[n] == '-' && id[n + 9] == '-' && id[n + 14] == '-' && id[n + 19] == '-'
            &&& hexadecimal_value(id.subrange(n + 1, n + 9)) == millis % 0x1_0000_0000
            &&& hexadecimal_value(id.subrange(n + 10, n + 14)) == 0x8000 + count % 0x4000
            &&& hexadecimal_value(id.subrange(n + 15, n + 19)) == (millis / 0x1_0000_0000)
                % 0x1_0000
            &&& hexadecimal_value(id.subrange(n + 20, n + 24)) == process % 0x1_0000
        }),
{
    lemma_id_places(prefix, count, millis, process);
    reveal_with_fuel(sixteens, 9);
    assert(sixteens(4) == 0x1_0000 && sixteens(8) == 0x1_0000_0000);
    law_hexadecimal_reads_back(millis % 0x1_0000_0000, 8);
    law_hexadecimal_reads_back(0x8000 + count % 0x4000, 4);
    law_hexadecimal_reads_back((millis / 0x1_0000_0000) % 0x1_0000, 4);
    law_hexadecimal_reads_back(process % 0x1_0000, 4);
}

} // verus!
