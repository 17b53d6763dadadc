//! The sensor encoder.
//!
//! One outbound packet carries the binarized samples and the frame counter
//! as the text `{"np":[[id,v],...],"id":"esp32","f":N}` with a closing
//! newline to mark the message boundary on stream transports.  The packet
//! never exceeds its budget: when the samples would not fit, trailing
//! samples are dropped, deterministically, and nothing else changes.

use vstd::prelude::*;
use vstd::utf8::encode_utf8;
use vstd::slice::slice_to_vec;

verus! {

/// The packet budget in bytes.
pub const MAX_PACKET_BYTES: usize = 512;

/// Ten to the k-th power.
pub open spec fn pow10(k: nat) -> nat
    decreases k,
{
    if k == 0 {
        1
    } else {
        10 * pow10((k - 1) as nat)
    }
}

/// The decimal digits of n, most significant first, as ASCII bytes.
pub open spec fn dec_bytes(n: nat) -> Seq<u8>
    decreases n,
{
    if n < 10 {
        seq![(0x30 + n) as u8]
    } else {
        dec_bytes(n / 10) + seq![(0x30 + n % 10) as u8]
    }
}

/// A number below ten to the k spells at most k digits.
pub proof fn lemma_dec_bytes_len(n: nat, k: nat)
    requires
        1 <= k,
        n < pow10(k),
    ensures
        dec_bytes(n).len() <= k,
    decreases k,
{
    if n < 10 {
    } else {
        assert(n == 10 * (n / 10) + n % 10);
        assert(pow10(k) == 10 * pow10((k - 1) as nat));
        assert(n / 10 < pow10((k - 1) as nat));
        lemma_dec_bytes_len(n / 10, (k - 1) as nat);
    }
}

/// Any u64 spells at most twenty digits.
pub proof fn lemma_dec_bytes_len_u64(n: u64)
    ensures
        dec_bytes(n as nat).len() <= 20,
{
    reveal_with_fuel(pow10, 21);
    assert(pow10(20) == 100000000000000000000);
    lemma_dec_bytes_len(n as nat, 20);
}

/// Any u32 spells at most ten digits.
pub proof fn lemma_dec_bytes_len_u32(n: u32)
    ensures
        dec_bytes(n as nat).len() <= 10,
{
    reveal_with_fuel(pow10, 11);
    assert(pow10(10) == 10000000000);
    lemma_dec_bytes_len(n as nat, 10);
}

/// The decimal digits of n as ASCII bytes.
pub fn decimal_bytes(n: u64) -> (r: Vec<u8>)
    ensures
        r@ == dec_bytes(n as nat),
{
    if n == 0 {
        let mut out: Vec<u8> = Vec::new();
        out.push(0x30);
        proof {
            assert(out@ =~= dec_bytes(0));
        }
        return out;
    }
    let mut digits: Vec<u8> = Vec::new();
    let mut m: u64 = n;
    while m > 0
        invariant
            m > 0 ==> dec_bytes(n as nat) == dec_bytes(m as nat) + digits@.reverse(),
            m == 0 ==> dec_bytes(n as nat) == digits@.reverse(),
        decreases m,
    {
        let d = (0x30 + (m % 10)) as u8;
        let ghost before = digits@;
        digits.push(d);
        proof {
            assert(digits@.reverse() =~= seq![d] + before.reverse());
        }
        m = m / 10;
    }
    let mut out: Vec<u8> = Vec::new();
    let mut i: usize = digits.len();
    while i > 0
        invariant
            i <= digits@.len(),
            out@.len() == digits@.len() - i,
            forall|t: int| 0 <= t < out@.len() ==> out@[t] == digits@[digits@.len() - 1 - t],
        decreases i,
    {
        i -= 1;
        out.push(digits[i]);
    }
    proof {
        assert(out@ =~= digits@.reverse());
    }
    out
}

/// The bytes of one sample: `[id,v]` with v spelled 1 for a firing, 0 for a
/// silent channel.
pub open spec fn spec_sample_bytes(s: (u32, bool)) -> Seq<u8> {
    seq![0x5bu8] + dec_bytes(s.0 as nat) + seq![
        0x2cu8,
        (if s.1 {
            0x31u8
        } else {
            0x30u8
        }),
        0x5du8,
    ]
}

/// The samples' bytes joined with commas.
pub open spec fn spec_joined(samples: Seq<(u32, bool)>) -> Seq<u8>
    decreases samples.len(),
{
    if samples.len() == 0 {
        Seq::empty()
    } else if samples.len() == 1 {
        spec_sample_bytes(samples[0])
    } else {
        spec_joined(samples.drop_last()) + seq![0x2cu8] + spec_sample_bytes(samples.last())
    }
}

/// The packet opening, up to the sample list.
pub open spec fn spec_np_header() -> Seq<u8> {
    encode_utf8("{\"np\":["@)
}

/// The bytes between the sample list and the frame number.
pub open spec fn spec_np_mid() -> Seq<u8> {
    encode_utf8("],\"id\":\"esp32\",\"f\":"@)
}

/// The packet closing, after the frame number.
pub open spec fn spec_np_tail() -> Seq<u8> {
    encode_utf8("}\n"@)
}

/// The whole packet for the given samples and frame number.
pub open spec fn spec_packet(samples: Seq<(u32, bool)>, frame: u64) -> Seq<u8> {
    spec_np_header() + spec_joined(samples) + spec_np_mid() + dec_bytes(frame as nat)
        + spec_np_tail()
}

/// How many leading samples fit the packet budget: all of them when the
/// whole packet fits, otherwise as many as the next shorter list fits.
pub open spec fn spec_fit_count(samples: Seq<(u32, bool)>, frame: u64) -> int
    decreases samples.len(),
{
    if samples.len() == 0 {
        0
    } else if spec_packet(samples, frame).len() <= MAX_PACKET_BYTES {
        samples.len() as int
    } else {
        spec_fit_count(samples.drop_last(), frame)
    }
}

/// Appending one sample appends its bytes, after a comma when the list was
/// not empty.
proof fn lemma_joined_push(t: Seq<(u32, bool)>, x: (u32, bool))
    ensures
        t.len() == 0 ==> spec_joined(t.push(x)) == spec_sample_bytes(x),
        t.len() > 0 ==> spec_joined(t.push(x)) == spec_joined(t) + seq![0x2cu8]
            + spec_sample_bytes(x),
{
    assert(t.push(x).drop_last() =~= t);
    assert(t.push(x).last() == x);
}

/// A longer sample prefix never spells a shorter packet.
proof fn lemma_packet_len_monotone(samples: Seq<(u32, bool)>, frame: u64, k1: int, k2: int)
    requires
        0 <= k1 <= k2 <= samples.len(),
    ensures
        spec_packet(samples.take(k1), frame).len() <= spec_packet(samples.take(k2), frame).len(),
    decreases k2 - k1,
{
    if k1 < k2 {
        lemma_packet_len_monotone(samples, frame, k1, k2 - 1);
        assert(samples.take(k2 - 1).push(samples[k2 - 1]) =~= samples.take(k2));
        lemma_joined_push(samples.take(k2 - 1), samples[k2 - 1]);
    }
}

/// The fit count is the largest prefix that fits: it never exceeds the
/// sample count, its packet fits the budget, and when it leaves samples
/// behind, taking even one more would break the budget.
pub proof fn lemma_fit_count_props(samples: Seq<(u32, bool)>, frame: u64)
    ensures
        0 <= spec_fit_count(samples, frame) <= samples.len(),
        spec_packet(samples.take(spec_fit_count(samples, frame)), frame).len()
            <= MAX_PACKET_BYTES,
        spec_fit_count(samples, frame) < samples.len() ==> spec_packet(
            samples.take(spec_fit_count(samples, frame) + 1),
            frame,
        ).len() > MAX_PACKET_BYTES,
    decreases samples.len(),
{
    if samples.len() == 0 {
        lemma_empty_packet_fits(frame);
        assert(samples.take(0) =~= samples);
    } else if spec_packet(samples, frame).len() <= MAX_PACKET_BYTES {
        assert(samples.take(samples.len() as int) =~= samples);
    } else {
        lemma_fit_count_props(samples.drop_last(), frame);
        let fc = spec_fit_count(samples, frame);
        assert(samples.drop_last().take(fc) =~= samples.take(fc));
        if fc < samples.drop_last().len() {
            assert(samples.drop_last().take(fc + 1) =~= samples.take(fc + 1));
        } else {
            assert(samples.take(fc + 1) =~= samples);
        }
    }
}

/// The empty sample list always fits the budget: the fixed text and at
/// most twenty frame digits stay well under it.
proof fn lemma_empty_packet_fits(frame: u64)
    ensures
        spec_packet(Seq::<(u32, bool)>::empty(), frame).len() <= 48,
{
    reveal_strlit("{\"np\":[");
    reveal_strlit("],\"id\":\"esp32\",\"f\":");
    reveal_strlit("}\n");
    assert(vstd::utf8::is_ascii_chars("{\"np\":["@));
    assert(vstd::utf8::is_ascii_chars("],\"id\":\"esp32\",\"f\":"@));
    assert(vstd::utf8::is_ascii_chars("}\n"@));
    vstd::utf8::is_ascii_chars_encode_utf8("{\"np\":["@);
    vstd::utf8::is_ascii_chars_encode_utf8("],\"id\":\"esp32\",\"f\":"@);
    vstd::utf8::is_ascii_chars_encode_utf8("}\n"@);
    lemma_dec_bytes_len_u64(frame);
}

/// The exact fit count from what a greedy builder observes: k samples fit,
/// and either none remain or one more does not fit.
proof fn lemma_fit_count_char(samples: Seq<(u32, bool)>, frame: u64, k: int)
    requires
        0 <= k <= samples.len(),
        spec_packet(samples.take(k), frame).len() <= MAX_PACKET_BYTES,
        k == samples.len() || spec_packet(samples.take(k + 1), frame).len() > MAX_PACKET_BYTES,
    ensures
        spec_fit_count(samples, frame) == k,
    decreases samples.len(),
{
    if k == samples.len() {
        assert(samples.take(k) =~= samples);
    } else {
        lemma_packet_len_monotone(samples, frame, k + 1, samples.len() as int);
        assert(samples.take(samples.len() as int) =~= samples);
        assert(spec_packet(samples, frame).len() > MAX_PACKET_BYTES);
        assert(samples.drop_last().take(k) =~= samples.take(k));
        if k < samples.len() - 1 {
            assert(samples.drop_last().take(k + 1) =~= samples.take(k + 1));
        }
        lemma_fit_count_char(samples.drop_last(), frame, k);
    }
}

/// Append a byte slice to a vector.
fn push_bytes(out: &mut Vec<u8>, s: &[u8])
    ensures
        final(out)@ == old(out)@ + s@,
{
    let mut i: usize = 0;
    while i < s.len()
        invariant
            i <= s@.len(),
            out@ == old(out)@ + s@.take(i as int),
        decreases s@.len() - i,
    {
        out.push(s[i]);
        i += 1;
    }
    proof {
        assert(out@ =~= old(out)@ + s@);
    }
}

/// The packet opening as bytes.
fn np_header_bytes() -> (r: Vec<u8>)
    ensures
        r@ == spec_np_header(),
        r@.len() == 7,
{
    let s = "{\"np\":[";
    proof {
        reveal_strlit("{\"np\":[");
        assert(vstd::utf8::is_ascii_chars(s@));
        vstd::utf8::is_ascii_chars_encode_utf8(s@);
    }
    slice_to_vec(s.as_bytes())
}

/// The bytes between the sample list and the frame number.
fn np_mid_bytes() -> (r: Vec<u8>)
    ensures
        r@ == spec_np_mid(),
        r@.len() == 19,
{
    let s = "],\"id\":\"esp32\",\"f\":";
    proof {
        reveal_strlit("],\"id\":\"esp32\",\"f\":");
        assert(vstd::utf8::is_ascii_chars(s@));
        vstd::utf8::is_ascii_chars_encode_utf8(s@);
    }
    slice_to_vec(s.as_bytes())
}

/// The packet closing as bytes.
fn np_tail_bytes() -> (r: Vec<u8>)
    ensures
        r@ == spec_np_tail(),
        r@.len() == 2,
{
    let s = "}\n";
    proof {
        reveal_strlit("}\n");
        assert(vstd::utf8::is_ascii_chars(s@));
        vstd::utf8::is_ascii_chars_encode_utf8(s@);
    }
    slice_to_vec(s.as_bytes())
}

/// Encode the samples and frame number as one outbound packet, dropping
/// trailing samples that would not fit the budget.  A pure function of its
/// arguments: same samples and frame, same bytes.
pub fn encode_sensory(samples: &Vec<(u32, bool)>, frame_number: u64) -> (r: Vec<u8>)
    ensures
        r@ == spec_packet(samples@.take(spec_fit_count(samples@, frame_number)), frame_number),
        r@.len() <= MAX_PACKET_BYTES,
{
    let mut suffix = np_mid_bytes();
    let frame_digits = decimal_bytes(frame_number);
    proof {
        lemma_dec_bytes_len_u64(frame_number);
    }
    push_bytes(&mut suffix, frame_digits.as_slice());
    let tail = np_tail_bytes();
    push_bytes(&mut suffix, tail.as_slice());
    proof {
        assert(suffix@ =~= spec_np_mid() + dec_bytes(frame_number as nat) + spec_np_tail());
    }

    let mut body = np_header_bytes();
    let mut k: usize = 0;
    while k < samples.len()
        invariant_except_break
            k <= samples@.len(),
            suffix@ == spec_np_mid() + dec_bytes(frame_number as nat) + spec_np_tail(),
            suffix@.len() <= 41,
            body@ == spec_np_header() + spec_joined(samples@.take(k as int)),
            body@.len() + suffix@.len() <= MAX_PACKET_BYTES,
        ensures
            k <= samples@.len(),
            suffix@ == spec_np_mid() + dec_bytes(frame_number as nat) + spec_np_tail(),
            body@ == spec_np_header() + spec_joined(samples@.take(k as int)),
            body@.len() + suffix@.len() <= MAX_PACKET_BYTES,
            k == samples@.len() || spec_packet(samples@.take(k + 1), frame_number).len()
                > MAX_PACKET_BYTES,
        decreases samples@.len() - k,
    {
        let (id, fired) = samples[k];
        let mut add: Vec<u8> = Vec::new();
        if k > 0 {
            add.push(0x2c);
        }
        add.push(0x5b);
        let id_digits = decimal_bytes(id as u64);
        proof {
            lemma_dec_bytes_len_u32(id);
        }
        push_bytes(&mut add, id_digits.as_slice());
        add.push(0x2c);
        add.push(if fired { 0x31 } else { 0x30 });
        add.push(0x5d);
        proof {
            let t = samples@.take(k as int);
            let x = samples@[k as int];
            lemma_joined_push(t, x);
            assert(t.push(x) =~= samples@.take(k + 1));
            if k == 0 {
                assert(add@ =~= spec_sample_bytes(x));
                assert(spec_joined(samples@.take(k + 1)) == add@);
            } else {
                assert(add@ =~= seq![0x2cu8] + spec_sample_bytes(x));
                assert(spec_joined(samples@.take(k + 1)) =~= spec_joined(t) + add@);
            }
            assert(spec_np_header() + spec_joined(samples@.take(k + 1)) =~= body@ + add@);
            assert(spec_packet(samples@.take(k + 1), frame_number) =~= (spec_np_header()
                + spec_joined(samples@.take(k + 1))) + suffix@);
            assert(spec_packet(samples@.take(k + 1), frame_number).len() == body@.len()
                + add@.len() + suffix@.len());
        }
        if body.len() + add.len() + suffix.len() <= MAX_PACKET_BYTES {
            push_bytes(&mut body, add.as_slice());
            proof {
                assert(body@ =~= spec_np_header() + spec_joined(samples@.take(k + 1)));
            }
            k += 1;
        } else {
            break;
        }
    }
    proof {
        lemma_fit_count_char(samples@, frame_number, k as int);
    }
    push_bytes(&mut body, suffix.as_slice());
    proof {
        assert(body@ =~= spec_packet(
            samples@.take(spec_fit_count(samples@, frame_number)),
            frame_number,
        ));
    }
    body
}

} // verus!
