//! GPIO configuration and the pin mapper.
//!
//! A pin's `cortical_mapping` string names the neuron channel it feeds or
//! follows, either as a bare decimal number or as `area:number`; only the
//! trailing number carries meaning.  Resolving a mapping never fails hard —
//! an unmapped pin is an ordinary outcome, not an error.

use vstd::prelude::*;
use vstd::string::StringSliceAdditionalSpecFns;

verus! {

/// What a configured pin is for.
#[derive(Debug, Clone, Copy)]
pub enum GpioMode {
    Disabled,
    DigitalInput,
    DigitalOutput,
    AnalogInput,
    PwmOutput,
}

/// One pin's build-time configuration.
#[derive(Debug, Clone, Copy)]
pub struct GpioPinConfig {
    pub pin: u32,
    pub mode: GpioMode,
    pub cortical_mapping: &'static str,
}

/// A decimal digit byte.
pub open spec fn is_digit(b: u8) -> bool {
    0x30 <= b <= 0x39
}

/// The string is nonempty and all decimal digits.
pub open spec fn all_digits(s: Seq<u8>) -> bool {
    s.len() > 0 && forall|i: int| 0 <= i < s.len() ==> is_digit(#[trigger] s[i])
}

/// The number the digit bytes spell, most significant first.
pub open spec fn digits_value(s: Seq<u8>) -> nat
    decreases s.len(),
{
    if s.len() == 0 {
        0
    } else {
        digits_value(s.drop_last()) * 10 + (s.last() - 0x30) as nat
    }
}

/// What parsing the whole byte string as a decimal `u32` yields: the spelled
/// number when every byte is a digit and the value fits, nothing otherwise.
pub open spec fn spec_parse_u32(s: Seq<u8>) -> Option<u32> {
    if all_digits(s) && digits_value(s) <= u32::MAX {
        Some(digits_value(s) as u32)
    } else {
        None
    }
}

/// The index of the last `:` byte, or -1 when there is none.
pub open spec fn last_colon_index(s: Seq<u8>) -> int
    decreases s.len(),
{
    if s.len() == 0 {
        -1
    } else if s.last() == 0x3a {
        s.len() - 1
    } else {
        last_colon_index(s.drop_last())
    }
}

/// What resolving a cortical mapping yields: the whole string as a decimal
/// number if it is one, else the part after the last `:` as a decimal
/// number, else nothing.
pub open spec fn spec_resolve_neuron_id(s: Seq<u8>) -> Option<u32> {
    if spec_parse_u32(s).is_some() {
        spec_parse_u32(s)
    } else if last_colon_index(s) >= 0 {
        spec_parse_u32(s.skip(last_colon_index(s) + 1))
    } else {
        None
    }
}

/// A longer digit string spells at least as large a number as any prefix.
proof fn lemma_digits_value_prefix(s: Seq<u8>, k: int)
    requires
        0 <= k <= s.len(),
    ensures
        digits_value(s) >= digits_value(s.take(k)),
    decreases s.len(),
{
    if k < s.len() {
        assert(s.drop_last().take(k) =~= s.take(k));
        lemma_digits_value_prefix(s.drop_last(), k);
    } else {
        assert(s.take(k) =~= s);
    }
}

/// A colon with no colon after it is the last one.
proof fn lemma_last_colon_at(s: Seq<u8>, k: int)
    requires
        0 <= k < s.len(),
        s[k] == 0x3a,
        forall|i: int| k < i < s.len() ==> s[i] != 0x3a,
    ensures
        last_colon_index(s) == k,
    decreases s.len(),
{
    if k < s.len() - 1 {
        lemma_last_colon_at(s.drop_last(), k);
    }
}

/// No colon anywhere means no last colon.
proof fn lemma_no_colon(s: Seq<u8>)
    requires
        forall|i: int| 0 <= i < s.len() ==> s[i] != 0x3a,
    ensures
        last_colon_index(s) == -1,
    decreases s.len(),
{
    if s.len() > 0 {
        lemma_no_colon(s.drop_last());
    }
}

/// Parse the bytes from `from` to the end as a decimal `u32`.
fn parse_u32_digits(b: &[u8], from: usize) -> (r: Option<u32>)
    requires
        from <= b@.len(),
    ensures
        r == spec_parse_u32(b@.skip(from as int)),
{
    let ghost s = b@.skip(from as int);
    if from == b.len() {
        return None;
    }
    let mut acc: u64 = 0;
    let mut j: usize = from;
    while j < b.len()
        invariant
            from <= j <= b@.len(),
            from < b@.len(),
            s == b@.skip(from as int),
            acc <= u32::MAX,
            all_digits(s) ==> acc == digits_value(s.take(j - from)),
            forall|i: int| 0 <= i < j - from ==> is_digit(#[trigger] s[i]),
        decreases b@.len() - j,
    {
        let d = b[j];
        if d < 0x30 || d > 0x39 {
            proof {
                assert(s[j - from] == b@[j as int]);
                assert(!all_digits(s));
            }
            return None;
        }
        let v = acc * 10 + ((d - 0x30) as u64);
        proof {
            assert(s.take(j - from + 1).drop_last() =~= s.take(j - from));
            assert(s.take(j - from + 1).last() == s[j - from]);
        }
        if v > u32::MAX as u64 {
            proof {
                if all_digits(s) {
                    lemma_digits_value_prefix(s, j - from + 1);
                }
            }
            return None;
        }
        acc = v;
        j += 1;
    }
    proof {
        assert(s.take(s.len() as int) =~= s);
        assert(all_digits(s));
    }
    Some(acc as u32)
}

/// Resolve a cortical mapping to its neuron number: the whole string as a
/// decimal number, or failing that the part after its last `:`.
pub fn resolve_neuron_id(mapping: &str) -> (r: Option<u32>)
    ensures
        r == spec_resolve_neuron_id(mapping.spec_bytes()),
{
    let b = mapping.as_bytes();
    let direct = parse_u32_digits(b, 0);
    if direct.is_some() {
        proof {
            assert(b@.skip(0) =~= b@);
        }
        return direct;
    }
    proof {
        assert(b@.skip(0) =~= b@);
    }
    let mut j: usize = b.len();
    while j > 0
        invariant
            j <= b@.len(),
            b@ == mapping.spec_bytes(),
            spec_parse_u32(b@).is_none(),
            forall|i: int| j <= i < b@.len() ==> b@[i] != 0x3a,
        decreases j,
    {
        if b[j - 1] == 0x3a {
            proof {
                lemma_last_colon_at(b@, j - 1);
                assert(last_colon_index(b@) == j - 1);
                assert(spec_parse_u32(b@).is_none());
                assert(spec_resolve_neuron_id(b@) == spec_parse_u32(b@.skip(j as int)));
            }
            return parse_u32_digits(b, j);
        }
        j -= 1;
    }
    proof {
        lemma_no_colon(b@);
    }
    None
}


/// The samples a row of configured input pins yields: each pin whose
/// mapping resolves contributes its level under its neuron number, in pin
/// order; a pin whose mapping does not resolve contributes nothing.
pub open spec fn spec_input_samples(configs: Seq<GpioPinConfig>, levels: Seq<bool>) -> Seq<
    (u32, bool),
>
    decreases configs.len(),
{
    if configs.len() == 0 || levels.len() == 0 {
        Seq::empty()
    } else {
        (match spec_resolve_neuron_id(configs[0].cortical_mapping.spec_bytes()) {
            Some(id) => seq![(id, levels[0])],
            None => Seq::empty(),
        }) + spec_input_samples(configs.drop_first(), levels.drop_first())
    }
}

/// Pair each configured input pin's level with its resolved neuron number,
/// dropping pins whose mapping does not resolve.
pub fn collect_input_samples(configs: &Vec<GpioPinConfig>, levels: &Vec<bool>) -> (r: Vec<
    (u32, bool),
>)
    requires
        configs@.len() == levels@.len(),
    ensures
        r@ == spec_input_samples(configs@, levels@),
{
    let mut r: Vec<(u32, bool)> = Vec::new();
    let mut i: usize = 0;
    proof {
        assert(configs@.skip(0) =~= configs@);
        assert(levels@.skip(0) =~= levels@);
        assert(r@ + spec_input_samples(configs@, levels@) =~= spec_input_samples(
            configs@,
            levels@,
        ));
    }
    while i < configs.len()
        invariant
            i <= configs@.len(),
            configs@.len() == levels@.len(),
            spec_input_samples(configs@, levels@) == r@ + spec_input_samples(
                configs@.skip(i as int),
                levels@.skip(i as int),
            ),
        decreases configs@.len() - i,
    {
        let ghost cs = configs@.skip(i as int);
        let ghost ls = levels@.skip(i as int);
        proof {
            assert(cs[0] == configs@[i as int]);
            assert(ls[0] == levels@[i as int]);
            assert(cs.drop_first() =~= configs@.skip(i + 1));
            assert(ls.drop_first() =~= levels@.skip(i + 1));
        }
        let ghost before = r@;
        match resolve_neuron_id(configs[i].cortical_mapping) {
            Some(id) => {
                r.push((id, levels[i]));
                proof {
                    assert(before + (seq![(id, levels@[i as int])] + spec_input_samples(
                        configs@.skip(i + 1),
                        levels@.skip(i + 1),
                    )) =~= r@ + spec_input_samples(configs@.skip(i + 1), levels@.skip(i + 1)));
                }
            },
            None => {
                proof {
                    assert(before + (Seq::<(u32, bool)>::empty() + spec_input_samples(
                        configs@.skip(i + 1),
                        levels@.skip(i + 1),
                    )) =~= r@ + spec_input_samples(configs@.skip(i + 1), levels@.skip(i + 1)));
                }
            },
        }
        i += 1;
    }
    proof {
        assert(configs@.skip(configs@.len() as int) =~= Seq::<GpioPinConfig>::empty());
        assert(spec_input_samples(configs@, levels@) =~= r@);
    }
    r
}


/// The board pins that can be acquired as peripherals, from the board's pin
/// catalogue.
pub open spec fn spec_pin_available(pin: u32) -> bool {
    pin == 0 || pin == 2 || pin == 4 || pin == 5 || pin == 12 || pin == 13 || pin == 14 || pin
        == 15 || pin == 16 || pin == 17 || pin == 18 || pin == 19 || pin == 21 || pin == 22 || pin
        == 23 || pin == 25 || pin == 26 || pin == 27 || pin == 32 || pin == 33
}

/// Translate a logical pin number to the number under which the platform
/// hands out the physical pin, or nothing for a pin the board does not
/// offer.  An allow-list from the pin catalogue, not a cast: acquiring the
/// resource itself is the platform layer's business.
pub fn pin_to_peripheral_handle(pin: u32) -> (r: Option<u32>)
    ensures
        spec_pin_available(pin) ==> r == Some(pin),
        !spec_pin_available(pin) ==> r.is_none(),
{
    match pin {
        0 | 2 | 4 | 5 | 12 | 13 | 14 | 15 | 16 | 17 | 18 | 19 | 21 | 22 | 23 | 25 | 26 | 27 | 32
        | 33 => Some(pin),
        _ => None,
    }
}

/// The GPIO driver seat.  No pin driver is attached yet, so writes change
/// nothing and reads yield the resting values; the contracts say exactly
/// that, and the control loop is built against them.
pub struct GpioController {}

impl GpioController {
    /// A controller with no pins configured.
    pub fn new() -> Self {
        GpioController {}
    }

    /// Drive a digital output pin; without an attached driver, a no-op.
    pub fn set_digital(&mut self, pin: u8, value: bool)
        ensures
            *final(self) == *old(self),
    {
        let _ = pin;
        let _ = value;
    }

    /// Set a PWM duty cycle; without an attached driver, a no-op.
    pub fn set_pwm(&mut self, pin: u8, duty: u8)
        ensures
            *final(self) == *old(self),
    {
        let _ = pin;
        let _ = duty;
    }

    /// Read a digital input pin; without an attached driver, always low.
    pub fn read_digital(&self, pin: u8) -> (r: bool)
        ensures
            r == false,
    {
        let _ = pin;
        false
    }

    /// Read an analog input pin; without an attached driver, always zero.
    pub fn read_analog(&self, pin: u8) -> (r: u16)
        ensures
            r == 0,
    {
        let _ = pin;
        0
    }
}

} // verus!
