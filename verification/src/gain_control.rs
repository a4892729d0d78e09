//! The gain module: the example instance of the pluggable transformation.
//!
//! The multiplier is fixed-point: a gain parameter of `1000` means a
//! multiplier of one. Each sample becomes `sample * gain / 1000`, rounded
//! toward zero and clamped to the signed 16-bit range.

use vstd::prelude::*;

use crate::audio_app::{AudioAppBuilder, ParamValue};
use crate::dsp::{stream_spec, valid_block_size};
use crate::dsp_module::{DSPModule, Transformation};
use vstd::string::StringExecFns;

verus! {

/// The fixed-point denominator: a gain of `GAIN_UNIT` is a multiplier of one.
pub const GAIN_UNIT: i32 = 1000;

/// Clamps a mathematical sample value into the signed 16-bit range.
pub open spec fn clamp_i16(v: int) -> int {
    if v < i16::MIN as int {
        i16::MIN as int
    } else if v > i16::MAX as int {
        i16::MAX as int
    } else {
        v
    }
}

/// Division by the fixed-point unit, rounding toward zero as the executable
/// integer division does.
pub open spec fn div_unit_trunc(p: int) -> int {
    if p >= 0 {
        p / (GAIN_UNIT as int)
    } else {
        -((-p) / (GAIN_UNIT as int))
    }
}

/// What the gain stage makes of one sample under multiplier `gain`.
pub open spec fn apply_gain(s: i16, gain: i32) -> i16 {
    clamp_i16(div_unit_trunc(s as int * gain as int)) as i16
}

/// The multiplier a parameter snapshot selects: the first parameter if it is
/// numeric, and a multiplier of one otherwise.
pub open spec fn gain_of(params: Seq<ParamValue>) -> i32 {
    if params.len() > 0 {
        match params[0] {
            ParamValue::Number(v) => v,
            ParamValue::Boolean(_) => GAIN_UNIT,
        }
    } else {
        GAIN_UNIT
    }
}

pub struct GainControlProcessor;

impl GainControlProcessor {
    pub fn new() -> (r: GainControlProcessor) {
        GainControlProcessor
    }

    /// Scales every sample by `gain / 1000`, clamping into the 16-bit range.
    pub fn process(&self, buffer: &mut Vec<i16>, gain: i32)
        ensures
            final(buffer)@ == old(buffer)@.map_values(|s: i16| apply_gain(s, gain)),
    {
        let ghost orig: Seq<i16> = buffer@;
        let n = buffer.len();
        let mut i: usize = 0;
        while i < n
            invariant
                n == orig.len(),
                buffer@.len() == orig.len(),
                i <= n,
                forall|j: int| i <= j < n ==> buffer@[j] == orig[j],
                forall|j: int| 0 <= j < i ==> buffer@[j] == apply_gain(orig[j], gain),
            decreases n - i,
        {
            let s: i16 = buffer[i];
            let out = apply_gain_exec(s, gain);
            let slot = &mut buffer[i];
            *slot = out;
            i += 1;
        }
        proof {
            assert(buffer@ =~= orig.map_values(|s: i16| apply_gain(s, gain)));
        }
    }
}

/// One sample through the gain stage, exactly `apply_gain`.
fn apply_gain_exec(s: i16, gain: i32) -> (r: i16)
    ensures
        r == apply_gain(s, gain),
{
    proof {
        assert(-0x8000_0000_0000 <= (s as int) * (gain as int)
            && (s as int) * (gain as int) <= 0x8000_0000_0000) by (nonlinear_arith)
            requires
                -0x8000 <= s as int,
                (s as int) <= 0x7fff,
                -0x8000_0000 <= gain as int,
                (gain as int) <= 0x7fff_ffff;
    }
    let p: i64 = (s as i64) * (gain as i64);
    if p >= 0 {
        let q: u64 = (p as u64) / 1000;
        proof {
            assert(q == div_unit_trunc(s as int * gain as int));
        }
        if q > 32767 {
            32767i16
        } else {
            q as i16
        }
    } else {
        let m: u64 = (-p) as u64;
        let q: u64 = m / 1000;
        proof {
            assert(-(q as int) == div_unit_trunc(s as int * gain as int));
        }
        if q >= 32768 {
            -32768i16
        } else {
            let qi: i16 = q as i16;
            -qi
        }
    }
}

/// With a multiplier of one the gain stage is the identity: every sample
/// comes back unchanged.
pub proof fn lemma_gain_unit_identity(s: i16)
    ensures
        apply_gain(s, GAIN_UNIT) == s,
{
    let p = s as int * (GAIN_UNIT as int);
    assert(p == s as int * 1000);
    if s as int >= 0 {
        assert(p / 1000 == s as int) by (nonlinear_arith)
            requires
                p == (s as int) * 1000,
                (s as int) >= 0;
    } else {
        assert((-p) / 1000 == -(s as int)) by (nonlinear_arith)
            requires
                p == (s as int) * 1000,
                (s as int) < 0;
    }
}

/// One block through the gain stage at a multiplier of one comes back
/// unchanged.
pub proof fn lemma_unit_gain_block_identity(p: GainControlProcessor, b: Seq<i16>, params: Seq<
    ParamValue,
>)
    requires
        gain_of(params) == GAIN_UNIT,
    ensures
        p.spec_transform(b, params) == b,
{
    assert forall|i: int| 0 <= i < b.len() implies p.spec_transform(b, params)[i] == b[i] by {
        lemma_gain_unit_identity(b[i]);
    }
    assert(p.spec_transform(b, params) =~= b);
}

/// The round trip at a multiplier of one: a whole source streamed through
/// the gain stage, block by block at any configured block size, comes back
/// sample for sample.
pub proof fn lemma_unit_gain_stream_identity(
    p: GainControlProcessor,
    input: Seq<i16>,
    bs: int,
    params: Seq<ParamValue>,
)
    requires
        valid_block_size(bs),
        gain_of(params) == GAIN_UNIT,
    ensures
        stream_spec(p, input, bs, params, false) == input,
    decreases input.len(),
{
    if input.len() == 0 {
        assert(stream_spec(p, input, bs, params, false) =~= input);
    } else if input.len() <= bs {
        lemma_unit_gain_block_identity(p, input, params);
    } else {
        lemma_unit_gain_block_identity(p, input.take(bs), params);
        lemma_unit_gain_stream_identity(p, input.skip(bs), bs, params);
        assert(stream_spec(p, input, bs, params, false) =~= input);
    }
}

impl Transformation for GainControlProcessor {
    open spec fn spec_transform(&self, block: Seq<i16>, params: Seq<ParamValue>) -> Seq<i16> {
        block.map_values(|s: i16| apply_gain(s, gain_of(params)))
    }

    proof fn transform_len(&self, block: Seq<i16>, params: Seq<ParamValue>) {
    }

    fn transform(&self, block: &mut Vec<i16>, params: &Vec<ParamValue>) {
        let gain: i32 = if params.len() > 0 {
            match params[0] {
                ParamValue::Number(v) => v,
                ParamValue::Boolean(_) => GAIN_UNIT,
            }
        } else {
            GAIN_UNIT
        };
        self.process(block, gain);
    }
}

/// The selectable module wrapping the gain transformation.
pub struct GainControlModule {
    processor: GainControlProcessor,
}

impl GainControlModule {
    pub fn new() -> (r: GainControlModule) {
        GainControlModule { processor: GainControlProcessor::new() }
    }

    /// The transformation this module runs.
    pub fn processor(&self) -> &GainControlProcessor {
        &self.processor
    }
}

impl DSPModule for GainControlModule {
    fn name(&self) -> (r: String)
        ensures
            r@ == "Gain Control"@,
    {
        String::from_str("Gain Control")
    }

    /// Declares the single gain parameter: a multiplier of one by default,
    /// ranging from zero to two.
    fn initialize(&self) -> (r: AudioAppBuilder)
        ensures
            r.spec_params().len() == 1,
            r.spec_params()[0].name@ == "Gain"@,
            r.spec_params()[0].value == ParamValue::Number(GAIN_UNIT),
            r.spec_params()[0].min == 0,
            r.spec_params()[0].max == 2 * GAIN_UNIT,
            r.spec_window_title() == "Gain Control"@,
    {
        AudioAppBuilder::new().add_param(
            "Gain",
            ParamValue::Number(GAIN_UNIT),
            0,
            2 * GAIN_UNIT,
        ).set_window_title("Gain Control")
    }
}

} // verus!
