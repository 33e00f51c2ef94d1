//! What the supervisor node reads from its inputs: typed metadata
//! parameters, the proposed command array, and safety requests.
use vstd::prelude::*;

use crate::ieee::{F32Bits, F64Bits};
use crate::router::SignalData;
use crate::safety::{ControlProposal, RuntimeHealth};

verus! {

/// Bit pattern of the `f64` NaN that marks a missing value (`f64::NAN`).
pub const F64_NAN: u64 = 0x7ff8_0000_0000_0000;

/// Bit pattern of the `f32` NaN that marks a missing value (`f32::NAN`).
pub const F32_NAN: u32 = 0x7fc0_0000;

/// A metadata parameter value.
#[derive(Clone, Debug, PartialEq, Eq)]
pub enum Parameter {
    Bool(bool),
    Integer(i64),
    Float(F64Bits),
    String(String),
    Other,
}

/// The parameters of an input's metadata, by key.
#[derive(Clone, Debug, PartialEq, Eq)]
pub struct MetadataParameters {
    pub entries: Vec<(String, Parameter)>,
}

/// Index of the first entry under `key`.
pub open spec fn entry_position(entries: Seq<(String, Parameter)>, key: Seq<char>) -> Option<int>
    decreases entries.len(),
{
    if entries.len() == 0 {
        None
    } else if entries[0].0@ == key {
        Some(0)
    } else {
        match entry_position(entries.drop_first(), key) {
            Some(i) => Some(i + 1),
            None => None,
        }
    }
}

proof fn lemma_entry_position(entries: Seq<(String, Parameter)>, key: Seq<char>, i: int)
    requires
        0 <= i <= entries.len(),
        forall|j: int| 0 <= j < i ==> entries[j].0@ != key,
    ensures
        i == entries.len() ==> entry_position(entries, key) is None,
        i < entries.len() && entries[i].0@ == key ==> entry_position(entries, key) == Some(i),
    decreases i,
{
    if i > 0 {
        lemma_entry_position(entries.drop_first(), key, i - 1);
    }
}

/// The parameter under `key`, if any.
pub open spec fn parameter(metadata: MetadataParameters, key: Seq<char>) -> Option<Parameter> {
    match entry_position(metadata.entries@, key) {
        Some(i) => Some(metadata.entries@[i].1),
        None => None,
    }
}

fn lookup<'a>(metadata: &'a MetadataParameters, key: &str) -> (r: Option<&'a Parameter>)
    ensures
        match (r, parameter(*metadata, key@)) {
            (Some(p), Some(q)) => *p == q,
            (None, None) => true,
            _ => false,
        },
{
    let mut i: usize = 0;
    while i < metadata.entries.len()
        invariant
            i <= metadata.entries@.len(),
            forall|j: int| 0 <= j < i ==> metadata.entries@[j].0@ != key@,
        decreases metadata.entries@.len() - i,
    {
        let wanted = key.to_owned();
        if metadata.entries[i].0 == wanted {
            proof {
                lemma_entry_position(metadata.entries@, key@, i as int);
            }
            return Some(&metadata.entries[i].1);
        }
        i = i + 1;
    }
    proof {
        lemma_entry_position(metadata.entries@, key@, i as int);
    }
    None
}

/// The boolean under `key`; `false` when absent or of another type.
pub fn param_bool(metadata: &MetadataParameters, key: &str) -> (r: bool)
    ensures
        r == (parameter(*metadata, key@) matches Some(Parameter::Bool(v)) && v),
{
    match lookup(metadata, key) {
        Some(Parameter::Bool(value)) => *value,
        _ => false,
    }
}

/// The integer under `key`; `0` when absent or of another type.
pub fn param_i64(metadata: &MetadataParameters, key: &str) -> (r: i64)
    ensures
        r == (match parameter(*metadata, key@) {
            Some(Parameter::Integer(v)) => v,
            _ => 0,
        }),
{
    match lookup(metadata, key) {
        Some(Parameter::Integer(value)) => *value,
        _ => 0,
    }
}

/// The float under `key`; NaN when absent or of another type.
pub fn param_f64(metadata: &MetadataParameters, key: &str) -> (r: F64Bits)
    ensures
        r == (match parameter(*metadata, key@) {
            Some(Parameter::Float(v)) => v,
            _ => F64Bits(F64_NAN),
        }),
{
    match lookup(metadata, key) {
        Some(Parameter::Float(value)) => *value,
        _ => F64Bits(F64_NAN),
    }
}

/// An integer id as unsigned: negative ids count as `0`.
pub open spec fn clamp_id(value: i64) -> u64 {
    if value < 0 {
        0
    } else {
        value as u64
    }
}

/// The proposed `(linear, angular)` of a command array: the two values of a
/// `Float32Array` of exactly two values, else NaN for both.
pub open spec fn proposed_command(data: SignalData) -> (F32Bits, F32Bits) {
    match data {
        SignalData::Float32(values) => if values@.len() == 2 {
            (values@[0], values@[1])
        } else {
            (F32Bits(F32_NAN), F32Bits(F32_NAN))
        },
        _ => (F32Bits(F32_NAN), F32Bits(F32_NAN)),
    }
}

/// A command array is read as a proposal only when it is a `Float32Array` of
/// exactly two values, taken in order as `(linear, angular)`; anything else
/// proposes NaN for both, which no supervisor check accepts.
pub proof fn lemma_unreadable_command_is_nan(data: SignalData)
    ensures
        (data matches SignalData::Float32(values) && values@.len() == 2) ==> proposed_command(data)
            == (data->Float32_0@[0], data->Float32_0@[1]),
        !(data matches SignalData::Float32(values) && values@.len() == 2) ==> proposed_command(
            data,
        ).0.nan() && proposed_command(data).1.nan() && !proposed_command(data).0.finite(),
{
    assert((0x7fc0_0000u32 >> 23u32) & 0xffu32 == 0xffu32) by (bit_vector);
    assert(0x7fc0_0000u32 & 0x007f_ffffu32 != 0u32) by (bit_vector);
}

/// A float parameter that is absent or of another type reads as NaN, which
/// is neither finite nor ordered: a frame without its timestamps fails the
/// supervisor's checks.
pub proof fn lemma_absent_float_parameter_is_nan()
    ensures
        F64Bits(F64_NAN).nan(),
        !F64Bits(F64_NAN).finite(),
{
    assert((0x7ff8_0000_0000_0000u64 >> 52u64) & 0x7ffu64 == 0x7ffu64) by (bit_vector);
    assert(0x7ff8_0000_0000_0000u64 & 0x000f_ffff_ffff_ffffu64 != 0u64) by (bit_vector);
}

/// One frame of the supervisor node: health and command as reported with a
/// proposed command. `linear` and `angular` are the proposed `f32` samples;
/// the proposal carries them widened to `f64`, which the caller does.
#[derive(Clone, Copy, Debug, PartialEq, Eq)]
pub struct ControlFrame {
    pub frame_id: u64,
    pub epoch: u64,
    pub health: RuntimeHealth,
    pub proposal_timestamp_ms: F64Bits,
    pub linear: F32Bits,
    pub angular: F32Bits,
}

/// Reads a proposed command and its metadata.
pub fn read_control_frame(metadata: &MetadataParameters, data: &SignalData) -> (r: ControlFrame)
    ensures
        r.frame_id == clamp_id(
            match parameter(*metadata, "source_frame_id"@) {
                Some(Parameter::Integer(v)) => v,
                _ => 0,
            },
        ),
        r.epoch == clamp_id(
            match parameter(*metadata, "session_epoch"@) {
                Some(Parameter::Integer(v)) => v,
                _ => 0,
            },
        ),
        r.health.frame_id == r.frame_id,
        r.health.timestamp_ms == (match parameter(*metadata, "health_timestamp_ms"@) {
            Some(Parameter::Float(v)) => v,
            _ => F64Bits(F64_NAN),
        }),
        r.health.sensor_valid == (parameter(*metadata, "sensor_valid"@) matches Some(
            Parameter::Bool(v),
        ) && v),
        r.health.perception_valid == (parameter(*metadata, "perception_valid"@) matches Some(
            Parameter::Bool(v),
        ) && v),
        r.health.solver_valid == (parameter(*metadata, "solver_valid"@) matches Some(
            Parameter::Bool(v),
        ) && v),
        r.health.articulation_ready == (parameter(*metadata, "articulation_ready"@) matches Some(
            Parameter::Bool(v),
        ) && v),
        r.proposal_timestamp_ms == (match parameter(*metadata, "proposal_timestamp_ms"@) {
            Some(Parameter::Float(v)) => v,
            _ => F64Bits(F64_NAN),
        }),
        (r.linear, r.angular) == proposed_command(*data),
{
    let (linear, angular) = match data {
        SignalData::Float32(values) => {
            if values.len() == 2 {
                (values[0], values[1])
            } else {
                (F32Bits(F32_NAN), F32Bits(F32_NAN))
            }
        },
        _ => (F32Bits(F32_NAN), F32Bits(F32_NAN)),
    };
    let raw_frame = param_i64(metadata, "source_frame_id");
    let frame_id: u64 = if raw_frame < 0 {
        0
    } else {
        raw_frame as u64
    };
    let raw_epoch = param_i64(metadata, "session_epoch");
    let epoch: u64 = if raw_epoch < 0 {
        0
    } else {
        raw_epoch as u64
    };
    let health = RuntimeHealth {
        frame_id,
        timestamp_ms: param_f64(metadata, "health_timestamp_ms"),
        sensor_valid: param_bool(metadata, "sensor_valid"),
        perception_valid: param_bool(metadata, "perception_valid"),
        solver_valid: param_bool(metadata, "solver_valid"),
        articulation_ready: param_bool(metadata, "articulation_ready"),
    };
    ControlFrame {
        frame_id,
        epoch,
        health,
        proposal_timestamp_ms: param_f64(metadata, "proposal_timestamp_ms"),
        linear,
        angular,
    }
}

/// The safety requests the node holds between frames.
#[derive(Clone, Copy, Debug, PartialEq, Eq)]
pub struct SafetyRequests {
    pub emergency_stop: bool,
    pub reset_pending: bool,
}

impl SafetyRequests {
    /// A request array of at least two bytes sets the emergency stop from the
    /// first byte and arms a reset when the second byte is non-zero (an armed
    /// reset stays armed); anything else changes nothing.
    pub fn apply_request(&mut self, data: &SignalData)
        ensures
            match *data {
                SignalData::UInt8(bytes) => if bytes@.len() >= 2 {
                    final(self).emergency_stop == (bytes@[0] != 0) && final(self).reset_pending == (
                    old(self).reset_pending || bytes@[1] != 0)
                } else {
                    *final(self) == *old(self)
                },
                _ => *final(self) == *old(self),
            },
    {
        if let SignalData::UInt8(bytes) = data {
            if bytes.len() >= 2 {
                self.emergency_stop = bytes[0] != 0;
                self.reset_pending = self.reset_pending || bytes[1] != 0;
            }
        }
    }

    /// The reset request is consumed by the frame that carries it.
    pub fn take_reset(&mut self) -> (r: bool)
        ensures
            r == old(self).reset_pending,
            !final(self).reset_pending,
            final(self).emergency_stop == old(self).emergency_stop,
    {
        let r = self.reset_pending;
        self.reset_pending = false;
        r
    }
}

} // verus!
