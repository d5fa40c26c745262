//! The boundary to the numeric tensor engine and the stochastic sampler.
//!
//! The engine's tensors and the sampler are opaque here: each call the
//! controller makes goes through one trusted item whose contract states
//! only what the engine's source shows.

use vstd::prelude::*;

verus! {

#[verifier::external_type_specification]
#[verifier::external_body]
pub struct ExTensor(candle_core::Tensor);

#[verifier::external_type_specification]
#[verifier::external_body]
pub struct ExCandleError(candle_core::Error);

#[verifier::external_type_specification]
#[verifier::external_body]
pub struct ExLogitsProcessor(candle_transformers::generation::LogitsProcessor);

/// Whether a tensor is a score vector as this boundary reads one: rank one,
/// with the single-precision element type. A tensor's shape and element
/// type are fixed per value, so this is a pure function of it.
pub uninterp spec fn tensor_is_score_vec(t: candle_core::Tensor) -> bool;

/// The contents of a score vector: the bit patterns of its scores, in
/// order. The engine can rewrite a tensor's storage in place through an
/// aliasing handle (`Var::set`, `Tensor::slice_set`), so two reads of one
/// value need not agree across such a write; no wrapper of this crate
/// exposes any mutation of a tensor, and each contract here reads a given
/// tensor value once, so no proof relates two reads across one.
pub uninterp spec fn tensor_cells(t: candle_core::Tensor) -> Seq<u32>;

/// Relies on candle's `safetensors::View` impl for `Tensor`: `data` copies
/// the tensor's contents into a contiguous byte buffer, a function of the
/// value under the discipline `tensor_cells` states. The two pre-checks
/// accept exactly the vectors of single-precision scores — what the
/// original pipeline read — and reject everything else with the engine's
/// own errors; in particular the element types on which `data` would panic
/// never reach it.
#[verifier::external_body]
pub(crate) fn tensor_to_cells(t: &candle_core::Tensor) -> (r: Result<Vec<u32>, candle_core::Error>)
    ensures
        r is Ok <==> tensor_is_score_vec(*t),
        r matches Ok(v) ==> v@ == tensor_cells(*t),
{
    t.dims1()?;
    if t.dtype() != candle_core::DType::F32 {
        return Err(candle_core::Error::Msg(format!("cannot read scores from {:?}", t.dtype())));
    }
    Ok(safetensors::View::data(t)
        .chunks_exact(4)
        .map(|c| u32::from_le_bytes([c[0], c[1], c[2], c[3]]))
        .collect())
}

/// Relies on `Tensor::from_raw_buffer`: builds a rank-one tensor holding
/// the given cells as its scores, with the element type and device taken
/// from `like`. The element-type check keeps the byte count consistent
/// with the shape, on which `from_raw_buffer` would otherwise panic; for a
/// score vector `like` on the processor's memory the build itself cannot
/// fail.
#[verifier::external_body]
pub(crate) fn tensor_like_with_cells(cells: &Vec<u32>, like: &candle_core::Tensor) -> (r: Result<
    candle_core::Tensor,
    candle_core::Error,
>)
    ensures
        r matches Ok(t) ==> tensor_cells(t) == cells@,
        tensor_is_score_vec(*like) ==> r is Ok,
{
    if like.dtype() != candle_core::DType::F32 {
        return Err(candle_core::Error::Msg(format!("cannot carry scores in {:?}", like.dtype())));
    }
    let bytes: Vec<u8> = cells.iter().flat_map(|c| c.to_le_bytes()).collect();
    candle_core::Tensor::from_raw_buffer(&bytes, like.dtype(), &[cells.len()], like.device())
}

/// Relies on `LogitsProcessor::sample`: draws one token index from the
/// given scores, which the callers keep non-empty — on an empty vector the
/// argmax path does not return. The draw depends on the processor's
/// internal random state, so nothing is promised of the returned value.
#[verifier::external_body]
pub(crate) fn sampler_draw(
    p: &mut candle_transformers::generation::LogitsProcessor,
    logits: &candle_core::Tensor,
) -> (r: Result<u32, candle_core::Error>)
    requires
        tensor_cells(*logits).len() > 0,
{
    p.sample(logits)
}

} // verus!
