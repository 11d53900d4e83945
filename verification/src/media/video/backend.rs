//! Picks the decoder for a video and the settings.
//!
//! `gpu`: the GPU only, an error if that fails; `cpu`: software only; `auto`: the GPU if there
//! is one and it knows the codec, else software. Every refusal comes with its reason, and the
//! reasons are shown to the user.

use crate::config::{Backend, Settings};
use crate::media::video::pipeline::{Codec, Decoder, Demuxer, PipeResult, Pipeline, VideoInfo};
use crate::text::{joined, list};
use vstd::prelude::*;
use vstd::string::*;

verus! {

/// What the search for a decoder asks of the machine.
pub trait Machine<C> {
    /// The render node to use; `explicit` is the one that was asked for.
    fn render_node(&self, explicit: Option<&String>) -> Result<String, String>;

    /// Whether the render node belongs to an NVIDIA device.
    fn is_nvidia(&self, node: &str) -> bool;

    fn nvdec(&self, codec: &Codec, node: &str) -> PipeResult<C>;

    fn vaapi(&self, codec: &Codec, node: &str) -> PipeResult<C>;

    fn av1(&self) -> PipeResult<C>;

    fn h264(&self) -> PipeResult<C>;

    fn vpx(&self, codec: &Codec) -> PipeResult<C>;
}

/// How a refusal is shown: who refused, and why.
pub open spec fn refusal(who: Seq<char>, why: Seq<char>) -> Seq<char> {
    who + ": "@ + why
}

/// Why an attempt failed; nothing if it did not.
pub open spec fn why_of<C>(outcome: PipeResult<C>) -> Seq<char> {
    match outcome {
        Ok(_) => Seq::empty(),
        Err(e) => e@,
    }
}

/// Takes the outcome of one attempt: the decoder, or one more reason.
pub fn tried<C>(who: &str, outcome: PipeResult<C>, reasons: &mut Vec<String>) -> (r: Option<C>)
    ensures
        match outcome {
            Ok(d) => r == Some(d) && *final(reasons) == *old(reasons),
            Err(e) => r is None && crate::text::texts(final(reasons)@) == crate::text::texts(
                old(reasons)@,
            ).push(refusal(who@, e@)),
        },
{
    match outcome {
        Ok(d) => Some(d),
        Err(e) => {
            let mut reason = joined(who, ": ");
            reason.append(e.as_str());
            reasons.push(reason);
            assert(crate::text::texts(reasons@) =~= crate::text::texts(old(reasons)@).push(
                refusal(who@, e@),
            ));
            None
        },
    }
}

proof fn listed_one(a: Seq<char>, between: Seq<char>)
    ensures
        crate::text::listed(seq![a], between) == a,
{
}

proof fn listed_two(a: Seq<char>, b: Seq<char>, between: Seq<char>)
    ensures
        crate::text::listed(seq![a, b], between) == a + between + b,
{
    assert(seq![a, b].drop_last() =~= seq![a]);
    listed_one(a, between);
}

/// `r` is what VA-API gave for a render node; `first` is why NVDEC refused, if it was asked.
pub open spec fn vaapi_gave<C, M: Machine<C>>(
    m: &M,
    codec: &Codec,
    node: &str,
    first: Option<Seq<char>>,
    r: PipeResult<C>,
) -> bool {
    exists|outcome: PipeResult<C>| #[trigger]
        call_ensures(M::vaapi, (m, codec, node), outcome) && match outcome {
            Ok(d) => r == Ok::<C, String>(d),
            Err(e) => r matches Err(reason) && reason@ == match first {
                Some(f) => refusal("NVDEC"@, f) + "; "@ + refusal("VA-API"@, e@),
                None => refusal("VA-API"@, e@),
            },
        }
}

/// `r` is what the GPU decoders gave for a render node that is, or is not, one of NVIDIA.
/// NVDEC is asked on NVIDIA devices only and comes first; VA-API is asked if there is no
/// decoder yet.
pub open spec fn node_gave<C, M: Machine<C>>(
    m: &M,
    codec: &Codec,
    node: &str,
    nvidia: bool,
    r: PipeResult<C>,
) -> bool {
    if nvidia {
        exists|outcome: PipeResult<C>| #[trigger]
            call_ensures(M::nvdec, (m, codec, node), outcome) && match outcome {
                Ok(d) => r == Ok::<C, String>(d),
                Err(e) => vaapi_gave(m, codec, node, Some(e@), r),
            }
    } else {
        vaapi_gave(m, codec, node, None, r)
    }
}

/// `r` is what the GPU decoders gave for a render node.
pub open spec fn gpu_gave<C, M: Machine<C>>(
    m: &M,
    codec: &Codec,
    node: &str,
    r: PipeResult<C>,
) -> bool {
    exists|nvidia: bool| #[trigger]
        call_ensures(M::is_nvidia, (m, node), nvidia) && node_gave(m, codec, node, nvidia, r)
}

/// The GPU decoder for a render node. NVIDIA: NVDEC first, for its driver parses the stream
/// itself, then VA-API; all others: VA-API.
pub fn open_hw<C, M: Machine<C>>(m: &M, codec: &Codec, node: &str) -> (r: PipeResult<C>)
    ensures
        gpu_gave(m, codec, node, r),
{
    let mut reasons: Vec<String> = Vec::new();
    let ghost mut first = Seq::<char>::empty();
    let nvidia = m.is_nvidia(node);
    if nvidia {
        let outcome = m.nvdec(codec, node);
        proof {
            first = why_of(outcome);
        }
        if let Some(d) = tried("NVDEC", outcome, &mut reasons) {
            return Ok(d);
        }
        assert(crate::text::texts(reasons@) =~= seq![refusal("NVDEC"@, first)]);
    }
    let outcome = m.vaapi(codec, node);
    let ghost why = why_of(outcome);
    if let Some(d) = tried("VA-API", outcome, &mut reasons) {
        return Ok(d);
    }
    proof {
        let (a, b) = (refusal("NVDEC"@, first), refusal("VA-API"@, why));
        if nvidia {
            assert(crate::text::texts(reasons@) =~= seq![a, b]);
            listed_two(a, b, "; "@);
        } else {
            assert(crate::text::texts(reasons@) =~= seq![b]);
            listed_one(b, "; "@);
        }
    }
    Err(list(&reasons, "; "))
}

/// The message that there is no software decoder for a codec.
pub open spec fn no_software(codec: Codec) -> Seq<char> {
    "software decoder for "@ + codec.shown() + " is not wired up yet"@
}

/// `r` is what the software decoder for a codec gave.
pub open spec fn cpu_gave<C, M: Machine<C>>(m: &M, codec: &Codec, r: PipeResult<C>) -> bool {
    match codec {
        Codec::Av1 => call_ensures(M::av1, (m,), r),
        Codec::H264 => call_ensures(M::h264, (m,), r),
        Codec::Vp8 => call_ensures(M::vpx, (m, codec), r),
        Codec::Vp9 => call_ensures(M::vpx, (m, codec), r),
        _ => r matches Err(e) && e@ == no_software(*codec),
    }
}

/// The software decoder for a codec.
pub fn open_sw<C, M: Machine<C>>(m: &M, codec: &Codec) -> (r: PipeResult<C>)
    ensures
        cpu_gave(m, codec, r),
{
    match codec {
        Codec::Av1 => m.av1(),
        Codec::H264 => m.h264(),
        Codec::Vp8 => m.vpx(codec),
        Codec::Vp9 => m.vpx(codec),
        _ => {
            let mut msg = joined("software decoder for ", codec.text().as_str());
            msg.append(" is not wired up yet");
            Err(msg)
        },
    }
}

/// `r` is what comes of asking the CPU; `first` is why the GPU refused, if it was asked.
pub open spec fn cpu_decides<C, M: Machine<C>>(
    m: &M,
    codec: &Codec,
    first: Option<Seq<char>>,
    r: PipeResult<C>,
) -> bool {
    exists|outcome: PipeResult<C>| #[trigger]
        cpu_gave(m, codec, outcome) && match outcome {
            Ok(d) => r == Ok::<C, String>(d),
            Err(e) => r matches Err(reason) && reason@ == match first {
                Some(f) => f + "; "@ + refusal("CPU"@, e@),
                None => refusal("CPU"@, e@),
            },
        }
}

/// `r` is what comes of it that the GPU refused with the reason `why`.
pub open spec fn gpu_refused<C, M: Machine<C>>(
    m: &M,
    codec: &Codec,
    backend: Backend,
    why: Seq<char>,
    r: PipeResult<C>,
) -> bool {
    if backend == Backend::Gpu {
        r matches Err(reason) && reason@ == why
    } else {
        cpu_decides(m, codec, Some(why), r)
    }
}

/// `r` is what comes of it that the GPU at the render node `node` gave `outcome`.
pub open spec fn gpu_decides<C, M: Machine<C>>(
    m: &M,
    codec: &Codec,
    backend: Backend,
    node: Seq<char>,
    outcome: PipeResult<C>,
    r: PipeResult<C>,
) -> bool {
    match outcome {
        Ok(d) => r == Ok::<C, String>(d),
        Err(e) => gpu_refused(m, codec, backend, refusal("GPU "@ + node, e@), r),
    }
}

/// `r` is what comes of it that the search for a render node gave `node`.
pub open spec fn node_decides<C, M: Machine<C>>(
    m: &M,
    codec: &Codec,
    backend: Backend,
    node: Result<String, String>,
    r: PipeResult<C>,
) -> bool {
    match node {
        Ok(n) => exists|path: &str, outcome: PipeResult<C>|
            path@ == n@ && #[trigger] gpu_gave(m, codec, path, outcome) && gpu_decides(
                m,
                codec,
                backend,
                n@,
                outcome,
                r,
            ),
        Err(e) => gpu_refused(m, codec, backend, refusal("GPU"@, e@), r),
    }
}

/// `r` is the decoder that the settings want, or why there is none. With `gpu` the CPU is not
/// asked, with `cpu` the GPU is not, and with `auto` the CPU is asked after the GPU.
pub open spec fn decoder_found<C, M: Machine<C>>(
    m: &M,
    codec: &Codec,
    settings: &Settings,
    r: PipeResult<C>,
) -> bool {
    if settings.backend == Backend::Cpu {
        cpu_decides(m, codec, None, r)
    } else {
        exists|node: Result<String, String>| #[trigger]
            call_ensures(M::render_node, (m, explicit_node(settings)), node) && node_decides(
                m,
                codec,
                settings.backend,
                node,
                r,
            )
    }
}

/// The render node that the settings ask for.
pub open spec fn explicit_node(settings: &Settings) -> Option<&String> {
    match settings.gpu_device {
        Some(n) => Some(&n),
        None => None,
    }
}

/// The decoder for a codec, as the settings want it.
pub fn open_decoder<C, M: Machine<C>>(m: &M, codec: &Codec, settings: &Settings) -> (r: PipeResult<
    C,
>)
    ensures
        decoder_found(m, codec, settings, r),
{
    let mut reasons: Vec<String> = Vec::new();
    let ghost mut gpu = Seq::<char>::empty();
    if settings.backend != Backend::Cpu {
        match m.render_node(settings.gpu_device.as_ref()) {
            Ok(node) => {
                let who = joined("GPU ", node.as_str());
                let outcome = open_hw(m, codec, node.as_str());
                proof {
                    gpu = refusal("GPU "@ + node@, why_of(outcome));
                }
                if let Some(d) = tried(who.as_str(), outcome, &mut reasons) {
                    return Ok(d);
                }
            },
            Err(e) => {
                proof {
                    gpu = refusal("GPU"@, e@);
                }
                let refused: PipeResult<C> = Err(e);
                let _ = tried("GPU", refused, &mut reasons);
            },
        }
        assert(crate::text::texts(reasons@) =~= seq![gpu]);
        if settings.backend == Backend::Gpu {
            proof {
                listed_one(gpu, "; "@);
            }
            return Err(list(&reasons, "; "));
        }
    }
    let outcome = open_sw(m, codec);
    let ghost why = why_of(outcome);
    match tried("CPU", outcome, &mut reasons) {
        Some(d) => Ok(d),
        None => {
            proof {
                let cpu = refusal("CPU"@, why);
                if settings.backend == Backend::Cpu {
                    assert(crate::text::texts(reasons@) =~= seq![cpu]);
                    listed_one(cpu, "; "@);
                } else {
                    assert(crate::text::texts(reasons@) =~= seq![gpu, cpu]);
                    listed_two(gpu, cpu, "; "@);
                }
            }
            Err(list(&reasons, "; "))
        },
    }
}

/// The pipeline of a video. `demux` is what opening the file gave.
pub fn open_pipeline<D: Demuxer, C: Decoder, M: Machine<C>>(
    m: &M,
    demux: PipeResult<D>,
    looped: bool,
    settings: &Settings,
) -> (r: PipeResult<Pipeline<D, C>>)
    ensures
        match demux {
            Ok(d) => exists|info: &VideoInfo, found: PipeResult<C>| #[trigger]
                call_ensures(D::info, (&d,), info) && #[trigger] decoder_found(
                    m,
                    &info.codec,
                    settings,
                    found,
                ) && match found {
                    Ok(c) => r matches Ok(p) && {
                        &&& p.demux == d
                        &&& p.decoder == c
                        &&& p.looped == looped
                        &&& p.ready@.len() == 0
                        &&& !p.flushed
                        &&& p.loop_offset == 0
                        &&& p.shown == 0
                    },
                    Err(e) => r == Err::<Pipeline<D, C>, String>(e),
                },
            Err(e) => r == Err::<Pipeline<D, C>, String>(e),
        },
{
    let d = match demux {
        Ok(d) => d,
        Err(e) => {
            return Err(e);
        },
    };
    match open_decoder(m, &d.info().codec, settings) {
        Ok(c) => Ok(Pipeline::new(d, c, looped)),
        Err(e) => Err(e),
    }
}

/// Why no GPU decoder was found: what VA-API said, and what NVDEC said if it was asked.
pub open spec fn is_hw_refusal(e: Seq<char>) -> bool {
    ||| exists|why: Seq<char>| e == #[trigger] refusal("VA-API"@, why)
    ||| exists|first: Seq<char>, why: Seq<char>|
        e == #[trigger] refusal("NVDEC"@, first) + "; "@ + #[trigger] refusal("VA-API"@, why)
}

/// Why the GPU is not used: there is none, or its node refused.
pub open spec fn is_gpu_refusal(e: Seq<char>) -> bool {
    ||| exists|why: Seq<char>| e == #[trigger] refusal("GPU"@, why)
    ||| exists|node: Seq<char>, why: Seq<char>|
        e == #[trigger] refusal("GPU "@ + node, why) && is_hw_refusal(why)
}

/// Why no decoder was found: with `gpu` what the GPU said, with `cpu` what the CPU said, with
/// `auto` both.
pub open spec fn is_refusal(backend: Backend, e: Seq<char>) -> bool {
    match backend {
        Backend::Gpu => is_gpu_refusal(e),
        Backend::Cpu => exists|why: Seq<char>| e == #[trigger] refusal("CPU"@, why),
        Backend::Auto => exists|gpu: Seq<char>, why: Seq<char>| #[trigger]
            is_gpu_refusal(gpu) && e == gpu + "; "@ + #[trigger] refusal("CPU"@, why),
    }
}

proof fn gpu_refusals<C, M: Machine<C>>(m: &M, codec: &Codec, node: &str, r: PipeResult<C>)
    requires
        gpu_gave(m, codec, node, r),
    ensures
        r matches Err(e) ==> is_hw_refusal(e@),
{
    if let Err(e) = r {
        let nvidia = choose|nvidia: bool| #[trigger]
            call_ensures(M::is_nvidia, (m, node), nvidia) && node_gave(m, codec, node, nvidia, r);
        if nvidia {
            assert(exists|f: Seq<char>| #[trigger] vaapi_gave(m, codec, node, Some(f), r));
        }
        assert(is_hw_refusal(e@));
    }
}

/// Every refusal is explained: whoever was asked and refused stands in the message, and nobody
/// else.
pub proof fn every_refusal_is_explained<C, M: Machine<C>>(
    m: &M,
    codec: &Codec,
    settings: &Settings,
    r: PipeResult<C>,
)
    requires
        decoder_found(m, codec, settings, r),
    ensures
        r matches Err(e) ==> is_refusal(settings.backend, e@),
{
    if r is Err && settings.backend != Backend::Cpu {
        let backend = settings.backend;
        let node = choose|node: Result<String, String>| #[trigger]
            call_ensures(M::render_node, (m, explicit_node(settings)), node) && node_decides(
                m,
                codec,
                backend,
                node,
                r,
            );
        match node {
            Ok(n) => {
                let (path, outcome) = choose|path: &str, outcome: PipeResult<C>|
                    path@ == n@ && #[trigger] gpu_gave(m, codec, path, outcome) && gpu_decides(
                        m,
                        codec,
                        backend,
                        n@,
                        outcome,
                        r,
                    );
                gpu_refusals(m, codec, path, outcome);
                assert(is_gpu_refusal(refusal("GPU "@ + n@, why_of(outcome))));
            },
            Err(e) => {
                assert(is_gpu_refusal(refusal("GPU"@, e@)));
            },
        }
    }
}

/// `gpu` never falls back to the CPU: a decoder that it gives is one of the GPU.
pub proof fn gpu_alone_means_the_gpu<C, M: Machine<C>>(
    m: &M,
    codec: &Codec,
    settings: &Settings,
    r: PipeResult<C>,
)
    requires
        settings.backend == Backend::Gpu,
        decoder_found(m, codec, settings, r),
    ensures
        r is Ok ==> exists|node: &str| #[trigger] gpu_gave(m, codec, node, r),
{
}

/// `cpu` never asks the GPU: a decoder that it gives is one of the CPU.
pub proof fn cpu_alone_means_the_cpu<C, M: Machine<C>>(
    m: &M,
    codec: &Codec,
    settings: &Settings,
    r: PipeResult<C>,
)
    requires
        settings.backend == Backend::Cpu,
        decoder_found(m, codec, settings, r),
    ensures
        r is Ok ==> cpu_gave(m, codec, r),
{
}

} // verus!
