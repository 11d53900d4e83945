//! Laws of the choice of a decoder.

use crate::config::{Backend, Settings};
use crate::media::video::backend::{open_decoder, open_hw, open_pipeline, open_sw, tried, Machine};
use crate::media::video::pipeline::{Codec, Decoder, Demuxer, PipeResult, Pipeline, VideoInfo};
use vstd::prelude::*;

verus! {

/// The list `b` is `a` with one more text behind it.
pub open spec fn has_one_more(a: Seq<String>, b: Seq<String>, text: Seq<char>) -> bool {
    &&& b.len() == a.len() + 1
    &&& forall|i: int| 0 <= i < a.len() ==> (#[trigger] b[i])@ == a[i]@
    &&& b.last()@ == text
}

proof fn one_more(a: Seq<String>, b: Seq<String>, text: Seq<char>)
    requires
        crate::text::texts(b) == crate::text::texts(a).push(text),
    ensures
        has_one_more(a, b, text),
{
    let (x, y) = (crate::text::texts(a), crate::text::texts(b));
    assert(x.len() == a.len() && y.len() == b.len());
    assert forall|i: int| 0 <= i < a.len() implies (#[trigger] b[i])@ == a[i]@ by {
        assert(y[i] == b[i]@);
        assert(x[i] == a[i]@);
    }
    assert(y[a.len() as int] == b[a.len() as int]@);
}

/// An attempt gives a decoder, or one more reason why there is none.
pub proof fn a_refusal_is_noted<C>()
    ensures
        forall|who: &str, outcome: PipeResult<C>, reasons: &mut Vec<String>, r: Option<C>| #[trigger]
            call_ensures(tried::<C>, (who, outcome, reasons), r) ==> match outcome {
                Ok(d) => r == Some(d) && final(reasons)@ == reasons@,
                Err(e) => r is None && has_one_more(
                    reasons@,
                    final(reasons)@,
                    who@ + ": "@ + e@,
                ),
            },
{
    assert forall|who: &str, outcome: PipeResult<C>, reasons: &mut Vec<String>, r: Option<C>|
        #[trigger] call_ensures(tried::<C>, (who, outcome, reasons), r) implies match outcome {
        Ok(d) => r == Some(d) && final(reasons)@ == reasons@,
        Err(e) => r is None && has_one_more(reasons@, final(reasons)@, who@ + ": "@ + e@),
    } by {
        if let Err(e) = outcome {
            one_more(reasons@, final(reasons)@, who@ + ": "@ + e@);
        }
    }
}

/// VA-API gave `outcome`.
pub open spec fn vaapi_said<C, M: Machine<C>>(
    m: &M,
    codec: &Codec,
    node: &str,
    outcome: PipeResult<C>,
) -> bool {
    call_ensures(M::vaapi, (m, codec, node), outcome)
}

/// NVDEC gave `outcome`.
pub open spec fn nvdec_said<C, M: Machine<C>>(
    m: &M,
    codec: &Codec,
    node: &str,
    outcome: PipeResult<C>,
) -> bool {
    call_ensures(M::nvdec, (m, codec, node), outcome)
}

/// `r` is what a device of NVIDIA gives: NVDEC, else VA-API, else why neither.
pub open spec fn is_nvidia_choice<C, M: Machine<C>>(
    m: &M,
    codec: &Codec,
    node: &str,
    r: PipeResult<C>,
) -> bool {
    ||| r is Ok && nvdec_said(m, codec, node, r)
    ||| exists|a: String, b: PipeResult<C>| #[trigger]
        nvdec_said(m, codec, node, Err::<C, String>(a)) && #[trigger] vaapi_said(m, codec, node, b)
            && match b {
            Ok(d) => r == Ok::<C, String>(d),
            Err(e) => r matches Err(why) && why@ == "NVDEC"@ + ": "@ + a@ + "; "@ + ("VA-API"@
                + ": "@ + e@),
        }
}

/// `r` is what any other device gives: VA-API, else why not.
pub open spec fn is_other_choice<C, M: Machine<C>>(
    m: &M,
    codec: &Codec,
    node: &str,
    r: PipeResult<C>,
) -> bool {
    exists|b: PipeResult<C>| #[trigger]
        vaapi_said(m, codec, node, b) && match b {
            Ok(d) => r == Ok::<C, String>(d),
            Err(e) => r matches Err(why) && why@ == "VA-API"@ + ": "@ + e@,
        }
}

/// `r` is what the GPU behind a render node gives.
pub open spec fn is_gpu_choice<C, M: Machine<C>>(
    m: &M,
    codec: &Codec,
    node: &str,
    r: PipeResult<C>,
) -> bool {
    ||| call_ensures(M::is_nvidia, (m, node), true) && is_nvidia_choice(m, codec, node, r)
    ||| call_ensures(M::is_nvidia, (m, node), false) && is_other_choice(m, codec, node, r)
}

proof fn gpu_choice<C, M: Machine<C>>(m: &M, codec: &Codec, node: &str, r: PipeResult<C>)
    requires
        crate::media::video::backend::gpu_gave(m, codec, node, r),
    ensures
        is_gpu_choice(m, codec, node, r),
{
    let nvidia = choose|nvidia: bool| #[trigger]
        call_ensures(M::is_nvidia, (m, node), nvidia) && crate::media::video::backend::node_gave(
            m,
            codec,
            node,
            nvidia,
            r,
        );
    if nvidia {
        let outcome = choose|outcome: PipeResult<C>| #[trigger]
            call_ensures(M::nvdec, (m, codec, node), outcome) && match outcome {
                Ok(d) => r == Ok::<C, String>(d),
                Err(e) => crate::media::video::backend::vaapi_gave(m, codec, node, Some(e@), r),
            };
        match outcome {
            Ok(d) => {
                assert(nvdec_said(m, codec, node, r));
            },
            Err(a) => {
                let b = choose|b: PipeResult<C>| #[trigger]
                    call_ensures(M::vaapi, (m, codec, node), b) && match b {
                        Ok(d) => r == Ok::<C, String>(d),
                        Err(e) => r matches Err(reason) && reason@
                            == crate::media::video::backend::refusal("NVDEC"@, a@) + "; "@
                            + crate::media::video::backend::refusal("VA-API"@, e@),
                    };
                assert(nvdec_said(m, codec, node, Err::<C, String>(a)));
                assert(vaapi_said(m, codec, node, b));
            },
        }
    } else {
        let b = choose|b: PipeResult<C>| #[trigger]
            call_ensures(M::vaapi, (m, codec, node), b) && match b {
                Ok(d) => r == Ok::<C, String>(d),
                Err(e) => r matches Err(reason) && reason@ == crate::media::video::backend::refusal(
                    "VA-API"@,
                    e@,
                ),
            };
        assert(vaapi_said(m, codec, node, b));
    }
}

/// On a device of NVIDIA NVDEC comes first, then VA-API; on any other there is VA-API alone.
pub proof fn nvdec_comes_first<C, M: Machine<C>>(m: &M, codec: &Codec, node: &str, r: PipeResult<C>)
    requires
        call_ensures(open_hw::<C, M>, (m, codec, node), r),
    ensures
        is_gpu_choice(m, codec, node, r),
{
    gpu_choice(m, codec, node, r);
}

/// `r` is what the processor gives for a codec.
pub open spec fn is_cpu_choice<C, M: Machine<C>>(m: &M, codec: &Codec, r: PipeResult<C>) -> bool {
    &&& codec is Av1 ==> call_ensures(M::av1, (m,), r)
    &&& codec is H264 ==> call_ensures(M::h264, (m,), r)
    &&& codec is Vp8 || codec is Vp9 ==> call_ensures(M::vpx, (m, codec), r)
    &&& codec is Hevc || codec is Other ==> (r matches Err(e) && e@ == "software decoder for "@
        + codec.shown() + " is not wired up yet"@)
}

/// On the processor each codec has its own decoder; for HEVC and unknown ones there is none.
pub proof fn each_codec_has_its_decoder<C, M: Machine<C>>(m: &M, codec: &Codec, r: PipeResult<C>)
    requires
        call_ensures(open_sw::<C, M>, (m, codec), r),
    ensures
        is_cpu_choice(m, codec, r),
{
}

/// The processor decides: its decoder, or why not, behind what the GPU said.
pub open spec fn is_settled_by_cpu<C, M: Machine<C>>(
    m: &M,
    codec: &Codec,
    before: Seq<char>,
    r: PipeResult<C>,
) -> bool {
    exists|outcome: PipeResult<C>| #[trigger]
        is_cpu_choice(m, codec, outcome) && match outcome {
            Ok(d) => r == Ok::<C, String>(d),
            Err(e) => r matches Err(why) && why@ == before + ("CPU"@ + ": "@ + e@),
        }
}

/// The GPU refused: the processor is asked, unless the GPU alone may decode.
pub open spec fn is_settled_without_gpu<C, M: Machine<C>>(
    m: &M,
    codec: &Codec,
    backend: Backend,
    why: Seq<char>,
    r: PipeResult<C>,
) -> bool {
    &&& backend is Gpu ==> (r matches Err(e) && e@ == why)
    &&& backend is Auto ==> is_settled_by_cpu(m, codec, why + "; "@, r)
}

/// The GPU behind the node `path` gave `outcome`, and that settles it, or the processor does.
pub open spec fn is_settled_by_gpu<C, M: Machine<C>>(
    m: &M,
    codec: &Codec,
    backend: Backend,
    path: &str,
    outcome: PipeResult<C>,
    r: PipeResult<C>,
) -> bool {
    &&& is_gpu_choice(m, codec, path, outcome)
    &&& outcome matches Ok(d) ==> r == Ok::<C, String>(d)
    &&& outcome matches Err(e) ==> is_settled_without_gpu(
        m,
        codec,
        backend,
        "GPU "@ + path@ + ": "@ + e@,
        r,
    )
}

/// `r` is the decoder that the settings ask for, or every reason why there is none.
pub open spec fn is_settled<C, M: Machine<C>>(
    m: &M,
    codec: &Codec,
    settings: &Settings,
    r: PipeResult<C>,
) -> bool {
    &&& settings.backend is Cpu ==> is_settled_by_cpu(m, codec, Seq::empty(), r)
    &&& !(settings.backend is Cpu) ==> exists|device: Option<&String>, node: Result<String, String>|
        #[trigger] call_ensures(M::render_node, (m, device), node) && (device is Some
            <==> settings.gpu_device is Some) && (device matches Some(d)
            ==> settings.gpu_device == Some(*d)) && match node {
            Err(e) => is_settled_without_gpu(
                m,
                codec,
                settings.backend,
                "GPU"@ + ": "@ + e@,
                r,
            ),
            Ok(n) => exists|path: &str, outcome: PipeResult<C>|
                path@ == n@ && #[trigger] is_settled_by_gpu(
                    m,
                    codec,
                    settings.backend,
                    path,
                    outcome,
                    r,
                ),
        }
}

proof fn settled_by_cpu<C, M: Machine<C>>(
    m: &M,
    codec: &Codec,
    first: Option<Seq<char>>,
    r: PipeResult<C>,
)
    requires
        crate::media::video::backend::cpu_decides(m, codec, first, r),
    ensures
        first is None ==> is_settled_by_cpu(m, codec, Seq::empty(), r),
        first matches Some(f) ==> is_settled_by_cpu(m, codec, f + "; "@, r),
{
    let outcome = choose|outcome: PipeResult<C>| #[trigger]
        crate::media::video::backend::cpu_gave(m, codec, outcome) && match outcome {
            Ok(d) => r == Ok::<C, String>(d),
            Err(e) => r matches Err(reason) && reason@ == match first {
                Some(f) => f + "; "@ + crate::media::video::backend::refusal("CPU"@, e@),
                None => crate::media::video::backend::refusal("CPU"@, e@),
            },
        };
    assert(is_cpu_choice(m, codec, outcome));
    if let Err(e) = outcome {
        let t = "CPU"@ + ": "@ + e@;
        assert(Seq::<char>::empty() + t =~= t);
    }
}

proof fn settled_without_gpu<C, M: Machine<C>>(
    m: &M,
    codec: &Codec,
    backend: Backend,
    why: Seq<char>,
    r: PipeResult<C>,
)
    requires
        crate::media::video::backend::gpu_refused(m, codec, backend, why, r),
    ensures
        is_settled_without_gpu(m, codec, backend, why, r),
{
    if !(backend is Gpu) {
        settled_by_cpu(m, codec, Some(why), r);
    }
}

proof fn settled<C, M: Machine<C>>(m: &M, codec: &Codec, settings: &Settings, r: PipeResult<C>)
    requires
        crate::media::video::backend::decoder_found(m, codec, settings, r),
    ensures
        is_settled(m, codec, settings, r),
{
    let backend = settings.backend;
    if backend is Cpu {
        settled_by_cpu(m, codec, None, r);
    } else {
        let device = crate::media::video::backend::explicit_node(settings);
        let node = choose|node: Result<String, String>| #[trigger]
            call_ensures(M::render_node, (m, device), node)
                && crate::media::video::backend::node_decides(m, codec, backend, node, r);
        match node {
            Err(e) => {
                settled_without_gpu(m, codec, backend, "GPU"@ + ": "@ + e@, r);
            },
            Ok(n) => {
                let (path, outcome) = choose|path: &str, outcome: PipeResult<C>|
                    path@ == n@ && #[trigger] crate::media::video::backend::gpu_gave(
                        m,
                        codec,
                        path,
                        outcome,
                    ) && crate::media::video::backend::gpu_decides(
                        m,
                        codec,
                        backend,
                        n@,
                        outcome,
                        r,
                    );
                gpu_choice(m, codec, path, outcome);
                if let Err(e) = outcome {
                    settled_without_gpu(m, codec, backend, "GPU "@ + path@ + ": "@ + e@, r);
                }
                assert(is_settled_by_gpu(m, codec, backend, path, outcome, r));
            },
        }
        assert(call_ensures(M::render_node, (m, device), node));
    }
}

/// The settings decide who is asked: the GPU alone, the processor alone, or the GPU and then the
/// processor. Who was asked and refused is named, with the reason.
pub proof fn the_settings_decide_who_decodes<C, M: Machine<C>>(
    m: &M,
    codec: &Codec,
    settings: &Settings,
    r: PipeResult<C>,
)
    requires
        call_ensures(open_decoder::<C, M>, (m, codec, settings), r),
    ensures
        is_settled(m, codec, settings, r),
{
    settled(m, codec, settings, r);
}

/// A pipeline has the demuxer of its file and the decoder for its codec, and is at the start; a
/// file that cannot be taken apart, or decoded, has none.
pub proof fn a_pipeline_is_made_for_its_file<D: Demuxer, C: Decoder, M: Machine<C>>(
    m: &M,
    demux: PipeResult<D>,
    looped: bool,
    settings: &Settings,
    r: PipeResult<Pipeline<D, C>>,
)
    requires
        call_ensures(open_pipeline::<D, C, M>, (m, demux, looped, settings), r),
    ensures
        demux matches Err(e) ==> r == Err::<Pipeline<D, C>, String>(e),
        demux matches Ok(d) ==> exists|info: &VideoInfo, found: PipeResult<C>| #[trigger]
            call_ensures(D::info, (&d,), info) && #[trigger] is_settled(
                m,
                &info.codec,
                settings,
                found,
            ) && match found {
                Err(e) => r == Err::<Pipeline<D, C>, String>(e),
                Ok(c) => r matches Ok(p) && p.demux == d && p.decoder == c && p.looped == looped
                    && p.ready@.len() == 0 && !p.flushed && p.loop_offset == 0 && p.shown == 0,
            },
{
    if let Ok(d) = demux {
        let (info, found) = choose|info: &VideoInfo, found: PipeResult<C>| #[trigger]
            call_ensures(D::info, (&d,), info)
                && #[trigger] crate::media::video::backend::decoder_found(
                m,
                &info.codec,
                settings,
                found,
            ) && match found {
                Ok(c) => r matches Ok(p) && p.demux == d && p.decoder == c && p.looped == looped
                    && p.ready@.len() == 0 && !p.flushed && p.loop_offset == 0 && p.shown == 0,
                Err(e) => r == Err::<Pipeline<D, C>, String>(e),
            };
        settled(m, &info.codec, settings, found);
        assert(call_ensures(D::info, (&d,), info));
    }
}

} // verus!
