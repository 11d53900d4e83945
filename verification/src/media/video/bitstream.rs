//! H.264 and HEVC from containers, brought to Annex-B.
//!
//! MP4 and Matroska store H.264 and HEVC as "length + NAL", with the parameter sets
//! (VPS, SPS, PPS) kept apart in avcC or hvcC. Decoders expect Annex-B: `00 00 00 01`
//! before every NAL, and the parameter sets in the stream before a keyframe. The layouts
//! of avcC and hvcC are the same in both containers.

use vstd::prelude::*;
use vstd::slice::{slice_subrange, slice_to_vec};

verus! {

/// A codec configuration: the size of the length field and the parameter sets.
pub struct NalConfig {
    /// How many bytes the length of a NAL takes in a sample (1, 2 or 4).
    pub length_size: usize,
    /// VPS, SPS and PPS in the order in which the decoder gets them.
    pub parameter_sets: Vec<Vec<u8>>,
}

/// The byte strings held by a vector of vectors.
pub open spec fn byte_strings(v: Seq<Vec<u8>>) -> Seq<Seq<u8>> {
    v.map_values(|b: Vec<u8>| b@)
}

impl NalConfig {
    /// The parameter sets as byte strings.
    pub open spec fn sets(&self) -> Seq<Seq<u8>> {
        byte_strings(self.parameter_sets@)
    }
}

// ------------------------------------------------------------------ reading

/// Reads a byte string from the front.
pub struct Reader<'a> {
    pub buf: &'a [u8],
    pub pos: usize,
}

/// The two bytes at `i` as a big-endian number.
pub open spec fn be16(s: Seq<u8>, i: int) -> int {
    s[i] * 256 + s[i + 1]
}

impl<'a> Reader<'a> {
    /// The position is inside the buffer or at its end.
    pub open spec fn wf(&self) -> bool {
        self.pos <= self.buf@.len()
    }

    /// `n` bytes can still be read.
    pub open spec fn has(&self, n: int) -> bool {
        self.pos + n <= self.buf@.len()
    }

    /// Starts at the first byte.
    pub fn new(buf: &'a [u8]) -> (r: Reader<'a>)
        ensures
            r.wf(),
            r.buf@ == buf@,
            r.pos == 0,
    {
        Reader { buf, pos: 0 }
    }

    /// The next byte, or `None` at the end.
    pub fn u8(&mut self) -> (r: Option<u8>)
        requires
            old(self).wf(),
        ensures
            final(self).wf(),
            final(self).buf@ == old(self).buf@,
            r is Some <==> old(self).has(1),
            r matches Some(v) ==> v == old(self).buf@[old(self).pos as int] && final(self).pos
                == old(self).pos + 1,
            r is None ==> final(self).pos == old(self).pos,
    {
        if self.pos < self.buf.len() {
            let v: u8 = self.buf[self.pos];
            self.pos = self.pos + 1;
            Some(v)
        } else {
            None
        }
    }

    /// The next two bytes as a big-endian number.
    pub fn u16(&mut self) -> (r: Option<u16>)
        requires
            old(self).wf(),
        ensures
            final(self).wf(),
            final(self).buf@ == old(self).buf@,
            r is Some <==> old(self).has(2),
            r matches Some(v) ==> v == be16(old(self).buf@, old(self).pos as int) && final(self).pos
                == old(self).pos + 2,
    {
        let hi: u8 = match self.u8() {
            Some(v) => v,
            None => return None,
        };
        let lo: u8 = match self.u8() {
            Some(v) => v,
            None => return None,
        };
        Some(hi as u16 * 256 + lo as u16)
    }

    /// The next `n` bytes.
    pub fn bytes(&mut self, n: usize) -> (r: Option<&'a [u8]>)
        requires
            old(self).wf(),
        ensures
            final(self).wf(),
            final(self).buf@ == old(self).buf@,
            r is Some <==> old(self).has(n as int),
            r matches Some(s) ==> s@ == old(self).buf@.subrange(
                old(self).pos as int,
                old(self).pos + n,
            ) && final(self).pos == old(self).pos + n,
            r is None ==> final(self).pos == old(self).pos,
    {
        if n <= self.buf.len() - self.pos {
            let s: &'a [u8] = slice_subrange(self.buf, self.pos, self.pos + n);
            self.pos = self.pos + n;
            Some(s)
        } else {
            None
        }
    }

    /// Leaves out the next `n` bytes.
    pub fn skip(&mut self, n: usize) -> (r: Option<()>)
        requires
            old(self).wf(),
        ensures
            final(self).wf(),
            final(self).buf@ == old(self).buf@,
            r is Some <==> old(self).has(n as int),
            r is Some ==> final(self).pos == old(self).pos + n,
            r is None ==> final(self).pos == old(self).pos,
    {
        match self.bytes(n) {
            Some(_) => Some(()),
            None => None,
        }
    }
}

// ------------------------------------------------------------------ configuration records

/// `n` parameter sets from position `pos` on, each with its length in two bytes before it,
/// and the position behind them.
pub open spec fn sets_at(s: Seq<u8>, pos: int, n: nat) -> Option<(Seq<Seq<u8>>, int)>
    decreases n,
{
    if n == 0 {
        Some((Seq::empty(), pos))
    } else if pos + 2 > s.len() || pos + 2 + be16(s, pos) > s.len() {
        None
    } else {
        let next = pos + 2 + be16(s, pos);
        behind(seq![s.subrange(pos + 2, next)], sets_at(s, next, (n - 1) as nat))
    }
}

/// `front` before what was read later.
pub open spec fn behind(front: Seq<Seq<u8>>, rest: Option<(Seq<Seq<u8>>, int)>) -> Option<
    (Seq<Seq<u8>>, int),
> {
    match rest {
        Some((sets, end)) => Some((front + sets, end)),
        None => None,
    }
}

/// `n` arrays of parameter sets: a type byte, a count in two bytes, the sets.
pub open spec fn arrays_at(s: Seq<u8>, pos: int, n: nat) -> Option<(Seq<Seq<u8>>, int)>
    decreases n,
{
    if n == 0 {
        Some((Seq::empty(), pos))
    } else if pos + 3 > s.len() {
        None
    } else {
        match sets_at(s, pos + 3, be16(s, pos + 1) as nat) {
            Some((sets, next)) => behind(sets, arrays_at(s, next, (n - 1) as nat)),
            None => None,
        }
    }
}

/// What an `AVCDecoderConfigurationRecord` (ISO/IEC 14496-15, 5.3.3.1) says: the size of the
/// length field and the parameter sets, SPS before PPS. `None` for another version, a
/// record cut short or a length field of three bytes.
pub open spec fn avcc_content(raw: Seq<u8>) -> Option<(int, Seq<Seq<u8>>)> {
    if raw.len() < 6 || raw[0] != 1 {
        None
    } else {
        match sets_at(raw, 6, (raw[5] % 32) as nat) {
            None => None,
            Some((sps, mid)) => if mid >= raw.len() {
                None
            } else {
                match sets_at(raw, mid + 1, raw[mid] as nat) {
                    None => None,
                    Some((pps, end)) => if raw[4] % 4 == 2 {
                        None
                    } else {
                        Some((raw[4] % 4 + 1, sps + pps))
                    },
                }
            },
        }
    }
}

/// What an `HEVCDecoderConfigurationRecord` (ISO/IEC 14496-15, 8.3.3.1) says.
pub open spec fn hvcc_content(raw: Seq<u8>) -> Option<(int, Seq<Seq<u8>>)> {
    if raw.len() < 23 || raw[0] != 1 {
        None
    } else {
        match arrays_at(raw, 23, raw[22] as nat) {
            None => None,
            Some((sets, end)) => if raw[21] % 4 == 2 {
                None
            } else {
                Some((raw[21] % 4 + 1, sets))
            },
        }
    }
}

/// The configuration says exactly what was read, or nothing was readable.
pub open spec fn config_says(r: Option<NalConfig>, content: Option<(int, Seq<Seq<u8>>)>) -> bool {
    match content {
        None => r is None,
        Some((size, sets)) => r matches Some(c) && c.length_size == size && c.sets() == sets,
    }
}

/// Reads `n` parameter sets into `sets`. `false`: the record is cut short.
fn read_sets(r: &mut Reader<'_>, n: usize, sets: &mut Vec<Vec<u8>>) -> (ok: bool)
    requires
        old(r).wf(),
    ensures
        final(r).wf(),
        final(r).buf@ == old(r).buf@,
        ok == (sets_at(old(r).buf@, old(r).pos as int, n as nat) is Some),
        ok ==> behind(
            byte_strings(old(sets)@),
            sets_at(old(r).buf@, old(r).pos as int, n as nat),
        ) == Some((byte_strings(final(sets)@), final(r).pos as int)),
{
    let ghost s = r.buf@;
    let ghost start = r.pos as int;
    let ghost before = byte_strings(sets@);
    let mut i: usize = 0;
    proof {
        if let Some((all, end)) = sets_at(s, start, n as nat) {
            assert(before + all =~= before + all);
        }
    }
    while i < n
        invariant
            r.wf(),
            r.buf@ == s,
            s == old(r).buf@,
            start == old(r).pos,
            before == byte_strings(old(sets)@),
            i <= n,
            behind(before, sets_at(s, start, n as nat)) == behind(
                byte_strings(sets@),
                sets_at(s, r.pos as int, (n - i) as nat),
            ),
        decreases n - i,
    {
        let ghost pos = r.pos as int;
        let ghost have = byte_strings(sets@);
        let len: usize = match r.u16() {
            Some(v) => v as usize,
            None => return false,
        };
        let b: Vec<u8> = match r.bytes(len) {
            Some(b) => slice_to_vec(b),
            None => return false,
        };
        sets.push(b);
        i += 1;
        proof {
            let one = s.subrange(pos + 2, pos + 2 + len);
            assert(b@ == one);
            assert(byte_strings(sets@) =~= have + seq![one]);
            if let Some((rest, end)) = sets_at(s, r.pos as int, (n - i) as nat) {
                assert(have + (seq![one] + rest) =~= byte_strings(sets@) + rest);
            }
        }
    }
    assert(byte_strings(sets@) + Seq::<Seq<u8>>::empty() =~= byte_strings(sets@));
    true
}

/// `AVCDecoderConfigurationRecord`.
pub fn parse_avcc(raw: &[u8]) -> (r: Option<NalConfig>)
    ensures
        config_says(r, avcc_content(raw@)),
{
    if raw.len() < 6 || raw[0] != 1 {
        return None;
    }
    let (size_byte, count_byte) = (raw[4], raw[5]);
    assert(size_byte & 3 == size_byte % 4) by (bit_vector);
    assert(count_byte & 31 == count_byte % 32) by (bit_vector);
    let length_size: usize = (size_byte & 3) as usize + 1;
    let mut r = Reader { buf: raw, pos: 6 };
    let mut sets: Vec<Vec<u8>> = Vec::new();
    assert(byte_strings(sets@) =~= Seq::<Seq<u8>>::empty());
    if !read_sets(&mut r, (count_byte & 31) as usize, &mut sets) {
        return None;
    }
    proof {
        let (sps, mid) = sets_at(raw@, 6, (count_byte % 32) as nat)->0;
        assert(Seq::<Seq<u8>>::empty() + sps =~= sps);
        assert(byte_strings(sets@) == sps);
        assert(mid == r.pos);
    }
    let pps: u8 = match r.u8() {
        Some(v) => v,
        None => return None,
    };
    if !read_sets(&mut r, pps as usize, &mut sets) {
        return None;
    }
    if length_size == 3 {
        None
    } else {
        Some(NalConfig { length_size, parameter_sets: sets })
    }
}

/// `HEVCDecoderConfigurationRecord`.
pub fn parse_hvcc(raw: &[u8]) -> (r: Option<NalConfig>)
    ensures
        config_says(r, hvcc_content(raw@)),
{
    if raw.len() < 23 || raw[0] != 1 {
        return None;
    }
    let size_byte: u8 = raw[21];
    assert(size_byte & 3 == size_byte % 4) by (bit_vector);
    let length_size: usize = (size_byte & 3) as usize + 1;
    let arrays: usize = raw[22] as usize;
    let mut r = Reader { buf: raw, pos: 23 };
    let mut sets: Vec<Vec<u8>> = Vec::new();
    let mut i: usize = 0;
    proof {
        assert(byte_strings(sets@) =~= Seq::<Seq<u8>>::empty());
        if let Some((all, end)) = arrays_at(raw@, 23, arrays as nat) {
            assert(Seq::<Seq<u8>>::empty() + all =~= all);
        }
    }
    while i < arrays
        invariant
            r.wf(),
            r.buf@ == raw@,
            i <= arrays,
            arrays == raw@[22],
            raw@.len() >= 23,
            raw@[0] == 1,
            arrays_at(raw@, 23, arrays as nat) == behind(
                byte_strings(sets@),
                arrays_at(raw@, r.pos as int, (arrays - i) as nat),
            ),
        decreases arrays - i,
    {
        let ghost pos = r.pos as int;
        let ghost have = byte_strings(sets@);
        if r.u8().is_none() {
            return None;
        }
        let count: usize = match r.u16() {
            Some(v) => v as usize,
            None => return None,
        };
        if !read_sets(&mut r, count, &mut sets) {
            return None;
        }
        i += 1;
        proof {
            let (new, next) = sets_at(raw@, pos + 3, count as nat)->0;
            if let Some((rest, end)) = arrays_at(raw@, r.pos as int, (arrays - i) as nat) {
                assert(have + (new + rest) =~= byte_strings(sets@) + rest);
            }
        }
    }
    assert(byte_strings(sets@) + Seq::<Seq<u8>>::empty() =~= byte_strings(sets@));
    if length_size == 3 {
        None
    } else {
        Some(NalConfig { length_size, parameter_sets: sets })
    }
}

// ------------------------------------------------------------------ Annex-B

/// What stands before every NAL in Annex-B.
pub open spec fn start_code() -> Seq<u8> {
    seq![0u8, 0u8, 0u8, 1u8]
}

/// The NALs, each behind a start code.
pub open spec fn started(nals: Seq<Seq<u8>>) -> Seq<u8>
    decreases nals.len(),
{
    if nals.len() == 0 {
        Seq::empty()
    } else {
        started(nals.drop_last()) + start_code() + nals.last()
    }
}

/// A big-endian length field, as far as it fits a machine word.
pub open spec fn field_value(s: Seq<u8>) -> int
    decreases s.len(),
{
    if s.len() == 0 {
        0
    } else {
        (field_value(s.drop_last()) * 256 + s.last()) % (usize::MAX + 1)
    }
}

/// The NALs of a sample from position `pos` on, where each has its length in `size` bytes
/// before it; a length of zero stands for nothing. `None`: a length or a NAL is cut short.
pub open spec fn nals_at(s: Seq<u8>, pos: int, size: int) -> Option<Seq<Seq<u8>>>
    decreases s.len() - pos,
{
    if pos >= s.len() {
        Some(Seq::empty())
    } else if size <= 0 || pos < 0 || pos + size > s.len() {
        None
    } else {
        let n = field_value(s.subrange(pos, pos + size));
        if n < 0 || pos + size + n > s.len() {
            None
        } else {
            match nals_at(s, pos + size + n, size) {
                None => None,
                Some(rest) => Some(
                    if n == 0 {
                        rest
                    } else {
                        seq![s.subrange(pos + size, pos + size + n)] + rest
                    },
                ),
            }
        }
    }
}

/// A sample in Annex-B: for a keyframe the parameter sets, then the NALs of the sample.
pub open spec fn annexb(
    sample: Seq<u8>,
    size: int,
    sets: Seq<Seq<u8>>,
    keyframe: bool,
) -> Option<Seq<u8>> {
    match nals_at(sample, 0, size) {
        None => None,
        Some(nals) => Some(
            started(
                if keyframe {
                    sets + nals
                } else {
                    nals
                },
            ),
        ),
    }
}

/// NALs started one after the other are the same bytes as started in two groups.
pub proof fn started_joins(a: Seq<Seq<u8>>, b: Seq<Seq<u8>>)
    ensures
        started(a + b) == started(a) + started(b),
    decreases b.len(),
{
    if b.len() == 0 {
        assert(a + b =~= a);
        assert(started(a) + started(b) =~= started(a));
    } else {
        started_joins(a, b.drop_last());
        assert((a + b).drop_last() =~= a + b.drop_last());
        assert(started(a) + started(b) =~= started(a) + started(b.drop_last()) + start_code()
            + b.last());
    }
}

fn push_nal(out: &mut Vec<u8>, nal: &[u8], Ghost(nals): Ghost<Seq<Seq<u8>>>)
    requires
        old(out)@ == started(nals),
    ensures
        final(out)@ == started(nals.push(nal@)),
{
    out.push(0);
    out.push(0);
    out.push(0);
    out.push(1);
    out.extend_from_slice(nal);
    assert(nals.push(nal@).drop_last() =~= nals);
    assert(out@ =~= old(out)@ + start_code() + nal@);
}

fn read_length(field: &[u8]) -> (n: usize)
    ensures
        n == field_value(field@),
{
    let mut n: usize = 0;
    let mut i: usize = 0;
    assert(field@.take(0) =~= Seq::<u8>::empty());
    while i < field.len()
        invariant
            i <= field@.len(),
            n == field_value(field@.take(i as int)),
        decreases field@.len() - i,
    {
        let ghost before = n;
        let high: usize = n.wrapping_mul(256);
        assert(high % 256 == 0 && high as int == (before * 256) % (usize::MAX + 1)) by {
            word_times_256(before);
        }
        n = high + field[i] as usize;
        i += 1;
        proof {
            assert(field@.take(i as int).drop_last() =~= field@.take(i - 1));
            word_append(before, field@[i - 1]);
        }
    }
    assert(field@.take(i as int) =~= field@);
    n
}

proof fn word_times_256(n: usize)
    ensures
        (n * 256) % (usize::MAX + 1) % 256 == 0,
        n.wrapping_mul(256) as int == (n * 256) % (usize::MAX + 1),
{
    if usize::MAX == 0xffff_ffff {
        assert((n * 256) % 0x1_0000_0000 % 256 == 0);
    } else {
        assert((n * 256) % 0x1_0000_0000_0000_0000 % 256 == 0);
    }
}

proof fn word_append(n: usize, b: u8)
    ensures
        (n * 256) % (usize::MAX + 1) + b == (n * 256 + b) % (usize::MAX + 1),
{
    if usize::MAX == 0xffff_ffff {
        assert((n * 256) % 0x1_0000_0000 + b == (n * 256 + b) % 0x1_0000_0000);
    } else {
        assert((n * 256) % 0x1_0000_0000_0000_0000 + b == (n * 256 + b) % 0x1_0000_0000_0000_0000);
    }
}

/// A sample "length + NAL" in Annex-B. For a keyframe the parameter sets come first.
/// `None`: the sample is broken (a length runs past the end), such a frame is dropped.
pub fn to_annexb(sample: &[u8], cfg: &NalConfig, keyframe: bool) -> (r: Option<Vec<u8>>)
    requires
        cfg.length_size > 0,
    ensures
        match annexb(sample@, cfg.length_size as int, cfg.sets(), keyframe) {
            None => r is None,
            Some(bytes) => r matches Some(v) && v@ == bytes,
        },
{
    let mut out: Vec<u8> = Vec::new();
    let ghost mut done: Seq<Seq<u8>> = Seq::empty();
    if keyframe {
        let mut i: usize = 0;
        while i < cfg.parameter_sets.len()
            invariant
                i <= cfg.parameter_sets@.len(),
                done == cfg.sets().take(i as int),
                out@ == started(done),
            decreases cfg.parameter_sets@.len() - i,
        {
            push_nal(&mut out, cfg.parameter_sets[i].as_slice(), Ghost(done));
            i += 1;
            proof {
                done = done.push(cfg.sets()[i - 1]);
                assert(done =~= cfg.sets().take(i as int));
            }
        }
        assert(cfg.sets().take(i as int) =~= cfg.sets());
    }
    let ghost front = done;
    let ghost size = cfg.length_size as int;
    let mut r = Reader::new(sample);
    proof {
        if let Some(all) = nals_at(sample@, 0, size) {
            assert(front + (Seq::<Seq<u8>>::empty() + all) =~= front + all);
        }
        assert(front + Seq::<Seq<u8>>::empty() =~= front);
    }
    let ghost mut seen: Seq<Seq<u8>> = Seq::empty();
    while r.pos < sample.len()
        invariant
            cfg.length_size > 0,
            size == cfg.length_size,
            r.wf(),
            r.buf@ == sample@,
            front == (if keyframe {
                cfg.sets()
            } else {
                Seq::empty()
            }),
            out@ == started(front + seen),
            nals_at(sample@, 0, size) == (match nals_at(sample@, r.pos as int, size) {
                None => None,
                Some(rest) => Some(seen + rest),
            }),
        decreases sample@.len() - r.pos,
    {
        let ghost pos = r.pos as int;
        let n: usize = match r.bytes(cfg.length_size) {
            Some(field) => read_length(field),
            None => return None,
        };
        if n == 0 {
            continue;
        }
        match r.bytes(n) {
            Some(nal) => {
                push_nal(&mut out, nal, Ghost(front + seen));
                proof {
                    let one = sample@.subrange(pos + size, pos + size + n);
                    assert((front + seen).push(one) =~= front + seen.push(one));
                    if let Some(rest) = nals_at(sample@, r.pos as int, size) {
                        assert(seen + (seq![one] + rest) =~= seen.push(one) + rest);
                    }
                    seen = seen.push(one);
                }
            },
            None => return None,
        }
    }
    assert(seen + Seq::<Seq<u8>>::empty() =~= seen);
    proof {
        if !keyframe {
            assert(front + seen =~= seen);
        }
    }
    Some(out)
}

// ------------------------------------------------------------------ laws

/// A keyframe is the parameter sets followed by the same bytes that it would give as a
/// delta frame; whether it is readable does not depend on the parameter sets.
pub proof fn keyframe_is_sets_before_delta(sample: Seq<u8>, size: int, sets: Seq<Seq<u8>>)
    ensures
        annexb(sample, size, sets, true) is Some <==> annexb(sample, size, sets, false) is Some,
        annexb(sample, size, sets, false) matches Some(delta) ==> annexb(sample, size, sets, true)
            == Some(started(sets) + delta),
{
    if let Some(nals) = nals_at(sample, 0, size) {
        started_joins(sets, nals);
    }
}

/// What stands before a position does not matter for what follows it.
pub proof fn nals_shift(pre: Seq<u8>, s: Seq<u8>, pos: int, size: int)
    requires
        pos >= 0,
    ensures
        nals_at(pre + s, pre.len() + pos, size) == nals_at(s, pos, size),
    decreases s.len() - pos,
{
    let all = pre + s;
    let at = pre.len() + pos;
    if pos < s.len() && size > 0 && pos + size <= s.len() {
        assert(all.subrange(at, at + size) =~= s.subrange(pos, pos + size));
        let n = field_value(s.subrange(pos, pos + size));
        if n >= 0 && pos + size + n <= s.len() {
            assert(all.subrange(at + size, at + size + n) =~= s.subrange(
                pos + size,
                pos + size + n,
            ));
            nals_shift(pre, s, pos + size + n, size);
        }
    }
}

proof fn nals_join(a: Seq<u8>, b: Seq<u8>, pos: int, size: int)
    requires
        0 <= pos <= a.len(),
        nals_at(a, pos, size) is Some,
    ensures
        nals_at(a + b, pos, size) == (match nals_at(b, 0, size) {
            Some(y) => Some(nals_at(a, pos, size)->0 + y),
            None => None,
        }),
    decreases a.len() - pos,
{
    let all = a + b;
    if pos == a.len() {
        nals_shift(a, b, 0, size);
        if let Some(y) = nals_at(b, 0, size) {
            assert(Seq::<Seq<u8>>::empty() + y =~= y);
        }
    } else {
        assert(all.subrange(pos, pos + size) =~= a.subrange(pos, pos + size));
        let n = field_value(a.subrange(pos, pos + size));
        assert(all.subrange(pos + size, pos + size + n) =~= a.subrange(
            pos + size,
            pos + size + n,
        ));
        nals_join(a, b, pos + size + n, size);
        if let Some(y) = nals_at(b, 0, size) {
            let rest = nals_at(a, pos + size + n, size)->0;
            let one = seq![a.subrange(pos + size, pos + size + n)];
            assert(one + (rest + y) =~= (one + rest) + y);
        }
    }
}

/// Two samples in a row convert to the two results in a row, and behind a readable sample a broken
/// one makes the whole broken. The parameter sets of a keyframe come once, in front.
pub proof fn samples_convert_one_by_one(
    a: Seq<u8>,
    b: Seq<u8>,
    size: int,
    sets: Seq<Seq<u8>>,
    keyframe: bool,
)
    requires
        annexb(a, size, sets, keyframe) is Some,
    ensures
        annexb(a + b, size, sets, keyframe) == (match annexb(b, size, sets, false) {
            Some(second) => Some(annexb(a, size, sets, keyframe)->0 + second),
            None => None,
        }),
{
    nals_join(a, b, 0, size);
    if let Some(y) = nals_at(b, 0, size) {
        let x = nals_at(a, 0, size)->0;
        started_joins(x, y);
        started_joins(sets + x, y);
        assert(sets + (x + y) =~= (sets + x) + y);
    }
}

/// `n` in `size` bytes, big-endian.
pub open spec fn be_bytes(n: nat, size: nat) -> Seq<u8>
    decreases size,
{
    if size == 0 {
        Seq::empty()
    } else {
        be_bytes(n / 256, (size - 1) as nat).push((n % 256) as u8)
    }
}

/// The numbers below this fit `size` bytes.
pub open spec fn byte_range(size: nat) -> nat
    decreases size,
{
    if size == 0 {
        1
    } else {
        256 * byte_range((size - 1) as nat)
    }
}

/// A number that fits is read back from its bytes.
pub proof fn be_bytes_value(n: nat, size: nat)
    requires
        n < byte_range(size),
        n <= usize::MAX,
    ensures
        be_bytes(n, size).len() == size,
        field_value(be_bytes(n, size)) == n,
    decreases size,
{
    if size > 0 {
        be_bytes_value(n / 256, (size - 1) as nat);
        assert(be_bytes(n, size).drop_last() =~= be_bytes(n / 256, (size - 1) as nat));
        assert((n / 256) * 256 + n % 256 == n);
        assert(n as int % (usize::MAX + 1) == n) by (nonlinear_arith)
            requires
                0 <= n <= usize::MAX,
        ;
    }
}

/// NALs as a container stores them: each behind its length in `size` bytes.
pub open spec fn framed(nals: Seq<Seq<u8>>, size: nat) -> Seq<u8>
    decreases nals.len(),
{
    if nals.len() == 0 {
        Seq::empty()
    } else {
        be_bytes(nals[0].len(), size) + nals[0] + framed(nals.drop_first(), size)
    }
}

/// Every NAL is there and short enough for a length field of `size` bytes.
pub open spec fn frameable(nals: Seq<Seq<u8>>, size: nat) -> bool {
    forall|i: int|
        0 <= i < nals.len() ==> 0 < (#[trigger] nals[i]).len() < byte_range(size)
            && nals[i].len() <= usize::MAX
}

proof fn framed_from(pre: Seq<u8>, nals: Seq<Seq<u8>>, size: nat)
    requires
        size > 0,
        frameable(nals, size),
    ensures
        nals_at(pre + framed(nals, size), pre.len() as int, size as int) == Some(nals),
    decreases nals.len(),
{
    let s = pre + framed(nals, size);
    if nals.len() == 0 {
        assert(s =~= pre);
        assert(nals =~= Seq::<Seq<u8>>::empty());
    } else {
        let n = nals[0].len();
        let field = be_bytes(n, size);
        be_bytes_value(n, size);
        let pos = pre.len() as int;
        let next = pre + field + nals[0];
        let rest = nals.drop_first();
        assert(frameable(rest, size)) by {
            assert forall|i: int| 0 <= i < rest.len() implies 0 < (#[trigger] rest[i]).len()
                < byte_range(size) && rest[i].len() <= usize::MAX by {
                assert(rest[i] == nals[i + 1]);
            }
        }
        framed_from(next, rest, size);
        assert(s =~= next + framed(rest, size));
        assert(s.subrange(pos, pos + size) =~= field);
        assert(s.subrange(pos + size, pos + size + n) =~= nals[0]);
        assert(seq![nals[0]] + rest =~= nals);
    }
}

/// What a container stored is what the decoder gets: NALs framed with their lengths come
/// out of the conversion in the same order, each behind a start code, and nothing else.
pub proof fn framed_nals_come_out_started(nals: Seq<Seq<u8>>, size: nat, sets: Seq<Seq<u8>>)
    requires
        size > 0,
        frameable(nals, size),
    ensures
        annexb(framed(nals, size), size as int, sets, false) == Some(started(nals)),
        annexb(framed(nals, size), size as int, sets, true) == Some(started(sets) + started(nals)),
{
    framed_from(Seq::empty(), nals, size);
    assert(Seq::<u8>::empty() + framed(nals, size) =~= framed(nals, size));
    keyframe_is_sets_before_delta(framed(nals, size), size as int, sets);
}

/// Parameter sets as a configuration record stores them.
pub open spec fn stored_sets(sets: Seq<Seq<u8>>) -> Seq<u8>
    decreases sets.len(),
{
    if sets.len() == 0 {
        Seq::empty()
    } else {
        seq![(sets[0].len() / 256) as u8, (sets[0].len() % 256) as u8] + sets[0] + stored_sets(
            sets.drop_first(),
        )
    }
}

/// Every parameter set is short enough for its two-byte length.
pub open spec fn storable(sets: Seq<Seq<u8>>) -> bool {
    forall|i: int| 0 <= i < sets.len() ==> (#[trigger] sets[i]).len() <= 0xffff
}

proof fn stored_from(pre: Seq<u8>, sets: Seq<Seq<u8>>, post: Seq<u8>)
    requires
        storable(sets),
    ensures
        sets_at(pre + stored_sets(sets) + post, pre.len() as int, sets.len()) == Some(
            (sets, (pre.len() + stored_sets(sets).len()) as int),
        ),
    decreases sets.len(),
{
    let s = pre + stored_sets(sets) + post;
    if sets.len() == 0 {
        assert(sets =~= Seq::<Seq<u8>>::empty());
    } else {
        let n = sets[0].len();
        let head = seq![(n / 256) as u8, (n % 256) as u8];
        let next = pre + head + sets[0];
        let rest = sets.drop_first();
        assert(storable(rest)) by {
            assert forall|i: int| 0 <= i < rest.len() implies (#[trigger] rest[i]).len()
                <= 0xffff by {
                assert(rest[i] == sets[i + 1]);
            }
        }
        stored_from(next, rest, post);
        assert(s =~= next + stored_sets(rest) + post);
        let pos = pre.len() as int;
        assert(s[pos] == (n / 256) as u8 && s[pos + 1] == (n % 256) as u8);
        assert(be16(s, pos) == n);
        assert(s.subrange(pos + 2, pos + 2 + n) =~= sets[0]);
        assert(seq![sets[0]] + rest =~= sets);
    }
}

proof fn sets_in_prefix(s: Seq<u8>, m: int, pos: int, n: nat)
    requires
        0 <= pos <= m <= s.len(),
        sets_at(s, pos, n) is Some,
    ensures
        pos <= (sets_at(s, pos, n)->0).1 <= s.len(),
        sets_at(s.take(m), pos, n) == (if m >= (sets_at(s, pos, n)->0).1 {
            sets_at(s, pos, n)
        } else {
            None
        }),
    decreases n,
{
    if n > 0 {
        let t = s.take(m);
        let next = pos + 2 + be16(s, pos);
        if next <= m {
            assert(t.subrange(pos + 2, next) =~= s.subrange(pos + 2, next));
            sets_in_prefix(s, m, next, (n - 1) as nat);
        } else {
            sets_in_prefix(s, s.len() as int, next, (n - 1) as nat);
            assert(s.take(s.len() as int) =~= s);
        }
    }
}

/// An avcC record: version, three bytes of profile and level, a byte whose low bits give the size
/// of the length field, a byte whose low bits give the number of SPS, the SPS, the PPS.
pub open spec fn avcc_record(
    profile: Seq<u8>,
    size: u8,
    count: u8,
    sps: Seq<Seq<u8>>,
    pps: Seq<Seq<u8>>,
) -> Seq<u8> {
    seq![1u8] + profile + seq![size, count] + stored_sets(sps) + seq![pps.len() as u8]
        + stored_sets(pps)
}

proof fn avcc_record_parts(
    profile: Seq<u8>,
    size: u8,
    count: u8,
    sps: Seq<Seq<u8>>,
    pps: Seq<Seq<u8>>,
    tail: Seq<u8>,
)
    requires
        profile.len() == 3,
        count % 32 == sps.len(),
        pps.len() < 256,
        storable(sps),
        storable(pps),
    ensures
        ({
            let record = avcc_record(profile, size, count, sps, pps);
            let raw = record + tail;
            let mid: int = 6 + stored_sets(sps).len() as int;
            &&& raw[0] == 1 && raw[4] == size && raw[5] == count
            &&& sets_at(raw, 6, sps.len()) == Some((sps, mid))
            &&& mid < record.len()
            &&& raw[mid] == pps.len()
            &&& sets_at(raw, mid + 1, pps.len()) == Some((pps, record.len() as int))
        }),
{
    let raw = avcc_record(profile, size, count, sps, pps) + tail;
    let head = seq![1u8] + profile + seq![size, count];
    let rest = seq![pps.len() as u8] + stored_sets(pps) + tail;
    stored_from(head, sps, rest);
    assert(raw =~= head + stored_sets(sps) + rest);
    let mid = head + stored_sets(sps) + seq![pps.len() as u8];
    stored_from(mid, pps, tail);
    assert(raw =~= mid + stored_sets(pps) + tail);
}

/// Reading an avcC record gives back the parameter sets and the length size it was made of,
/// whatever the reserved bits are and whatever stands behind the record. A length size of three
/// is no record.
pub proof fn avcc_record_reads_back(
    profile: Seq<u8>,
    size: u8,
    count: u8,
    sps: Seq<Seq<u8>>,
    pps: Seq<Seq<u8>>,
    tail: Seq<u8>,
)
    requires
        profile.len() == 3,
        count % 32 == sps.len(),
        pps.len() < 256,
        storable(sps),
        storable(pps),
    ensures
        avcc_content(avcc_record(profile, size, count, sps, pps) + tail) == (if size % 4 == 2 {
            None
        } else {
            Some((size % 4 + 1, sps + pps))
        }),
{
    avcc_record_parts(profile, size, count, sps, pps, tail);
}

/// An avcC record that is cut short reads as nothing.
pub proof fn a_short_avcc_record_is_none(
    profile: Seq<u8>,
    size: u8,
    count: u8,
    sps: Seq<Seq<u8>>,
    pps: Seq<Seq<u8>>,
    n: int,
)
    requires
        profile.len() == 3,
        count % 32 == sps.len(),
        pps.len() < 256,
        storable(sps),
        storable(pps),
        0 <= n < avcc_record(profile, size, count, sps, pps).len(),
    ensures
        avcc_content(avcc_record(profile, size, count, sps, pps).take(n)) is None,
{
    let raw = avcc_record(profile, size, count, sps, pps);
    avcc_record_parts(profile, size, count, sps, pps, Seq::empty());
    assert(raw + Seq::<u8>::empty() =~= raw);
    let mid: int = 6 + stored_sets(sps).len() as int;
    if n >= 6 {
        sets_in_prefix(raw, n, 6, sps.len());
        if n > mid {
            sets_in_prefix(raw, n, mid + 1, pps.len());
        }
    }
}

/// Arrays of parameter sets as an hvcC record stores them: the type byte, the count, the sets.
pub open spec fn stored_arrays(arrays: Seq<(u8, Seq<Seq<u8>>)>) -> Seq<u8>
    decreases arrays.len(),
{
    if arrays.len() == 0 {
        Seq::empty()
    } else {
        let (kind, sets) = arrays[0];
        seq![kind, (sets.len() / 256) as u8, (sets.len() % 256) as u8] + stored_sets(sets)
            + stored_arrays(arrays.drop_first())
    }
}

/// All parameter sets of all arrays, in order.
pub open spec fn flat(arrays: Seq<(u8, Seq<Seq<u8>>)>) -> Seq<Seq<u8>>
    decreases arrays.len(),
{
    if arrays.len() == 0 {
        Seq::empty()
    } else {
        arrays[0].1 + flat(arrays.drop_first())
    }
}

/// Every array is short enough for its two-byte count, and so is every set in it.
pub open spec fn arrays_storable(arrays: Seq<(u8, Seq<Seq<u8>>)>) -> bool {
    forall|i: int|
        0 <= i < arrays.len() ==> (#[trigger] arrays[i]).1.len() <= 0xffff && storable(arrays[i].1)
}

proof fn arrays_from(pre: Seq<u8>, arrays: Seq<(u8, Seq<Seq<u8>>)>, post: Seq<u8>)
    requires
        arrays_storable(arrays),
    ensures
        arrays_at(pre + stored_arrays(arrays) + post, pre.len() as int, arrays.len()) == Some(
            (flat(arrays), (pre.len() + stored_arrays(arrays).len()) as int),
        ),
    decreases arrays.len(),
{
    let s = pre + stored_arrays(arrays) + post;
    if arrays.len() > 0 {
        let (kind, sets) = arrays[0];
        assert(arrays[0].1 == sets);
        let head = seq![kind, (sets.len() / 256) as u8, (sets.len() % 256) as u8];
        let rest = arrays.drop_first();
        assert(arrays_storable(rest)) by {
            assert forall|i: int| 0 <= i < rest.len() implies (#[trigger] rest[i]).1.len()
                <= 0xffff && storable(rest[i].1) by {
                assert(rest[i] == arrays[i + 1]);
            }
        }
        let front = pre + head;
        stored_from(front, sets, stored_arrays(rest) + post);
        let next = front + stored_sets(sets);
        arrays_from(next, rest, post);
        assert(s =~= front + stored_sets(sets) + (stored_arrays(rest) + post));
        assert(s =~= next + stored_arrays(rest) + post);
        let pos = pre.len() as int;
        assert(s[pos + 1] == (sets.len() / 256) as u8 && s[pos + 2] == (sets.len() % 256) as u8);
        assert(be16(s, pos + 1) == sets.len());
    }
}

proof fn arrays_in_prefix(s: Seq<u8>, m: int, pos: int, n: nat)
    requires
        0 <= pos <= m <= s.len(),
        arrays_at(s, pos, n) is Some,
    ensures
        pos <= (arrays_at(s, pos, n)->0).1 <= s.len(),
        arrays_at(s.take(m), pos, n) == (if m >= (arrays_at(s, pos, n)->0).1 {
            arrays_at(s, pos, n)
        } else {
            None
        }),
    decreases n,
{
    if n > 0 {
        let t = s.take(m);
        let k = be16(s, pos + 1) as nat;
        sets_in_prefix(s, s.len() as int, pos + 3, k);
        assert(s.take(s.len() as int) =~= s);
        let next = (sets_at(s, pos + 3, k)->0).1;
        if pos + 3 <= m {
            assert(be16(t, pos + 1) == be16(s, pos + 1));
            sets_in_prefix(s, m, pos + 3, k);
        }
        if next <= m {
            arrays_in_prefix(s, m, next, (n - 1) as nat);
        } else {
            arrays_in_prefix(s, s.len() as int, next, (n - 1) as nat);
        }
    }
}

/// An hvcC record: version, twenty bytes of profile, tier and level, a byte whose low bits give
/// the size of the length field, the number of arrays, the arrays.
pub open spec fn hvcc_record(
    head: Seq<u8>,
    size: u8,
    arrays: Seq<(u8, Seq<Seq<u8>>)>,
) -> Seq<u8> {
    seq![1u8] + head + seq![size, arrays.len() as u8] + stored_arrays(arrays)
}

proof fn hvcc_record_parts(
    head: Seq<u8>,
    size: u8,
    arrays: Seq<(u8, Seq<Seq<u8>>)>,
    tail: Seq<u8>,
)
    requires
        head.len() == 20,
        arrays.len() < 256,
        arrays_storable(arrays),
    ensures
        ({
            let record = hvcc_record(head, size, arrays);
            let raw = record + tail;
            &&& record.len() >= 23
            &&& raw[0] == 1 && raw[21] == size && raw[22] == arrays.len()
            &&& arrays_at(raw, 23, arrays.len()) == Some((flat(arrays), record.len() as int))
        }),
{
    let front = seq![1u8] + head + seq![size, arrays.len() as u8];
    arrays_from(front, arrays, tail);
    let raw = hvcc_record(head, size, arrays) + tail;
    assert(raw =~= front + stored_arrays(arrays) + tail);
}

/// Reading an hvcC record gives back its parameter sets in order, whatever the reserved bits are
/// and whatever stands behind the record. A length size of three is no record.
pub proof fn hvcc_record_reads_back(
    head: Seq<u8>,
    size: u8,
    arrays: Seq<(u8, Seq<Seq<u8>>)>,
    tail: Seq<u8>,
)
    requires
        head.len() == 20,
        arrays.len() < 256,
        arrays_storable(arrays),
    ensures
        hvcc_content(hvcc_record(head, size, arrays) + tail) == (if size % 4 == 2 {
            None
        } else {
            Some((size % 4 + 1, flat(arrays)))
        }),
{
    hvcc_record_parts(head, size, arrays, tail);
}

/// An hvcC record that is cut short reads as nothing.
pub proof fn a_short_hvcc_record_is_none(
    head: Seq<u8>,
    size: u8,
    arrays: Seq<(u8, Seq<Seq<u8>>)>,
    n: int,
)
    requires
        head.len() == 20,
        arrays.len() < 256,
        arrays_storable(arrays),
        0 <= n < hvcc_record(head, size, arrays).len(),
    ensures
        hvcc_content(hvcc_record(head, size, arrays).take(n)) is None,
{
    let raw = hvcc_record(head, size, arrays);
    hvcc_record_parts(head, size, arrays, Seq::empty());
    assert(raw + Seq::<u8>::empty() =~= raw);
    if n >= 23 {
        arrays_in_prefix(raw, n, 23, arrays.len());
    }
}

} // verus!
