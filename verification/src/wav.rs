//! Strict mono PCM16 RIFF/WAVE files.

use vstd::prelude::*;
use vstd::slice::slice_subrange;
use crate::audio::{supported_rate, validate_rate, values_of, wave_of, wave_of_is_normalized};
use crate::audio::{AudioError, AudioLimits, MonoPcm};
use crate::pcm::{decode_pcm16, encode_pcm16, encode_then_decode};
use crate::pcm::{get_u16, get_u32, le16, le32, push_bytes, push_u16, push_u32, u16_at, u32_at};

verus! {

/// The four bytes `RIFF`.
pub open spec fn riff_tag() -> Seq<u8> {
    seq![0x52, 0x49, 0x46, 0x46]
}

/// The four bytes `WAVE`.
pub open spec fn wave_tag() -> Seq<u8> {
    seq![0x57, 0x41, 0x56, 0x45]
}

/// The four bytes `fmt `.
pub open spec fn fmt_tag() -> Seq<u8> {
    seq![0x66, 0x6d, 0x74, 0x20]
}

/// The four bytes `data`.
pub open spec fn data_tag() -> Seq<u8> {
    seq![0x64, 0x61, 0x74, 0x61]
}

/// The four-byte tag at an offset.
pub open spec fn tag_at(bytes: Seq<u8>, offset: int) -> Seq<u8> {
    bytes.subrange(offset, offset + 4)
}

/// The sample rate a format chunk declares, or why it is refused.
pub open spec fn wave_format(chunk: Seq<u8>) -> Result<u32, Seq<char>> {
    if chunk.len() < 16 {
        Err("WAV format chunk is malformed"@)
    } else if !supported_rate(u32_at(chunk, 4) as u32) {
        Err("audio sample rate is unsupported"@)
    } else if u16_at(chunk, 0) == 1 && u16_at(chunk, 2) == 1 && u16_at(chunk, 14) == 16 && u16_at(
        chunk,
        12,
    ) == 2 && u32_at(chunk, 8) == 2 * u32_at(chunk, 4) {
        Ok(u32_at(chunk, 4) as u32)
    } else {
        Err("WAV encoding must be mono PCM16"@)
    }
}

/// What the chunks from `offset` on contribute: the first format chunk's rate and the first data
/// chunk's content, unless `format` or `data` already holds one. Chunks are padded to an even
/// size; the padding of the last one may be missing.
pub open spec fn wave_chunks(
    bytes: Seq<u8>,
    offset: int,
    format: Option<u32>,
    data: Option<Seq<u8>>,
) -> Result<(Option<u32>, Option<Seq<u8>>), Seq<char>>
    decreases bytes.len() + 2 - offset,
{
    if offset >= bytes.len() {
        Ok((format, data))
    } else if offset + 8 > bytes.len() {
        Err("WAV chunk is malformed"@)
    } else {
        let size = u32_at(bytes, offset + 4);
        let end = offset + 8 + size;
        let next = end + size % 2;
        if end > bytes.len() {
            Err("WAV chunk is malformed"@)
        } else {
            let content = bytes.subrange(offset + 8, end);
            let tag = tag_at(bytes, offset);
            if tag == fmt_tag() && format is None {
                match wave_format(content) {
                    Err(message) => Err(message),
                    Ok(rate) => if next > usize::MAX {
                        Err("WAV chunk is malformed"@)
                    } else {
                        wave_chunks(bytes, next, Some(rate), data)
                    },
                }
            } else if next > usize::MAX {
                Err("WAV chunk is malformed"@)
            } else if tag == data_tag() && data is None {
                wave_chunks(bytes, next, format, Some(content))
            } else {
                wave_chunks(bytes, next, format, data)
            }
        }
    }
}

/// Why a WAV file is refused, if it is.
pub open spec fn wav_failure(bytes: Seq<u8>, limits: AudioLimits) -> Option<Seq<char>> {
    if bytes.len() < 12 || tag_at(bytes, 0) != riff_tag() || tag_at(bytes, 8) != wave_tag() {
        Some("WAV container is malformed"@)
    } else if limits.admit_failure(bytes.len(), 48_000, 0) is Some {
        limits.admit_failure(bytes.len(), 48_000, 0)
    } else if u32_at(bytes, 4) + 8 > usize::MAX {
        Some("WAV container is malformed"@)
    } else if u32_at(bytes, 4) + 8 != bytes.len() {
        Some("WAV container length is invalid"@)
    } else {
        match wave_chunks(bytes, 12, None, None) {
            Err(message) => Some(message),
            Ok((None, _)) => Some("WAV format chunk is missing"@),
            Ok((Some(_), None)) => Some("WAV data chunk is missing"@),
            Ok((Some(rate), Some(pcm))) => MonoPcm::pcm16_failure(pcm, rate, limits),
        }
    }
}

/// The sample rate of an accepted WAV file.
pub open spec fn wav_rate(bytes: Seq<u8>) -> u32 {
    wave_chunks(bytes, 12, None, None)->Ok_0.0->0
}

/// The PCM16 bytes of an accepted WAV file.
pub open spec fn wav_pcm(bytes: Seq<u8>) -> Seq<u8> {
    wave_chunks(bytes, 12, None, None)->Ok_0.1->0
}

/// The container header in front of `size` further bytes.
pub open spec fn container_header(size: nat) -> Seq<u8> {
    riff_tag() + le32((size + 4) as nat) + wave_tag()
}

/// The header of a chunk of `size` bytes.
pub open spec fn chunk_header(tag: Seq<u8>, size: nat) -> Seq<u8> {
    tag + le32(size)
}

/// The format chunk content of mono PCM16 at a rate.
pub open spec fn format_content(rate: u32) -> Seq<u8> {
    le16(1) + le16(1) + le32(rate as nat) + le32((2 * rate) as nat) + le16(2) + le16(16)
}

/// The canonical WAV file of PCM16 bytes at a rate.
pub open spec fn wav_image(rate: u32, pcm: Seq<u8>) -> Seq<u8> {
    container_header((pcm.len() + 32) as nat) + chunk_header(fmt_tag(), 16) + format_content(rate)
        + chunk_header(data_tag(), pcm.len()) + pcm
}

/// Whether the four bytes at an offset are the given tag.
fn has_tag(bytes: &[u8], offset: usize, tag: [u8; 4]) -> (r: bool)
    requires
        offset + 4 <= bytes@.len(),
    ensures
        r == (tag_at(bytes@, offset as int) == tag@),
{
    let r = bytes[offset] == tag[0] && bytes[offset + 1] == tag[1] && bytes[offset + 2] == tag[2]
        && bytes[offset + 3] == tag[3];
    proof {
        let found = tag_at(bytes@, offset as int);
        assert(found[0] == bytes@[offset as int]);
        assert(found[1] == bytes@[offset + 1]);
        assert(found[2] == bytes@[offset + 2]);
        assert(found[3] == bytes@[offset + 3]);
        if r {
            assert(found =~= tag@);
        }
    }
    r
}

/// Reads the sample rate of a format chunk.
pub fn parse_wave_format(bytes: &[u8]) -> (r: Result<u32, AudioError>)
    ensures
        match r {
            Ok(rate) => wave_format(bytes@) == Ok::<u32, Seq<char>>(rate),
            Err(e) => wave_format(bytes@) == Err::<u32, Seq<char>>(e.message@),
        },
{
    if bytes.len() < 16 {
        return Err(AudioError::new("WAV format chunk is malformed"));
    }
    let format: u16 = get_u16(bytes, 0);
    let channels: u16 = get_u16(bytes, 2);
    let sample_rate: u32 = get_u32(bytes, 4);
    let byte_rate: u32 = get_u32(bytes, 8);
    let block_align: u16 = get_u16(bytes, 12);
    let bits: u16 = get_u16(bytes, 14);
    match validate_rate(sample_rate) {
        Ok(()) => {},
        Err(e) => {
            return Err(e);
        },
    }
    if format != 1 || channels != 1 || bits != 16 || block_align != 2 || byte_rate != 2
        * sample_rate {
        return Err(AudioError::new("WAV encoding must be mono PCM16"));
    }
    Ok(sample_rate)
}

impl MonoPcm {
    /// Decodes a strict mono PCM16 RIFF/WAVE file.
    pub fn from_wav(bytes: &[u8], limits: AudioLimits) -> (r: Result<Self, AudioError>)
        ensures
            match r {
                Ok(audio) => {
                    &&& wav_failure(bytes@, limits) is None
                    &&& audio.rate() == wav_rate(bytes@)
                    &&& audio.wave() == wave_of(decode_pcm16(wav_pcm(bytes@)))
                    &&& audio.valid()
                },
                Err(e) => wav_failure(bytes@, limits) == Some(e.message@),
            },
    {
        if bytes.len() < 12 {
            return Err(AudioError::new("WAV container is malformed"));
        }
        let riff = has_tag(bytes, 0, [0x52, 0x49, 0x46, 0x46]);
        let wave = has_tag(bytes, 8, [0x57, 0x41, 0x56, 0x45]);
        proof {
            assert([0x52u8, 0x49, 0x46, 0x46]@ =~= riff_tag());
            assert([0x57u8, 0x41, 0x56, 0x45]@ =~= wave_tag());
        }
        if !riff || !wave {
            return Err(AudioError::new("WAV container is malformed"));
        }
        match limits.check(bytes.len(), 48_000, 0) {
            Ok(()) => {},
            Err(e) => {
                return Err(e);
            },
        }
        let declared: usize = match (get_u32(bytes, 4) as usize).checked_add(8) {
            Some(size) => size,
            None => {
                return Err(AudioError::new("WAV container is malformed"));
            },
        };
        if declared != bytes.len() {
            return Err(AudioError::new("WAV container length is invalid"));
        }
        let mut offset: usize = 12;
        let mut format: Option<u32> = None;
        let mut data: Option<&[u8]> = None;
        while offset < bytes.len()
            invariant
                12 <= offset,
                wave_chunks(bytes@, 12, None, None) == wave_chunks(
                    bytes@,
                    offset as int,
                    format,
                    content_of(data),
                ),
                wav_failure(bytes@, limits) == match wave_chunks(bytes@, 12, None, None) {
                    Err(message) => Some(message),
                    Ok((None, _)) => Some("WAV format chunk is missing"@),
                    Ok((Some(_), None)) => Some("WAV data chunk is missing"@),
                    Ok((Some(rate), Some(pcm))) => MonoPcm::pcm16_failure(pcm, rate, limits),
                },
            decreases bytes@.len() + 2 - offset,
        {
            if bytes.len() - offset < 8 {
                return Err(AudioError::new("WAV chunk is malformed"));
            }
            let size: usize = get_u32(bytes, offset + 4) as usize;
            let start: usize = offset + 8;
            if size > bytes.len() - start {
                return Err(AudioError::new("WAV chunk is malformed"));
            }
            let end: usize = start + size;
            let content = slice_subrange(bytes, start, end);
            let is_format = has_tag(bytes, offset, [0x66, 0x6d, 0x74, 0x20]);
            let is_data = has_tag(bytes, offset, [0x64, 0x61, 0x74, 0x61]);
            proof {
                assert([0x66u8, 0x6d, 0x74, 0x20]@ =~= fmt_tag());
                assert([0x64u8, 0x61, 0x74, 0x61]@ =~= data_tag());
                assert(fmt_tag()[0] == 0x66 && data_tag()[0] == 0x64);
            }
            if is_format && format.is_none() {
                match parse_wave_format(content) {
                    Ok(rate) => {
                        format = Some(rate);
                    },
                    Err(e) => {
                        return Err(e);
                    },
                }
            } else if is_data && data.is_none() {
                data = Some(content);
            }
            offset =
            match end.checked_add(size % 2) {
                Some(next) => next,
                None => {
                    return Err(AudioError::new("WAV chunk is malformed"));
                },
            };
        }
        let sample_rate: u32 = match format {
            Some(rate) => rate,
            None => {
                return Err(AudioError::new("WAV format chunk is missing"));
            },
        };
        match data {
            Some(pcm) => MonoPcm::from_pcm16_le(pcm, sample_rate, limits),
            None => Err(AudioError::new("WAV data chunk is missing")),
        }
    }

    /// Encodes samples as a mono PCM16 RIFF/WAVE file.
    pub fn to_wav_pcm16(&self) -> (r: Result<Vec<u8>, AudioError>)
        ensures
            r is Ok <==> 2 * self.wave().len() + 36 <= u32::MAX,
            match r {
                Ok(bytes) => bytes@ == wav_image(
                    self.rate(),
                    encode_pcm16(values_of(self.wave())),
                ),
                Err(e) => e.message@ == "WAV output is too large"@,
            },
    {
        let pcm = self.to_pcm16_le();
        if pcm.len() > 0xffff_ffff {
            return Err(AudioError::new("WAV output is too large"));
        }
        let data_len: u32 = pcm.len() as u32;
        let riff_len: u32 = match data_len.checked_add(36) {
            Some(length) => length,
            None => {
                return Err(AudioError::new("WAV output is too large"));
            },
        };
        let sample_rate: u32 = self.sample_rate();
        let byte_rate: u32 = 2 * sample_rate;
        let mut bytes: Vec<u8> = Vec::new();
        push_bytes(&mut bytes, &[0x52, 0x49, 0x46, 0x46]);
        push_u32(&mut bytes, riff_len);
        push_bytes(&mut bytes, &[0x57, 0x41, 0x56, 0x45]);
        proof {
            assert([0x52u8, 0x49, 0x46, 0x46]@ =~= riff_tag());
            assert([0x57u8, 0x41, 0x56, 0x45]@ =~= wave_tag());
            assert(bytes@ =~= container_header((pcm@.len() + 32) as nat));
        }
        let ghost container = bytes@;
        push_bytes(&mut bytes, &[0x66, 0x6d, 0x74, 0x20]);
        push_u32(&mut bytes, 16);
        proof {
            assert([0x66u8, 0x6d, 0x74, 0x20]@ =~= fmt_tag());
            assert(bytes@ =~= container + chunk_header(fmt_tag(), 16));
        }
        let ghost before_format = bytes@;
        push_u16(&mut bytes, 1);
        push_u16(&mut bytes, 1);
        push_u32(&mut bytes, sample_rate);
        push_u32(&mut bytes, byte_rate);
        push_u16(&mut bytes, 2);
        push_u16(&mut bytes, 16);
        assert(bytes@ =~= before_format + format_content(sample_rate));
        let ghost before_data = bytes@;
        push_bytes(&mut bytes, &[0x64, 0x61, 0x74, 0x61]);
        push_u32(&mut bytes, data_len);
        proof {
            assert([0x64u8, 0x61, 0x74, 0x61]@ =~= data_tag());
            assert(bytes@ =~= before_data + chunk_header(data_tag(), pcm@.len()));
        }
        push_bytes(&mut bytes, pcm.as_slice());
        Ok(bytes)
    }
}

/// The content of an optional slice.
spec fn content_of(data: Option<&[u8]>) -> Option<Seq<u8>> {
    match data {
        Some(content) => Some(content@),
        None => None,
    }
}

/// A 32-bit number written in little-endian order reads back at its offset.
proof fn le32_reads_back(bytes: Seq<u8>, offset: int, n: nat)
    requires
        n <= u32::MAX,
        0 <= offset,
        offset + 4 <= bytes.len(),
        bytes.subrange(offset, offset + 4) == le32(n),
    ensures
        u32_at(bytes, offset) == n,
{
    let part = bytes.subrange(offset, offset + 4);
    assert(part[0] == bytes[offset] && part[1] == bytes[offset + 1]);
    assert(part[2] == bytes[offset + 2] && part[3] == bytes[offset + 3]);
}

/// The tag and size of a chunk header that stands at an offset.
proof fn chunk_header_reads_back(bytes: Seq<u8>, offset: int, tag: Seq<u8>, size: nat)
    requires
        tag.len() == 4,
        size <= u32::MAX,
        0 <= offset,
        offset + 8 <= bytes.len(),
        bytes.subrange(offset, offset + 8) == chunk_header(tag, size),
    ensures
        tag_at(bytes, offset) == tag,
        u32_at(bytes, offset + 4) == size,
{
    let header = bytes.subrange(offset, offset + 8);
    assert(tag_at(bytes, offset) =~= header.subrange(0, 4));
    assert(header.subrange(0, 4) =~= tag);
    assert(bytes.subrange(offset + 4, offset + 8) =~= header.subrange(4, 8));
    assert(header.subrange(4, 8) =~= le32(size));
    le32_reads_back(bytes, offset + 4, size);
}

/// The canonical format chunk declares its rate.
proof fn format_content_reads_back(rate: u32)
    requires
        supported_rate(rate),
    ensures
        format_content(rate).len() == 16,
        wave_format(format_content(rate)) == Ok::<u32, Seq<char>>(rate),
{
    let content = format_content(rate);
    assert(content[0] == 1 && content[1] == 0 && content[2] == 1 && content[3] == 0);
    assert(content.subrange(4, 8) =~= le32(rate as nat));
    assert(content.subrange(8, 12) =~= le32((2 * rate) as nat));
    assert(content[12] == 2 && content[13] == 0 && content[14] == 16 && content[15] == 0);
    le32_reads_back(content, 4, rate as nat);
    le32_reads_back(content, 8, (2 * rate) as nat);
}

/// The parts of the canonical file.
proof fn wav_image_parts(rate: u32, pcm: Seq<u8>)
    ensures
        wav_image(rate, pcm).len() == pcm.len() + 44,
        wav_image(rate, pcm).subrange(0, 12) == container_header((pcm.len() + 32) as nat),
        wav_image(rate, pcm).subrange(12, 20) == chunk_header(fmt_tag(), 16),
        wav_image(rate, pcm).subrange(20, 36) == format_content(rate),
        wav_image(rate, pcm).subrange(36, 44) == chunk_header(data_tag(), pcm.len()),
        wav_image(rate, pcm).subrange(44, pcm.len() + 44int) == pcm,
{
    let a = container_header((pcm.len() + 32) as nat);
    let b = chunk_header(fmt_tag(), 16);
    let c = format_content(rate);
    let d = chunk_header(data_tag(), pcm.len());
    assert(a.len() == 12 && b.len() == 8 && c.len() == 16 && d.len() == 8);
    concatenation_parts(a, b, c, d, pcm);
}

/// The parts of a concatenation.
proof fn concatenation_parts(a: Seq<u8>, b: Seq<u8>, c: Seq<u8>, d: Seq<u8>, e: Seq<u8>)
    requires
        a.len() == 12,
        b.len() == 8,
        c.len() == 16,
        d.len() == 8,
    ensures
        (a + b + c + d + e).subrange(0, 12) == a,
        (a + b + c + d + e).subrange(12, 20) == b,
        (a + b + c + d + e).subrange(20, 36) == c,
        (a + b + c + d + e).subrange(36, 44) == d,
        (a + b + c + d + e).subrange(44, e.len() + 44int) == e,
{
}

/// Reading back the canonical file of PCM16 bytes gives its rate and those bytes, whatever they
/// are; only the admission limits can refuse it.
pub proof fn wav_image_reads_back(rate: u32, pcm: Seq<u8>)
    requires
        supported_rate(rate),
        pcm.len() % 2 == 0,
        pcm.len() + 44 <= usize::MAX,
        pcm.len() + 36 <= u32::MAX,
    ensures
        wave_chunks(wav_image(rate, pcm), 12, None, None) == Ok::<
            (Option<u32>, Option<Seq<u8>>),
            Seq<char>,
        >((Some(rate), Some(pcm))),
        wav_rate(wav_image(rate, pcm)) == rate,
        wav_pcm(wav_image(rate, pcm)) == pcm,
{
    let bytes = wav_image(rate, pcm);
    let n = pcm.len();
    wav_image_parts(rate, pcm);
    chunk_header_reads_back(bytes, 12, fmt_tag(), 16);
    format_content_reads_back(rate);
    chunk_header_reads_back(bytes, 36, data_tag(), n);
    assert(data_tag()[0] == 0x64 && fmt_tag()[0] == 0x66);
    assert(wave_chunks(bytes, n + 44int, Some(rate), Some(pcm)) == Ok::<
        (Option<u32>, Option<Seq<u8>>),
        Seq<char>,
    >((Some(rate), Some(pcm))));
    assert(wave_chunks(bytes, 36, Some(rate), None) == wave_chunks(
        bytes,
        n + 44int,
        Some(rate),
        Some(pcm),
    ));
    assert(wave_chunks(bytes, 12, None, None) == wave_chunks(bytes, 36, Some(rate), None));
}

/// A recording written as a WAV file and read back keeps its rate and its PCM16 values. It is
/// read back unless the limits refuse a file of its size or a recording of its length.
pub proof fn wav_round_trip(rate: u32, values: Seq<i16>, limits: AudioLimits)
    requires
        supported_rate(rate),
        values.len() > 0,
        2 * values.len() + 44 <= usize::MAX,
        2 * values.len() + 36 <= u32::MAX,
    ensures
        ({
            let bytes = wav_image(rate, encode_pcm16(values));
            &&& wav_failure(bytes, limits) == if limits.admit_failure(bytes.len(), 48_000, 0)
                is Some {
                limits.admit_failure(bytes.len(), 48_000, 0)
            } else {
                limits.admit_failure(2 * values.len(), rate, values.len())
            }
            &&& wav_rate(bytes) == rate
            &&& values_of(wave_of(decode_pcm16(wav_pcm(bytes)))) == values
        }),
{
    let pcm = encode_pcm16(values);
    let bytes = wav_image(rate, pcm);
    wav_image_reads_back(rate, pcm);
    encode_then_decode(values);
    wave_of_is_normalized(values);
    wav_image_parts(rate, pcm);
    let header = bytes.subrange(0, 12);
    assert(tag_at(bytes, 0) =~= header.subrange(0, 4));
    assert(header.subrange(0, 4) =~= riff_tag());
    assert(tag_at(bytes, 8) =~= header.subrange(8, 12));
    assert(header.subrange(8, 12) =~= wave_tag());
    assert(bytes.subrange(4, 8) =~= header.subrange(4, 8));
    assert(header.subrange(4, 8) =~= le32((pcm.len() + 36) as nat));
    le32_reads_back(bytes, 4, (pcm.len() + 36) as nat);
    assert(pcm.len() / 2 == values.len());
}

/// A chunk of a container: its tag, its content, and the byte that pads an odd content.
pub struct WaveChunk {
    /// Four bytes.
    pub tag: Seq<u8>,
    /// Content.
    pub content: Seq<u8>,
    /// Padding, of any value.
    pub pad: u8,
}

impl WaveChunk {
    /// Whether a chunk can be written.
    pub open spec fn writable(self) -> bool {
        self.tag.len() == 4 && self.content.len() <= u32::MAX
    }

    /// Header and content.
    pub open spec fn unpadded(self) -> Seq<u8> {
        chunk_header(self.tag, self.content.len()) + self.content
    }

    /// Header, content, and padding.
    pub open spec fn written(self) -> Seq<u8> {
        if self.content.len() % 2 == 0 {
            self.unpadded()
        } else {
            self.unpadded().push(self.pad)
        }
    }
}

/// Chunks one behind the other.
pub open spec fn laid_out(chunks: Seq<WaveChunk>) -> Seq<u8>
    decreases chunks.len(),
{
    if chunks.len() == 0 {
        Seq::empty()
    } else {
        chunks[0].written() + laid_out(chunks.drop_first())
    }
}

/// The content of the first chunk with a tag.
pub open spec fn first_content(chunks: Seq<WaveChunk>, tag: Seq<u8>) -> Option<Seq<u8>>
    decreases chunks.len(),
{
    if chunks.len() == 0 {
        None
    } else if chunks[0].tag == tag {
        Some(chunks[0].content)
    } else {
        first_content(chunks.drop_first(), tag)
    }
}

/// What complete chunks come to: the rate that the first format chunk declares and the content of
/// the first data chunk, wherever they stand.
pub open spec fn told_by(chunks: Seq<WaveChunk>) -> Result<
    (Option<u32>, Option<Seq<u8>>),
    Seq<char>,
> {
    match first_content(chunks, fmt_tag()) {
        None => Ok((None, first_content(chunks, data_tag()))),
        Some(content) => match wave_format(content) {
            Err(message) => Err(message),
            Ok(rate) => Ok((Some(rate), first_content(chunks, data_tag()))),
        },
    }
}

/// A container around bytes.
pub open spec fn contained(body: Seq<u8>) -> Seq<u8> {
    container_header(body.len()) + body
}

/// The rate known after chunks.
spec fn known_rate(format: Option<u32>, chunks: Seq<WaveChunk>) -> Option<u32> {
    match (format, first_content(chunks, fmt_tag())) {
        (None, Some(content)) => match wave_format(content) {
            Ok(rate) => Some(rate),
            Err(_) => None,
        },
        _ => format,
    }
}

/// The content known after chunks.
spec fn known_data(data: Option<Seq<u8>>, chunks: Seq<WaveChunk>) -> Option<Seq<u8>> {
    if data is Some {
        data
    } else {
        first_content(chunks, data_tag())
    }
}

/// How a format chunk is refused, if it is read at all.
spec fn format_refusal(format: Option<u32>, chunks: Seq<WaveChunk>) -> Option<Seq<char>> {
    match (format, first_content(chunks, fmt_tag())) {
        (None, Some(content)) => match wave_format(content) {
            Ok(_) => None,
            Err(message) => Some(message),
        },
        _ => None,
    }
}

/// A chunk that stands at an offset, padded or not, reads back.
proof fn chunk_reads_back(bytes: Seq<u8>, offset: int, chunk: WaveChunk, behind: Seq<u8>)
    requires
        0 <= offset <= bytes.len(),
        chunk.writable(),
        bytes.skip(offset) == chunk.unpadded() + behind,
    ensures
        offset + 8 + chunk.content.len() + behind.len() == bytes.len(),
        tag_at(bytes, offset) == chunk.tag,
        u32_at(bytes, offset + 4) == chunk.content.len(),
        bytes.subrange(offset + 8, offset + 8 + chunk.content.len()) == chunk.content,
{
    let header = chunk_header(chunk.tag, chunk.content.len());
    let tail = bytes.skip(offset);
    let size = chunk.content.len() as int;
    assert(header.len() == 8);
    assert(chunk.unpadded().len() == 8 + size);
    assert(tail.len() == bytes.len() - offset);
    assert(bytes.subrange(offset, offset + 8) =~= tail.subrange(0, 8));
    assert(tail.subrange(0, 8) =~= header);
    chunk_header_reads_back(bytes, offset, chunk.tag, chunk.content.len());
    assert(bytes.subrange(offset + 8, offset + 8 + size) =~= tail.subrange(8, 8 + size));
    assert(tail.subrange(8, 8 + size) =~= chunk.content);
}

/// What reading goes on with behind one chunk.
proof fn one_chunk_is_read(
    bytes: Seq<u8>,
    offset: int,
    chunk: WaveChunk,
    behind: Seq<u8>,
    format: Option<u32>,
    data: Option<Seq<u8>>,
)
    requires
        0 <= offset <= bytes.len() <= usize::MAX,
        offset + 8 + chunk.content.len() + chunk.content.len() % 2 <= usize::MAX,
        chunk.writable(),
        bytes.skip(offset) == chunk.unpadded() + behind,
    ensures
        ({
            let one = seq![chunk];
            wave_chunks(bytes, offset, format, data) == match format_refusal(format, one) {
                Some(message) => Err(message),
                None => wave_chunks(
                    bytes,
                    offset + 8 + chunk.content.len() + chunk.content.len() % 2,
                    known_rate(format, one),
                    known_data(data, one),
                ),
            }
        }),
{
    let one = seq![chunk];
    chunk_reads_back(bytes, offset, chunk, behind);
    assert(fmt_tag()[0] == 0x66 && data_tag()[0] == 0x64);
    assert(one.drop_first() =~= Seq::empty());
    assert(first_content(one.drop_first(), fmt_tag()) is None);
    assert(first_content(one.drop_first(), data_tag()) is None);
}

/// Complete chunks are read one after the other, and then what stands behind them.
#[verifier::rlimit(40)]
proof fn chunks_are_read_in_order(
    bytes: Seq<u8>,
    offset: int,
    chunks: Seq<WaveChunk>,
    rest: Seq<u8>,
    format: Option<u32>,
    data: Option<Seq<u8>>,
)
    requires
        0 <= offset <= bytes.len() <= usize::MAX,
        bytes.skip(offset) == laid_out(chunks) + rest,
        forall|i: int| 0 <= i < chunks.len() ==> (#[trigger] chunks[i]).writable(),
    ensures
        wave_chunks(bytes, offset, format, data) == match format_refusal(format, chunks) {
            Some(message) => Err(message),
            None => wave_chunks(
                bytes,
                offset + laid_out(chunks).len(),
                known_rate(format, chunks),
                known_data(data, chunks),
            ),
        },
        offset + laid_out(chunks).len() + rest.len() == bytes.len(),
    decreases chunks.len(),
{
    assert(bytes.skip(offset).len() == bytes.len() - offset);
    if chunks.len() > 0 {
        let chunk = chunks[0];
        let one = seq![chunk];
        let others = chunks.drop_first();
        let size = chunk.content.len();
        let pad = if size % 2 == 0 {
            Seq::empty()
        } else {
            seq![chunk.pad]
        };
        let behind = pad + laid_out(others) + rest;
        assert(chunk.unpadded().len() == 8 + size);
        assert(chunk.written() =~= chunk.unpadded() + pad);
        assert(bytes.skip(offset) =~= chunk.unpadded() + behind);
        let next = (offset + 8 + size + size % 2) as int;
        assert(chunk.written().len() == next - offset);
        assert(bytes.skip(next) =~= bytes.skip(offset).skip(next - offset));
        assert(bytes.skip(next) =~= laid_out(others) + rest);
        one_chunk_is_read(bytes, offset, chunk, behind, format, data);
        assert forall|i: int| 0 <= i < others.len() implies (#[trigger] others[i]).writable() by {
            assert(others[i] == chunks[i + 1]);
        }
        let told = known_rate(format, one);
        let held = known_data(data, one);
        chunks_are_read_in_order(bytes, next, others, rest, told, held);
        knowledge_adds_up(chunks, format, data);
    }
}

/// What is known after chunks is what is known after the first and then after the others.
proof fn knowledge_adds_up(chunks: Seq<WaveChunk>, format: Option<u32>, data: Option<Seq<u8>>)
    requires
        chunks.len() > 0,
    ensures
        ({
            let one = seq![chunks[0]];
            let others = chunks.drop_first();
            let told = known_rate(format, one);
            &&& format_refusal(format, chunks) == match format_refusal(format, one) {
                Some(message) => Some(message),
                None => format_refusal(told, others),
            }
            &&& format_refusal(format, one) is None ==> known_rate(format, chunks) == known_rate(
                told,
                others,
            )
            &&& known_data(data, chunks) == known_data(known_data(data, one), others)
        }),
{
    let one = seq![chunks[0]];
    assert(one.drop_first() =~= Seq::empty());
    assert(first_content(one.drop_first(), fmt_tag()) is None);
    assert(first_content(one.drop_first(), data_tag()) is None);
}

/// A container is read by its first format and its first data chunk, in whatever order and among
/// whatever other chunks they stand.
#[verifier::rlimit(40)]
pub proof fn containers_are_read_by_their_chunks(chunks: Seq<WaveChunk>)
    requires
        contained(laid_out(chunks)).len() <= usize::MAX,
        forall|i: int| 0 <= i < chunks.len() ==> (#[trigger] chunks[i]).writable(),
    ensures
        wave_chunks(contained(laid_out(chunks)), 12, None, None) == told_by(chunks),
{
    let bytes = contained(laid_out(chunks));
    assert(container_header(laid_out(chunks).len()).len() == 12);
    assert(bytes.skip(12) =~= laid_out(chunks) + Seq::empty());
    chunks_are_read_in_order(bytes, 12, chunks, Seq::empty(), None, None);
}

/// The padding of the last chunk may be missing: the container is read as if it were there.
#[verifier::rlimit(40)]
pub proof fn last_padding_is_optional(chunks: Seq<WaveChunk>, last: WaveChunk)
    requires
        contained(laid_out(chunks) + last.unpadded()).len() < usize::MAX,
        forall|i: int| 0 <= i < chunks.len() ==> (#[trigger] chunks[i]).writable(),
        last.writable(),
    ensures
        wave_chunks(contained(laid_out(chunks) + last.unpadded()), 12, None, None) == told_by(
            chunks.push(last),
        ),
{
    let rest = last.unpadded();
    let body = laid_out(chunks) + rest;
    let bytes = contained(body);
    assert(container_header(body.len()).len() == 12);
    assert(bytes.skip(12) =~= body);
    chunks_are_read_in_order(bytes, 12, chunks, rest, None, None);
    let offset = (12 + laid_out(chunks).len()) as int;
    assert(bytes.skip(offset) =~= rest + Seq::empty());
    assert(rest.len() == 8 + last.content.len());
    let told = known_rate(None, chunks);
    let held = known_data(None, chunks);
    one_chunk_is_read(bytes, offset, last, Seq::empty(), told, held);
    first_content_of_more(chunks, last, fmt_tag());
    first_content_of_more(chunks, last, data_tag());
    let one = seq![last];
    assert(one.drop_first() =~= Seq::empty());
    assert(first_content(one.drop_first(), fmt_tag()) is None);
    assert(first_content(one.drop_first(), data_tag()) is None);
}

/// A container whose last chunk is cut off, within its header or its content, is malformed.
#[verifier::rlimit(40)]
pub proof fn cut_containers_are_refused(chunks: Seq<WaveChunk>, last: WaveChunk, kept: int)
    requires
        contained(laid_out(chunks) + last.unpadded()).len() <= usize::MAX,
        forall|i: int| 0 <= i < chunks.len() ==> (#[trigger] chunks[i]).writable(),
        last.writable(),
        told_by(chunks) is Ok,
        0 < kept < last.unpadded().len(),
    ensures
        wave_chunks(contained(laid_out(chunks) + last.unpadded().take(kept)), 12, None, None)
            == Err::<(Option<u32>, Option<Seq<u8>>), Seq<char>>("WAV chunk is malformed"@),
{
    let rest = last.unpadded().take(kept);
    let body = laid_out(chunks) + rest;
    let bytes = contained(body);
    assert(container_header(body.len()).len() == 12);
    assert(bytes.skip(12) =~= body);
    chunks_are_read_in_order(bytes, 12, chunks, rest, None, None);
    let offset = (12 + laid_out(chunks).len()) as int;
    assert(bytes.skip(offset) =~= rest) by {
        assert(bytes.skip(offset) =~= body.skip(offset - 12));
    }
    cut_chunk_is_malformed(bytes, offset, last, kept);
}

/// A chunk that is cut off is malformed, whatever is known before it.
proof fn cut_chunk_is_malformed(bytes: Seq<u8>, offset: int, last: WaveChunk, kept: int)
    requires
        0 <= offset,
        last.writable(),
        0 < kept < last.unpadded().len(),
        bytes.len() == offset + kept,
        bytes.skip(offset) == last.unpadded().take(kept),
    ensures
        forall|format: Option<u32>, data: Option<Seq<u8>>| #[trigger]
            wave_chunks(bytes, offset, format, data) == Err::<
                (Option<u32>, Option<Seq<u8>>),
                Seq<char>,
            >("WAV chunk is malformed"@),
{
    let header = chunk_header(last.tag, last.content.len());
    assert(header.len() == 8);
    if kept >= 8 {
        assert(bytes.subrange(offset, offset + 8) =~= bytes.skip(offset).take(8));
        assert(last.unpadded().take(kept).take(8) =~= header);
        chunk_header_reads_back(bytes, offset, last.tag, last.content.len());
    }
}

/// The first chunk with a tag, once another stands behind.
proof fn first_content_of_more(chunks: Seq<WaveChunk>, last: WaveChunk, tag: Seq<u8>)
    ensures
        first_content(chunks.push(last), tag) == match first_content(chunks, tag) {
            Some(content) => Some(content),
            None => if last.tag == tag {
                Some(last.content)
            } else {
                None
            },
        },
    decreases chunks.len(),
{
    let all = chunks.push(last);
    if chunks.len() == 0 {
        assert(all.drop_first() =~= Seq::empty());
        assert(first_content(all.drop_first(), tag) is None);
    } else {
        assert(all.drop_first() =~= chunks.drop_first().push(last));
        first_content_of_more(chunks.drop_first(), last, tag);
    }
}

/// A chunk with another tag hides nothing.
proof fn first_content_without(
    before: Seq<WaveChunk>,
    chunk: WaveChunk,
    after: Seq<WaveChunk>,
    tag: Seq<u8>,
)
    requires
        chunk.tag != tag,
    ensures
        first_content(before.push(chunk) + after, tag) == first_content(before + after, tag),
    decreases before.len(),
{
    if before.len() == 0 {
        assert((before.push(chunk) + after).drop_first() =~= after);
        assert(before + after =~= after);
    } else {
        let fewer = before.drop_first();
        assert((before.push(chunk) + after).drop_first() =~= fewer.push(chunk) + after);
        assert((before + after).drop_first() =~= fewer + after);
        first_content_without(fewer, chunk, after, tag);
    }
}

/// Chunks that are neither format nor data do not matter: a complete chunk of any other tag and any
/// content, put before, between, or behind the chunks of a container, leaves the rate and the audio
/// that are read as they are, or the failure.
#[verifier::rlimit(40)]
pub proof fn unknown_chunks_do_not_matter(
    before: Seq<WaveChunk>,
    chunk: WaveChunk,
    after: Seq<WaveChunk>,
    limits: AudioLimits,
)
    requires
        chunk.tag != fmt_tag(),
        chunk.tag != data_tag(),
        chunk.writable(),
        forall|i: int| 0 <= i < before.len() ==> (#[trigger] before[i]).writable(),
        forall|i: int| 0 <= i < after.len() ==> (#[trigger] after[i]).writable(),
        contained(laid_out(before.push(chunk) + after)).len() <= usize::MAX,
        contained(laid_out(before.push(chunk) + after)).len() <= u32::MAX,
    ensures
        ({
            let with = contained(laid_out(before.push(chunk) + after));
            let without = contained(laid_out(before + after));
            &&& wave_chunks(with, 12, None, None) == wave_chunks(without, 12, None, None)
            &&& wav_rate(with) == wav_rate(without)
            &&& wav_pcm(with) == wav_pcm(without)
            &&& limits.admit_failure(with.len(), 48_000, 0) is None && limits.admit_failure(
                without.len(),
                48_000,
                0,
            ) is None ==> wav_failure(with, limits) == wav_failure(without, limits)
        }),
{
    let more = before.push(chunk) + after;
    let fewer = before + after;
    assert forall|i: int| 0 <= i < more.len() implies (#[trigger] more[i]).writable() by {
        if i < before.len() {
            assert(more[i] == before[i]);
        } else if i > before.len() {
            assert(more[i] == after[i - before.len() - 1]);
        }
    }
    assert forall|i: int| 0 <= i < fewer.len() implies (#[trigger] fewer[i]).writable() by {
        if i < before.len() {
            assert(fewer[i] == before[i]);
        } else {
            assert(fewer[i] == after[i - before.len()]);
        }
    }
    first_content_without(before, chunk, after, fmt_tag());
    first_content_without(before, chunk, after, data_tag());
    laid_out_is_longer(before, chunk, after);
    let with = contained(laid_out(more));
    let without = contained(laid_out(fewer));
    containers_are_read_by_their_chunks(more);
    containers_are_read_by_their_chunks(fewer);
    contained_reads_back(laid_out(more));
    contained_reads_back(laid_out(fewer));
}

/// Another chunk makes a container longer.
proof fn laid_out_is_longer(before: Seq<WaveChunk>, chunk: WaveChunk, after: Seq<WaveChunk>)
    ensures
        laid_out(before + after).len() <= laid_out(before.push(chunk) + after).len(),
    decreases before.len(),
{
    if before.len() == 0 {
        assert((before.push(chunk) + after).drop_first() =~= after);
        assert(before + after =~= after);
    } else {
        let fewer = before.drop_first();
        assert((before.push(chunk) + after).drop_first() =~= fewer.push(chunk) + after);
        assert((before + after).drop_first() =~= fewer + after);
        laid_out_is_longer(fewer, chunk, after);
    }
}

/// The header of a container.
proof fn contained_reads_back(body: Seq<u8>)
    requires
        contained(body).len() <= u32::MAX,
    ensures
        tag_at(contained(body), 0) == riff_tag(),
        tag_at(contained(body), 8) == wave_tag(),
        u32_at(contained(body), 4) + 8 == contained(body).len(),
{
    let bytes = contained(body);
    let header = container_header(body.len());
    assert(header.len() == 12);
    assert(bytes.subrange(0, 12) =~= header);
    assert(tag_at(bytes, 0) =~= header.subrange(0, 4));
    assert(header.subrange(0, 4) =~= riff_tag());
    assert(tag_at(bytes, 8) =~= header.subrange(8, 12));
    assert(header.subrange(8, 12) =~= wave_tag());
    assert(bytes.subrange(4, 8) =~= header.subrange(4, 8));
    assert(header.subrange(4, 8) =~= le32((body.len() + 4) as nat));
    le32_reads_back(bytes, 4, (body.len() + 4) as nat);
}

/// A format chunk is understood exactly when it declares mono PCM16 at a supported rate, with the
/// byte rate and block size that follow from it; further fields behind these are ignored.
pub proof fn formats_declare_mono_pcm16(
    encoding: nat,
    channels: nat,
    rate: u32,
    byte_rate: nat,
    block: nat,
    bits: nat,
    further: Seq<u8>,
)
    requires
        encoding <= u16::MAX,
        channels <= u16::MAX,
        byte_rate <= u32::MAX,
        block <= u16::MAX,
        bits <= u16::MAX,
    ensures
        ({
            let content = le16(encoding) + le16(channels) + le32(rate as nat) + le32(byte_rate)
                + le16(block) + le16(bits) + further;
            wave_format(content) == if !supported_rate(rate) {
                Err("audio sample rate is unsupported"@)
            } else if encoding == 1 && channels == 1 && bits == 16 && block == 2 && byte_rate == 2
                * rate {
                Ok(rate)
            } else {
                Err("WAV encoding must be mono PCM16"@)
            }
        }),
        further.len() < 16 ==> wave_format(further) == Err::<u32, Seq<char>>(
            "WAV format chunk is malformed"@,
        ),
{
    let content = le16(encoding) + le16(channels) + le32(rate as nat) + le32(byte_rate) + le16(
        block,
    ) + le16(bits) + further;
    assert(content.subrange(4, 8) =~= le32(rate as nat));
    assert(content.subrange(8, 12) =~= le32(byte_rate));
    le32_reads_back(content, 4, rate as nat);
    le32_reads_back(content, 8, byte_rate);
    assert(u16_at(content, 0) == encoding);
    assert(u16_at(content, 2) == channels);
    assert(u16_at(content, 12) == block);
    assert(u16_at(content, 14) == bits);
}

/// The audio of a written file stands behind its header, to the end.
pub proof fn files_hold_their_audio_last(rate: u32, pcm: Seq<u8>)
    ensures
        wav_image(rate, pcm).len() == pcm.len() + 44,
        wav_image(rate, pcm).skip(44) == pcm,
{
    wav_image_parts(rate, pcm);
    assert(wav_image(rate, pcm).skip(44) =~= wav_image(rate, pcm).subrange(44, pcm.len() + 44int));
}

/// A written file is the canonical one: `RIFF` and the length of all that follows, `WAVE`, a format
/// chunk of 16 bytes that declares one channel of 16-bit PCM at the rate, and a data chunk that
/// holds the bytes and nothing else.
#[verifier::rlimit(40)]
pub proof fn files_begin_with_the_canonical_header(rate: u32, pcm: Seq<u8>)
    requires
        2 * rate <= u32::MAX,
        pcm.len() + 36 <= u32::MAX,
    ensures
        ({
            let bytes = wav_image(rate, pcm);
            &&& bytes.len() == pcm.len() + 44
            &&& bytes.skip(44) == pcm
            &&& bytes.subrange(0, 4) == seq![0x52u8, 0x49, 0x46, 0x46]
            &&& u32_at(bytes, 4) + 8 == bytes.len()
            &&& bytes.subrange(8, 12) == seq![0x57u8, 0x41, 0x56, 0x45]
            &&& bytes.subrange(12, 16) == seq![0x66u8, 0x6d, 0x74, 0x20]
            &&& u32_at(bytes, 16) == 16
            &&& u16_at(bytes, 20) == 1
            &&& u16_at(bytes, 22) == 1
            &&& u32_at(bytes, 24) == rate
            &&& u32_at(bytes, 28) == 2 * rate
            &&& u16_at(bytes, 32) == 2
            &&& u16_at(bytes, 34) == 16
            &&& bytes.subrange(36, 40) == seq![0x64u8, 0x61, 0x74, 0x61]
            &&& u32_at(bytes, 40) == pcm.len()
        }),
{
    let bytes = wav_image(rate, pcm);
    wav_image_parts(rate, pcm);
    let header = bytes.subrange(0, 12);
    let format = bytes.subrange(12, 20);
    let content = bytes.subrange(20, 36);
    let data = bytes.subrange(36, 44);
    assert(bytes.skip(44) =~= bytes.subrange(44, pcm.len() + 44int));
    assert(bytes.subrange(0, 4) =~= header.subrange(0, 4));
    assert(header.subrange(0, 4) =~= riff_tag());
    assert(bytes.subrange(4, 8) =~= header.subrange(4, 8));
    assert(header.subrange(4, 8) =~= le32((pcm.len() + 36) as nat));
    le32_reads_back(bytes, 4, (pcm.len() + 36) as nat);
    assert(bytes.subrange(8, 12) =~= header.subrange(8, 12));
    assert(header.subrange(8, 12) =~= wave_tag());
    assert(bytes.subrange(12, 16) =~= format.subrange(0, 4));
    assert(format.subrange(0, 4) =~= fmt_tag());
    assert(bytes.subrange(16, 20) =~= format.subrange(4, 8));
    assert(format.subrange(4, 8) =~= le32(16));
    le32_reads_back(bytes, 16, 16);
    assert(content[0] == 1 && content[1] == 0 && content[2] == 1 && content[3] == 0);
    assert(content[12] == 2 && content[13] == 0 && content[14] == 16 && content[15] == 0);
    assert(bytes[20] == content[0] && bytes[21] == content[1]);
    assert(bytes[22] == content[2] && bytes[23] == content[3]);
    assert(bytes[32] == content[12] && bytes[33] == content[13]);
    assert(bytes[34] == content[14] && bytes[35] == content[15]);
    assert(bytes.subrange(24, 28) =~= content.subrange(4, 8));
    assert(content.subrange(4, 8) =~= le32(rate as nat));
    le32_reads_back(bytes, 24, rate as nat);
    assert(bytes.subrange(28, 32) =~= content.subrange(8, 12));
    assert(content.subrange(8, 12) =~= le32((2 * rate) as nat));
    le32_reads_back(bytes, 28, (2 * rate) as nat);
    assert(bytes.subrange(36, 40) =~= data.subrange(0, 4));
    assert(data.subrange(0, 4) =~= data_tag());
    assert(bytes.subrange(40, 44) =~= data.subrange(4, 8));
    assert(data.subrange(4, 8) =~= le32(pcm.len()));
    le32_reads_back(bytes, 40, pcm.len());
}

/// A recording that was written as a file is read back from it at its rate and with its PCM16
/// values; only the limits can refuse it.
pub proof fn written_recordings_read_back(
    audio: &MonoPcm,
    written: Result<Vec<u8>, AudioError>,
    bytes: &[u8],
    limits: AudioLimits,
    read: Result<MonoPcm, AudioError>,
)
    requires
        supported_rate(audio.rate()),
        audio.wave().len() > 0,
        2 * audio.wave().len() + 44 <= usize::MAX,
        call_ensures(MonoPcm::to_wav_pcm16, (audio,), written),
        written is Ok,
        bytes@ == written->Ok_0@,
        call_ensures(MonoPcm::from_wav, (bytes, limits), read),
    ensures
        match read {
            Ok(same) => same.rate() == audio.rate() && values_of(same.wave()) == values_of(
                audio.wave(),
            ),
            Err(_) => limits.admit_failure(bytes@.len(), 48_000, 0) is Some
                || limits.admit_failure(
                2 * audio.wave().len(),
                audio.rate(),
                audio.wave().len(),
            ) is Some,
        },
{
    wav_round_trip(audio.rate(), values_of(audio.wave()), limits);
}

}
