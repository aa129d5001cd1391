//! Building and reading WAVE audio byte streams.
use vstd::arithmetic::div_mod::{lemma_add_mod_noop, lemma_small_mod};
use vstd::prelude::*;

verus! {

/// The sample encodings a [`WaveFile`] can declare in its header.
pub enum AudioFormat {
    /// Uncompressed pulse-code modulation.
    PCM,
}

impl AudioFormat {
    /// The code that the header's format field carries for this encoding.
    pub open spec fn code(&self) -> u32 {
        match self {
            AudioFormat::PCM => 1,
        }
    }

    /// Returns the code that the header's format field carries for this encoding.
    pub fn get_val(&self) -> (r: u32)
        ensures
            r == self.code(),
    {
        match self {
            AudioFormat::PCM => 1,
        }
    }
}

/// Length in bytes of the canonical header that precedes the sample data.
pub const HEADER_LEN: usize = 44;

/// The low two bytes of `v`, least significant first.
pub open spec fn le16(v: u32) -> Seq<u8> {
    seq![(v % 256) as u8, (v / 256 % 256) as u8]
}

/// The four bytes of `v`, least significant first.
pub open spec fn le32(v: u32) -> Seq<u8> {
    seq![(v % 256) as u8, (v / 256 % 256) as u8, (v / 65536 % 256) as u8, (v / 16777216) as u8]
}

/// ASCII `RIFF`.
pub open spec fn riff_tag() -> Seq<u8> {
    seq![0x52u8, 0x49u8, 0x46u8, 0x46u8]
}

/// ASCII `WAVE`.
pub open spec fn wave_tag() -> Seq<u8> {
    seq![0x57u8, 0x41u8, 0x56u8, 0x45u8]
}

/// ASCII `fmt ` (with a trailing space).
pub open spec fn fmt_tag() -> Seq<u8> {
    seq![0x66u8, 0x6du8, 0x74u8, 0x20u8]
}

/// ASCII `data`.
pub open spec fn data_tag() -> Seq<u8> {
    seq![0x64u8, 0x61u8, 0x74u8, 0x61u8]
}

/// What is left of a WAVE byte stream once the fixed header is skipped.
pub open spec fn pcm_payload(raw: Seq<u8>) -> Seq<u8> {
    raw.subrange(HEADER_LEN as int, raw.len() as int)
}

/// Why an operation on WAVE data was refused.
#[derive(Debug, Clone, Copy, PartialEq, Eq, Structural)]
pub enum WaveError {
    /// The bytes handed to [`WaveFile::add_bytes`] do not make up a whole
    /// number of frames.
    AlignmentError,
    /// The byte stream is shorter than the fixed header.
    OutOfBounds,
}

/// The abstract state of a [`WaveFile`]: its format parameters, the two
/// quantities derived from them, and the sample bytes gathered so far.
pub struct WaveModel {
    pub audio_format: u32,
    pub num_channels: u32,
    pub sample_rate: u32,
    pub bits_per_sample: u32,
    pub byte_rate: u32,
    pub block_align: u32,
    pub samples: Seq<u8>,
}

impl WaveModel {
    /// The derived quantities agree with the format parameters.
    pub open spec fn wf(&self) -> bool {
        &&& self.block_align as int == self.num_channels as int * (self.bits_per_sample as int / 8)
        &&& self.byte_rate as int == self.sample_rate as int * self.block_align as int
    }

    /// The sample bytes make up a whole number of frames.
    pub open spec fn aligned(&self) -> bool {
        self.block_align > 0 && self.samples.len() % (self.block_align as nat) == 0
    }

    /// The same parameters with other sample bytes.
    pub open spec fn with_samples(&self, samples: Seq<u8>) -> WaveModel {
        WaveModel { samples, ..*self }
    }

    /// The data chunk's declared size: the number of sample bytes, modulo 2^32.
    pub open spec fn data_size(&self) -> u32 {
        (self.samples.len() % 0x1_0000_0000) as u32
    }

    /// The RIFF chunk's declared size: the header after its first eight bytes
    /// plus the sample bytes, modulo 2^32.
    pub open spec fn chunk_size(&self) -> u32 {
        ((36 + self.data_size()) % 0x1_0000_0000) as u32
    }

    /// The canonical 44-byte header: the RIFF descriptor, the `fmt ` chunk
    /// and the head of the `data` chunk.
    #[verifier::opaque]
    pub open spec fn header(&self) -> Seq<u8> {
        riff_tag() + le32(self.chunk_size()) + wave_tag()
            + fmt_tag() + le32(16) + le16(self.audio_format) + le16(self.num_channels)
            + le32(self.sample_rate) + le32(self.byte_rate) + le16(self.block_align)
            + le16(self.bits_per_sample)
            + data_tag() + le32(self.data_size())
    }

    /// The complete WAVE byte stream: the header, then the sample bytes verbatim.
    pub open spec fn stream(&self) -> Seq<u8> {
        self.header() + self.samples
    }
}

/// WAVE audio under construction: fixed format parameters and the PCM sample
/// bytes, interleaved by channel, appended so far.
pub struct WaveFile {
    audio_format: u32,
    num_channels: u32,
    sample_rate: u32,
    bits_per_sample: u32,
    byte_rate: u32,
    block_align: u32,
    audio_byte_data: Vec<u8>,
}

impl View for WaveFile {
    type V = WaveModel;

    closed spec fn view(&self) -> WaveModel {
        WaveModel {
            audio_format: self.audio_format,
            num_channels: self.num_channels,
            sample_rate: self.sample_rate,
            bits_per_sample: self.bits_per_sample,
            byte_rate: self.byte_rate,
            block_align: self.block_align,
            samples: self.audio_byte_data@,
        }
    }
}

impl WaveFile {
    /// Starts an empty container for the given encoding, channel count,
    /// sample rate (Hz) and sample width (bits, a multiple of eight).
    ///
    /// A frame, one sample for each channel, is
    /// `num_channels * (bits_per_sample / 8)` bytes wide; the byte rate is the
    /// sample rate times that width. Both must fit in 32 bits.
    pub fn new(audio_format: AudioFormat, num_channels: u32, sample_rate: u32, bits_per_sample: u32) -> (w: WaveFile)
        requires
            num_channels as int * (bits_per_sample as int / 8) <= u32::MAX,
            sample_rate as int * (num_channels as int * (bits_per_sample as int / 8)) <= u32::MAX,
        ensures
            w@.audio_format == audio_format.code(),
            w@.num_channels == num_channels,
            w@.sample_rate == sample_rate,
            w@.bits_per_sample == bits_per_sample,
            w@.block_align as int == num_channels as int * (bits_per_sample as int / 8),
            w@.byte_rate as int == sample_rate as int * w@.block_align as int,
            w@.samples == Seq::<u8>::empty(),
            w@.wf(),
    {
        let block_align: u32 = num_channels * (bits_per_sample / 8);
        let byte_rate: u32 = sample_rate * block_align;
        let audio_format: u32 = audio_format.get_val();
        WaveFile {
            audio_format,
            num_channels,
            sample_rate,
            bits_per_sample,
            byte_rate,
            block_align,
            audio_byte_data: Vec::new(),
        }
    }

    /// Moves `bytes` to the end of the sample data, leaving `bytes` empty.
    ///
    /// Fails with [`WaveError::AlignmentError`], changing neither the
    /// container nor `bytes`, when `bytes` is not a whole number of frames.
    pub fn add_bytes(&mut self, bytes: &mut Vec<u8>) -> (r: Result<(), WaveError>)
        requires
            old(self)@.block_align > 0,
        ensures
            r is Ok <==> old(bytes)@.len() % (old(self)@.block_align as nat) == 0,
            r is Ok ==> final(self)@ == old(self)@.with_samples(old(self)@.samples + old(bytes)@)
                && final(bytes)@ == Seq::<u8>::empty(),
            r is Err ==> r == Err::<(), WaveError>(WaveError::AlignmentError)
                && final(self)@ == old(self)@ && final(bytes)@ == old(bytes)@,
            old(self)@.aligned() ==> final(self)@.aligned(),
    {
        if bytes.len() % (self.block_align as usize) != 0 {
            return Err(WaveError::AlignmentError);
        }
        let ghost before = self.audio_byte_data@;
        self.audio_byte_data.append(bytes);
        proof {
            let ba = self.block_align as int;
            let a = before.len() as int;
            let b = old(bytes)@.len() as int;
            assert(b % ba == 0);
            lemma_add_mod_noop(a, b, ba);
            assert(self@.samples.len() == a + b);
            lemma_small_mod(0, ba as nat);
        }
        Ok(())
    }

    /// Lends the sample data for reading and writing.
    pub fn bytes(&mut self) -> (r: &mut Vec<u8>)
        ensures
            r@ == old(self)@.samples,
            final(self)@ == old(self)@.with_samples(final(r)@),
    {
        &mut self.audio_byte_data
    }

    /// The width of one frame in bytes: what the length of the bytes handed
    /// to [`WaveFile::add_bytes`] must be a multiple of.
    pub fn block_align(&self) -> (r: u32)
        ensures
            r == self@.block_align,
    {
        self.block_align
    }

    /// Serialises the container as a complete WAVE byte stream.
    ///
    /// The two-byte fields carry the low two bytes of their values; the data
    /// chunk declares the number of sample bytes. The container is not
    /// changed and may be extended afterwards.
    pub fn to_bytes(&self) -> (r: Vec<u8>)
        ensures
            r@ == self@.stream(),
            r@.len() == HEADER_LEN + self@.samples.len(),
            r@.subrange(0, 4) == riff_tag(),
            r@.subrange(8, 12) == wave_tag(),
            r@.subrange(12, 16) == fmt_tag(),
            r@.subrange(36, 40) == data_tag(),
            r@.subrange(HEADER_LEN as int, r@.len() as int) == self@.samples,
    {
        let n: usize = self.audio_byte_data.len();
        let data_size: u32 = (n as u64 % 0x1_0000_0000) as u32;
        let chunk_size: u32 = ((36u64 + data_size as u64) % 0x1_0000_0000) as u32;
        let mut data: Vec<u8> = Vec::new();
        push_tag(&mut data, 0x52, 0x49, 0x46, 0x46);
        push_le32(&mut data, chunk_size);
        push_tag(&mut data, 0x57, 0x41, 0x56, 0x45);
        push_tag(&mut data, 0x66, 0x6d, 0x74, 0x20);
        push_le32(&mut data, 16);
        push_le16(&mut data, self.audio_format);
        push_le16(&mut data, self.num_channels);
        push_le32(&mut data, self.sample_rate);
        push_le32(&mut data, self.byte_rate);
        push_le16(&mut data, self.block_align);
        push_le16(&mut data, self.bits_per_sample);
        push_tag(&mut data, 0x64, 0x61, 0x74, 0x61);
        push_le32(&mut data, data_size);
        proof {
            reveal(WaveModel::header);
        }
        assert(data@ =~= self@.header());
        let mut i: usize = 0;
        while i < n
            invariant
                n == self@.samples.len(),
                i <= n,
                data@ == self@.header() + self@.samples.subrange(0, i as int),
            decreases n - i,
        {
            data.push(self.audio_byte_data[i]);
            i += 1;
            assert(data@ =~= self@.header() + self@.samples.subrange(0, i as int));
        }
        assert(self@.samples.subrange(0, n as int) =~= self@.samples);
        proof {
            lemma_stream_layout(self@);
        }
        data
    }
}

/// Appends the four bytes of a chunk tag.
fn push_tag(out: &mut Vec<u8>, a: u8, b: u8, c: u8, d: u8)
    ensures
        final(out)@ == old(out)@ + seq![a, b, c, d],
{
    out.push(a);
    out.push(b);
    out.push(c);
    out.push(d);
    assert(final(out)@ =~= old(out)@ + seq![a, b, c, d]);
}

/// Appends the low two bytes of `v`, least significant first.
fn push_le16(out: &mut Vec<u8>, v: u32)
    ensures
        final(out)@ == old(out)@ + le16(v),
{
    out.push((v % 256) as u8);
    out.push((v / 256 % 256) as u8);
    assert(final(out)@ =~= old(out)@ + le16(v));
}

/// Appends the four bytes of `v`, least significant first.
fn push_le32(out: &mut Vec<u8>, v: u32)
    ensures
        final(out)@ == old(out)@ + le32(v),
{
    out.push((v % 256) as u8);
    out.push((v / 256 % 256) as u8);
    out.push((v / 65536 % 256) as u8);
    out.push((v / 16777216) as u8);
    assert(final(out)@ =~= old(out)@ + le32(v));
}

/// Every stream is the 44-byte header followed by the sample bytes, and the
/// header carries the four chunk tags at offsets 0, 8, 12 and 36.
pub proof fn lemma_stream_layout(m: WaveModel)
    ensures
        m.header().len() == HEADER_LEN,
        m.stream().len() == HEADER_LEN + m.samples.len(),
        m.stream().subrange(0, 4) == riff_tag(),
        m.stream().subrange(8, 12) == wave_tag(),
        m.stream().subrange(12, 16) == fmt_tag(),
        m.stream().subrange(36, 40) == data_tag(),
        pcm_payload(m.stream()) == m.samples,
{
    reveal(WaveModel::header);
    let s = m.stream();
    assert(m.header().len() == 44);
    assert(s.subrange(0, 4) =~= riff_tag());
    assert(s.subrange(8, 12) =~= wave_tag());
    assert(s.subrange(12, 16) =~= fmt_tag());
    assert(s.subrange(36, 40) =~= data_tag());
    assert(pcm_payload(s) =~= m.samples);
}

/// Where each numeric field of the header stands in a stream, and what it
/// holds.
pub proof fn lemma_header_fields(m: WaveModel)
    ensures
        m.stream().subrange(4, 8) == le32(m.chunk_size()),
        m.stream().subrange(16, 20) == le32(16),
        m.stream().subrange(20, 22) == le16(m.audio_format),
        m.stream().subrange(22, 24) == le16(m.num_channels),
        m.stream().subrange(24, 28) == le32(m.sample_rate),
        m.stream().subrange(28, 32) == le32(m.byte_rate),
        m.stream().subrange(32, 34) == le16(m.block_align),
        m.stream().subrange(34, 36) == le16(m.bits_per_sample),
        m.stream().subrange(40, 44) == le32(m.data_size()),
{
    reveal(WaveModel::header);
    let s = m.stream();
    let h = m.header();
    assert(h.len() == 44);
    assert(h =~= riff_tag() + le32(m.chunk_size()) + wave_tag() + fmt_tag() + le32(16)
        + le16(m.audio_format) + le16(m.num_channels) + le32(m.sample_rate)
        + le32(m.byte_rate) + le16(m.block_align) + le16(m.bits_per_sample) + data_tag()
        + le32(m.data_size()));
    assert forall|i: int| 0 <= i < 44 implies #[trigger] s[i] == h[i] by {}
    assert(s.subrange(4, 8) =~= le32(m.chunk_size()));
    assert(s.subrange(16, 20) =~= le32(16));
    assert(s.subrange(20, 22) =~= le16(m.audio_format));
    assert(s.subrange(22, 24) =~= le16(m.num_channels));
    assert(s.subrange(24, 28) =~= le32(m.sample_rate));
    assert(s.subrange(28, 32) =~= le32(m.byte_rate));
    assert(s.subrange(32, 34) =~= le16(m.block_align));
    assert(s.subrange(34, 36) =~= le16(m.bits_per_sample));
    assert(s.subrange(40, 44) =~= le32(m.data_size()));
}

/// Serialising a container and then taking the sample bytes back out of the
/// stream gives exactly the container's sample bytes.
pub proof fn lemma_round_trip(m: WaveModel)
    ensures
        m.stream().len() >= HEADER_LEN,
        pcm_payload(m.stream()) == m.samples,
{
    lemma_stream_layout(m);
}

/// Returns the sample bytes of a WAVE byte stream: everything after the
/// fixed 44-byte header, which is skipped without being checked.
///
/// Fails with [`WaveError::OutOfBounds`] when `raw` is shorter than the header.
pub fn extract_pcm_data(raw: &[u8]) -> (r: Result<Vec<u8>, WaveError>)
    ensures
        match r {
            Ok(d) => raw@.len() >= HEADER_LEN && d@ == pcm_payload(raw@),
            Err(e) => raw@.len() < HEADER_LEN && e == WaveError::OutOfBounds,
        },
{
    if raw.len() < HEADER_LEN {
        return Err(WaveError::OutOfBounds);
    }
    let mut out: Vec<u8> = Vec::new();
    let mut i: usize = HEADER_LEN;
    while i < raw.len()
        invariant
            HEADER_LEN <= i <= raw@.len(),
            out@ == raw@.subrange(HEADER_LEN as int, i as int),
        decreases raw@.len() - i,
    {
        out.push(raw[i]);
        i += 1;
        assert(out@ =~= raw@.subrange(HEADER_LEN as int, i as int));
    }
    Ok(out)
}

} // verus!
