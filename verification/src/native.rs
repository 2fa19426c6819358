//! Rules at the boundary to the native speech runtime.
//!
//! The runtime is called outside; what it may be given and what is accepted from it is decided
//! here.

use vstd::prelude::*;
use vstd::arithmetic::power2::pow2;
use vstd::string::*;
use vstd::utf8::encode_utf8;
use crate::sample::{absolute_value, bits_bound_halves_and_doubles, Sample};
use crate::text::{blank, chars_of, is_blank, same_text, whitespace};

verus! {

/// Most decoder steps for one call.
pub const MAX_DECODE_STEPS: usize = 100_000;

/// Longest text that the native synthesizer is given, in bytes.
pub const MAX_NATIVE_TEXT_BYTES: usize = 16_384;

/// Sanitized native runtime failure.
#[derive(Debug, Clone, Copy, PartialEq, Eq)]
pub struct NativeError {
    /// Stable message without private detail.
    pub message: &'static str,
}

impl NativeError {
    /// Creates a failure with a stable message.
    pub fn new(message: &'static str) -> (error: Self)
        ensures
            error.message@ == message@,
    {
        NativeError { message }
    }
}

/// Owned synthesized mono audio.
#[derive(Debug)]
pub struct GeneratedAudio {
    /// Mono samples.
    pub samples: Vec<Sample>,
    /// Native output sample rate.
    pub sample_rate: u32,
}

/// Whether a speed lies between one half and two. Positive single-precision numbers are ordered as
/// their bit patterns are.
pub open spec fn valid_speed(speed: Sample) -> bool {
    0x3f00_0000 <= speed.bits <= 0x4000_0000
}

/// Whether a text has a NUL character.
pub open spec fn has_nul(text: Seq<char>) -> bool {
    text.contains('\0')
}

/// Whether a text has a NUL character.
pub fn contains_nul(text: &str) -> (r: bool)
    ensures
        r == has_nul(text@),
{
    let chars = chars_of(text);
    let mut i: usize = 0;
    while i < chars.len()
        invariant
            chars@ == text@,
            i <= chars@.len(),
            forall|j: int| 0 <= j < i ==> text@[j] != '\0',
        decreases chars@.len() - i,
    {
        if chars[i] == '\0' {
            assert(text@[i as int] == '\0');
            return true;
        }
        i += 1;
    }
    false
}

/// Accepts exactly the pinned runtime version.
pub fn check_version(version: &str) -> (r: Result<(), NativeError>)
    ensures
        r is Ok <==> version@ == "1.13.8"@,
        r matches Err(e) ==> e.message@ == "native runtime version is incompatible"@,
{
    if same_text(version, "1.13.8") {
        Ok(())
    } else {
        Err(NativeError::new("native runtime version is incompatible"))
    }
}

/// Accepts one to 32 native threads.
pub fn check_threads(num_threads: u16) -> (r: Result<(), NativeError>)
    ensures
        r is Ok <==> 1 <= num_threads <= 32,
        r matches Err(e) ==> e.message@ == "native thread count is invalid"@,
{
    if num_threads == 0 || num_threads > 32 {
        Err(NativeError::new("native thread count is invalid"))
    } else {
        Ok(())
    }
}

/// Accepts a path that can be handed over as a NUL-terminated text; `None` stands for one that is
/// no text.
pub fn check_path(path: Option<&str>) -> (r: Result<(), NativeError>)
    ensures
        r is Ok <==> (path matches Some(text) && !has_nul(text@)),
        r matches Err(e) ==> e.message@ == "native artifact path is invalid"@,
{
    match path {
        Some(text) => if contains_nul(text) {
            Err(NativeError::new("native artifact path is invalid"))
        } else {
            Ok(())
        },
        None => Err(NativeError::new("native artifact path is invalid")),
    }
}

/// Whether samples can be handed to a recognition stream.
pub open spec fn valid_input(samples: Seq<Sample>) -> bool {
    &&& 0 < samples.len() <= i32::MAX
    &&& forall|i: int| 0 <= i < samples.len() ==> (#[trigger] samples[i]).finite()
}

/// Whether every sample is a finite number.
fn all_finite(samples: &[Sample]) -> (r: bool)
    ensures
        r <==> forall|i: int| 0 <= i < samples@.len() ==> (#[trigger] samples@[i]).finite(),
{
    let mut i: usize = 0;
    while i < samples.len()
        invariant
            i <= samples@.len(),
            forall|j: int| 0 <= j < i ==> (#[trigger] samples@[j]).finite(),
        decreases samples@.len() - i,
    {
        if !samples[i].is_finite() {
            assert(!samples@[i as int].finite());
            return false;
        }
        i += 1;
    }
    true
}

/// The input side of one recognition stream.
#[derive(Debug)]
pub struct OnlineStream {
    finished: bool,
}

impl OnlineStream {
    /// Whether input has ended.
    pub closed spec fn ended(self) -> bool {
        self.finished
    }

    /// An open stream.
    pub fn new() -> (stream: Self)
        ensures
            !stream.ended(),
    {
        OnlineStream { finished: false }
    }

    /// Accepts normalized mono PCM for the recognizer and gives its length. Rejects empty, invalid,
    /// or oversized chunks and appends after finish.
    pub fn accept(&self, samples: &[Sample]) -> (r: Result<i32, NativeError>)
        ensures
            r is Ok <==> !self.ended() && valid_input(samples@),
            match r {
                Ok(length) => length == samples@.len(),
                Err(e) => e.message@ == "speech stream input is invalid"@,
            },
    {
        if self.finished || samples.len() == 0 || samples.len() > 0x7fff_ffff || !all_finite(
            samples,
        ) {
            return Err(NativeError::new("speech stream input is invalid"));
        }
        Ok(samples.len() as i32)
    }

    /// Ends input once.
    pub fn finish(&mut self) -> (r: Result<(), NativeError>)
        ensures
            r is Ok <==> !old(self).ended(),
            final(self).ended(),
            r matches Err(e) ==> e.message@ == "speech stream is already finished"@,
    {
        if self.finished {
            return Err(NativeError::new("speech stream is already finished"));
        }
        self.finished = true;
        Ok(())
    }
}

/// Steps left for a decoder within one call.
#[derive(Debug)]
pub struct DecodeBudget {
    left: usize,
}

impl DecodeBudget {
    /// Steps left.
    pub closed spec fn remaining(self) -> nat {
        self.left as nat
    }

    /// A full budget.
    pub fn new() -> (budget: Self)
        ensures
            budget.remaining() == MAX_DECODE_STEPS,
    {
        DecodeBudget { left: MAX_DECODE_STEPS }
    }

    /// Whether another step may be asked for.
    pub fn may_ask(&self) -> (r: Result<(), NativeError>)
        ensures
            r is Ok <==> self.remaining() > 0,
            r matches Err(e) ==> e.message@ == "speech decoder exceeded its work bound"@,
    {
        if self.left == 0 {
            Err(NativeError::new("speech decoder exceeded its work bound"))
        } else {
            Ok(())
        }
    }

    /// Records a step that was taken.
    pub fn taken(&mut self)
        ensures
            final(self).remaining() == if old(self).remaining() == 0 {
                0
            } else {
                (old(self).remaining() - 1) as nat
            },
    {
        if self.left > 0 {
            self.left -= 1;
        }
    }
}

/// Whether a text can be handed to the synthesizer.
pub open spec fn valid_synthesis(text: Seq<char>, speed: Sample, max_samples: usize) -> bool {
    &&& !blank(text)
    &&& encode_utf8(text).len() <= MAX_NATIVE_TEXT_BYTES
    &&& valid_speed(speed)
    &&& max_samples != 0
    &&& !has_nul(text)
}

/// Accepts a text for the native synthesizer. Rejects empty or NUL text, an invalid speed, and an
/// empty output bound.
pub fn check_synthesis(text: &str, speed: Sample, max_samples: usize) -> (r: Result<
    (),
    NativeError,
>)
    ensures
        r is Ok <==> valid_synthesis(text@, speed, max_samples),
        r matches Err(e) ==> e.message@ == "speech synthesis input is invalid"@,
{
    if is_blank(text) || text.as_bytes().len() > MAX_NATIVE_TEXT_BYTES || speed.bits < 0x3f00_0000
        || speed.bits > 0x4000_0000 || max_samples == 0 || contains_nul(text) {
        Err(NativeError::new("speech synthesis input is invalid"))
    } else {
        Ok(())
    }
}

/// What the synthesizer says of its output before it is copied.
#[derive(Debug, Clone, Copy)]
pub struct OutputHeader {
    /// Whether there are samples at all.
    pub present: bool,
    /// How many.
    pub length: i32,
    /// Sample rate.
    pub sample_rate: i32,
}

/// Why output is refused before it is copied, if it is.
pub open spec fn header_failure(header: OutputHeader, max_samples: usize) -> Option<Seq<char>> {
    if !header.present || header.length <= 0 || header.sample_rate <= 0 {
        Some("speech synthesis output is invalid"@)
    } else if header.length > max_samples {
        Some("speech synthesis output exceeds its limit"@)
    } else {
        None
    }
}

/// Accepts output for copying and gives its length.
pub fn check_output(header: OutputHeader, max_samples: usize) -> (r: Result<usize, NativeError>)
    ensures
        match r {
            Ok(length) => header_failure(header, max_samples) is None && length == header.length,
            Err(e) => header_failure(header, max_samples) == Some(e.message@),
        },
{
    if !header.present || header.length <= 0 || header.sample_rate <= 0 {
        return Err(NativeError::new("speech synthesis output is invalid"));
    }
    let length: usize = header.length as usize;
    if length > max_samples {
        return Err(NativeError::new("speech synthesis output exceeds its limit"));
    }
    Ok(length)
}

/// Accepts copied output: every sample must be finite and the rate positive.
pub fn copied_output(header: OutputHeader, samples: Vec<Sample>) -> (r: Result<
    GeneratedAudio,
    NativeError,
>)
    ensures
        r is Ok <==> header.sample_rate >= 0 && forall|i: int|
            0 <= i < samples@.len() ==> (#[trigger] samples@[i]).finite(),
        match r {
            Ok(audio) => audio.samples@ == samples@ && audio.sample_rate == header.sample_rate,
            Err(e) => e.message@ == "speech synthesis output is invalid"@,
        },
{
    if header.sample_rate < 0 || !all_finite(samples.as_slice()) {
        return Err(NativeError::new("speech synthesis output is invalid"));
    }
    Ok(GeneratedAudio { samples, sample_rate: header.sample_rate as u32 })
}

/// The file names of the native runtime's libraries on an operating system: what it depends on
/// first, then the runtime itself.
pub fn library_names(os: &str) -> (r: (Vec<&'static str>, &'static str))
    ensures
        if os@ == "windows"@ {
            &&& r.0@.len() == 2
            &&& r.0@[0]@ == "onnxruntime.dll"@
            &&& r.0@[1]@ == "onnxruntime_providers_shared.dll"@
            &&& r.1@ == "sherpa-onnx-c-api.dll"@
        } else if os@ == "linux"@ {
            &&& r.0@.len() == 2
            &&& r.0@[0]@ == "libonnxruntime.so"@
            &&& r.0@[1]@ == "libonnxruntime_providers_shared.so"@
            &&& r.1@ == "libsherpa-onnx-c-api.so"@
        } else {
            r.0@.len() == 0 && r.1@ == "unsupported"@
        },
{
    let mut dependencies: Vec<&'static str> = Vec::new();
    if same_text(os, "windows") {
        dependencies.push("onnxruntime.dll");
        dependencies.push("onnxruntime_providers_shared.dll");
        (dependencies, "sherpa-onnx-c-api.dll")
    } else if same_text(os, "linux") {
        dependencies.push("libonnxruntime.so");
        dependencies.push("libonnxruntime_providers_shared.so");
        (dependencies, "libsherpa-onnx-c-api.so")
    } else {
        (dependencies, "unsupported")
    }
}

/// A speed is valid exactly when it is a number from one half to two: a negative one, one that is
/// not finite, and one that is no number are none. Absolute values count in steps of which one
/// holds 2^149.
pub proof fn speeds_lie_between_half_and_double(speed: Sample)
    ensures
        valid_speed(speed) <==> !speed.negative() && pow2(148) <= absolute_value(speed.bits)
            <= pow2(150),
{
    bits_bound_halves_and_doubles(speed);
}

/// A text is spoken exactly when it says something, fits, and has no NUL, at a valid speed, with
/// room for output: a longer text, a text that is only whitespace, and one with a NUL at any place
/// are refused.
pub proof fn spoken_texts_say_something(
    before: Seq<char>,
    after: Seq<char>,
    speed: Sample,
    max_samples: usize,
)
    ensures
        !valid_synthesis(before.push('\0') + after, speed, max_samples),
        encode_utf8(before).len() > 16_384 ==> !valid_synthesis(before, speed, max_samples),
        (forall|i: int| 0 <= i < before.len() ==> whitespace(#[trigger] before[i])) ==> !valid_synthesis(
            before,
            speed,
            max_samples,
        ),
        !valid_synthesis(before, speed, 0),
        ({
            &&& valid_speed(speed)
            &&& max_samples > 0
            &&& encode_utf8(before).len() <= 16_384
            &&& exists|i: int| 0 <= i < before.len() && !whitespace(#[trigger] before[i])
            &&& forall|i: int| 0 <= i < before.len() ==> #[trigger] before[i] != '\0'
        }) ==> valid_synthesis(before, speed, max_samples),
{
    let text = before.push('\0') + after;
    assert(text[before.len() as int] == '\0');
}

/// Output is copied exactly when there is some, at a positive rate, and no more than was asked for.
pub proof fn output_is_present_and_bounded(header: OutputHeader, max_samples: usize)
    ensures
        header_failure(header, max_samples) is None <==> header.present && 0 < header.length
            <= max_samples && header.sample_rate > 0,
        header_failure(header, max_samples) == Some("speech synthesis output exceeds its limit"@)
            <==> header.present && header.length > max_samples && header.sample_rate > 0
            && header.length > 0,
{
    reveal_strlit("speech synthesis output exceeds its limit");
    reveal_strlit("speech synthesis output is invalid");
    assert("speech synthesis output exceeds its limit"@.len() == 41);
    assert("speech synthesis output is invalid"@.len() == 34);
}

/// One pinned runtime is accepted, with one to 32 threads, at paths that can be handed over.
pub proof fn one_runtime_is_accepted(
    version: &str,
    versioned: Result<(), NativeError>,
    threads: u16,
    threaded: Result<(), NativeError>,
    path: Option<&str>,
    placed: Result<(), NativeError>,
)
    requires
        call_ensures(check_version, (version,), versioned),
        call_ensures(check_threads, (threads,), threaded),
        call_ensures(check_path, (path,), placed),
    ensures
        versioned is Ok <==> version@ == "1.13.8"@,
        threaded is Ok <==> 0 < threads < 33,
        placed is Ok <==> (path matches Some(text) && forall|i: int|
            0 <= i < text@.len() ==> #[trigger] text@[i] != '\0'),
{
    if let Some(text) = path {
        if has_nul(text@) {
            let i = choose|i: int| 0 <= i < text@.len() && text@[i] == '\0';
            assert(text@[i] == '\0');
        } else {
            assert forall|i: int| 0 <= i < text@.len() implies #[trigger] text@[i] != '\0' by {
                assert(text@.contains(text@[i]));
            }
        }
    }
}

/// Copied output is passed on as it is, and only where every sample is a finite number.
pub proof fn output_is_passed_on_as_it_is(
    header: OutputHeader,
    samples: Vec<Sample>,
    passed: Result<GeneratedAudio, NativeError>,
)
    requires
        call_ensures(copied_output, (header, samples), passed),
        header.sample_rate > 0,
    ensures
        passed is Ok <==> forall|i: int| 0 <= i < samples@.len() ==> (#[trigger] samples@[i]).finite(),
        passed matches Ok(audio) ==> audio.samples@ == samples@ && audio.sample_rate
            == header.sample_rate,
{
}

/// A recognition stream takes samples until it is finished: some of them, all finite, and no more
/// than the recognizer can count.
pub proof fn streams_take_finite_samples(
    stream: &OnlineStream,
    samples: &[Sample],
    taken: Result<i32, NativeError>,
)
    requires
        call_ensures(OnlineStream::accept, (stream, samples), taken),
    ensures
        taken is Ok <==> !stream.ended() && 0 < samples@.len() <= 0x7fff_ffff && forall|i: int|
            0 <= i < samples@.len() ==> (#[trigger] samples@[i]).finite(),
        taken matches Ok(length) ==> length == samples@.len(),
{
}

}
