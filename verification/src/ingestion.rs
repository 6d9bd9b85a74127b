//! Decisions taken around reading and measuring audio: the container format
//! from a file's extension or first bytes, which files can be imported, how
//! much audio a loudness measurement needs, and the bounds of a region.

use vstd::prelude::*;
use crate::error::GainError;
use crate::text::{decimal, lowercase, push_decimal, to_lowercase};

verus! {

/// The audio container formats that can be read.
#[derive(Debug, Clone, Copy, PartialEq, Eq, Structural)]
pub enum ContainerFormat {
    Wav,
    Aiff,
}

/// The container named by a lower-case extension.
pub open spec fn container_of_extension(lower: Seq<char>) -> Option<ContainerFormat> {
    if lower == "wav"@ {
        Some(ContainerFormat::Wav)
    } else if lower == "aif"@ || lower == "aiff"@ {
        Some(ContainerFormat::Aiff)
    } else {
        None
    }
}

/// The two texts are equal.
fn same_text(a: &str, b: &str) -> (r: bool)
    ensures
        r == (a@ == b@),
{
    String::from_str(a) == String::from_str(b)
}

/// The container named by an extension that is already lower-case.
pub fn container_of_lower(lower: &str) -> (r: Option<ContainerFormat>)
    ensures
        r == container_of_extension(lower@),
{
    if same_text(lower, "wav") {
        Some(ContainerFormat::Wav)
    } else if same_text(lower, "aif") || same_text(lower, "aiff") {
        Some(ContainerFormat::Aiff)
    } else {
        None
    }
}

/// The container a file extension names, compared after lower-casing
/// (`wav`; `aif` or `aiff`); `None` for any other or no extension.
pub fn container_from_extension(ext: Option<&str>) -> (r: Option<ContainerFormat>)
    ensures
        r == match ext {
            Some(e) => container_of_extension(lowercase(e@)),
            None => None,
        },
{
    match ext {
        None => None,
        Some(e) => {
            let lower = to_lowercase(e);
            container_of_lower(lower.as_str())
        },
    }
}

/// The bytes `RIFF` that open a WAV file.
pub open spec fn riff_magic() -> Seq<u8> {
    seq![0x52u8, 0x49u8, 0x46u8, 0x46u8]
}

/// The bytes `FORM` that open an AIFF file.
pub open spec fn form_magic() -> Seq<u8> {
    seq![0x46u8, 0x4Fu8, 0x52u8, 0x4Du8]
}

/// How an unsupported file is named in an error: its lower-case extension,
/// or `(no extension)`.
pub open spec fn unsupported_name(ext: Option<&str>) -> Seq<char> {
    match ext {
        Some(e) => lowercase(e@),
        None => "(no extension)"@,
    }
}

/// The container of a file whose extension names none, from its first four
/// bytes (`None` when they could not be read): `RIFF` is WAV, `FORM` is
/// AIFF; anything else is an unsupported format.
pub fn container_from_magic(ext: Option<&str>, magic: Option<[u8; 4]>) -> (r: Result<ContainerFormat, GainError>)
    ensures
        (magic matches Some(m) && m@ == riff_magic()) ==> r == Ok::<ContainerFormat, GainError>(ContainerFormat::Wav),
        (magic matches Some(m) && m@ == form_magic()) ==> r == Ok::<ContainerFormat, GainError>(ContainerFormat::Aiff),
        !(magic matches Some(m) && (m@ == riff_magic() || m@ == form_magic())) ==> (r matches Err(
            GainError::UnsupportedFormat { format },
        ) && format@ == unsupported_name(ext)),
{
    if let Some(m) = magic {
        if m[0] == 0x52 && m[1] == 0x49 && m[2] == 0x46 && m[3] == 0x46 {
            proof {
                assert(m@ =~= riff_magic());
            }
            return Ok(ContainerFormat::Wav);
        }
        if m[0] == 0x46 && m[1] == 0x4F && m[2] == 0x52 && m[3] == 0x4D {
            proof {
                assert(m@ =~= form_magic());
            }
            return Ok(ContainerFormat::Aiff);
        }
        proof {
            assert(m@ != riff_magic() ==> m@[0] != 0x52 || m@[1] != 0x49 || m@[2] != 0x46 || m@[3] != 0x46);
            if m@ == riff_magic() {
                assert(m@[0] == 0x52 && m@[1] == 0x49 && m@[2] == 0x46 && m@[3] == 0x46);
            }
            if m@ == form_magic() {
                assert(m@[0] == 0x46 && m@[1] == 0x4F && m@[2] == 0x52 && m@[3] == 0x4D);
            }
        }
    }
    let format = match ext {
        Some(e) => to_lowercase(e),
        None => String::from_str("(no extension)"),
    };
    Err(GainError::UnsupportedFormat { format })
}

/// An extension that the standalone application accepts for import.
pub open spec fn importable(lower: Seq<char>) -> bool {
    lower == "wav"@ || lower == "aiff"@ || lower == "aif"@ || lower == "mp3"@
}

/// The standalone application accepts an extension that is already
/// lower-case for import.
pub fn import_extension_allowed(lower: &str) -> (r: bool)
    ensures
        r == importable(lower@),
{
    same_text(lower, "wav") || same_text(lower, "aiff") || same_text(lower, "aif") || same_text(
        lower,
        "mp3",
    )
}

/// Checks a file's extension before import: `wav`, `aiff`, `aif` and `mp3`
/// are accepted after lower-casing (a missing extension counts as empty);
/// anything else is refused with `Unsupported format: .<extension>`.
pub fn check_import_extension(ext: Option<&str>) -> (r: Result<(), String>)
    ensures
        ({
            let lower = lowercase(
                match ext {
                    Some(e) => e@,
                    None => ""@,
                },
            );
            &&& importable(lower) ==> r is Ok
            &&& !importable(lower) ==> (r matches Err(msg) && msg@ == "Unsupported format: ."@ + lower)
        }),
{
    let e = match ext {
        Some(e) => e,
        None => "",
    };
    let lower = to_lowercase(e);
    if import_extension_allowed(lower.as_str()) {
        Ok(())
    } else {
        let mut msg = String::from_str("Unsupported format: .");
        msg.append(lower.as_str());
        Err(msg)
    }
}

/// Fewest interleaved samples (400 ms of every channel) for which loudness
/// is measured; shorter buffers get placeholder loudness values.
pub fn loudness_min_samples(sample_rate: u32, channels: u16) -> (r: u64)
    ensures
        r == (sample_rate as int * 4 / 10) * channels as int,
{
    let per_channel = sample_rate as u64 * 4 / 10;
    assert(per_channel * channels as u64 <= 0x1_0000_0000u64 * 0x1_0000u64) by (nonlinear_arith)
        requires
            per_channel <= 0x1_0000_0000u64,
            channels as u64 <= 0x1_0000u64,
    ;
    per_channel * channels as u64
}

/// A buffer of `len` interleaved samples is too short for a loudness
/// measurement, so its loudness values are placeholders.
pub fn too_short_for_loudness(len: usize, sample_rate: u32, channels: u16) -> (r: bool)
    ensures
        r == (len < (sample_rate as int * 4 / 10) * channels as int),
{
    (len as u64) < loudness_min_samples(sample_rate, channels)
}

/// Interleaved samples in one 100 ms block fed to the loudness meter (at
/// least 1).
pub fn loudness_block_size(sample_rate: u32, channels: u16) -> (r: u64)
    ensures
        r == if (sample_rate as int / 10) * channels as int >= 1 {
            (sample_rate as int / 10) * channels as int
        } else {
            1
        },
{
    let per_channel = sample_rate as u64 / 10;
    assert(per_channel * channels as u64 <= 0x1_0000_0000u64 * 0x1_0000u64) by (nonlinear_arith)
        requires
            per_channel <= 0x1_0000_0000u64,
            channels as u64 <= 0x1_0000u64,
    ;
    let block = per_channel * channels as u64;
    if block >= 1 {
        block
    } else {
        1
    }
}

/// The part `[start_sample, min(end_sample, len))` of a buffer of `len`
/// samples; an empty part is invalid audio.
pub fn region_bounds(start_sample: usize, end_sample: usize, len: usize) -> (r: Result<(usize, usize), GainError>)
    ensures
        ({
            let end = if end_sample < len {
                end_sample
            } else {
                len
            };
            &&& start_sample < end ==> r == Ok::<(usize, usize), GainError>((start_sample, end))
            &&& start_sample >= end ==> (r matches Err(GainError::InvalidAudio { details }) && details@
                == "empty region ["@ + decimal(start_sample as nat) + ", "@ + decimal(end as nat)
                + ")"@)
        }),
{
    let end = if end_sample < len {
        end_sample
    } else {
        len
    };
    if start_sample >= end {
        let mut details = String::from_str("empty region [");
        push_decimal(&mut details, start_sample as u64);
        details.append(", ");
        push_decimal(&mut details, end as u64);
        details.append(")");
        return Err(GainError::InvalidAudio { details });
    }
    Ok((start_sample, end))
}

/// Exactly four extensions are importable: `wav`, `aiff`, `aif` and `mp3`.
pub proof fn lemma_importable_extensions(lower: Seq<char>)
    ensures
        importable(lower) <==> set!["wav"@, "aiff"@, "aif"@, "mp3"@].contains(lower),
{
}

/// Exactly three extensions name a container: `wav` names WAV, `aif` and
/// `aiff` name AIFF.
pub proof fn lemma_container_extensions(lower: Seq<char>)
    ensures
        container_of_extension(lower) == Some(ContainerFormat::Wav) <==> lower == "wav"@,
        container_of_extension(lower) == Some(ContainerFormat::Aiff) <==> set!["aif"@, "aiff"@].contains(lower),
        container_of_extension(lower) is Some <==> set!["wav"@, "aif"@, "aiff"@].contains(lower),
{
    reveal_strlit("wav");
    reveal_strlit("aif");
    reveal_strlit("aiff");
    assert("aif"@ != "wav"@) by {
        assert("aif"@[0] != "wav"@[0]);
    }
    assert("aiff"@ != "wav"@) by {
        assert("aiff"@.len() != "wav"@.len());
    }
}

} // verus!
