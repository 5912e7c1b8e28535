//! Zero-configuration speech synthesis through the operating system's own
//! voice: macOS `say`, or `espeak-ng` / `espeak` elsewhere. Which one a
//! machine has is found once, when the provider is built.

use vstd::prelude::*;

use crate::catalog::{capability_name, BackendFeature, Capability, ModelId, ProviderKind};
use crate::kernel::EngineError;
use crate::text::{ascii_lower, concat, owned, to_ascii_lowercase};

verus! {

/// The provider's name.
pub const SYSTEM_TTS_NAME: &'static str = "system-tts";

/// The one model the system voice offers.
pub const SYSTEM_TTS_MODEL: &'static str = "system";

/// The operating-system voice tool a machine offers.
#[derive(Debug, Clone, Copy, PartialEq, Eq, Structural)]
pub enum Voice {
    /// macOS `say` (with `afconvert` for other containers).
    MacSay,
    /// `espeak-ng` or `espeak`, which write WAV directly.
    Espeak,
    /// No system voice.
    Unavailable,
}

/// The voice tool to drive, given what the machine has: `say` on macOS,
/// else an `espeak`, else none.
pub open spec fn voice_for(is_macos: bool, has_say: bool, has_espeak_ng: bool, has_espeak: bool) -> Voice {
    if is_macos && has_say {
        Voice::MacSay
    } else if has_espeak_ng || has_espeak {
        Voice::Espeak
    } else {
        Voice::Unavailable
    }
}

/// Compute [`voice_for`].
pub fn choose_voice(is_macos: bool, has_say: bool, has_espeak_ng: bool, has_espeak: bool) -> (r: Voice)
    ensures
        r == voice_for(is_macos, has_say, has_espeak_ng, has_espeak),
{
    if is_macos && has_say {
        Voice::MacSay
    } else if has_espeak_ng || has_espeak {
        Voice::Espeak
    } else {
        Voice::Unavailable
    }
}

/// The container a voice tool writes natively.
pub open spec fn native_extension(v: Voice) -> Option<Seq<char>> {
    match v {
        Voice::MacSay => Some("aiff"@),
        Voice::Espeak => Some("wav"@),
        Voice::Unavailable => None,
    }
}

/// The audio format a request asks for: `params.format` lower-cased when
/// given and non-empty, else `wav`.
pub open spec fn wanted_format(param: Option<Seq<char>>) -> Seq<char> {
    match param {
        Some(f) => if f.len() > 0 {
            f.map_values(|c: char| ascii_lower(c))
        } else {
            "wav"@
        },
        None => "wav"@,
    }
}

/// A speech provider backed by the operating system's voice.
pub struct SystemTtsProvider {
    output_dir: Option<String>,
    voice: Voice,
}

impl SystemTtsProvider {
    /// The voice tool this provider drives.
    pub closed spec fn spec_voice(&self) -> Voice {
        self.voice
    }

    /// The configured artifact directory.
    pub closed spec fn spec_output_dir(&self) -> Option<String> {
        self.output_dir
    }

    /// A provider driving `voice` (as found on this machine), writing audio
    /// under `output_dir` (the artifact directory when `None`).
    pub fn new(output_dir: Option<String>, voice: Voice) -> (r: Self)
        ensures
            r.spec_voice() == voice,
            r.spec_output_dir() == output_dir,
    {
        SystemTtsProvider { output_dir, voice }
    }

    /// Whether this machine has a usable system voice.
    pub fn is_available(&self) -> (r: bool)
        ensures
            r == (self.spec_voice() != Voice::Unavailable),
    {
        self.voice != Voice::Unavailable
    }

    /// The voice tool this provider drives.
    pub fn voice(&self) -> (r: Voice)
        ensures
            r == self.spec_voice(),
    {
        self.voice
    }

    /// The configured artifact directory.
    pub fn output_dir(&self) -> (r: &Option<String>)
        ensures
            *r == self.spec_output_dir(),
    {
        &self.output_dir
    }

    /// The provider's name.
    pub fn name(&self) -> (r: &'static str)
        ensures
            r@ == SYSTEM_TTS_NAME@,
    {
        SYSTEM_TTS_NAME
    }

    /// Reported as a local speech provider, like any other on-device voice.
    pub fn kind(&self) -> (r: ProviderKind)
        ensures
            r == ProviderKind::LocalTts,
    {
        ProviderKind::LocalTts
    }

    /// What the provider supports beyond calls.
    pub fn features(&self) -> (r: Vec<BackendFeature>)
        ensures
            r@ == seq![BackendFeature::Discovery, BackendFeature::Load, BackendFeature::Unload],
    {
        vec![BackendFeature::Discovery, BackendFeature::Load, BackendFeature::Unload]
    }

    /// The id of the system voice model (`system-tts/system`).
    pub fn model_id(&self) -> (r: String)
        ensures
            r@ == SYSTEM_TTS_NAME@ + "/"@ + SYSTEM_TTS_MODEL@,
    {
        ModelId::canonical(SYSTEM_TTS_NAME, SYSTEM_TTS_MODEL)
    }

    /// Check a call for `requested` (default: speech synthesis).
    pub fn check_call(&self, requested: Option<Capability>) -> (r: Result<(), EngineError>)
        ensures
            (match requested {
                Some(c) => c,
                None => Capability::Tts,
            }) == Capability::Tts ==> r is Ok,
            (match requested {
                Some(c) => c,
                None => Capability::Tts,
            }) != Capability::Tts ==> (r matches Err(EngineError::UnsupportedOperation(m)) && m@
                == "provider '"@ + SYSTEM_TTS_NAME@ + "' only supports tts, not "@ + capability_name(
                requested.unwrap(),
            )),
    {
        let capability = match requested {
            Some(c) => c,
            None => Capability::Tts,
        };
        if capability != Capability::Tts {
            let a = concat("provider '", SYSTEM_TTS_NAME);
            let b = concat(a.as_str(), "' only supports tts, not ");
            return Err(EngineError::UnsupportedOperation(concat(b.as_str(), capability.as_str())));
        }
        Ok(())
    }

    /// The container this provider's voice writes natively.
    pub fn native_extension(&self) -> (r: Option<&'static str>)
        ensures
            r matches Some(e) ==> native_extension(self.spec_voice()) == Some(e@),
            r is None ==> native_extension(self.spec_voice()) is None,
    {
        match self.voice {
            Voice::MacSay => Some("aiff"),
            Voice::Espeak => Some("wav"),
            Voice::Unavailable => None,
        }
    }

    /// The audio format a request asks for (see [`wanted_format`]).
    pub fn wanted_format(param: Option<&str>) -> (r: String)
        ensures
            r@ == wanted_format(match param {
                Some(f) => Some(f@),
                None => None,
            }),
    {
        match param {
            Some(f) => {
                if f.unicode_len() > 0 {
                    to_ascii_lowercase(f)
                } else {
                    owned("wav")
                }
            },
            None => owned("wav"),
        }
    }
}

} // verus!
