//! Speech recognition on the desktop: which side recognizes, and the state of
//! the local engine.

use vstd::prelude::*;
use vstd::string::StringExecFns;

verus! {

/// Error text of an engine that was not compiled in.
pub const ASR_ENGINE_DISABLED: &'static str = "ASR_ENGINE_DISABLED";

/// How audio frames are encoded.
#[derive(Debug, Clone, Copy, PartialEq, Eq, Structural)]
pub enum AudioCodec {
    Pcm16k,
    Opus,
}

/// One chunk of audio from the phone.
#[derive(Debug, Clone, PartialEq, Eq)]
pub struct AudioFrame {
    pub codec: AudioCodec,
    pub payload: Vec<u8>,
    pub ts_ms: u64,
}

/// Why recognition failed.
#[derive(Debug, Clone, PartialEq, Eq)]
pub enum AsrError {
    EngineDisabled,
    InitError(String),
    FeedError(String),
    Timeout,
    Backend(String),
}

/// The message of a recognition failure.
pub open spec fn asr_error_text(e: AsrError) -> Seq<char> {
    match e {
        AsrError::EngineDisabled => "ASR_ENGINE_DISABLED: whisper feature not compiled in"@,
        AsrError::InitError(d) => "ASR_INIT_ERROR: "@ + d@,
        AsrError::FeedError(d) => "ASR_FEED_ERROR: "@ + d@,
        AsrError::Timeout => "ASR_TIMEOUT"@,
        AsrError::Backend(d) => "ASR_BACKEND_ERROR: "@ + d@,
    }
}

impl AsrError {
    /// The message.
    pub fn to_string(&self) -> (r: String)
        ensures
            r@ == asr_error_text(*self),
    {
        match self {
            AsrError::EngineDisabled => String::from_str(
                "ASR_ENGINE_DISABLED: whisper feature not compiled in",
            ),
            AsrError::InitError(d) => {
                let mut s = String::from_str("ASR_INIT_ERROR: ");
                s.append(d.as_str());
                s
            },
            AsrError::FeedError(d) => {
                let mut s = String::from_str("ASR_FEED_ERROR: ");
                s.append(d.as_str());
                s
            },
            AsrError::Timeout => String::from_str("ASR_TIMEOUT"),
            AsrError::Backend(d) => {
                let mut s = String::from_str("ASR_BACKEND_ERROR: ");
                s.append(d.as_str());
                s
            },
        }
    }
}

/// Which side recognizes speech.
#[derive(Debug, Clone, Copy, PartialEq, Eq, Structural)]
pub enum AsrTarget {
    Browser,
    Server,
}

/// The browser recognizes when it can and the user does not prefer the
/// desktop; the desktop recognizes otherwise.
pub fn pick_asr_engine(supports_browser_asr: bool, prefer_server_asr: bool) -> (r: AsrTarget)
    ensures
        r == (if supports_browser_asr && !prefer_server_asr {
            AsrTarget::Browser
        } else {
            AsrTarget::Server
        }),
{
    if supports_browser_asr && !prefer_server_asr {
        AsrTarget::Browser
    } else {
        AsrTarget::Server
    }
}

/// The engine used when none is compiled in: it refuses everything.
#[derive(Debug, Default, Clone)]
pub struct NoopAsr;

impl NoopAsr {
    /// Refuses the frame: no engine.
    pub fn feed(&self, frame: &AudioFrame) -> (r: Result<(), AsrError>)
        ensures
            r == Err::<(), AsrError>(AsrError::EngineDisabled),
    {
        Err(AsrError::EngineDisabled)
    }

    /// What ending a segment fails with: no engine.
    pub fn end_error(&self) -> (r: AsrError)
        ensures
            r == AsrError::EngineDisabled,
    {
        AsrError::EngineDisabled
    }
}

/// Where the local model is and which language it should assume.
#[derive(Debug, Clone)]
pub struct WhisperConfig {
    pub model_path: String,
    pub language: Option<String>,
}

/// The 16-bit little-endian sample of two bytes.
pub open spec fn le_sample(lo: u8, hi: u8) -> i16 {
    (lo as u16 + 256 * (hi as u16)) as i16
}

/// The samples of a 16-bit little-endian PCM payload; a trailing odd byte is
/// dropped.
pub open spec fn pcm_samples(payload: Seq<u8>) -> Seq<i16> {
    Seq::new(payload.len() / 2, |i: int| le_sample(payload[2 * i], payload[2 * i + 1]))
}

/// The local engine: its configuration and the samples fed so far.
#[derive(Debug)]
pub struct WhisperAsr {
    cfg: WhisperConfig,
    buffer: Vec<i16>,
}

/// `Path::exists`: whether something is at `path` now (what the file system
/// says at the moment of the call; nothing is promised of it).
#[verifier::external_body]
fn path_exists(path: &str) -> bool {
    std::path::Path::new(path).exists()
}

impl WhisperAsr {
    /// The samples fed so far.
    pub closed spec fn samples(&self) -> Seq<i16> {
        self.buffer@
    }

    /// The configuration.
    pub closed spec fn spec_config(&self) -> WhisperConfig {
        self.cfg
    }

    /// An engine for `cfg`, which needs the model file to exist.
    pub fn new(cfg: WhisperConfig) -> (r: Result<Self, AsrError>)
        ensures
            r matches Ok(w) ==> w.spec_config() == cfg && w.samples().len() == 0,
            r matches Err(e) ==> e matches AsrError::InitError(m) && m@ == "model file not found: "@
                + cfg.model_path@,
    {
        let exists = path_exists(cfg.model_path.as_str());
        WhisperAsr::from_checked(cfg, exists)
    }

    /// An engine for `cfg` once the model file was looked for: refused when
    /// it was not found.
    pub fn from_checked(cfg: WhisperConfig, model_found: bool) -> (r: Result<Self, AsrError>)
        ensures
            model_found <==> r is Ok,
            r matches Ok(w) ==> w.spec_config() == cfg && w.samples().len() == 0,
            r matches Err(e) ==> e matches AsrError::InitError(m) && m@ == "model file not found: "@
                + cfg.model_path@,
    {
        if !model_found {
            let mut m = String::from_str("model file not found: ");
            m.append(cfg.model_path.as_str());
            return Err(AsrError::InitError(m));
        }
        Ok(WhisperAsr { cfg, buffer: Vec::new() })
    }

    /// The configuration.
    pub fn config(&self) -> (r: &WhisperConfig)
        ensures
            *r == self.spec_config(),
    {
        &self.cfg
    }

    /// Appends the samples of a PCM frame.
    pub fn feed(&mut self, frame: &AudioFrame) -> (r: Result<(), AsrError>)
        ensures
            r is Ok,
            final(self).samples() == old(self).samples() + pcm_samples(frame.payload@),
            final(self).spec_config() == old(self).spec_config(),
    {
        let p = &frame.payload;
        let n: usize = p.len() / 2;
        let ghost start = self.buffer@;
        let mut i: usize = 0;
        while i < n
            invariant
                n == p@.len() / 2,
                p@.len() == p.len(),
                i <= n,
                self.buffer@ == start + pcm_samples(p@).take(i as int),
                self.cfg == old(self).cfg,
            decreases n - i,
        {
            let lo: u8 = p[2 * i];
            let hi: u8 = p[2 * i + 1];
            let v: u16 = (lo as u16) + 256 * (hi as u16);
            let s: i16 = #[verifier::truncate] (v as i16);
            self.buffer.push(s);
            proof {
                assert(pcm_samples(p@).take(i + 1) =~= pcm_samples(p@).take(i as int).push(s));
            }
            i = i + 1;
        }
        proof {
            assert(pcm_samples(p@).take(n as int) =~= pcm_samples(p@));
        }
        Ok(())
    }

    /// What ending a segment fails with while the model is not wired in.
    pub fn end_error(&self) -> (r: AsrError)
        ensures
            r matches AsrError::InitError(m) && m@
                == "whisper-rs FFI not yet integrated; feature gate is in place, model_path = "@
                + self.spec_config().model_path@,
    {
        let mut m = String::from_str("whisper-rs FFI not yet integrated; feature gate is in place, model_path = ");
        m.append(self.cfg.model_path.as_str());
        AsrError::InitError(m)
    }
}

} // verus!
