//! Named latency/bandwidth profiles that expand into a full encoder and sink
//! description.
//!
//! A preset only decides defaults. Every parameter yields to an environment
//! variable, so a deployment can start from a profile and turn one knob:
//!
//!   BRAIDPIPE_ENCODER       auto | x264 | vtenc | nvenc | va | vaapi | qsv | mf | amf
//!   BRAIDPIPE_BITRATE_KBPS  encoder target bitrate
//!   BRAIDPIPE_SPEED_PRESET  x264 speed preset (ultrafast..placebo)
//!   BRAIDPIPE_ZEROLATENCY   1/0, the encoder's low-latency switch
//!   BRAIDPIPE_GOP_SECONDS   keyframe interval in seconds
//!   BRAIDPIPE_VBV_BUF_MS    VBV buffer, bounds bitrate bursts
//!   BRAIDPIPE_SINK_SYNC     1/0, clock-sync the network sink
//!   BRAIDPIPE_SRT_LATENCY_MS  latency budget of the SRT sink
//!   BRAIDPIPE_SRT_WAIT_FOR_CONNECTION  1/0, block until a caller connects
//!   BRAIDPIPE_AUDIO_ENCODER      AAC encoder element (default avenc_aac)
//!   BRAIDPIPE_AUDIO_BITRATE_KBPS audio target bitrate (default 128)
//!   BRAIDPIPE_AUDIO_BRANCH       replace the generated audio branch outright

use crate::double::times_nearest;
#[allow(unused_imports)]
use crate::double::{double_of, law_powers_of_two_multiply_exactly, product_nearest};
#[allow(unused_imports)]
use crate::fsm::rate;
use crate::text::{
    chars_of, last_position, parse_unsigned, push_bool, push_decimal, same_text, starts_with,
};
#[allow(unused_imports)]
use crate::text::{
    all_digits, bool_text, decimal, ends_with, has_prefix, has_substring, is_digit,
    law_numerals_read_back, lemma_ends_with, lemma_never_follows_sum, lemma_stands,
    lemma_stands_before, lemma_stands_behind, lemma_substring_between, lemma_substring_of_sum,
    maybe, never_follows, numeral_up_to, occurs_at, stands_between,
};
use vstd::prelude::*;

verus! {

/// The H.264 encoders a sink can be built on.
#[derive(Debug, Clone, Copy, PartialEq, Eq, Structural)]
pub enum Encoder {
    /// Software fallback, available everywhere.
    X264,
    /// Apple VideoToolbox (macOS).
    Vtenc,
    /// NVIDIA NVENC (Linux, Windows).
    Nvenc,
    /// VA-API through the modern `va` plugin (Linux).
    Va,
    /// VA-API through the legacy `vaapi` plugin (Linux).
    Vaapi,
    /// Intel QuickSync (Linux, Windows).
    Qsv,
    /// Windows Media Foundation.
    Mf,
    /// AMD AMF (Windows).
    Amf,
}

pub const PRESET_NAMES: [&'static str; 4] = ["zerolatency", "lowlatency", "balanced", "bandwidth"];

/// What can be asked for by name: detection, or any encoder.
pub const ENCODER_VALUES: [&'static str; 9] = [
    "auto",
    "x264",
    "vtenc",
    "nvenc",
    "va",
    "vaapi",
    "qsv",
    "mf",
    "amf",
];

/// The name of an encoder.
pub open spec fn encoder_name(e: Encoder) -> Seq<char> {
    match e {
        Encoder::X264 => "x264"@,
        Encoder::Vtenc => "vtenc"@,
        Encoder::Nvenc => "nvenc"@,
        Encoder::Va => "va"@,
        Encoder::Vaapi => "vaapi"@,
        Encoder::Qsv => "qsv"@,
        Encoder::Mf => "mf"@,
        Encoder::Amf => "amf"@,
    }
}

/// Whether an encoder goes by this name.
pub open spec fn is_named(name: Seq<char>, e: Option<Encoder>) -> bool {
    match e {
        Some(encoder) => encoder_name(encoder) == name,
        None => forall|encoder: Encoder| encoder_name(encoder) != name,
    }
}

impl Encoder {
    pub const NAMES: [(&'static str, Encoder); 8] = [
        ("x264", Encoder::X264),
        ("vtenc", Encoder::Vtenc),
        ("nvenc", Encoder::Nvenc),
        ("va", Encoder::Va),
        ("vaapi", Encoder::Vaapi),
        ("qsv", Encoder::Qsv),
        ("mf", Encoder::Mf),
        ("amf", Encoder::Amf),
    ];

    pub fn from_name(name: &str) -> (r: Option<Encoder>)
        ensures
            is_named(name@, r),
    {
        let mut i: usize = 0;
        while i < 8
            invariant
                i <= 8,
                forall|k: int| 0 <= k < i ==> Self::NAMES@[k].0@ != name@,
            decreases 8 - i,
        {
            let (n, encoder) = Self::NAMES[i];
            if same_text(n, name) {
                return Some(encoder);
            }
            i += 1;
        }
        None
    }
}

/// The factory whose presence in the registry stands for a hardware encoder.
pub open spec fn factory_encoder(factory: Seq<char>) -> Option<Encoder> {
    if factory == "vtenc_h264"@ {
        Some(Encoder::Vtenc)
    } else if factory == "nvh264enc"@ {
        Some(Encoder::Nvenc)
    } else if factory == "vah264enc"@ {
        Some(Encoder::Va)
    } else if factory == "vaapih264enc"@ {
        Some(Encoder::Vaapi)
    } else if factory == "qsvh264enc"@ {
        Some(Encoder::Qsv)
    } else if factory == "mfh264enc"@ {
        Some(Encoder::Mf)
    } else if factory == "amfh264enc"@ {
        Some(Encoder::Amf)
    } else {
        None
    }
}

impl Encoder {
    /// Maps a factory name reported by hardware detection.
    pub fn from_factory(factory: &str) -> (r: Option<Encoder>)
        ensures
            r == factory_encoder(factory@),
    {
        if same_text(factory, "vtenc_h264") {
            Some(Encoder::Vtenc)
        } else if same_text(factory, "nvh264enc") {
            Some(Encoder::Nvenc)
        } else if same_text(factory, "vah264enc") {
            Some(Encoder::Va)
        } else if same_text(factory, "vaapih264enc") {
            Some(Encoder::Vaapi)
        } else if same_text(factory, "qsvh264enc") {
            Some(Encoder::Qsv)
        } else if same_text(factory, "mfh264enc") {
            Some(Encoder::Mf)
        } else if same_text(factory, "amfh264enc") {
            Some(Encoder::Amf)
        } else {
            None
        }
    }

    /// The encoder's name.
    pub fn name(&self) -> (r: &'static str)
        ensures
            r@ == encoder_name(*self),
    {
        match self {
            Encoder::X264 => "x264",
            Encoder::Vtenc => "vtenc",
            Encoder::Nvenc => "nvenc",
            Encoder::Va => "va",
            Encoder::Vaapi => "vaapi",
            Encoder::Qsv => "qsv",
            Encoder::Mf => "mf",
            Encoder::Amf => "amf",
        }
    }
}

/// No two encoders share a name, so a name finds the encoder it belongs to.
pub proof fn law_encoder_names_are_distinct(a: Encoder, b: Encoder)
    ensures
        encoder_name(a) == encoder_name(b) ==> a == b,
{
    reveal_strlit("x264");
    reveal_strlit("vtenc");
    reveal_strlit("nvenc");
    reveal_strlit("va");
    reveal_strlit("vaapi");
    reveal_strlit("qsv");
    reveal_strlit("mf");
    reveal_strlit("amf");
    assert("x264"@[0] == 'x' && "vtenc"@[0] == 'v' && "nvenc"@[0] == 'n' && "va"@[0] == 'v'
        && "vaapi"@[0] == 'v' && "qsv"@[0] == 'q' && "mf"@[0] == 'm' && "amf"@[0] == 'a');
    assert("vtenc"@[1] == 't' && "va"@[1] == 'a' && "vaapi"@[1] == 'a');
    assert("va"@.len() == 2 && "vaapi"@.len() == 5);
}

/// What can be asked for by name is detection and every encoder, in order.
pub proof fn law_encoder_values_follow_the_names(i: int)
    requires
        0 <= i < 8,
    ensures
        ENCODER_VALUES@[0]@ == "auto"@,
        ENCODER_VALUES@[i + 1]@ == Encoder::NAMES@[i].0@,
        encoder_name(Encoder::NAMES@[i].1) == Encoder::NAMES@[i].0@,
        ENCODER_VALUES@.len() == Encoder::NAMES@.len() + 1,
{
}

/// Every encoder that detection can report is one the presets know.
pub proof fn law_detected_encoders_are_known(platform: crate::hwaccel::Platform, i: int)
    requires
        0 <= i < crate::hwaccel::encoders_of(platform).len(),
    ensures
        factory_encoder(crate::hwaccel::encoders_of(platform)[i]@) is Some,
{
    let names = crate::hwaccel::encoders_of(platform);
    match platform {
        crate::hwaccel::Platform::MacOs => {
            assert(names[0]@ == "vtenc_h264"@);
        },
        crate::hwaccel::Platform::Linux => {
            assert(names[0]@ == "nvh264enc"@ && names[1]@ == "vah264enc"@ && names[2]@
                == "qsvh264enc"@ && names[3]@ == "vaapih264enc"@);
        },
        crate::hwaccel::Platform::Windows => {
            assert(names[0]@ == "nvh264enc"@ && names[1]@ == "qsvh264enc"@ && names[2]@
                == "amfh264enc"@ && names[3]@ == "mfh264enc"@);
        },
        crate::hwaccel::Platform::Other => {},
    }
}

/// Everything a profile decides.
#[derive(Debug, Clone, PartialEq)]
pub struct Params {
    pub encoder: Encoder,
    pub speed_preset: String,
    /// No B-frames and no lookahead: costs compression efficiency, saves
    /// several frame times of encoder delay.
    pub zerolatency: bool,
    pub bitrate_kbps: u32,
    /// The keyframe interval, as the bit pattern of its seconds.
    pub gop_seconds: u64,
    /// How far above the target the encoder may burst, in milliseconds.
    pub vbv_buf_ms: u32,
    /// Whether the sink holds buffers back to the clock.
    pub sync: bool,
    pub srt_latency_ms: u32,
    /// Whether an SRT sink holds the pipeline until a caller connects.
    pub srt_wait_for_connection: bool,
}

/// The contents of [`Params`].
pub struct Profile {
    pub encoder: Encoder,
    pub speed_preset: Seq<char>,
    pub zerolatency: bool,
    pub bitrate_kbps: u32,
    pub gop_seconds: u64,
    pub vbv_buf_ms: u32,
    pub sync: bool,
    pub srt_latency_ms: u32,
    pub srt_wait_for_connection: bool,
}

impl View for Params {
    type V = Profile;

    open spec fn view(&self) -> Profile {
        Profile {
            encoder: self.encoder,
            speed_preset: self.speed_preset@,
            zerolatency: self.zerolatency,
            bitrate_kbps: self.bitrate_kbps,
            gop_seconds: self.gop_seconds,
            vbv_buf_ms: self.vbv_buf_ms,
            sync: self.sync,
            srt_latency_ms: self.srt_latency_ms,
            srt_wait_for_connection: self.srt_wait_for_connection,
        }
    }
}

/// Bit patterns of 1, 2 and 4 seconds.
pub const ONE_SECOND: u64 = 0x3ff0_0000_0000_0000;

pub const TWO_SECONDS: u64 = 0x4000_0000_0000_0000;

pub const FOUR_SECONDS: u64 = 0x4010_0000_0000_0000;

/// The defaults of a preset. Bitrates assume 720p30.
pub open spec fn preset_profile(preset: Seq<char>) -> Option<Profile> {
    if preset == "zerolatency"@ {
        Some(
            Profile {
                encoder: Encoder::X264,
                speed_preset: "ultrafast"@,
                zerolatency: true,
                bitrate_kbps: 6000,
                gop_seconds: ONE_SECOND,
                vbv_buf_ms: 100,
                sync: false,
                srt_latency_ms: 50,
                srt_wait_for_connection: false,
            },
        )
    } else if preset == "lowlatency"@ {
        Some(
            Profile {
                encoder: Encoder::X264,
                speed_preset: "veryfast"@,
                zerolatency: true,
                bitrate_kbps: 4500,
                gop_seconds: TWO_SECONDS,
                vbv_buf_ms: 200,
                sync: false,
                srt_latency_ms: 125,
                srt_wait_for_connection: false,
            },
        )
    } else if preset == "balanced"@ {
        Some(
            Profile {
                encoder: Encoder::X264,
                speed_preset: "medium"@,
                zerolatency: true,
                bitrate_kbps: 3000,
                gop_seconds: TWO_SECONDS,
                vbv_buf_ms: 500,
                sync: false,
                srt_latency_ms: 250,
                srt_wait_for_connection: false,
            },
        )
    } else if preset == "bandwidth"@ {
        Some(
            Profile {
                encoder: Encoder::X264,
                speed_preset: "slow"@,
                zerolatency: false,
                bitrate_kbps: 1800,
                gop_seconds: FOUR_SECONDS,
                vbv_buf_ms: 1000,
                sync: true,
                srt_latency_ms: 500,
                srt_wait_for_connection: false,
            },
        )
    } else {
        None
    }
}

/// The defaults of a preset, if there is one of that name.
pub fn defaults(preset: &str) -> (r: Option<Params>)
    ensures
        match r {
            Some(p) => preset_profile(preset@) == Some(p@),
            None => preset_profile(preset@) is None,
        },
{
    if same_text(preset, "zerolatency") {
        // Every latency lever pulled, bandwidth pays for it.
        Some(
            Params {
                encoder: Encoder::X264,
                speed_preset: "ultrafast".to_owned(),
                zerolatency: true,
                bitrate_kbps: 6000,
                gop_seconds: ONE_SECOND,
                vbv_buf_ms: 100,
                sync: false,
                srt_latency_ms: 50,
                srt_wait_for_connection: false,
            },
        )
    } else if same_text(preset, "lowlatency") {
        Some(
            Params {
                encoder: Encoder::X264,
                speed_preset: "veryfast".to_owned(),
                zerolatency: true,
                bitrate_kbps: 4500,
                gop_seconds: TWO_SECONDS,
                vbv_buf_ms: 200,
                sync: false,
                srt_latency_ms: 125,
                srt_wait_for_connection: false,
            },
        )
    } else if same_text(preset, "balanced") {
        Some(
            Params {
                encoder: Encoder::X264,
                speed_preset: "medium".to_owned(),
                zerolatency: true,
                bitrate_kbps: 3000,
                gop_seconds: TWO_SECONDS,
                vbv_buf_ms: 500,
                sync: false,
                srt_latency_ms: 250,
                srt_wait_for_connection: false,
            },
        )
    } else if same_text(preset, "bandwidth") {
        // Minimum bits for the quality: B-frames and lookahead come back.
        Some(
            Params {
                encoder: Encoder::X264,
                speed_preset: "slow".to_owned(),
                zerolatency: false,
                bitrate_kbps: 1800,
                gop_seconds: FOUR_SECONDS,
                vbv_buf_ms: 1000,
                sync: true,
                srt_latency_ms: 500,
                srt_wait_for_connection: false,
            },
        )
    } else {
        None
    }
}

/// A keyframe interval from the environment: its text, and the bit pattern of
/// the seconds it denotes, if it denotes any.
#[derive(Debug)]
pub struct GopOverride {
    pub text: String,
    pub seconds: Option<u64>,
}

/// The environment's overrides of a preset. What is not set is `None`.
#[derive(Debug)]
pub struct Overrides {
    pub encoder: Option<String>,
    pub speed_preset: Option<String>,
    pub zerolatency: Option<String>,
    pub bitrate_kbps: Option<String>,
    pub gop_seconds: Option<GopOverride>,
    pub vbv_buf_ms: Option<String>,
    pub sink_sync: Option<String>,
    pub srt_latency_ms: Option<String>,
    pub srt_wait_for_connection: Option<String>,
}

/// An environment that overrides nothing.
pub open spec fn no_overrides() -> Overrides {
    Overrides {
        encoder: None,
        speed_preset: None,
        zerolatency: None,
        bitrate_kbps: None,
        gop_seconds: None,
        vbv_buf_ms: None,
        sink_sync: None,
        srt_latency_ms: None,
        srt_wait_for_connection: None,
    }
}

/// Whether the overrides are those of an environment.
pub open spec fn read_from<E: Fn(&str) -> Option<String>, S: Fn(&str) -> Option<u64>>(
    env: E,
    seconds: S,
    r: Overrides,
) -> bool {
    &&& call_ensures(env, ("BRAIDPIPE_ENCODER",), r.encoder)
    &&& call_ensures(env, ("BRAIDPIPE_SPEED_PRESET",), r.speed_preset)
    &&& call_ensures(env, ("BRAIDPIPE_ZEROLATENCY",), r.zerolatency)
    &&& call_ensures(env, ("BRAIDPIPE_BITRATE_KBPS",), r.bitrate_kbps)
    &&& exists|gop: Option<String>|
        {
            &&& #[trigger] call_ensures(env, ("BRAIDPIPE_GOP_SECONDS",), gop)
            &&& match (gop, r.gop_seconds) {
                (Some(text), Some(g)) => g.text == text && exists|t: &str|
                    t@ == text@ && #[trigger] call_ensures(seconds, (t,), g.seconds),
                (None, None) => true,
                _ => false,
            }
        }
    &&& call_ensures(env, ("BRAIDPIPE_VBV_BUF_MS",), r.vbv_buf_ms)
    &&& call_ensures(env, ("BRAIDPIPE_SINK_SYNC",), r.sink_sync)
    &&& call_ensures(env, ("BRAIDPIPE_SRT_LATENCY_MS",), r.srt_latency_ms)
    &&& call_ensures(env, ("BRAIDPIPE_SRT_WAIT_FOR_CONNECTION",), r.srt_wait_for_connection)
}

/// A variable of the environment sets the override that it is named after and
/// no other, to what the variable holds.
pub proof fn law_variables_set_their_overrides<
    E: Fn(&str) -> Option<String>,
    S: Fn(&str) -> Option<u64>,
>(env: E, seconds: S, r: Overrides, name: Seq<char>, value: String)
    requires
        read_from(env, seconds, r),
        forall|key: &str, v: Option<String>|
            #![trigger call_ensures(env, (key,), v)]
            call_ensures(env, (key,), v) ==> v == if key@ == name {
                Some(value)
            } else {
                None
            },
    ensures
        r.encoder == if name == "BRAIDPIPE_ENCODER"@ {
            Some(value)
        } else {
            None
        },
        r.speed_preset == if name == "BRAIDPIPE_SPEED_PRESET"@ {
            Some(value)
        } else {
            None
        },
        r.zerolatency == if name == "BRAIDPIPE_ZEROLATENCY"@ {
            Some(value)
        } else {
            None
        },
        r.bitrate_kbps == if name == "BRAIDPIPE_BITRATE_KBPS"@ {
            Some(value)
        } else {
            None
        },
        r.gop_seconds is Some <==> name == "BRAIDPIPE_GOP_SECONDS"@,
        r.gop_seconds is Some ==> r.gop_seconds->0.text == value,
        r.vbv_buf_ms == if name == "BRAIDPIPE_VBV_BUF_MS"@ {
            Some(value)
        } else {
            None
        },
        r.sink_sync == if name == "BRAIDPIPE_SINK_SYNC"@ {
            Some(value)
        } else {
            None
        },
        r.srt_latency_ms == if name == "BRAIDPIPE_SRT_LATENCY_MS"@ {
            Some(value)
        } else {
            None
        },
        r.srt_wait_for_connection == if name == "BRAIDPIPE_SRT_WAIT_FOR_CONNECTION"@ {
            Some(value)
        } else {
            None
        },
{
    let gop = choose|gop: Option<String>|
        {
            &&& #[trigger] call_ensures(env, ("BRAIDPIPE_GOP_SECONDS",), gop)
            &&& match (gop, r.gop_seconds) {
                (Some(text), Some(g)) => g.text == text && exists|t: &str|
                    t@ == text@ && #[trigger] call_ensures(seconds, (t,), g.seconds),
                (None, None) => true,
                _ => false,
            }
        };
    assert(call_ensures(env, ("BRAIDPIPE_GOP_SECONDS",), gop));
}

impl Overrides {
    /// Reads the overrides from an environment. `seconds` turns the text of a
    /// fractional number into the bit pattern of its value.
    pub fn from_env<E: Fn(&str) -> Option<String>, S: Fn(&str) -> Option<u64>>(
        env: E,
        seconds: S,
    ) -> (r: Overrides)
        requires
            forall|key: &str| call_requires(env, (key,)),
            forall|text: &str| call_requires(seconds, (text,)),
        ensures
            read_from(env, seconds, r),
    {
        let gop = env("BRAIDPIPE_GOP_SECONDS");
        let gop_seconds = match gop {
            Some(text) => {
                let bits = seconds(text.as_str());
                Some(GopOverride { text, seconds: bits })
            },
            None => None,
        };
        Overrides {
            encoder: env("BRAIDPIPE_ENCODER"),
            speed_preset: env("BRAIDPIPE_SPEED_PRESET"),
            zerolatency: env("BRAIDPIPE_ZEROLATENCY"),
            bitrate_kbps: env("BRAIDPIPE_BITRATE_KBPS"),
            gop_seconds,
            vbv_buf_ms: env("BRAIDPIPE_VBV_BUF_MS"),
            sink_sync: env("BRAIDPIPE_SINK_SYNC"),
            srt_latency_ms: env("BRAIDPIPE_SRT_LATENCY_MS"),
            srt_wait_for_connection: env("BRAIDPIPE_SRT_WAIT_FOR_CONNECTION"),
        }
    }
}

/// The truth value that a word stands for.
pub open spec fn bool_word(value: Seq<char>) -> Option<bool> {
    if value == "1"@ || value == "true"@ || value == "yes"@ {
        Some(true)
    } else if value == "0"@ || value == "false"@ || value == "no"@ {
        Some(false)
    } else {
        None
    }
}

/// The complaint about a word that is no truth value.
pub open spec fn not_a_bool(key: Seq<char>, value: Seq<char>) -> Seq<char> {
    key + " must be a boolean (1/0/true/false), got '"@ + value + "'"@
}

/// The complaint about a text that is no number.
pub open spec fn not_a_number(key: Seq<char>, value: Seq<char>) -> Seq<char> {
    key + ": could not parse '"@ + value + "'"@
}

/// What a result says, with its error by view.
pub open spec fn said<T>(r: Result<T, String>) -> Result<T, Seq<char>> {
    match r {
        Ok(v) => Ok(v),
        Err(e) => Err(e@),
    }
}

pub fn parse_bool(key: &str, value: &str) -> (r: Result<bool, String>)
    ensures
        said(r) == match bool_word(value@) {
            Some(b) => Ok::<bool, Seq<char>>(b),
            None => Err(not_a_bool(key@, value@)),
        },
{
    if same_text(value, "1") || same_text(value, "true") || same_text(value, "yes") {
        Ok(true)
    } else if same_text(value, "0") || same_text(value, "false") || same_text(value, "no") {
        Ok(false)
    } else {
        let mut text = key.to_owned();
        text.append(" must be a boolean (1/0/true/false), got '");
        text.append(value);
        text.append("'");
        Err(text)
    }
}

/// Reads a number of at most 32 bits.
pub fn parse_num(key: &str, value: &str) -> (r: Result<u32, String>)
    ensures
        said(r) == match numeral_up_to(value@, u32::MAX as nat) {
            Some(n) => Ok::<u32, Seq<char>>(n as u32),
            None => Err(not_a_number(key@, value@)),
        },
{
    match parse_unsigned(value, u32::MAX as u64) {
        Some(n) => Ok(n as u32),
        None => Err(unparsable(key, value)),
    }
}

fn unparsable(key: &str, value: &str) -> (r: String)
    ensures
        r@ == not_a_number(key@, value@),
{
    let mut text = key.to_owned();
    text.append(": could not parse '");
    text.append(value);
    text.append("'");
    text
}

/// An override of a truth value.
pub open spec fn bool_setting(key: Seq<char>, value: Option<String>, default: bool) -> Result<
    bool,
    Seq<char>,
> {
    match value {
        None => Ok(default),
        Some(v) => match bool_word(v@) {
            Some(b) => Ok(b),
            None => Err(not_a_bool(key, v@)),
        },
    }
}

/// An override of a number.
pub open spec fn num_setting(key: Seq<char>, value: Option<String>, default: u32) -> Result<
    u32,
    Seq<char>,
> {
    match value {
        None => Ok(default),
        Some(v) => match numeral_up_to(v@, u32::MAX as nat) {
            Some(n) => Ok(n as u32),
            None => Err(not_a_number(key, v@)),
        },
    }
}

/// An override of the keyframe interval.
pub open spec fn gop_setting(value: Option<GopOverride>, default: u64) -> Result<u64, Seq<char>> {
    match value {
        None => Ok(default),
        Some(v) => match v.seconds {
            Some(bits) => Ok(bits),
            None => Err(not_a_number("BRAIDPIPE_GOP_SECONDS"@, v.text@)),
        },
    }
}

/// An override of the speed preset, in the encoder's own vocabulary.
pub open spec fn text_setting(value: Option<String>, default: Seq<char>) -> Seq<char> {
    match value {
        None => default,
        Some(v) => v@,
    }
}

/// The complaint about an encoder from the environment.
pub open spec fn no_such_encoder(value: Seq<char>) -> Seq<char> {
    "BRAIDPIPE_ENCODER must be one of auto, x264, vtenc, nvenc, va, vaapi, qsv, mf, amf; got '"@
        + value + "'"@
}

/// The complaint about an encoder from the command line.
pub open spec fn no_such_encoder_flag(value: Seq<char>) -> Seq<char> {
    "--encoder must be one of auto, x264, vtenc, nvenc, va, vaapi, qsv, mf, amf; got '"@ + value
        + "'"@
}

/// The encoder of that name.
pub open spec fn named_encoder(name: Seq<char>) -> Option<Encoder> {
    if exists|e: Encoder| encoder_name(e) == name {
        Some(choose|e: Encoder| encoder_name(e) == name)
    } else {
        None
    }
}

/// An override of the encoder; `auto` leaves the choice to detection.
pub open spec fn encoder_setting(value: Option<String>, default: Encoder) -> Result<
    Encoder,
    Seq<char>,
> {
    match value {
        None => Ok(default),
        Some(v) => if v@ == "auto"@ {
            Ok(default)
        } else {
            match named_encoder(v@) {
                Some(e) => Ok(e),
                None => Err(no_such_encoder(v@)),
            }
        },
    }
}

proof fn lemma_named(name: Seq<char>, e: Option<Encoder>)
    requires
        is_named(name, e),
    ensures
        named_encoder(name) == e,
{
    match e {
        Some(encoder) => {
            let found = choose|x: Encoder| encoder_name(x) == name;
            assert(encoder_name(encoder) == name);
            law_encoder_names_are_distinct(encoder, found);
        },
        None => {},
    }
}

/// The complaint about a preset that does not exist.
pub open spec fn no_such_preset(preset: Seq<char>) -> Seq<char> {
    "unknown preset '"@ + preset
        + "' (expected one of: zerolatency, lowlatency, balanced, bandwidth)"@
}

/// A preset with the environment's overrides applied. The first override that
/// does not make sense is the error.
pub open spec fn resolved(preset: Seq<char>, env: Overrides) -> Result<Profile, Seq<char>> {
    match preset_profile(preset) {
        None => Err(no_such_preset(preset)),
        Some(p) => match (
            encoder_setting(env.encoder, p.encoder),
            bool_setting("BRAIDPIPE_ZEROLATENCY"@, env.zerolatency, p.zerolatency),
            num_setting("BRAIDPIPE_BITRATE_KBPS"@, env.bitrate_kbps, p.bitrate_kbps),
            gop_setting(env.gop_seconds, p.gop_seconds),
            num_setting("BRAIDPIPE_VBV_BUF_MS"@, env.vbv_buf_ms, p.vbv_buf_ms),
            bool_setting("BRAIDPIPE_SINK_SYNC"@, env.sink_sync, p.sync),
            num_setting("BRAIDPIPE_SRT_LATENCY_MS"@, env.srt_latency_ms, p.srt_latency_ms),
            bool_setting(
                "BRAIDPIPE_SRT_WAIT_FOR_CONNECTION"@,
                env.srt_wait_for_connection,
                p.srt_wait_for_connection,
            ),
        ) {
            (Err(e), _, _, _, _, _, _, _) => Err(e),
            (_, Err(e), _, _, _, _, _, _) => Err(e),
            (_, _, Err(e), _, _, _, _, _) => Err(e),
            (_, _, _, Err(e), _, _, _, _) => Err(e),
            (_, _, _, _, Err(e), _, _, _) => Err(e),
            (_, _, _, _, _, Err(e), _, _) => Err(e),
            (_, _, _, _, _, _, Err(e), _) => Err(e),
            (_, _, _, _, _, _, _, Err(e)) => Err(e),
            (
                Ok(encoder),
                Ok(zerolatency),
                Ok(bitrate_kbps),
                Ok(gop_seconds),
                Ok(vbv_buf_ms),
                Ok(sync),
                Ok(srt_latency_ms),
                Ok(srt_wait_for_connection),
            ) => Ok(
                Profile {
                    encoder,
                    speed_preset: text_setting(env.speed_preset, p.speed_preset),
                    zerolatency,
                    bitrate_kbps,
                    gop_seconds,
                    vbv_buf_ms,
                    sync,
                    srt_latency_ms,
                    srt_wait_for_connection,
                },
            ),
        },
    }
}

/// What a result says, parameters and error by view.
pub open spec fn profile_of(r: Result<Params, String>) -> Result<Profile, Seq<char>> {
    match r {
        Ok(p) => Ok(p@),
        Err(e) => Err(e@),
    }
}

fn override_bool(key: &str, value: &Option<String>, default: bool) -> (r: Result<bool, String>)
    ensures
        said(r) == bool_setting(key@, *value, default),
{
    match value {
        None => Ok(default),
        Some(v) => parse_bool(key, v.as_str()),
    }
}

fn override_num(key: &str, value: &Option<String>, default: u32) -> (r: Result<u32, String>)
    ensures
        said(r) == num_setting(key@, *value, default),
{
    match value {
        None => Ok(default),
        Some(v) => parse_num(key, v.as_str()),
    }
}

fn override_gop(value: &Option<GopOverride>, default: u64) -> (r: Result<u64, String>)
    ensures
        said(r) == gop_setting(*value, default),
{
    match value {
        None => Ok(default),
        Some(v) => match v.seconds {
            Some(bits) => Ok(bits),
            None => Err(unparsable("BRAIDPIPE_GOP_SECONDS", v.text.as_str())),
        },
    }
}

fn override_encoder(value: &Option<String>, default: Encoder) -> (r: Result<Encoder, String>)
    ensures
        said(r) == encoder_setting(*value, default),
{
    match value {
        None => Ok(default),
        Some(v) => {
            // "auto" keeps the default; detection may still replace it.
            if same_text(v.as_str(), "auto") {
                return Ok(default);
            }
            let found = Encoder::from_name(v.as_str());
            proof {
                lemma_named(v@, found);
            }
            match found {
                Some(e) => Ok(e),
                None => {
                    let mut text =
                        "BRAIDPIPE_ENCODER must be one of auto, x264, vtenc, nvenc, va, vaapi, qsv, mf, amf; got '".to_owned();
                    text.append(v.as_str());
                    text.append("'");
                    Err(text)
                },
            }
        },
    }
}

/// Applies the environment's overrides on top of a preset's defaults.
pub fn resolve(preset: &str, env: &Overrides) -> (r: Result<Params, String>)
    ensures
        profile_of(r) == resolved(preset@, *env),
{
    resolve_with(preset, &env.encoder, env)
}

/// The same with an override of the encoder in place of the environment's.
fn resolve_with(preset: &str, encoder: &Option<String>, env: &Overrides) -> (r: Result<
    Params,
    String,
>)
    ensures
        profile_of(r) == resolved(preset@, Overrides { encoder: *encoder, ..*env }),
{
    let p = match defaults(preset) {
        Some(p) => p,
        None => {
            let mut text = "unknown preset '".to_owned();
            text.append(preset);
            text.append("' (expected one of: zerolatency, lowlatency, balanced, bandwidth)");
            return Err(text);
        },
    };
    let encoder = match override_encoder(encoder, p.encoder) {
        Ok(v) => v,
        Err(e) => {
            return Err(e);
        },
    };
    let speed_preset = match &env.speed_preset {
        Some(v) => v.clone(),
        None => p.speed_preset,
    };
    let zerolatency = match override_bool("BRAIDPIPE_ZEROLATENCY", &env.zerolatency, p.zerolatency) {
        Ok(v) => v,
        Err(e) => {
            return Err(e);
        },
    };
    let bitrate_kbps: u32 = match override_num(
        "BRAIDPIPE_BITRATE_KBPS",
        &env.bitrate_kbps,
        p.bitrate_kbps,
    ) {
        Ok(v) => v,
        Err(e) => {
            return Err(e);
        },
    };
    let gop_seconds: u64 = match override_gop(&env.gop_seconds, p.gop_seconds) {
        Ok(v) => v,
        Err(e) => {
            return Err(e);
        },
    };
    let vbv_buf_ms: u32 = match override_num("BRAIDPIPE_VBV_BUF_MS", &env.vbv_buf_ms, p.vbv_buf_ms) {
        Ok(v) => v,
        Err(e) => {
            return Err(e);
        },
    };
    let sync = match override_bool("BRAIDPIPE_SINK_SYNC", &env.sink_sync, p.sync) {
        Ok(v) => v,
        Err(e) => {
            return Err(e);
        },
    };
    let srt_latency_ms: u32 = match override_num(
        "BRAIDPIPE_SRT_LATENCY_MS",
        &env.srt_latency_ms,
        p.srt_latency_ms,
    ) {
        Ok(v) => v,
        Err(e) => {
            return Err(e);
        },
    };
    let srt_wait_for_connection = match override_bool(
        "BRAIDPIPE_SRT_WAIT_FOR_CONNECTION",
        &env.srt_wait_for_connection,
        p.srt_wait_for_connection,
    ) {
        Ok(v) => v,
        Err(e) => {
            return Err(e);
        },
    };
    Ok(
        Params {
            encoder,
            speed_preset,
            zerolatency,
            bitrate_kbps,
            gop_seconds,
            vbv_buf_ms,
            sync,
            srt_latency_ms,
            srt_wait_for_connection,
        },
    )
}

/// The keyframe interval in frames, at least one.
pub open spec fn keyframe_interval(p: Profile, fps: u32) -> nat {
    let frames = product_nearest(double_of(p.gop_seconds), rate(fps), u32::MAX as nat);
    if frames == 0 {
        1
    } else {
        frames
    }
}

/// Whether the encoder takes its burst bound in kilobits.
pub open spec fn takes_buffer_bits(e: Encoder) -> bool {
    e == Encoder::Nvenc || e == Encoder::Va
}

/// Whether the burst bound can be computed within 32 bits.
pub open spec fn buffer_fits(p: Profile) -> bool {
    takes_buffer_bits(p.encoder) ==> p.bitrate_kbps * p.vbv_buf_ms <= u32::MAX
}

/// The burst bound in kilobits.
pub open spec fn buffer_kbits(p: Profile) -> nat {
    (p.bitrate_kbps * p.vbv_buf_ms / 1000) as nat
}

pub open spec fn choice(b: bool, yes: Seq<char>, no: Seq<char>) -> Seq<char> {
    if b {
        yes
    } else {
        no
    }
}

/// The encoder element with its settings. Every encoder takes its rate in
/// kbps; each has its own name for the keyframe interval and its own shape of
/// low-latency switch.
pub open spec fn encoder_text(p: Profile, keyint: nat) -> Seq<char> {
    let bitrate = decimal(p.bitrate_kbps as nat);
    match p.encoder {
        Encoder::X264 => "x264enc speed-preset="@ + p.speed_preset + choice(
            p.zerolatency,
            " tune=zerolatency"@,
            ""@,
        ) + " bitrate="@ + bitrate + " key-int-max="@ + decimal(keyint) + " vbv-buf-capacity="@
            + decimal(p.vbv_buf_ms as nat),
        Encoder::Vtenc => "vtenc_h264 realtime="@ + bool_text(p.zerolatency)
            + " allow-frame-reordering="@ + bool_text(!p.zerolatency) + " bitrate="@ + bitrate
            + " max-keyframe-interval="@ + decimal(keyint) + " rate-control=cbr quality=0.65"@,
        Encoder::Nvenc => "nvh264enc bitrate="@ + bitrate + " gop-size="@ + decimal(keyint)
            + " rc-mode="@ + choice(p.zerolatency, "cbr-ld-hq"@, "cbr"@) + " preset="@ + choice(
            p.zerolatency,
            "low-latency-hq"@,
            "hq"@,
        ) + " vbv-buffer-size="@ + decimal(buffer_kbits(p)) + choice(
            p.zerolatency,
            " b-adapt=false bframes=0 zerolatency=true"@,
            ""@,
        ) + " ! video/x-h264,profile=high"@,
        Encoder::Va => "vah264enc bitrate="@ + bitrate + " key-int-max="@ + decimal(keyint)
            + " target-usage="@ + choice(p.zerolatency, "6"@, "4"@) + " cpb-size="@ + decimal(
            buffer_kbits(p),
        ),
        Encoder::Vaapi => "vaapih264enc bitrate="@ + bitrate + " keyframe-period="@ + decimal(
            keyint,
        ),
        Encoder::Qsv => "qsvh264enc bitrate="@ + bitrate + " gop-size="@ + decimal(keyint)
            + " low-latency="@ + bool_text(p.zerolatency),
        Encoder::Mf => "mfh264enc bitrate="@ + bitrate + " gop-size="@ + decimal(keyint)
            + " low-latency="@ + bool_text(p.zerolatency),
        Encoder::Amf => "amfh264enc bitrate="@ + bitrate + " gop-size="@ + decimal(keyint)
            + " usage="@ + choice(p.zerolatency, "ultra-low-latency"@, "transcoding"@),
    }
}

/// Whether the last colon of `rest` stands at `i`, behind a host and before
/// a port of digits.
pub open spec fn host_ends_at(rest: Seq<char>, i: int) -> bool {
    &&& 0 < i < rest.len()
    &&& rest[i] == ':'
    &&& forall|j: int| i < j < rest.len() ==> rest[j] != ':'
    &&& all_digits(rest.skip(i + 1))
}

/// The host and the port of a UDP output.
pub open spec fn udp_target(rest: Seq<char>) -> Option<(Seq<char>, Seq<char>)> {
    if exists|i: int| host_ends_at(rest, i) {
        let i = choose|i: int| host_ends_at(rest, i);
        Some((rest.take(i), rest.skip(i + 1)))
    } else {
        None
    }
}

/// The muxer and the sink for an output. The muxer is always named `mux`, so
/// that an audio branch can link to it.
pub open spec fn output_text(p: Profile, output: Seq<char>) -> Result<Seq<char>, Seq<char>> {
    if has_prefix(output, "rtmp://"@) {
        Ok(
            "flvmux name=mux streamable=true ! rtmp2sink sync="@ + bool_text(p.sync) + " location="@
                + output,
        )
    } else if has_prefix(output, "srt://"@) {
        Ok(
            "mpegtsmux name=mux alignment=7 ! queue max-size-buffers=3 leaky=downstream ! srtsink sync="@
                + bool_text(p.sync) + " wait-for-connection="@ + bool_text(
                p.srt_wait_for_connection,
            ) + " latency="@ + decimal(p.srt_latency_ms as nat) + " uri="@ + output,
        )
    } else if has_prefix(output, "udp://"@) {
        match udp_target(output.skip(6)) {
            Some((host, port)) => Ok(
                "mpegtsmux name=mux alignment=7 ! udpsink sync="@ + bool_text(p.sync) + " host="@
                    + host + " port="@ + port,
            ),
            None => Err("udp output must be udp://host:port, got '"@ + output + "'"@),
        }
    } else {
        Err(
            "unsupported output '"@ + output
                + "' (expected rtmp://, srt:// or udp://host:port)"@,
        )
    }
}

/// The raw format handed to the encoder: planar for x264, biplanar for the
/// hardware encoders.
pub open spec fn raw_format(e: Encoder) -> Seq<char> {
    if e == Encoder::X264 {
        "I420"@
    } else {
        "NV12"@
    }
}

/// The sink description of a profile.
pub open spec fn sink_text(p: Profile, output: Seq<char>, fps: u32) -> Result<
    Seq<char>,
    Seq<char>,
> {
    match output_text(p, output) {
        Ok(mux_and_sink) => Ok(
            "videoconvert ! video/x-raw,format="@ + raw_format(p.encoder) + " ! "@ + encoder_text(
                p,
                keyframe_interval(p, fps),
            ) + " ! h264parse config-interval=-1 ! "@ + mux_and_sink,
        ),
        Err(e) => Err(e),
    }
}

/// What a result says, both sides by view.
pub open spec fn text_of(r: Result<String, String>) -> Result<Seq<char>, Seq<char>> {
    match r {
        Ok(s) => Ok(s@),
        Err(e) => Err(e@),
    }
}

fn pick(b: bool, yes: &'static str, no: &'static str) -> (r: &'static str)
    ensures
        r@ == choice(b, yes@, no@),
{
    if b {
        yes
    } else {
        no
    }
}

fn render_encoder(p: &Params, keyint: u64) -> (r: String)
    requires
        buffer_fits(p@),
    ensures
        r@ == encoder_text(p@, keyint as nat),
{
    let bitrate: u64 = p.bitrate_kbps as u64;
    match p.encoder {
        Encoder::X264 => {
            let mut e = "x264enc speed-preset=".to_owned();
            e.append(p.speed_preset.as_str());
            e.append(pick(p.zerolatency, " tune=zerolatency", ""));
            e.append(" bitrate=");
            push_decimal(&mut e, bitrate);
            e.append(" key-int-max=");
            push_decimal(&mut e, keyint);
            e.append(" vbv-buf-capacity=");
            push_decimal(&mut e, p.vbv_buf_ms as u64);
            e
        },
        // Constant bitrate bounds bursts here; the quality setting only
        // applies if rate control is ever averaged again.
        Encoder::Vtenc => {
            let mut e = "vtenc_h264 realtime=".to_owned();
            push_bool(&mut e, p.zerolatency);
            e.append(" allow-frame-reordering=");
            push_bool(&mut e, !p.zerolatency);
            e.append(" bitrate=");
            push_decimal(&mut e, bitrate);
            e.append(" max-keyframe-interval=");
            push_decimal(&mut e, keyint);
            e.append(" rate-control=cbr quality=0.65");
            e
        },
        // The caps keep the encoder from negotiating down from high profile.
        Encoder::Nvenc => {
            let mut e = "nvh264enc bitrate=".to_owned();
            push_decimal(&mut e, bitrate);
            e.append(" gop-size=");
            push_decimal(&mut e, keyint);
            e.append(" rc-mode=");
            e.append(pick(p.zerolatency, "cbr-ld-hq", "cbr"));
            e.append(" preset=");
            e.append(pick(p.zerolatency, "low-latency-hq", "hq"));
            e.append(" vbv-buffer-size=");
            push_decimal(&mut e, (p.bitrate_kbps * p.vbv_buf_ms / 1000) as u64);
            e.append(pick(p.zerolatency, " b-adapt=false bframes=0 zerolatency=true", ""));
            e.append(" ! video/x-h264,profile=high");
            e
        },
        Encoder::Va => {
            let mut e = "vah264enc bitrate=".to_owned();
            push_decimal(&mut e, bitrate);
            e.append(" key-int-max=");
            push_decimal(&mut e, keyint);
            e.append(" target-usage=");
            e.append(pick(p.zerolatency, "6", "4"));
            e.append(" cpb-size=");
            push_decimal(&mut e, (p.bitrate_kbps * p.vbv_buf_ms / 1000) as u64);
            e
        },
        Encoder::Vaapi => {
            let mut e = "vaapih264enc bitrate=".to_owned();
            push_decimal(&mut e, bitrate);
            e.append(" keyframe-period=");
            push_decimal(&mut e, keyint);
            e
        },
        Encoder::Qsv => {
            let mut e = "qsvh264enc bitrate=".to_owned();
            push_decimal(&mut e, bitrate);
            e.append(" gop-size=");
            push_decimal(&mut e, keyint);
            e.append(" low-latency=");
            push_bool(&mut e, p.zerolatency);
            e
        },
        Encoder::Mf => {
            let mut e = "mfh264enc bitrate=".to_owned();
            push_decimal(&mut e, bitrate);
            e.append(" gop-size=");
            push_decimal(&mut e, keyint);
            e.append(" low-latency=");
            push_bool(&mut e, p.zerolatency);
            e
        },
        Encoder::Amf => {
            let mut e = "amfh264enc bitrate=".to_owned();
            push_decimal(&mut e, bitrate);
            e.append(" gop-size=");
            push_decimal(&mut e, keyint);
            e.append(" usage=");
            e.append(pick(p.zerolatency, "ultra-low-latency", "transcoding"));
            e
        },
    }
}

fn only_digits(s: &Vec<char>, from: usize) -> (r: bool)
    requires
        from <= s@.len(),
    ensures
        r == all_digits(s@.skip(from as int)),
{
    let mut i: usize = from;
    while i < s.len()
        invariant
            from <= i <= s@.len(),
            forall|j: int| from <= j < i ==> is_digit(#[trigger] s@[j]),
        decreases s@.len() - i,
    {
        let c: char = s[i];
        if !('0' <= c && c <= '9') {
            assert(s@.skip(from as int)[i - from] == c);
            return false;
        }
        i = i + 1;
    }
    true
}

/// Finds the host and the port behind `udp://`.
fn split_udp(output: &str) -> (r: Option<(String, String)>)
    requires
        has_prefix(output@, "udp://"@),
    ensures
        match r {
            Some((host, port)) => udp_target(output@.skip(6)) == Some((host@, port@)),
            None => udp_target(output@.skip(6)) is None,
        },
{
    proof {
        reveal_strlit("udp://");
        assert("udp://"@.len() == 6);
        let s = output@.subrange(0, 6);
        assert(s == "udp://"@);
        assert(s[5] == output@[5]);
        assert("udp://"@[5] == '/');
    }
    let cs = chars_of(output);
    let ghost rest = output@.skip(6);
    let colon: usize = match last_position(&cs, ':') {
        Some(i) => i,
        None => {
            assert forall|i: int| !host_ends_at(rest, i) by {
                if host_ends_at(rest, i) {
                    assert(cs@[i + 6] == ':');
                }
            }
            return None;
        },
    };
    if colon <= 6 {
        assert forall|i: int| !host_ends_at(rest, i) by {
            if host_ends_at(rest, i) {
                assert(cs@[i + 6] == ':');
            }
        }
        return None;
    }
    let digits = only_digits(&cs, colon + 1);
    assert(rest.skip(colon - 6 + 1) =~= cs@.skip(colon + 1));
    if !digits {
        assert forall|i: int| !host_ends_at(rest, i) by {
            if host_ends_at(rest, i) {
                assert(cs@[i + 6] == ':');
                assert(rest[colon - 6] == ':');
                assert(i == colon - 6);
            }
        }
        return None;
    }
    assert(host_ends_at(rest, colon - 6)) by {
        assert forall|j: int| colon - 6 < j < rest.len() implies rest[j] != ':' by {
            assert(rest[j] == cs@[j + 6]);
        }
    }
    let end: usize = cs.len();
    let host = output.substring_char(6, colon);
    let port = output.substring_char(colon + 1, end);
    proof {
        let i = choose|i: int| host_ends_at(rest, i);
        assert(rest[i] == ':' && rest[colon - 6] == ':');
        assert(i == colon - 6);
        assert(rest.take(i) =~= host@);
        assert(rest.skip(i + 1) =~= port@);
    }
    Some((host.to_owned(), port.to_owned()))
}

fn render_output(p: &Params, output: &str) -> (r: Result<String, String>)
    ensures
        text_of(r) == output_text(p@, output@),
{
    if starts_with(output, "rtmp://") {
        let mut s = "flvmux name=mux streamable=true ! rtmp2sink sync=".to_owned();
        push_bool(&mut s, p.sync);
        s.append(" location=");
        s.append(output);
        Ok(s)
    } else if starts_with(output, "srt://") {
        // The leaky queue keeps a slow receiver from holding the encoder
        // back: packets drop at the sink instead of the stream falling behind.
        let mut s =
            "mpegtsmux name=mux alignment=7 ! queue max-size-buffers=3 leaky=downstream ! srtsink sync=".to_owned();
        push_bool(&mut s, p.sync);
        s.append(" wait-for-connection=");
        push_bool(&mut s, p.srt_wait_for_connection);
        s.append(" latency=");
        push_decimal(&mut s, p.srt_latency_ms as u64);
        s.append(" uri=");
        s.append(output);
        Ok(s)
    } else if starts_with(output, "udp://") {
        match split_udp(output) {
            Some((host, port)) => {
                let mut s = "mpegtsmux name=mux alignment=7 ! udpsink sync=".to_owned();
                push_bool(&mut s, p.sync);
                s.append(" host=");
                s.append(host.as_str());
                s.append(" port=");
                s.append(port.as_str());
                Ok(s)
            },
            None => {
                let mut s = "udp output must be udp://host:port, got '".to_owned();
                s.append(output);
                s.append("'");
                Err(s)
            },
        }
    } else {
        let mut s = "unsupported output '".to_owned();
        s.append(output);
        s.append("' (expected rtmp://, srt:// or udp://host:port)");
        Err(s)
    }
}

/// Writes the sink description of a profile for an output URL.
pub fn render(p: &Params, output: &str, fps: u32) -> (r: Result<String, String>)
    requires
        buffer_fits(p@),
    ensures
        text_of(r) == sink_text(p@, output@, fps),
{
    let per_second: u32 = if fps == 0 {
        1
    } else {
        fps
    };
    let frames: u64 = times_nearest(p.gop_seconds, per_second, u32::MAX as u64);
    let keyint: u64 = if frames == 0 {
        1
    } else {
        frames
    };
    let mux_and_sink = match render_output(p, output) {
        Ok(s) => s,
        Err(e) => {
            return Err(e);
        },
    };
    let encoder = render_encoder(p, keyint);
    let mut s = "videoconvert ! video/x-raw,format=".to_owned();
    match p.encoder {
        Encoder::X264 => {
            s.append("I420");
        },
        _ => {
            s.append("NV12");
        },
    }
    s.append(" ! ");
    s.append(encoder.as_str());
    s.append(" ! h264parse config-interval=-1 ! ");
    s.append(mux_and_sink.as_str());
    Ok(s)
}

/// Whether the encoder was asked for by name, on the command line or, with
/// nothing said there, in the environment.
pub open spec fn encoder_pinned(flag: Option<Seq<char>>, env: Overrides) -> bool {
    match flag {
        Some(name) => name != "auto"@,
        None => env.encoder is Some && env.encoder->0@ != "auto"@,
    }
}

/// What of the environment counts beside the command line: an encoder asked
/// for there, by name or as `auto`, overrides the environment's.
pub open spec fn env_beside(flag: Option<Seq<char>>, env: Overrides) -> Overrides {
    match flag {
        Some(_) => Overrides { encoder: None, ..env },
        None => env,
    }
}

/// The profile a sink is built from. A named encoder on the command line
/// wins. With nothing pinned, what detection found replaces the default.
pub open spec fn sink_profile(
    preset: Seq<char>,
    flag: Option<Seq<char>>,
    env: Overrides,
    detected: Option<Seq<char>>,
) -> Result<Profile, Seq<char>> {
    match resolved(preset, env_beside(flag, env)) {
        Err(e) => Err(e),
        Ok(p) => if encoder_pinned(flag, env) {
            match flag {
                Some(name) => match named_encoder(name) {
                    Some(e) => Ok(Profile { encoder: e, ..p }),
                    None => Err(no_such_encoder_flag(name)),
                },
                None => Ok(p),
            }
        } else {
            match detected {
                Some(factory) => match factory_encoder(factory) {
                    Some(e) => Ok(Profile { encoder: e, ..p }),
                    None => Ok(p),
                },
                None => Ok(p),
            }
        },
    }
}

/// Resolves the profile that a sink is built from.
pub fn resolve_sink(
    preset: &str,
    encoder: Option<&str>,
    env: &Overrides,
    detected: Option<&str>,
) -> (r: Result<Params, String>)
    ensures
        profile_of(r) == sink_profile(preset@, maybe(encoder), *env, maybe(detected)),
{
    let resolved = match encoder {
        Some(_) => resolve_with(preset, &None, env),
        None => resolve(preset, env),
    };
    let mut params = match resolved {
        Ok(p) => p,
        Err(e) => {
            return Err(e);
        },
    };
    let pinned: bool = match encoder {
        Some(name) => if same_text(name, "auto") {
            false
        } else {
            let found = Encoder::from_name(name);
            proof {
                lemma_named(name@, found);
            }
            match found {
                Some(e) => {
                    params.encoder = e;
                    true
                },
                None => {
                    let mut text =
                        "--encoder must be one of auto, x264, vtenc, nvenc, va, vaapi, qsv, mf, amf; got '".to_owned();
                    text.append(name);
                    text.append("'");
                    return Err(text);
                },
            }
        },
        None => match &env.encoder {
            Some(v) => !same_text(v.as_str(), "auto"),
            None => false,
        },
    };
    if !pinned {
        if let Some(factory) = detected {
            if let Some(e) = Encoder::from_factory(factory) {
                params.encoder = e;
            }
        }
    }
    Ok(params)
}

/// Whether the burst bound of a profile can be computed within 32 bits.
pub fn buffer_in_range(p: &Params) -> (r: bool)
    ensures
        r == buffer_fits(p@),
{
    match p.encoder {
        Encoder::Nvenc | Encoder::Va => {
            assert(p.bitrate_kbps * p.vbv_buf_ms <= 0xffff_ffff * 0xffff_ffff) by (nonlinear_arith)
                requires
                    p.bitrate_kbps <= 0xffff_ffff,
                    p.vbv_buf_ms <= 0xffff_ffff,
            ;
            p.bitrate_kbps as u64 * p.vbv_buf_ms as u64 <= u32::MAX as u64
        },
        _ => true,
    }
}

/// The sink description for a preset and an output URL.
pub open spec fn built_sink(
    preset: Seq<char>,
    output: Seq<char>,
    fps: u32,
    encoder: Option<Seq<char>>,
    env: Overrides,
    detected: Option<Seq<char>>,
) -> Result<Seq<char>, Seq<char>> {
    match sink_profile(preset, encoder, env, detected) {
        Ok(p) => sink_text(p, output, fps),
        Err(e) => Err(e),
    }
}

/// Builds the sink description for a preset and an output URL (`rtmp://`,
/// `srt://` or `udp://host:port`). `encoder` is what the command line asks
/// for, `detected` the factory of the best hardware encoder at hand.
pub fn build_sink(
    preset: &str,
    output: &str,
    fps: u32,
    encoder: Option<&str>,
    env: &Overrides,
    detected: Option<&str>,
) -> (r: Result<String, String>)
    requires
        match sink_profile(preset@, maybe(encoder), *env, maybe(detected)) {
            Ok(p) => buffer_fits(p),
            Err(_) => true,
        },
    ensures
        text_of(r) == built_sink(preset@, output@, fps, maybe(encoder), *env, maybe(detected)),
{
    match resolve_sink(preset, encoder, env, detected) {
        Ok(params) => render(&params, output, fps),
        Err(e) => Err(e),
    }
}

/// The environment's overrides of the audio branch.
#[derive(Debug)]
pub struct AudioOverrides {
    /// Replaces the generated branch outright.
    pub branch: Option<String>,
    pub encoder: Option<String>,
    pub bitrate_kbps: Option<String>,
}

impl AudioOverrides {
    /// Reads the overrides from an environment.
    pub fn from_env<E: Fn(&str) -> Option<String>>(env: E) -> (r: AudioOverrides)
        requires
            forall|key: &str| call_requires(env, (key,)),
        ensures
            audio_read_from(env, r),
    {
        AudioOverrides {
            branch: env("BRAIDPIPE_AUDIO_BRANCH"),
            encoder: env("BRAIDPIPE_AUDIO_ENCODER"),
            bitrate_kbps: env("BRAIDPIPE_AUDIO_BITRATE_KBPS"),
        }
    }
}

/// The audio bitrate in kbps.
pub open spec fn audio_kbps(env: AudioOverrides) -> Result<u32, Seq<char>> {
    num_setting("BRAIDPIPE_AUDIO_BITRATE_KBPS"@, env.bitrate_kbps, 128)
}

/// Whether the audio bitrate in bits per second stays within 32 bits.
pub open spec fn audio_rate_fits(env: AudioOverrides) -> bool {
    env.branch is None ==> match audio_kbps(env) {
        Ok(kbps) => kbps * 1000 <= u32::MAX,
        Err(_) => true,
    }
}

/// The path of the audio from the source to the muxer.
pub open spec fn audio_text(tap: Option<Seq<char>>, env: AudioOverrides) -> Result<
    Seq<char>,
    Seq<char>,
> {
    match env.branch {
        Some(branch) => Ok(branch@),
        None => match audio_kbps(env) {
            Ok(kbps) => Ok(
                (match tap {
                    Some(t) => t,
                    None => "decoder. ! queue ! audio/x-raw"@,
                }) + " ! audioconvert ! audioresample ! "@ + text_setting(env.encoder, "avenc_aac"@)
                    + " bitrate="@ + decimal((kbps * 1000) as nat)
                    + " ! aacparse ! queue ! mux."@,
            ),
            Err(e) => Err(e),
        },
    }
}

/// Whether [`build_audio_branch`] can compute the audio bitrate.
pub fn audio_rate_in_range(env: &AudioOverrides) -> (r: bool)
    ensures
        r == audio_rate_fits(*env),
{
    if env.branch.is_some() {
        return true;
    }
    match override_num("BRAIDPIPE_AUDIO_BITRATE_KBPS", &env.bitrate_kbps, 128) {
        Ok(kbps) => kbps as u64 * 1000 <= u32::MAX as u64,
        Err(_) => true,
    }
}

/// The audio path from the source's decoder to the output muxer. Audio never
/// enters the AI branch: it flows from `tap`, by default the decoder of a
/// source URI, to the muxer, which pairs it with the video by timestamps.
pub fn build_audio_branch(tap: Option<&str>, env: &AudioOverrides) -> (r: Result<String, String>)
    requires
        audio_rate_fits(*env),
    ensures
        text_of(r) == audio_text(maybe(tap), *env),
{
    if let Some(branch) = &env.branch {
        return Ok(branch.clone());
    }
    let kbps: u32 = match override_num("BRAIDPIPE_AUDIO_BITRATE_KBPS", &env.bitrate_kbps, 128) {
        Ok(n) => n,
        Err(e) => {
            return Err(e);
        },
    };
    let mut s = match tap {
        Some(t) => t.to_owned(),
        None => "decoder. ! queue ! audio/x-raw".to_owned(),
    };
    s.append(" ! audioconvert ! audioresample ! ");
    match &env.encoder {
        Some(e) => {
            s.append(e.as_str());
        },
        None => {
            s.append("avenc_aac");
        },
    }
    s.append(" bitrate=");
    push_decimal(&mut s, (kbps * 1000) as u64);
    s.append(" ! aacparse ! queue ! mux.");
    Ok(s)
}

/// A preset exists exactly if its name is one of [`PRESET_NAMES`].
pub proof fn law_presets_are_the_named_ones(preset: Seq<char>)
    ensures
        preset_profile(preset) is Some <==> exists|i: int|
            0 <= i < 4 && (#[trigger] PRESET_NAMES@[i])@ == preset,
{
    assert(PRESET_NAMES@[0]@ == "zerolatency"@);
    assert(PRESET_NAMES@[1]@ == "lowlatency"@);
    assert(PRESET_NAMES@[2]@ == "balanced"@);
    assert(PRESET_NAMES@[3]@ == "bandwidth"@);
}

/// Without overrides a preset resolves to its own defaults.
pub proof fn law_presets_stand_without_overrides(preset: Seq<char>)
    requires
        preset_profile(preset) is Some,
    ensures
        resolved(preset, no_overrides()) == Ok::<Profile, Seq<char>>(preset_profile(preset)->0),
{
}

/// An override turns one knob: whatever else is overridden, it changes its
/// own parameter and no other.
pub proof fn law_an_override_turns_one_knob(preset: Seq<char>, env: Overrides, with: Overrides)
    requires
        resolved(preset, env) is Ok,
    ensures
        ({
            let p = resolved(preset, env)->Ok_0;
            let keeps = |e: Overrides, q: Profile|
                resolved(preset, e) is Ok ==> resolved(preset, e)->Ok_0 == q;
            let after = |e: Overrides| resolved(preset, e)->Ok_0;
            let encoder = Overrides { encoder: with.encoder, ..env };
            let speed = Overrides { speed_preset: with.speed_preset, ..env };
            let zero = Overrides { zerolatency: with.zerolatency, ..env };
            let bitrate = Overrides { bitrate_kbps: with.bitrate_kbps, ..env };
            let gop = Overrides { gop_seconds: with.gop_seconds, ..env };
            let vbv = Overrides { vbv_buf_ms: with.vbv_buf_ms, ..env };
            let sync = Overrides { sink_sync: with.sink_sync, ..env };
            let latency = Overrides { srt_latency_ms: with.srt_latency_ms, ..env };
            let wait = Overrides { srt_wait_for_connection: with.srt_wait_for_connection, ..env };
            &&& keeps(encoder, Profile { encoder: after(encoder).encoder, ..p })
            &&& keeps(speed, Profile { speed_preset: after(speed).speed_preset, ..p })
            &&& keeps(zero, Profile { zerolatency: after(zero).zerolatency, ..p })
            &&& keeps(bitrate, Profile { bitrate_kbps: after(bitrate).bitrate_kbps, ..p })
            &&& keeps(gop, Profile { gop_seconds: after(gop).gop_seconds, ..p })
            &&& keeps(vbv, Profile { vbv_buf_ms: after(vbv).vbv_buf_ms, ..p })
            &&& keeps(sync, Profile { sync: after(sync).sync, ..p })
            &&& keeps(latency, Profile { srt_latency_ms: after(latency).srt_latency_ms, ..p })
            &&& keeps(
                wait,
                Profile { srt_wait_for_connection: after(wait).srt_wait_for_connection, ..p },
            )
        }),
{
}

/// An encoder named on the command line is used, whatever the environment
/// says and detection finds. `auto` there lets detection win even over the
/// environment, and x264 stands where it finds nothing. With nothing on the
/// command line, an encoder named in the environment wins over detection; and
/// with nothing named anywhere, detection decides again, or else x264 stands.
pub proof fn law_encoder_precedence(
    preset: Seq<char>,
    flag: Seq<char>,
    env: Overrides,
    detected: Option<Seq<char>>,
    e: Encoder,
)
    requires
        resolved(preset, env_beside(Some(flag), env)) is Ok,
    ensures
        encoder_name(e) == flag ==> ({
            let r = sink_profile(preset, Some(flag), env, detected);
            r is Ok && r->Ok_0.encoder == e
        }),
        flag != "auto"@ && named_encoder(flag) is None ==> sink_profile(
            preset,
            Some(flag),
            env,
            detected,
        ) == Err::<Profile, Seq<char>>(no_such_encoder_flag(flag)),
        ({
            let r = sink_profile(preset, Some("auto"@), env, detected);
            r is Ok && r->Ok_0.encoder == detected_or_x264(detected)
        }),
        env.encoder is Some && encoder_name(e) == env.encoder->0@ ==> ({
            let r = sink_profile(preset, None, env, detected);
            r is Ok && r->Ok_0.encoder == e
        }),
        env.encoder is None || env.encoder->0@ == "auto"@ ==> ({
            let r = sink_profile(preset, None, env, detected);
            r is Ok && r->Ok_0.encoder == detected_or_x264(detected)
        }),
{
    lemma_auto_names_no_encoder(e);
    if encoder_name(e) == flag {
        lemma_named(flag, Some(e));
    }
    if env.encoder is Some && encoder_name(e) == env.encoder->0@ {
        lemma_named(env.encoder->0@, Some(e));
    }
}

/// The encoder that detection stands for, or else x264.
pub open spec fn detected_or_x264(detected: Option<Seq<char>>) -> Encoder {
    match detected {
        Some(factory) => match factory_encoder(factory) {
            Some(e) => e,
            None => Encoder::X264,
        },
        None => Encoder::X264,
    }
}

/// Whatever the environment says about the encoder, even nonsense, an encoder
/// asked for on the command line overrides it.
pub proof fn law_encoder_flag_overrides_the_environment(
    preset: Seq<char>,
    flag: Seq<char>,
    env: Overrides,
    other: Option<String>,
    detected: Option<Seq<char>>,
)
    ensures
        sink_profile(preset, Some(flag), env, detected) == sink_profile(
            preset,
            Some(flag),
            Overrides { encoder: other, ..env },
            detected,
        ),
{
}

proof fn lemma_auto_names_no_encoder(e: Encoder)
    ensures
        encoder_name(e) != "auto"@,
{
    reveal_strlit("auto");
    reveal_strlit("x264");
    reveal_strlit("vtenc");
    reveal_strlit("nvenc");
    reveal_strlit("va");
    reveal_strlit("vaapi");
    reveal_strlit("qsv");
    reveal_strlit("mf");
    reveal_strlit("amf");
    assert("auto"@[0] == 'a' && "auto"@[1] == 'u');
    assert("x264"@[0] == 'x' && "vtenc"@[0] == 'v' && "nvenc"@[0] == 'n' && "va"@[0] == 'v'
        && "vaapi"@[0] == 'v' && "qsv"@[0] == 'q' && "mf"@[0] == 'm' && "amf"@[1] == 'm');
}

/// Every sink names its muxer `mux`, and a generated audio branch ends there.
pub proof fn law_audio_links_to_the_named_muxer(
    p: Profile,
    output: Seq<char>,
    fps: u32,
    tap: Option<Seq<char>>,
    env: AudioOverrides,
)
    ensures
        sink_text(p, output, fps) is Ok ==> has_substring(
            sink_text(p, output, fps)->Ok_0,
            " name=mux "@,
        ),
        env.branch is None && audio_text(tap, env) is Ok ==> ({
            let text = audio_text(tap, env)->Ok_0;
            occurs_at(text, " ! mux."@, text.len() - 7)
        }),
{
    let name = " name=mux "@;
    reveal_strlit(" name=mux ");
    if sink_text(p, output, fps) is Ok {
        let whole = sink_text(p, output, fps)->Ok_0;
        let tail = output_text(p, output)->Ok_0;
        let rtmp = "flvmux name=mux streamable=true ! rtmp2sink sync="@;
        let srt =
            "mpegtsmux name=mux alignment=7 ! queue max-size-buffers=3 leaky=downstream ! srtsink sync="@;
        let udp = "mpegtsmux name=mux alignment=7 ! udpsink sync="@;
        reveal_strlit("flvmux name=mux streamable=true ! rtmp2sink sync=");
        reveal_strlit(
            "mpegtsmux name=mux alignment=7 ! queue max-size-buffers=3 leaky=downstream ! srtsink sync=",
        );
        reveal_strlit("mpegtsmux name=mux alignment=7 ! udpsink sync=");
        assert(rtmp.subrange(6, 16) =~= name);
        assert(occurs_at(rtmp, name, 6));
        assert(srt.subrange(9, 19) =~= name);
        assert(occurs_at(srt, name, 9));
        assert(udp.subrange(9, 19) =~= name);
        assert(occurs_at(udp, name, 9));
        let sync = bool_text(p.sync);
        assert(has_substring(tail, name)) by {
            if has_prefix(output, "rtmp://"@) {
                lemma_substring_of_sum(rtmp, sync, name);
                lemma_substring_of_sum(rtmp + sync, " location="@, name);
                lemma_substring_of_sum(rtmp + sync + " location="@, output, name);
            } else if has_prefix(output, "srt://"@) {
                let wait = bool_text(p.srt_wait_for_connection);
                let latency = decimal(p.srt_latency_ms as nat);
                let s1 = srt + sync;
                let s2 = s1 + " wait-for-connection="@;
                let s3 = s2 + wait;
                let s4 = s3 + " latency="@;
                let s5 = s4 + latency;
                let s6 = s5 + " uri="@;
                lemma_substring_of_sum(srt, sync, name);
                lemma_substring_of_sum(s1, " wait-for-connection="@, name);
                lemma_substring_of_sum(s2, wait, name);
                lemma_substring_of_sum(s3, " latency="@, name);
                lemma_substring_of_sum(s4, latency, name);
                lemma_substring_of_sum(s5, " uri="@, name);
                lemma_substring_of_sum(s6, output, name);
            } else {
                let (host, port) = udp_target(output.skip(6))->0;
                let s1 = udp + sync;
                let s2 = s1 + " host="@;
                let s3 = s2 + host;
                let s4 = s3 + " port="@;
                lemma_substring_of_sum(udp, sync, name);
                lemma_substring_of_sum(s1, " host="@, name);
                lemma_substring_of_sum(s2, host, name);
                lemma_substring_of_sum(s3, " port="@, name);
                lemma_substring_of_sum(s4, port, name);
            }
        }
        let head = "videoconvert ! video/x-raw,format="@ + raw_format(p.encoder) + " ! "@
            + encoder_text(p, keyframe_interval(p, fps)) + " ! h264parse config-interval=-1 ! "@;
        assert(whole == head + tail);
        lemma_substring_of_sum(head, tail, name);
    }
    if env.branch is None && audio_text(tap, env) is Ok {
        let text = audio_text(tap, env)->Ok_0;
        reveal_strlit(" ! aacparse ! queue ! mux.");
        reveal_strlit(" ! mux.");
        let end = " ! aacparse ! queue ! mux."@;
        assert(text.subrange(text.len() - 7, text.len() as int) =~= end.subrange(19, 26));
        assert(end.subrange(19, 26) =~= " ! mux."@);
    }
}

/// The speed presets of x264, from the fastest to the one that compresses best.
pub const SPEED_PRESETS: [&'static str; 10] = [
    "ultrafast",
    "superfast",
    "veryfast",
    "faster",
    "fast",
    "medium",
    "slow",
    "slower",
    "veryslow",
    "placebo",
];

/// Along the presets, in the order of [`PRESET_NAMES`], latency is traded for
/// bandwidth: the bitrate falls, while the burst bound and the latency of the
/// transport rise, the interval between keyframes does not shrink at any frame
/// rate, and the encoder takes more time. The low-latency switch is on in all
/// but the last, which alone holds its buffers back to the clock. All of them
/// are made for x264 and wait for nobody.
pub proof fn law_presets_trade_latency_for_bandwidth(i: int, j: int, fps: u32)
    requires
        0 <= i < j < 4,
    ensures
        ({
            let p = preset_profile(PRESET_NAMES@[i]@)->0;
            let q = preset_profile(PRESET_NAMES@[j]@)->0;
            &&& preset_profile(PRESET_NAMES@[i]@) is Some
            &&& preset_profile(PRESET_NAMES@[j]@) is Some
            &&& p.bitrate_kbps > q.bitrate_kbps
            &&& p.vbv_buf_ms < q.vbv_buf_ms
            &&& p.srt_latency_ms < q.srt_latency_ms
            &&& keyframe_interval(p, fps) <= keyframe_interval(q, fps)
            &&& exists|a: int, b: int|
                0 <= a < b < 10 && (#[trigger] SPEED_PRESETS@[a])@ == p.speed_preset && (
                #[trigger] SPEED_PRESETS@[b])@ == q.speed_preset
            &&& p.zerolatency
            &&& q.zerolatency <==> j < 3
            &&& !p.sync
            &&& q.sync <==> j == 3
            &&& p.encoder == Encoder::X264 && q.encoder == Encoder::X264
            &&& !p.srt_wait_for_connection && !q.srt_wait_for_connection
        }),
{
    lemma_preset_names();
    law_keyframes_come_every_so_many_seconds(preset_profile(PRESET_NAMES@[i]@)->0, fps);
    law_keyframes_come_every_so_many_seconds(preset_profile(PRESET_NAMES@[j]@)->0, fps);
    assert(SPEED_PRESETS@[0]@ == "ultrafast"@);
    assert(SPEED_PRESETS@[2]@ == "veryfast"@);
    assert(SPEED_PRESETS@[5]@ == "medium"@);
    assert(SPEED_PRESETS@[6]@ == "slow"@);
}

proof fn lemma_preset_names()
    ensures
        PRESET_NAMES@[0]@ == "zerolatency"@,
        PRESET_NAMES@[1]@ == "lowlatency"@,
        PRESET_NAMES@[2]@ == "balanced"@,
        PRESET_NAMES@[3]@ == "bandwidth"@,
        "zerolatency"@ != "lowlatency"@,
        "zerolatency"@ != "balanced"@,
        "zerolatency"@ != "bandwidth"@,
        "lowlatency"@ != "balanced"@,
        "lowlatency"@ != "bandwidth"@,
        "balanced"@ != "bandwidth"@,
{
    reveal_strlit("zerolatency");
    reveal_strlit("lowlatency");
    reveal_strlit("balanced");
    reveal_strlit("bandwidth");
    assert("zerolatency"@[0] == 'z' && "lowlatency"@[0] == 'l' && "balanced"@[2] == 'l'
        && "bandwidth"@[2] == 'n');
    assert("balanced"@[0] == 'b' && "bandwidth"@[0] == 'b');
}

/// A keyframe interval of one, two or four seconds is that many seconds' worth
/// of frames, as far as 32 bits count.
pub proof fn law_keyframes_come_every_so_many_seconds(p: Profile, fps: u32)
    ensures
        ({
            let frames = if fps == 0 {
                1
            } else {
                fps as int
            };
            let most = |n: int| if n <= u32::MAX {
                n
            } else {
                u32::MAX as int
            };
            &&& p.gop_seconds == ONE_SECOND ==> keyframe_interval(p, fps) == frames
            &&& p.gop_seconds == TWO_SECONDS ==> keyframe_interval(p, fps) == most(2 * frames)
            &&& p.gop_seconds == FOUR_SECONDS ==> keyframe_interval(p, fps) == most(4 * frames)
        }),
        keyframe_interval(p, fps) >= 1,
{
    vstd::arithmetic::power2::lemma2_to64();
    let max = u32::MAX as nat;
    law_powers_of_two_multiply_exactly(ONE_SECOND, 0, rate(fps), max);
    law_powers_of_two_multiply_exactly(TWO_SECONDS, 1, rate(fps), max);
    law_powers_of_two_multiply_exactly(FOUR_SECONDS, 2, rate(fps), max);
}

/// What a text begins with, it still begins with when more comes behind it.
proof fn lemma_begins(word: Seq<char>, next: Seq<char>, text: Seq<char>, rest: Seq<char>)
    requires
        next.len() > 0,
        next[0] == ' ',
        text.len() >= word.len() + next.len(),
        text.take((word.len() + next.len()) as int) == word + next,
    ensures
        has_prefix(text + rest, word + " "@),
{
    reveal_strlit(" ");
    let n = word.len() as int;
    assert((text + rest).subrange(0, n + 1) =~= word + " "@) by {
        assert forall|i: int| 0 <= i < n + 1 implies (text + rest)[i] == (word + " "@)[i] by {
            assert((text + rest)[i] == text.take((word.len() + next.len()) as int)[i]);
        }
    }
}

/// What the x264enc element says of a profile, whatever comes behind it.
proof fn lemma_x264_says(p: Profile, keyint: nat, rest: Seq<char>)
    requires
        p.encoder == Encoder::X264,
        rest.len() > 0,
        rest[0] == ' ',
    ensures
        ({
            let text = encoder_text(p, keyint) + rest;
            let bitrate = decimal(p.bitrate_kbps as nat);
            let key = decimal(keyint);
            &&& has_prefix(text, "x264enc"@ + " "@)
            &&& stands_between(text, " speed-preset="@, p.speed_preset, ' ')
            &&& stands_between(text, " bitrate="@, bitrate, ' ')
            &&& stands_between(text, " key-int-max="@, key, ' ')
            &&& stands_between(text, " vbv-buf-capacity="@, decimal(p.vbv_buf_ms as nat), ' ')
        }),
{
    let bitrate = decimal(p.bitrate_kbps as nat);
    let key = decimal(keyint);
    reveal_strlit(" ");
    reveal_strlit("x264enc");
    reveal_strlit(" speed-preset=");
    reveal_strlit(" tune=zerolatency");
    reveal_strlit(" bitrate=");
    reveal_strlit(" key-int-max=");
    reveal_strlit(" vbv-buf-capacity=");
    reveal_strlit("x264enc speed-preset=");
    reveal_strlit("");
    assert("x264enc speed-preset="@ =~= "x264enc"@ + " speed-preset="@);
    let p0 = "x264enc"@;
    let p1 = " speed-preset="@;
    let p2 = p.speed_preset;
    let p3 = choice(p.zerolatency, " tune=zerolatency"@, ""@);
    let p4 = " bitrate="@;
    let p5 = bitrate;
    let p6 = " key-int-max="@;
    let p7 = key;
    let p8 = " vbv-buf-capacity="@;
    let p9 = decimal(p.vbv_buf_ms as nat);
    let h0 = p0;
    let h1 = h0 + p1;
    let h2 = h1 + p2;
    let h3 = h2 + p3;
    let h4 = h3 + p4;
    let h5 = h4 + p5;
    let h6 = h5 + p6;
    let h7 = h6 + p7;
    let h8 = h7 + p8;
    let h9 = h8 + p9;
    let text = h9 + rest;
    assert(encoder_text(p, keyint) == h9);
    lemma_stands(h0, p1, p2, p3 + p4, ' ');
    assert(h4 =~= h0 + p1 + p2 + (p3 + p4));
    lemma_stands_before(h4, p5, p1, p2, ' ');
    lemma_stands_before(h5, p6, p1, p2, ' ');
    lemma_stands_before(h6, p7, p1, p2, ' ');
    lemma_stands_before(h7, p8, p1, p2, ' ');
    lemma_stands_before(h8, p9, p1, p2, ' ');
    lemma_stands_before(h9, rest, p1, p2, ' ');
    lemma_stands(h3, p4, p5, p6, ' ');
    lemma_stands_before(h6, p7, p4, p5, ' ');
    lemma_stands_before(h7, p8, p4, p5, ' ');
    lemma_stands_before(h8, p9, p4, p5, ' ');
    lemma_stands_before(h9, rest, p4, p5, ' ');
    lemma_stands(h5, p6, p7, p8, ' ');
    lemma_stands_before(h8, p9, p6, p7, ' ');
    lemma_stands_before(h9, rest, p6, p7, ' ');
    lemma_stands(h7, p8, p9, rest, ' ');
    assert(h9.take((p0.len() + p1.len()) as int) =~= p0 + p1);
    lemma_begins(p0, p1, h9, rest);
}

/// What the vtenc_h264 element says of a profile, whatever comes behind it.
proof fn lemma_vtenc_says(p: Profile, keyint: nat, rest: Seq<char>)
    requires
        p.encoder == Encoder::Vtenc,
        rest.len() > 0,
        rest[0] == ' ',
    ensures
        ({
            let text = encoder_text(p, keyint) + rest;
            let bitrate = decimal(p.bitrate_kbps as nat);
            let key = decimal(keyint);
            &&& has_prefix(text, "vtenc_h264"@ + " "@)
            &&& stands_between(text, " realtime="@, bool_text(p.zerolatency), ' ')
            &&& stands_between(text, " allow-frame-reordering="@, bool_text(!p.zerolatency), ' ')
            &&& stands_between(text, " bitrate="@, bitrate, ' ')
            &&& stands_between(text, " max-keyframe-interval="@, key, ' ')
        }),
{
    let bitrate = decimal(p.bitrate_kbps as nat);
    let key = decimal(keyint);
    reveal_strlit(" ");
    reveal_strlit("vtenc_h264");
    reveal_strlit(" realtime=");
    reveal_strlit(" allow-frame-reordering=");
    reveal_strlit(" bitrate=");
    reveal_strlit(" max-keyframe-interval=");
    reveal_strlit(" rate-control=cbr quality=0.65");
    reveal_strlit("vtenc_h264 realtime=");
    reveal_strlit("");
    assert("vtenc_h264 realtime="@ =~= "vtenc_h264"@ + " realtime="@);
    let p0 = "vtenc_h264"@;
    let p1 = " realtime="@;
    let p2 = bool_text(p.zerolatency);
    let p3 = " allow-frame-reordering="@;
    let p4 = bool_text(!p.zerolatency);
    let p5 = " bitrate="@;
    let p6 = bitrate;
    let p7 = " max-keyframe-interval="@;
    let p8 = key;
    let p9 = " rate-control=cbr quality=0.65"@;
    let h0 = p0;
    let h1 = h0 + p1;
    let h2 = h1 + p2;
    let h3 = h2 + p3;
    let h4 = h3 + p4;
    let h5 = h4 + p5;
    let h6 = h5 + p6;
    let h7 = h6 + p7;
    let h8 = h7 + p8;
    let h9 = h8 + p9;
    let text = h9 + rest;
    assert(encoder_text(p, keyint) == h9);
    lemma_stands(h0, p1, p2, p3, ' ');
    lemma_stands_before(h3, p4, p1, p2, ' ');
    lemma_stands_before(h4, p5, p1, p2, ' ');
    lemma_stands_before(h5, p6, p1, p2, ' ');
    lemma_stands_before(h6, p7, p1, p2, ' ');
    lemma_stands_before(h7, p8, p1, p2, ' ');
    lemma_stands_before(h8, p9, p1, p2, ' ');
    lemma_stands_before(h9, rest, p1, p2, ' ');
    lemma_stands(h2, p3, p4, p5, ' ');
    lemma_stands_before(h5, p6, p3, p4, ' ');
    lemma_stands_before(h6, p7, p3, p4, ' ');
    lemma_stands_before(h7, p8, p3, p4, ' ');
    lemma_stands_before(h8, p9, p3, p4, ' ');
    lemma_stands_before(h9, rest, p3, p4, ' ');
    lemma_stands(h4, p5, p6, p7, ' ');
    lemma_stands_before(h7, p8, p5, p6, ' ');
    lemma_stands_before(h8, p9, p5, p6, ' ');
    lemma_stands_before(h9, rest, p5, p6, ' ');
    lemma_stands(h6, p7, p8, p9, ' ');
    lemma_stands_before(h9, rest, p7, p8, ' ');
    assert(h9.take((p0.len() + p1.len()) as int) =~= p0 + p1);
    lemma_begins(p0, p1, h9, rest);
}

/// What the nvh264enc element says of a profile, whatever comes behind it.
proof fn lemma_nvenc_says(p: Profile, keyint: nat, rest: Seq<char>)
    requires
        p.encoder == Encoder::Nvenc,
        rest.len() > 0,
        rest[0] == ' ',
    ensures
        ({
            let text = encoder_text(p, keyint) + rest;
            let bitrate = decimal(p.bitrate_kbps as nat);
            let key = decimal(keyint);
            &&& has_prefix(text, "nvh264enc"@ + " "@)
            &&& stands_between(text, " bitrate="@, bitrate, ' ')
            &&& stands_between(text, " gop-size="@, key, ' ')
            &&& stands_between(text, " rc-mode="@, choice(p.zerolatency, "cbr-ld-hq"@, "cbr"@), ' ')
            &&& stands_between(text, " preset="@, choice(p.zerolatency, "low-latency-hq"@, "hq"@), ' ')
            &&& stands_between(text, " vbv-buffer-size="@, decimal(buffer_kbits(p)), ' ')
        }),
{
    let bitrate = decimal(p.bitrate_kbps as nat);
    let key = decimal(keyint);
    reveal_strlit(" ");
    reveal_strlit("nvh264enc");
    reveal_strlit(" bitrate=");
    reveal_strlit(" gop-size=");
    reveal_strlit(" rc-mode=");
    reveal_strlit("cbr-ld-hq");
    reveal_strlit("cbr");
    reveal_strlit(" preset=");
    reveal_strlit("low-latency-hq");
    reveal_strlit("hq");
    reveal_strlit(" vbv-buffer-size=");
    reveal_strlit(" b-adapt=false bframes=0 zerolatency=true");
    reveal_strlit(" ! video/x-h264,profile=high");
    reveal_strlit("nvh264enc bitrate=");
    reveal_strlit("");
    assert("nvh264enc bitrate="@ =~= "nvh264enc"@ + " bitrate="@);
    let p0 = "nvh264enc"@;
    let p1 = " bitrate="@;
    let p2 = bitrate;
    let p3 = " gop-size="@;
    let p4 = key;
    let p5 = " rc-mode="@;
    let p6 = choice(p.zerolatency, "cbr-ld-hq"@, "cbr"@);
    let p7 = " preset="@;
    let p8 = choice(p.zerolatency, "low-latency-hq"@, "hq"@);
    let p9 = " vbv-buffer-size="@;
    let p10 = decimal(buffer_kbits(p));
    let p11 = choice(p.zerolatency, " b-adapt=false bframes=0 zerolatency=true"@, ""@);
    let p12 = " ! video/x-h264,profile=high"@;
    let h0 = p0;
    let h1 = h0 + p1;
    let h2 = h1 + p2;
    let h3 = h2 + p3;
    let h4 = h3 + p4;
    let h5 = h4 + p5;
    let h6 = h5 + p6;
    let h7 = h6 + p7;
    let h8 = h7 + p8;
    let h9 = h8 + p9;
    let h10 = h9 + p10;
    let h11 = h10 + p11;
    let h12 = h11 + p12;
    let text = h12 + rest;
    assert(encoder_text(p, keyint) == h12);
    lemma_stands(h0, p1, p2, p3, ' ');
    lemma_stands_before(h3, p4, p1, p2, ' ');
    lemma_stands_before(h4, p5, p1, p2, ' ');
    lemma_stands_before(h5, p6, p1, p2, ' ');
    lemma_stands_before(h6, p7, p1, p2, ' ');
    lemma_stands_before(h7, p8, p1, p2, ' ');
    lemma_stands_before(h8, p9, p1, p2, ' ');
    lemma_stands_before(h9, p10, p1, p2, ' ');
    lemma_stands_before(h10, p11, p1, p2, ' ');
    lemma_stands_before(h11, p12, p1, p2, ' ');
    lemma_stands_before(h12, rest, p1, p2, ' ');
    lemma_stands(h2, p3, p4, p5, ' ');
    lemma_stands_before(h5, p6, p3, p4, ' ');
    lemma_stands_before(h6, p7, p3, p4, ' ');
    lemma_stands_before(h7, p8, p3, p4, ' ');
    lemma_stands_before(h8, p9, p3, p4, ' ');
    lemma_stands_before(h9, p10, p3, p4, ' ');
    lemma_stands_before(h10, p11, p3, p4, ' ');
    lemma_stands_before(h11, p12, p3, p4, ' ');
    lemma_stands_before(h12, rest, p3, p4, ' ');
    lemma_stands(h4, p5, p6, p7, ' ');
    lemma_stands_before(h7, p8, p5, p6, ' ');
    lemma_stands_before(h8, p9, p5, p6, ' ');
    lemma_stands_before(h9, p10, p5, p6, ' ');
    lemma_stands_before(h10, p11, p5, p6, ' ');
    lemma_stands_before(h11, p12, p5, p6, ' ');
    lemma_stands_before(h12, rest, p5, p6, ' ');
    lemma_stands(h6, p7, p8, p9, ' ');
    lemma_stands_before(h9, p10, p7, p8, ' ');
    lemma_stands_before(h10, p11, p7, p8, ' ');
    lemma_stands_before(h11, p12, p7, p8, ' ');
    lemma_stands_before(h12, rest, p7, p8, ' ');
    lemma_stands(h8, p9, p10, p11 + p12, ' ');
    assert(h12 =~= h8 + p9 + p10 + (p11 + p12));
    lemma_stands_before(h12, rest, p9, p10, ' ');
    assert(h12.take((p0.len() + p1.len()) as int) =~= p0 + p1);
    lemma_begins(p0, p1, h12, rest);
}

/// What the vah264enc element says of a profile, whatever comes behind it.
proof fn lemma_va_says(p: Profile, keyint: nat, rest: Seq<char>)
    requires
        p.encoder == Encoder::Va,
        rest.len() > 0,
        rest[0] == ' ',
    ensures
        ({
            let text = encoder_text(p, keyint) + rest;
            let bitrate = decimal(p.bitrate_kbps as nat);
            let key = decimal(keyint);
            &&& has_prefix(text, "vah264enc"@ + " "@)
            &&& stands_between(text, " bitrate="@, bitrate, ' ')
            &&& stands_between(text, " key-int-max="@, key, ' ')
            &&& stands_between(text, " target-usage="@, choice(p.zerolatency, "6"@, "4"@), ' ')
            &&& stands_between(text, " cpb-size="@, decimal(buffer_kbits(p)), ' ')
        }),
{
    let bitrate = decimal(p.bitrate_kbps as nat);
    let key = decimal(keyint);
    reveal_strlit(" ");
    reveal_strlit("vah264enc");
    reveal_strlit(" bitrate=");
    reveal_strlit(" key-int-max=");
    reveal_strlit(" target-usage=");
    reveal_strlit("6");
    reveal_strlit("4");
    reveal_strlit(" cpb-size=");
    reveal_strlit("vah264enc bitrate=");
    reveal_strlit("");
    assert("vah264enc bitrate="@ =~= "vah264enc"@ + " bitrate="@);
    let p0 = "vah264enc"@;
    let p1 = " bitrate="@;
    let p2 = bitrate;
    let p3 = " key-int-max="@;
    let p4 = key;
    let p5 = " target-usage="@;
    let p6 = choice(p.zerolatency, "6"@, "4"@);
    let p7 = " cpb-size="@;
    let p8 = decimal(buffer_kbits(p));
    let h0 = p0;
    let h1 = h0 + p1;
    let h2 = h1 + p2;
    let h3 = h2 + p3;
    let h4 = h3 + p4;
    let h5 = h4 + p5;
    let h6 = h5 + p6;
    let h7 = h6 + p7;
    let h8 = h7 + p8;
    let text = h8 + rest;
    assert(encoder_text(p, keyint) == h8);
    lemma_stands(h0, p1, p2, p3, ' ');
    lemma_stands_before(h3, p4, p1, p2, ' ');
    lemma_stands_before(h4, p5, p1, p2, ' ');
    lemma_stands_before(h5, p6, p1, p2, ' ');
    lemma_stands_before(h6, p7, p1, p2, ' ');
    lemma_stands_before(h7, p8, p1, p2, ' ');
    lemma_stands_before(h8, rest, p1, p2, ' ');
    lemma_stands(h2, p3, p4, p5, ' ');
    lemma_stands_before(h5, p6, p3, p4, ' ');
    lemma_stands_before(h6, p7, p3, p4, ' ');
    lemma_stands_before(h7, p8, p3, p4, ' ');
    lemma_stands_before(h8, rest, p3, p4, ' ');
    lemma_stands(h4, p5, p6, p7, ' ');
    lemma_stands_before(h7, p8, p5, p6, ' ');
    lemma_stands_before(h8, rest, p5, p6, ' ');
    lemma_stands(h6, p7, p8, rest, ' ');
    assert(h8.take((p0.len() + p1.len()) as int) =~= p0 + p1);
    lemma_begins(p0, p1, h8, rest);
}

/// What the vaapih264enc element says of a profile, whatever comes behind it.
proof fn lemma_vaapi_says(p: Profile, keyint: nat, rest: Seq<char>)
    requires
        p.encoder == Encoder::Vaapi,
        rest.len() > 0,
        rest[0] == ' ',
    ensures
        ({
            let text = encoder_text(p, keyint) + rest;
            let bitrate = decimal(p.bitrate_kbps as nat);
            let key = decimal(keyint);
            &&& has_prefix(text, "vaapih264enc"@ + " "@)
            &&& stands_between(text, " bitrate="@, bitrate, ' ')
            &&& stands_between(text, " keyframe-period="@, key, ' ')
        }),
{
    let bitrate = decimal(p.bitrate_kbps as nat);
    let key = decimal(keyint);
    reveal_strlit(" ");
    reveal_strlit("vaapih264enc");
    reveal_strlit(" bitrate=");
    reveal_strlit(" keyframe-period=");
    reveal_strlit("vaapih264enc bitrate=");
    reveal_strlit("");
    assert("vaapih264enc bitrate="@ =~= "vaapih264enc"@ + " bitrate="@);
    let p0 = "vaapih264enc"@;
    let p1 = " bitrate="@;
    let p2 = bitrate;
    let p3 = " keyframe-period="@;
    let p4 = key;
    let h0 = p0;
    let h1 = h0 + p1;
    let h2 = h1 + p2;
    let h3 = h2 + p3;
    let h4 = h3 + p4;
    let text = h4 + rest;
    assert(encoder_text(p, keyint) == h4);
    lemma_stands(h0, p1, p2, p3, ' ');
    lemma_stands_before(h3, p4, p1, p2, ' ');
    lemma_stands_before(h4, rest, p1, p2, ' ');
    lemma_stands(h2, p3, p4, rest, ' ');
    assert(h4.take((p0.len() + p1.len()) as int) =~= p0 + p1);
    lemma_begins(p0, p1, h4, rest);
}

/// What the qsvh264enc element says of a profile, whatever comes behind it.
proof fn lemma_qsv_says(p: Profile, keyint: nat, rest: Seq<char>)
    requires
        p.encoder == Encoder::Qsv,
        rest.len() > 0,
        rest[0] == ' ',
    ensures
        ({
            let text = encoder_text(p, keyint) + rest;
            let bitrate = decimal(p.bitrate_kbps as nat);
            let key = decimal(keyint);
            &&& has_prefix(text, "qsvh264enc"@ + " "@)
            &&& stands_between(text, " bitrate="@, bitrate, ' ')
            &&& stands_between(text, " gop-size="@, key, ' ')
            &&& stands_between(text, " low-latency="@, bool_text(p.zerolatency), ' ')
        }),
{
    let bitrate = decimal(p.bitrate_kbps as nat);
    let key = decimal(keyint);
    reveal_strlit(" ");
    reveal_strlit("qsvh264enc");
    reveal_strlit(" bitrate=");
    reveal_strlit(" gop-size=");
    reveal_strlit(" low-latency=");
    reveal_strlit("qsvh264enc bitrate=");
    reveal_strlit("");
    assert("qsvh264enc bitrate="@ =~= "qsvh264enc"@ + " bitrate="@);
    let p0 = "qsvh264enc"@;
    let p1 = " bitrate="@;
    let p2 = bitrate;
    let p3 = " gop-size="@;
    let p4 = key;
    let p5 = " low-latency="@;
    let p6 = bool_text(p.zerolatency);
    let h0 = p0;
    let h1 = h0 + p1;
    let h2 = h1 + p2;
    let h3 = h2 + p3;
    let h4 = h3 + p4;
    let h5 = h4 + p5;
    let h6 = h5 + p6;
    let text = h6 + rest;
    assert(encoder_text(p, keyint) == h6);
    lemma_stands(h0, p1, p2, p3, ' ');
    lemma_stands_before(h3, p4, p1, p2, ' ');
    lemma_stands_before(h4, p5, p1, p2, ' ');
    lemma_stands_before(h5, p6, p1, p2, ' ');
    lemma_stands_before(h6, rest, p1, p2, ' ');
    lemma_stands(h2, p3, p4, p5, ' ');
    lemma_stands_before(h5, p6, p3, p4, ' ');
    lemma_stands_before(h6, rest, p3, p4, ' ');
    lemma_stands(h4, p5, p6, rest, ' ');
    assert(h6.take((p0.len() + p1.len()) as int) =~= p0 + p1);
    lemma_begins(p0, p1, h6, rest);
}

/// What the mfh264enc element says of a profile, whatever comes behind it.
proof fn lemma_mf_says(p: Profile, keyint: nat, rest: Seq<char>)
    requires
        p.encoder == Encoder::Mf,
        rest.len() > 0,
        rest[0] == ' ',
    ensures
        ({
            let text = encoder_text(p, keyint) + rest;
            let bitrate = decimal(p.bitrate_kbps as nat);
            let key = decimal(keyint);
            &&& has_prefix(text, "mfh264enc"@ + " "@)
            &&& stands_between(text, " bitrate="@, bitrate, ' ')
            &&& stands_between(text, " gop-size="@, key, ' ')
            &&& stands_between(text, " low-latency="@, bool_text(p.zerolatency), ' ')
        }),
{
    let bitrate = decimal(p.bitrate_kbps as nat);
    let key = decimal(keyint);
    reveal_strlit(" ");
    reveal_strlit("mfh264enc");
    reveal_strlit(" bitrate=");
    reveal_strlit(" gop-size=");
    reveal_strlit(" low-latency=");
    reveal_strlit("mfh264enc bitrate=");
    reveal_strlit("");
    assert("mfh264enc bitrate="@ =~= "mfh264enc"@ + " bitrate="@);
    let p0 = "mfh264enc"@;
    let p1 = " bitrate="@;
    let p2 = bitrate;
    let p3 = " gop-size="@;
    let p4 = key;
    let p5 = " low-latency="@;
    let p6 = bool_text(p.zerolatency);
    let h0 = p0;
    let h1 = h0 + p1;
    let h2 = h1 + p2;
    let h3 = h2 + p3;
    let h4 = h3 + p4;
    let h5 = h4 + p5;
    let h6 = h5 + p6;
    let text = h6 + rest;
    assert(encoder_text(p, keyint) == h6);
    lemma_stands(h0, p1, p2, p3, ' ');
    lemma_stands_before(h3, p4, p1, p2, ' ');
    lemma_stands_before(h4, p5, p1, p2, ' ');
    lemma_stands_before(h5, p6, p1, p2, ' ');
    lemma_stands_before(h6, rest, p1, p2, ' ');
    lemma_stands(h2, p3, p4, p5, ' ');
    lemma_stands_before(h5, p6, p3, p4, ' ');
    lemma_stands_before(h6, rest, p3, p4, ' ');
    lemma_stands(h4, p5, p6, rest, ' ');
    assert(h6.take((p0.len() + p1.len()) as int) =~= p0 + p1);
    lemma_begins(p0, p1, h6, rest);
}

/// What the amfh264enc element says of a profile, whatever comes behind it.
proof fn lemma_amf_says(p: Profile, keyint: nat, rest: Seq<char>)
    requires
        p.encoder == Encoder::Amf,
        rest.len() > 0,
        rest[0] == ' ',
    ensures
        ({
            let text = encoder_text(p, keyint) + rest;
            let bitrate = decimal(p.bitrate_kbps as nat);
            let key = decimal(keyint);
            &&& has_prefix(text, "amfh264enc"@ + " "@)
            &&& stands_between(text, " bitrate="@, bitrate, ' ')
            &&& stands_between(text, " gop-size="@, key, ' ')
            &&& stands_between(text, " usage="@, choice(p.zerolatency, "ultra-low-latency"@, "transcoding"@), ' ')
        }),
{
    let bitrate = decimal(p.bitrate_kbps as nat);
    let key = decimal(keyint);
    reveal_strlit(" ");
    reveal_strlit("amfh264enc");
    reveal_strlit(" bitrate=");
    reveal_strlit(" gop-size=");
    reveal_strlit(" usage=");
    reveal_strlit("ultra-low-latency");
    reveal_strlit("transcoding");
    reveal_strlit("amfh264enc bitrate=");
    reveal_strlit("");
    assert("amfh264enc bitrate="@ =~= "amfh264enc"@ + " bitrate="@);
    let p0 = "amfh264enc"@;
    let p1 = " bitrate="@;
    let p2 = bitrate;
    let p3 = " gop-size="@;
    let p4 = key;
    let p5 = " usage="@;
    let p6 = choice(p.zerolatency, "ultra-low-latency"@, "transcoding"@);
    let h0 = p0;
    let h1 = h0 + p1;
    let h2 = h1 + p2;
    let h3 = h2 + p3;
    let h4 = h3 + p4;
    let h5 = h4 + p5;
    let h6 = h5 + p6;
    let text = h6 + rest;
    assert(encoder_text(p, keyint) == h6);
    lemma_stands(h0, p1, p2, p3, ' ');
    lemma_stands_before(h3, p4, p1, p2, ' ');
    lemma_stands_before(h4, p5, p1, p2, ' ');
    lemma_stands_before(h5, p6, p1, p2, ' ');
    lemma_stands_before(h6, rest, p1, p2, ' ');
    lemma_stands(h2, p3, p4, p5, ' ');
    lemma_stands_before(h5, p6, p3, p4, ' ');
    lemma_stands_before(h6, rest, p3, p4, ' ');
    lemma_stands(h4, p5, p6, rest, ' ');
    assert(h6.take((p0.len() + p1.len()) as int) =~= p0 + p1);
    lemma_begins(p0, p1, h6, rest);
}
/// With x264 the text tunes for zero latency exactly if the profile has the
/// switch on.
pub proof fn law_tune_follows_the_switch(p: Profile, keyint: nat)
    requires
        p.encoder == Encoder::X264,
        forall|i: int| 0 <= i < p.speed_preset.len() ==> #[trigger] p.speed_preset[i] != ' ',
    ensures
        has_substring(encoder_text(p, keyint), " tune=zerolatency"@) <==> p.zerolatency,
{
    let tune = " tune=zerolatency"@;
    let (bitrate, key, vbv) = (
        decimal(p.bitrate_kbps as nat),
        decimal(keyint),
        decimal(p.vbv_buf_ms as nat),
    );
    reveal_strlit(" tune=zerolatency");
    reveal_strlit("");
    reveal_strlit("x264enc speed-preset=");
    reveal_strlit(" bitrate=");
    reveal_strlit(" key-int-max=");
    reveal_strlit(" vbv-buf-capacity=");
    let h1 = "x264enc speed-preset="@ + p.speed_preset;
    if p.zerolatency {
        let h2 = h1 + tune;
        assert(h2 + ""@ =~= h2);
        lemma_substring_between(h1, tune, ""@);
        lemma_substring_of_sum(h2, " bitrate="@, tune);
        lemma_substring_of_sum(h2 + " bitrate="@, bitrate, tune);
        let h4 = h2 + " bitrate="@ + bitrate;
        lemma_substring_of_sum(h4, " key-int-max="@, tune);
        lemma_substring_of_sum(h4 + " key-int-max="@, key, tune);
        let h6 = h4 + " key-int-max="@ + key;
        lemma_substring_of_sum(h6, " vbv-buf-capacity="@, tune);
        lemma_substring_of_sum(h6 + " vbv-buf-capacity="@, vbv, tune);
    } else {
        law_numerals_read_back(p.bitrate_kbps as nat);
        law_numerals_read_back(keyint);
        law_numerals_read_back(p.vbv_buf_ms as nat);
        assert(never_follows("x264enc speed-preset="@, ' ', 't'));
        assert(never_follows(" bitrate="@, ' ', 't'));
        assert(never_follows(" key-int-max="@, ' ', 't'));
        assert(never_follows(" vbv-buf-capacity="@, ' ', 't'));
        lemma_never_follows_sum("x264enc speed-preset="@, p.speed_preset, ' ', 't');
        lemma_never_follows_sum(h1, ""@, ' ', 't');
        let h2 = h1 + ""@;
        lemma_never_follows_sum(h2, " bitrate="@, ' ', 't');
        let h3 = h2 + " bitrate="@;
        lemma_never_follows_sum(h3, bitrate, ' ', 't');
        let h4 = h3 + bitrate;
        lemma_never_follows_sum(h4, " key-int-max="@, ' ', 't');
        let h5 = h4 + " key-int-max="@;
        lemma_never_follows_sum(h5, key, ' ', 't');
        let h6 = h5 + key;
        lemma_never_follows_sum(h6, " vbv-buf-capacity="@, ' ', 't');
        let h7 = h6 + " vbv-buf-capacity="@;
        lemma_never_follows_sum(h7, vbv, ' ', 't');
        let text = encoder_text(p, keyint);
        assert(text == h7 + vbv);
        assert forall|i: int| !occurs_at(text, tune, i) by {
            if occurs_at(text, tune, i) {
                let found = text.subrange(i, i + tune.len());
                assert(found[0] == text[i] && found[1] == text[i + 1]);
                assert(tune[0] == ' ' && tune[1] == 't');
            }
        }
    }
}

/// What a sink says in front of the encoder.
spec fn sink_head(e: Encoder) -> Seq<char> {
    "videoconvert ! video/x-raw,format="@ + raw_format(e) + " ! "@
}

/// What the encoder element says, the whole sink says.
proof fn lemma_said_in_sink(
    p: Profile,
    output: Seq<char>,
    fps: u32,
    mark: Seq<char>,
    value: Seq<char>,
)
    requires
        sink_text(p, output, fps) is Ok,
        stands_between(
            encoder_text(p, keyframe_interval(p, fps)) + " ! h264parse config-interval=-1 ! "@,
            mark,
            value,
            ' ',
        ),
    ensures
        stands_between(sink_text(p, output, fps)->Ok_0, mark, value, ' '),
{
    let head = sink_head(p.encoder);
    let encoder = encoder_text(p, keyframe_interval(p, fps));
    let middle = " ! h264parse config-interval=-1 ! "@;
    let end = output_text(p, output)->Ok_0;
    lemma_stands_behind(head, encoder + middle, mark, value, ' ');
    lemma_stands_before(head + (encoder + middle), end, mark, value, ' ');
    assert(head + encoder + middle =~= head + (encoder + middle));
}

proof fn lemma_sink_begins(p: Profile, output: Seq<char>, fps: u32, element: Seq<char>)
    requires
        sink_text(p, output, fps) is Ok,
        has_prefix(
            encoder_text(p, keyframe_interval(p, fps)) + " ! h264parse config-interval=-1 ! "@,
            element,
        ),
    ensures
        has_prefix(sink_text(p, output, fps)->Ok_0, sink_head(p.encoder) + element),
{
    let head = sink_head(p.encoder);
    let encoder = encoder_text(p, keyframe_interval(p, fps));
    let middle = " ! h264parse config-interval=-1 ! "@;
    let end = output_text(p, output)->Ok_0;
    let text = head + encoder + middle + end;
    let inner = encoder + middle;
    assert(text =~= head + inner + end);
    assert(inner.subrange(0, element.len() as int) =~= element);
    assert(text.subrange(0, (head + element).len() as int) =~= head + element) by {
        assert forall|i: int| 0 <= i < (head + element).len() implies text[i] == (head
            + element)[i] by {
            if i >= head.len() {
                assert(inner.subrange(0, element.len() as int)[i - head.len()]
                    == inner[i - head.len()]);
            }
        }
    }
}

/// The sink of a profile says what the profile decides, in the encoder's own
/// words: its bitrate, its keyframe interval in frames, how far it may burst,
/// and whether it is to save latency. Behind each word stands its value, up to
/// the next blank.
pub proof fn law_sink_carries_the_profile(p: Profile, output: Seq<char>, fps: u32)
    requires
        sink_text(p, output, fps) is Ok,
    ensures
        ({
            let text = sink_text(p, output, fps)->Ok_0;
            let bitrate = decimal(p.bitrate_kbps as nat);
            let key = decimal(keyframe_interval(p, fps));
            let burst = decimal((p.bitrate_kbps * p.vbv_buf_ms / 1000) as nat);
            let on = p.zerolatency;
            let says = |mark: Seq<char>, value: Seq<char>| stands_between(text, mark, value, ' ');
            &&& says(" bitrate="@, bitrate)
            &&& match p.encoder {
                Encoder::X264 => {
                    &&& says(" speed-preset="@, p.speed_preset)
                    &&& says(" key-int-max="@, key)
                    &&& says(" vbv-buf-capacity="@, decimal(p.vbv_buf_ms as nat))
                },
                Encoder::Vtenc => {
                    &&& says(" realtime="@, bool_text(on))
                    &&& says(" allow-frame-reordering="@, bool_text(!on))
                    &&& says(" max-keyframe-interval="@, key)
                },
                Encoder::Nvenc => {
                    &&& says(" gop-size="@, key)
                    &&& says(
                        " rc-mode="@,
                        if on {
                            "cbr-ld-hq"@
                        } else {
                            "cbr"@
                        },
                    )
                    &&& says(
                        " preset="@,
                        if on {
                            "low-latency-hq"@
                        } else {
                            "hq"@
                        },
                    )
                    &&& says(" vbv-buffer-size="@, burst)
                },
                Encoder::Va => {
                    &&& says(" key-int-max="@, key)
                    &&& says(
                        " target-usage="@,
                        if on {
                            "6"@
                        } else {
                            "4"@
                        },
                    )
                    &&& says(" cpb-size="@, burst)
                },
                Encoder::Vaapi => {
                    &&& says(" keyframe-period="@, key)
                },
                Encoder::Qsv => {
                    &&& says(" gop-size="@, key)
                    &&& says(" low-latency="@, bool_text(on))
                },
                Encoder::Mf => {
                    &&& says(" gop-size="@, key)
                    &&& says(" low-latency="@, bool_text(on))
                },
                Encoder::Amf => {
                    &&& says(" gop-size="@, key)
                    &&& says(
                        " usage="@,
                        if on {
                            "ultra-low-latency"@
                        } else {
                            "transcoding"@
                        },
                    )
                },
            }
        }),
{
    let keyint = keyframe_interval(p, fps);
    let rest = " ! h264parse config-interval=-1 ! "@;
    reveal_strlit(" ! h264parse config-interval=-1 ! ");
    let bitrate = decimal(p.bitrate_kbps as nat);
    let key = decimal(keyint);
    match p.encoder {
        Encoder::X264 => {
            lemma_x264_says(p, keyint, rest);
            lemma_said_in_sink(p, output, fps, " speed-preset="@, p.speed_preset);
            lemma_said_in_sink(p, output, fps, " bitrate="@, bitrate);
            lemma_said_in_sink(p, output, fps, " key-int-max="@, key);
            lemma_said_in_sink(p, output, fps, " vbv-buf-capacity="@, decimal(p.vbv_buf_ms as nat));
        },
        Encoder::Vtenc => {
            lemma_vtenc_says(p, keyint, rest);
            lemma_said_in_sink(p, output, fps, " realtime="@, bool_text(p.zerolatency));
            lemma_said_in_sink(
                p,
                output,
                fps,
                " allow-frame-reordering="@,
                bool_text(!p.zerolatency),
            );
            lemma_said_in_sink(p, output, fps, " bitrate="@, bitrate);
            lemma_said_in_sink(p, output, fps, " max-keyframe-interval="@, key);
        },
        Encoder::Nvenc => {
            lemma_nvenc_says(p, keyint, rest);
            lemma_said_in_sink(p, output, fps, " bitrate="@, bitrate);
            lemma_said_in_sink(p, output, fps, " gop-size="@, key);
            lemma_said_in_sink(
                p,
                output,
                fps,
                " rc-mode="@,
                choice(p.zerolatency, "cbr-ld-hq"@, "cbr"@),
            );
            lemma_said_in_sink(
                p,
                output,
                fps,
                " preset="@,
                choice(p.zerolatency, "low-latency-hq"@, "hq"@),
            );
            lemma_said_in_sink(p, output, fps, " vbv-buffer-size="@, decimal(buffer_kbits(p)));
        },
        Encoder::Va => {
            lemma_va_says(p, keyint, rest);
            lemma_said_in_sink(p, output, fps, " bitrate="@, bitrate);
            lemma_said_in_sink(p, output, fps, " key-int-max="@, key);
            lemma_said_in_sink(
                p,
                output,
                fps,
                " target-usage="@,
                choice(p.zerolatency, "6"@, "4"@),
            );
            lemma_said_in_sink(p, output, fps, " cpb-size="@, decimal(buffer_kbits(p)));
        },
        Encoder::Vaapi => {
            lemma_vaapi_says(p, keyint, rest);
            lemma_said_in_sink(p, output, fps, " bitrate="@, bitrate);
            lemma_said_in_sink(p, output, fps, " keyframe-period="@, key);
        },
        Encoder::Qsv => {
            lemma_qsv_says(p, keyint, rest);
            lemma_said_in_sink(p, output, fps, " bitrate="@, bitrate);
            lemma_said_in_sink(p, output, fps, " gop-size="@, key);
            lemma_said_in_sink(p, output, fps, " low-latency="@, bool_text(p.zerolatency));
        },
        Encoder::Mf => {
            lemma_mf_says(p, keyint, rest);
            lemma_said_in_sink(p, output, fps, " bitrate="@, bitrate);
            lemma_said_in_sink(p, output, fps, " gop-size="@, key);
            lemma_said_in_sink(p, output, fps, " low-latency="@, bool_text(p.zerolatency));
        },
        Encoder::Amf => {
            lemma_amf_says(p, keyint, rest);
            lemma_said_in_sink(p, output, fps, " bitrate="@, bitrate);
            lemma_said_in_sink(p, output, fps, " gop-size="@, key);
            lemma_said_in_sink(
                p,
                output,
                fps,
                " usage="@,
                choice(p.zerolatency, "ultra-low-latency"@, "transcoding"@),
            );
        },
    }
}

/// The sink encodes with the element that the encoder goes by, and hands it
/// frames in the format that it takes: planar ones for x264, biplanar ones for
/// the others. What detection reports by the name of its element is that
/// element.
pub proof fn law_sink_uses_the_named_encoder(
    p: Profile,
    output: Seq<char>,
    fps: u32,
    factory: Seq<char>,
)
    requires
        sink_text(p, output, fps) is Ok,
    ensures
        ({
            let text = sink_text(p, output, fps)->Ok_0;
            let name = encoder_name(p.encoder);
            let planar = "videoconvert ! video/x-raw,format="@ + "I420"@ + " ! "@;
            let biplanar = "videoconvert ! video/x-raw,format="@ + "NV12"@ + " ! "@;
            &&& name == "x264"@ ==> has_prefix(text, planar + ("x264enc"@ + " "@))
            &&& name == "vtenc"@ ==> has_prefix(text, biplanar + ("vtenc_h264"@ + " "@))
            &&& name == "nvenc"@ ==> has_prefix(text, biplanar + ("nvh264enc"@ + " "@))
            &&& name == "va"@ ==> has_prefix(text, biplanar + ("vah264enc"@ + " "@))
            &&& name == "vaapi"@ ==> has_prefix(text, biplanar + ("vaapih264enc"@ + " "@))
            &&& name == "qsv"@ ==> has_prefix(text, biplanar + ("qsvh264enc"@ + " "@))
            &&& name == "mf"@ ==> has_prefix(text, biplanar + ("mfh264enc"@ + " "@))
            &&& name == "amf"@ ==> has_prefix(text, biplanar + ("amfh264enc"@ + " "@))
            &&& factory_encoder(factory) == Some(p.encoder) ==> has_prefix(
                text,
                biplanar + (factory + " "@),
            )
        }),
{
    let keyint = keyframe_interval(p, fps);
    let rest = " ! h264parse config-interval=-1 ! "@;
    reveal_strlit(" ! h264parse config-interval=-1 ! ");
    law_encoder_names_are_distinct(p.encoder, Encoder::X264);
    law_encoder_names_are_distinct(p.encoder, Encoder::Vtenc);
    law_encoder_names_are_distinct(p.encoder, Encoder::Nvenc);
    law_encoder_names_are_distinct(p.encoder, Encoder::Va);
    law_encoder_names_are_distinct(p.encoder, Encoder::Vaapi);
    law_encoder_names_are_distinct(p.encoder, Encoder::Qsv);
    law_encoder_names_are_distinct(p.encoder, Encoder::Mf);
    law_encoder_names_are_distinct(p.encoder, Encoder::Amf);
    match p.encoder {
        Encoder::X264 => {
            lemma_x264_says(p, keyint, rest);
            lemma_sink_begins(p, output, fps, "x264enc"@ + " "@);
        },
        Encoder::Vtenc => {
            lemma_vtenc_says(p, keyint, rest);
            lemma_sink_begins(p, output, fps, "vtenc_h264"@ + " "@);
        },
        Encoder::Nvenc => {
            lemma_nvenc_says(p, keyint, rest);
            lemma_sink_begins(p, output, fps, "nvh264enc"@ + " "@);
        },
        Encoder::Va => {
            lemma_va_says(p, keyint, rest);
            lemma_sink_begins(p, output, fps, "vah264enc"@ + " "@);
        },
        Encoder::Vaapi => {
            lemma_vaapi_says(p, keyint, rest);
            lemma_sink_begins(p, output, fps, "vaapih264enc"@ + " "@);
        },
        Encoder::Qsv => {
            lemma_qsv_says(p, keyint, rest);
            lemma_sink_begins(p, output, fps, "qsvh264enc"@ + " "@);
        },
        Encoder::Mf => {
            lemma_mf_says(p, keyint, rest);
            lemma_sink_begins(p, output, fps, "mfh264enc"@ + " "@);
        },
        Encoder::Amf => {
            lemma_amf_says(p, keyint, rest);
            lemma_sink_begins(p, output, fps, "amfh264enc"@ + " "@);
        },
    }
}

/// Where a sink sends the stream: it is the address that was asked for, at the
/// end of the text, behind the element of its scheme; the element is held to
/// the clock, and SRT waits and buffers, as the profile says. Nothing else than
/// these three kinds of addresses makes a sink.
pub proof fn law_output_is_where_the_sink_sends(p: Profile, output: Seq<char>, fps: u32)
    ensures
        ({
            let rtmp = has_prefix(output, "rtmp://"@);
            let srt = has_prefix(output, "srt://"@);
            let udp = has_prefix(output, "udp://"@) && udp_target(output.skip(6)) is Some;
            let r = sink_text(p, output, fps);
            let says = |mark: Seq<char>, value: Seq<char>|
                stands_between(r->Ok_0, mark, value, ' ');
            &&& r is Ok <==> rtmp || srt || udp
            &&& r is Ok ==> says(" sync="@, bool_text(p.sync))
            &&& rtmp ==> {
                &&& has_substring(r->Ok_0, " ! rtmp2sink sync="@)
                &&& ends_with(r->Ok_0, " location="@ + output)
            }
            &&& srt ==> {
                &&& has_substring(r->Ok_0, " ! srtsink sync="@)
                &&& says(" wait-for-connection="@, bool_text(p.srt_wait_for_connection))
                &&& says(" latency="@, decimal(p.srt_latency_ms as nat))
                &&& ends_with(r->Ok_0, " uri="@ + output)
            }
            &&& udp ==> exists|host: Seq<char>, port: Seq<char>|
                {
                    &&& output == "udp://"@ + host + ":"@ + port
                    &&& host.len() > 0
                    &&& all_digits(port)
                    &&& has_substring(r->Ok_0, " ! udpsink sync="@)
                    &&& #[trigger] ends_with(r->Ok_0, " host="@ + host + (" port="@ + port))
                }
        }),
{
    let r = sink_text(p, output, fps);
    reveal_strlit("rtmp://");
    reveal_strlit("srt://");
    reveal_strlit("udp://");
    reveal_strlit(":");
    assert("rtmp://"@[0] == 'r' && "srt://"@[0] == 's' && "udp://"@[0] == 'u');
    assert forall|prefix: Seq<char>| #[trigger] has_prefix(output, prefix) && prefix.len()
        > 0 implies output[0] == prefix[0] by {
        assert(output.subrange(0, prefix.len() as int)[0] == prefix[0]);
    }
    if r is Ok {
        let head = sink_head(p.encoder) + encoder_text(p, keyframe_interval(p, fps))
            + " ! h264parse config-interval=-1 ! "@;
        let end = output_text(p, output)->Ok_0;
        let sync = bool_text(p.sync);
        assert(r->Ok_0 == head + end);
        reveal_strlit(" sync=");
        if has_prefix(output, "rtmp://"@) {
            let start = "flvmux name=mux streamable=true ! rtmp2sink sync="@;
            let element = "flvmux name=mux streamable=true ! rtmp2sink"@;
            let tap = "flvmux name=mux streamable=true"@;
            reveal_strlit("flvmux name=mux streamable=true");
            reveal_strlit("flvmux name=mux streamable=true ! rtmp2sink");
            reveal_strlit("flvmux name=mux streamable=true ! rtmp2sink sync=");
            reveal_strlit(" ! rtmp2sink sync=");
            reveal_strlit(" location=");
            assert(start =~= element + " sync="@);
            assert(start =~= tap + " ! rtmp2sink sync="@);
            lemma_sink_tail(head, tap, " ! rtmp2sink sync="@, element, sync, " location="@, output);
            assert(end == start + sync + " location="@ + output);
        } else if has_prefix(output, "srt://"@) {
            let start =
                "mpegtsmux name=mux alignment=7 ! queue max-size-buffers=3 leaky=downstream ! srtsink sync="@;
            let element =
                "mpegtsmux name=mux alignment=7 ! queue max-size-buffers=3 leaky=downstream ! srtsink"@;
            let tap =
                "mpegtsmux name=mux alignment=7 ! queue max-size-buffers=3 leaky=downstream"@;
            reveal_strlit(
                "mpegtsmux name=mux alignment=7 ! queue max-size-buffers=3 leaky=downstream",
            );
            reveal_strlit(
                "mpegtsmux name=mux alignment=7 ! queue max-size-buffers=3 leaky=downstream ! srtsink",
            );
            reveal_strlit(
                "mpegtsmux name=mux alignment=7 ! queue max-size-buffers=3 leaky=downstream ! srtsink sync=",
            );
            reveal_strlit(" ! srtsink sync=");
            assert(start =~= element + " sync="@);
            assert(start =~= tap + " ! srtsink sync="@);
            let wait = bool_text(p.srt_wait_for_connection);
            let latency = decimal(p.srt_latency_ms as nat);
            lemma_srt_tail(head, tap, element, sync, wait, latency, output);
            assert(end == start + sync + " wait-for-connection="@ + wait + " latency="@ + latency
                + " uri="@ + output);
        } else {
            let start = "mpegtsmux name=mux alignment=7 ! udpsink sync="@;
            let element = "mpegtsmux name=mux alignment=7 ! udpsink"@;
            let tap = "mpegtsmux name=mux alignment=7"@;
            reveal_strlit("mpegtsmux name=mux alignment=7");
            reveal_strlit("mpegtsmux name=mux alignment=7 ! udpsink");
            reveal_strlit("mpegtsmux name=mux alignment=7 ! udpsink sync=");
            reveal_strlit(" ! udpsink sync=");
            reveal_strlit(" host=");
            assert(start =~= element + " sync="@);
            assert(start =~= tap + " ! udpsink sync="@);
            let (host, port) = udp_target(output.skip(6))->0;
            let address = host + (" port="@ + port);
            lemma_sink_tail(head, tap, " ! udpsink sync="@, element, sync, " host="@, address);
            assert(end =~= start + sync + " host="@ + address);
            assert(" host="@ + host + (" port="@ + port) =~= " host="@ + address);
            let rest = output.skip(6);
            let i = choose|i: int| host_ends_at(rest, i);
            assert(host == rest.take(i) && port == rest.skip(i + 1));
            assert(output.subrange(0, 6) =~= "udp://"@);
            assert(output =~= "udp://"@ + host + ":"@ + port) by {
                let whole = "udp://"@ + host + ":"@ + port;
                assert(output.len() == whole.len());
                assert forall|k: int| 0 <= k < output.len() implies output[k] == whole[k] by {
                    if k < 6 {
                        assert(output.subrange(0, 6)[k] == output[k]);
                    } else {
                        assert(output[k] == rest[k - 6]);
                    }
                }
            }
            assert(ends_with(r->Ok_0, " host="@ + host + (" port="@ + port)));
        }
    }
}

proof fn lemma_sink_tail(
    head: Seq<char>,
    tap: Seq<char>,
    name: Seq<char>,
    element: Seq<char>,
    sync: Seq<char>,
    mark: Seq<char>,
    address: Seq<char>,
)
    requires
        tap + name == element + " sync="@,
        mark.len() > 0,
        mark[0] == ' ',
    ensures
        ({
            let text = head + (tap + name + sync + mark + address);
            &&& stands_between(text, " sync="@, sync, ' ')
            &&& has_substring(text, name)
            &&& ends_with(text, mark + address)
        }),
{
    let end = tap + name + sync + mark + address;
    lemma_stands(element, " sync="@, sync, mark + address, ' ');
    assert(end =~= element + " sync="@ + sync + (mark + address));
    lemma_stands_behind(head, end, " sync="@, sync, ' ');
    lemma_substring_between(tap, name, sync + mark + address);
    assert(end =~= tap + name + (sync + mark + address));
    lemma_substring_of_sum(head, end, name);
    lemma_ends_with(head + (tap + name + sync), mark + address);
    assert(head + end =~= head + (tap + name + sync) + (mark + address));
}

proof fn lemma_srt_tail(
    head: Seq<char>,
    tap: Seq<char>,
    element: Seq<char>,
    sync: Seq<char>,
    wait: Seq<char>,
    latency: Seq<char>,
    output: Seq<char>,
)
    requires
        tap + " ! srtsink sync="@ == element + " sync="@,
    ensures
        ({
            let text = head + (tap + " ! srtsink sync="@ + sync + " wait-for-connection="@ + wait
                + " latency="@ + latency + " uri="@ + output);
            &&& stands_between(text, " sync="@, sync, ' ')
            &&& stands_between(text, " wait-for-connection="@, wait, ' ')
            &&& stands_between(text, " latency="@, latency, ' ')
            &&& has_substring(text, " ! srtsink sync="@)
            &&& ends_with(text, " uri="@ + output)
        }),
{
    reveal_strlit(" wait-for-connection=");
    reveal_strlit(" latency=");
    reveal_strlit(" uri=");
    let name = " ! srtsink sync="@;
    let (a, b, c) = (" wait-for-connection="@, " latency="@, " uri="@);
    let start = tap + name + sync;
    let end = start + a + wait + b + latency + c + output;
    let address = wait + b + latency + c + output;
    lemma_sink_tail(head, tap, name, element, sync, a, address);
    assert(end =~= start + a + address);
    lemma_stands(head + start, a, wait, b + latency + c + output, ' ');
    assert(head + end =~= head + start + a + wait + (b + latency + c + output));
    let more = head + start + a + wait;
    lemma_stands(more, b, latency, c + output, ' ');
    assert(head + end =~= more + b + latency + (c + output));
    lemma_ends_with(more + b + latency, c + output);
}

/// An override means what it says. A numeral sets its parameter to that number,
/// however large; a truth value turns its switch on or off; a speed preset and
/// a keyframe interval are taken as they are. What cannot be read is the error,
/// by the name of the variable.
pub proof fn law_overrides_mean_what_they_say(
    preset: Seq<char>,
    env: Overrides,
    text: String,
    n: u32,
    interval: GopOverride,
)
    requires
        resolved(preset, env) is Ok,
    ensures
        ({
            let bitrate = resolved(preset, Overrides { bitrate_kbps: Some(text), ..env });
            let vbv = resolved(preset, Overrides { vbv_buf_ms: Some(text), ..env });
            let latency = resolved(preset, Overrides { srt_latency_ms: Some(text), ..env });
            let zero = resolved(preset, Overrides { zerolatency: Some(text), ..env });
            let sync = resolved(preset, Overrides { sink_sync: Some(text), ..env });
            let wait = resolved(preset, Overrides { srt_wait_for_connection: Some(text), ..env });
            let speed = resolved(preset, Overrides { speed_preset: Some(text), ..env });
            let gop = resolved(preset, Overrides { gop_seconds: Some(interval), ..env });
            let yes = text@ == "1"@ || text@ == "true"@ || text@ == "yes"@;
            let no = text@ == "0"@ || text@ == "false"@ || text@ == "no"@;
            &&& text@ == decimal(n as nat) ==> {
                &&& bitrate is Ok && bitrate->Ok_0.bitrate_kbps == n
                &&& vbv is Ok && vbv->Ok_0.vbv_buf_ms == n
                &&& latency is Ok && latency->Ok_0.srt_latency_ms == n
            }
            &&& numeral_up_to(text@, u32::MAX as nat) is None ==> {
                &&& bitrate is Err && has_prefix(bitrate->Err_0, "BRAIDPIPE_BITRATE_KBPS"@)
                &&& vbv is Err && has_prefix(vbv->Err_0, "BRAIDPIPE_VBV_BUF_MS"@)
                &&& latency is Err && has_prefix(latency->Err_0, "BRAIDPIPE_SRT_LATENCY_MS"@)
            }
            &&& yes ==> {
                &&& zero is Ok && zero->Ok_0.zerolatency
                &&& sync is Ok && sync->Ok_0.sync
                &&& wait is Ok && wait->Ok_0.srt_wait_for_connection
            }
            &&& no ==> {
                &&& zero is Ok && !zero->Ok_0.zerolatency
                &&& sync is Ok && !sync->Ok_0.sync
                &&& wait is Ok && !wait->Ok_0.srt_wait_for_connection
            }
            &&& !yes && !no ==> {
                &&& zero is Err && has_prefix(zero->Err_0, "BRAIDPIPE_ZEROLATENCY"@)
                &&& sync is Err && has_prefix(sync->Err_0, "BRAIDPIPE_SINK_SYNC"@)
                &&& wait is Err && has_prefix(wait->Err_0, "BRAIDPIPE_SRT_WAIT_FOR_CONNECTION"@)
            }
            &&& speed is Ok && speed->Ok_0.speed_preset == text@
            &&& match interval.seconds {
                Some(bits) => gop is Ok && gop->Ok_0.gop_seconds == bits,
                None => gop is Err && has_prefix(gop->Err_0, "BRAIDPIPE_GOP_SECONDS"@),
            }
        }),
{
    law_numerals_read_back(n as nat);
    reveal_strlit("1");
    reveal_strlit("true");
    reveal_strlit("yes");
    reveal_strlit("0");
    reveal_strlit("false");
    reveal_strlit("no");
    assert("0"@[0] == '0' && "1"@[0] == '1' && "true"@[0] == 't' && "yes"@[0] == 'y'
        && "false"@[0] == 'f' && "no"@[0] == 'n');
    lemma_named_first("BRAIDPIPE_BITRATE_KBPS"@, text@);
    lemma_named_first("BRAIDPIPE_VBV_BUF_MS"@, text@);
    lemma_named_first("BRAIDPIPE_SRT_LATENCY_MS"@, text@);
    lemma_named_first("BRAIDPIPE_ZEROLATENCY"@, text@);
    lemma_named_first("BRAIDPIPE_SINK_SYNC"@, text@);
    lemma_named_first("BRAIDPIPE_SRT_WAIT_FOR_CONNECTION"@, text@);
    lemma_named_first("BRAIDPIPE_GOP_SECONDS"@, interval.text@);
}

proof fn lemma_named_first(key: Seq<char>, value: Seq<char>)
    ensures
        has_prefix(not_a_number(key, value), key),
        has_prefix(not_a_bool(key, value), key),
{
    let n = key.len() as int;
    assert(not_a_number(key, value).subrange(0, n) =~= key);
    assert(not_a_bool(key, value).subrange(0, n) =~= key);
}

/// Choosing an encoder changes the encoder alone: everything else is what the
/// preset and the environment make it.
pub proof fn law_choosing_an_encoder_changes_nothing_else(
    preset: Seq<char>,
    flag: Option<Seq<char>>,
    env: Overrides,
    detected: Option<Seq<char>>,
)
    requires
        sink_profile(preset, flag, env, detected) is Ok,
    ensures
        ({
            let p = sink_profile(preset, flag, env, detected)->Ok_0;
            let q = resolved(preset, Overrides { encoder: None, ..env });
            q is Ok && p == Profile { encoder: p.encoder, ..q->Ok_0 }
        }),
{
}

/// The audio branch, unless it is given outright, runs from the tap to the
/// muxer through the chosen AAC encoder, at the chosen rate in bits per second:
/// a thousand times the kilobits that were asked for.
pub proof fn law_audio_branch_carries_its_settings(tap: Option<Seq<char>>, env: AudioOverrides, n: u32)
    ensures
        env.branch is Some ==> audio_text(tap, env) == Ok::<Seq<char>, Seq<char>>(env.branch->0@),
        env.branch is None && (if env.bitrate_kbps is Some {
            env.bitrate_kbps->0@ == decimal(n as nat)
        } else {
            n == 128
        }) ==> {
            let text = audio_text(tap, env)->Ok_0;
            &&& audio_text(tap, env) is Ok
            &&& has_prefix(
                text,
                match tap {
                    Some(t) => t,
                    None => "decoder. ! queue ! audio/x-raw"@,
                },
            )
            &&& stands_between(
                text,
                " ! audioconvert ! audioresample ! "@,
                match env.encoder {
                    Some(e) => e@,
                    None => "avenc_aac"@,
                },
                ' ',
            )
            &&& stands_between(text, " bitrate="@, decimal((1000 * n) as nat), ' ')
        },
{
    law_numerals_read_back(n as nat);
    if env.branch is None && audio_text(tap, env) is Ok {
        reveal_strlit(" bitrate=");
        reveal_strlit(" ! aacparse ! queue ! mux.");
        let start = match tap {
            Some(t) => t,
            None => "decoder. ! queue ! audio/x-raw"@,
        };
        let mark = " ! audioconvert ! audioresample ! "@;
        let encoder = text_setting(env.encoder, "avenc_aac"@);
        let rate = decimal((audio_kbps(env)->Ok_0 * 1000) as nat);
        let end = " ! aacparse ! queue ! mux."@;
        let text = start + mark + encoder + " bitrate="@ + rate + end;
        assert(audio_text(tap, env)->Ok_0 == text);
        assert(text.subrange(0, start.len() as int) =~= start);
        lemma_stands(start, mark, encoder, " bitrate="@, ' ');
        let t3 = start + mark + encoder + " bitrate="@;
        lemma_stands_before(t3, rate, mark, encoder, ' ');
        lemma_stands_before(t3 + rate, end, mark, encoder, ' ');
        lemma_stands(start + mark + encoder, " bitrate="@, rate, end, ' ');
    }
}

/// Whether the audio overrides are those of an environment.
pub open spec fn audio_read_from<E: Fn(&str) -> Option<String>>(env: E, r: AudioOverrides) -> bool {
    &&& call_ensures(env, ("BRAIDPIPE_AUDIO_BRANCH",), r.branch)
    &&& call_ensures(env, ("BRAIDPIPE_AUDIO_ENCODER",), r.encoder)
    &&& call_ensures(env, ("BRAIDPIPE_AUDIO_BITRATE_KBPS",), r.bitrate_kbps)
}

/// A variable of the environment sets the audio override that it is named after
/// and no other.
pub proof fn law_variables_set_their_audio_overrides<E: Fn(&str) -> Option<String>>(
    env: E,
    r: AudioOverrides,
    name: Seq<char>,
    value: String,
)
    requires
        audio_read_from(env, r),
        forall|key: &str, v: Option<String>|
            #![trigger call_ensures(env, (key,), v)]
            call_ensures(env, (key,), v) ==> v == if key@ == name {
                Some(value)
            } else {
                None
            },
    ensures
        r.branch == if name == "BRAIDPIPE_AUDIO_BRANCH"@ {
            Some(value)
        } else {
            None
        },
        r.encoder == if name == "BRAIDPIPE_AUDIO_ENCODER"@ {
            Some(value)
        } else {
            None
        },
        r.bitrate_kbps == if name == "BRAIDPIPE_AUDIO_BITRATE_KBPS"@ {
            Some(value)
        } else {
            None
        },
{
}

/// A burst bound is kept as kilobits by the encoders that take it so, and fits
/// there exactly if the bitrate times the milliseconds fits in 32 bits; the
/// others have nothing to compute. Likewise the audio rate, in bits.
pub proof fn law_what_can_be_computed(p: Profile, env: AudioOverrides)
    ensures
        p.encoder != Encoder::Nvenc && p.encoder != Encoder::Va ==> buffer_fits(p),
        p.encoder == Encoder::Nvenc || p.encoder == Encoder::Va ==> (buffer_fits(p)
            <==> p.bitrate_kbps * p.vbv_buf_ms < 0x1_0000_0000),
        env.branch is Some ==> audio_rate_fits(env),
        env.branch is None && audio_kbps(env) is Ok ==> (audio_rate_fits(env)
            <==> audio_kbps(env)->Ok_0 <= 4_294_967),
{
}

/// A preset that does not exist is refused by its name, whatever the
/// environment says, with the names of those that do.
pub proof fn law_unknown_presets_are_refused(preset: Seq<char>, env: Overrides)
    requires
        forall|i: int| 0 <= i < 4 ==> (#[trigger] PRESET_NAMES@[i])@ != preset,
    ensures
        resolved(preset, env) is Err,
        ({
            let text = resolved(preset, env)->Err_0;
            &&& stands_between(text, "unknown preset '"@, preset, '\'')
            &&& has_substring(text, PRESET_NAMES@[0]@)
            &&& has_substring(text, PRESET_NAMES@[1]@)
            &&& has_substring(text, PRESET_NAMES@[2]@)
            &&& has_substring(text, PRESET_NAMES@[3]@)
        }),
{
    lemma_preset_names();
    assert(PRESET_NAMES@[0]@ != preset && PRESET_NAMES@[1]@ != preset && PRESET_NAMES@[2]@
        != preset && PRESET_NAMES@[3]@ != preset);
    let text = no_such_preset(preset);
    let start = "unknown preset '"@;
    let end = "' (expected one of: zerolatency, lowlatency, balanced, bandwidth)"@;
    let none = Seq::<char>::empty();
    reveal_strlit("' (expected one of: zerolatency, lowlatency, balanced, bandwidth)");
    reveal_strlit("zerolatency");
    reveal_strlit("lowlatency");
    reveal_strlit("balanced");
    reveal_strlit("bandwidth");
    lemma_stands(none, start, preset, end, '\'');
    assert(text =~= none + start + preset + end);
    assert(end.subrange(20, 31) =~= "zerolatency"@);
    assert(occurs_at(end, "zerolatency"@, 20));
    assert(end.subrange(33, 43) =~= "lowlatency"@);
    assert(occurs_at(end, "lowlatency"@, 33));
    assert(end.subrange(45, 53) =~= "balanced"@);
    assert(occurs_at(end, "balanced"@, 45));
    assert(end.subrange(55, 64) =~= "bandwidth"@);
    assert(occurs_at(end, "bandwidth"@, 55));
    lemma_substring_of_sum(start + preset, end, "zerolatency"@);
    lemma_substring_of_sum(start + preset, end, "lowlatency"@);
    lemma_substring_of_sum(start + preset, end, "balanced"@);
    lemma_substring_of_sum(start + preset, end, "bandwidth"@);
}

/// An encoder is found by its own name and by no other.
pub proof fn law_encoders_are_found_by_name(e: Encoder, found: Option<Encoder>, name: Seq<char>)
    ensures
        is_named(encoder_name(e), found) <==> found == Some(e),
        is_named(name, None) && is_named(name, found) ==> found is None,
{
    match found {
        Some(other) => law_encoder_names_are_distinct(e, other),
        None => {},
    }
}

/// A sink is built from all that was asked for: it runs at the bitrate that
/// preset and environment come to, has its keyframes as far apart as the frame
/// rate makes them, and a complaint about either is the answer instead.
pub proof fn law_sinks_are_built_as_asked(
    preset: Seq<char>,
    output: Seq<char>,
    fps: u32,
    encoder: Option<Seq<char>>,
    env: Overrides,
    detected: Option<Seq<char>>,
)
    ensures
        sink_profile(preset, encoder, env, detected) matches Err(e) ==> built_sink(
            preset,
            output,
            fps,
            encoder,
            env,
            detected,
        ) == Err::<Seq<char>, Seq<char>>(e),
        built_sink(preset, output, fps, encoder, env, detected) matches Ok(text) ==> {
            let p = sink_profile(preset, encoder, env, detected)->Ok_0;
            &&& sink_profile(preset, encoder, env, detected) is Ok
            &&& stands_between(text, " bitrate="@, decimal(p.bitrate_kbps as nat), ' ')
            &&& p.encoder == Encoder::X264 ==> stands_between(
                text,
                " key-int-max="@,
                decimal(keyframe_interval(p, fps)),
                ' ',
            )
        },
{
    if let Ok(p) = sink_profile(preset, encoder, env, detected) {
        if sink_text(p, output, fps) is Ok {
            law_sink_carries_the_profile(p, output, fps);
        }
    }
}

/// The figures of every preset, in the order of [`PRESET_NAMES`]: its bitrate,
/// how far it may burst, the latency of its transport, and the frames between
/// keyframes at any rate.
pub proof fn law_presets_hold_their_figures(i: int, fps: u32)
    requires
        0 <= i < 4,
        0 < fps <= 0x3fff_ffff,
    ensures
        ({
            let p = preset_profile(PRESET_NAMES@[i]@)->0;
            &&& p.bitrate_kbps == seq![6000int, 4500, 3000, 1800][i]
            &&& p.vbv_buf_ms == seq![100int, 200, 500, 1000][i]
            &&& p.srt_latency_ms == seq![50int, 125, 250, 500][i]
            &&& keyframe_interval(p, fps) == seq![1 * fps, 2 * fps, 2 * fps, 4 * fps][i]
            &&& p.speed_preset == seq!["ultrafast"@, "veryfast"@, "medium"@, "slow"@][i]
        }),
{
    lemma_preset_names();
    law_keyframes_come_every_so_many_seconds(preset_profile(PRESET_NAMES@[i]@)->0, fps);
}

} // verus!
