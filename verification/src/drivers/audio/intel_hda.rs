//! Intel High Definition Audio controller: codec verbs, widget capabilities,
//! stream formats and buffer descriptor lists, playback state and the
//! `audio:` files.
//!
//! Codec verbs go out through the controller's immediate command interface,
//! which always answers: the driver queues the verbs it sends in `verbs`,
//! and the caller hands it the answers to the verbs whose answer it reads.
use vstd::prelude::*;
use crate::drivers::{PAGE_SIZE, RegisterFile};
use crate::drivers::input::spec_relative_path;
use crate::drivers::storage::IOCompletion;
use crate::fs::{
    DirectoryEntry, MountPoint, bytes_eq, bytes_to_vec, DEV_R_DIR_FLAGS, DEV_R_FILE_FLAGS,
    DEV_W_FILE_FLAGS, DEV_RW_FILE_FLAGS,
};
use crate::text::{
    is_utf8, utf8_valid, trim, spec_trim, split_once_exact, single_byte, parse_u8, spec_parse_u8,
    read_text, is_digit, lemma_ascii_is_utf8, lemma_trim_nothing, lemma_parse_dec,
    lemma_dec_text_digits,
};
use crate::fs::{contains_byte, is_first_index, lemma_first_index_unique};
use crate::util::{dec_text, push_dec};
use crate::fs::first_index;

verus! {

/// Largest gain of the codecs' amplifiers.
pub const HDA_MAX_GAIN: u8 = 0x7F;

// Verb identifiers (12-bit verbs, and 4-bit verbs that carry 16-bit payloads).
pub const VERBID_GET_PARAM: u32 = 0xF00;
pub const VERBID_GET_CONN_ENT: u32 = 0xF02;
pub const VERBID_SET_AMP_GAIN: u8 = 0x3;
pub const VERBID_GET_FORMAT: u8 = 0xA;
pub const VERBID_SET_FORMAT: u8 = 0x2;
pub const VERBID_GET_PWR_STATE: u32 = 0xF05;
pub const VERBID_SET_PWR_STATE: u32 = 0x705;
pub const VERBID_GET_CNV_CTRL: u32 = 0xF06;
pub const VERBID_SET_CNV_CTRL: u32 = 0x706;
pub const VERBID_SET_PIN_CTRL: u32 = 0x707;
pub const VERBID_GET_EAPD_BTL: u32 = 0xF0C;
pub const VERBID_SET_EAPD_BTL: u32 = 0x70C;
pub const VERBID_GET_CONF_DEF: u32 = 0xF1C;

// Parameters read with `VERBID_GET_PARAM`.
pub const CODEC_PARAM_VENDOR_ID: u32 = 0x00;
pub const CODEC_PARAM_NODE_CNT: u32 = 0x04;
pub const CODEC_PARAM_FG_TYPE: u32 = 0x05;
pub const CODEC_PARAM_WIDGET_CAP: u32 = 0x09;
pub const CODEC_PARAM_PIN_CAP: u32 = 0x0C;
pub const CODEC_PARAM_CONN_LIST_CNT: u32 = 0x0E;

/// A verb with a 12-bit verb id and an 8-bit payload:
/// codec address [31:28], node id [27:20], verb id [19:8], payload [7:0].
pub open spec fn spec_build_verb(cad: u8, nid: u8, verb_id: u32, payload: u32) -> u32 {
    ((cad as u32) << 28u32) | ((nid as u32) << 20u32) | (verb_id << 8u32) | (payload & 0xFF)
}

/// A verb with a 4-bit verb id and a 16-bit payload:
/// codec address [31:28], node id [27:20], verb id [19:16], payload [15:0].
pub open spec fn spec_build_verb16(cad: u8, nid: u8, verb_id: u8, payload: u16) -> u32 {
    ((cad as u32) << 28u32) | ((nid as u32) << 20u32) | (((verb_id & 0xF) as u32) << 16u32) | (
    payload as u32)
}

pub fn build_verb(cad: u8, nid: u8, verb_id: u32, payload: u32) -> (v: u32)
    ensures
        v == spec_build_verb(cad, nid, verb_id, payload),
{
    ((cad as u32) << 28u32) | ((nid as u32) << 20u32) | (verb_id << 8u32) | (payload & 0xFF)
}

pub fn build_verb16(cad: u8, nid: u8, verb_id: u8, payload: u16) -> (v: u32)
    ensures
        v == spec_build_verb16(cad, nid, verb_id, payload),
{
    ((cad as u32) << 28u32) | ((nid as u32) << 20u32) | (((verb_id & 0xF) as u32) << 16u32) | (
    payload as u32)
}

/// A verb carries its fields where the codec reads them: the codec address,
/// the node id, the verb id and the payload can each be read back.
pub proof fn lemma_verb_fields(cad: u8, nid: u8, verb_id: u32, payload: u32)
    requires
        cad < 16,
        verb_id < 0x1000,
    ensures
        spec_build_verb(cad, nid, verb_id, payload) >> 28u32 == cad as u32,
        (spec_build_verb(cad, nid, verb_id, payload) >> 20u32) & 0xFF == nid as u32,
        (spec_build_verb(cad, nid, verb_id, payload) >> 8u32) & 0xFFF == verb_id,
        spec_build_verb(cad, nid, verb_id, payload) & 0xFF == payload & 0xFF,
{
    assert({
        let v = ((cad as u32) << 28u32) | ((nid as u32) << 20u32) | (verb_id << 8u32) | (payload
            & 0xFF);
        &&& v >> 28u32 == cad as u32
        &&& (v >> 20u32) & 0xFF == nid as u32
        &&& (v >> 8u32) & 0xFFF == verb_id
        &&& v & 0xFF == payload & 0xFF
    }) by (bit_vector)
        requires
            cad < 16,
            verb_id < 0x1000,
    ;
}

/// The payload of a "set amplifier gain/mute" verb.
pub open spec fn spec_amp_gain_payload(
    selector_index: u8,
    set_inp_amp: bool,
    set_out_amp: bool,
    set_left: bool,
    set_right: bool,
    gain: u8,
    mute: bool,
) -> u16 {
    ((gain & 0x7F) as u16) | (if mute {
        0x80u16
    } else {
        0u16
    }) | (((selector_index as u16) & 0xF) << 8u16) | (if set_right {
        0x1000u16
    } else {
        0u16
    }) | (if set_left {
        0x2000u16
    } else {
        0u16
    }) | (if set_inp_amp {
        0x4000u16
    } else {
        0u16
    }) | (if set_out_amp {
        0x8000u16
    } else {
        0u16
    })
}

pub fn amp_gain_payload(
    selector_index: u8,
    set_inp_amp: bool,
    set_out_amp: bool,
    set_left: bool,
    set_right: bool,
    gain: u8,
    mute: bool,
) -> (g: u16)
    ensures
        g == spec_amp_gain_payload(
            selector_index,
            set_inp_amp,
            set_out_amp,
            set_left,
            set_right,
            gain,
            mute,
        ),
{
    ((gain & 0x7F) as u16) | (if mute {
        0x80u16
    } else {
        0u16
    }) | (((selector_index as u16) & 0xF) << 8u16) | (if set_right {
        0x1000u16
    } else {
        0u16
    }) | (if set_left {
        0x2000u16
    } else {
        0u16
    }) | (if set_inp_amp {
        0x4000u16
    } else {
        0u16
    }) | (if set_out_amp {
        0x8000u16
    } else {
        0u16
    })
}

/// The payload of a "set EAPD/BTL enable" verb.
pub open spec fn spec_eapd_btl_payload(eapd_enable: bool, btl_enable: bool, lr_swap: bool) -> u32 {
    (if lr_swap {
        4u32
    } else {
        0u32
    }) | (if eapd_enable {
        2u32
    } else {
        0u32
    }) | (if btl_enable {
        1u32
    } else {
        0u32
    })
}

pub fn eapd_btl_payload(eapd_enable: bool, btl_enable: bool, lr_swap: bool) -> (v: u32)
    ensures
        v == spec_eapd_btl_payload(eapd_enable, btl_enable, lr_swap),
{
    (if lr_swap {
        4u32
    } else {
        0u32
    }) | (if eapd_enable {
        2u32
    } else {
        0u32
    }) | (if btl_enable {
        1u32
    } else {
        0u32
    })
}

/// The payload of a "set pin widget control" verb.
pub open spec fn spec_pin_control_payload(inp_enable: bool, out_enable: bool, hpn_enable: bool) -> u32 {
    (if inp_enable {
        0x20u32
    } else {
        0u32
    }) | (if out_enable {
        0x40u32
    } else {
        0u32
    }) | (if hpn_enable {
        0x80u32
    } else {
        0u32
    })
}

pub fn pin_control_payload(inp_enable: bool, out_enable: bool, hpn_enable: bool) -> (v: u32)
    ensures
        v == spec_pin_control_payload(inp_enable, out_enable, hpn_enable),
{
    (if inp_enable {
        0x20u32
    } else {
        0u32
    }) | (if out_enable {
        0x40u32
    } else {
        0u32
    }) | (if hpn_enable {
        0x80u32
    } else {
        0u32
    })
}

/// The payload that maps a converter to a stream and its lowest channel:
/// stream [7:4], channel [3:0].
pub open spec fn spec_stream_channel_payload(stream_id: u8, channel: u8) -> u32 {
    ((channel & 0xF) | ((stream_id & 0xF) << 4u8)) as u32
}

pub fn stream_channel_payload(stream_id: u8, channel: u8) -> (v: u32)
    ensures
        v == spec_stream_channel_payload(stream_id, channel),
{
    ((channel & 0xF) | ((stream_id & 0xF) << 4u8)) as u32
}

/// Reads a converter's (stream, channel) mapping from the codec's answer.
pub fn decode_stream_channel(resp: u32) -> (r: (u8, u8))
    ensures
        r == (((resp >> 4u32) & 0xF) as u8, (resp & 0xF) as u8),
{
    (((resp >> 4u32) & 0xF) as u8, (resp & 0xF) as u8)
}

/// Reading back a converter's mapping gives the stream and channel that
/// were set (each is a 4-bit field).
pub proof fn lemma_stream_channel_roundtrip(stream_id: u8, channel: u8)
    ensures
        ({
            let m = spec_stream_channel_payload(stream_id, channel);
            (((m >> 4u32) & 0xF) as u8, (m & 0xF) as u8) == (stream_id & 0xF, channel & 0xF)
        }),
{
    assert({
        let m = ((channel & 0xF) | ((stream_id & 0xF) << 4u8)) as u32;
        (((m >> 4u32) & 0xF) as u8 == stream_id & 0xF) && ((m & 0xF) as u8 == channel & 0xF)
    }) by (bit_vector);
}

// ---------------------------------------------------------------------------
// Widgets
// ---------------------------------------------------------------------------

/// The kind of an audio widget, from bits [23:20] of its capabilities.
#[derive(Clone, Copy, Debug, PartialEq, Eq, Structural)]
pub enum WidgetType {
    AudioOutput,
    AudioInput,
    AudioMixer,
    AudioSelector,
    PinComplex,
    PowerWidget,
    VolumeKnob,
    BeepGenerator,
    VendorDefined,
    Unknown,
}

pub open spec fn spec_widget_type(caps: u32) -> WidgetType {
    let t = (caps & 0xF00000) >> 20u32;
    if t == 0 {
        WidgetType::AudioOutput
    } else if t == 1 {
        WidgetType::AudioInput
    } else if t == 2 {
        WidgetType::AudioMixer
    } else if t == 3 {
        WidgetType::AudioSelector
    } else if t == 4 {
        WidgetType::PinComplex
    } else if t == 5 {
        WidgetType::PowerWidget
    } else if t == 6 {
        WidgetType::VolumeKnob
    } else if t == 7 {
        WidgetType::BeepGenerator
    } else if t == 0xF {
        WidgetType::VendorDefined
    } else {
        WidgetType::Unknown
    }
}

pub const PINCAP_HEADPHONE: u32 = 0x8;
pub const PINCAP_OUTPUT: u32 = 0x10;
pub const PINCAP_INPUT: u32 = 0x20;

/// A widget found under an audio function group.
pub struct AudioWidget {
    /// Node id of the audio function group the widget belongs to
    pub afg_nid: u8,
    pub nid: u8,
    /// Audio widget capabilities
    pub caps: u32,
    /// Pin capabilities (pin complexes only)
    pub pin_caps: Option<u32>,
    /// Configuration default
    pub pin_conf: Option<u32>,
    /// Nodes the widget's inputs connect to
    pub conn_list: Option<Vec<u16>>,
}

impl AudioWidget {
    pub fn widget_type(&self) -> (t: WidgetType)
        ensures
            t == spec_widget_type(self.caps),
    {
        let t = (self.caps & 0xF00000) >> 20u32;
        if t == 0 {
            WidgetType::AudioOutput
        } else if t == 1 {
            WidgetType::AudioInput
        } else if t == 2 {
            WidgetType::AudioMixer
        } else if t == 3 {
            WidgetType::AudioSelector
        } else if t == 4 {
            WidgetType::PinComplex
        } else if t == 5 {
            WidgetType::PowerWidget
        } else if t == 6 {
            WidgetType::VolumeKnob
        } else if t == 7 {
            WidgetType::BeepGenerator
        } else if t == 0xF {
            WidgetType::VendorDefined
        } else {
            WidgetType::Unknown
        }
    }

    /// Number of channels: the channel-count fields of the capabilities plus one.
    pub fn channels(&self) -> (c: u8)
        ensures
            c == (((self.caps & 0xE000) >> 12u32) | (self.caps & 1)) + 1,
    {
        let caps = self.caps;
        let c = ((caps & 0xE000) >> 12u32) | (caps & 1);
        assert(c <= 0xF) by (bit_vector)
            requires
                c == ((caps & 0xE000) >> 12u32) | (caps & 1),
        ;
        (c as u8) + 1
    }

    pub fn in_amp_present(&self) -> (b: bool)
        ensures
            b == (self.caps & 2 != 0),
    {
        (self.caps & 2) != 0
    }

    pub fn out_amp_present(&self) -> (b: bool)
        ensures
            b == (self.caps & 4 != 0),
    {
        (self.caps & 4) != 0
    }

    pub fn amp_override(&self) -> (b: bool)
        ensures
            b == (self.caps & 8 != 0),
    {
        (self.caps & 8) != 0
    }

    pub fn fmt_override(&self) -> (b: bool)
        ensures
            b == (self.caps & 0x10 != 0),
    {
        (self.caps & 0x10) != 0
    }

    pub fn pin_is_output_capable(&self) -> (b: bool)
        ensures
            b == (self.pin_caps matches Some(p) && p & PINCAP_OUTPUT != 0),
    {
        match self.pin_caps {
            Some(p) => (p & PINCAP_OUTPUT) != 0,
            None => false,
        }
    }

    pub fn pin_is_headphone_capable(&self) -> (b: bool)
        ensures
            b == (self.pin_caps matches Some(p) && p & PINCAP_HEADPHONE != 0),
    {
        match self.pin_caps {
            Some(p) => (p & PINCAP_HEADPHONE) != 0,
            None => false,
        }
    }

    pub fn pin_is_input_capable(&self) -> (b: bool)
        ensures
            b == (self.pin_caps matches Some(p) && p & PINCAP_INPUT != 0),
    {
        match self.pin_caps {
            Some(p) => (p & PINCAP_INPUT) != 0,
            None => false,
        }
    }
}

// ---------------------------------------------------------------------------
// Streams
// ---------------------------------------------------------------------------

/// Bytes of one buffer descriptor list entry.
pub const BDL_ENTRY_SIZE: usize = 16;
/// Entries in a stream's buffer descriptor list (one page of entries).
pub const BDL_MAX_ENTRIES: usize = 256;
/// Bytes of a stream's PCM buffer: one page per descriptor.
pub const PCM_BUFFER_SIZE: usize = 0x100000;

/// Stream control register bits.
pub const CTL_SRST: u32 = 1;
pub const CTL_RUN: u32 = 2;
pub const CTL_IOC: u32 = 4;
/// Written to a stream's status register to clear its completion and error bits.
pub const STS_CLEAR_BITS: u8 = 0x1C;

/// Whether the base rate is 44.1 kHz (else 48 kHz), the multiplier and the
/// divider of each supported sample rate.
pub open spec fn spec_rate_params(srate: u32) -> Option<(bool, u16, u16)> {
    if srate == 8000 {
        Some((false, 1u16, 6u16))
    } else if srate == 11025 {
        Some((true, 1u16, 4u16))
    } else if srate == 16000 {
        Some((false, 1u16, 3u16))
    } else if srate == 22050 {
        Some((true, 1u16, 2u16))
    } else if srate == 32000 {
        Some((false, 1u16, 2u16))
    } else if srate == 44100 {
        Some((true, 1u16, 1u16))
    } else if srate == 48000 {
        Some((false, 1u16, 1u16))
    } else if srate == 88200 {
        Some((true, 2u16, 1u16))
    } else if srate == 96000 {
        Some((false, 2u16, 1u16))
    } else if srate == 176400 {
        Some((true, 4u16, 1u16))
    } else if srate == 192000 {
        Some((false, 4u16, 1u16))
    } else {
        None
    }
}

/// The bits-per-sample code (16-bit for sizes the controller does not have).
pub open spec fn spec_bps_code(bps: u8) -> u16 {
    if bps == 8 {
        0
    } else if bps == 16 {
        1
    } else if bps == 20 {
        2
    } else if bps == 24 {
        3
    } else if bps == 32 {
        4
    } else {
        1
    }
}

/// The stream format word: base rate [14], multiplier - 1 [13:11],
/// divider - 1 [10:8], channels - 1 [7:4], bits-per-sample code [3:0];
/// 0 for a sample rate the controller does not have.
pub open spec fn spec_audio_format(ch: u8, srate: u32, bps: u8) -> u16 {
    match spec_rate_params(srate) {
        Some((b44, mult, div)) => ((if b44 {
            1u16
        } else {
            0u16
        }) << 14u16) | (((mult - 1) as u16) << 11u16) | (((div - 1) as u16) << 8u16) | ((((ch
            - 1) as u16) & 0xF) << 4u16) | spec_bps_code(bps),
        None => 0,
    }
}

/// The format word names the sample size and channel count it was built
/// for: its low four bits are the sample-size code, 0, 1, 2, 3, 4 for 8,
/// 16, 20, 24 and 32 bits (so different sizes give different codes), and
/// the next four bits are the channel count less one.
pub proof fn lemma_format_word_fields(ch: u8, srate: u32, bps: u8)
    requires
        spec_rate_params(srate) is Some,
        1 <= ch <= 16,
        bps == 8 || bps == 16 || bps == 20 || bps == 24 || bps == 32,
    ensures
        ({
            let f = spec_audio_format(ch, srate, bps);
            &&& f & 0xF < 5
            &&& seq![8u8, 16, 20, 24, 32][(f & 0xF) as int] == bps
            &&& ((f >> 4u16) & 0xF) + 1 == ch
        }),
{
    let (b44, mult, div) = spec_rate_params(srate)->0;
    let b: u16 = if b44 { 1u16 } else { 0u16 };
    let m1: u16 = (mult - 1) as u16;
    let d1: u16 = (div - 1) as u16;
    let c1: u16 = (ch - 1) as u16;
    let code = spec_bps_code(bps);
    assert(code < 5 && seq![8u8, 16, 20, 24, 32][code as int] == bps);
    assert(b <= 1 && m1 <= 3 && d1 <= 7 && c1 <= 15);
    let f = spec_audio_format(ch, srate, bps);
    assert(f == (b << 14u16) | (m1 << 11u16) | (d1 << 8u16) | ((c1 & 0xF) << 4u16) | code);
    assert(((b << 14u16) | (m1 << 11u16) | (d1 << 8u16) | ((c1 & 0xF) << 4u16) | code) & 0xF == code
        && ((((b << 14u16) | (m1 << 11u16) | (d1 << 8u16) | ((c1 & 0xF) << 4u16) | code) >> 4u16)
        & 0xF) == c1) by (bit_vector)
        requires
            b <= 1,
            m1 <= 3,
            d1 <= 7,
            c1 <= 15,
            code < 5,
    ;
}

/// Every supported sample rate but 32 kHz is its base rate times its
/// multiplier over its divider (32 kHz is sent as 48 kHz / 2).
pub proof fn lemma_rate_params_exact(srate: u32)
    requires
        spec_rate_params(srate) is Some,
    ensures
        srate != 32000 ==> ({
            let (b44, mult, div) = spec_rate_params(srate)->0;
            (if b44 {
                44100int
            } else {
                48000int
            }) * mult as int == srate as int * div as int
        }),
        ({
            let (b44, mult, div) = spec_rate_params(srate)->0;
            1 <= mult <= 8 && 1 <= div <= 8
        }),
{
    let (b44, mult, div) = spec_rate_params(srate)->0;
    let base: int = if b44 {
        44100int
    } else {
        48000int
    };
    if srate == 8000 {
        assert(base * mult as int == 48000 * 1 && srate as int * div as int == 48000 * 1);
    } else if srate == 11025 {
        assert(base * mult as int == 44100 * 1 && srate as int * div as int == 44100 * 1);
    } else if srate == 16000 {
        assert(base * mult as int == 48000 * 1 && srate as int * div as int == 48000 * 1);
    } else if srate == 22050 {
        assert(base * mult as int == 44100 * 1 && srate as int * div as int == 44100 * 1);
    } else if srate == 32000 {
        assert(base * mult as int == 48000 * 1 && srate as int * div as int == 32000 * 2);
    } else if srate == 44100 {
        assert(base * mult as int == 44100 * 1 && srate as int * div as int == 44100 * 1);
    } else if srate == 48000 {
        assert(base * mult as int == 48000 * 1 && srate as int * div as int == 48000 * 1);
    } else if srate == 88200 {
        assert(base * mult as int == 44100 * 2 && srate as int * div as int == 44100 * 2);
    } else if srate == 96000 {
        assert(base * mult as int == 48000 * 2 && srate as int * div as int == 48000 * 2);
    } else if srate == 176400 {
        assert(base * mult as int == 44100 * 4 && srate as int * div as int == 44100 * 4);
    } else {
        assert(base * mult as int == 48000 * 4 && srate as int * div as int == 48000 * 4);
    }
}

/// The fields of a format word read back as the rate parameters, channel
/// count and sample-size code they were built from.
pub proof fn lemma_format_fields(b: u16, m1: u16, d1: u16, c: u16, code: u16)
    requires
        b < 2,
        m1 < 8,
        d1 < 8,
        c < 16,
        code < 16,
    ensures
        ({
            let f = (b << 14u16) | (m1 << 11u16) | (d1 << 8u16) | (c << 4u16) | code;
            &&& (f >> 14u16) & 1 == b
            &&& (f >> 11u16) & 7 == m1
            &&& (f >> 8u16) & 7 == d1
            &&& (f >> 4u16) & 0xF == c
            &&& f & 0xF == code
        }),
{
    assert({
        let f = (b << 14u16) | (m1 << 11u16) | (d1 << 8u16) | (c << 4u16) | code;
        &&& (f >> 14u16) & 1 == b
        &&& (f >> 11u16) & 7 == m1
        &&& (f >> 8u16) & 7 == d1
        &&& (f >> 4u16) & 0xF == c
        &&& f & 0xF == code
    }) by (bit_vector)
        requires
            b < 2,
            m1 < 8,
            d1 < 8,
            c < 16,
            code < 16,
    ;
}

/// The two halves of a descriptor list address: (lower, upper) 32 bits.
pub fn bdl_address_words(addr: u64) -> (w: (u32, u32))
    ensures
        w.0 == addr % 0x1_0000_0000,
        w.1 == addr / 0x1_0000_0000,
{
    assert(addr & 0xFFFF_FFFF == addr % 0x1_0000_0000 && addr >> 32u64 == addr / 0x1_0000_0000)
        by (bit_vector);
    ((addr & 0xFFFF_FFFF) as u32, (addr >> 32u64) as u32)
}

/// The 3-byte control register is written as the 16 bits at offset 1, then
/// the byte at offset 0 (the status byte after it stays untouched).
pub fn ctrl_reg_bytes(value: u32) -> (w: (u16, u8))
    ensures
        w.0 == (value / 0x100) % 0x10000,
        w.1 == value % 0x100,
{
    let r = (((value & 0xFFFF00) >> 8u32) as u16, (value & 0xFF) as u8);
    assert(((value & 0xFFFF00) >> 8u32) == (value / 0x100) % 0x10000 && value & 0xFF == value
        % 0x100) by (bit_vector);
    r
}

/// One buffer descriptor: the address and valid length of a page of PCM
/// data, and whether the controller interrupts when it is done with it.
#[derive(Clone, Copy, Debug, PartialEq, Eq, Structural)]
pub struct BufferDescListEntry {
    pub addr: u64,
    pub len: u32,
    /// Bit 0: interrupt on completion
    pub flags: u32,
}

/// An input or output stream of the controller: its buffers and format, and
/// the values of its registers, which hold what the driver wrote to them.
pub struct HDAStream {
    pub mmio_base: usize,
    /// Stream number the converters are mapped to (from 1)
    pub number: u8,
    /// Set once the stream has been reset
    pub enabled: bool,
    pub bdl_virt: usize,
    pub bdl_phys: usize,
    pub pcm_phys: usize,
    pub pcm_virt: usize,
    pub pcm_capacity: usize,
    /// Where the next samples go in the PCM buffer
    pub pcm_wp: usize,
    pub sample_rate: u32,
    pub bits_per_sample: u8,
    pub channels: u8,
    /// The descriptor list page
    pub bdl: Vec<BufferDescListEntry>,
    /// The bytes of the PCM buffer
    pub pcm: Vec<u8>,
    /// Control register
    pub ctl: u32,
    /// Cyclic buffer length register
    pub cbl: u32,
    /// Last valid index register
    pub lvi: u8,
    /// Format register
    pub fmt: u16,
}

/// The descriptor list after PCM data filled the buffer from `wp` to `end`:
/// the descriptors of the pages in between hold their valid lengths, and
/// only the last of them interrupts.
pub open spec fn spec_bdl_after_push(
    bdl: Seq<BufferDescListEntry>,
    wp: int,
    end: int,
) -> Seq<BufferDescListEntry> {
    Seq::new(
        bdl.len(),
        |i: int|
            if wp / 4096 <= i <= (end - 1) / 4096 {
                BufferDescListEntry {
                    addr: bdl[i].addr,
                    len: (if (i + 1) * 4096 <= end {
                        4096
                    } else {
                        end - i * 4096
                    }) as u32,
                    flags: if i == (end - 1) / 4096 {
                        1
                    } else {
                        0
                    },
                }
            } else {
                bdl[i]
            },
    )
}

/// The descriptor of the `i`-th page of a PCM buffer at `pcm_phys`, empty.
pub open spec fn fresh_bdl_entry(pcm_phys: usize, i: int) -> BufferDescListEntry {
    BufferDescListEntry { addr: (pcm_phys + i * 4096) as u64, len: 0, flags: 0 }
}

/// The bytes a push of `data_len` bytes writes: whole samples, as many as
/// fit, none while the stream runs.
pub open spec fn spec_push_len(st: HDAStream, data_len: int) -> int {
    if st.ctl & CTL_RUN != 0 {
        0
    } else {
        vstd::math::min(
            (data_len / st.sample_size()) * st.sample_size(),
            st.pcm_capacity - st.pcm_wp,
        )
    }
}

/// The PCM buffer `pcm` after the first `n` bytes of `data` were written
/// at `wp`.
pub open spec fn spec_pcm_after_push(pcm: Seq<u8>, wp: int, data: Seq<u8>, n: int) -> Seq<u8> {
    pcm.subrange(0, wp) + data.subrange(0, n) + pcm.subrange(wp + n, pcm.len() as int)
}

/// A PCM buffer of `PCM_BUFFER_SIZE` bytes, all 0.
fn zeroed_pcm_buffer() -> (v: Vec<u8>)
    ensures
        v@.len() == PCM_BUFFER_SIZE,
{
    let mut v: Vec<u8> = Vec::new();
    let mut i: usize = 0;
    while i < PCM_BUFFER_SIZE
        invariant
            i <= PCM_BUFFER_SIZE,
            v@.len() == i,
        decreases PCM_BUFFER_SIZE - i,
    {
        v.push(0);
        i = i + 1;
    }
    v
}

/// `b` is `a` after the first `n` bytes of `data` were appended as PCM data.
pub open spec fn stream_after_push(a: HDAStream, b: HDAStream, data: Seq<u8>, n: int) -> bool {
    &&& b.same_setup(&a)
    &&& b.ctl == a.ctl
    &&& b.pcm@ == spec_pcm_after_push(a.pcm@, a.pcm_wp as int, data, n)
    &&& n == 0 ==> b.pcm_wp == a.pcm_wp && b.bdl@ == a.bdl@ && b.cbl == a.cbl && b.lvi == a.lvi
    &&& n > 0 ==> {
        &&& b.pcm_wp == a.pcm_wp + n
        &&& b.cbl == a.pcm_wp + n
        &&& b.lvi == (a.pcm_wp + n - 1) / 4096
        &&& b.bdl@ == spec_bdl_after_push(a.bdl@, a.pcm_wp as int, a.pcm_wp + n)
    }
}

/// `b` is `a` started with an interrupt on completion.
pub open spec fn stream_after_run(a: HDAStream, b: HDAStream) -> bool {
    &&& b.ctl == a.ctl | CTL_RUN | CTL_IOC | ((a.number as u32) << 20u32)
    &&& b.same_setup(&a)
    &&& b.pcm_wp == a.pcm_wp && b.bdl@ == a.bdl@ && b.cbl == a.cbl && b.lvi == a.lvi
    &&& b.pcm@ == a.pcm@
}

/// `b` is `a` stopped, its buffer emptied.
pub open spec fn stream_after_stop(a: HDAStream, b: HDAStream) -> bool {
    &&& b.ctl == a.ctl & !CTL_RUN
    &&& b.pcm_wp == 0
    &&& b.same_setup(&a)
    &&& b.bdl@ == a.bdl@ && b.cbl == a.cbl && b.lvi == a.lvi
    &&& b.pcm@ == a.pcm@
}

impl HDAStream {
    pub open spec fn wf(&self) -> bool {
        &&& self.pcm_wp <= self.pcm_capacity
        &&& self.pcm@.len() == self.pcm_capacity
        &&& (self.pcm_capacity == 0 || (self.pcm_capacity == PCM_BUFFER_SIZE && self.bdl@.len()
            == BDL_MAX_ENTRIES))
    }

    /// The bytes of one sample over all channels.
    pub open spec fn sample_size(&self) -> int {
        (self.bits_per_sample / 8) as int * self.channels as int
    }

    /// Where the stream lives: its number, registers and buffers.
    pub open spec fn same_placement(&self, other: &HDAStream) -> bool {
        &&& self.number == other.number
        &&& self.mmio_base == other.mmio_base
        &&& self.bdl_phys == other.bdl_phys
        &&& self.bdl_virt == other.bdl_virt
        &&& self.pcm_phys == other.pcm_phys
        &&& self.pcm_virt == other.pcm_virt
        &&& self.pcm_capacity == other.pcm_capacity
    }

    /// The fields that PCM data does not change.
    pub open spec fn same_setup(&self, other: &HDAStream) -> bool {
        &&& self.mmio_base == other.mmio_base
        &&& self.number == other.number
        &&& self.enabled == other.enabled
        &&& self.bdl_virt == other.bdl_virt
        &&& self.bdl_phys == other.bdl_phys
        &&& self.pcm_phys == other.pcm_phys
        &&& self.pcm_virt == other.pcm_virt
        &&& self.pcm_capacity == other.pcm_capacity
        &&& self.sample_rate == other.sample_rate
        &&& self.bits_per_sample == other.bits_per_sample
        &&& self.channels == other.channels
        &&& self.fmt == other.fmt
    }

    /// A stream that is not set up yet: 48 kHz, 16-bit stereo.
    pub fn new() -> (s: Self)
        ensures
            s.wf(),
            s.number == 0 && !s.enabled && s.mmio_base == 0,
            s.bdl_virt == 0 && s.bdl_phys == 0,
            s.pcm_phys == 0 && s.pcm_virt == 0 && s.pcm_capacity == 0 && s.pcm_wp == 0,
            s.sample_rate == 48000 && s.bits_per_sample == 16 && s.channels == 2,
            s.bdl@.len() == 0,
            s.ctl == 0 && s.cbl == 0 && s.lvi == 0 && s.fmt == 0,
    {
        HDAStream {
            mmio_base: 0,
            number: 0,
            enabled: false,
            bdl_virt: 0,
            bdl_phys: 0,
            pcm_phys: 0,
            pcm_virt: 0,
            pcm_capacity: 0,
            pcm_wp: 0,
            sample_rate: 48000,
            bits_per_sample: 16,
            channels: 2,
            bdl: Vec::new(),
            pcm: Vec::new(),
            ctl: 0,
            cbl: 0,
            lvi: 0,
            fmt: 0,
        }
    }

    /// Sets the stream up: the first time, takes its number, registers and
    /// descriptor list page (at `bdl_phys`); then points every descriptor at
    /// its page of the PCM buffer at `pcm_phys` and resets the stream.
    pub fn init(
        &mut self,
        stream_number: u8,
        mmio_base: usize,
        bdl_phys: usize,
        bdl_virt: usize,
        pcm_phys: usize,
        pcm_virt: usize,
    ) -> (ok: bool)
        requires
            old(self).wf(),
            pcm_phys + PCM_BUFFER_SIZE <= usize::MAX,
        ensures
            final(self).wf(),
            old(self).bdl_phys == 0 ==> final(self).number == stream_number && final(self).mmio_base
                == mmio_base && final(self).bdl_phys == bdl_phys && final(self).bdl_virt == bdl_virt
                && final(self).lvi == 0,
            old(self).bdl_phys != 0 ==> final(self).number == old(self).number && final(self).mmio_base
                == old(self).mmio_base && final(self).bdl_phys == old(self).bdl_phys
                && final(self).bdl_virt == old(self).bdl_virt && final(self).lvi == old(self).lvi,
            final(self).pcm_phys == pcm_phys && final(self).pcm_virt == pcm_virt,
            final(self).pcm_capacity == PCM_BUFFER_SIZE,
            final(self).pcm_wp == old(self).pcm_wp,
            old(self).pcm_capacity == PCM_BUFFER_SIZE ==> final(self).pcm@ == old(self).pcm@,
            final(self).bdl@.len() == BDL_MAX_ENTRIES,
            forall|i: int|
                0 <= i < BDL_MAX_ENTRIES ==> #[trigger] final(self).bdl@[i] == fresh_bdl_entry(pcm_phys, i),
            ok == (old(self).ctl & CTL_RUN == 0),
            ok ==> final(self).enabled && final(self).ctl == 0,
            !ok ==> final(self).enabled == old(self).enabled && final(self).ctl == old(self).ctl,
            final(self).sample_rate == old(self).sample_rate,
            final(self).bits_per_sample == old(self).bits_per_sample,
            final(self).channels == old(self).channels,
            final(self).fmt == old(self).fmt && final(self).cbl == old(self).cbl,
    {
        if self.bdl_phys == 0 {
            self.number = stream_number;
            self.mmio_base = mmio_base;
            self.bdl_phys = bdl_phys;
            self.bdl_virt = bdl_virt;
            self.lvi = 0;
        }
        self.pcm_phys = pcm_phys;
        self.pcm_virt = pcm_virt;
        self.pcm_capacity = PCM_BUFFER_SIZE;
        let mut bdl: Vec<BufferDescListEntry> = Vec::new();
        let mut page: usize = pcm_phys;
        let mut i: usize = 0;
        while i < BDL_MAX_ENTRIES
            invariant
                i <= BDL_MAX_ENTRIES,
                page == pcm_phys + i * 4096,
                pcm_phys + PCM_BUFFER_SIZE <= usize::MAX,
                bdl@.len() == i,
                forall|k: int|
                    0 <= k < i ==> #[trigger] bdl@[k] == fresh_bdl_entry(pcm_phys, k),
            decreases BDL_MAX_ENTRIES - i,
        {
            bdl.push(BufferDescListEntry { addr: page as u64, len: 0, flags: 0 });
            page = page + PAGE_SIZE;
            i = i + 1;
        }
        self.bdl = bdl;
        if self.pcm.len() != PCM_BUFFER_SIZE {
            self.pcm = zeroed_pcm_buffer();
        }
        self.reset()
    }

    /// Resets a stream that is not running, which enables it; a running
    /// stream is left as it is.
    pub fn reset(&mut self) -> (ok: bool)
        ensures
            ok == (old(self).ctl & CTL_RUN == 0),
            ok ==> final(self).enabled && final(self).ctl == 0,
            !ok ==> final(self).enabled == old(self).enabled && final(self).ctl == old(self).ctl,
            final(self).same_setup(old(self)) || ok,
            final(self).mmio_base == old(self).mmio_base && final(self).number == old(self).number,
            final(self).bdl_virt == old(self).bdl_virt && final(self).bdl_phys == old(self).bdl_phys,
            final(self).pcm_phys == old(self).pcm_phys && final(self).pcm_virt == old(self).pcm_virt,
            final(self).pcm_capacity == old(self).pcm_capacity && final(self).pcm_wp == old(self).pcm_wp,
            final(self).sample_rate == old(self).sample_rate && final(self).bits_per_sample == old(self).bits_per_sample && final(self).channels == old(self).channels,
            final(self).bdl@ == old(self).bdl@ && final(self).pcm@ == old(self).pcm@,
            final(self).cbl == old(self).cbl && final(self).lvi == old(self).lvi && final(self).fmt
                == old(self).fmt,
    {
        if self.ctl & CTL_RUN != 0 {
            return false;
        }
        // SRST is set, then cleared
        self.ctl = 0;
        self.enabled = true;
        true
    }

    pub fn is_running(&self) -> (b: bool)
        ensures
            b == (self.ctl & CTL_RUN != 0),
    {
        self.ctl & CTL_RUN != 0
    }

    /// Playback or capture can start: the stream is enabled, stopped and
    /// holds data.
    pub fn is_ready(&self) -> (b: bool)
        ensures
            b == (self.enabled && self.ctl & CTL_RUN == 0 && self.pcm_wp > 0),
    {
        self.enabled && !self.is_running() && self.pcm_wp > 0
    }

    /// Starts the stream: sets RUN (and IOC when asked) and the stream tag.
    pub fn run(&mut self, ioc: bool)
        ensures
            final(self).ctl == old(self).ctl | CTL_RUN | (if ioc {
                CTL_IOC
            } else {
                0
            }) | ((old(self).number as u32) << 20u32),
            final(self).same_setup(old(self)),
            final(self).pcm_wp == old(self).pcm_wp && final(self).bdl@ == old(self).bdl@,
            final(self).pcm@ == old(self).pcm@,
            final(self).cbl == old(self).cbl && final(self).lvi == old(self).lvi,
    {
        let ioc_bit: u32 = if ioc {
            CTL_IOC
        } else {
            0
        };
        self.ctl = self.ctl | CTL_RUN | ioc_bit | ((self.number as u32) << 20u32);
    }

    /// Stops the stream and empties its buffer for the next session.
    pub fn stop(&mut self)
        ensures
            final(self).ctl == old(self).ctl & !CTL_RUN,
            final(self).ctl & CTL_RUN == 0,
            final(self).pcm_wp == 0,
            final(self).same_setup(old(self)),
            final(self).bdl@ == old(self).bdl@ && final(self).pcm@ == old(self).pcm@,
            final(self).cbl == old(self).cbl && final(self).lvi == old(self).lvi,
    {
        let c = self.ctl;
        assert((c & !2u32) & 2u32 == 0) by (bit_vector);
        self.ctl = self.ctl & !CTL_RUN;
        self.pcm_wp = 0;
    }

    /// Appends whole samples of `data` to the PCM buffer at the write
    /// position, as many as fit, and returns their length (0 while the
    /// stream runs).
    /// The descriptors of the pages written hold their valid lengths, the
    /// last one interrupts, and the buffer length and last valid index
    /// registers follow.
    pub fn push(&mut self, data: &[u8]) -> (n: usize)
        requires
            old(self).wf(),
            old(self).sample_size() > 0,
        ensures
            final(self).wf(),
            final(self).pcm@ == spec_pcm_after_push(old(self).pcm@, old(self).pcm_wp as int, data@, n as int),
            n == if old(self).ctl & CTL_RUN != 0 {
                0
            } else {
                vstd::math::min(
                    (data@.len() as int / old(self).sample_size()) * old(self).sample_size(),
                    old(self).pcm_capacity - old(self).pcm_wp,
                )
            },
            final(self).same_setup(old(self)),
            final(self).ctl == old(self).ctl,
            n == 0 ==> final(self).pcm_wp == old(self).pcm_wp && final(self).bdl@ == old(self).bdl@
                && final(self).cbl == old(self).cbl && final(self).lvi == old(self).lvi,
            n > 0 ==> {
                &&& final(self).pcm_wp == old(self).pcm_wp + n
                &&& final(self).cbl == old(self).pcm_wp + n
                &&& final(self).lvi == (old(self).pcm_wp + n - 1) / 4096
                &&& final(self).bdl@ == spec_bdl_after_push(
                    old(self).bdl@,
                    old(self).pcm_wp as int,
                    old(self).pcm_wp + n,
                )
            },
    {
        let data_len: usize = data.len();
        if self.ctl & CTL_RUN != 0 {
            assert(self.pcm@ =~= spec_pcm_after_push(self.pcm@, self.pcm_wp as int, data@, 0));
            return 0;
        }
        let bytes_per_ch: usize = self.bits_per_sample as usize / 8;
        let chans: usize = self.channels as usize;
        assert(bytes_per_ch * chans <= 31 * 255) by (nonlinear_arith)
            requires
                bytes_per_ch <= 31,
                chans <= 255,
        ;
        let ss: usize = bytes_per_ch * chans;
        let q: usize = data_len / ss;
        assert(q * ss <= data_len) by (nonlinear_arith)
            requires
                q == data_len / ss,
                ss > 0,
        ;
        let bytes_to_write: usize = q * ss;
        let room: usize = self.pcm_capacity - self.pcm_wp;
        let n: usize = if bytes_to_write < room {
            bytes_to_write
        } else {
            room
        };
        if n == 0 {
            assert(self.pcm@ =~= spec_pcm_after_push(self.pcm@, self.pcm_wp as int, data@, 0));
            return 0;
        }
        let wp: usize = self.pcm_wp;
        let end: usize = wp + n;
        let first: usize = wp / PAGE_SIZE;
        let last: usize = (end - 1) / PAGE_SIZE;
        let ghost old_bdl = self.bdl@;
        let ghost s0: HDAStream = *self;
        let mut i: usize = first;
        while i <= last
            invariant
                self.same_setup(&s0),
                self.ctl == s0.ctl && self.pcm_wp == s0.pcm_wp && self.cbl == s0.cbl && self.lvi
                    == s0.lvi,
                self.pcm_capacity == PCM_BUFFER_SIZE,
                self.pcm@ == s0.pcm@,
                s0.pcm@.len() == s0.pcm_capacity,
                self.bdl@.len() == BDL_MAX_ENTRIES,
                old_bdl.len() == BDL_MAX_ENTRIES,
                end <= PCM_BUFFER_SIZE,
                0 < n,
                end == wp + n,
                first == wp / 4096,
                last == (end - 1) / 4096,
                first <= i <= last + 1,
                forall|k: int|
                    0 <= k < BDL_MAX_ENTRIES ==> #[trigger] self.bdl@[k] == if first <= k < i {
                        spec_bdl_after_push(old_bdl, wp as int, end as int)[k]
                    } else {
                        old_bdl[k]
                    },
            decreases last + 1 - i,
        {
            let off: usize = i * PAGE_SIZE;
            let valid: usize = if off + PAGE_SIZE <= end {
                PAGE_SIZE
            } else {
                end - off
            };
            let e = self.bdl[i];
            let flags: u32 = if i == last {
                1
            } else {
                0
            };
            self.bdl.set(i, BufferDescListEntry { addr: e.addr, len: valid as u32, flags });
            i = i + 1;
        }
        assert(self.bdl@ =~= spec_bdl_after_push(old_bdl, wp as int, end as int));
        let ghost old_pcm = self.pcm@;
        let mut j: usize = 0;
        while j < n
            invariant
                j <= n,
                end == wp + n,
                n <= data@.len(),
                end <= self.pcm_capacity,
                old_pcm.len() == self.pcm_capacity,
                self.pcm@.len() == old_pcm.len(),
                self.same_setup(&s0),
                self.bdl@ == spec_bdl_after_push(old_bdl, wp as int, end as int),
                self.ctl == s0.ctl && self.pcm_wp == s0.pcm_wp && self.cbl == s0.cbl && self.lvi
                    == s0.lvi,
                wp == s0.pcm_wp,
                forall|k: int|
                    0 <= k < old_pcm.len() ==> #[trigger] self.pcm@[k] == if wp <= k < wp + j {
                        data@[k - wp]
                    } else {
                        old_pcm[k]
                    },
            decreases n - j,
        {
            self.pcm.set(wp + j, data[j]);
            j = j + 1;
        }
        assert(self.pcm@ =~= spec_pcm_after_push(old_pcm, wp as int, data@, n as int));
        self.cbl = end as u32;
        self.lvi = last as u8;
        self.pcm_wp = end;
        n
    }

    /// The stream format word for the stream's rate, channels and sample size.
    pub fn audio_format_as_u16(&self) -> (f: u16)
        requires
            self.channels >= 1,
        ensures
            f == spec_audio_format(self.channels, self.sample_rate, self.bits_per_sample),
    {
        let chan: u16 = ((self.channels as u16) - 1) & 0xF;
        let (b44, mult, div): (u16, u16, u16) = match self.sample_rate {
            8000 => (0, 1, 6),
            11025 => (1, 1, 4),
            16000 => (0, 1, 3),
            22050 => (1, 1, 2),
            32000 => (0, 1, 2),
            44100 => (1, 1, 1),
            48000 => (0, 1, 1),
            88200 => (1, 2, 1),
            96000 => (0, 2, 1),
            176400 => (1, 4, 1),
            192000 => (0, 4, 1),
            _ => {
                return 0;
            },
        };
        let bps_code: u16 = match self.bits_per_sample {
            8 => 0,
            16 => 1,
            20 => 2,
            24 => 3,
            32 => 4,
            _ => 1,
        };
        (b44 << 14u16) | ((mult - 1) << 11u16) | ((div - 1) << 8u16) | (chan << 4u16) | bps_code
    }

    /// Sets the stream's format (on an enabled stream only) and its format register.
    pub fn set_audio_format(&mut self, ch: u8, srate: u32, bps: u8) -> (ok: bool)
        requires
            old(self).enabled ==> ch >= 1,
        ensures
            ok == old(self).enabled,
            !ok ==> *final(self) == *old(self),
            ok ==> final(self).channels == ch && final(self).sample_rate == srate
                && final(self).bits_per_sample == bps && final(self).fmt == spec_audio_format(
                ch,
                srate,
                bps,
            ),
            !ok ==> final(self).channels == old(self).channels && final(self).sample_rate == old(self).sample_rate && final(self).bits_per_sample == old(self).bits_per_sample
                && final(self).fmt == old(self).fmt,
            final(self).mmio_base == old(self).mmio_base && final(self).number == old(self).number,
            final(self).enabled == old(self).enabled,
            final(self).bdl_virt == old(self).bdl_virt && final(self).bdl_phys == old(self).bdl_phys,
            final(self).pcm_phys == old(self).pcm_phys && final(self).pcm_virt == old(self).pcm_virt,
            final(self).pcm_capacity == old(self).pcm_capacity && final(self).pcm_wp == old(self).pcm_wp,
            final(self).bdl@ == old(self).bdl@ && final(self).ctl == old(self).ctl,
            final(self).pcm@ == old(self).pcm@,
            final(self).cbl == old(self).cbl && final(self).lvi == old(self).lvi,
    {
        if !self.enabled {
            return false;
        }
        self.channels = ch;
        self.sample_rate = srate;
        self.bits_per_sample = bps;
        self.fmt = self.audio_format_as_u16();
        true
    }
}

// ---------------------------------------------------------------------------
// The controller
// ---------------------------------------------------------------------------

/// A PCM file opened under `audio:/output`.
#[derive(Clone, Copy, Debug)]
pub struct PcmFileObject {
    pub dev_handle: usize,
    /// Output (playback) rather than input
    pub output: bool,
    /// Process that opened it
    pub pid: usize,
}

// Handles of the fixed `audio:` files.
pub const DEV_HND_ROOT: usize = 1;
pub const DEV_HND_INPUT: usize = 2;
pub const DEV_HND_OUTPUT: usize = 3;
pub const DEV_HND_OUTPUT_FMT: usize = 4;
pub const DEV_HND_OUTPUT_MUTE: usize = 5;
pub const DEV_HND_OUTPUT_VOL: usize = 6;
pub const DEV_HND_CODECS: usize = 7;
/// Handle of the first PCM file.
pub const DEV_HND_PCM_FILE_BASE: usize = 1000;

/// The PCI identity of an Intel HDA controller.
pub const INTEL_VENDOR_ID: u16 = 0x8086;
pub const CLASS_MULTIMEDIA: u8 = 0x04;
pub const SUBCLASS_AUDIO: u8 = 0x03;

/// Whether a PCI function is an Intel HDA controller.
pub fn is_intel_hda(vendor_id: u16, class: u8, sub_class: u8) -> (b: bool)
    ensures
        b == (vendor_id == INTEL_VENDOR_ID && class == CLASS_MULTIMEDIA && sub_class
            == SUBCLASS_AUDIO),
{
    vendor_id == INTEL_VENDOR_ID && class == CLASS_MULTIMEDIA && sub_class == SUBCLASS_AUDIO
}

/// An Intel HDA controller, its codec's widgets and its streams.
pub struct IntelHDA {
    pub regs: RegisterFile,
    pub irq: u8,
    /// Widgets found on the codec
    pub widgets: Vec<AudioWidget>,
    /// Index in `widgets` of the audio output that drives the speakers
    pub speakers_widx: Option<usize>,
    /// Output streams (two, played in turn)
    pub ostream0: HDAStream,
    pub ostream1: HDAStream,
    /// Input streams
    pub istream0: HDAStream,
    pub istream1: HDAStream,
    pub ostream_cnt: u8,
    pub istream_cnt: u8,
    /// Index of the output stream that plays next
    pub next_os: u8,
    pub enabled: bool,
    pub playing: bool,
    pub recording: bool,
    pub output_mute: bool,
    pub output_gain_l: u8,
    pub output_gain_r: u8,
    /// Handle of the next PCM file
    pub next_pcm_hnd: usize,
    /// Open PCM files, by increasing handle
    pub pcm_files: Vec<PcmFileObject>,
    /// Verbs sent to the codec, in order
    pub verbs: Vec<u32>,
}

impl IntelHDA {
    /// Output stream `i` (0 or 1).
    pub open spec fn ostream(&self, i: int) -> HDAStream {
        if i == 0 {
            self.ostream0
        } else {
            self.ostream1
        }
    }

    pub open spec fn wf(&self) -> bool {
        &&& (self.speakers_widx matches Some(i) ==> i < self.widgets@.len())
        &&& self.next_os < 2
        &&& self.ostream0.wf()
        &&& self.ostream1.wf()
        &&& self.next_pcm_hnd >= DEV_HND_PCM_FILE_BASE
        &&& forall|i: int|
            0 <= i < self.pcm_files@.len() ==> DEV_HND_PCM_FILE_BASE
                <= #[trigger] self.pcm_files@[i].dev_handle < self.next_pcm_hnd
        &&& forall|i: int, j: int|
            0 <= i < j < self.pcm_files@.len() ==> #[trigger] self.pcm_files@[i].dev_handle
                < #[trigger] self.pcm_files@[j].dev_handle
    }

    /// Everything but the verbs sent and the output gains and mute.
    pub open spec fn same_codec_state(&self, o: &IntelHDA) -> bool {
        &&& self.widgets@ == o.widgets@
        &&& self.speakers_widx == o.speakers_widx
        &&& self.ostream0 == o.ostream0
        &&& self.ostream1 == o.ostream1
        &&& self.istream0 == o.istream0
        &&& self.istream1 == o.istream1
        &&& self.ostream_cnt == o.ostream_cnt
        &&& self.istream_cnt == o.istream_cnt
        &&& self.next_os == o.next_os
        &&& self.enabled == o.enabled
        &&& self.playing == o.playing
        &&& self.recording == o.recording
        &&& self.next_pcm_hnd == o.next_pcm_hnd
        &&& self.pcm_files@ == o.pcm_files@
    }

    /// The node id of the speakers' converter.
    pub open spec fn dac_nid(&self) -> u8 {
        self.widgets@[self.speakers_widx->0 as int].nid
    }

    /// A controller with nothing found yet, outputs unmuted at full gain.
    pub fn new() -> (h: Self)
        ensures
            h.wf(),
            h.widgets@.len() == 0 && h.speakers_widx is None,
            !h.enabled && !h.playing && !h.recording && !h.output_mute,
            h.output_gain_l == HDA_MAX_GAIN && h.output_gain_r == HDA_MAX_GAIN,
            h.next_os == 0 && h.ostream_cnt == 0 && h.istream_cnt == 0 && h.irq == 0,
            h.next_pcm_hnd == DEV_HND_PCM_FILE_BASE,
            h.pcm_files@.len() == 0 && h.verbs@.len() == 0,
            h.ostream0.pcm_wp == 0 && h.ostream1.pcm_wp == 0,
            !h.ostream0.enabled && !h.ostream1.enabled,
    {
        IntelHDA {
            regs: RegisterFile::new(),
            irq: 0,
            widgets: Vec::new(),
            speakers_widx: None,
            ostream0: HDAStream::new(),
            ostream1: HDAStream::new(),
            istream0: HDAStream::new(),
            istream1: HDAStream::new(),
            ostream_cnt: 0,
            istream_cnt: 0,
            next_os: 0,
            enabled: false,
            playing: false,
            recording: false,
            output_mute: false,
            output_gain_l: HDA_MAX_GAIN,
            output_gain_r: HDA_MAX_GAIN,
            next_pcm_hnd: DEV_HND_PCM_FILE_BASE,
            pcm_files: Vec::new(),
            verbs: Vec::new(),
        }
    }

    /// Nothing to do once all drivers are enumerated.
    pub fn post_enum() {
    }

    /// Nothing to release.
    pub fn release(_device: usize) {
    }

    /// Sends "set power state" to a node.
    pub fn set_power_state(&mut self, cad: u8, nid: u8, state: u8) -> (ok: bool)
        ensures
            ok,
            final(self).verbs@ == old(self).verbs@.push(
                spec_build_verb(cad, nid, VERBID_SET_PWR_STATE, state as u32),
            ),
            final(self).same_codec_state(old(self)),
            final(self).output_gain_l == old(self).output_gain_l,
            final(self).output_gain_r == old(self).output_gain_r,
            final(self).output_mute == old(self).output_mute,
    {
        let v = build_verb(cad, nid, VERBID_SET_PWR_STATE, state as u32);
        self.verbs.push(v);
        true
    }

    /// Sends "set amplifier gain/mute"; a setting of the output amplifier
    /// becomes the driver's gain (and mute) for the channels it sets.
    pub fn set_amp_gain(
        &mut self,
        cad: u8,
        nid: u8,
        selector_index: u8,
        set_inp_amp: bool,
        set_out_amp: bool,
        set_left: bool,
        set_right: bool,
        gain: u8,
        mute: bool,
    ) -> (ok: bool)
        ensures
            ok,
            final(self).verbs@ == old(self).verbs@.push(
                spec_build_verb16(
                    cad,
                    nid,
                    VERBID_SET_AMP_GAIN,
                    spec_amp_gain_payload(
                        selector_index,
                        set_inp_amp,
                        set_out_amp,
                        set_left,
                        set_right,
                        gain,
                        mute,
                    ),
                ),
            ),
            final(self).output_gain_l == if set_out_amp && set_left {
                gain
            } else {
                old(self).output_gain_l
            },
            final(self).output_gain_r == if set_out_amp && set_right {
                gain
            } else {
                old(self).output_gain_r
            },
            final(self).output_mute == if set_out_amp && (set_left || set_right) {
                mute
            } else {
                old(self).output_mute
            },
            final(self).same_codec_state(old(self)),
    {
        let g = amp_gain_payload(
            selector_index,
            set_inp_amp,
            set_out_amp,
            set_left,
            set_right,
            gain,
            mute,
        );
        let v = build_verb16(cad, nid, VERBID_SET_AMP_GAIN, g);
        self.verbs.push(v);
        if set_out_amp {
            if set_left {
                self.output_gain_l = gain;
                self.output_mute = mute;
            }
            if set_right {
                self.output_gain_r = gain;
                self.output_mute = mute;
            }
        }
        true
    }

    /// The verbs that send the speakers' converter gains `gl` and `gr` and
    /// mute `m`, left then right (none when the speakers are not known).
    pub open spec fn spec_gain_verbs(&self, gl: u8, gr: u8, m: bool) -> Seq<u32> {
        if self.speakers_widx is Some {
            seq![
                spec_build_verb16(
                    0,
                    self.dac_nid(),
                    VERBID_SET_AMP_GAIN,
                    spec_amp_gain_payload(0, false, true, true, false, gl, m),
                ),
                spec_build_verb16(
                    0,
                    self.dac_nid(),
                    VERBID_SET_AMP_GAIN,
                    spec_amp_gain_payload(0, false, true, false, true, gr, m),
                ),
            ]
        } else {
            seq![]
        }
    }

    /// Sends the speakers' converter the driver's gain and mute, left then right.
    pub fn apply_output_gain(&mut self)
        requires
            old(self).wf(),
        ensures
            final(self).wf(),
            final(self).verbs@ == old(self).verbs@ + old(self).spec_gain_verbs(
                old(self).output_gain_l,
                old(self).output_gain_r,
                old(self).output_mute,
            ),
            final(self).output_gain_l == old(self).output_gain_l,
            final(self).output_gain_r == old(self).output_gain_r,
            final(self).output_mute == old(self).output_mute,
            final(self).same_codec_state(old(self)),
    {
        if let Some(widx) = self.speakers_widx {
            let dac_nid = self.widgets[widx].nid;
            let gl = self.output_gain_l;
            let gr = self.output_gain_r;
            let m = self.output_mute;
            self.set_amp_gain(0, dac_nid, 0, false, true, true, false, gl, m);
            self.set_amp_gain(0, dac_nid, 0, false, true, false, true, gr, m);
        }
        assert(self.verbs@ =~= old(self).verbs@ + old(self).spec_gain_verbs(
            old(self).output_gain_l,
            old(self).output_gain_r,
            old(self).output_mute,
        ));
    }

    /// Sets the format of both output streams and of the speakers'
    /// converter; fails unless the controller, both streams and the speakers
    /// are set up.
    pub fn set_output_format(&mut self, ch: u8, srate: u32, bps: u8) -> (ok: bool)
        requires
            old(self).wf(),
            old(self).enabled && old(self).ostream0.enabled ==> ch >= 1,
        ensures
            final(self).wf(),
            !old(self).enabled ==> *final(self) == *old(self),
            ok == (old(self).enabled && old(self).ostream0.enabled && old(self).ostream1.enabled
                && old(self).speakers_widx is Some),
            ok ==> final(self).verbs@ == old(self).verbs@.push(
                spec_build_verb16(
                    0,
                    old(self).dac_nid(),
                    VERBID_SET_FORMAT,
                    spec_audio_format(ch, srate, bps),
                ),
            ),
            !ok ==> final(self).verbs@ == old(self).verbs@,
            old(self).enabled && old(self).ostream0.enabled ==> final(self).ostream0.channels == ch
                && final(self).ostream0.sample_rate == srate && final(self).ostream0.bits_per_sample
                == bps && final(self).ostream0.fmt == spec_audio_format(ch, srate, bps),
            old(self).enabled && old(self).ostream0.enabled && old(self).ostream1.enabled
                ==> final(self).ostream1.channels == ch && final(self).ostream1.sample_rate == srate
                && final(self).ostream1.bits_per_sample == bps && final(self).ostream1.fmt
                == spec_audio_format(ch, srate, bps),
            !(old(self).enabled && old(self).ostream0.enabled) ==> final(self).ostream0 == old(self).ostream0,
            !(old(self).enabled && old(self).ostream0.enabled && old(self).ostream1.enabled)
                ==> final(self).ostream1 == old(self).ostream1,
            final(self).ostream0.enabled == old(self).ostream0.enabled,
            final(self).ostream1.enabled == old(self).ostream1.enabled,
            final(self).ostream0.same_placement(&old(self).ostream0),
            final(self).ostream1.same_placement(&old(self).ostream1),
            final(self).istream0 == old(self).istream0 && final(self).istream1 == old(self).istream1,
            final(self).regs == old(self).regs,
            final(self).ostream0.pcm_wp == old(self).ostream0.pcm_wp,
            final(self).ostream1.pcm_wp == old(self).ostream1.pcm_wp,
            final(self).ostream0.ctl == old(self).ostream0.ctl,
            final(self).ostream1.ctl == old(self).ostream1.ctl,
            final(self).widgets@ == old(self).widgets@,
            final(self).speakers_widx == old(self).speakers_widx,
            final(self).playing == old(self).playing && final(self).next_os == old(self).next_os,
            final(self).enabled == old(self).enabled,
            final(self).output_gain_l == old(self).output_gain_l,
            final(self).output_gain_r == old(self).output_gain_r,
            final(self).output_mute == old(self).output_mute,
            final(self).pcm_files@ == old(self).pcm_files@ && final(self).next_pcm_hnd == old(self).next_pcm_hnd,
            final(self).ostream_cnt == old(self).ostream_cnt && final(self).istream_cnt == old(self).istream_cnt,
    {
        if !self.enabled {
            return false;
        }
        if !self.ostream0.set_audio_format(ch, srate, bps) || !self.ostream1.set_audio_format(
            ch,
            srate,
            bps,
        ) {
            return false;
        }
        let widx = match self.speakers_widx {
            Some(w) => w,
            None => {
                return false;
            },
        };
        let fmt = self.ostream0.audio_format_as_u16();
        let dac_nid = self.widgets[widx].nid;
        let v = build_verb16(0, dac_nid, VERBID_SET_FORMAT, fmt);
        self.verbs.push(v);
        true
    }
}

/// `f` is `o` after its streams were set up on the stream memory `mem`,
/// `f`'s stream counts taken from the controller: with fewer than two
/// streams of either kind nothing is set up and `r` is `None`; else the
/// first two input streams (numbered from 1) and the first two output
/// streams (numbered after all input streams) get their registers, their
/// buffers and are enabled unless they were running, and `r` is the
/// interrupt control value `intctl` with their four interrupts enabled.
pub open spec fn streams_set_up(o: IntelHDA, f: IntelHDA, intctl: u32, mem: [StreamMemory; 4], r: Option<u32>) -> bool {
    let ic = f.istream_cnt as int;
    let base = o.regs.base_virt + REG_STREAMS_BASE;
    if f.ostream_cnt < 2 || ic < 2 {
        &&& r is None
        &&& f.ostream0 == o.ostream0
        &&& f.ostream1 == o.ostream1
    } else {
        &&& r == Some(intctl | 1u32 | 2u32 | (1u32 << (ic as u32)) | (1u32 << ((ic + 1) as u32)))
        &&& (o.istream0.bdl_phys == 0 ==> f.istream0.number == 1 && f.istream0.mmio_base == base)
        &&& (o.istream1.bdl_phys == 0 ==> f.istream1.number == 2 && f.istream1.mmio_base == base
            + STREAM_REGS_SIZE)
        &&& (o.ostream0.bdl_phys == 0 ==> f.ostream0.number == ic + 1 && f.ostream0.mmio_base == base
            + ic * STREAM_REGS_SIZE)
        &&& (o.ostream1.bdl_phys == 0 ==> f.ostream1.number == ic + 2 && f.ostream1.mmio_base == base
            + (ic + 1) * STREAM_REGS_SIZE)
        &&& f.istream0.pcm_phys == mem[0].pcm_phys && f.istream1.pcm_phys == mem[1].pcm_phys
        &&& f.ostream0.pcm_phys == mem[2].pcm_phys && f.ostream1.pcm_phys == mem[3].pcm_phys
        &&& f.ostream0.pcm_capacity == PCM_BUFFER_SIZE && f.ostream1.pcm_capacity == PCM_BUFFER_SIZE
        &&& f.ostream0.enabled == (o.ostream0.enabled || o.ostream0.ctl & CTL_RUN == 0)
        &&& f.ostream1.enabled == (o.ostream1.enabled || o.ostream1.ctl & CTL_RUN == 0)
    }
}

impl IntelHDA {
    /// Everything but output stream `k`, the verbs, `playing` and `next_os`.
    pub open spec fn same_but_playback(&self, o: &IntelHDA, k: int) -> bool {
        &&& self.same_but_streams(o)
        &&& (k != 0 ==> self.ostream0 == o.ostream0)
        &&& (k != 1 ==> self.ostream1 == o.ostream1)
    }

    /// Everything but the output streams, the verbs, `playing` and `next_os`.
    pub open spec fn same_but_streams(&self, o: &IntelHDA) -> bool {
        &&& self.widgets@ == o.widgets@
        &&& self.speakers_widx == o.speakers_widx
        &&& self.istream0 == o.istream0
        &&& self.istream1 == o.istream1
        &&& self.ostream_cnt == o.ostream_cnt
        &&& self.istream_cnt == o.istream_cnt
        &&& self.enabled == o.enabled
        &&& self.recording == o.recording
        &&& self.next_pcm_hnd == o.next_pcm_hnd
        &&& self.pcm_files@ == o.pcm_files@
        &&& self.output_gain_l == o.output_gain_l
        &&& self.output_gain_r == o.output_gain_r
        &&& self.output_mute == o.output_mute
    }

    /// Whether playback can start: nothing plays, the speakers are known and
    /// the next output stream is ready.
    pub open spec fn spec_can_play(&self) -> bool {
        let st = self.ostream(self.next_os as int);
        &&& !self.playing
        &&& self.speakers_widx is Some
        &&& st.enabled && st.ctl & CTL_RUN == 0 && st.pcm_wp > 0
    }

    /// The verb that maps the speakers' converter to output stream `k`, channel 0.
    pub open spec fn spec_map_verb(&self, k: int) -> u32 {
        spec_build_verb(
            0,
            self.dac_nid(),
            VERBID_SET_CNV_CTRL,
            spec_stream_channel_payload(self.ostream(k).number, 0),
        )
    }

    fn push_ostream(&mut self, k: u8, data: &[u8]) -> (n: usize)
        requires
            old(self).wf(),
            k < 2,
            old(self).ostream(k as int).sample_size() > 0,
        ensures
            final(self).wf(),
            n == spec_push_len(old(self).ostream(k as int), data@.len() as int),
            stream_after_push(old(self).ostream(k as int), final(self).ostream(k as int), data@, n as int),
            final(self).same_but_playback(old(self), k as int),
            final(self).verbs@ == old(self).verbs@,
            final(self).playing == old(self).playing && final(self).next_os == old(self).next_os,
    {
        if k == 0 {
            self.ostream0.push(data)
        } else {
            self.ostream1.push(data)
        }
    }

    fn run_ostream(&mut self, k: u8)
        requires
            old(self).wf(),
            k < 2,
        ensures
            final(self).wf(),
            stream_after_run(old(self).ostream(k as int), final(self).ostream(k as int)),
            final(self).same_but_playback(old(self), k as int),
            final(self).verbs@ == old(self).verbs@,
            final(self).playing == old(self).playing && final(self).next_os == old(self).next_os,
    {
        if k == 0 {
            self.ostream0.run(true);
        } else {
            self.ostream1.run(true);
        }
    }

    fn stop_ostream(&mut self, k: u8)
        requires
            old(self).wf(),
            k < 2,
        ensures
            final(self).wf(),
            stream_after_stop(old(self).ostream(k as int), final(self).ostream(k as int)),
            final(self).same_but_playback(old(self), k as int),
            final(self).verbs@ == old(self).verbs@,
            final(self).playing == old(self).playing && final(self).next_os == old(self).next_os,
    {
        if k == 0 {
            self.ostream0.stop();
        } else {
            self.ostream1.stop();
        }
    }

    fn ostream_ready(&self, k: u8) -> (b: bool)
        requires
            k < 2,
        ensures
            b == (self.ostream(k as int).enabled && self.ostream(k as int).ctl & CTL_RUN == 0
                && self.ostream(k as int).pcm_wp > 0),
    {
        if k == 0 {
            self.ostream0.is_ready()
        } else {
            self.ostream1.is_ready()
        }
    }

    fn ostream_number(&self, k: u8) -> (n: u8)
        requires
            k < 2,
        ensures
            n == self.ostream(k as int).number,
    {
        if k == 0 {
            self.ostream0.number
        } else {
            self.ostream1.number
        }
    }

    /// Starts the next output stream when nothing plays and it is ready:
    /// maps the speakers' converter to it, runs it and moves on to the
    /// other stream.
    pub fn play_audio(&mut self)
        requires
            old(self).wf(),
        ensures
            final(self).wf(),
            !old(self).spec_can_play() ==> *final(self) == *old(self),
            old(self).spec_can_play() ==> {
                let k = old(self).next_os as int;
                &&& final(self).verbs@ == old(self).verbs@.push(old(self).spec_map_verb(k))
                &&& stream_after_run(old(self).ostream(k), final(self).ostream(k))
                &&& final(self).same_but_playback(old(self), k)
                &&& final(self).playing
                &&& final(self).next_os == (k + 1) % 2
            },
    {
        if self.playing {
            return;
        }
        let widx = match self.speakers_widx {
            Some(w) => w,
            None => {
                return;
            },
        };
        let k = self.next_os;
        if !self.ostream_ready(k) {
            return;
        }
        let dac_nid = self.widgets[widx].nid;
        let snum = self.ostream_number(k);
        let m = stream_channel_payload(snum, 0);
        let v = build_verb(0, dac_nid, VERBID_SET_CNV_CTRL, m);
        self.verbs.push(v);
        self.run_ostream(k);
        self.playing = true;
        self.next_os = (k + 1) % 2;
    }

    /// `f` is this controller after the PCM data `data` was queued for
    /// playback, its first `n` bytes taken.
    pub open spec fn spec_queued(&self, f: &IntelHDA, data: Seq<u8>, n: usize) -> bool {
        if !self.enabled {
            n == 0 && *f == *self
        } else {
            let k = self.next_os as int;
            let a = self.ostream(k);
            let go = !self.playing && self.speakers_widx is Some && a.enabled && a.ctl
                & CTL_RUN == 0 && a.pcm_wp + n > 0;
            &&& n == spec_push_len(a, data.len() as int)
            &&& f.ostream(k).pcm_wp == a.pcm_wp + n
            &&& f.ostream(k).pcm@ == spec_pcm_after_push(a.pcm@, a.pcm_wp as int, data, n as int)
            &&& (n > 0 ==> f.ostream(k).cbl == a.pcm_wp + n && f.ostream(
                k,
            ).lvi == (a.pcm_wp + n - 1) / 4096 && f.ostream(k).bdl@
                == spec_bdl_after_push(a.bdl@, a.pcm_wp as int, a.pcm_wp + n))
            &&& (n == 0 ==> f.ostream(k).bdl@ == a.bdl@ && f.ostream(k).cbl
                == a.cbl && f.ostream(k).lvi == a.lvi)
            &&& f.ostream(k).same_setup(&a)
            &&& f.ostream(k).ctl == if go {
                a.ctl | CTL_RUN | CTL_IOC | ((a.number as u32) << 20u32)
            } else {
                a.ctl
            }
            &&& f.same_but_playback(self, k)
            &&& f.verbs@ == if go {
                self.verbs@.push(self.spec_map_verb(k))
            } else {
                self.verbs@
            }
            &&& f.playing == (self.playing || go)
            &&& f.next_os == if go {
                (k + 1) % 2
            } else {
                k
            }
        }
    }

    /// Dual buffering: when queuing data starts playback on one output
    /// stream, the next data queued goes into the other stream's buffer,
    /// and the stream that plays is left alone.
    pub proof fn lemma_queue_fills_the_other_buffer(
        h: IntelHDA,
        f1: IntelHDA,
        d1: Seq<u8>,
        n1: usize,
        f2: IntelHDA,
        d2: Seq<u8>,
        n2: usize,
    )
        requires
            h.wf(),
            h.enabled,
            !h.playing,
            f1.playing,
            h.spec_queued(&f1, d1, n1),
            f1.spec_queued(&f2, d2, n2),
        ensures
            ({
                let k = h.next_os as int;
                let j = (k + 1) % 2;
                &&& f1.next_os == j
                &&& f2.ostream(j).pcm@ == spec_pcm_after_push(
                    f1.ostream(j).pcm@,
                    f1.ostream(j).pcm_wp as int,
                    d2,
                    n2 as int,
                )
                &&& f2.ostream(j).pcm_wp == f1.ostream(j).pcm_wp + n2
                &&& f2.ostream(k) == f1.ostream(k)
                &&& f2.playing
                &&& f2.next_os == j
            }),
    {
        let k = h.next_os as int;
        let j = (k + 1) % 2;
        assert(f1.next_os == j);
        assert(f1.enabled);
        assert(j != k);
        if k == 0 {
            assert(f2.ostream0 == f1.ostream0);
        } else {
            assert(f2.ostream1 == f1.ostream1);
        }
    }

    /// Writes the PCM data `pcm` into the buffer of the next output stream
    /// and starts playback if it can; returns how many bytes were queued.
    pub fn queue_playback(&mut self, pcm: &[u8]) -> (n: usize)
        requires
            old(self).wf(),
            old(self).enabled ==> old(self).ostream(old(self).next_os as int).sample_size() > 0,
        ensures
            final(self).wf(),
            old(self).spec_queued(final(self), pcm@, n),
    {
        if !self.enabled {
            return 0;
        }
        let k = self.next_os;
        let n = self.push_ostream(k, pcm);
        self.play_audio();
        n
    }

    /// Stops the stream that plays and moves on to the other one.
    pub fn stop_audio(&mut self)
        requires
            old(self).wf(),
        ensures
            final(self).wf(),
            !old(self).playing ==> *final(self) == *old(self),
            old(self).playing ==> {
                let cur = (old(self).next_os + 1) % 2;
                &&& stream_after_stop(old(self).ostream(cur), final(self).ostream(cur))
                &&& final(self).same_but_playback(old(self), cur)
                &&& final(self).verbs@ == old(self).verbs@
                &&& !final(self).playing
                &&& final(self).next_os == cur
            },
    {
        if !self.playing {
            return;
        }
        let cur = (self.next_os + 1) % 2;
        self.stop_ostream(cur);
        self.playing = false;
        self.next_os = cur;
    }

    /// A stream finished: the next output stream starts if it is ready (else
    /// playback ends), and the finished one is stopped.
    pub fn irq_handler(&mut self)
        requires
            old(self).wf(),
        ensures
            final(self).wf(),
            ({
                let k = old(self).next_os as int;
                let a = old(self).ostream(k);
                let ready = a.enabled && a.ctl & CTL_RUN == 0 && a.pcm_wp > 0;
                if ready && old(self).speakers_widx is None {
                    *final(self) == *old(self)
                } else {
                    let k2 = (k + 1) % 2;
                    &&& ready ==> stream_after_run(a, final(self).ostream(k))
                    &&& !ready ==> final(self).ostream(k) == a
                    &&& stream_after_stop(old(self).ostream(k2), final(self).ostream(k2))
                    &&& final(self).same_but_streams(old(self))
                    &&& final(self).verbs@ == if ready {
                        old(self).verbs@.push(old(self).spec_map_verb(k))
                    } else {
                        old(self).verbs@
                    }
                    &&& final(self).playing == ready
                    &&& final(self).next_os == k2
                }
            }),
    {
        let k = self.next_os;
        if self.ostream_ready(k) {
            let widx = match self.speakers_widx {
                Some(w) => w,
                None => {
                    return;
                },
            };
            let dac_nid = self.widgets[widx].nid;
            let snum = self.ostream_number(k);
            let m = stream_channel_payload(snum, 0);
            let v = build_verb(0, dac_nid, VERBID_SET_CNV_CTRL, m);
            self.verbs.push(v);
            self.run_ostream(k);
            self.playing = true;
        } else {
            self.playing = false;
        }
        let k2 = (self.next_os + 1) % 2;
        self.stop_ostream(k2);
        self.next_os = k2;
    }
}

// ---------------------------------------------------------------------------
// The `audio:` files
// ---------------------------------------------------------------------------

/// `"/"`
pub open spec fn path_root() -> Seq<u8> {
    seq![0x2fu8]
}

/// `"/output"`
pub open spec fn path_output() -> Seq<u8> {
    seq![0x2fu8, 0x6fu8, 0x75u8, 0x74u8, 0x70u8, 0x75u8, 0x74u8]
}

/// `"/codecs"`
pub open spec fn path_codecs() -> Seq<u8> {
    seq![0x2fu8, 0x63u8, 0x6fu8, 0x64u8, 0x65u8, 0x63u8, 0x73u8]
}

/// `"/fmt"`, `"/mute"`, `"/pcm"` and `"/vol"` after `"/output"`.
pub open spec fn sub_fmt() -> Seq<u8> {
    seq![0x2fu8, 0x66u8, 0x6du8, 0x74u8]
}

pub open spec fn sub_mute() -> Seq<u8> {
    seq![0x2fu8, 0x6du8, 0x75u8, 0x74u8, 0x65u8]
}

pub open spec fn sub_pcm() -> Seq<u8> {
    seq![0x2fu8, 0x70u8, 0x63u8, 0x6du8]
}

pub open spec fn sub_vol() -> Seq<u8> {
    seq![0x2fu8, 0x76u8, 0x6fu8, 0x6cu8]
}

/// The handle `audio:` gives a path under it (`None` for a new PCM file, and
/// for a path it does not have).
pub open spec fn spec_fixed_handle(p: Seq<u8>) -> Option<usize> {
    if p == path_root() {
        Some(DEV_HND_ROOT)
    } else if p == path_output() || p == path_output() + path_root() {
        Some(DEV_HND_OUTPUT)
    } else if p == path_output() + sub_fmt() {
        Some(DEV_HND_OUTPUT_FMT)
    } else if p == path_output() + sub_mute() {
        Some(DEV_HND_OUTPUT_MUTE)
    } else if p == path_output() + sub_vol() {
        Some(DEV_HND_OUTPUT_VOL)
    } else if p == path_codecs() {
        Some(DEV_HND_CODECS)
    } else {
        None
    }
}

/// `"{ch}ch,{srate}Hz,{bps}bit"`
pub open spec fn spec_fmt_text(ch: u8, srate: u32, bps: u8) -> Seq<u8> {
    dec_text(ch as nat) + seq![0x63u8, 0x68u8, 0x2cu8] + dec_text(srate as nat) + seq![
        0x48u8,
        0x7au8,
        0x2cu8,
    ] + dec_text(bps as nat) + seq![0x62u8, 0x69u8, 0x74u8]
}

/// `"No default output configured"`
pub open spec fn spec_no_output_text() -> Seq<u8> {
    seq![
        0x4eu8, 0x6fu8, 0x20u8, 0x64u8, 0x65u8, 0x66u8, 0x61u8, 0x75u8, 0x6cu8, 0x74u8, 0x20u8,
        0x6fu8, 0x75u8, 0x74u8, 0x70u8, 0x75u8, 0x74u8, 0x20u8, 0x63u8, 0x6fu8, 0x6eu8, 0x66u8,
        0x69u8, 0x67u8, 0x75u8, 0x72u8, 0x65u8, 0x64u8,
    ]
}

/// A gain as a percentage of the largest gain (rounded down).
pub open spec fn gain_percent(g: u8) -> nat {
    (g as nat * 100) / 127
}

/// A percentage as a gain (rounded down).
pub open spec fn percent_gain(v: u8) -> u8 {
    ((v as nat * 127) / 100) as u8
}

/// `"L:{left %},R:{right %}"`
pub open spec fn spec_vol_text(gl: u8, gr: u8) -> Seq<u8> {
    seq![0x4cu8, 0x3au8] + dec_text(gain_percent(gl)) + seq![0x2cu8, 0x52u8, 0x3au8] + dec_text(
        gain_percent(gr),
    )
}

/// The text of a user-readable file, `None` for the other handles.
pub open spec fn spec_special_text(h: &IntelHDA, hnd: usize) -> Option<Seq<u8>> {
    if hnd == DEV_HND_OUTPUT_FMT {
        Some(
            if h.ostream0.enabled {
                spec_fmt_text(h.ostream0.channels, h.ostream0.sample_rate, h.ostream0.bits_per_sample)
            } else {
                spec_no_output_text()
            },
        )
    } else if hnd == DEV_HND_OUTPUT_MUTE {
        Some(
            if h.output_mute {
                seq![0x31u8]
            } else {
                seq![0x30u8]
            },
        )
    } else if hnd == DEV_HND_OUTPUT_VOL {
        Some(spec_vol_text(h.output_gain_l, h.output_gain_r))
    } else {
        None
    }
}

/// The text written to a file, taken as empty unless it is UTF-8.
pub open spec fn utf8_or_empty(b: Seq<u8>) -> Seq<u8> {
    if utf8_valid(b) {
        b
    } else {
        Seq::empty()
    }
}

/// The mute setting `"1"` or `"0"` names, white space around it ignored.
pub open spec fn spec_mute_command(s: Seq<u8>) -> Option<bool> {
    let t = spec_trim(s);
    if t == seq![0x31u8] {
        Some(true)
    } else if t == seq![0x30u8] {
        Some(false)
    } else {
        None
    }
}

/// One `"L:{percent}"` or `"R:{percent}"` part of a volume setting (white
/// space around the key and the value ignored, percent at most 100): whether
/// it is the left channel, and its percentage.
pub open spec fn spec_vol_part(p: Seq<u8>) -> Option<(bool, u8)> {
    if !single_byte(p, 0x3a) {
        None
    } else {
        let k = first_index(p, 0x3a);
        let key = spec_trim(p.subrange(0, k));
        match spec_parse_u8(spec_trim(p.subrange(k + 1, p.len() as int))) {
            None => None,
            Some(v) => if v > 100 {
                None
            } else if key == seq![0x4cu8] {
                Some((true, v))
            } else if key == seq![0x52u8] {
                Some((false, v))
            } else {
                None
            },
        }
    }
}

/// A volume setting: two parts separated by one comma, white space around
/// it ignored. Gives the new left and right gains (a channel named twice
/// takes the second value; one not named stays).
pub open spec fn spec_vol_command(s: Seq<u8>) -> Option<(Option<u8>, Option<u8>)> {
    let t = spec_trim(s);
    if !single_byte(t, 0x2c) {
        None
    } else {
        let k = first_index(t, 0x2c);
        match (spec_vol_part(t.subrange(0, k)), spec_vol_part(t.subrange(k + 1, t.len() as int))) {
            (Some((l0, v0)), Some((l1, v1))) => {
                let l = if l1 {
                    Some(percent_gain(v1))
                } else if l0 {
                    Some(percent_gain(v0))
                } else {
                    None
                };
                let r = if !l1 {
                    Some(percent_gain(v1))
                } else if !l0 {
                    Some(percent_gain(v0))
                } else {
                    None
                };
                Some((l, r))
            },
            _ => None,
        }
    }
}

/// The mute file, read and written back, leaves the mute as it was.
pub proof fn lemma_mute_read_write(h: &IntelHDA)
    ensures
        spec_special_text(h, DEV_HND_OUTPUT_MUTE) matches Some(t) && spec_mute_command(utf8_or_empty(t))
            == Some(h.output_mute),
{
    let t = if h.output_mute { seq![0x31u8] } else { seq![0x30u8] };
    lemma_ascii_is_utf8(t, 0);
    lemma_trim_nothing(t);
}

/// A gain (of at most 127) shown as a percentage and set again from it
/// loses at most 2 steps.
pub proof fn lemma_gain_percent_round(g: u8)
    requires
        g <= 127,
    ensures
        gain_percent(g) <= 100,
        g - 2 <= percent_gain(gain_percent(g) as u8) <= g,
{
    let p = gain_percent(g) as int;
    let gi = g as int;
    assert(p <= 100 && 127 * p <= 100 * gi && 100 * gi < 127 * p + 127) by (nonlinear_arith)
        requires
            p == (gi * 100) / 127,
            0 <= gi <= 127,
    ;
    let b = (p * 127) / 100;
    assert(b <= gi && gi - 2 <= b && b <= 127) by (nonlinear_arith)
        requires
            b == (p * 127) / 100,
            0 <= p <= 100,
            127 * p <= 100 * gi,
            100 * gi < 127 * p + 127,
    ;
}

/// One part `"<key>:<percent>"` of the volume text reads back as its
/// channel and percentage.
proof fn lemma_vol_part_of(key: u8, p: nat)
    requires
        key == 0x4c || key == 0x52,
        p <= 100,
    ensures
        spec_vol_part(seq![key, 0x3au8] + dec_text(p)) == Some((key == 0x4c, p as u8)),
{
    let d = dec_text(p);
    lemma_dec_text_digits(p);
    lemma_parse_dec(p);
    let s = seq![key, 0x3au8] + d;
    assert(is_first_index(s, 0x3a, 1));
    lemma_first_index_unique(s, 0x3a, 1);
    assert(s.subrange(2, s.len() as int) =~= d);
    assert(!contains_byte(d, 0x3a)) by {
        assert forall|k: int| 0 <= k < d.len() implies d[k] != 0x3a by {
            assert(is_digit(d[k]));
        }
    }
    assert(single_byte(s, 0x3a));
    assert(s.subrange(0, 1) =~= seq![key]);
    lemma_trim_nothing(seq![key]);
}

/// The volume file, read and written back, sets each channel's gain from
/// the percentage it showed: for gains of at most 127 (those a percentage
/// sets) that is the gain less at most 2 steps.
pub proof fn lemma_vol_read_write(gl: u8, gr: u8)
    requires
        gl <= 127,
        gr <= 127,
    ensures
        spec_vol_command(utf8_or_empty(spec_vol_text(gl, gr))) == Some(
            (Some(percent_gain(gain_percent(gl) as u8)), Some(percent_gain(gain_percent(gr) as u8))),
        ),
        gl - 2 <= percent_gain(gain_percent(gl) as u8) <= gl,
        gr - 2 <= percent_gain(gain_percent(gr) as u8) <= gr,
{
    lemma_gain_percent_round(gl);
    lemma_gain_percent_round(gr);
    let p1 = gain_percent(gl);
    let p2 = gain_percent(gr);
    let d1 = dec_text(p1);
    let d2 = dec_text(p2);
    lemma_dec_text_digits(p1);
    lemma_dec_text_digits(p2);
    let t = spec_vol_text(gl, gr);
    assert(t == seq![0x4cu8, 0x3au8] + d1 + seq![0x2cu8, 0x52u8, 0x3au8] + d2);
    let part0 = seq![0x4cu8, 0x3au8] + d1;
    let part1 = seq![0x52u8, 0x3au8] + d2;
    let k: int = 2 + d1.len() as int;
    assert(t =~= part0 + seq![0x2cu8] + part1);
    assert forall|j: int| 0 <= j < t.len() implies t[j] < 0x80 by {
        if 2 <= j < k {
            assert(t[j] == d1[j - 2] && is_digit(d1[j - 2]));
        } else if k + 3 <= j {
            assert(t[j] == d2[j - k - 3] && is_digit(d2[j - k - 3]));
        }
    }
    lemma_ascii_is_utf8(t, 0);
    assert(utf8_or_empty(t) == t);
    assert(is_digit(d2[d2.len() - 1]));
    assert(t.last() == d2.last());
    lemma_trim_nothing(t);
    assert(is_first_index(t, 0x2c, k)) by {
        assert forall|j: int| 0 <= j < k implies t[j] != 0x2c by {
            if 2 <= j {
                assert(t[j] == d1[j - 2] && is_digit(d1[j - 2]));
            }
        }
    }
    lemma_first_index_unique(t, 0x2c, k);
    assert(t.subrange(0, k) =~= part0);
    assert(t.subrange(k + 1, t.len() as int) =~= part1);
    assert(!contains_byte(part1, 0x2c)) by {
        assert forall|j: int| 0 <= j < part1.len() implies part1[j] != 0x2c by {
            if 2 <= j {
                assert(part1[j] == d2[j - 2] && is_digit(d2[j - 2]));
            }
        }
    }
    assert(single_byte(t, 0x2c));
    lemma_vol_part_of(0x4c, p1);
    lemma_vol_part_of(0x52, p2);
}

fn vol_part(p: &[u8]) -> (r: Option<(bool, u8)>)
    ensures
        r == spec_vol_part(p@),
{
    match split_once_exact(p, 0x3a) {
        None => None,
        Some((k, v)) => {
            let key = trim(k);
            match parse_u8(trim(v)) {
                None => None,
                Some(val) => {
                    if val > 100 {
                        return None;
                    }
                    let l: [u8; 1] = [0x4c];
                    let r: [u8; 1] = [0x52];
                    assert(l@ =~= seq![0x4cu8]);
                    assert(r@ =~= seq![0x52u8]);
                    if bytes_eq(key, &l) {
                        Some((true, val))
                    } else if bytes_eq(key, &r) {
                        Some((false, val))
                    } else {
                        None
                    }
                },
            }
        },
    }
}

fn to_gain(v: u8) -> (g: u8)
    requires
        v <= 100,
    ensures
        g == percent_gain(v),
{
    ((v as u32 * 127) / 100) as u8
}

/// Parses a volume setting.
pub fn vol_command(s: &[u8]) -> (r: Option<(Option<u8>, Option<u8>)>)
    ensures
        r == spec_vol_command(s@),
{
    let t = trim(s);
    match split_once_exact(t, 0x2c) {
        None => None,
        Some((a, b)) => {
            match (vol_part(a), vol_part(b)) {
                (Some((l0, v0)), Some((l1, v1))) => {
                    let l = if l1 {
                        Some(to_gain(v1))
                    } else if l0 {
                        Some(to_gain(v0))
                    } else {
                        None
                    };
                    let r = if !l1 {
                        Some(to_gain(v1))
                    } else if !l0 {
                        Some(to_gain(v0))
                    } else {
                        None
                    };
                    Some((l, r))
                },
                _ => None,
            }
        },
    }
}

/// Parses a mute setting.
pub fn mute_command(s: &[u8]) -> (r: Option<bool>)
    ensures
        r == spec_mute_command(s@),
{
    let t = trim(s);
    let one: [u8; 1] = [0x31];
    let zero: [u8; 1] = [0x30];
    assert(one@ =~= seq![0x31u8]);
    assert(zero@ =~= seq![0x30u8]);
    if bytes_eq(t, &one) {
        Some(true)
    } else if bytes_eq(t, &zero) {
        Some(false)
    } else {
        None
    }
}


/// The answer to a write of `buff` to the special file `hnd`: its byte
/// count when the mute file gets `"1"` or `"0"` or the volume file a volume
/// command; `InvalidOp` otherwise.
pub open spec fn spec_special_write_answer(hnd: usize, buff: Seq<u8>) -> IOCompletion {
    if (hnd == DEV_HND_OUTPUT_MUTE && spec_mute_command(utf8_or_empty(buff)) is Some) || (hnd
        == DEV_HND_OUTPUT_VOL && spec_vol_command(utf8_or_empty(buff)) is Some) {
        IOCompletion::Successful(buff.len() as usize)
    } else {
        IOCompletion::InvalidOp
    }
}

impl IntelHDA {
    /// The PCM file with handle `hnd`, if one is open.
    pub open spec fn has_pcm_file(&self, hnd: usize) -> bool {
        exists|i: int| 0 <= i < self.pcm_files@.len() && self.pcm_files@[i].dev_handle == hnd
    }

    pub open spec fn pcm_file(&self, hnd: usize) -> PcmFileObject {
        let i = choose|i: int| 0 <= i < self.pcm_files@.len() && self.pcm_files@[i].dev_handle == hnd;
        self.pcm_files@[i]
    }

    fn special_text(&self, hnd: usize) -> (t: Option<Vec<u8>>)
        ensures
            match t {
                Some(v) => spec_special_text(self, hnd) == Some(v@),
                None => spec_special_text(self, hnd) is None,
            },
    {
        if hnd == DEV_HND_OUTPUT_FMT {
            let mut out: Vec<u8> = Vec::new();
            if self.ostream0.enabled {
                push_dec(&mut out, self.ostream0.channels as u64);
                out.push(0x63);
                out.push(0x68);
                out.push(0x2c);
                push_dec(&mut out, self.ostream0.sample_rate as u64);
                out.push(0x48);
                out.push(0x7a);
                out.push(0x2c);
                push_dec(&mut out, self.ostream0.bits_per_sample as u64);
                out.push(0x62);
                out.push(0x69);
                out.push(0x74);
                assert(out@ =~= spec_fmt_text(
                    self.ostream0.channels,
                    self.ostream0.sample_rate,
                    self.ostream0.bits_per_sample,
                ));
            } else {
                let msg: [u8; 28] = [
                    0x4e, 0x6f, 0x20, 0x64, 0x65, 0x66, 0x61, 0x75, 0x6c, 0x74, 0x20, 0x6f, 0x75,
                    0x74, 0x70, 0x75, 0x74, 0x20, 0x63, 0x6f, 0x6e, 0x66, 0x69, 0x67, 0x75, 0x72,
                    0x65, 0x64,
                ];
                assert(msg@ =~= spec_no_output_text());
                out = bytes_to_vec(&msg);
            }
            Some(out)
        } else if hnd == DEV_HND_OUTPUT_MUTE {
            let mut out: Vec<u8> = Vec::new();
            out.push(if self.output_mute {
                0x31
            } else {
                0x30
            });
            assert(out@ =~= (if self.output_mute {
                seq![0x31u8]
            } else {
                seq![0x30u8]
            }));
            Some(out)
        } else if hnd == DEV_HND_OUTPUT_VOL {
            let mut out: Vec<u8> = Vec::new();
            let l: u32 = (self.output_gain_l as u32 * 100) / 127;
            let r: u32 = (self.output_gain_r as u32 * 100) / 127;
            out.push(0x4c);
            out.push(0x3a);
            push_dec(&mut out, l as u64);
            out.push(0x2c);
            out.push(0x52);
            out.push(0x3a);
            push_dec(&mut out, r as u64);
            assert(out@ =~= spec_vol_text(self.output_gain_l, self.output_gain_r));
            Some(out)
        } else {
            None
        }
    }

    /// Reads a user-readable file from offset `off`: the output format, the
    /// mute setting or the volume as text.
    pub fn fread_spec(&self, hnd: usize, off: usize, buff: &mut [u8]) -> (r: IOCompletion)
        requires
            spec_special_text(self, hnd) matches Some(t) ==> off <= t.len(),
        ensures
            match spec_special_text(self, hnd) {
                Some(t) => {
                    let n = vstd::math::min(t.len() - off, old(buff)@.len() as int);
                    &&& r == IOCompletion::Successful(n as usize)
                    &&& final(buff)@ == t.subrange(off as int, off + n) + old(buff)@.subrange(
                        n,
                        old(buff)@.len() as int,
                    )
                },
                None => r == IOCompletion::InvalidOp && final(buff)@ == old(buff)@,
            },
    {
        match self.special_text(hnd) {
            Some(t) => {
                let n = read_text(t.as_slice(), off, buff);
                IOCompletion::Successful(n)
            },
            None => IOCompletion::InvalidOp,
        }
    }

    /// Writes a user-writable file: `"1"`/`"0"` to the mute file, or
    /// `"L:{percent},R:{percent}"` to the volume file, which then go to the
    /// speakers. A write taken answers its byte count; any other write
    /// answers `InvalidOp`.
    pub fn fwrite_spec(&mut self, hnd: usize, off: usize, buff: &[u8]) -> (r: IOCompletion)
        requires
            old(self).wf(),
        ensures
            final(self).wf(),
            r == spec_special_write_answer(hnd, buff@),
            ({
                let s = utf8_or_empty(buff@);
                if hnd == DEV_HND_OUTPUT_MUTE && spec_mute_command(s) is Some {
                    let m = spec_mute_command(s)->0;
                    &&& final(self).output_mute == m
                    &&& final(self).output_gain_l == old(self).output_gain_l
                    &&& final(self).output_gain_r == old(self).output_gain_r
                    &&& final(self).verbs@ == old(self).verbs@ + old(self).spec_gain_verbs(
                        old(self).output_gain_l,
                        old(self).output_gain_r,
                        m,
                    )
                    &&& final(self).same_codec_state(old(self))
                } else if hnd == DEV_HND_OUTPUT_VOL && spec_vol_command(s) is Some {
                    let (l, r) = spec_vol_command(s)->0;
                    let gl = match l {
                        Some(g) => g,
                        None => old(self).output_gain_l,
                    };
                    let gr = match r {
                        Some(g) => g,
                        None => old(self).output_gain_r,
                    };
                    &&& final(self).output_gain_l == gl
                    &&& final(self).output_gain_r == gr
                    &&& final(self).output_mute == old(self).output_mute
                    &&& final(self).verbs@ == old(self).verbs@ + old(self).spec_gain_verbs(
                        gl,
                        gr,
                        old(self).output_mute,
                    )
                    &&& final(self).same_codec_state(old(self))
                } else {
                    *final(self) == *old(self)
                }
            }),
    {
        let empty: [u8; 0] = [];
        let s: &[u8] = if is_utf8(buff) {
            buff
        } else {
            assert(empty@ =~= Seq::<u8>::empty());
            &empty
        };
        if hnd == DEV_HND_OUTPUT_FMT {
            return IOCompletion::InvalidOp;
        } else if hnd == DEV_HND_OUTPUT_MUTE {
            match mute_command(s) {
                Some(m) => {
                    self.output_mute = m;
                },
                None => {
                    return IOCompletion::InvalidOp;
                },
            }
            self.apply_output_gain();
        } else if hnd == DEV_HND_OUTPUT_VOL {
            match vol_command(s) {
                Some((l, r)) => {
                    if let Some(g) = l {
                        self.output_gain_l = g;
                    }
                    if let Some(g) = r {
                        self.output_gain_r = g;
                    }
                },
                None => {
                    return IOCompletion::InvalidOp;
                },
            }
            self.apply_output_gain();
        } else {
            return IOCompletion::InvalidOp;
        }
        IOCompletion::Successful(buff.len())
    }

    /// Opens a file under `audio:`; `"/output/pcm"` opens a new PCM file
    /// for process `pid`.
    pub fn fops_open(&mut self, path: &[u8], pid: usize) -> (r: IOCompletion)
        requires
            old(self).wf(),
            old(self).next_pcm_hnd < usize::MAX,
        ensures
            final(self).wf(),
            ({
                let p = spec_relative_path(path@);
                if p == path_output() + sub_pcm() {
                    &&& r == IOCompletion::Successful(old(self).next_pcm_hnd)
                    &&& final(self).pcm_files@ == old(self).pcm_files@.push(
                        PcmFileObject { dev_handle: old(self).next_pcm_hnd, output: true, pid },
                    )
                    &&& final(self).next_pcm_hnd == old(self).next_pcm_hnd + 1
                } else {
                    &&& r == match spec_fixed_handle(p) {
                        Some(h) => IOCompletion::Successful(h),
                        None => IOCompletion::InvalidPath,
                    }
                    &&& *final(self) == *old(self)
                }
            }),
            final(self).same_but_files(old(self)),
    {
        let mpath = MountPoint::device_relative_path(path);
        let root: [u8; 1] = [0x2f];
        let output: [u8; 7] = [0x2f, 0x6f, 0x75, 0x74, 0x70, 0x75, 0x74];
        let output_d: [u8; 8] = [0x2f, 0x6f, 0x75, 0x74, 0x70, 0x75, 0x74, 0x2f];
        let fmt: [u8; 11] = [0x2f, 0x6f, 0x75, 0x74, 0x70, 0x75, 0x74, 0x2f, 0x66, 0x6d, 0x74];
        let mute: [u8; 12] = [0x2f, 0x6f, 0x75, 0x74, 0x70, 0x75, 0x74, 0x2f, 0x6d, 0x75, 0x74, 0x65];
        let pcm: [u8; 11] = [0x2f, 0x6f, 0x75, 0x74, 0x70, 0x75, 0x74, 0x2f, 0x70, 0x63, 0x6d];
        let vol: [u8; 11] = [0x2f, 0x6f, 0x75, 0x74, 0x70, 0x75, 0x74, 0x2f, 0x76, 0x6f, 0x6c];
        let codecs: [u8; 7] = [0x2f, 0x63, 0x6f, 0x64, 0x65, 0x63, 0x73];
        assert(root@ =~= path_root());
        assert(output@ =~= path_output());
        assert(output_d@ =~= path_output() + path_root());
        assert(fmt@ =~= path_output() + sub_fmt());
        assert(mute@ =~= path_output() + sub_mute());
        assert(pcm@ =~= path_output() + sub_pcm());
        assert(vol@ =~= path_output() + sub_vol());
        assert(codecs@ =~= path_codecs());
        assert(mpath@ == spec_relative_path(path@));
        if bytes_eq(mpath, &pcm) {
            let hnd = self.next_pcm_hnd;
            self.pcm_files.push(PcmFileObject { dev_handle: hnd, output: true, pid });
            self.next_pcm_hnd = hnd + 1;
            return IOCompletion::Successful(hnd);
        }
        if bytes_eq(mpath, &root) {
            IOCompletion::Successful(DEV_HND_ROOT)
        } else if bytes_eq(mpath, &output) || bytes_eq(mpath, &output_d) {
            IOCompletion::Successful(DEV_HND_OUTPUT)
        } else if bytes_eq(mpath, &fmt) {
            IOCompletion::Successful(DEV_HND_OUTPUT_FMT)
        } else if bytes_eq(mpath, &mute) {
            IOCompletion::Successful(DEV_HND_OUTPUT_MUTE)
        } else if bytes_eq(mpath, &vol) {
            IOCompletion::Successful(DEV_HND_OUTPUT_VOL)
        } else if bytes_eq(mpath, &codecs) {
            IOCompletion::Successful(DEV_HND_CODECS)
        } else {
            IOCompletion::InvalidPath
        }
    }

    /// Everything but the open PCM files.
    pub open spec fn same_but_files(&self, o: &IntelHDA) -> bool {
        &&& self.widgets@ == o.widgets@
        &&& self.speakers_widx == o.speakers_widx
        &&& self.ostream0 == o.ostream0
        &&& self.ostream1 == o.ostream1
        &&& self.next_os == o.next_os
        &&& self.enabled == o.enabled
        &&& self.playing == o.playing
        &&& self.output_gain_l == o.output_gain_l
        &&& self.output_gain_r == o.output_gain_r
        &&& self.output_mute == o.output_mute
        &&& self.verbs@ == o.verbs@
    }

    /// Closing a fixed file succeeds; PCM files cannot be closed.
    pub fn fops_close(&self, hnd: usize) -> (r: IOCompletion)
        ensures
            r == if hnd <= DEV_HND_CODECS {
                IOCompletion::Successful(0)
            } else {
                IOCompletion::InvalidHandle
            },
    {
        if hnd <= DEV_HND_CODECS {
            IOCompletion::Successful(0)
        } else {
            IOCompletion::InvalidHandle
        }
    }

    /// Reads a fixed file; PCM files cannot be read.
    pub fn fops_read(&self, hnd: usize, off: usize, buff: &mut [u8]) -> (r: IOCompletion)
        requires
            hnd <= DEV_HND_CODECS ==> (spec_special_text(self, hnd) matches Some(t) ==> off
                <= t.len()),
        ensures
            hnd > DEV_HND_CODECS ==> r == IOCompletion::InvalidHandle && final(buff)@ == old(buff)@,
            hnd <= DEV_HND_CODECS ==> match spec_special_text(self, hnd) {
                Some(t) => {
                    let n = vstd::math::min(t.len() - off, old(buff)@.len() as int);
                    &&& r == IOCompletion::Successful(n as usize)
                    &&& final(buff)@ == t.subrange(off as int, off + n) + old(buff)@.subrange(
                        n,
                        old(buff)@.len() as int,
                    )
                },
                None => r == IOCompletion::InvalidOp && final(buff)@ == old(buff)@,
            },
    {
        if hnd <= DEV_HND_CODECS {
            return self.fread_spec(hnd, off, buff);
        }
        IOCompletion::InvalidHandle
    }

    /// Writes a fixed file, or plays the bytes written to an output PCM file
    /// (the caller copies the bytes the answer counts into the stream buffer).
    pub fn fops_write(&mut self, hnd: usize, off: usize, buff: &[u8]) -> (r: IOCompletion)
        requires
            old(self).wf(),
            old(self).enabled ==> old(self).ostream(old(self).next_os as int).sample_size() > 0,
        ensures
            final(self).wf(),
            hnd <= DEV_HND_CODECS ==> r == spec_special_write_answer(hnd, buff@),
            hnd > DEV_HND_CODECS && !old(self).has_pcm_file(hnd) ==> r == IOCompletion::InvalidHandle
                && *final(self) == *old(self),
            hnd > DEV_HND_CODECS && old(self).has_pcm_file(hnd) && !old(self).pcm_file(hnd).output
                ==> r == IOCompletion::InvalidOp && *final(self) == *old(self),
            hnd > DEV_HND_CODECS && old(self).has_pcm_file(hnd) && old(self).pcm_file(hnd).output
                ==> r is Successful && old(self).spec_queued(final(self), buff@, r->0),
    {
        if hnd <= DEV_HND_CODECS {
            return self.fwrite_spec(hnd, off, buff);
        }
        let mut i: usize = 0;
        while i < self.pcm_files.len()
            invariant
                i <= self.pcm_files@.len(),
                forall|k: int| 0 <= k < i ==> self.pcm_files@[k].dev_handle != hnd,
                self.wf(),
                *self == *old(self),
                hnd > DEV_HND_CODECS,
                old(self).enabled ==> old(self).ostream(old(self).next_os as int).sample_size() > 0,
            decreases self.pcm_files@.len() - i,
        {
            if self.pcm_files[i].dev_handle == hnd {
                proof {
                    let c = choose|j: int|
                        0 <= j < self.pcm_files@.len() && self.pcm_files@[j].dev_handle == hnd;
                    if c != i as int {
                        if c < i {
                        } else {
                            assert(self.pcm_files@[i as int].dev_handle
                                < self.pcm_files@[c].dev_handle);
                        }
                    }
                }
                if self.pcm_files[i].output {
                    let n = self.queue_playback(buff);
                    return IOCompletion::Successful(n);
                } else {
                    return IOCompletion::InvalidOp;
                }
            }
            i = i + 1;
        }
        IOCompletion::InvalidHandle
    }

    /// Lists a directory of `audio:` into `out`; answers with `out`'s length.
    pub fn fenum(hnd: usize, out: &mut Vec<DirectoryEntry>) -> (r: IOCompletion)
        ensures
            hnd == DEV_HND_ROOT ==> final(out)@.len() == old(out)@.len() + 3,
            hnd == DEV_HND_OUTPUT ==> final(out)@.len() == old(out)@.len() + 4,
            hnd == DEV_HND_ROOT || hnd == DEV_HND_OUTPUT ==> r == IOCompletion::Successful(
                final(out)@.len() as usize,
            ) && forall|i: int|
                0 <= i < old(out)@.len() ==> #[trigger] final(out)@[i] == old(out)@[i],
            hnd == DEV_HND_ROOT ==> {
                let n = old(out)@.len() as int;
                &&& final(out)@[n].name@ == seq![0x63u8, 0x6fu8, 0x64u8, 0x65u8, 0x63u8, 0x73u8]
                    && final(out)@[n].size == 0 && final(out)@[n].flags == DEV_R_FILE_FLAGS
                &&& final(out)@[n + 1].name@ == seq![0x69u8, 0x6eu8, 0x70u8, 0x75u8, 0x74u8]
                    && final(out)@[n + 1].size == 0 && final(out)@[n + 1].flags == DEV_R_DIR_FLAGS
                &&& final(out)@[n + 2].name@ == seq![0x6fu8, 0x75u8, 0x74u8, 0x70u8, 0x75u8, 0x74u8]
                    && final(out)@[n + 2].size == 0 && final(out)@[n + 2].flags == DEV_R_DIR_FLAGS
            },
            hnd == DEV_HND_OUTPUT ==> {
                let n = old(out)@.len() as int;
                &&& final(out)@[n].name@ == seq![0x66u8, 0x6du8, 0x74u8] && final(out)@[n].size == 0
                    && final(out)@[n].flags == DEV_RW_FILE_FLAGS
                &&& final(out)@[n + 1].name@ == seq![0x6du8, 0x75u8, 0x74u8, 0x65u8] && final(out)@[n + 1].size == 0 && final(out)@[n + 1].flags == DEV_RW_FILE_FLAGS
                &&& final(out)@[n + 2].name@ == seq![0x70u8, 0x63u8, 0x6du8] && final(out)@[n
                    + 2].size == 0 && final(out)@[n + 2].flags == DEV_W_FILE_FLAGS
                &&& final(out)@[n + 3].name@ == seq![0x76u8, 0x6fu8, 0x6cu8] && final(out)@[n
                    + 3].size == 0 && final(out)@[n + 3].flags == DEV_RW_FILE_FLAGS
            },
            hnd != DEV_HND_ROOT && hnd != DEV_HND_OUTPUT ==> r == IOCompletion::InvalidHandle
                && final(out)@ == old(out)@,
    {
        if hnd == DEV_HND_ROOT {
            let a: [u8; 6] = [0x63, 0x6f, 0x64, 0x65, 0x63, 0x73];
            let b: [u8; 5] = [0x69, 0x6e, 0x70, 0x75, 0x74];
            let c: [u8; 6] = [0x6f, 0x75, 0x74, 0x70, 0x75, 0x74];
            assert(a@ =~= seq![0x63u8, 0x6fu8, 0x64u8, 0x65u8, 0x63u8, 0x73u8]);
            assert(b@ =~= seq![0x69u8, 0x6eu8, 0x70u8, 0x75u8, 0x74u8]);
            assert(c@ =~= seq![0x6fu8, 0x75u8, 0x74u8, 0x70u8, 0x75u8, 0x74u8]);
            out.push(DirectoryEntry::from_parts(&a, 0, DEV_R_FILE_FLAGS));
            out.push(DirectoryEntry::from_parts(&b, 0, DEV_R_DIR_FLAGS));
            out.push(DirectoryEntry::from_parts(&c, 0, DEV_R_DIR_FLAGS));
        } else if hnd == DEV_HND_OUTPUT {
            let a: [u8; 3] = [0x66, 0x6d, 0x74];
            let b: [u8; 4] = [0x6d, 0x75, 0x74, 0x65];
            let c: [u8; 3] = [0x70, 0x63, 0x6d];
            let d: [u8; 3] = [0x76, 0x6f, 0x6c];
            assert(a@ =~= seq![0x66u8, 0x6du8, 0x74u8]);
            assert(b@ =~= seq![0x6du8, 0x75u8, 0x74u8, 0x65u8]);
            assert(c@ =~= seq![0x70u8, 0x63u8, 0x6du8]);
            assert(d@ =~= seq![0x76u8, 0x6fu8, 0x6cu8]);
            out.push(DirectoryEntry::from_parts(&a, 0, DEV_RW_FILE_FLAGS));
            out.push(DirectoryEntry::from_parts(&b, 0, DEV_RW_FILE_FLAGS));
            out.push(DirectoryEntry::from_parts(&c, 0, DEV_W_FILE_FLAGS));
            out.push(DirectoryEntry::from_parts(&d, 0, DEV_RW_FILE_FLAGS));
        } else {
            return IOCompletion::InvalidHandle;
        }
        IOCompletion::Successful(out.len())
    }
}

// ---------------------------------------------------------------------------
// Codec discovery
// ---------------------------------------------------------------------------

/// An audio widget as plain values.
pub struct AudioWidgetView {
    pub afg_nid: u8,
    pub nid: u8,
    pub caps: u32,
    pub pin_caps: Option<u32>,
    pub pin_conf: Option<u32>,
    pub conn_list: Option<Seq<u16>>,
}

impl View for AudioWidget {
    type V = AudioWidgetView;

    open spec fn view(&self) -> AudioWidgetView {
        AudioWidgetView {
            afg_nid: self.afg_nid,
            nid: self.nid,
            caps: self.caps,
            pin_caps: self.pin_caps,
            pin_conf: self.pin_conf,
            conn_list: match self.conn_list {
                Some(v) => Some(v@),
                None => None,
            },
        }
    }
}

/// The connection-list entries one answer carries: two 16-bit ones (long
/// form) or four 8-bit ones (short form), at most `remaining`.
pub open spec fn spec_conn_entries(resp: u32, long_form: bool, remaining: u32) -> Seq<u16> {
    if long_form {
        seq![(resp & 0xFFFF) as u16, (resp >> 16u32) as u16].take(vstd::math::min(2, remaining as int))
    } else {
        seq![
            (resp & 0xFF) as u16,
            ((resp >> 8u32) & 0xFF) as u16,
            ((resp >> 16u32) & 0xFF) as u16,
            ((resp >> 24u32) & 0xFF) as u16,
        ].take(vstd::math::min(4, remaining as int))
    }
}

/// The ranges of the fields the scan reads from an answer.
pub proof fn lemma_answer_fields(resp: u32)
    ensures
        resp & 0xFF <= 0xFF,
        (resp >> 16u32) & 0xFF <= 0xFF,
        resp & 0x7F <= 0x7F,
        resp & 0xFFFF <= 0xFFFF,
        resp >> 16u32 <= 0xFFFF,
        (resp >> 8u32) & 0xFF <= 0xFF,
        (resp >> 24u32) & 0xFF <= 0xFF,
{
    assert(resp & 0xFF <= 0xFF && (resp >> 16u32) & 0xFF <= 0xFF && resp & 0x7F <= 0x7F && resp
        & 0xFFFF <= 0xFFFF && resp >> 16u32 <= 0xFFFF && (resp >> 8u32) & 0xFF <= 0xFF && (resp
        >> 24u32) & 0xFF <= 0xFF) by (bit_vector);
}

/// What the scan waits for the answer to.
#[derive(Clone, Copy, Debug, PartialEq, Eq, Structural)]
pub enum ScanStage {
    /// The root node's vendor id
    VendorId,
    /// The root node's subordinate nodes
    RootNodes,
    /// The function group type of the current node
    NodeType,
    /// The widgets of the current audio function group
    GroupNodes,
    /// The current widget's capabilities
    WidgetCaps,
    /// The length of its connection list
    ConnCount,
    /// Entries of its connection list
    ConnEntries,
    /// Its configuration default
    PinConfig,
    /// Its pin capabilities
    PinCaps,
    Done,
}

/// The state of the codec scan: where it is among the root's nodes, the
/// current function group's widgets and the current widget's connections.
pub struct CodecScan {
    pub stage: ScanStage,
    pub node_count: u32,
    pub first_node: u32,
    pub node_i: u32,
    pub wcnt: u32,
    pub wfirst: u32,
    pub widget_j: u32,
    pub caps: u32,
    pub conn: Vec<u16>,
    pub has_conn: bool,
    pub conn_count: u32,
    pub long_form: bool,
    pub conn_idx: u32,
    pub pin_conf: Option<u32>,
}

/// The scan state as plain values.
pub struct ScanState {
    pub stage: ScanStage,
    pub node_count: u32,
    pub first_node: u32,
    pub node_i: u32,
    pub wcnt: u32,
    pub wfirst: u32,
    pub widget_j: u32,
    pub caps: u32,
    pub conn: Seq<u16>,
    pub has_conn: bool,
    pub conn_count: u32,
    pub long_form: bool,
    pub conn_idx: u32,
    pub pin_conf: Option<u32>,
}

impl View for CodecScan {
    type V = ScanState;

    open spec fn view(&self) -> ScanState {
        ScanState {
            stage: self.stage,
            node_count: self.node_count,
            first_node: self.first_node,
            node_i: self.node_i,
            wcnt: self.wcnt,
            wfirst: self.wfirst,
            widget_j: self.widget_j,
            caps: self.caps,
            conn: self.conn@,
            has_conn: self.has_conn,
            conn_count: self.conn_count,
            long_form: self.long_form,
            conn_idx: self.conn_idx,
            pin_conf: self.pin_conf,
        }
    }
}

impl ScanState {
    /// The counters stay in the ranges the answers' fields give them.
    pub open spec fn wf(self) -> bool {
        &&& self.counters_ok()
        &&& (self.in_group() ==> self.node_i < self.node_count)
        &&& (self.in_widget() ==> self.widget_j < self.wcnt)
        &&& (self.stage == ScanStage::ConnEntries ==> self.conn_idx < self.conn_count)
    }

    pub open spec fn counters_ok(self) -> bool {
        &&& self.node_count <= 0xFF && self.first_node <= 0xFF && self.node_i <= self.node_count
        &&& self.wcnt <= 0xFF && self.wfirst <= 0xFF && self.widget_j <= self.wcnt
        &&& self.conn_count <= 0x7F && self.conn_idx <= self.conn_count
    }

    /// The scan is at a node of the root.
    pub open spec fn in_group(self) -> bool {
        self.stage != ScanStage::VendorId && self.stage != ScanStage::RootNodes && self.stage
            != ScanStage::Done
    }

    /// The scan is at a widget of a function group.
    pub open spec fn in_widget(self) -> bool {
        self.in_group() && self.stage != ScanStage::NodeType && self.stage != ScanStage::GroupNodes
    }

    /// The current node (function group).
    pub open spec fn node_nid(self) -> u8 {
        (self.first_node + self.node_i) as u8
    }

    /// The current widget.
    pub open spec fn widget_nid(self) -> u8 {
        (self.wfirst + self.widget_j) as u8
    }

    /// The widget whose answers are complete (its connection list, when
    /// its length was answered, holds the entries answered).
    pub open spec fn widget(self, pin_caps: Option<u32>, pin_conf: Option<u32>) -> AudioWidgetView {
        AudioWidgetView {
            afg_nid: self.node_nid(),
            nid: self.widget_nid(),
            caps: self.caps,
            pin_caps,
            pin_conf,
            conn_list: if self.has_conn { Some(self.conn) } else { None },
        }
    }
}

/// Asks for the type of the node at `node_i`, or ends the scan past the last node.
pub open spec fn scan_next_node(s: ScanState) -> (ScanState, Option<u32>) {
    if s.node_i < s.node_count {
        (
            ScanState { stage: ScanStage::NodeType, ..s },
            Some(spec_build_verb(0, s.node_nid(), VERBID_GET_PARAM, CODEC_PARAM_FG_TYPE)),
        )
    } else {
        (ScanState { stage: ScanStage::Done, ..s }, None)
    }
}

/// Asks for the capabilities of the widget at `widget_j`, or moves on to the
/// next node past the group's last widget.
pub open spec fn scan_next_widget(s: ScanState) -> (ScanState, Option<u32>) {
    if s.widget_j < s.wcnt {
        (
            ScanState { stage: ScanStage::WidgetCaps, ..s },
            Some(spec_build_verb(0, s.widget_nid(), VERBID_GET_PARAM, CODEC_PARAM_WIDGET_CAP)),
        )
    } else {
        scan_next_node(ScanState { node_i: (s.node_i + 1) as u32, ..s })
    }
}

/// Asks for the connection-list entries from `conn_idx`, or for the
/// configuration default once the list is complete.
pub open spec fn scan_next_conn(s: ScanState) -> (ScanState, Option<u32>) {
    if s.conn_idx < s.conn_count {
        (
            ScanState { stage: ScanStage::ConnEntries, ..s },
            Some(spec_build_verb(0, s.widget_nid(), VERBID_GET_CONN_ENT, s.conn_idx)),
        )
    } else {
        (
            ScanState { stage: ScanStage::PinConfig, ..s },
            Some(spec_build_verb(0, s.widget_nid(), VERBID_GET_CONF_DEF, 0)),
        )
    }
}

/// One step of the scan: the state after the answer `resp` (`None` when
/// the codec gave none), the next verb to send (none once the scan is over)
/// and the widget the answer completes. Without an answer the scan gives up
/// on the root's node count, passes over a node whose type or widgets it
/// cannot learn and a widget whose capabilities it cannot learn, ends a
/// connection list early (or has none, without its length), and records no
/// configuration default or pin capabilities.
pub open spec fn spec_scan_step(s: ScanState, resp: Option<u32>) -> (
    ScanState,
    Option<u32>,
    Option<AudioWidgetView>,
) {
    match s.stage {
        ScanStage::VendorId => (
            ScanState { stage: ScanStage::RootNodes, ..s },
            Some(spec_build_verb(0, 0, VERBID_GET_PARAM, CODEC_PARAM_NODE_CNT)),
            None,
        ),
        ScanStage::RootNodes => match resp {
            None => (ScanState { stage: ScanStage::Done, ..s }, None, None),
            Some(r) => {
                let n = scan_next_node(
                    ScanState { node_count: r & 0xFF, first_node: (r >> 16u32) & 0xFF, node_i: 0, ..s },
                );
                (n.0, n.1, None)
            },
        },
        ScanStage::NodeType => {
            if resp is None || resp->0 & 0xFF != 1 {
                let n = scan_next_node(ScanState { node_i: (s.node_i + 1) as u32, ..s });
                (n.0, n.1, None)
            } else {
                (
                    ScanState { stage: ScanStage::GroupNodes, ..s },
                    Some(spec_build_verb(0, s.node_nid(), VERBID_GET_PARAM, CODEC_PARAM_NODE_CNT)),
                    None,
                )
            }
        },
        ScanStage::GroupNodes => match resp {
            None => {
                let n = scan_next_node(ScanState { node_i: (s.node_i + 1) as u32, ..s });
                (n.0, n.1, None)
            },
            Some(r) => {
                let n = scan_next_widget(
                    ScanState { wcnt: r & 0xFF, wfirst: (r >> 16u32) & 0xFF, widget_j: 0, ..s },
                );
                (n.0, n.1, None)
            },
        },
        ScanStage::WidgetCaps => match resp {
            None => {
                let n = scan_next_widget(ScanState { widget_j: (s.widget_j + 1) as u32, ..s });
                (n.0, n.1, None)
            },
            Some(r) => (
                ScanState { stage: ScanStage::ConnCount, caps: r, ..s },
                Some(spec_build_verb(0, s.widget_nid(), VERBID_GET_PARAM, CODEC_PARAM_CONN_LIST_CNT)),
                None,
            ),
        },
        ScanStage::ConnCount => {
            let n = match resp {
                None => scan_next_conn(
                    ScanState { conn_count: 0, has_conn: false, conn: Seq::empty(), conn_idx: 0, ..s },
                ),
                Some(r) => scan_next_conn(
                    ScanState {
                        conn_count: r & 0x7F,
                        long_form: r & 0x8 != 0,
                        has_conn: true,
                        conn: Seq::empty(),
                        conn_idx: 0,
                        ..s
                    },
                ),
            };
            (n.0, n.1, None)
        },
        ScanStage::ConnEntries => {
            let n = match resp {
                None => scan_next_conn(ScanState { conn_idx: s.conn_count, ..s }),
                Some(r) => {
                    let e = spec_conn_entries(r, s.long_form, (s.conn_count - s.conn_idx) as u32);
                    scan_next_conn(ScanState { conn: s.conn + e, conn_idx: (s.conn_idx + e.len()) as u32, ..s })
                },
            };
            (n.0, n.1, None)
        },
        ScanStage::PinConfig => {
            if spec_widget_type(s.caps) == WidgetType::PinComplex {
                (
                    ScanState { stage: ScanStage::PinCaps, pin_conf: resp, ..s },
                    Some(spec_build_verb(0, s.widget_nid(), VERBID_GET_PARAM, CODEC_PARAM_PIN_CAP)),
                    None,
                )
            } else {
                let n = scan_next_widget(
                    ScanState {
                        widget_j: (s.widget_j + 1) as u32,
                        pin_conf: resp,
                        conn: Seq::empty(),
                        ..s
                    },
                );
                (n.0, n.1, Some(s.widget(None, resp)))
            }
        },
        ScanStage::PinCaps => {
            let n = scan_next_widget(
                ScanState { widget_j: (s.widget_j + 1) as u32, conn: Seq::empty(), ..s },
            );
            (n.0, n.1, Some(s.widget(resp, s.pin_conf)))
        },
        ScanStage::Done => (s, None, None),
    }
}

/// The index of the first audio output among the widgets.
pub open spec fn spec_first_output(w: Seq<AudioWidgetView>) -> Option<int> {
    if exists|i: int| 0 <= i < w.len() && spec_widget_type(w[i].caps) == WidgetType::AudioOutput {
        Some(
            choose|i: int|
                0 <= i < w.len() && spec_widget_type(w[i].caps) == WidgetType::AudioOutput && forall|
                    j: int,
                |
                    0 <= j < i ==> spec_widget_type(w[j].caps) != WidgetType::AudioOutput,
        )
    } else {
        None
    }
}

impl CodecScan {
    fn node_nid(&self) -> (n: u8)
        requires
            self@.counters_ok(),
        ensures
            n == self@.node_nid(),
    {
        (self.first_node + self.node_i) as u8
    }

    fn widget_nid(&self) -> (n: u8)
        requires
            self@.counters_ok(),
        ensures
            n == self@.widget_nid(),
    {
        (self.wfirst + self.widget_j) as u8
    }

    fn next_node(&mut self) -> (v: Option<u32>)
        requires
            old(self)@.counters_ok(),
        ensures
            final(self)@.wf(),
            (final(self)@, v) == scan_next_node(old(self)@),
    {
        if self.node_i < self.node_count {
            self.stage = ScanStage::NodeType;
            let nid = self.node_nid();
            Some(build_verb(0, nid, VERBID_GET_PARAM, CODEC_PARAM_FG_TYPE))
        } else {
            self.stage = ScanStage::Done;
            None
        }
    }

    fn next_widget(&mut self) -> (v: Option<u32>)
        requires
            old(self)@.counters_ok(),
            old(self).node_i < old(self).node_count,
        ensures
            final(self)@.wf(),
            (final(self)@, v) == scan_next_widget(old(self)@),
    {
        if self.widget_j < self.wcnt {
            self.stage = ScanStage::WidgetCaps;
            let nid = self.widget_nid();
            Some(build_verb(0, nid, VERBID_GET_PARAM, CODEC_PARAM_WIDGET_CAP))
        } else {
            self.node_i = self.node_i + 1;
            self.next_node()
        }
    }

    fn next_conn(&mut self) -> (v: Option<u32>)
        requires
            old(self)@.counters_ok(),
            old(self).node_i < old(self).node_count,
            old(self).widget_j < old(self).wcnt,
        ensures
            final(self)@.wf(),
            (final(self)@, v) == scan_next_conn(old(self)@),
    {
        let nid = self.widget_nid();
        if self.conn_idx < self.conn_count {
            self.stage = ScanStage::ConnEntries;
            Some(build_verb(0, nid, VERBID_GET_CONN_ENT, self.conn_idx))
        } else {
            self.stage = ScanStage::PinConfig;
            Some(build_verb(0, nid, VERBID_GET_CONF_DEF, 0))
        }
    }
}

impl IntelHDA {
    /// The widgets found so far, as plain values.
    pub open spec fn widgets_view(&self) -> Seq<AudioWidgetView> {
        self.widgets@.map_values(|w: AudioWidget| w@)
    }

    /// Starts the codec scan at codec 0: returns the scan and the first verb
    /// to send (the root node's vendor id).
    pub fn codec_scan_start() -> (r: (CodecScan, u32))
        ensures
            r.0@.wf(),
            r.0@.stage == ScanStage::VendorId,
            r.1 == spec_build_verb(0, 0, VERBID_GET_PARAM, CODEC_PARAM_VENDOR_ID),
    {
        let scan = CodecScan {
            stage: ScanStage::VendorId,
            node_count: 0,
            first_node: 0,
            node_i: 0,
            wcnt: 0,
            wfirst: 0,
            widget_j: 0,
            caps: 0,
            conn: Vec::new(),
            has_conn: false,
            conn_count: 0,
            long_form: false,
            conn_idx: 0,
            pin_conf: None,
        };
        (scan, build_verb(0, 0, VERBID_GET_PARAM, CODEC_PARAM_VENDOR_ID))
    }

    /// Takes the codec's answer to the last verb of the scan (`None` when it
    /// gave none); returns the next verb to send, or `None` once the scan is
    /// over. A widget whose answers are complete joins `widgets`.
    pub fn codec_scan_step(&mut self, scan: &mut CodecScan, resp: Option<u32>) -> (v: Option<u32>)
        requires
            old(scan)@.wf(),
        ensures
            final(scan)@.wf(),
            ({
                let (s2, verb, w) = spec_scan_step(old(scan)@, resp);
                &&& final(scan)@ == s2
                &&& v == verb
                &&& final(self).widgets_view() == match w {
                    Some(x) => old(self).widgets_view().push(x),
                    None => old(self).widgets_view(),
                }
            }),
            final(self).speakers_widx == old(self).speakers_widx,
            final(self).widgets@.len() >= old(self).widgets@.len(),
            final(self).same_but_widgets(old(self)),
    {
        match scan.stage {
            ScanStage::VendorId => {
                scan.stage = ScanStage::RootNodes;
                Some(build_verb(0, 0, VERBID_GET_PARAM, CODEC_PARAM_NODE_CNT))
            },
            ScanStage::RootNodes => match resp {
                None => {
                    scan.stage = ScanStage::Done;
                    None
                },
                Some(r) => {
                    proof {
                        lemma_answer_fields(r);
                    }
                    scan.node_count = r & 0xFF;
                    scan.first_node = (r >> 16u32) & 0xFF;
                    scan.node_i = 0;
                    scan.next_node()
                },
            },
            ScanStage::NodeType => {
                let group = match resp {
                    Some(r) => r & 0xFF == 1,
                    None => false,
                };
                if !group {
                    scan.node_i = scan.node_i + 1;
                    scan.next_node()
                } else {
                    scan.stage = ScanStage::GroupNodes;
                    let nid = scan.node_nid();
                    Some(build_verb(0, nid, VERBID_GET_PARAM, CODEC_PARAM_NODE_CNT))
                }
            },
            ScanStage::GroupNodes => match resp {
                None => {
                    scan.node_i = scan.node_i + 1;
                    scan.next_node()
                },
                Some(r) => {
                    proof {
                        lemma_answer_fields(r);
                    }
                    scan.wcnt = r & 0xFF;
                    scan.wfirst = (r >> 16u32) & 0xFF;
                    scan.widget_j = 0;
                    scan.next_widget()
                },
            },
            ScanStage::WidgetCaps => match resp {
                None => {
                    scan.widget_j = scan.widget_j + 1;
                    scan.next_widget()
                },
                Some(r) => {
                    scan.stage = ScanStage::ConnCount;
                    scan.caps = r;
                    let nid = scan.widget_nid();
                    Some(build_verb(0, nid, VERBID_GET_PARAM, CODEC_PARAM_CONN_LIST_CNT))
                },
            },
            ScanStage::ConnCount => {
                match resp {
                    None => {
                        scan.conn_count = 0;
                        scan.has_conn = false;
                    },
                    Some(r) => {
                        proof {
                            lemma_answer_fields(r);
                        }
                        scan.conn_count = r & 0x7F;
                        scan.long_form = r & 0x8 != 0;
                        scan.has_conn = true;
                    },
                }
                scan.conn = Vec::new();
                scan.conn_idx = 0;
                scan.next_conn()
            },
            ScanStage::ConnEntries => match resp {
                None => {
                    scan.conn_idx = scan.conn_count;
                    scan.next_conn()
                },
                Some(resp) => {
                    proof {
                        lemma_answer_fields(resp);
                    }
                    let remaining = scan.conn_count - scan.conn_idx;
                    let ghost e = spec_conn_entries(resp, scan.long_form, remaining);
                    let ghost c0 = scan.conn@;
                    if scan.long_form {
                        scan.conn.push((resp & 0xFFFF) as u16);
                        if remaining > 1 {
                            scan.conn.push((resp >> 16u32) as u16);
                        }
                    } else {
                        scan.conn.push((resp & 0xFF) as u16);
                        if remaining > 1 {
                            scan.conn.push(((resp >> 8u32) & 0xFF) as u16);
                        }
                        if remaining > 2 {
                            scan.conn.push(((resp >> 16u32) & 0xFF) as u16);
                        }
                        if remaining > 3 {
                            scan.conn.push(((resp >> 24u32) & 0xFF) as u16);
                        }
                    }
                    assert(scan.conn@ =~= c0 + e);
                    let taken: u32 = if scan.long_form {
                        if remaining > 1 {
                            2
                        } else {
                            1
                        }
                    } else if remaining > 3 {
                        4
                    } else {
                        remaining
                    };
                    scan.conn_idx = scan.conn_idx + taken;
                    scan.next_conn()
                },
            },
            ScanStage::PinConfig => {
                let ghost s0 = scan@;
                let nid = scan.widget_nid();
                let afg = scan.node_nid();
                let caps = scan.caps;
                let w = AudioWidget {
                    afg_nid: afg,
                    nid,
                    caps,
                    pin_caps: None,
                    pin_conf: resp,
                    conn_list: None,
                };
                if w.widget_type() == WidgetType::PinComplex {
                    scan.stage = ScanStage::PinCaps;
                    scan.pin_conf = resp;
                    Some(build_verb(0, nid, VERBID_GET_PARAM, CODEC_PARAM_PIN_CAP))
                } else {
                    let mut conn: Vec<u16> = Vec::new();
                    std::mem::swap(&mut conn, &mut scan.conn);
                    let conn_list = if scan.has_conn {
                        Some(conn)
                    } else {
                        None
                    };
                    let w = AudioWidget { afg_nid: afg, nid, caps, pin_caps: None, pin_conf: resp, conn_list };
                    assert(w@ == s0.widget(None, resp));
                    self.widgets.push(w);
                    assert(self.widgets_view() =~= old(self).widgets_view().push(s0.widget(None, resp)));
                    scan.widget_j = scan.widget_j + 1;
                    scan.pin_conf = resp;
                    scan.next_widget()
                }
            },
            ScanStage::PinCaps => {
                let ghost s0 = scan@;
                let nid = scan.widget_nid();
                let afg = scan.node_nid();
                let mut conn: Vec<u16> = Vec::new();
                std::mem::swap(&mut conn, &mut scan.conn);
                let conn_list = if scan.has_conn {
                    Some(conn)
                } else {
                    None
                };
                let w = AudioWidget {
                    afg_nid: afg,
                    nid,
                    caps: scan.caps,
                    pin_caps: resp,
                    pin_conf: scan.pin_conf,
                    conn_list,
                };
                assert(w@ == s0.widget(resp, s0.pin_conf));
                self.widgets.push(w);
                assert(self.widgets_view() =~= old(self).widgets_view().push(s0.widget(resp, s0.pin_conf)));
                scan.widget_j = scan.widget_j + 1;
                scan.next_widget()
            },
            ScanStage::Done => None,
        }
    }

    /// Everything but the widgets.
    pub open spec fn same_but_widgets(&self, o: &IntelHDA) -> bool {
        &&& self.speakers_widx == o.speakers_widx
        &&& self.ostream0 == o.ostream0
        &&& self.ostream1 == o.ostream1
        &&& self.next_os == o.next_os
        &&& self.enabled == o.enabled
        &&& self.playing == o.playing
        &&& self.output_gain_l == o.output_gain_l
        &&& self.output_gain_r == o.output_gain_r
        &&& self.output_mute == o.output_mute
        &&& self.verbs@ == o.verbs@
        &&& self.next_pcm_hnd == o.next_pcm_hnd
        &&& self.pcm_files@ == o.pcm_files@
    }
}

/// Global control register: controller reset bit.
pub const GCTL_CRST: u32 = 1;
/// Interrupt control: global and controller interrupts enabled.
pub const INTCTL_GLOBAL: u32 = 0xC000_0000;
/// Offset of the first stream descriptor; each takes 0x20 bytes.
pub const REG_STREAMS_BASE: usize = 0x80;
pub const STREAM_REGS_SIZE: usize = 0x20;

/// The global control values that put the controller in reset and then
/// take it out of reset.
pub fn reset_gctl_values(gctl: u32) -> (r: (u32, u32))
    ensures
        r == (gctl & !GCTL_CRST, (gctl & !GCTL_CRST) | GCTL_CRST),
{
    let g = gctl & !GCTL_CRST;
    (g, g | GCTL_CRST)
}

/// After the reset: the interrupt control value to write when the
/// controller came out of reset and a codec reported its presence.
pub fn reset_outcome(gctl: u32, statests: u16) -> (r: Option<u32>)
    ensures
        r == if gctl & GCTL_CRST != 0 && statests != 0 {
            Some(INTCTL_GLOBAL)
        } else {
            None::<u32>
        },
{
    if gctl & GCTL_CRST == 0 {
        None
    } else if statests == 0 {
        None
    } else {
        Some(INTCTL_GLOBAL)
    }
}

/// The memory of one stream: its descriptor list page and its PCM buffer.
#[derive(Clone, Copy, Debug)]
pub struct StreamMemory {
    pub bdl_phys: usize,
    pub bdl_virt: usize,
    pub pcm_phys: usize,
    pub pcm_virt: usize,
}

impl IntelHDA {
    /// The verbs that set up the speakers' output: power on its function
    /// group and converter, send its gains, then read the three power states.
    pub open spec fn spec_output_setup_verbs(&self) -> Seq<u32> {
        let w = self.widgets@[self.speakers_widx->0 as int];
        seq![
            spec_build_verb(0, w.afg_nid, VERBID_SET_PWR_STATE, 0),
            spec_build_verb(0, w.nid, VERBID_SET_PWR_STATE, 0),
        ] + self.spec_gain_verbs(self.output_gain_l, self.output_gain_r, self.output_mute) + seq![
            spec_build_verb(0, 0, VERBID_GET_PWR_STATE, 0),
            spec_build_verb(0, w.afg_nid, VERBID_GET_PWR_STATE, 0),
            spec_build_verb(0, w.nid, VERBID_GET_PWR_STATE, 0),
        ]
    }

    /// The index of the first audio output among the widgets.
    pub fn first_output_index(&self) -> (r: Option<usize>)
        ensures
            r == match spec_first_output(self.widgets_view()) {
                Some(i) => Some(i as usize),
                None => None::<usize>,
            },
            r matches Some(i) ==> i < self.widgets@.len(),
    {
        let ghost wv = self.widgets_view();
        let mut i: usize = 0;
        let n = self.widgets.len();
        while i < n
            invariant
                i <= n,
                n == self.widgets@.len(),
                wv == self.widgets_view(),
                forall|j: int| 0 <= j < i ==> spec_widget_type(wv[j].caps) != WidgetType::AudioOutput,
            decreases n - i,
        {
            if self.widgets[i].widget_type() == WidgetType::AudioOutput {
                proof {
                    assert(wv[i as int] == self.widgets@[i as int]@);
                    let c = choose|k: int|
                        0 <= k < wv.len() && spec_widget_type(wv[k].caps) == WidgetType::AudioOutput
                            && forall|j: int|
                            0 <= j < k ==> spec_widget_type(wv[j].caps) != WidgetType::AudioOutput;
                    assert(0 <= i < wv.len() && spec_widget_type(wv[i as int].caps)
                        == WidgetType::AudioOutput);
                    if c > i {
                        assert(spec_widget_type(wv[i as int].caps) != WidgetType::AudioOutput);
                    }
                }
                return Some(i);
            }
            assert(wv[i as int] == self.widgets@[i as int]@);
            i = i + 1;
        }
        None
    }

    /// Ends the codec scan: the first audio output found drives the
    /// speakers, and its function group and converter are set up. Returns
    /// whether the speakers have an output.
    #[verifier::spinoff_prover]
    #[verifier::rlimit(40)]
    pub fn codec_scan_finish(&mut self) -> (ok: bool)
        requires
            old(self).wf(),
        ensures
            final(self).wf(),
            final(self).speakers_widx == match spec_first_output(old(self).widgets_view()) {
                Some(i) => Some(i as usize),
                None => old(self).speakers_widx,
            },
            ok == final(self).speakers_widx is Some,
            ok ==> final(self).verbs@ == old(self).verbs@ + final(self).spec_output_setup_verbs(),
            !ok ==> final(self).verbs@ == old(self).verbs@,
            final(self).widgets@ == old(self).widgets@,
            final(self).ostream0 == old(self).ostream0 && final(self).ostream1 == old(self).ostream1,
            final(self).enabled == old(self).enabled && final(self).playing == old(self).playing,
            final(self).next_os == old(self).next_os,
            final(self).output_gain_l == old(self).output_gain_l,
            final(self).output_gain_r == old(self).output_gain_r,
            final(self).output_mute == old(self).output_mute,
            final(self).pcm_files@ == old(self).pcm_files@,
            final(self).next_pcm_hnd == old(self).next_pcm_hnd,
    {
        match self.first_output_index() {
            Some(i) => {
                self.speakers_widx = Some(i);
            },
            None => {},
        }
        if self.speakers_widx.is_some() {
            self.send_output_setup();
            true
        } else {
            false
        }
    }

    fn send_output_setup(&mut self)
        requires
            old(self).wf(),
            old(self).speakers_widx is Some,
        ensures
            final(self).wf(),
            final(self).verbs@ == old(self).verbs@ + old(self).spec_output_setup_verbs(),
            final(self).same_codec_state(old(self)),
            final(self).output_gain_l == old(self).output_gain_l,
            final(self).output_gain_r == old(self).output_gain_r,
            final(self).output_mute == old(self).output_mute,
    {
        let widx = self.speakers_widx.unwrap();
        let afg = self.widgets[widx].afg_nid;
        let dac = self.widgets[widx].nid;
        self.set_power_state(0, afg, 0);
        self.set_power_state(0, dac, 0);
        self.apply_output_gain();
        self.verbs.push(build_verb(0, 0, VERBID_GET_PWR_STATE, 0));
        self.verbs.push(build_verb(0, afg, VERBID_GET_PWR_STATE, 0));
        self.verbs.push(build_verb(0, dac, VERBID_GET_PWR_STATE, 0));
        assert(self.verbs@ =~= old(self).verbs@ + old(self).spec_output_setup_verbs());
    }

    /// Sets up the streams from the global capabilities `gcap`: the first
    /// two input streams (numbered from 1) and the first two output streams
    /// (numbered after all input streams), each on its registers and
    /// memory. Returns the interrupt control value with their interrupts
    /// enabled, or `None` when there are fewer than two of either kind.
    pub fn init_streams(&mut self, gcap: u16, intctl: u32, mem: [StreamMemory; 4]) -> (r: Option<u32>)
        requires
            old(self).wf(),
            old(self).regs.base_virt + REG_STREAMS_BASE + 32 * STREAM_REGS_SIZE <= usize::MAX,
            forall|i: int| 0 <= i < 4 ==> #[trigger] mem[i].pcm_phys + PCM_BUFFER_SIZE <= usize::MAX,
            old(self).istream0.wf() && old(self).istream1.wf(),
        ensures
            final(self).wf(),
            final(self).ostream_cnt == (gcap >> 8u16) & 0xF,
            final(self).istream_cnt == (gcap >> 12u16) & 0xF,
            streams_set_up(*old(self), *final(self), intctl, mem, r),
            final(self).widgets@ == old(self).widgets@,
            final(self).speakers_widx == old(self).speakers_widx,
            final(self).verbs@ == old(self).verbs@,
            final(self).enabled == old(self).enabled && final(self).playing == old(self).playing,
            final(self).next_os == old(self).next_os,
            final(self).pcm_files@ == old(self).pcm_files@,
            final(self).next_pcm_hnd == old(self).next_pcm_hnd,
    {
        assert((gcap >> 8u16) & 0xF <= 15 && (gcap >> 12u16) & 0xF <= 15) by (bit_vector);
        self.ostream_cnt = ((gcap >> 8u16) & 0xF) as u8;
        self.istream_cnt = ((gcap >> 12u16) & 0xF) as u8;
        if self.ostream_cnt < 2 || self.istream_cnt < 2 {
            return None;
        }
        let ic = self.istream_cnt;
        let base = self.regs.base_virt + REG_STREAMS_BASE;
        self.istream0.init(1, base, mem[0].bdl_phys, mem[0].bdl_virt, mem[0].pcm_phys, mem[0].pcm_virt);
        self.istream1.init(
            2,
            base + STREAM_REGS_SIZE,
            mem[1].bdl_phys,
            mem[1].bdl_virt,
            mem[1].pcm_phys,
            mem[1].pcm_virt,
        );
        self.ostream0.init(
            ic + 1,
            base + (ic as usize) * STREAM_REGS_SIZE,
            mem[2].bdl_phys,
            mem[2].bdl_virt,
            mem[2].pcm_phys,
            mem[2].pcm_virt,
        );
        self.ostream1.init(
            ic + 2,
            base + (ic as usize + 1) * STREAM_REGS_SIZE,
            mem[3].bdl_phys,
            mem[3].bdl_virt,
            mem[3].pcm_phys,
            mem[3].pcm_virt,
        );
        Some(intctl | 1u32 | 2u32 | (1u32 << (ic as u32)) | (1u32 << ((ic + 1) as u32)))
    }

    /// Finishes bringing the controller up after its reset and the codec
    /// scan: sets up the streams, enables the controller and sets the
    /// default output format (stereo, 48 kHz, 16-bit) on both output streams
    /// and the speakers' converter. Returns the interrupt control value to
    /// write, `None` when already enabled or when the controller has too few
    /// streams (no format is set then).
    pub fn init(&mut self, gcap: u16, intctl: u32, mem: [StreamMemory; 4]) -> (r: Option<u32>)
        requires
            old(self).wf(),
            old(self).regs.base_virt + REG_STREAMS_BASE + 32 * STREAM_REGS_SIZE <= usize::MAX,
            forall|i: int| 0 <= i < 4 ==> #[trigger] mem[i].pcm_phys + PCM_BUFFER_SIZE <= usize::MAX,
            old(self).istream0.wf() && old(self).istream1.wf(),
        ensures
            final(self).wf(),
            old(self).enabled ==> r is None && *final(self) == *old(self),
            !old(self).enabled ==> final(self).enabled && final(self).ostream_cnt == (gcap >> 8u16)
                & 0xF && final(self).istream_cnt == (gcap >> 12u16) & 0xF && (r is Some
                <==> (final(self).ostream_cnt >= 2 && final(self).istream_cnt >= 2)),
            !old(self).enabled ==> streams_set_up(*old(self), *final(self), intctl, mem, r),
            !old(self).enabled && r is Some && final(self).ostream0.enabled ==> final(self).ostream0.channels
                == 2 && final(self).ostream0.sample_rate == 48000 && final(self).ostream0.bits_per_sample == 16
                && final(self).ostream0.fmt == spec_audio_format(2, 48000, 16),
            !old(self).enabled && r is Some && final(self).ostream0.enabled && final(self).ostream1.enabled
                ==> final(self).ostream1.channels == 2 && final(self).ostream1.sample_rate == 48000
                && final(self).ostream1.bits_per_sample == 16 && final(self).ostream1.fmt
                == spec_audio_format(2, 48000, 16),
            final(self).verbs@ == if !old(self).enabled && r is Some && final(self).ostream0.enabled
                && final(self).ostream1.enabled && old(self).speakers_widx is Some {
                old(self).verbs@.push(
                    spec_build_verb16(0, old(self).dac_nid(), VERBID_SET_FORMAT, spec_audio_format(2, 48000, 16)),
                )
            } else {
                old(self).verbs@
            },
            final(self).widgets@ == old(self).widgets@,
            final(self).speakers_widx == old(self).speakers_widx,
    {
        if self.enabled {
            return None;
        }
        let r = self.init_streams(gcap, intctl, mem);
        self.enabled = true;
        if r.is_some() {
            self.set_output_format(2, 48000, 16);
        }
        r
    }
}

} // verus!
