//! The voice assistant's interaction state: what it is doing, whether the
//! wake word is active, and how the state is shown.
use vstd::prelude::*;
use crate::graphics::{Color, Rect};
use crate::draw::{DrawCommand, DrawOp, ops_of};

verus! {

/// What the voice assistant is doing.
#[derive(Debug, Clone, Copy, PartialEq, Eq, Structural)]
pub enum VoiceState {
    /// Waiting for activation.
    Idle,
    /// Listening to the user.
    Listening,
    /// Processing speech.
    Processing,
    /// Answering.
    Speaking,
}

/// The assistant's state and whether the wake word has activated it.
#[derive(Debug, Clone, Copy, PartialEq, Eq, Structural)]
pub struct VoiceStatus {
    pub state: VoiceState,
    pub wake_word_active: bool,
}

impl VoiceStatus {
    /// Idle, wake word not active.
    pub fn new() -> (s: Self)
        ensures
            s.state == VoiceState::Idle,
            !s.wake_word_active,
    {
        VoiceStatus { state: VoiceState::Idle, wake_word_active: false }
    }

    /// Set the state.
    pub fn set_state(&mut self, state: VoiceState)
        ensures
            final(self).state == state,
            final(self).wake_word_active == old(self).wake_word_active,
    {
        self.state = state;
    }

    /// The wake word was heard: listen.
    pub fn activate_wake_word(&mut self)
        ensures
            final(self).state == VoiceState::Listening,
            final(self).wake_word_active,
    {
        self.wake_word_active = true;
        self.state = VoiceState::Listening;
    }

    /// The interaction is over: go idle.
    pub fn deactivate_wake_word(&mut self)
        ensures
            final(self).state == VoiceState::Idle,
            !final(self).wake_word_active,
    {
        self.wake_word_active = false;
        self.state = VoiceState::Idle;
    }
}

/// The icon, text and colour that show a state.
pub open spec fn indicator_of(s: VoiceState) -> (Seq<char>, Seq<char>, Color) {
    match s {
        VoiceState::Idle => ("⏸"@, "Idle - Say 'Hey JARVIS' to activate"@, Color { r: 150, g: 150, b: 150, a: 255 }),
        VoiceState::Listening => ("🎤"@, "Listening..."@, Color { r: 0, g: 200, b: 255, a: 255 }),
        VoiceState::Processing => ("⚡"@, "Processing..."@, Color { r: 255, g: 200, b: 0, a: 255 }),
        VoiceState::Speaking => ("🔊"@, "JARVIS is speaking..."@, Color { r: 100, g: 255, b: 100, a: 255 }),
    }
}

/// The icon, text and colour that show a state.
pub fn state_indicator(s: VoiceState) -> (r: (&'static str, &'static str, Color))
    ensures
        (r.0@, r.1@, r.2) == indicator_of(s),
        s == VoiceState::Idle ==> r.1@ == "Idle - Say 'Hey JARVIS' to activate"@,
        s == VoiceState::Listening ==> r.1@ == "Listening..."@,
        s == VoiceState::Processing ==> r.1@ == "Processing..."@ && r.0@ == "⚡"@,
        s == VoiceState::Speaking ==> r.1@ == "JARVIS is speaking..."@ && r.0@ == "🔊"@,
{
    match s {
        VoiceState::Idle => ("⏸", "Idle - Say 'Hey JARVIS' to activate", Color::from_rgb(150, 150, 150)),
        VoiceState::Listening => ("🎤", "Listening...", Color::from_rgb(0, 200, 255)),
        VoiceState::Processing => ("⚡", "Processing...", Color::from_rgb(255, 200, 0)),
        VoiceState::Speaking => ("🔊", "JARVIS is speaking...", Color::from_rgb(100, 255, 100)),
    }
}


/// Each state is shown by a text that names it, and different states are
/// shown by different texts: Processing by "Processing...", Speaking by
/// "JARVIS is speaking...", Listening by "Listening...", Idle by the prompt
/// to say the wake word.
pub proof fn lemma_indicator_names_state(s: VoiceState, t: VoiceState)
    ensures
        s == VoiceState::Idle ==> indicator_of(s).1 == "Idle - Say 'Hey JARVIS' to activate"@,
        s == VoiceState::Listening ==> indicator_of(s).1 == "Listening..."@,
        s == VoiceState::Processing ==> indicator_of(s).1 == "Processing..."@,
        s == VoiceState::Speaking ==> indicator_of(s).1 == "JARVIS is speaking..."@,
        s != t ==> indicator_of(s).1 != indicator_of(t).1,
{
    reveal_strlit("Idle - Say 'Hey JARVIS' to activate");
    reveal_strlit("Listening...");
    reveal_strlit("Processing...");
    reveal_strlit("JARVIS is speaking...");
    if s != t {
        let a = indicator_of(s).1;
        let b = indicator_of(t).1;
        if a.len() == b.len() {
            assert(a[0] != b[0]);
        }
    }
}

/// The drawing of the state indicator at `(x, y)`: the state's icon, its
/// text 30 pixels to the right, and "● Active" in green 300 pixels to the
/// right while the wake word is active.
pub open spec fn indicator_ops(status: VoiceStatus, x: u32, y: u32) -> Seq<DrawOp> {
    let (icon, text, color) = indicator_of(status.state);
    seq![
        DrawOp::Text { x, y, text: icon, color },
        DrawOp::Text { x: (x + 30) as u32, y, text, color },
    ] + if status.wake_word_active {
        seq![DrawOp::Text { x: (x + 300) as u32, y, text: "● Active"@, color: Color { r: 100, g: 255, b: 100, a: 255 } }]
    } else {
        seq![]
    }
}

/// The drawing commands of the state indicator at `(x, y)`.
pub fn state_indicator_commands(status: &VoiceStatus, x: u32, y: u32) -> (v: Vec<DrawCommand>)
    requires
        x + 300 <= u32::MAX,
    ensures
        ops_of(v@) == indicator_ops(*status, x, y),
{
    let (icon, text, color) = state_indicator(status.state);
    let mut v: Vec<DrawCommand> = Vec::new();
    v.push(DrawCommand::Text { x, y, text: icon.to_string(), color });
    v.push(DrawCommand::Text { x: x + 30, y, text: text.to_string(), color });
    if status.wake_word_active {
        v.push(
            DrawCommand::Text { x: x + 300, y, text: "● Active".to_string(), color: Color::from_rgb(100, 255, 100) },
        );
    }
    assert(ops_of(v@) =~= indicator_ops(*status, x, y));
    v
}

/// The size the voice panel asks for: 600 wide, 300 high, plus 60 with a
/// transcript and 80 with a response.
pub fn preferred_size(has_transcript: bool, has_response: bool) -> (r: (u32, u32))
    ensures
        r == (600u32, (300 + if has_transcript { 60int } else { 0 } + if has_response { 80int } else { 0 }) as u32),
{
    let transcript_height: u32 = if has_transcript { 60 } else { 0 };
    let response_height: u32 = if has_response { 80 } else { 0 };
    (600, 300 + transcript_height + response_height)
}

/// Where the parts of the voice panel go, in a panel at `bounds`.
#[derive(Debug, Clone, Copy, PartialEq, Eq, Structural)]
pub struct VoicePanelLayout {
    /// The left edge of the panel's text: 15 pixels in.
    pub text_x: u32,
    /// The title's line: 15 pixels down.
    pub title_y: u32,
    /// The state indicator's line, 30 below the title.
    pub indicator_y: u32,
    /// The waveform box, 35 below the indicator: 100 high, 15 pixels in from
    /// each side.
    pub waveform: Rect,
    /// The "You:" line, 115 below the waveform's top; the transcript and its
    /// confidence go 20 below it.
    pub transcript_y: u32,
    /// Where the confidence starts: 150 pixels left of the panel's right edge
    /// plus the text margin.
    pub confidence_x: u32,
    /// The "JARVIS:" line: after the transcript's 50 pixels when there is one,
    /// else where the transcript would be; the response's lines go 20 apart
    /// below it, 10 pixels further in.
    pub response_y: u32,
    /// The help line, 30 pixels above the panel's bottom.
    pub help_y: u32,
}

/// Whether the panel's layout stays within `u32`.
pub open spec fn panel_fits(b: Rect, has_transcript: bool) -> bool {
    &&& b.width >= 30
    &&& b.height >= 30
    &&& b.x + 15 + b.width <= u32::MAX
    &&& b.y + 245 <= u32::MAX
    &&& b.y + b.height <= u32::MAX
    &&& has_transcript ==> b.x + 15 + b.width >= 150
}

/// Whether the panel's layout at `bounds` stays within `u32`.
pub fn voice_panel_fits(bounds: Rect, has_transcript: bool) -> (r: bool)
    ensures
        r == panel_fits(bounds, has_transcript),
{
    let right = bounds.x as u64 + 15 + bounds.width as u64;
    bounds.width >= 30 && bounds.height >= 30 && right <= 0xffff_ffff && bounds.y as u64 + 245
        <= 0xffff_ffff && bounds.y as u64 + bounds.height as u64 <= 0xffff_ffff && (!has_transcript
        || right >= 150)
}

/// The layout of the voice panel at `bounds`, with or without a transcript.
pub fn voice_panel_layout(bounds: Rect, has_transcript: bool) -> (l: VoicePanelLayout)
    requires
        panel_fits(bounds, has_transcript),
    ensures
        l.text_x == bounds.x + 15,
        l.title_y == bounds.y + 15,
        l.indicator_y == bounds.y + 45,
        l.waveform == (Rect { x: (bounds.x + 15) as u32, y: (bounds.y + 80) as u32, width: (bounds.width - 30) as u32, height: 100 }),
        l.transcript_y == bounds.y + 195,
        has_transcript ==> l.confidence_x == bounds.x + 15 + bounds.width - 150,
        !has_transcript ==> l.confidence_x == 0,
        l.response_y == bounds.y + 195 + if has_transcript { 50int } else { 0 },
        l.help_y == bounds.y + bounds.height - 30,
{
    let text_x = bounds.x + 15;
    let title_y = bounds.y + 15;
    let indicator_y = title_y + 30;
    let waveform_y = indicator_y + 35;
    let transcript_y = waveform_y + 115;
    let confidence_x = if has_transcript { text_x + bounds.width - 150 } else { 0 };
    let response_y = if has_transcript { transcript_y + 50 } else { transcript_y };
    VoicePanelLayout {
        text_x,
        title_y,
        indicator_y,
        waveform: Rect::new(text_x, waveform_y, bounds.width - 30, 100),
        transcript_y,
        confidence_x,
        response_y,
        help_y: bounds.y + bounds.height - 30,
    }
}

} // verus!
