//! The GNSS receiver: its sentences, its power sequence and its fixes.

use vstd::prelude::*;

use crate::payload::Payload;
use crate::state::{BoardState, GnssCommand, GnssPacket, GNSS_PACKET_LEN};

verus! {

/// First character of every sentence, a dollar sign.
pub const SENTENCE_START: u8 = 0x24;

/// Carriage return, which is left out of the sentences.
pub const CARRIAGE_RETURN: u8 = 0x0d;

/// End of every sentence.
pub const LINE_FEED: u8 = 0x0a;

/// What is known of the sentence under way.
#[verifier::ext_equal]
pub enum Line {
    /// No sentence has begun.
    Idle,
    /// The characters so far, from the dollar sign on.
    Open(Seq<u8>),
    /// The sentence was too long; the rest of the line is thrown away.
    Discarding,
}

/// The line after one more character.
pub open spec fn line_after(line: Line, letter: u8) -> Line {
    match line {
        Line::Idle => if letter == SENTENCE_START {
            Line::Open(seq![SENTENCE_START])
        } else {
            Line::Idle
        },
        Line::Open(text) => if letter == SENTENCE_START {
            Line::Open(seq![SENTENCE_START])
        } else if letter == CARRIAGE_RETURN {
            line
        } else if letter == LINE_FEED {
            Line::Idle
        } else if text.len() < GNSS_PACKET_LEN {
            Line::Open(text.push(letter))
        } else {
            Line::Discarding
        },
        Line::Discarding => if letter == LINE_FEED {
            Line::Idle
        } else {
            Line::Discarding
        },
    }
}

/// The sentence that a character ends, if it ends one.
pub open spec fn sentence_ended_by(line: Line, letter: u8) -> Option<Seq<u8>> {
    match line {
        Line::Open(text) => if letter == LINE_FEED {
            Some(text)
        } else {
            None
        },
        _ => None,
    }
}

/// A sentence, filled up with zeros to the length of a packet.
pub open spec fn packet_of(text: Seq<u8>) -> Seq<u8> {
    text + Seq::new((GNSS_PACKET_LEN - text.len()) as nat, |i: int| 0u8)
}

/// Collects the characters of the receiver into sentences.
pub struct SentenceBuffer {
    text: GnssPacket,
    len: usize,
    discarding: bool,
}

impl SentenceBuffer {
    /// What has been collected.
    pub closed spec fn line(self) -> Line {
        if self.discarding {
            Line::Discarding
        } else if self.len == 0 {
            Line::Idle
        } else {
            Line::Open(self.text@.take(self.len as int))
        }
    }

    #[verifier::type_invariant]
    spec fn within_the_packet(self) -> bool {
        self.len <= GNSS_PACKET_LEN
    }

    pub fn new() -> (buffer: Self)
        ensures
            buffer.line() is Idle,
    {
        SentenceBuffer { text: [0; GNSS_PACKET_LEN], len: 0, discarding: false }
    }

    /// Takes the next character and returns the sentence that it ends. A sentence that does not
    /// fit into a packet is dropped as a whole.
    pub fn push(&mut self, letter: u8) -> (packet: Option<GnssPacket>)
        ensures
            final(self).line() == line_after(old(self).line(), letter),
            match sentence_ended_by(old(self).line(), letter) {
                Some(text) => packet matches Some(packet) && packet@ == packet_of(text),
                None => packet is None,
            },
    {
        proof {
            use_type_invariant(&*self);
        }
        if self.discarding {
            if letter == LINE_FEED {
                self.discarding = false;
                self.len = 0;
            }
            return None;
        }
        if letter == SENTENCE_START {
            self.text[0] = letter;
            self.len = 1;
            assert(self.text@.take(1) =~= seq![SENTENCE_START]);
            return None;
        }
        if self.len == 0 || letter == CARRIAGE_RETURN {
            return None;
        }
        if letter == LINE_FEED {
            let packet = self.packet();
            self.len = 0;
            return Some(packet);
        }
        if self.len < GNSS_PACKET_LEN {
            let len: usize = self.len;
            self.text[len] = letter;
            self.len = len + 1;
            assert(self.text@.take(len + 1) =~= old(self).text@.take(len as int).push(letter));
        } else {
            self.discarding = true;
        }
        None
    }

    fn packet(&self) -> (packet: GnssPacket)
        ensures
            packet@ == packet_of(self.text@.take(self.len as int)),
    {
        proof {
            use_type_invariant(self);
        }
        let mut packet: GnssPacket = [0; GNSS_PACKET_LEN];
        let mut index: usize = 0;
        while index < self.len
            invariant
                index <= self.len <= GNSS_PACKET_LEN,
                packet@.len() == GNSS_PACKET_LEN,
                self.text@.len() == GNSS_PACKET_LEN,
                forall|i: int| 0 <= i < index ==> packet@[i] == self.text@[i],
                forall|i: int| index <= i < GNSS_PACKET_LEN ==> packet@[i] == 0,
            decreases self.len - index,
        {
            packet[index] = self.text[index];
            index = index + 1;
        }
        assert(packet@ =~= packet_of(self.text@.take(self.len as int)));
        packet
    }
}

/// The next thing to do in the power sequence of the receiver.
#[derive(Clone, Copy, Debug, PartialEq, Eq, Structural)]
pub enum GnssStep {
    /// Nothing: the receiver is off.
    Off,
    /// Set the UART to the rate that the receiver starts with.
    SlowUart,
    /// Give the receiver time to start.
    Boot,
    /// Send the settings.
    Settings,
    /// Give the receiver time to take them over.
    Settle,
    /// Set the UART to the rate that the settings select.
    FastUart,
    /// Nothing: the receiver is on with all settings.
    On,
    /// Nothing: the receiver has power, but a step failed.
    Failed,
}

/// The power sequence of the receiver.
#[derive(Clone, Copy, Debug, PartialEq, Eq, Structural)]
pub struct GnssPower {
    pub step: GnssStep,
    /// The settings of this sequence were refused.
    pub settings_refused: bool,
    pub setting_errors: u32,
}

impl GnssPower {
    pub open spec fn after_command(self, command: GnssCommand) -> GnssPower {
        GnssPower {
            step: match command {
                GnssCommand::TurnOn => GnssStep::SlowUart,
                GnssCommand::TurnOff => GnssStep::Off,
            },
            settings_refused: false,
            ..self
        }
    }

    /// The step that follows.
    pub open spec fn next_step(self, ok: bool) -> GnssStep {
        match self.step {
            GnssStep::SlowUart => if ok {
                GnssStep::Boot
            } else {
                GnssStep::Failed
            },
            GnssStep::Boot => GnssStep::Settings,
            GnssStep::Settings => GnssStep::Settle,
            GnssStep::Settle => GnssStep::FastUart,
            GnssStep::FastUart => if ok && !self.settings_refused {
                GnssStep::On
            } else {
                GnssStep::Failed
            },
            step => step,
        }
    }

    /// Whether the step can fail. Waiting cannot.
    pub open spec fn can_fail(self) -> bool {
        self.step is SlowUart || self.step is Settings || self.step is FastUart
    }

    pub open spec fn after_step(self, ok: bool) -> GnssPower {
        GnssPower {
            step: self.next_step(ok),
            settings_refused: self.settings_refused || (self.step is Settings && !ok),
            setting_errors: if self.can_fail() && !ok {
                self.setting_errors.wrapping_add(1)
            } else {
                self.setting_errors
            },
        }
    }

    pub fn new() -> (power: Self)
        ensures
            power == (GnssPower {
                step: GnssStep::Off,
                settings_refused: false,
                setting_errors: 0,
            }),
    {
        GnssPower { step: GnssStep::Off, settings_refused: false, setting_errors: 0 }
    }

    /// Whether the supply of the receiver is to be switched on.
    pub fn powered(&self) -> (on: bool)
        ensures
            on == !(self.step is Off),
    {
        !matches!(self.step, GnssStep::Off)
    }

    /// Begins to turn the receiver on or turns it off.
    pub fn command(&mut self, command: GnssCommand)
        ensures
            *final(self) == old(self).after_command(command),
    {
        self.settings_refused = false;
        self.step = match command {
            GnssCommand::TurnOn => GnssStep::SlowUart,
            GnssCommand::TurnOff => GnssStep::Off,
        };
    }

    /// Takes the result of the step. Refused settings do not end the sequence, but the receiver
    /// does not count as on afterwards.
    pub fn step_done(&mut self, ok: bool)
        ensures
            *final(self) == old(self).after_step(ok),
    {
        if !ok && matches!(
            self.step,
            GnssStep::SlowUart | GnssStep::Settings | GnssStep::FastUart
        ) {
            self.setting_errors = self.setting_errors.wrapping_add(1);
        }
        self.step = match self.step {
            GnssStep::SlowUart => if ok {
                GnssStep::Boot
            } else {
                GnssStep::Failed
            },
            GnssStep::Boot => GnssStep::Settings,
            GnssStep::Settings => {
                if !ok {
                    self.settings_refused = true;
                }
                GnssStep::Settle
            },
            GnssStep::Settle => GnssStep::FastUart,
            GnssStep::FastUart => if ok && !self.settings_refused {
                GnssStep::On
            } else {
                GnssStep::Failed
            },
            step => step,
        };
    }
}

impl BoardState {
    /// The board after a fix. An invalid or incomplete fix is not used at all.
    pub open spec fn after_fix(
        self,
        valid: bool,
        latitude: Option<i32>,
        longitude: Option<i32>,
        height: Option<i16>,
    ) -> BoardState {
        match (latitude, longitude, height) {
            (Some(latitude), Some(longitude), Some(height)) => if valid {
                BoardState {
                    payload: Payload {
                        gnss_lat: latitude,
                        gnss_long: longitude,
                        gnss_height: height,
                        ..self.payload
                    },
                    ..self
                }
            } else {
                self
            },
            _ => self,
        }
    }

    /// Takes over a fix, if the receiver calls it valid and it is complete, and says whether it
    /// was used.
    pub fn apply_fix(
        &mut self,
        valid: bool,
        latitude: Option<i32>,
        longitude: Option<i32>,
        height: Option<i16>,
    ) -> (used: bool)
        ensures
            *final(self) == old(self).after_fix(valid, latitude, longitude, height),
            used == (valid && latitude is Some && longitude is Some && height is Some),
    {
        if !valid {
            return false;
        }
        match (latitude, longitude, height) {
            (Some(latitude), Some(longitude), Some(height)) => {
                self.payload.gnss_lat = latitude;
                self.payload.gnss_long = longitude;
                self.payload.gnss_height = height;
                true
            },
            _ => false,
        }
    }
}

/// The line after a stretch of characters.
pub open spec fn line_after_all(line: Line, letters: Seq<u8>) -> Line
    decreases letters.len(),
{
    if letters.len() == 0 {
        line
    } else {
        line_after(line_after_all(line, letters.drop_last()), letters.last())
    }
}

/// No character that has a meaning of its own.
pub open spec fn is_plain(text: Seq<u8>) -> bool {
    forall|i: int|
        0 <= i < text.len() ==> (#[trigger] text[i]) != SENTENCE_START && text[i]
            != CARRIAGE_RETURN && text[i] != LINE_FEED
}

/// No character that begins or ends a sentence.
pub open spec fn is_sentence_text(text: Seq<u8>) -> bool {
    forall|i: int|
        0 <= i < text.len() ==> (#[trigger] text[i]) != SENTENCE_START && text[i] != LINE_FEED
}

/// The text with its carriage returns left out.
pub open spec fn without_returns(text: Seq<u8>) -> Seq<u8>
    decreases text.len(),
{
    if text.len() == 0 {
        Seq::empty()
    } else if text.last() == CARRIAGE_RETURN {
        without_returns(text.drop_last())
    } else {
        without_returns(text.drop_last()).push(text.last())
    }
}

proof fn lemma_text_is_collected(line: Line, text: Seq<u8>)
    requires
        !(line is Discarding),
        is_sentence_text(text),
    ensures
        line_after_all(line, seq![SENTENCE_START] + text) == (if 1 + without_returns(text).len()
            <= GNSS_PACKET_LEN {
            Line::Open(seq![SENTENCE_START] + without_returns(text))
        } else {
            Line::Discarding
        }),
    decreases text.len(),
{
    let letters = seq![SENTENCE_START] + text;
    if text.len() == 0 {
        assert(letters.drop_last() =~= Seq::<u8>::empty());
        assert(line_after_all(line, letters.drop_last()) == line);
        assert(letters =~= seq![SENTENCE_START]);
        assert(seq![SENTENCE_START] + without_returns(text) =~= seq![SENTENCE_START]);
    } else {
        let shorter = text.drop_last();
        lemma_text_is_collected(line, shorter);
        assert(letters.drop_last() =~= seq![SENTENCE_START] + shorter);
        assert(letters.last() == text[text.len() - 1]);
        if text.last() != CARRIAGE_RETURN {
            assert((seq![SENTENCE_START] + without_returns(shorter)).push(text.last())
                =~= seq![SENTENCE_START] + without_returns(text));
        }
    }
}

/// Law: a sentence that fits into a packet once its carriage returns are left out is delivered
/// without them and otherwise as it was sent, whatever came before it on the line; one that does
/// not fit is not delivered, not even in part.
pub proof fn law_sentences_are_whole_or_absent(line: Line, text: Seq<u8>)
    requires
        !(line is Discarding),
        is_sentence_text(text),
    ensures
        sentence_ended_by(line_after_all(line, seq![SENTENCE_START] + text), LINE_FEED) == (if 1
            + without_returns(text).len() <= GNSS_PACKET_LEN {
            Some(seq![SENTENCE_START] + without_returns(text))
        } else {
            None
        }),
        line_after(line_after_all(line, seq![SENTENCE_START] + text), LINE_FEED) is Idle,
{
    lemma_text_is_collected(line, text);
}

/// Law: text without carriage returns is delivered character by character, and the one that ends
/// a line makes no difference.
pub proof fn law_returns_make_no_difference(text: Seq<u8>)
    ensures
        is_plain(text) ==> without_returns(text) == text,
        without_returns(text.push(CARRIAGE_RETURN)) == without_returns(text),
    decreases text.len(),
{
    assert(text.push(CARRIAGE_RETURN).drop_last() =~= text);
    if text.len() > 0 {
        law_returns_make_no_difference(text.drop_last());
        if is_plain(text) {
            assert forall|i: int| 0 <= i < text.drop_last().len() implies (
            #[trigger] text.drop_last()[i]) != SENTENCE_START && text.drop_last()[i]
                != CARRIAGE_RETURN && text.drop_last()[i] != LINE_FEED by {
                assert(text.drop_last()[i] == text[i]);
            }
            assert(text.last() == text[text.len() - 1]);
            assert(text.drop_last().push(text.last()) =~= text);
        }
    } else {
        assert(without_returns(text) =~= text);
    }
}

/// Law: the line feed after a sentence that was too long is where delivery starts again: nothing
/// before it is delivered, and the line after it is read afresh.
pub proof fn law_too_long_lines_are_discarded_to_their_end(rest: Seq<u8>, letter: u8)
    requires
        forall|i: int| 0 <= i < rest.len() ==> (#[trigger] rest[i]) != LINE_FEED,
    ensures
        line_after_all(Line::Discarding, rest) is Discarding,
        sentence_ended_by(line_after_all(Line::Discarding, rest), letter) is None,
        line_after(line_after_all(Line::Discarding, rest), LINE_FEED) is Idle,
    decreases rest.len(),
{
    if rest.len() > 0 {
        law_too_long_lines_are_discarded_to_their_end(rest.drop_last(), letter);
    }
}

/// Law: every delivered sentence begins with the dollar sign, has no line ends in it and fits
/// into a packet.
pub proof fn law_delivered_sentences_are_sound(letters: Seq<u8>)
    ensures
        line_after_all(Line::Idle, letters) matches Line::Open(text) ==> 1 <= text.len()
            <= GNSS_PACKET_LEN && text[0] == SENTENCE_START && is_plain(
            text.subrange(1, text.len() as int),
        ),
    decreases letters.len(),
{
    if letters.len() > 0 {
        law_delivered_sentences_are_sound(letters.drop_last());
        let before = line_after_all(Line::Idle, letters.drop_last());
        if let (Line::Open(old_text), Line::Open(text)) = (
            before,
            line_after_all(Line::Idle, letters),
        ) {
            if text.len() > 1 && text != old_text {
                let tail = text.subrange(1, text.len() as int);
                let old_tail = old_text.subrange(1, old_text.len() as int);
                assert(tail =~= old_tail.push(letters.last()));
            }
        }
    }
}

/// Law: the receiver counts as on exactly when every step that can fail has succeeded.
pub proof fn law_on_means_every_setting_succeeded(
    start: GnssPower,
    slow: bool,
    settings: bool,
    fast: bool,
    boot: bool,
    settle: bool,
)
    ensures
        ({
            let powered = start.after_command(GnssCommand::TurnOn);
            let configured = powered.after_step(slow).after_step(boot).after_step(
                settings,
            ).after_step(settle).after_step(fast);
            &&& configured.step is On <==> slow && settings && fast
            &&& configured.step is On || configured.step is Failed
            &&& configured.setting_errors == start.setting_errors <==> configured.step is On
        }),
{
}

/// Law: a fix changes the position and nothing else, and an invalid or incomplete one changes
/// nothing.
pub proof fn law_fixes_change_the_position_only(
    board: BoardState,
    valid: bool,
    latitude: Option<i32>,
    longitude: Option<i32>,
    height: Option<i16>,
)
    ensures
        ({
            let after = board.after_fix(valid, latitude, longitude, height);
            &&& after == (BoardState {
                payload: Payload {
                    gnss_lat: after.payload.gnss_lat,
                    gnss_long: after.payload.gnss_long,
                    gnss_height: after.payload.gnss_height,
                    ..board.payload
                },
                ..board
            })
            &&& !valid || latitude is None || longitude is None || height is None ==> after == board
        }),
{
}

/// Law: a valid and complete fix is what the record shows afterwards, whatever it showed before;
/// taking it twice is taking it once, and of two the later counts.
pub proof fn law_fixes_are_taken_over(
    board: BoardState,
    latitude: i32,
    longitude: i32,
    height: i16,
    earlier_latitude: Option<i32>,
    earlier_longitude: Option<i32>,
    earlier_height: Option<i16>,
    earlier_valid: bool,
)
    ensures
        ({
            let before = board.after_fix(
                earlier_valid,
                earlier_latitude,
                earlier_longitude,
                earlier_height,
            );
            let after = before.after_fix(true, Some(latitude), Some(longitude), Some(height));
            &&& after.payload.gnss_lat == latitude
            &&& after.payload.gnss_long == longitude
            &&& after.payload.gnss_height == height
            &&& after == board.after_fix(true, Some(latitude), Some(longitude), Some(height))
        }),
{
}

/// Law: a packet has its fixed length, begins with the sentence and is zero after it.
pub proof fn law_packets_hold_the_sentence(text: Seq<u8>, at: int)
    requires
        text.len() <= 90,
        0 <= at < 90,
    ensures
        packet_of(text).len() == 90,
        packet_of(text)[at] == (if at < text.len() {
            text[at]
        } else {
            0u8
        }),
{
}

/// Law: the steps of the power sequence, in their order: the slow UART, the start of the receiver,
/// its settings, their settling, the fast UART. A UART that cannot be set ends it; refused
/// settings do not, but the receiver then does not come on. Switching off is immediate.
pub proof fn law_power_sequence(power: GnssPower, ok: bool)
    ensures
        power.after_command(GnssCommand::TurnOn).step is SlowUart,
        power.after_command(GnssCommand::TurnOff).step is Off,
        !power.after_command(GnssCommand::TurnOn).settings_refused,
        power.after_command(GnssCommand::TurnOn).setting_errors == power.setting_errors,
        power.after_command(GnssCommand::TurnOff).setting_errors == power.setting_errors,
        power.step is SlowUart && ok ==> power.after_step(ok).step is Boot,
        power.step is SlowUart && !ok ==> power.after_step(ok).step is Failed,
        power.step is Boot ==> power.after_step(ok).step is Settings,
        power.step is Settings ==> power.after_step(ok).step is Settle,
        power.step is Settings ==> power.after_step(ok).settings_refused == (!ok
            || power.settings_refused),
        !(power.step is Settings) ==> power.after_step(ok).settings_refused
            == power.settings_refused,
        power.step is Settle ==> power.after_step(ok).step is FastUart,
        power.step is FastUart && ok && !power.settings_refused ==> power.after_step(ok).step is On,
        power.step is FastUart && (!ok || power.settings_refused) ==> power.after_step(ok).step
            is Failed,
        power.step is Off || power.step is On || power.step is Failed ==> power.after_step(ok)
            == power,
        power.after_step(ok).setting_errors == (if !ok && (power.step is SlowUart || power.step
            is Settings || power.step is FastUart) {
            (power.setting_errors + 1) % 0x1_0000_0000
        } else {
            power.setting_errors as int
        }),
{
}

/// Law: how single characters are read: a dollar sign begins a sentence, a carriage return is
/// passed over, a line feed ends the line, and any other character is added while there is room.
pub proof fn law_characters(text: Seq<u8>, letter: u8)
    requires
        1 <= text.len() <= 90,
    ensures
        line_after(Line::Idle, 0x24) == Line::Open(seq![0x24u8]),
        letter != 0x24 ==> line_after(Line::Idle, letter) is Idle,
        line_after(Line::Open(text), 0x24) == Line::Open(seq![0x24u8]),
        line_after(Line::Open(text), 0x0d) == Line::Open(text),
        line_after(Line::Open(text), 0x0a) is Idle,
        letter != 0x24 && letter != 0x0d && letter != 0x0a ==> line_after(Line::Open(text), letter)
            == (if text.len() < 90 {
            Line::Open(text.push(letter))
        } else {
            Line::Discarding
        }),
        line_after(Line::Discarding, 0x0a) is Idle,
        letter != 0x0a ==> line_after(Line::Discarding, letter) is Discarding,
        sentence_ended_by(Line::Open(text), 0x0a) == Some(text),
        letter != 0x0a ==> sentence_ended_by(Line::Open(text), letter) is None,
        sentence_ended_by(Line::Idle, letter) is None,
        sentence_ended_by(Line::Discarding, letter) is None,
{
}

} // verus!
