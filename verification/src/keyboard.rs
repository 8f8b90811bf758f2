//! Decoding of keyboard scancodes, done by the `pc_keyboard` crate.

use vstd::prelude::*;

verus! {

#[verifier::external_type_specification]
#[verifier::external_body]
pub struct ExKeyEvent(pc_keyboard::KeyEvent);

#[verifier::external_type_specification]
#[verifier::external_body]
pub struct ExKeyboardError(pc_keyboard::Error);

/// A key as the decoder reports it.
#[derive(Debug, PartialEq, Eq)]
pub enum DecodedKey {
    /// A key that stands for a character.
    Unicode(char),
    /// Another key, by the name of its key code.
    RawKey(String),
}

/// The state of the scancode decoder: a US keyboard with 104 keys that sends
/// scancode set 1. The decoder is `pc_keyboard::Keyboard`, whose contents
/// stay hidden from the verifier.
#[verifier::external_body]
pub struct ScancodeDecoder {
    decoder: pc_keyboard::Keyboard<pc_keyboard::layouts::Us104Key, pc_keyboard::ScancodeSet1>,
}

/// `pc_keyboard::Keyboard::new`, for the US layout and scancode set 1, with
/// control combinations passed through as they are.
#[verifier::external_body]
fn new_decoder() -> ScancodeDecoder {
    ScancodeDecoder {
        decoder: pc_keyboard::Keyboard::new(
            pc_keyboard::layouts::Us104Key,
            pc_keyboard::ScancodeSet1,
            pc_keyboard::HandleControl::Ignore,
        ),
    }
}

/// What `pc_keyboard::Keyboard::add_byte` answers when `byte` is fed to the
/// decoder `before`.
pub uninterp spec fn fed_event(before: ScancodeDecoder, byte: u8) -> Result<
    Option<pc_keyboard::KeyEvent>,
    pc_keyboard::Error,
>;

/// The decoder that `pc_keyboard::Keyboard::add_byte` leaves when `byte` is
/// fed to the decoder `before`.
pub uninterp spec fn fed_state(before: ScancodeDecoder, byte: u8) -> ScancodeDecoder;

/// The key that `pc_keyboard::Keyboard::process_keyevent` makes of `event`
/// on the decoder `before`, a raw key by the name of its key code.
pub uninterp spec fn processed_key(before: ScancodeDecoder, event: pc_keyboard::KeyEvent) -> Option<
    DecodedKey,
>;

/// The decoder that `pc_keyboard::Keyboard::process_keyevent` leaves when
/// `event` is processed on the decoder `before`.
pub uninterp spec fn processed_state(
    before: ScancodeDecoder,
    event: pc_keyboard::KeyEvent,
) -> ScancodeDecoder;

/// `pc_keyboard::Keyboard::add_byte`: feeds one scancode byte to the decoder.
/// Its answer and the decoder it leaves depend on the decoder and the byte
/// alone; no more is claimed of them.
#[verifier::external_body]
fn add_byte(keyboard: &mut ScancodeDecoder, byte: u8) -> (r: Result<
    Option<pc_keyboard::KeyEvent>,
    pc_keyboard::Error,
>)
    ensures
        r == fed_event(*old(keyboard), byte),
        *final(keyboard) == fed_state(*old(keyboard), byte),
{
    keyboard.decoder.add_byte(byte)
}

/// `pc_keyboard::Keyboard::process_keyevent`: turns a key event into a key,
/// with regard to the modifier keys held. A raw key is reported by the name
/// of its key code. The key and the decoder it leaves depend on the decoder
/// and the event alone; no more is claimed of them.
#[verifier::external_body]
fn process_keyevent(keyboard: &mut ScancodeDecoder, event: pc_keyboard::KeyEvent) -> (r: Option<
    DecodedKey,
>)
    ensures
        r == processed_key(*old(keyboard), event),
        *final(keyboard) == processed_state(*old(keyboard), event),
{
    match keyboard.decoder.process_keyevent(event) {
        Some(pc_keyboard::DecodedKey::Unicode(character)) => Some(DecodedKey::Unicode(character)),
        Some(pc_keyboard::DecodedKey::RawKey(key)) => Some(DecodedKey::RawKey(format!("{:?}", key))),
        None => None,
    }
}

/// The key event to go on with once a byte was fed to the decoder: the event
/// that the byte completed, if it completed one. A byte in the middle of a
/// code gives none, and neither does a byte that the decoder refuses.
pub fn completed_event(fed: Result<Option<pc_keyboard::KeyEvent>, pc_keyboard::Error>) -> (event:
    Option<pc_keyboard::KeyEvent>)
    ensures
        event == match fed {
            Ok(Some(key_event)) => Some(key_event),
            _ => None,
        },
{
    match fed {
        Ok(Some(key_event)) => Some(key_event),
        _ => None,
    }
}

/// The key that the decoder `before` reports when `scancode` is fed to it:
/// the byte is fed, and if it completes a key event, that event is
/// processed on the decoder that the feeding left.
pub open spec fn decoded(before: ScancodeDecoder, scancode: u8) -> Option<DecodedKey> {
    match fed_event(before, scancode) {
        Ok(Some(key_event)) => processed_key(fed_state(before, scancode), key_event),
        _ => None,
    }
}

/// The decoder that is left when `scancode` is fed to the decoder `before`.
pub open spec fn decoded_state(before: ScancodeDecoder, scancode: u8) -> ScancodeDecoder {
    match fed_event(before, scancode) {
        Ok(Some(key_event)) => processed_state(fed_state(before, scancode), key_event),
        _ => fed_state(before, scancode),
    }
}

impl ScancodeDecoder {
    /// A decoder in its initial state.
    pub fn new() -> ScancodeDecoder {
        new_decoder()
    }

    /// Feeds one scancode byte to the decoder. The result is the key that
    /// the byte completes, if it completes one that the layout reports.
    pub fn decode(&mut self, scancode: u8) -> (r: Option<DecodedKey>)
        ensures
            r == decoded(*old(self), scancode),
            *final(self) == decoded_state(*old(self), scancode),
    {
        match completed_event(add_byte(self, scancode)) {
            Some(key_event) => process_keyevent(self, key_event),
            None => None,
        }
    }
}

} // verus!
