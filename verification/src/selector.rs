//! The selection state machine: a display index into the registry and a
//! text input buffer, both driven by symbolic key events.
//!
//! Arrow keys step the display index through the registry, wrapping at
//! both ends. Printable characters accumulate in the buffer. Confirm
//! parses the buffer as a decimal device address and, when a registered
//! device carries that address, jumps the display index to its position;
//! whatever the buffer held, confirm always clears it. Erase drops the
//! buffer's last character.

use vstd::prelude::*;
use vstd::utf8::encode_utf8;
use vstd::string::StringSliceAdditionalSpecFns;

use crate::registry::DeviceRegistry;

verus! {

/// An ASCII decimal digit.
pub open spec fn is_digit_byte(b: u8) -> bool {
    0x30 <= b <= 0x39
}

/// Every byte is an ASCII decimal digit.
pub open spec fn all_digit_bytes(bs: Seq<u8>) -> bool {
    forall|i: int| 0 <= i < bs.len() ==> is_digit_byte(#[trigger] bs[i])
}

/// The base-10 value of a digit string, folded left to right.
pub open spec fn digits_value(bs: Seq<u8>) -> int
    decreases bs.len(),
{
    if bs.len() == 0 {
        0
    } else {
        digits_value(bs.drop_last()) * 10 + (bs.last() - 0x30)
    }
}

/// The device address a buffer names: defined exactly when the buffer is
/// non-empty, every byte an ASCII digit, and the value at most 255.
/// Anything else is silently no address at all.
pub open spec fn parsed_address(bs: Seq<u8>) -> Option<u8> {
    if bs.len() > 0 && all_digit_bytes(bs) && digits_value(bs) <= 255 {
        Some(digits_value(bs) as u8)
    } else {
        None
    }
}

/// A prefix whose value already exceeds the address range keeps the whole
/// string out of range, digits or not: every further byte multiplies the
/// value by ten before subtracting at most 48.
proof fn lemma_digits_value_overflow(bs: Seq<u8>, i: int)
    requires
        0 <= i <= bs.len(),
        digits_value(bs.take(i)) > 255,
    ensures
        digits_value(bs) > 255,
    decreases bs.len() - i,
{
    if i == bs.len() {
        assert(bs.take(i) =~= bs);
    } else {
        assert(bs.take(i + 1).drop_last() =~= bs.take(i));
        assert(bs.take(i + 1).last() == bs[i]);
        assert(digits_value(bs.take(i + 1)) > 255);
        lemma_digits_value_overflow(bs, i + 1);
    }
}

/// Parses a byte string as a decimal device address.
pub fn parse_address_bytes(bs: &[u8]) -> (r: Option<u8>)
    ensures
        r == parsed_address(bs@),
{
    if bs.len() == 0 {
        return None;
    }
    let mut acc: u32 = 0;
    let mut i: usize = 0;
    while i < bs.len()
        invariant
            i <= bs@.len(),
            bs@.len() > 0,
            acc == digits_value(bs@.take(i as int)),
            acc <= 255,
            all_digit_bytes(bs@.take(i as int)),
        decreases bs@.len() - i,
    {
        let b = bs[i];
        if b < 0x30 || b > 0x39 {
            assert(!all_digit_bytes(bs@)) by {
                assert(bs@[i as int] == b && !is_digit_byte(b));
            };
            return None;
        }
        proof {
            assert(bs@.take(i + 1).drop_last() =~= bs@.take(i as int));
            assert(bs@.take(i + 1).last() == bs@[i as int]);
        }
        let next = acc * 10 + ((b - 0x30) as u32);
        if next > 255 {
            proof {
                lemma_digits_value_overflow(bs@, i + 1);
            }
            return None;
        }
        acc = next;
        assert(all_digit_bytes(bs@.take(i + 1))) by {
            assert(forall|k: int|
                0 <= k < i ==> #[trigger] bs@.take(i + 1)[k] == bs@.take(i as int)[k]);
            assert(bs@.take(i + 1)[i as int] == b);
        };
        i = i + 1;
    }
    proof {
        assert(bs@.take(i as int) =~= bs@);
    }
    Some(acc as u8)
}

/// Parses an input buffer as a decimal device address: accepted exactly
/// when every character is an ASCII digit and the whole buffer reads as an
/// integer no larger than 255.
pub fn extract_number(s: &str) -> (r: Option<u8>)
    ensures
        r == parsed_address(s.spec_bytes()),
{
    parse_address_bytes(s.as_bytes())
}

/// A symbolic key event, as the selection state machine consumes it.
#[derive(Debug, Clone, Copy, PartialEq, Eq, Structural)]
pub enum KeyEvent {
    /// Step the display index forward.
    Next,
    /// Step the display index backward.
    Previous,
    /// Try to jump to the device the input buffer names; clear the buffer.
    Confirm,
    /// Drop the last character of the input buffer.
    Erase,
    /// Append a character to the input buffer.
    Symbol(char),
}

/// The event a key payload's first character stands for: the up arrow
/// steps forward, the down arrow backward, newline confirms, the erase
/// symbol drops a character, and everything else is appended as it is.
pub open spec fn key_event_spec(c: char) -> KeyEvent {
    if c == '\u{2191}' {
        KeyEvent::Next
    } else if c == '\u{2193}' {
        KeyEvent::Previous
    } else if c == '\n' {
        KeyEvent::Confirm
    } else if c == '\u{232B}' {
        KeyEvent::Erase
    } else {
        KeyEvent::Symbol(c)
    }
}

/// Classifies the first character of a key payload.
pub fn key_event_of(c: char) -> (r: KeyEvent)
    ensures
        r == key_event_spec(c),
{
    if c == '\u{2191}' {
        KeyEvent::Next
    } else if c == '\u{2193}' {
        KeyEvent::Previous
    } else if c == '\n' {
        KeyEvent::Confirm
    } else if c == '\u{232B}' {
        KeyEvent::Erase
    } else {
        KeyEvent::Symbol(c)
    }
}

/// The position one step forward, wrapping past the last position.
pub open spec fn next_index(i: int, n: int) -> int {
    if i + 1 < n {
        i + 1
    } else {
        0
    }
}

/// The position one step backward, wrapping below the first position.
pub open spec fn prev_index(i: int, n: int) -> int {
    if i > 0 {
        i - 1
    } else {
        n - 1
    }
}

/// Law: wraparound navigation is stepping by one modulo the registry
/// size, and the two directions invert each other from every position.
pub proof fn lemma_wraparound(i: int, n: int)
    requires
        0 <= i < n,
    ensures
        next_index(i, n) == (i + 1) % n,
        prev_index(i, n) == (i + n - 1) % n,
        next_index(prev_index(i, n), n) == i,
        prev_index(next_index(i, n), n) == i,
{
    if i + 1 < n {
        vstd::arithmetic::div_mod::lemma_small_mod((i + 1) as nat, n as nat);
    } else {
        vstd::arithmetic::div_mod::lemma_mod_self_0(n);
    }
    if i > 0 {
        vstd::arithmetic::div_mod::lemma_mod_multiples_vanish(1, i - 1, n);
        vstd::arithmetic::div_mod::lemma_small_mod((i - 1) as nat, n as nat);
    } else {
        vstd::arithmetic::div_mod::lemma_small_mod((n - 1) as nat, n as nat);
    }
}

/// The selection state: the registry position currently shown, and the
/// characters typed since the last confirm.
pub struct Selector {
    /// Position into the registry currently selected for publication.
    pub display_index: usize,
    /// Characters accumulated between confirmations.
    pub input_buffer: String,
}

/// Relies on String::push: appends exactly the given character.
#[verifier::external_body]
fn buffer_push(s: &mut String, c: char)
    ensures
        final(s)@ == old(s)@.push(c),
{
    s.push(c);
}

/// Relies on String::pop: removes the last character, and does nothing to
/// an empty string.
#[verifier::external_body]
fn buffer_pop(s: &mut String)
    ensures
        old(s)@.len() == 0 ==> final(s)@ == old(s)@,
        old(s)@.len() > 0 ==> final(s)@ == old(s)@.drop_last(),
{
    s.pop();
}

impl Selector {
    /// The state at startup: the first registry position, an empty buffer.
    pub fn new() -> (r: Selector)
        ensures
            r.display_index == 0,
            r.input_buffer@ == Seq::<char>::empty(),
    {
        Selector { display_index: 0, input_buffer: String::new() }
    }

    /// Consumes one key event against the given registry.
    pub fn handle_key(&mut self, event: KeyEvent, registry: &DeviceRegistry)
        requires
            registry.wf(),
            old(self).display_index < registry@.len(),
        ensures
            final(self).display_index < registry@.len(),
            match event {
                KeyEvent::Next => final(self).display_index == next_index(
                    old(self).display_index as int,
                    registry@.len() as int,
                ) && final(self).input_buffer@ == old(self).input_buffer@,
                KeyEvent::Previous => final(self).display_index == prev_index(
                    old(self).display_index as int,
                    registry@.len() as int,
                ) && final(self).input_buffer@ == old(self).input_buffer@,
                KeyEvent::Erase => final(self).display_index == old(self).display_index
                    && final(self).input_buffer@ == (if old(self).input_buffer@.len() > 0 {
                    old(self).input_buffer@.drop_last()
                } else {
                    old(self).input_buffer@
                }),
                KeyEvent::Symbol(c) => final(self).display_index == old(self).display_index
                    && final(self).input_buffer@ == old(self).input_buffer@.push(c),
                KeyEvent::Confirm => final(self).input_buffer@ == Seq::<char>::empty() && (match
                parsed_address(encode_utf8(old(self).input_buffer@)) {
                    Some(a) => if registry@.contains(a) {
                        registry@[final(self).display_index as int] == a
                    } else {
                        final(self).display_index == old(self).display_index
                    },
                    None => final(self).display_index == old(self).display_index,
                }),
            },
    {
        match event {
            KeyEvent::Next => {
                let n = registry.len();
                if self.display_index < n - 1 {
                    self.display_index = self.display_index + 1;
                } else {
                    self.display_index = 0;
                }
            },
            KeyEvent::Previous => {
                let n = registry.len();
                if self.display_index > 0 {
                    self.display_index = self.display_index - 1;
                } else {
                    self.display_index = n - 1;
                }
            },
            KeyEvent::Confirm => {
                match extract_number(self.input_buffer.as_str()) {
                    Some(address) => {
                        match registry.position_of(address) {
                            Some(p) => {
                                proof {
                                    assert(registry@.contains(address));
                                }
                                self.display_index = p;
                            },
                            None => {
                                proof {
                                    assert(!registry@.contains(address));
                                }
                            },
                        }
                    },
                    None => {},
                }
                self.input_buffer = String::new();
            },
            KeyEvent::Erase => {
                buffer_pop(&mut self.input_buffer);
            },
            KeyEvent::Symbol(c) => {
                buffer_push(&mut self.input_buffer, c);
            },
        }
    }
}

} // verus!
