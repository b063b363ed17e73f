//! Keyboard input: the key layout and the handling of a batch of input
//! events.

use vstd::prelude::*;
use crate::keypad::Keypad;

verus! {

/// The symbol of the Escape key.
pub const ESCAPE: i32 = 27;

/// An input event, with keys named by their symbol: the code point of the
/// character on the unshifted key.
#[derive(Clone, Copy, Debug, PartialEq, Eq, Structural)]
pub enum InputEvent {
    /// The user asked to close the program.
    Quit,
    /// A key went down.
    KeyDown(i32),
    /// A key came up.
    KeyUp(i32),
    /// Anything else.
    Other,
}

/// The key code that a key symbol stands for, under the layout
///
/// ```text
/// 1 2 3 4        1 2 3 C
/// q w e r   for  4 5 6 D
/// a s d f        7 8 9 E
/// z x c v        A 0 B F
/// ```
pub open spec fn spec_key_code(symbol: i32) -> Option<u8> {
    if symbol == 0x31 {
        Some(0x1u8)
    } else if symbol == 0x32 {
        Some(0x2u8)
    } else if symbol == 0x33 {
        Some(0x3u8)
    } else if symbol == 0x34 {
        Some(0xCu8)
    } else if symbol == 0x71 {
        Some(0x4u8)
    } else if symbol == 0x77 {
        Some(0x5u8)
    } else if symbol == 0x65 {
        Some(0x6u8)
    } else if symbol == 0x72 {
        Some(0xDu8)
    } else if symbol == 0x61 {
        Some(0x7u8)
    } else if symbol == 0x73 {
        Some(0x8u8)
    } else if symbol == 0x64 {
        Some(0x9u8)
    } else if symbol == 0x66 {
        Some(0xEu8)
    } else if symbol == 0x7A {
        Some(0xAu8)
    } else if symbol == 0x78 {
        Some(0x0u8)
    } else if symbol == 0x63 {
        Some(0xBu8)
    } else if symbol == 0x76 {
        Some(0xFu8)
    } else {
        None
    }
}

/// Whether an event ends the program: a quit request, or Escape going down.
pub open spec fn is_quit(event: InputEvent) -> bool {
    event == InputEvent::Quit || event == InputEvent::KeyDown(27)
}

/// The keys after one event that does not end the program: a mapped key
/// going down is held, a mapped key coming up is not, all else stays.
pub open spec fn keys_after(keys: Seq<bool>, event: InputEvent) -> Seq<bool> {
    match event {
        InputEvent::KeyDown(symbol) => match spec_key_code(symbol) {
            Some(code) => keys.update(code as int, true),
            None => keys,
        },
        InputEvent::KeyUp(symbol) => match spec_key_code(symbol) {
            Some(code) => keys.update(code as int, false),
            None => keys,
        },
        _ => keys,
    }
}

/// How many events of a batch are handled: those before the first one that
/// ends the program.
pub open spec fn handled(events: Seq<InputEvent>) -> nat
    decreases events.len(),
{
    if events.len() == 0 || is_quit(events[0]) {
        0
    } else {
        1 + handled(events.drop_first())
    }
}

/// The keys after the events of a batch are applied one after another.
pub open spec fn keys_after_all(keys: Seq<bool>, events: Seq<InputEvent>) -> Seq<bool>
    decreases events.len(),
{
    if events.len() == 0 {
        keys
    } else {
        keys_after(keys_after_all(keys, events.drop_last()), events.last())
    }
}

/// `handled` counts exactly the events before the first one that ends the
/// program: none of them ends it, and the next one, if there is one, does.
pub proof fn lemma_handled(events: Seq<InputEvent>)
    ensures
        handled(events) <= events.len(),
        forall|i: int| 0 <= i < handled(events) ==> !is_quit(#[trigger] events[i]),
        handled(events) < events.len() ==> is_quit(events[handled(events) as int]),
    decreases events.len(),
{
    if events.len() > 0 && !is_quit(events[0]) {
        let rest = events.drop_first();
        lemma_handled(rest);
        assert forall|i: int| 0 <= i < handled(events) implies !is_quit(#[trigger] events[i]) by {
            if i > 0 {
                assert(events[i] == rest[i - 1]);
            }
        }
        if handled(events) < events.len() {
            assert(events[handled(events) as int] == rest[handled(rest) as int]);
        }
    }
}

/// If the first `n` events do not end the program, at least `n` events are
/// handled; if the next one does, exactly `n` are.
proof fn lemma_handled_prefix(events: Seq<InputEvent>, n: int)
    requires
        0 <= n <= events.len(),
        forall|i: int| 0 <= i < n ==> !is_quit(#[trigger] events[i]),
    ensures
        handled(events) >= n,
        n < events.len() && is_quit(events[n]) ==> handled(events) == n,
        n == events.len() ==> handled(events) == n,
{
    lemma_handled(events);
    if handled(events) < n {
        assert(is_quit(events[handled(events) as int]));
    }
    if n < events.len() && is_quit(events[n]) && handled(events) > n {
        assert(!is_quit(events[n]));
    }
}

/// Looks a key symbol up in the layout.
pub fn key_code(symbol: i32) -> (code: Option<u8>)
    ensures
        code == spec_key_code(symbol),
        code matches Some(c) ==> c < 16,
{
    match symbol {
        0x31 => Some(0x1),
        0x32 => Some(0x2),
        0x33 => Some(0x3),
        0x34 => Some(0xC),
        0x71 => Some(0x4),
        0x77 => Some(0x5),
        0x65 => Some(0x6),
        0x72 => Some(0xD),
        0x61 => Some(0x7),
        0x73 => Some(0x8),
        0x64 => Some(0x9),
        0x66 => Some(0xE),
        0x7A => Some(0xA),
        0x78 => Some(0x0),
        0x63 => Some(0xB),
        0x76 => Some(0xF),
        _ => None,
    }
}

/// Every key code is reached from exactly one symbol of the layout.
pub proof fn lemma_layout_is_one_to_one(code: u8)
    requires
        code < 16,
    ensures
        exists|symbol: i32| spec_key_code(symbol) == Some(code),
        forall|s: i32, t: i32|
            spec_key_code(s) == Some(code) && spec_key_code(t) == Some(code) ==> s == t,
{
    let symbols = seq![
        0x78i32,
        0x31,
        0x32,
        0x33,
        0x71,
        0x77,
        0x65,
        0x61,
        0x73,
        0x64,
        0x7A,
        0x63,
        0x34,
        0x72,
        0x66,
        0x76,
    ];
    assert(spec_key_code(symbols[code as int]) == Some(code));
}

/// Feeds a batch of input events into the keypad, in order, up to the
/// first one that ends the program. Returns whether there was one.
pub fn update(keypad: &mut Keypad, events: &[InputEvent]) -> (quit: bool)
    ensures
        quit == (handled(events@) < events@.len()),
        final(keypad).keys@ == keys_after_all(
            old(keypad).keys@,
            events@.take(handled(events@) as int),
        ),
{
    let mut n: usize = 0;
    assert(events@.take(0) =~= Seq::<InputEvent>::empty());
    while n < events.len()
        invariant
            n <= events@.len(),
            forall|i: int| 0 <= i < n ==> !is_quit(#[trigger] events@[i]),
            keypad.keys@ == keys_after_all(old(keypad).keys@, events@.take(n as int)),
        decreases events@.len() - n,
    {
        let event = events[n];
        proof {
            lemma_handled_prefix(events@, n as int);
            assert(events@.take(n + 1).drop_last() =~= events@.take(n as int));
        }
        match event {
            InputEvent::Quit => {
                return true;
            },
            InputEvent::KeyDown(symbol) => {
                if symbol == ESCAPE {
                    return true;
                }
                match key_code(symbol) {
                    Some(code) => keypad.key_press(code),
                    None => {},
                }
            },
            InputEvent::KeyUp(symbol) => {
                match key_code(symbol) {
                    Some(code) => keypad.key_release(code),
                    None => {},
                }
            },
            InputEvent::Other => {},
        }
        n += 1;
    }
    proof {
        lemma_handled_prefix(events@, n as int);
    }
    false
}

} // verus!
