//! The sixteen keys of the machine on a host keyboard.
//!
//! A host key is named by the code point of the character it types
//! unshifted, which is also the key code that SDL reports for it.
//!
//! ```text
//! host keys    machine keys
//! 1 2 3 4      1 2 3 C
//! Q W E R      4 5 6 D
//! A S D F      7 8 9 E
//! Z X C V      A 0 B F
//! ```

use std::collections::HashMap;
use vstd::prelude::*;
use vstd::std_specs::hash::group_hash_axioms;
use crate::machine::NUM_KEYS;

verus! {

/// Which machine key each host key stands for.
pub open spec fn keypad_layout() -> Map<i32, u8> {
    map![
        0x31i32 => 0x1u8,
        0x32i32 => 0x2u8,
        0x33i32 => 0x3u8,
        0x34i32 => 0xCu8,
        0x71i32 => 0x4u8,
        0x77i32 => 0x5u8,
        0x65i32 => 0x6u8,
        0x72i32 => 0xDu8,
        0x61i32 => 0x7u8,
        0x73i32 => 0x8u8,
        0x64i32 => 0x9u8,
        0x66i32 => 0xEu8,
        0x7Ai32 => 0xAu8,
        0x78i32 => 0x0u8,
        0x63i32 => 0xBu8,
        0x76i32 => 0xFu8,
    ]
}

/// Whether the host key `code` stands for the machine key `key`.
pub open spec fn stands_for(code: i32, key: int) -> bool {
    keypad_layout().contains_key(code) && keypad_layout()[code] == key
}

/// The layout as a table to look host keys up in.
fn initialize_keypad() -> (keypad: HashMap<i32, u8>)
    ensures
        keypad@ == keypad_layout(),
{
    broadcast use group_hash_axioms;

    let mut keypad = HashMap::new();

    keypad.insert(0x31, 0x1);
    keypad.insert(0x32, 0x2);
    keypad.insert(0x33, 0x3);
    keypad.insert(0x34, 0xC);
    keypad.insert(0x71, 0x4);
    keypad.insert(0x77, 0x5);
    keypad.insert(0x65, 0x6);
    keypad.insert(0x72, 0xD);
    keypad.insert(0x61, 0x7);
    keypad.insert(0x73, 0x8);
    keypad.insert(0x64, 0x9);
    keypad.insert(0x66, 0xE);
    keypad.insert(0x7A, 0xA);
    keypad.insert(0x78, 0x0);
    keypad.insert(0x63, 0xB);
    keypad.insert(0x76, 0xF);

    keypad
}

/// Every host key of the layout stands for a key that the machine has.
pub proof fn layout_stays_on_keypad(code: i32)
    requires
        keypad_layout().contains_key(code),
    ensures
        keypad_layout()[code] < NUM_KEYS,
{
}

/// The state of the machine's keys while the host keys `pressed_keys` are
/// down: a machine key is down exactly if a host key that stands for it is
/// among them. Host keys outside the layout count for nothing.
pub fn process_key_presses(pressed_keys: Vec<i32>) -> (keys: [bool; NUM_KEYS])
    ensures
        forall|key: int|
            0 <= key < NUM_KEYS ==> (#[trigger] keys@[key] <==> exists|at: int|
                0 <= at < pressed_keys@.len() && stands_for(#[trigger] pressed_keys@[at], key)),
{
    broadcast use group_hash_axioms;

    let keypad = initialize_keypad();

    let mut keys: [bool; NUM_KEYS] = [false; NUM_KEYS];

    for idx in 0..pressed_keys.len()
        invariant
            keypad@ == keypad_layout(),
            forall|key: int|
                0 <= key < NUM_KEYS ==> (#[trigger] keys@[key] <==> exists|at: int|
                    0 <= at < idx && stands_for(#[trigger] pressed_keys@[at], key)),
    {
        let pressed_key = pressed_keys[idx];
        let ghost before = keys;
        if let Some(index) = keypad.get(&pressed_key) {
            proof {
                layout_stays_on_keypad(pressed_key);
            }
            keys[*index as usize] = true;
        }
        proof {
            assert forall|key: int| 0 <= key < NUM_KEYS implies (#[trigger] keys@[key] <==> exists|
                at: int,
            |
                0 <= at < idx + 1 && stands_for(#[trigger] pressed_keys@[at], key)) by {
                if keys@[key] {
                    if before@[key] {
                        let at = choose|at: int|
                            0 <= at < idx && stands_for(#[trigger] pressed_keys@[at], key);
                        assert(stands_for(pressed_keys@[at], key));
                    } else {
                        assert(stands_for(pressed_keys@[idx as int], key));
                    }
                } else {
                    assert forall|at: int| 0 <= at < idx + 1 implies !stands_for(
                        #[trigger] pressed_keys@[at],
                        key,
                    ) by {
                        if at < idx {
                            assert(!before@[key]);
                        }
                    }
                }
            }
        }
    }

    keys
}

} // verus!
