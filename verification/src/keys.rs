use vstd::prelude::*;
use vstd::string::StrSliceExecFns;

verus! {

/// The keyboard key that stands for each key of the hexadecimal keypad, in the
/// order of the keypad values 0 to F.
pub open spec fn keymap() -> Seq<char> {
    seq!['X', '1', '2', '3', 'Q', 'W', 'E', 'A', 'S', 'D', 'Z', 'C', '4', 'R', 'F', 'V']
}

/// `name` is the name of the keyboard key that stands for keypad key `key`.
pub open spec fn names_key(name: Seq<char>, key: int) -> bool {
    0 <= key < 16 && name == seq![keymap()[key]]
}

/// The keypad key whose keyboard key is called `name`, if any.
pub open spec fn key_of_name(name: Seq<char>) -> Option<u8> {
    if exists|key: int| names_key(name, key) {
        Some((choose|key: int| names_key(name, key)) as u8)
    } else {
        None
    }
}

/// An input event, as far as the machine reads it: a key press with the name of the
/// key's scancode (none where the scancode is unknown), or anything else.
pub enum KeyEvent {
    KeyDown(Option<String>),
    Other,
}

/// `event` is a press of the keyboard key that stands for keypad key `key`.
pub open spec fn is_press_of(event: KeyEvent, key: int) -> bool {
    match event {
        KeyEvent::KeyDown(Some(name)) => names_key(name@, key),
        _ => false,
    }
}

/// The keyboard key that stands for keypad key `key`.
pub fn key_char(key: u8) -> (c: char)
    requires
        key < 16,
    ensures
        c == keymap()[key as int],
{
    match key {
        0 => 'X',
        1 => '1',
        2 => '2',
        3 => '3',
        4 => 'Q',
        5 => 'W',
        6 => 'E',
        7 => 'A',
        8 => 'S',
        9 => 'D',
        10 => 'Z',
        11 => 'C',
        12 => '4',
        13 => 'R',
        14 => 'F',
        _ => 'V',
    }
}

/// No two keypad keys share a keyboard key.
pub proof fn lemma_keymap_distinct(a: int, b: int)
    requires
        0 <= a < 16,
        0 <= b < 16,
        a != b,
    ensures
        keymap()[a] != keymap()[b],
{
}

/// Looks up the keypad key whose keyboard key has the name `name`.
pub fn key_for_name(name: &str) -> (key: Option<u8>)
    ensures
        key == key_of_name(name@),
{
    if name.unicode_len() != 1 {
        assert(forall|k: int| !names_key(name@, k));
        return None;
    }
    let c = name.get_char(0);
    let mut k: u8 = 0;
    while k < 16
        invariant
            k <= 16,
            name@.len() == 1,
            name@[0] == c,
            forall|j: int| 0 <= j < k ==> keymap()[j] != c,
        decreases 16 - k,
    {
        if key_char(k) == c {
            proof {
                assert(name@ =~= seq![keymap()[k as int]]);
                assert(names_key(name@, k as int));
                let other = choose|j: int| names_key(name@, j);
                if other != k as int {
                    lemma_keymap_distinct(other, k as int);
                    assert(name@[0] == keymap()[other]);
                }
            }
            return Some(k);
        }
        k += 1;
    }
    proof {
        assert forall|j: int| !names_key(name@, j) by {
            if names_key(name@, j) {
                assert(name@[0] == keymap()[j]);
            }
        }
    }
    None
}

/// Whether `event` is a press of the keyboard key that stands for keypad key `key`.
pub fn is_key_press(event: &KeyEvent, key: u8) -> (pressed: bool)
    requires
        key < 16,
    ensures
        pressed == is_press_of(*event, key as int),
{
    match event {
        KeyEvent::KeyDown(Some(name)) => {
            let n = name.as_str();
            if n.unicode_len() != 1 {
                return false;
            }
            let c = n.get_char(0);
            let pressed = c == key_char(key);
            proof {
                if pressed {
                    assert(name@ =~= seq![keymap()[key as int]]);
                }
            }
            pressed
        },
        _ => false,
    }
}

} // verus!
