use vstd::prelude::*;

verus! {

/// The meaning of a raw key name.
#[derive(Clone, Copy, Debug, PartialEq, Eq, Structural)]
pub enum Key {
    Up,
    Down,
    Left,
    Right,
    Reset,
    PauseResume,
    AddApple,
    Reverse,
    Slower,
    Faster,
    Other,
}

pub open spec fn key_of(k: Seq<char>) -> Key {
    if k == "ArrowUp"@ {
        Key::Up
    } else if k == "ArrowDown"@ {
        Key::Down
    } else if k == "ArrowLeft"@ {
        Key::Left
    } else if k == "ArrowRight"@ {
        Key::Right
    } else if k == "r"@ {
        Key::Reset
    } else if k == "Enter"@ {
        Key::PauseResume
    } else if k == "a"@ {
        Key::AddApple
    } else if k == " "@ {
        Key::Reverse
    } else if k == "s"@ {
        Key::Slower
    } else if k == "f"@ {
        Key::Faster
    } else {
        Key::Other
    }
}

fn str_eq(a: &str, b: &str) -> (r: bool)
    ensures
        r == (a@ == b@),
{
    let n = a.unicode_len();
    if n != b.unicode_len() {
        return false;
    }
    let mut i: usize = 0;
    while i < n
        invariant
            n == a@.len(),
            n == b@.len(),
            0 <= i <= n,
            forall|j: int| 0 <= j < i ==> a@[j] == b@[j],
        decreases n - i,
    {
        if a.get_char(i) != b.get_char(i) {
            return false;
        }
        i += 1;
    }
    assert(a@ =~= b@);
    true
}

/// Reads a raw key name as a command.
pub fn classify_key(k: &str) -> (r: Key)
    ensures
        r == key_of(k@),
{
    if str_eq(k, "ArrowUp") {
        Key::Up
    } else if str_eq(k, "ArrowDown") {
        Key::Down
    } else if str_eq(k, "ArrowLeft") {
        Key::Left
    } else if str_eq(k, "ArrowRight") {
        Key::Right
    } else if str_eq(k, "r") {
        Key::Reset
    } else if str_eq(k, "Enter") {
        Key::PauseResume
    } else if str_eq(k, "a") {
        Key::AddApple
    } else if str_eq(k, " ") {
        Key::Reverse
    } else if str_eq(k, "s") {
        Key::Slower
    } else if str_eq(k, "f") {
        Key::Faster
    } else {
        Key::Other
    }
}

} // verus!
