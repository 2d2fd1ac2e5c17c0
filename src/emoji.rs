use vstd::prelude::*;

use crate::ack::{AckStage, Acknowledgment, Mode};
use crate::text::{chars_of, string_of};

verus! {

/// A custom emoji of a guild: its name, and the code that shows it in a message.
#[derive(Clone, Debug)]
pub struct CustomEmoji {
    pub name: String,
    pub code: String,
}

/// `c` with ASCII upper case folded to lower case, as a code point.
pub open spec fn ascii_fold(c: char) -> u32 {
    if 'A' <= c && c <= 'Z' {
        (c as u32 + 32) as u32
    } else {
        c as u32
    }
}

/// Whether `a` and `b` are equal but for ASCII case, as `str::eq_ignore_ascii_case` decides.
pub open spec fn same_ignoring_ascii_case(a: Seq<char>, b: Seq<char>) -> bool {
    a.len() == b.len() && forall|i: int| 0 <= i < a.len() ==> ascii_fold(a[i]) == ascii_fold(b[i])
}

fn ascii_fold_exec(c: char) -> (r: u32)
    ensures
        r == ascii_fold(c),
{
    if 'A' <= c && c <= 'Z' {
        c as u32 + 32
    } else {
        c as u32
    }
}

/// Whether `a` and `b` are equal but for ASCII case.
pub fn eq_ignore_ascii_case(a: &str, b: &str) -> (r: bool)
    ensures
        r == same_ignoring_ascii_case(a@, b@),
{
    let x = chars_of(a);
    let y = chars_of(b);
    if x.len() != y.len() {
        return false;
    }
    let mut i: usize = 0;
    while i < x.len()
        invariant
            x.len() == y.len(),
            x@ == a@,
            y@ == b@,
            i <= x.len(),
            forall|j: int| 0 <= j < i ==> ascii_fold(x@[j]) == ascii_fold(y@[j]),
        decreases x.len() - i,
    {
        if ascii_fold_exec(x[i]) != ascii_fold_exec(y[i]) {
            return false;
        }
        i += 1;
    }
    true
}

/// The position of the first emoji in `emojis` named `name`, ASCII case aside.
pub fn find_custom_emoji(emojis: &Vec<CustomEmoji>, name: &str) -> (r: Option<usize>)
    ensures
        match r {
            Some(i) => i < emojis.len() && same_ignoring_ascii_case(emojis@[i as int].name@, name@)
                && forall|j: int|
                0 <= j < i ==> !same_ignoring_ascii_case(#[trigger] emojis@[j].name@, name@),
            None => forall|j: int|
                0 <= j < emojis.len() ==> !same_ignoring_ascii_case(
                    #[trigger] emojis@[j].name@,
                    name@,
                ),
        },
{
    let mut i: usize = 0;
    while i < emojis.len()
        invariant
            i <= emojis.len(),
            forall|j: int|
                0 <= j < i ==> !same_ignoring_ascii_case(#[trigger] emojis@[j].name@, name@),
        decreases emojis.len() - i,
    {
        if eq_ignore_ascii_case(emojis[i].name.as_str(), name) {
            return Some(i);
        }
        i += 1;
    }
    None
}

/// What shows the emoji named `name`: the code of the first custom emoji so named, ASCII case
/// aside, or else `fallback`.
pub open spec fn emoji_code(emojis: Seq<CustomEmoji>, name: Seq<char>, fallback: char) -> Seq<
    char,
> {
    if exists|j: int| 0 <= j < emojis.len() && same_ignoring_ascii_case(emojis[j].name@, name) {
        let i = choose|i: int|
            0 <= i < emojis.len() && same_ignoring_ascii_case(emojis[i].name@, name) && forall|
                j: int,
            |
                0 <= j < i ==> !same_ignoring_ascii_case(#[trigger] emojis[j].name@, name);
        emojis[i].code@
    } else {
        seq![fallback]
    }
}

/// The code that shows the emoji named `name`, or `fallback` where the guild has no such
/// custom emoji.
pub fn custom_emoji_code(emojis: &Vec<CustomEmoji>, name: &str, fallback: char) -> (r: String)
    ensures
        r@ == emoji_code(emojis@, name@, fallback),
{
    match find_custom_emoji(emojis, name) {
        Some(i) => {
            proof {
                let c = choose|k: int|
                    0 <= k < emojis@.len() && same_ignoring_ascii_case(emojis@[k].name@, name@)
                        && forall|j: int|
                        0 <= j < k ==> !same_ignoring_ascii_case(
                            #[trigger] emojis@[j].name@,
                            name@,
                        );
                assert(c == i) by {
                    if c < i {
                        assert(!same_ignoring_ascii_case(emojis@[c].name@, name@));
                    } else if c > i {
                        assert(!same_ignoring_ascii_case(emojis@[i as int].name@, name@));
                    }
                }
            }
            emojis[i].code.clone()
        },
        None => {
            let v: Vec<char> = vec![fallback];
            assert(v@ =~= seq![fallback]);
            string_of(&v)
        },
    }
}

/// Acknowledges success with the guild's custom emoji named `name`, or with `fallback`.
pub fn acknowledge_success(mode: Mode, emojis: &Vec<CustomEmoji>, name: &str, fallback: char) -> (r:
    Acknowledgment)
    ensures
        r.mode == mode,
        r.content@ == emoji_code(emojis@, name@, fallback),
        r.cleanup,
        r.stage == AckStage::Begin,
{
    Acknowledgment::success(mode, custom_emoji_code(emojis, name, fallback))
}

} // verus!
