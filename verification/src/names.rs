//! The names under which pictures and sounds are kept: the name of a file
//! without the directories before it, and the names that the pictures of a
//! player's clothes, gun and backpack and the sound of a gun go by.

use vstd::prelude::*;
use vstd::string::*;

verus! {

/// Where the name of a file begins in its path: behind the last separator,
/// or at the start where the path has none.
pub open spec fn name_start(path: Seq<char>, separator: char) -> int
    decreases path.len(),
{
    if path.len() == 0 {
        0
    } else if path.last() == separator {
        path.len() as int
    } else {
        name_start(path.drop_last(), separator)
    }
}

/// Whether `name` ends with `ending`.
pub open spec fn ends_with(name: Seq<char>, ending: Seq<char>) -> bool {
    ending.len() <= name.len() && name.subrange(name.len() - ending.len(), name.len() as int)
        == ending
}

/// The name of a file begins inside its path, behind a separator if at all,
/// and holds no separator itself.
pub proof fn lemma_name_start(path: Seq<char>, separator: char)
    ensures
        0 <= name_start(path, separator) <= path.len(),
        name_start(path, separator) > 0 ==> path[name_start(path, separator) - 1] == separator,
        forall|i: int| name_start(path, separator) <= i < path.len() ==> path[i] != separator,
    decreases path.len(),
{
    if path.len() > 0 && path.last() != separator {
        let head = path.drop_last();
        lemma_name_start(head, separator);
        assert forall|i: int| name_start(path, separator) <= i < path.len() implies path[i]
            != separator by {
            if i < head.len() {
                assert(head[i] == path[i]);
            }
        }
        if name_start(path, separator) > 0 {
            assert(head[name_start(path, separator) - 1] == path[name_start(path, separator) - 1]);
        }
    }
}

/// The name of the file at `path`: what follows the last `separator`.
pub fn file_name(path: &str, separator: char) -> (name: &str)
    ensures
        name@ == path@.subrange(name_start(path@, separator), path@.len() as int),
{
    let len: usize = path.unicode_len();
    let mut start: usize = 0;
    let mut i: usize = 0;
    assert(path@.take(0) =~= Seq::<char>::empty());
    while i < len
        invariant
            i <= len,
            len == path@.len(),
            start <= i,
            start == name_start(path@.take(i as int), separator),
        decreases len - i,
    {
        let c: char = path.get_char(i);
        proof {
            let more = path@.take(i + 1);
            assert(more.drop_last() =~= path@.take(i as int));
            assert(more.last() == c);
        }
        if c == separator {
            start = i + 1;
        }
        i += 1;
    }
    assert(path@.take(len as int) =~= path@);
    path.substring_char(start, len)
}

/// Whether `name` ends with `ending`.
pub fn has_ending(name: &str, ending: &str) -> (ends: bool)
    ensures
        ends == ends_with(name@, ending@),
{
    let len: usize = name.unicode_len();
    let tail: usize = ending.unicode_len();
    if tail > len {
        return false;
    }
    let from: usize = len - tail;
    let mut i: usize = 0;
    while i < tail
        invariant
            i <= tail,
            tail <= len,
            from == len - tail,
            len == name@.len(),
            tail == ending@.len(),
            forall|j: int| 0 <= j < i ==> name@[from + j] == ending@[j],
        decreases tail - i,
    {
        if name.get_char(from + i) != ending.get_char(i) {
            assert(name@.subrange(from as int, len as int)[i as int] != ending@[i as int]);
            return false;
        }
        i += 1;
    }
    assert(name@.subrange(from as int, len as int) =~= ending@);
    true
}

/// Whether a file of this name holds a picture.
pub fn is_picture(name: &str) -> (picture: bool)
    ensures
        picture == ends_with(name@, ".png"@),
{
    has_ending(name, ".png")
}

/// Whether a file of this name holds a sound.
pub fn is_sound(name: &str) -> (sound: bool)
    ensures
        sound == ends_with(name@, ".wav"@),
{
    has_ending(name, ".wav")
}

/// The name of the picture of a player in clothes of `colour`, aiming or
/// not.
pub fn clothes_texture(colour: &str, aiming: bool) -> (name: String)
    ensures
        name@ == colour@ + (if aiming {
            "_clothes_aiming.png"@
        } else {
            "_clothes_idle.png"@
        }),
{
    let name: String = String::from_str(colour);
    if aiming {
        name.concat("_clothes_aiming.png")
    } else {
        name.concat("_clothes_idle.png")
    }
}

/// The name of the picture of a gun in the hands of a player, aiming or
/// not.
pub fn gun_texture(gun: &str, aiming: bool) -> (name: String)
    ensures
        name@ == gun@ + (if aiming {
            "_aiming.png"@
        } else {
            "_idle.png"@
        }),
{
    let name: String = String::from_str(gun);
    if aiming {
        name.concat("_aiming.png")
    } else {
        name.concat("_idle.png")
    }
}

/// The name of the picture of a backpack.
pub fn backpack_texture(backpack: &str) -> (name: String)
    ensures
        name@ == backpack@ + ".png"@,
{
    String::from_str(backpack).concat(".png")
}

/// The name of the sound of a gun that is fired.
pub fn shooting_sound(gun: &str) -> (name: String)
    ensures
        name@ == gun@ + "_shooting.wav"@,
{
    String::from_str(gun).concat("_shooting.wav")
}

} // verus!
