//! Names of generated action variants: a reducer method `add_user` gives the
//! action `ActionAddUser`.
use vstd::prelude::*;

verus! {

/// The ASCII uppercase of `c`: `a` to `z` become `A` to `Z`; every other
/// character stays as it is.
pub open spec fn ascii_upper(c: char) -> char {
    if 'a' <= c && c <= 'z' {
        seq![
            'A', 'B', 'C', 'D', 'E', 'F', 'G', 'H', 'I', 'J', 'K', 'L', 'M', 'N', 'O', 'P', 'Q',
            'R', 'S', 'T', 'U', 'V', 'W', 'X', 'Y', 'Z',
        ][(c as int) - ('a' as int)]
    } else {
        c
    }
}

/// Relies on `char::to_ascii_uppercase`: ASCII letters `a` to `z` are mapped
/// to `A` to `Z`, and every other character is unchanged.
pub assume_specification[ char::to_ascii_uppercase ](c: &char) -> (r: char)
    ensures
        r == ascii_upper(*c),
;

/// Relies on `String::push`: appends one character to the end of the string.
pub assume_specification[ String::push ](s: &mut String, ch: char)
    ensures
        final(s)@ == old(s)@.push(ch),
;

/// The camel-case form of `s` read so far, and whether the next letter is to
/// be capitalised: underscores are dropped, and the first character and each
/// character after an underscore is made ASCII uppercase.
pub open spec fn camel_state(s: Seq<char>) -> (Seq<char>, bool)
    decreases s.len(),
{
    if s.len() == 0 {
        (Seq::empty(), true)
    } else {
        let (out, capitalize) = camel_state(s.drop_last());
        let c = s.last();
        if c == '_' {
            (out, true)
        } else if capitalize {
            (out.push(ascii_upper(c)), false)
        } else {
            (out.push(c), false)
        }
    }
}

/// The camel-case form of the snake-case name `s`.
pub open spec fn camel(s: Seq<char>) -> Seq<char> {
    camel_state(s).0
}

/// Turns a snake-case name into camel case: `add_user` gives `AddUser`.
pub fn snake_to_camel(snake: &str) -> (r: String)
    ensures
        r@ == camel(snake@),
{
    let mut camel_case = String::new();
    let mut capitalize_next = true;
    let ghost mut seen: int = 0;
    for c in it: snake.chars()
        invariant
            it.seq() == snake@,
            seen == it.index(),
            0 <= seen <= snake@.len(),
            (camel_case@, capitalize_next) == camel_state(snake@.take(seen)),
    {
        proof {
            assert(snake@.take(seen + 1).drop_last() == snake@.take(seen));
            assert(snake@.take(seen + 1).last() == c);
        }
        if c == '_' {
            capitalize_next = true;
        } else if capitalize_next {
            camel_case.push(c.to_ascii_uppercase());
            capitalize_next = false;
        } else {
            camel_case.push(c);
        }
        proof {
            seen = seen + 1;
        }
    }
    assert(snake@.take(seen) == snake@);
    camel_case
}

} // verus!
