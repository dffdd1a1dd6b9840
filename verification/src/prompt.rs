//! What a line typed by the user means as an answer to a yes-or-no question.

use vstd::prelude::*;

verus! {

/// White space, as Unicode lists it.
pub open spec fn is_space(c: char) -> bool {
    let code = c as u32;
    ||| 0x09 <= code <= 0x0D
    ||| code == 0x20
    ||| code == 0x85
    ||| code == 0xA0
    ||| code == 0x1680
    ||| 0x2000 <= code <= 0x200A
    ||| code == 0x2028
    ||| code == 0x2029
    ||| code == 0x202F
    ||| code == 0x205F
    ||| code == 0x3000
}

/// Whether `line` holds `c` once and nothing else but white space.
pub open spec fn is_sole(line: Seq<char>, c: char) -> bool {
    exists|i: int|
        0 <= i < line.len() && #[trigger] line[i] == c && forall|j: int|
            0 <= j < line.len() && j != i ==> is_space(#[trigger] line[j])
}

/// The answer that `line` gives: yes for a lone `y`, no for a lone `n`, in
/// either case and with any white space around it. Anything else is no
/// answer.
pub open spec fn answer_in(line: Seq<char>) -> Option<bool> {
    if is_sole(line, 'y') || is_sole(line, 'Y') {
        Some(true)
    } else if is_sole(line, 'n') || is_sole(line, 'N') {
        Some(false)
    } else {
        None
    }
}

/// Whether `c` is white space.
pub fn is_white_space(c: char) -> (space: bool)
    ensures
        space == is_space(c),
{
    let code = c as u32;
    (0x09 <= code && code <= 0x0D) || code == 0x20 || code == 0x85 || code == 0xA0 || code
        == 0x1680 || (0x2000 <= code && code <= 0x200A) || code == 0x2028 || code == 0x2029
        || code == 0x202F || code == 0x205F || code == 0x3000
}

/// The answer that the user gave by typing `line`, if it is one.
pub fn read_answer(line: &str) -> (answer: Option<bool>)
    ensures
        answer == answer_in(line@),
{
    let mut seen: Option<char> = None;
    let mut crowded = false;
    let ghost mut first: int = 0;
    let ghost mut second: int = 0;
    for c in it: line.chars()
        invariant
            it.seq() == line@,
            !crowded && seen is None ==> forall|j: int|
                0 <= j < it.index() ==> is_space(#[trigger] line@[j]),
            !crowded && seen is Some ==> {
                &&& 0 <= first < it.index()
                &&& line@[first] == seen->0
                &&& !is_space(seen->0)
                &&& forall|j: int|
                    0 <= j < it.index() && j != first ==> is_space(#[trigger] line@[j])
            },
            crowded ==> {
                &&& seen is Some
                &&& 0 <= first < second < it.index()
                &&& !is_space(line@[first])
                &&& !is_space(line@[second])
            },
    {
        if !is_white_space(c) {
            if seen.is_some() {
                if !crowded {
                    proof {
                        second = it.index() as int;
                    }
                }
                crowded = true;
            } else {
                seen = Some(c);
                proof {
                    first = it.index() as int;
                }
            }
        }
    }
    proof {
        let text = line@;
        assert forall|wanted: char| !is_space(wanted) implies (is_sole(text, wanted) <==> !crowded
            && seen == Some(wanted)) by {
            if is_sole(text, wanted) {
                let at = choose|i: int|
                    0 <= i < text.len() && #[trigger] text[i] == wanted && forall|j: int|
                        0 <= j < text.len() && j != i ==> is_space(#[trigger] text[j]);
                if crowded {
                    assert(is_space(text[first]) || is_space(text[second]));
                } else if seen is None {
                    assert(is_space(text[at]));
                } else if at != first {
                    assert(is_space(text[first]));
                }
            }
            if !crowded && seen == Some(wanted) {
                assert(text[first] == wanted);
            }
        }
        assert(!is_space('y') && !is_space('Y') && !is_space('n') && !is_space('N'));
    }
    if crowded {
        None
    } else {
        match seen {
            Some('y') | Some('Y') => Some(true),
            Some('n') | Some('N') => Some(false),
            _ => None,
        }
    }
}

} // verus!
