//! Reading the settings of a machine from the words of a command line.

use vstd::prelude::*;
use crate::machine::factory::{names_of, rotor_kind};
use crate::plugboard::token_views;
use crate::text::{chars_of, with_chars};
use crate::utils::{letter_to_index};
use crate::wiring::all_letters;

verus! {

/// The message for a position text that does not have three characters.
pub open spec fn positions_length_message() -> Seq<char> {
    "Position string must be exactly 3 characters long"@
}

/// The message for a position text that holds something other than
/// letters.
pub open spec fn positions_letters_message() -> Seq<char> {
    "Position string may only contain letters"@
}

/// The message for a rotor text that does not name three rotors.
pub open spec fn rotors_count_message() -> Seq<char> {
    "Rotor string must contain exactly 3 types (comma-separated)"@
}

/// The message for a rotor name that is not known.
pub open spec fn rotor_type_message(name: Seq<char>) -> Seq<char> {
    "Invalid rotor type: "@ + name
}

/// The three letters that a position text holds, or why it holds none.
pub open spec fn positions_result(text: Seq<char>) -> Result<Seq<char>, Seq<char>> {
    if text.len() != 3 {
        Err(positions_length_message())
    } else if !all_letters(text) {
        Err(positions_letters_message())
    } else {
        Ok(text)
    }
}

/// The fields of a text: what stands before, between and after its
/// commas. A text without a comma is one field.
pub open spec fn fields(text: Seq<char>) -> Seq<Seq<char>>
    decreases text.len(),
{
    if text.len() == 0 {
        seq![Seq::empty()]
    } else {
        let before = fields(text.drop_last());
        if text.last() == ',' {
            before.push(Seq::empty())
        } else {
            before.drop_last().push(before.last().push(text.last()))
        }
    }
}

/// The first of the three names that is not the name of a rotor, if
/// there is one.
pub open spec fn first_unknown(names: Seq<Seq<char>>) -> Option<Seq<char>> {
    if rotor_kind(names[0]) is None {
        Some(names[0])
    } else if rotor_kind(names[1]) is None {
        Some(names[1])
    } else if rotor_kind(names[2]) is None {
        Some(names[2])
    } else {
        None
    }
}

/// The three rotor names that a text holds, or why it holds none.
pub open spec fn rotors_result(text: Seq<char>) -> Result<Seq<Seq<char>>, Seq<char>> {
    let names = fields(text);
    if names.len() != 3 {
        Err(rotors_count_message())
    } else {
        match first_unknown(names) {
            Some(name) => Err(rotor_type_message(name)),
            None => Ok(names),
        }
    }
}

/// Reads three positions or ring settings from a text of three letters.
pub fn parse_positions(positions: &str) -> (r: Result<[char; 3], String>)
    ensures
        match r {
            Ok(letters) => positions_result(positions@) == Ok::<_, Seq<char>>(letters@),
            Err(message) => positions_result(positions@) == Err::<Seq<char>, _>(message@),
        },
{
    let chars = chars_of(positions);
    if chars.len() != 3 {
        return Err("Position string must be exactly 3 characters long".to_owned());
    }
    if letter_to_index(chars[0]).is_none() || letter_to_index(chars[1]).is_none()
        || letter_to_index(chars[2]).is_none() {
        return Err("Position string may only contain letters".to_owned());
    }
    let letters = [chars[0], chars[1], chars[2]];
    assert(letters@ =~= positions@);
    Ok(letters)
}

/// Cuts a text at its commas.
pub fn split_fields(chars: &Vec<char>) -> (list: Vec<Vec<char>>)
    ensures
        token_views(list@) == fields(chars@),
{
    let mut done: Vec<Vec<char>> = Vec::new();
    let mut current: Vec<char> = Vec::new();
    let mut i: usize = 0;
    assert(token_views(done@).push(current@) =~= fields(chars@.take(0)));
    while i < chars.len()
        invariant
            i <= chars.len(),
            fields(chars@.take(i as int)) == token_views(done@).push(current@),
        decreases chars.len() - i,
    {
        let c = chars[i];
        let ghost before = token_views(done@);
        let ghost earlier = current@;
        proof {
            assert(chars@.take(i + 1).drop_last() == chars@.take(i as int));
            assert(chars@.take(i + 1).last() == c);
            assert(before.push(earlier).drop_last() == before);
        }
        if c == ',' {
            done.push(current);
            current = Vec::new();
            assert(token_views(done@) =~= before.push(earlier));
        } else {
            current.push(c);
        }
        i += 1;
    }
    assert(chars@.take(chars@.len() as int) == chars@);
    let ghost before = token_views(done@);
    let ghost last = current@;
    done.push(current);
    assert(token_views(done@) =~= before.push(last));
    done
}

/// The name of a rotor as a constant text, if `name` is one.
pub fn known_rotor(name: &Vec<char>) -> (r: Option<&'static str>)
    ensures
        match r {
            Some(text) => rotor_kind(name@) is Some && text@ == name@,
            None => rotor_kind(name@) is None,
        },
{
    proof {
        reveal_strlit("I");
        reveal_strlit("II");
        reveal_strlit("III");
        reveal_strlit("IV");
        reveal_strlit("V");
    }
    let n = name.len();
    if n == 1 && name[0] == 'I' {
        assert(name@ =~= "I"@);
        Some("I")
    } else if n == 2 && name[0] == 'I' && name[1] == 'I' {
        assert(name@ =~= "II"@);
        Some("II")
    } else if n == 3 && name[0] == 'I' && name[1] == 'I' && name[2] == 'I' {
        assert(name@ =~= "III"@);
        Some("III")
    } else if n == 2 && name[0] == 'I' && name[1] == 'V' {
        assert(name@ =~= "IV"@);
        Some("IV")
    } else if n == 1 && name[0] == 'V' {
        assert(name@ =~= "V"@);
        Some("V")
    } else {
        assert(name@ != "I"@) by {
            if name@ == "I"@ {
                assert(name@[0] == 'I');
            }
        }
        assert(name@ != "II"@) by {
            if name@ == "II"@ {
                assert(name@[0] == 'I' && name@[1] == 'I');
            }
        }
        assert(name@ != "III"@) by {
            if name@ == "III"@ {
                assert(name@[0] == 'I' && name@[1] == 'I' && name@[2] == 'I');
            }
        }
        assert(name@ != "IV"@) by {
            if name@ == "IV"@ {
                assert(name@[0] == 'I' && name@[1] == 'V');
            }
        }
        assert(name@ != "V"@) by {
            if name@ == "V"@ {
                assert(name@[0] == 'V');
            }
        }
        None
    }
}

/// Reads the names of three rotors from a text such as `"I,II,III"`.
pub fn parse_rotors(rotors: &str) -> (r: Result<[&'static str; 3], String>)
    ensures
        match r {
            Ok(names) => rotors_result(rotors@) == Ok::<_, Seq<char>>(names_of(names@)),
            Err(message) => rotors_result(rotors@) == Err::<Seq<Seq<char>>, _>(message@),
        },
{
    let chars = chars_of(rotors);
    let parts = split_fields(&chars);
    if parts.len() != 3 {
        return Err("Rotor string must contain exactly 3 types (comma-separated)".to_owned());
    }
    let ghost names = token_views(parts@);
    let first = match known_rotor(&parts[0]) {
        Some(name) => name,
        None => {
            return Err(with_chars("Invalid rotor type: ", &parts[0]));
        },
    };
    let second = match known_rotor(&parts[1]) {
        Some(name) => name,
        None => {
            return Err(with_chars("Invalid rotor type: ", &parts[1]));
        },
    };
    let third = match known_rotor(&parts[2]) {
        Some(name) => name,
        None => {
            return Err(with_chars("Invalid rotor type: ", &parts[2]));
        },
    };
    let found = [first, second, third];
    assert(names_of(found@) =~= names);
    Ok(found)
}

} // verus!
