//! Configuration from the words of a command line.

use vstd::prelude::*;

verus! {

/// The width of the canvas where the command line gives none.
pub const CANVAS_WIDTH: i32 = 30;

/// The height of the canvas where the command line gives none.
pub const CANVAS_HEIGHT: i32 = 30;

/// The character of an untouched cell where the command line gives none: a
/// black square.
pub const BLANK_CHARACTER: char = '\u{2B1B}';

/// Where the canvas is stored where the command line does not say.
pub const CANVAS: &'static str = "canvas_data.txt";

/// Where the canvas is written first where the command line does not say.
pub const TEMP_CANVAS: &'static str = "temp_canvas_data.txt";

/// What the service runs with.
pub struct Config {
    pub width: i32,
    pub height: i32,
    pub blank_character: char,
    pub canvas_location: String,
    pub temp_canvas_location: String,
}

/// The value of a decimal digit.
pub open spec fn digit_of(character: char) -> Option<int> {
    if '0' <= character && character <= '9' {
        Some(character as int - '0' as int)
    } else {
        None
    }
}

/// The number that a row of decimal digits spells out; `None` where the
/// row is empty or holds anything but the digits `0` to `9`.
pub open spec fn number_of_digits(digits: Seq<char>) -> Option<int>
    decreases digits.len(),
{
    if digits.len() == 0 {
        None
    } else {
        match digit_of(digits.last()) {
            Some(digit) => if digits.len() == 1 {
                Some(digit)
            } else {
                match number_of_digits(digits.drop_last()) {
                    Some(number) => Some(10 * number + digit),
                    None => None,
                }
            },
            None => None,
        }
    }
}

/// The number that a text spells out: decimal digits, with `+` or `-`
/// before them or neither, and nothing else. `None` where the text is not
/// of that form, or where the number does not fit.
pub open spec fn parsed_i32(text: Seq<char>) -> Option<i32> {
    let signed = text.len() > 0 && (text[0] == '-' || text[0] == '+');
    let digits = if signed {
        text.drop_first()
    } else {
        text
    };
    match number_of_digits(digits) {
        Some(number) => {
            let number = if text[0] == '-' {
                -number
            } else {
                number
            };
            if i32::MIN <= number <= i32::MAX {
                Some(number as i32)
            } else {
                None
            }
        },
        None => None,
    }
}

/// A row that holds something other than a digit spells no number.
proof fn lemma_no_number_with_other_characters(digits: Seq<char>, position: int)
    requires
        0 <= position < digits.len(),
        digit_of(digits[position]) is None,
    ensures
        number_of_digits(digits) is None,
    decreases digits.len(),
{
    if position < digits.len() - 1 {
        lemma_no_number_with_other_characters(digits.drop_last(), position);
    }
}

/// The number that a row of digits spells is no less than the number that
/// its first few digits spell.
proof fn lemma_number_grows_with_digits(digits: Seq<char>, length: int)
    requires
        0 < length <= digits.len(),
        number_of_digits(digits) is Some,
    ensures
        number_of_digits(digits.subrange(0, length)) matches Some(number) && 0 <= number
            <= number_of_digits(digits)->Some_0,
    decreases digits.len(),
{
    if length == digits.len() {
        assert(digits.subrange(0, length) =~= digits);
        if digits.len() > 1 {
            lemma_number_grows_with_digits(digits.drop_last(), length - 1);
        }
    } else {
        lemma_number_grows_with_digits(digits.drop_last(), length);
        assert(digits.drop_last().subrange(0, length) =~= digits.subrange(0, length));
    }
}

/// Reads the number that a text spells out.
pub fn parse_i32(text: &str) -> (number: Option<i32>)
    ensures
        number == parsed_i32(text@),
{
    let mut first = true;
    let mut negative = false;
    let mut started = false;
    let mut magnitude: i64 = 0;
    let ghost mut from: int = 0;
    for character in it: text.chars()
        invariant
            it.seq() == text@,
            first == (it.index() == 0),
            from == if it.index() > 0 && (text@[0] == '-' || text@[0] == '+') {
                1int
            } else {
                0int
            },
            negative == (it.index() > 0 && text@[0] == '-'),
            started == (it.index() > from),
            !started ==> magnitude == 0,
            started ==> number_of_digits(text@.subrange(from, it.index() as int)) == Some(
                magnitude as int,
            ),
            0 <= magnitude <= 0x8000_0000,
    {
        let ghost at = it.index() as int;
        let ghost text = text@;
        if first && (character == '-' || character == '+') {
            negative = character == '-';
            proof {
                from = 1;
            }
        } else if '0' <= character && character <= '9' {
            let digit = (character as u8 - '0' as u8) as i64;
            magnitude = magnitude * 10 + digit;
            proof {
                let digits = text.subrange(from, at + 1);
                assert(digits.drop_last() =~= text.subrange(from, at));
                assert(number_of_digits(digits) == Some(magnitude as int));
                let rest = if text.len() > 0 && (text[0] == '-' || text[0] == '+') {
                    text.drop_first()
                } else {
                    text
                };
                assert(rest.subrange(0, at + 1 - from) =~= digits);
                if magnitude > 0x8000_0000 && number_of_digits(rest) is Some {
                    lemma_number_grows_with_digits(rest, at + 1 - from);
                }
            }
            if magnitude > 0x8000_0000 {
                return None;
            }
            started = true;
        } else {
            proof {
                let rest = if text.len() > 0 && (text[0] == '-' || text[0] == '+') {
                    text.drop_first()
                } else {
                    text
                };
                lemma_no_number_with_other_characters(rest, at - from);
            }
            return None;
        }
        first = false;
    }
    proof {
        let rest = if text@.len() > 0 && (text@[0] == '-' || text@[0] == '+') {
            text@.drop_first()
        } else {
            text@
        };
        assert(rest =~= text@.subrange(from, text@.len() as int));
    }
    if !started {
        return None;
    }
    let number = if negative {
        -magnitude
    } else {
        magnitude
    };
    if number < -0x8000_0000 || number > 0x7fff_ffff {
        return None;
    }
    Some(number as i32)
}

/// The extent that a word of the command line asks for: the number it
/// spells, or the default where there is no word or it spells none.
pub open spec fn extent_of(word: Option<Seq<char>>, default: i32) -> i32 {
    match word {
        Some(word) => match parsed_i32(word) {
            Some(number) => number,
            None => default,
        },
        None => default,
    }
}

/// The blank character that a word of the command line asks for: its first
/// character, or the default where there is no word or it is empty.
pub open spec fn blank_of(word: Option<Seq<char>>) -> char {
    match word {
        Some(word) if word.len() > 0 => word[0],
        _ => BLANK_CHARACTER,
    }
}

/// The location that a word of the command line asks for: the word, or the
/// default where there is none.
pub open spec fn location_of(word: Option<Seq<char>>, default: Seq<char>) -> Seq<char> {
    match word {
        Some(word) => word,
        None => default,
    }
}

/// The word at a position of the command line, if there are that many.
pub open spec fn word_at(args: Seq<String>, position: int) -> Option<Seq<char>> {
    if 0 <= position < args.len() {
        Some(args[position]@)
    } else {
        None
    }
}

impl Config {
    /// The configuration with each value that is given, and the default for
    /// each that is not.
    pub fn from_values(
        width: Option<i32>,
        height: Option<i32>,
        blank_character: Option<char>,
        canvas_location: Option<String>,
        temp_canvas_location: Option<String>,
    ) -> (config: Config)
        ensures
            config.width == match width {
                Some(width) => width,
                None => CANVAS_WIDTH,
            },
            config.height == match height {
                Some(height) => height,
                None => CANVAS_HEIGHT,
            },
            config.blank_character == match blank_character {
                Some(character) => character,
                None => BLANK_CHARACTER,
            },
            config.canvas_location@ == match canvas_location {
                Some(location) => location@,
                None => CANVAS@,
            },
            config.temp_canvas_location@ == match temp_canvas_location {
                Some(location) => location@,
                None => TEMP_CANVAS@,
            },
    {
        Config {
            width: match width {
                Some(width) => width,
                None => CANVAS_WIDTH,
            },
            height: match height {
                Some(height) => height,
                None => CANVAS_HEIGHT,
            },
            blank_character: match blank_character {
                Some(character) => character,
                None => BLANK_CHARACTER,
            },
            canvas_location: match canvas_location {
                Some(location) => location,
                None => String::from_str(CANVAS),
            },
            temp_canvas_location: match temp_canvas_location {
                Some(location) => location,
                None => String::from_str(TEMP_CANVAS),
            },
        }
    }

    /// Reads the configuration off the words of a command line: after the
    /// program's name come the width, the height, the blank character, the
    /// location of the canvas and the location it is written to first. A
    /// word that is missing, or that does not spell what it should, gives
    /// way to the default. This never fails.
    pub fn new(args: Vec<String>) -> (outcome: Result<Config, &'static str>)
        ensures
            outcome matches Ok(config) && {
                &&& config.width == extent_of(word_at(args@, 1), CANVAS_WIDTH)
                &&& config.height == extent_of(word_at(args@, 2), CANVAS_HEIGHT)
                &&& config.blank_character == blank_of(word_at(args@, 3))
                &&& config.canvas_location@ == location_of(word_at(args@, 4), CANVAS@)
                &&& config.temp_canvas_location@ == location_of(word_at(args@, 5), TEMP_CANVAS@)
            },
    {
        let width = if args.len() > 1 {
            parse_i32(args[1].as_str())
        } else {
            None
        };
        let height = if args.len() > 2 {
            parse_i32(args[2].as_str())
        } else {
            None
        };
        let blank_character = if args.len() > 3 && args[3].as_str().unicode_len() > 0 {
            Some(args[3].as_str().get_char(0))
        } else {
            None
        };
        let canvas_location = if args.len() > 4 {
            Some(args[4].clone())
        } else {
            None
        };
        let temp_canvas_location = if args.len() > 5 {
            Some(args[5].clone())
        } else {
            None
        };
        Ok(
            Config::from_values(
                width,
                height,
                blank_character,
                canvas_location,
                temp_canvas_location,
            ),
        )
    }
}

} // verus!
