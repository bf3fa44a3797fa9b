//! The names of frame directories and of image files.

use crate::image_type::ImageType;
use crate::manifest::is_plain;
use vstd::prelude::*;
use vstd::string::*;

verus! {

/// The character of a decimal digit.
pub open spec fn digit(value: nat) -> char
    recommends
        value < 10,
{
    if value == 0 {
        '0'
    } else if value == 1 {
        '1'
    } else if value == 2 {
        '2'
    } else if value == 3 {
        '3'
    } else if value == 4 {
        '4'
    } else if value == 5 {
        '5'
    } else if value == 6 {
        '6'
    } else if value == 7 {
        '7'
    } else if value == 8 {
        '8'
    } else {
        '9'
    }
}

/// A number in decimal notation, without leading zeros.
pub open spec fn decimal(value: nat) -> Seq<char>
    decreases value,
{
    if value < 10 {
        seq![digit(value)]
    } else {
        decimal(value / 10).push(digit(value % 10))
    }
}

/// The name of the directory of a frame.
pub open spec fn frame_name(frame_number: u64) -> Seq<char> {
    "frame-"@ + decimal(frame_number as nat)
}

/// The name of the image file of a frame in a format.
pub open spec fn image_name(frame_number: u64, image_type: ImageType) -> Seq<char> {
    frame_name(frame_number) + "."@ + image_type.extension()
}

/// The text of one decimal digit.
fn digit_text(value: u64) -> (text: &'static str)
    requires
        value < 10,
    ensures
        text@ == seq![digit(value as nat)],
{
    proof {
        reveal_strlit("0");
        reveal_strlit("1");
        reveal_strlit("2");
        reveal_strlit("3");
        reveal_strlit("4");
        reveal_strlit("5");
        reveal_strlit("6");
        reveal_strlit("7");
        reveal_strlit("8");
        reveal_strlit("9");
    }
    let text = if value == 0 {
        "0"
    } else if value == 1 {
        "1"
    } else if value == 2 {
        "2"
    } else if value == 3 {
        "3"
    } else if value == 4 {
        "4"
    } else if value == 5 {
        "5"
    } else if value == 6 {
        "6"
    } else if value == 7 {
        "7"
    } else if value == 8 {
        "8"
    } else {
        "9"
    };
    assert(text@ =~= seq![digit(value as nat)]);
    text
}

/// Writes a number in decimal notation.
pub fn decimal_string(value: u64) -> (text: String)
    ensures
        text@ == decimal(value as nat),
    decreases value,
{
    if value < 10 {
        String::from_str(digit_text(value))
    } else {
        let mut text = decimal_string(value / 10);
        text.append(digit_text(value % 10));
        assert(text@ =~= decimal(value as nat));
        text
    }
}

/// The name of the directory of a frame: `frame-` and the number of the frame.
pub fn frame_directory_name(frame_number: u64) -> (name: String)
    ensures
        name@ == frame_name(frame_number),
{
    let mut name = String::from_str("frame-");
    let number = decimal_string(frame_number);
    name.append(number.as_str());
    name
}

/// The name of the image file of a frame in a format: the name of the frame, a dot, and the
/// name of the format.
pub fn image_file_name(frame_number: u64, image_type: ImageType) -> (name: String)
    ensures
        name@ == image_name(frame_number, image_type),
{
    let mut name = frame_directory_name(frame_number);
    name.append(".");
    let extension = image_type.to_string();
    name.append(extension.as_str());
    name
}

/// Two texts that hold no comma, double quote, carriage return or line feed make a text
/// without any of them.
pub proof fn lemma_plain_concat(first: Seq<char>, second: Seq<char>)
    requires
        is_plain(first),
        is_plain(second),
    ensures
        is_plain(first + second),
{
    assert forall|k: int| 0 <= k < (first + second).len() implies {
        let c = #[trigger] (first + second)[k];
        c != ',' && c != '"' && c != '\r' && c != '\n'
    } by {
        if k < first.len() {
            assert((first + second)[k] == first[k]);
        } else {
            assert((first + second)[k] == second[k - first.len()]);
        }
    }
}

/// A number in decimal notation holds digits only.
pub proof fn lemma_decimal_is_plain(value: nat)
    ensures
        is_plain(decimal(value)),
    decreases value,
{
    if value >= 10 {
        lemma_decimal_is_plain(value / 10);
        lemma_plain_concat(decimal(value / 10), seq![digit(value % 10)]);
        assert(decimal(value) =~= decimal(value / 10) + seq![digit(value % 10)]);
    }
}

/// The name of a format and the name of an image file hold no comma, double quote,
/// carriage return or line feed.
pub proof fn lemma_image_name_is_plain(frame_number: u64, image_type: ImageType)
    ensures
        is_plain(image_type.extension()),
        is_plain(image_name(frame_number, image_type)),
{
    reveal_strlit("jpg");
    reveal_strlit("png");
    reveal_strlit("bmp");
    reveal_strlit("webp");
    reveal_strlit("frame-");
    reveal_strlit(".");
    lemma_decimal_is_plain(frame_number as nat);
    lemma_plain_concat("frame-"@, decimal(frame_number as nat));
    lemma_plain_concat(frame_name(frame_number), "."@);
    lemma_plain_concat(frame_name(frame_number) + "."@, image_type.extension());
}

} // verus!
