//! What is read off a frame, once the language model or the text
//! recognizer has answered for the cropped regions.
use vstd::prelude::*;
use vstd::string::*;
use crate::data::string_to_number;
use crate::llm::{cleaned, identify_outcome};
use crate::text::{ascii_digits, is_ascii_digit, lemma_no_digits, parse_digits};

verus! {

/// The placement the model read from the placement crop (`None`: the model
/// call failed): the number in its cleaned reply, if any.
pub fn placement_from_response(response: Option<&str>) -> (r: Option<u32>)
    ensures
        r == match response {
            Some(reply) => parse_digits(ascii_digits(cleaned(reply@))),
            None => None,
        },
        r == match response {
            Some(reply) => parse_digits(ascii_digits(reply@)),
            None => None,
        },
{
    proof {
        if let Some(reply) = response {
            crate::llm::lemma_cleaning_keeps_digits(reply@);
        }
        reveal_strlit("FAILURE");
        let f = "FAILURE"@;
        assert(forall|i: int| 0 <= i < f.len() ==> !is_ascii_digit(#[trigger] f[i]));
        lemma_no_digits(f);
    }
    let answer = identify_outcome(response);
    string_to_number(answer.as_str())
}

/// The item the model named for an item crop (`None`: the model call failed).
pub fn item_from_response(response: Option<&str>) -> (r: String)
    ensures
        r@ == match response {
            Some(reply) => cleaned(reply@),
            None => "FAILURE"@,
        },
{
    identify_outcome(response)
}

/// The coin count in the text recognized in the coin crop (`None`: no text
/// was recognized).
pub fn coin_count_from_text(text: Option<&str>) -> (r: Option<u32>)
    ensures
        r == match text {
            Some(t) => parse_digits(ascii_digits(t@)),
            None => None,
        },
{
    match text {
        Some(t) => string_to_number(t),
        None => None,
    }
}

} // verus!
