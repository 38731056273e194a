//! The prompts that the image-identifying language model is given, and what
//! is made of its replies.
use vstd::prelude::*;
use vstd::string::*;
use crate::text::ascii_digits;
use crate::data::{get_items, is_name_char, item_names, lemma_item_names_shaped};
use crate::text::{
    find, find_from, is_white_space, join, joined, lemma_replaced_absent, lemma_replaced_char,
    lemma_replaced_char_concat, lemma_replaced_keeps_absent, lemma_replaced_keeps_digits,
    lemma_replaced_removes, lemma_trimmed_keeps_digits, is_ascii_digit,
    leading_white_space, occurs_at, replace_all, replaced, trailing_white_space, trim, trimmed,
};

verus! {

/// The question asked about the crop that shows the racer's placement.
pub fn placement_prompt() -> (r: String)
    ensures
        r@ == "What placement number is this? Reply only with the placement number itself. If there appears to be no number, reply \"none\""@,
{
    String::from_str("What placement number is this? Reply only with the placement number itself. If there appears to be no number, reply \"none\"")
}

/// The question asked about a crop that shows a held item; it lists every
/// item of the game.
pub fn item_prompt() -> (r: String)
    ensures
        r@ == "These are the items in Mario Kart World: "@ + joined(item_names(), ", "@)
            + ". Which item is this image depicting? If it does not appear to be an item - mainly a black space - then reply: none. Reply only with the item name itself."@,
{
    let items = get_items();
    let mut r = String::from_str("These are the items in Mario Kart World: ");
    let list = join(&items, ", ");
    r.append(list.as_str());
    r.append(". Which item is this image depicting? If it does not appear to be an item - mainly a black space - then reply: none. Reply only with the item name itself.");
    r
}

/// A reply of the model made comparable with item names: trimmed, then, in
/// this order, line breaks removed, spaces and '_' turned into '-', '/'
/// removed, "</think>" removed, '.' and ',' removed. (With '/' gone first,
/// a "</think>" in the reply is left as "<think>".)
pub open spec fn cleaned(response: Seq<char>) -> Seq<char> {
    let s = trimmed(response);
    let s = replaced(s, "\n"@, ""@);
    let s = replaced(s, " "@, "-"@);
    let s = replaced(s, "_"@, "-"@);
    let s = replaced(s, "/"@, ""@);
    let s = replaced(s, "</think>"@, ""@);
    let s = replaced(s, "."@, ""@);
    replaced(s, ","@, ""@)
}

proof fn lemma_cleaned_lacks(response: Seq<char>, c: char, k: int)
    requires
        0 <= k < 6,
        c == seq!['\n', ' ', '_', '/', '.', ','][k],
    ensures
        !cleaned(response).contains(c),
{
    reveal_strlit("\n");
    reveal_strlit(" ");
    reveal_strlit("_");
    reveal_strlit("/");
    reveal_strlit("</think>");
    reveal_strlit(".");
    reveal_strlit(",");
    reveal_strlit("-");
    reveal_strlit("");
    assert("\n"@ =~= seq!['\n']);
    assert(" "@ =~= seq![' ']);
    assert("_"@ =~= seq!['_']);
    assert("/"@ =~= seq!['/']);
    assert("."@ =~= seq!['.']);
    assert(","@ =~= seq![',']);
    assert(!"-"@.contains(c));
    assert(!""@.contains(c));
    let s0 = trimmed(response);
    let s1 = replaced(s0, "\n"@, ""@);
    let s2 = replaced(s1, " "@, "-"@);
    let s3 = replaced(s2, "_"@, "-"@);
    let s4 = replaced(s3, "/"@, ""@);
    let s5 = replaced(s4, "</think>"@, ""@);
    let s6 = replaced(s5, "."@, ""@);
    let s7 = replaced(s6, ","@, ""@);
    if c == '\n' {
        lemma_replaced_removes(s0, c, ""@);
    }
    if s1.contains(c) {
    } else {
        lemma_replaced_keeps_absent(s1, " "@, "-"@, c);
    }
    if c == ' ' {
        lemma_replaced_removes(s1, c, "-"@);
    }
    if !s2.contains(c) {
        lemma_replaced_keeps_absent(s2, "_"@, "-"@, c);
    }
    if c == '_' {
        lemma_replaced_removes(s2, c, "-"@);
    }
    if !s3.contains(c) {
        lemma_replaced_keeps_absent(s3, "/"@, ""@, c);
    }
    if c == '/' {
        lemma_replaced_removes(s3, c, ""@);
    }
    if !s4.contains(c) {
        lemma_replaced_keeps_absent(s4, "</think>"@, ""@, c);
    }
    if !s5.contains(c) {
        lemma_replaced_keeps_absent(s5, "."@, ""@, c);
    }
    if c == '.' {
        lemma_replaced_removes(s5, c, ""@);
    }
    if !s6.contains(c) {
        lemma_replaced_keeps_absent(s6, ","@, ""@, c);
    }
    if c == ',' {
        lemma_replaced_removes(s6, c, ""@);
    }
}

/// A cleaned reply holds no line break, space, underscore, slash, dot or
/// comma, so it can be compared with item names directly.
pub proof fn lemma_cleaned_has_no_separators(response: Seq<char>)
    ensures
        !cleaned(response).contains('\n'),
        !cleaned(response).contains(' '),
        !cleaned(response).contains('_'),
        !cleaned(response).contains('/'),
        !cleaned(response).contains('.'),
        !cleaned(response).contains(','),
{
    lemma_cleaned_lacks(response, '\n', 0);
    lemma_cleaned_lacks(response, ' ', 1);
    lemma_cleaned_lacks(response, '_', 2);
    lemma_cleaned_lacks(response, '/', 3);
    lemma_cleaned_lacks(response, '.', 4);
    lemma_cleaned_lacks(response, ',', 5);
}

proof fn lemma_literals()
    ensures
        "\n"@ =~= seq!['\n'],
        " "@ =~= seq![' '],
        "_"@ =~= seq!['_'],
        "/"@ =~= seq!['/'],
        "."@ =~= seq!['.'],
        ","@ =~= seq![','],
        "-"@ =~= seq!['-'],
        ""@ =~= Seq::<char>::empty(),
        "</think>"@.len() > 0 && "</think>"@[0] == '<',
{
    reveal_strlit("\n");
    reveal_strlit(" ");
    reveal_strlit("_");
    reveal_strlit("/");
    reveal_strlit(".");
    reveal_strlit(",");
    reveal_strlit("-");
    reveal_strlit("");
    reveal_strlit("</think>");
}

/// Text made only of lowercase letters, '-' and ' ' comes through the steps
/// of `cleaned` after the trimming unchanged, except that spaces become '-'.
proof fn lemma_cleaned_steps_after_trim(s: Seq<char>)
    requires
        forall|i: int| 0 <= i < s.len() ==> is_name_char(#[trigger] s[i]) || s[i] == ' ',
    ensures
        ({
            let s1 = replaced(s, "\n"@, ""@);
            let s2 = replaced(s1, " "@, "-"@);
            let s3 = replaced(s2, "_"@, "-"@);
            let s4 = replaced(s3, "/"@, ""@);
            let s5 = replaced(s4, "</think>"@, ""@);
            let s6 = replaced(s5, "."@, ""@);
            let s7 = replaced(s6, ","@, ""@);
            s7 == s.map_values(|x: char| if x == ' ' { '-' } else { x })
        }),
{
    lemma_literals();
    let m = s.map_values(|x: char| if x == ' ' { '-' } else { x });
    assert(!s.contains('\n'));
    lemma_replaced_absent(s, "\n"@, ""@);
    lemma_replaced_char(s, ' ', '-');
    assert forall|c: char| c == '_' || c == '/' || c == '<' || c == '.' || c == ',' implies !m.contains(c) by {
        if m.contains(c) {
            let i = choose|i: int| 0 <= i < m.len() && m[i] == c;
            assert(is_name_char(s[i]) || s[i] == ' ');
        }
    }
    lemma_replaced_absent(m, "_"@, "-"@);
    lemma_replaced_absent(m, "/"@, ""@);
    lemma_replaced_absent(m, "</think>"@, ""@);
    lemma_replaced_absent(m, "."@, ""@);
    lemma_replaced_absent(m, ","@, ""@);
}

/// Cleaning an item name gives it back, and so does cleaning the name with
/// its dashes written as spaces, or the name between a space and ".\n".
pub proof fn lemma_item_names_survive_cleaning(k: Seq<char>)
    requires
        item_names().contains(k),
    ensures
        cleaned(k) == k,
        cleaned(replaced(k, "-"@, " "@)) == k,
        cleaned(seq![' '] + k + seq!['.', '\n']) == k,
{
    lemma_item_names_shaped(k);
    lemma_literals();
    let n = k.len();
    let dash = |x: char| if x == ' ' { '-' } else { x };
    let space = |x: char| if x == '-' { ' ' } else { x };
    // The name itself.
    assert(!is_white_space(k[0]) && !is_white_space(k[n - 1]));
    assert(k.skip(0) =~= k);
    assert(k.take(n as int) =~= k);
    assert(trimmed(k) == k);
    lemma_cleaned_steps_after_trim(k);
    assert(k.map_values(dash) =~= k);
    // The name with spaces for dashes.
    lemma_replaced_char(k, '-', ' ');
    let sp = k.map_values(space);
    assert(replaced(k, "-"@, " "@) == sp);
    assert(sp[0] == k[0] && sp[n - 1] == k[n - 1]);
    assert(sp.skip(0) =~= sp);
    assert(sp.take(n as int) =~= sp);
    assert(trimmed(sp) == sp);
    assert forall|i: int| 0 <= i < sp.len() implies is_name_char(#[trigger] sp[i]) || sp[i] == ' ' by {
        assert(is_name_char(k[i]));
    }
    lemma_cleaned_steps_after_trim(sp);
    assert(sp.map_values(dash) =~= k);
    // The name between a space and ".\n".
    let t = seq![' '] + k + seq!['.', '\n'];
    let u = k + seq!['.', '\n'];
    assert(t.drop_first() =~= u);
    assert(u[0] == k[0]);
    assert(leading_white_space(u) == 0);
    assert(leading_white_space(t) == 1);
    assert(t.skip(1) =~= u);
    let kd = k + seq!['.'];
    assert(u.drop_last() =~= kd);
    assert(kd.last() == '.');
    assert(trailing_white_space(kd) == 0);
    assert(trailing_white_space(u) == 1);
    assert(u.take(u.len() - 1) =~= kd);
    assert(trimmed(t) == kd);
    assert forall|c: char| c == '\n' || c == ' ' || c == '_' || c == '/' || c == '<' implies !kd.contains(c) by {
        if kd.contains(c) {
            let i = choose|i: int| 0 <= i < kd.len() && kd[i] == c;
            if i < n {
                assert(kd[i] == k[i]);
                assert(is_name_char(k[i]));
            }
        }
    }
    lemma_replaced_absent(kd, "\n"@, ""@);
    lemma_replaced_absent(kd, " "@, "-"@);
    lemma_replaced_absent(kd, "_"@, "-"@);
    lemma_replaced_absent(kd, "/"@, ""@);
    lemma_replaced_absent(kd, "</think>"@, ""@);
    lemma_replaced_char_concat(k, seq!['.'], '.', Seq::<char>::empty());
    assert(!k.contains('.')) by {
        if k.contains('.') {
            let i = choose|i: int| 0 <= i < k.len() && k[i] == '.';
            assert(is_name_char(k[i]));
        }
    }
    lemma_replaced_absent(k, seq!['.'], Seq::<char>::empty());
    assert(seq!['.'].subrange(0, 1) =~= seq!['.']);
    assert(seq!['.'].skip(1) =~= Seq::<char>::empty());
    assert(occurs_at(seq!['.'], seq!['.'], 0));
    assert(replaced(Seq::<char>::empty(), seq!['.'], Seq::<char>::empty()) == Seq::<char>::empty());
    assert(replaced(seq!['.'], seq!['.'], Seq::<char>::empty()) =~= Seq::<char>::empty());
    assert(k + Seq::<char>::empty() =~= k);
    assert(!k.contains(',')) by {
        if k.contains(',') {
            let i = choose|i: int| 0 <= i < k.len() && k[i] == ',';
            assert(is_name_char(k[i]));
        }
    }
    lemma_replaced_absent(k, ","@, ""@);
}

proof fn lemma_literals_without_digits()
    ensures
        forall|i: int| 0 <= i < "\n"@.len() ==> !is_ascii_digit(#[trigger] "\n"@[i]),
        forall|i: int| 0 <= i < " "@.len() ==> !is_ascii_digit(#[trigger] " "@[i]),
        forall|i: int| 0 <= i < "_"@.len() ==> !is_ascii_digit(#[trigger] "_"@[i]),
        forall|i: int| 0 <= i < "/"@.len() ==> !is_ascii_digit(#[trigger] "/"@[i]),
        forall|i: int| 0 <= i < "</think>"@.len() ==> !is_ascii_digit(#[trigger] "</think>"@[i]),
        forall|i: int| 0 <= i < "."@.len() ==> !is_ascii_digit(#[trigger] "."@[i]),
        forall|i: int| 0 <= i < ","@.len() ==> !is_ascii_digit(#[trigger] ","@[i]),
        forall|i: int| 0 <= i < "-"@.len() ==> !is_ascii_digit(#[trigger] "-"@[i]),
        forall|i: int| 0 <= i < ""@.len() ==> !is_ascii_digit(#[trigger] ""@[i]),
{
    lemma_literals();
    reveal_strlit("</think>");
    assert("</think>"@ =~= seq!['<', '/', 't', 'h', 'i', 'n', 'k', '>']);
}

/// Cleaning a reply keeps every digit in it, in order: it only trims white
/// space and removes or replaces separators, none of which is a digit.
pub proof fn lemma_cleaning_keeps_digits(response: Seq<char>)
    ensures
        ascii_digits(cleaned(response)) == ascii_digits(response),
{
    lemma_literals();
    lemma_literals_without_digits();
    let s0 = trimmed(response);
    lemma_trimmed_keeps_digits(response);
    let s1 = replaced(s0, "\n"@, ""@);
    lemma_replaced_keeps_digits(s0, "\n"@, ""@);
    let s2 = replaced(s1, " "@, "-"@);
    lemma_replaced_keeps_digits(s1, " "@, "-"@);
    let s3 = replaced(s2, "_"@, "-"@);
    lemma_replaced_keeps_digits(s2, "_"@, "-"@);
    let s4 = replaced(s3, "/"@, ""@);
    lemma_replaced_keeps_digits(s3, "/"@, ""@);
    let s5 = replaced(s4, "</think>"@, ""@);
    lemma_replaced_keeps_digits(s4, "</think>"@, ""@);
    let s6 = replaced(s5, "."@, ""@);
    lemma_replaced_keeps_digits(s5, "."@, ""@);
    lemma_replaced_keeps_digits(s6, ","@, ""@);
}

/// Whether `c` is an ASCII letter or digit.
pub open spec fn is_ascii_alphanumeric(c: char) -> bool {
    let u = c as u32;
    (48 <= u <= 57) || (65 <= u <= 90) || (97 <= u <= 122)
}

/// A reply made only of ASCII letters and digits comes back from cleaning
/// unchanged.
pub proof fn lemma_cleaning_keeps_alphanumeric(response: Seq<char>)
    requires
        forall|i: int| 0 <= i < response.len() ==> is_ascii_alphanumeric(#[trigger] response[i]),
    ensures
        cleaned(response) == response,
{
    lemma_literals();
    let r = response;
    if r.len() > 0 {
        assert(is_ascii_alphanumeric(r[0]) && is_ascii_alphanumeric(r[r.len() - 1]));
    }
    assert(r.skip(0) =~= r);
    assert(r.take(r.len() as int) =~= r);
    assert(trimmed(r) == r);
    assert forall|c: char| c == '\n' || c == ' ' || c == '_' || c == '/' || c == '<' || c == '.'
        || c == ',' implies !r.contains(c) by {
        if r.contains(c) {
            let i = choose|i: int| 0 <= i < r.len() && r[i] == c;
            assert(is_ascii_alphanumeric(r[i]));
        }
    }
    lemma_replaced_absent(r, "\n"@, ""@);
    lemma_replaced_absent(r, " "@, "-"@);
    lemma_replaced_absent(r, "_"@, "-"@);
    lemma_replaced_absent(r, "/"@, ""@);
    lemma_replaced_absent(r, "</think>"@, ""@);
    lemma_replaced_absent(r, "."@, ""@);
    lemma_replaced_absent(r, ","@, ""@);
}

/// Cleans a reply of the model (see `cleaned`).
pub fn clean_response(response: &str) -> (r: String)
    ensures
        r@ == cleaned(response@),
{
    proof {
        reveal_strlit("\n");
        reveal_strlit(" ");
        reveal_strlit("_");
        reveal_strlit("/");
        reveal_strlit("</think>");
        reveal_strlit(".");
        reveal_strlit(",");
    }
    let s = trim(response);
    let s = replace_all(s.as_str(), "\n", "");
    let s = replace_all(s.as_str(), " ", "-");
    let s = replace_all(s.as_str(), "_", "-");
    let s = replace_all(s.as_str(), "/", "");
    let s = replace_all(s.as_str(), "</think>", "");
    let s = replace_all(s.as_str(), ".", "");
    replace_all(s.as_str(), ",", "")
}

/// What an identification gives: the cleaned reply when the model answered
/// (`response` is its reply), "FAILURE" when the call failed (`None`).
pub fn identify_outcome(response: Option<&str>) -> (r: String)
    ensures
        r@ == match response {
            Some(reply) => cleaned(reply@),
            None => "FAILURE"@,
        },
{
    match response {
        Some(reply) => clean_response(reply),
        None => String::from_str("FAILURE"),
    }
}

/// The answer that a training image teaches: its file name up to the first '.'.
pub fn training_label(file_name: &str) -> (r: String)
    ensures
        r@ == match find_from(file_name@, "."@, 0) {
            Some(k) => file_name@.take(k),
            None => file_name@,
        },
{
    match find(file_name, ".", 0) {
        Some(k) => {
            proof {
                reveal_strlit(".");
                crate::text::lemma_find_from_found(file_name@, "."@, 0);
            }
            String::from_str(file_name.substring_char(0, k))
        },
        None => String::from_str(file_name),
    }
}

} // verus!
