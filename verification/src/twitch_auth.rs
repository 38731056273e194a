//! The parts of the Twitch sign-in that are decisions on text: the addresses
//! built from the settings, whether a saved token is still good, and what the
//! browser's redirect to the local listener carries.
use vstd::prelude::*;
use vstd::string::*;
use crate::text::{
    decimal, find, find_from, lemma_find_from_found, occurs_at, push_char, push_decimal,
    replace_all, replaced,
};

verus! {

/// Where Twitch sends the browser back to after sign-in.
pub fn redirect_uri(port: u16) -> (r: String)
    ensures
        r@ == "http://localhost:"@ + decimal(port as nat),
{
    let mut r = String::from_str("http://localhost:");
    push_decimal(&mut r, port as u64);
    r
}

/// The address the local listener binds to.
pub fn tcp_uri(port: u16) -> (r: String)
    ensures
        r@ == "127.0.0.1:"@ + decimal(port as nat),
{
    let mut r = String::from_str("127.0.0.1:");
    push_decimal(&mut r, port as u64);
    r
}

/// The sign-in page the browser is sent to, asking to read and write chat.
pub fn auth_url(client_id: &str, redirect_uri: &str) -> (r: String)
    ensures
        r@ == "https://id.twitch.tv/oauth2/authorize?client_id="@ + client_id@
            + "&redirect_uri="@ + redirect_uri@
            + "&response_type=code&scope=chat:read%20chat:edit"@,
{
    let mut r = String::from_str("https://id.twitch.tv/oauth2/authorize?client_id=");
    r.append(client_id);
    r.append("&redirect_uri=");
    r.append(redirect_uri);
    r.append("&response_type=code&scope=chat:read%20chat:edit");
    r
}

/// A saved token is still good while `now` is before its retrieval time plus
/// its lifetime (all in seconds).
pub fn token_still_valid(now: u64, retrieval_time: u64, expires_in: u64) -> (b: bool)
    requires
        retrieval_time + expires_in <= u64::MAX,
    ensures
        b == (now < retrieval_time + expires_in),
{
    now < retrieval_time + expires_in
}

/// A token kept between runs: the token, its lifetime and when it was
/// retrieved (both in seconds).
#[derive(Clone, Debug, PartialEq, Eq)]
pub struct StoredToken {
    pub token: String,
    pub expires_in: u64,
    pub retrieval_time: u64,
}

/// The saved token that may be used at `now`: a saved one still good then.
pub open spec fn cached(stored: Option<StoredToken>, now: u64) -> Option<Seq<char>> {
    match stored {
        Some(s) => if now < s.retrieval_time + s.expires_in {
            Some(s.token@)
        } else {
            None
        },
        None => None,
    }
}

/// The saved token to use at `now`, if one was saved and is still good;
/// otherwise the bot has to sign in again.
pub fn cached_token(stored: &Option<StoredToken>, now: u64) -> (r: Option<String>)
    requires
        stored matches Some(s) ==> s.retrieval_time + s.expires_in <= u64::MAX,
    ensures
        match r {
            Some(t) => cached(*stored, now) == Some(t@),
            None => cached(*stored, now) is None,
        },
{
    match stored {
        Some(s) => {
            if token_still_valid(now, s.retrieval_time, s.expires_in) {
                Some(s.token.clone())
            } else {
                None
            }
        },
        None => None,
    }
}

/// The record saved for a token retrieved at `now` that lasts `expires_in`.
pub fn save_token(token: String, expires_in: u64, now: u64) -> (s: StoredToken)
    ensures
        s.token == token,
        s.expires_in == expires_in,
        s.retrieval_time == now,
{
    StoredToken { token, expires_in, retrieval_time: now }
}

/// A token saved at some time is used again at every later moment before
/// its lifetime ends, and not from then on.
pub proof fn lemma_saved_token_reused(token: String, expires_in: u64, saved_at: u64, later: u64)
    requires
        saved_at + expires_in <= u64::MAX,
    ensures
        ({
            let s = StoredToken { token, expires_in, retrieval_time: saved_at };
            &&& later < saved_at + expires_in ==> cached(Some(s), later) == Some(token@)
            &&& later >= saved_at + expires_in ==> cached(Some(s), later) is None
        }),
{
}

/// The form that trades the sign-in code for a token.
pub fn token_form(client_id: &str, client_secret: &str, code: &str, redirect_uri: &str) -> (v:
    Vec<(String, String)>)
    ensures
        v@.len() == 5,
        v@[0].0@ == "client_id"@ && v@[0].1@ == client_id@,
        v@[1].0@ == "client_secret"@ && v@[1].1@ == client_secret@,
        v@[2].0@ == "code"@ && v@[2].1@ == code@,
        v@[3].0@ == "grant_type"@ && v@[3].1@ == "authorization_code"@,
        v@[4].0@ == "redirect_uri"@ && v@[4].1@ == redirect_uri@,
{
    let mut v: Vec<(String, String)> = Vec::new();
    v.push((String::from_str("client_id"), String::from_str(client_id)));
    v.push((String::from_str("client_secret"), String::from_str(client_secret)));
    v.push((String::from_str("code"), String::from_str(code)));
    v.push((String::from_str("grant_type"), String::from_str("authorization_code")));
    v.push((String::from_str("redirect_uri"), String::from_str(redirect_uri)));
    v
}

/// The first line of `s` as `str::lines` gives it: up to the first '\n',
/// without a '\r' right before that '\n'; `None` for the empty string.
pub open spec fn first_line_of(s: Seq<char>) -> Option<Seq<char>> {
    if s.len() == 0 {
        None
    } else {
        match find_from(s, seq!['\n'], 0) {
            Some(k) => if k > 0 && s[k - 1] == '\r' {
                Some(s.take(k - 1))
            } else {
                Some(s.take(k))
            },
            None => Some(s),
        }
    }
}

/// The first line of a request.
pub fn first_line(s: &str) -> (r: Option<String>)
    ensures
        match r {
            Some(l) => first_line_of(s@) == Some(l@),
            None => first_line_of(s@) is None,
        },
{
    let n = s.unicode_len();
    if n == 0 {
        return None;
    }
    let newline = "\n";
    proof {
        reveal_strlit("\n");
        assert(newline@ =~= seq!['\n']);
    }
    let end = match find(s, newline, 0) {
        Some(k) => {
            proof {
                lemma_find_from_found(s@, newline@, 0);
            }
            if k > 0 && s.get_char(k - 1) == '\r' {
                k - 1
            } else {
                k
            }
        },
        None => n,
    };
    proof {
        assert(s@.take(n as int) =~= s@);
    }
    Some(String::from_str(s.substring_char(0, end)))
}

/// Whether `c` ends a query value in the redirect line ('&' or ' ').
pub open spec fn is_value_end(c: char) -> bool {
    c == '&' || c == ' '
}

/// The length of the part of `s` before the first '&' or ' '.
pub open spec fn value_len(s: Seq<char>) -> nat
    decreases s.len(),
{
    if s.len() == 0 || is_value_end(s[0]) {
        0
    } else {
        1 + value_len(s.drop_first())
    }
}

/// The second piece of `s` split at `pat`, as `s.split(pat).nth(1)` gives
/// it: what follows the first occurrence, up to the next one.
pub open spec fn second_piece(s: Seq<char>, pat: Seq<char>) -> Option<Seq<char>> {
    match find_from(s, pat, 0) {
        None => None,
        Some(k) => {
            let rest = s.skip(k + pat.len());
            match find_from(rest, pat, 0) {
                Some(k2) => Some(rest.take(k2)),
                None => Some(rest),
            }
        },
    }
}

fn second_piece_of(s: &str, pat: &str) -> (r: Option<String>)
    requires
        pat@.len() > 0,
    ensures
        match r {
            Some(p) => second_piece(s@, pat@) == Some(p@),
            None => second_piece(s@, pat@) is None,
        },
{
    match find(s, pat, 0) {
        None => None,
        Some(k) => {
            proof {
                lemma_find_from_found(s@, pat@, 0);
            }
            let n = s.unicode_len();
            let m = pat.unicode_len();
            let rest = s.substring_char(k + m, n);
            assert(rest@ =~= s@.skip(k + pat@.len()));
            match find(rest, pat, 0) {
                Some(k2) => {
                    proof {
                        lemma_find_from_found(rest@, pat@, 0);
                    }
                    Some(String::from_str(rest.substring_char(0, k2)))
                },
                None => Some(String::from_str(rest)),
            }
        },
    }
}

/// The part of `s` before the first '&' or ' '.
fn value_prefix(s: &str) -> (r: String)
    ensures
        r@ == s@.take(value_len(s@) as int),
{
    let n = s.unicode_len();
    let mut i: usize = 0;
    assert(s@.skip(0) =~= s@);
    while i < n && s.get_char(i) != '&' && s.get_char(i) != ' '
        invariant
            n == s@.len(),
            i <= n,
            value_len(s@) == i + value_len(s@.skip(i as int)),
        decreases n - i,
    {
        assert(s@.skip(i as int).drop_first() =~= s@.skip(i + 1));
        i = i + 1;
    }
    assert(value_len(s@.skip(i as int)) == 0);
    String::from_str(s.substring_char(0, i))
}

proof fn lemma_value_len_prefix(s: Seq<char>, c: Seq<char>)
    requires
        c.len() <= s.len(),
        s.take(c.len() as int) == c,
        forall|i: int| 0 <= i < c.len() ==> !is_value_end(#[trigger] c[i]),
        c.len() == s.len() || is_value_end(s[c.len() as int]),
    ensures
        value_len(s) == c.len(),
    decreases c.len(),
{
    if c.len() > 0 {
        assert(s[0] == s.take(c.len() as int)[0]);
        let s1 = s.drop_first();
        let c1 = c.drop_first();
        assert(s1.take(c1.len() as int) =~= c1) by {
            assert forall|i: int| 0 <= i < c1.len() implies s1.take(c1.len() as int)[i] == c1[i] by {
                assert(s.take(c.len() as int)[i + 1] == s[i + 1]);
            }
        }
        assert forall|i: int| 0 <= i < c1.len() implies !is_value_end(#[trigger] c1[i]) by {
            assert(c1[i] == c[i + 1]);
        }
        lemma_value_len_prefix(s1, c1);
    }
}

/// A redirect line without "error_description=" whose first "code=" is
/// followed by `c`, where `c` holds no '&', ' ' or "code=" and is ended by
/// '&', ' ' or the end of the line, carries the code `c` (so
/// `parse_redirect` gives `Redirect::Code(c)`).
pub proof fn lemma_redirect_code(line: Seq<char>, k: int, c: Seq<char>)
    requires
        find_from(line, "error_description="@, 0) is None,
        find_from(line, "code="@, 0) == Some(k),
        ({
            let rest = line.skip(k + "code="@.len());
            &&& c.len() <= rest.len()
            &&& rest.take(c.len() as int) == c
            &&& c.len() == rest.len() || is_value_end(rest[c.len() as int])
        }),
        forall|i: int| 0 <= i < c.len() ==> !is_value_end(#[trigger] c[i]),
        find_from(c, "code="@, 0) is None,
    ensures
        second_piece(line, "error_description="@) is None,
        second_piece(line, "code="@) matches Some(r) && r.take(value_len(r) as int) == c,
{
    reveal_strlit("code=");
    let pat = "code="@;
    assert(pat =~= seq!['c', 'o', 'd', 'e', '=']);
    lemma_find_from_found(line, pat, 0);
    let rest = line.skip(k + pat.len());
    lemma_find_from_found(c, pat, 0);
    lemma_find_from_found(rest, pat, 0);
    match find_from(rest, pat, 0) {
        None => {
            lemma_value_len_prefix(rest, c);
        },
        Some(k2) => {
            if k2 < c.len() {
                if k2 + pat.len() > c.len() {
                    let j = c.len() - k2;
                    assert(rest.subrange(k2, k2 + pat.len())[j] == rest[c.len() as int]);
                    assert(!is_value_end(pat[j]));
                }
                assert(c.subrange(k2, k2 + pat.len()) =~= rest.subrange(k2, k2 + pat.len())) by {
                    assert forall|i: int| 0 <= i < pat.len() implies #[trigger] c.subrange(
                        k2,
                        k2 + pat.len(),
                    )[i] == rest.subrange(k2, k2 + pat.len())[i] by {
                        assert(rest.take(c.len() as int)[k2 + i] == rest[k2 + i]);
                    }
                }
                assert(occurs_at(c, pat, k2));
            }
            let r = rest.take(k2);
            assert(r.take(c.len() as int) =~= c) by {
                assert forall|i: int| 0 <= i < c.len() implies r.take(c.len() as int)[i] == c[i] by {
                    assert(rest.take(c.len() as int)[i] == rest[i]);
                }
            }
            if k2 > c.len() {
                assert(r[c.len() as int] == rest[c.len() as int]);
            }
            lemma_value_len_prefix(r, c);
        },
    }
}

/// What the redirect line tells: the sign-in was refused (with Twitch's
/// message, '+' read as space), or it carries a code, or it carries neither.
#[derive(Clone, Debug, PartialEq, Eq)]
pub enum Redirect {
    Refused(String),
    Code(String),
    NoCode,
}

/// Reads the first line of the redirect request.
pub fn parse_redirect(line: &str) -> (r: Redirect)
    ensures
        match second_piece(line@, "error_description="@) {
            Some(err) => r matches Redirect::Refused(msg) && msg@ == replaced(
                err.take(value_len(err) as int),
                "+"@,
                " "@,
            ),
            None => match second_piece(line@, "code="@) {
                Some(rest) => r matches Redirect::Code(code) && code@ == rest.take(
                    value_len(rest) as int,
                ),
                None => r is NoCode,
            },
        },
{
    proof {
        reveal_strlit("error_description=");
        reveal_strlit("code=");
        reveal_strlit("+");
    }
    match second_piece_of(line, "error_description=") {
        Some(err) => {
            let msg = value_prefix(err.as_str());
            Redirect::Refused(replace_all(msg.as_str(), "+", " "))
        },
        None => match second_piece_of(line, "code=") {
            Some(rest) => Redirect::Code(value_prefix(rest.as_str())),
            None => Redirect::NoCode,
        },
    }
}

} // verus!
