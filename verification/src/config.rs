//! The configuration of the server.
use vstd::prelude::*;
use vstd::string::StrSliceExecFns;

use crate::registry::{allow_list_view, tokens_view};
use crate::protocol::text_view;
use crate::text::{chars_of, find_char, trim, trim_bounds};

verus! {

/// What the server is started with.
pub struct ServerConfig {
    /// The domain that the tunnels' subdomains are below.
    pub domain: String,
    /// The address to listen on.
    pub listen: String,
    /// The tokens of those who may open a tunnel. Without a list everybody may.
    pub allowed_tokens: Option<Vec<String>>,
}

/// The pieces of a string between the occurrences of a character.
pub open spec fn split_on(s: Seq<char>, c: char) -> Seq<Seq<char>>
    decreases s.len(),
{
    match s.index_of_first(c) {
        Some(i) if 0 <= i < s.len() => seq![s.take(i)] + split_on(s.skip(i + 1), c),
        _ => seq![s],
    }
}

/// The tokens on a comma-separated list, without the white space around them.
/// Empty ones do not count.
pub open spec fn listed_tokens(text: Seq<char>) -> Seq<Seq<char>> {
    split_on(text, ',').map_values(|piece: Seq<char>| trim(piece)).filter(
        |token: Seq<char>| token.len() > 0,
    )
}

/// The allow-list that a setting gives: none when it is unset or empty.
pub open spec fn allow_list(setting: Option<Seq<char>>) -> Option<Seq<Seq<char>>> {
    match setting {
        Some(text) if listed_tokens(text).len() > 0 => Some(listed_tokens(text)),
        _ => None,
    }
}

/// Reads a comma-separated list of tokens.
pub fn split_tokens(text: &str) -> (tokens: Vec<String>)
    ensures
        tokens_view(tokens@) == listed_tokens(text@),
{
    let chars = chars_of(text);
    let len: usize = chars.len();
    let mut tokens: Vec<String> = Vec::new();
    let mut from: usize = 0;
    let ghost trimmed = |piece: Seq<char>| trim(piece);
    let ghost kept = |token: Seq<char>| token.len() > 0;
    let ghost mut done: Seq<Seq<char>> = Seq::empty();
    proof {
        reveal(Seq::filter);
        assert(chars@.skip(0) =~= text@);
        assert(done + split_on(text@, ',') =~= split_on(text@, ','));
        assert(tokens_view(tokens@) =~= done.map_values(trimmed).filter(kept));
    }
    loop
        invariant
            from <= chars@.len() == len,
            chars@ == text@,
            trimmed == (|piece: Seq<char>| trim(piece)),
            kept == (|token: Seq<char>| token.len() > 0),
            done + split_on(chars@.skip(from as int), ',') == split_on(text@, ','),
            tokens_view(tokens@) == done.map_values(trimmed).filter(kept),
        decreases chars@.len() - from,
    {
        let ghost rest = chars@.skip(from as int);
        let found = find_char(&chars, from, ',');
        let to: usize = match found {
            Some(i) => i,
            None => len,
        };
        let (start, end) = trim_bounds(&chars, from, to);
        let ghost piece = rest.take(to - from);
        let ghost before = tokens_view(tokens@);
        assert(piece =~= chars@.subrange(from as int, to as int));
        if start < end {
            tokens.push(text.substring_char(start, end).to_owned());
            assert(tokens_view(tokens@) =~= before.push(trim(piece)));
        }
        proof {
            reveal(Seq::filter);
            let mapped = done.push(piece).map_values(trimmed);
            assert(mapped =~= done.map_values(trimmed).push(trim(piece)));
            assert(mapped.drop_last() =~= done.map_values(trimmed));
            assert(tokens_view(tokens@) == mapped.filter(kept));
        }
        match found {
            Some(i) => {
                proof {
                    let tail = split_on(chars@.skip(i + 1), ',');
                    assert(rest.skip(i - from + 1) =~= chars@.skip(i + 1));
                    assert(done + (seq![piece] + tail) =~= done.push(piece) + tail);
                    done = done.push(piece);
                }
                from = i + 1;
            },
            None => {
                proof {
                    assert(piece =~= rest);
                    assert(done + seq![piece] =~= done.push(piece));
                }
                return tokens;
            },
        }
    }
}

/// Reads the setting that lists the allowed tokens. No authentication is
/// required when it is unset or when there is no token on the list.
pub fn parse_auth_tokens(setting: Option<String>) -> (tokens: Option<Vec<String>>)
    ensures
        allow_list_view(tokens) == allow_list(text_view(setting)),
{
    match setting {
        Some(text) => {
            let tokens = split_tokens(text.as_str());
            if tokens.len() > 0 {
                Some(tokens)
            } else {
                None
            }
        },
        None => None,
    }
}

} // verus!
