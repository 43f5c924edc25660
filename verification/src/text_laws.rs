//! What holds of texts: letters, white space, hosts, names, lists of tokens, and
//! what the messages of the library denote.
use vstd::prelude::*;
use vstd::utf8::is_ascii_chars;

use crate::config::{allow_list, listed_tokens, split_on};
use crate::frame::{
    headers_view, FieldError, FieldErrorView, FrameError, FrameErrorView, TunnelFrame,
    TunnelRequest, TunnelResponse,
};
use crate::protocol::{text_view, ClientMessage, ServerMessage};
use crate::registry::{allow_list_view, public_url, tokens_view};
use crate::subdomain::{
    are_indices, base36, domain_suffix, host_of, is_generated_name, is_name_char, is_reserved_name,
    name_char, numbered_name, spelled, subdomain_of, NAME_COUNT, NAME_LEN,
};
use crate::text::{
    ascii_lower_char, before_first, hex_of, is_white, is_white_space, lowercase, strip_end,
    strip_start, trim, unicode_lowercase,
};

verus! {

/// Lower-casing an ASCII character moves the capital letters to the small ones and
/// leaves every other character alone.
pub proof fn law_capital_letters_become_small(c: char)
    ensures
        'A' <= c && c <= 'Z' ==> ascii_lower_char(c) as u32 == c as u32 + 32,
        !('A' <= c && c <= 'Z') ==> ascii_lower_char(c) == c,
{
}

/// An ASCII text is lower-cased character by character, and any other text as
/// Unicode has it.
pub proof fn law_ascii_text_is_lowered_by_letters(text: Seq<char>)
    ensures
        is_ascii_chars(text) ==> lowercase(text).len() == text.len() && forall|i: int|
            0 <= i < text.len() ==> #[trigger] lowercase(text)[i] == ascii_lower_char(text[i]),
        !is_ascii_chars(text) ==> lowercase(text) == unicode_lowercase(text),
{
}

/// The part before the first occurrence of a character is a beginning without it,
/// and either it is all or the character follows.
pub proof fn law_part_before_a_character(text: Seq<char>, c: char)
    ensures
        ({
            let part = before_first(text, c);
            &&& !part.contains(c)
            &&& part.len() <= text.len()
            &&& part == text.take(part.len() as int)
            &&& part.len() == text.len() || text[part.len() as int] == c
        }),
{
    text.index_of_first_ensures(c);
    let part = before_first(text, c);
    if part.contains(c) {
        let i = part.index_of(c);
        assert(text[i] == c);
    }
    assert(part =~= text.take(part.len() as int));
}

/// Stripping an end takes away exactly the characters there that the predicate
/// holds of.
pub proof fn law_end_is_stripped(text: Seq<char>, p: spec_fn(char) -> bool)
    ensures
        ({
            let part = strip_end(text, p);
            &&& part.len() <= text.len()
            &&& part == text.take(part.len() as int)
            &&& forall|i: int| part.len() <= i < text.len() ==> p(#[trigger] text[i])
            &&& part.len() > 0 ==> !p(part.last())
        }),
    decreases text.len(),
{
    if text.len() > 0 && p(text.last()) {
        let init = text.drop_last();
        law_end_is_stripped(init, p);
        let part = strip_end(text, p);
        assert(part =~= text.take(part.len() as int));
        assert forall|i: int| part.len() <= i < text.len() implies p(#[trigger] text[i]) by {
            if i < init.len() {
                assert(p(init[i]));
            }
        }
    } else {
        assert(text =~= text.take(text.len() as int));
    }
}

/// Stripping a front takes away exactly the characters there that the predicate
/// holds of.
pub proof fn law_front_is_stripped(text: Seq<char>, p: spec_fn(char) -> bool)
    ensures
        ({
            let part = strip_start(text, p);
            let cut = text.len() - part.len();
            &&& cut >= 0
            &&& part == text.skip(cut)
            &&& forall|i: int| 0 <= i < cut ==> p(#[trigger] text[i])
            &&& part.len() > 0 ==> !p(part[0])
        }),
    decreases text.len(),
{
    if text.len() > 0 && p(text[0]) {
        let rest = text.drop_first();
        law_front_is_stripped(rest, p);
        let part = strip_start(text, p);
        let cut = text.len() - part.len();
        assert(part =~= text.skip(cut));
        assert forall|i: int| 0 <= i < cut implies p(#[trigger] text[i]) by {
            if i > 0 {
                assert(p(rest[i - 1]));
            }
        }
    } else {
        assert(text =~= text.skip(0));
    }
}

/// Trimming takes away exactly the white space at both ends: around what is left
/// there was nothing but white space, and what is left does not begin or end with
/// any.
pub proof fn law_white_space_is_trimmed(text: Seq<char>)
    ensures
        exists|front: Seq<char>, end: Seq<char>|
            {
                &&& text == #[trigger] (front + trim(text) + end)
                &&& forall|i: int| 0 <= i < front.len() ==> is_white_space(#[trigger] front[i])
                &&& forall|i: int| 0 <= i < end.len() ==> is_white_space(#[trigger] end[i])
            },
        trim(text).len() > 0 ==> !is_white_space(trim(text)[0]) && !is_white_space(
            trim(text).last(),
        ),
{
    let p = is_white();
    let head = strip_end(text, p);
    law_end_is_stripped(text, p);
    law_front_is_stripped(head, p);
    let cut = head.len() - trim(text).len();
    let front = head.take(cut);
    let end = text.skip(head.len() as int);
    assert(text =~= front + trim(text) + end);
    assert forall|i: int| 0 <= i < front.len() implies is_white_space(#[trigger] front[i]) by {
        assert(p(head[i]));
    }
    assert forall|i: int| 0 <= i < end.len() implies is_white_space(#[trigger] end[i]) by {
        assert(p(text[head.len() + i]));
    }
    if trim(text).len() > 0 {
        assert(trim(text).last() == head.last());
        assert(!p(head.last()) && !p(trim(text)[0]));
    }
}

/// The value of a hexadecimal digit in lower case.
pub open spec fn hex_value(c: char) -> int {
    if '0' <= c && c <= '9' {
        c as u32 - 48
    } else if 'a' <= c && c <= 'f' {
        c as u32 - 87
    } else {
        -1
    }
}

/// A byte is written as two hexadecimal digits in lower case, the high one first.
pub proof fn law_byte_is_written_in_hex(byte: u8)
    ensures
        hex_of(byte).len() == 2,
        hex_value(hex_of(byte)[0]) >= 0,
        hex_value(hex_of(byte)[1]) >= 0,
        16 * hex_value(hex_of(byte)[0]) + hex_value(hex_of(byte)[1]) == byte,
{
    assert(byte / 16 < 16 && byte % 16 < 16);
}

/// A host names a subdomain exactly when it is one label, a dot and the domain,
/// perhaps with a colon and anything behind it; and then it names the label in lower
/// case.
pub proof fn law_host_names_its_label(host: Seq<char>, domain: Seq<char>)
    ensures
        subdomain_of(host, domain) is Some <==> exists|label: Seq<char>|
            {
                &&& #[trigger] (label + "."@ + domain) == before_first(host, ':')
                &&& label.len() > 0
                &&& !label.contains('.')
            },
        forall|label: Seq<char>|
            #[trigger] (label + "."@ + domain) == before_first(host, ':') && label.len() > 0
                && !label.contains('.') ==> subdomain_of(host, domain) == Some(lowercase(label)),
{
    reveal_strlit(".");
    let part = before_first(host, ':');
    let suffix = domain_suffix(domain);
    assert forall|label: Seq<char>|
        #[trigger] (label + "."@ + domain) == part && label.len() > 0 && !label.contains(
            '.',
        ) implies subdomain_of(host, domain) == Some(lowercase(label)) by {
        assert(part =~= label + suffix);
        assert(part.subrange(part.len() - suffix.len(), part.len() as int) =~= suffix);
        assert(part.take(part.len() - suffix.len()) =~= label);
    }
    if subdomain_of(host, domain) is Some {
        let at = part.len() - suffix.len();
        let label = part.take(at);
        assert(suffix == part.subrange(at, part.len() as int));
        assert(part =~= label + suffix);
        assert(label + suffix =~= label + "."@ + domain);
        assert(label.len() > 0 && !label.contains('.'));
    }
}

/// Five names are reserved, and no others.
pub proof fn law_five_names_are_reserved(name: Seq<char>)
    ensures
        is_reserved_name(name) <==> seq!["new"@, "www"@, "api"@, "admin"@, "app"@].contains(name),
{
    let names = seq!["new"@, "www"@, "api"@, "admin"@, "app"@];
    if is_reserved_name(name) {
        assert(names[0] == "new"@ && names[1] == "www"@ && names[2] == "api"@ && names[3]
            == "admin"@ && names[4] == "app"@);
    }
}

/// The host of a tunnel and its public URL.
pub proof fn law_public_url_is_the_host(name: Seq<char>, domain: Seq<char>)
    ensures
        host_of(name, domain) == name + "."@ + domain,
        public_url(name, domain) == "https://"@ + (name + "."@ + domain),
{
    assert(public_url(name, domain) =~= "https://"@ + (name + "."@ + domain));
}

/// Draws are spelled one character each: the first ten as digits, the others as
/// small letters.
pub proof fn law_draws_are_spelled(draws: Seq<u8>)
    requires
        are_indices(draws),
    ensures
        spelled(draws).len() == draws.len(),
        forall|i: int|
            0 <= i < draws.len() ==> (#[trigger] spelled(draws)[i]) as u32 == if draws[i] < 10 {
                48 + draws[i] as u32
            } else {
                87 + draws[i] as u32
            },
{
    assert forall|i: int| 0 <= i < draws.len() implies (#[trigger] spelled(draws)[i]) as u32
        == if draws[i] < 10 {
        48 + draws[i] as u32
    } else {
        87 + draws[i] as u32
    } by {
        assert(draws[i] < 36);
    }
}

/// The generated names are the texts of eight digits and small letters, and each of
/// them can be drawn.
pub proof fn law_every_generated_name_can_be_drawn(name: Seq<char>)
    ensures
        is_generated_name(name) <==> name.len() == 8 && (forall|i: int|
            0 <= i < name.len() ==> (('0' <= #[trigger] name[i] && name[i] <= '9') || ('a'
                <= name[i] && name[i] <= 'z'))),
        is_generated_name(name) <==> exists|draws: Seq<u8>|
            draws.len() == 8 && are_indices(draws) && #[trigger] spelled(draws) == name,
{
    if is_generated_name(name) {
        let draws = Seq::new(
            8,
            |i: int|
                if name[i] <= '9' {
                    (name[i] as u32 - 48) as u8
                } else {
                    (name[i] as u32 - 87) as u8
                },
        );
        assert forall|i: int| 0 <= i < 8 implies #[trigger] draws[i] < 36 && name_char(
            draws[i] as nat,
        ) == name[i] by {
            assert(is_name_char(name[i]));
        }
        assert(spelled(draws) =~= name);
        assert(are_indices(draws));
    }
    if exists|draws: Seq<u8>|
        draws.len() == 8 && are_indices(draws) && #[trigger] spelled(draws) == name {
        let draws = choose|draws: Seq<u8>|
            draws.len() == 8 && are_indices(draws) && #[trigger] spelled(draws) == name;
        law_draws_are_spelled(draws);
        assert forall|i: int| 0 <= i < name.len() implies is_name_char(#[trigger] name[i]) by {
            assert(spelled(draws)[i] == name[i]);
            assert(draws[i] < 36);
        }
    }
}

/// The number that digits denote in base 36.
spec fn base36_value(digits: Seq<u8>) -> nat
    decreases digits.len(),
{
    if digits.len() == 0 {
        0
    } else {
        base36_value(digits.drop_last()) * 36 + digits.last() as nat
    }
}

spec fn power36(len: nat) -> nat
    decreases len,
{
    if len == 0 {
        1
    } else {
        36 * power36((len - 1) as nat)
    }
}

proof fn lemma_base36(v: nat, len: nat)
    requires
        v < power36(len),
    ensures
        base36(v, len).len() == len,
        base36_value(base36(v, len)) == v,
        are_indices(base36(v, len)),
    decreases len,
{
    if len > 0 {
        let w = (len - 1) as nat;
        lemma_base36(v / 36, w);
        assert(base36(v, len).drop_last() =~= base36(v / 36, w));
    }
}

/// Different numbers give different names.
pub proof fn law_numbers_give_different_names(a: nat, b: nat)
    requires
        a < NAME_COUNT,
        b < NAME_COUNT,
        numbered_name(a) == numbered_name(b),
    ensures
        a == b,
{
    reveal_with_fuel(power36, 9);
    let len = NAME_LEN as nat;
    lemma_base36(a, len);
    lemma_base36(b, len);
    let x = base36(a, len);
    let y = base36(b, len);
    law_draws_are_spelled(x);
    law_draws_are_spelled(y);
    assert forall|i: int| 0 <= i < x.len() implies x[i] == y[i] by {
        assert(spelled(x)[i] == spelled(y)[i]);
        assert(x[i] < 36 && y[i] < 36);
    }
    assert(x =~= y);
}

proof fn lemma_split(front: Seq<char>, rest: Seq<char>, c: char)
    requires
        !front.contains(c),
    ensures
        split_on(front + seq![c] + rest, c) == seq![front] + split_on(rest, c),
        split_on(front, c) == seq![front],
{
    let all = front + seq![c] + rest;
    all.index_of_first_ensures(c);
    front.index_of_first_ensures(c);
    assert(all[front.len() as int] == c);
    assert(all.contains(c));
    let at = all.index_of_first(c)->0;
    if at < front.len() {
        assert(front[at] == c);
    }
    assert(at == front.len());
    assert(all.take(at) =~= front);
    assert(all.skip(at + 1) =~= rest);
}

/// A text without a comma lists at most one token: what is left of it without white
/// space around it, if that is anything.
pub proof fn law_one_token(text: Seq<char>)
    requires
        !text.contains(','),
    ensures
        listed_tokens(text) == if trim(text).len() > 0 {
            seq![trim(text)]
        } else {
            Seq::empty()
        },
{
    reveal_with_fuel(Seq::filter, 3);
    lemma_split(text, Seq::empty(), ',');
    let mapped = split_on(text, ',').map_values(|piece: Seq<char>| trim(piece));
    assert(mapped =~= seq![trim(text)]);
    assert(mapped.drop_last() =~= Seq::empty());
    assert(listed_tokens(text) =~= if trim(text).len() > 0 {
        seq![trim(text)]
    } else {
        Seq::empty()
    });
}

/// A comma separates tokens: what is listed before it comes first, then what is
/// listed behind it.
pub proof fn law_commas_separate_tokens(front: Seq<char>, rest: Seq<char>)
    requires
        !front.contains(','),
    ensures
        listed_tokens(front + seq![','] + rest) == listed_tokens(front) + listed_tokens(rest),
{
    lemma_split(front, rest, ',');
    let trimmed = |piece: Seq<char>| trim(piece);
    let kept = |token: Seq<char>| token.len() > 0;
    let a = split_on(front, ',').map_values(trimmed);
    let b = split_on(rest, ',').map_values(trimmed);
    let all = split_on(front + seq![','] + rest, ',').map_values(trimmed);
    assert(all =~= a + b);
    Seq::filter_distributes_over_add(a, b, kept);
}

/// There is an allow-list exactly when a setting lists at least one token, and then
/// it is what the setting lists.
pub proof fn law_setting_gives_the_allow_list(setting: Option<Seq<char>>)
    ensures
        allow_list(setting) is Some <==> setting is Some && listed_tokens(setting->0).len() > 0,
        allow_list(setting) matches Some(list) ==> list == listed_tokens(setting->0),
{
}

/// Requests that denote the same have the same method, URI, headers and body.
pub proof fn law_request_denotes_all_of_it(a: TunnelRequest, b: TunnelRequest)
    requires
        a@ == b@,
    ensures
        a.method@ == b.method@,
        a.uri@ == b.uri@,
        a.body@ == b.body@,
        a.headers@.len() == b.headers@.len(),
        forall|i: int|
            0 <= i < a.headers@.len() ==> (#[trigger] a.headers@[i]).0@ == b.headers@[i].0@
                && a.headers@[i].1@ == b.headers@[i].1@,
{
    law_headers_denote_all_of_them(a.headers@, b.headers@);
}

/// Responses that denote the same have the same status, headers and body.
pub proof fn law_response_denotes_all_of_it(a: TunnelResponse, b: TunnelResponse)
    requires
        a@ == b@,
    ensures
        a.status == b.status,
        a.body@ == b.body@,
        a.headers@.len() == b.headers@.len(),
        forall|i: int|
            0 <= i < a.headers@.len() ==> (#[trigger] a.headers@[i]).0@ == b.headers@[i].0@
                && a.headers@[i].1@ == b.headers@[i].1@,
{
    law_headers_denote_all_of_them(a.headers@, b.headers@);
}

/// Headers that denote the same have the same names and values in the same order.
pub proof fn law_headers_denote_all_of_them(
    a: Seq<(String, Vec<u8>)>,
    b: Seq<(String, Vec<u8>)>,
)
    requires
        headers_view(a) == headers_view(b),
    ensures
        a.len() == b.len(),
        forall|i: int|
            0 <= i < a.len() ==> (#[trigger] a[i]).0@ == b[i].0@ && a[i].1@ == b[i].1@,
{
    assert(headers_view(a).len() == a.len() && headers_view(b).len() == b.len());
    assert forall|i: int| 0 <= i < a.len() implies (#[trigger] a[i]).0@ == b[i].0@ && a[i].1@
        == b[i].1@ by {
        assert(headers_view(a)[i] == headers_view(b)[i]);
    }
}

/// Frames that denote the same carry the same: a request, a response or an error.
pub proof fn law_frame_denotes_all_of_it(a: TunnelFrame, b: TunnelFrame)
    requires
        a@ == b@,
    ensures
        a matches TunnelFrame::Request(x) ==> (b matches TunnelFrame::Request(y) && x@ == y@),
        a matches TunnelFrame::Response(x) ==> (b matches TunnelFrame::Response(y) && x@ == y@),
        a matches TunnelFrame::Error(x) ==> (b matches TunnelFrame::Error(y) && x.message@
            == y.message@),
{
}

/// What an error of a field denotes has the same kind and the same words.
pub proof fn law_field_error_denotes_all_of_it(e: FieldError)
    ensures
        match e {
            FieldError::TruncatedStringLength => e@ is TruncatedStringLength,
            FieldError::TruncatedStringData => e@ is TruncatedStringData,
            FieldError::InvalidUtf8(words) => e@ == FieldErrorView::InvalidUtf8(words@)
                && e@.message() == words@,
            FieldError::TruncatedHeaderCount => e@ is TruncatedHeaderCount,
            FieldError::TruncatedHeaderValueLength => e@ is TruncatedHeaderValueLength,
            FieldError::TruncatedHeaderValue => e@ is TruncatedHeaderValue,
            FieldError::TruncatedBodyLength => e@ is TruncatedBodyLength,
            FieldError::TruncatedBodyData => e@ is TruncatedBodyData,
        },
{
}

/// What an error of a frame denotes has the same kind, about the same field; and its
/// words name the field, whatever is wrong with it, or the unknown type.
pub proof fn law_frame_error_denotes_all_of_it(e: FrameError)
    ensures
        match e {
            FrameError::TooShort => e@ is TooShort && e@.message()
                == "frame too short: need at least 17 bytes"@,
            FrameError::Method(field) => e@ == FrameErrorView::Method(field@) && e@.message()
                == "method"@,
            FrameError::Uri(field) => e@ == FrameErrorView::Uri(field@) && e@.message() == "uri"@,
            FrameError::Headers(field) => e@ == FrameErrorView::Headers(field@) && e@.message()
                == "headers"@,
            FrameError::Body(field) => e@ == FrameErrorView::Body(field@) && e@.message()
                == "body"@,
            FrameError::TruncatedStatus => e@ is TruncatedStatus && e@.message()
                == "truncated response status"@,
            FrameError::ErrorMessage(field) => e@ == FrameErrorView::ErrorMessage(field@)
                && e@.message() == "error message"@,
            FrameError::UnknownType(kind) => e@ == FrameErrorView::UnknownType(kind)
                && e@.message() == "unknown frame type: 0x"@ + hex_of(kind),
        },
{
}

/// Optional texts that denote the same are both there, with the same text, or both
/// absent.
pub proof fn law_optional_text_denotes_all_of_it(a: Option<String>, b: Option<String>)
    requires
        text_view(a) == text_view(b),
    ensures
        match (a, b) {
            (Some(x), Some(y)) => x@ == y@,
            (None, None) => true,
            _ => false,
        },
{
}

/// Lists of tokens that denote the same have the same tokens in the same order.
pub proof fn law_allow_list_denotes_all_of_it(a: Option<Vec<String>>, b: Option<Vec<String>>)
    requires
        allow_list_view(a) == allow_list_view(b),
    ensures
        match (a, b) {
            (Some(x), Some(y)) => x@.len() == y@.len() && forall|i: int|
                0 <= i < x@.len() ==> (#[trigger] x@[i])@ == y@[i]@,
            (None, None) => true,
            _ => false,
        },
{
    if let (Some(x), Some(y)) = (a, b) {
        assert(tokens_view(x@) == tokens_view(y@));
        assert(tokens_view(x@).len() == x@.len() && tokens_view(y@).len() == y@.len());
        assert forall|i: int| 0 <= i < x@.len() implies (#[trigger] x@[i])@ == y@[i]@ by {
            assert(tokens_view(x@)[i] == tokens_view(y@)[i]);
        }
    }
}

/// Messages of a client that denote the same are the same in every field.
pub proof fn law_client_message_denotes_all_of_it(a: ClientMessage, b: ClientMessage)
    requires
        a@ == b@,
    ensures
        match (a, b) {
            (
                ClientMessage::Hello { token: t1, requested_subdomain: r1 },
                ClientMessage::Hello { token: t2, requested_subdomain: r2 },
            ) => text_view(t1) == text_view(t2) && text_view(r1) == text_view(r2),
            (
                ClientMessage::Accept { stream_id: x },
                ClientMessage::Accept { stream_id: y },
            ) => x == y,
            (ClientMessage::Heartbeat, ClientMessage::Heartbeat) => true,
            _ => false,
        },
{
}

/// Messages of a server that denote the same are the same in every field.
pub proof fn law_server_message_denotes_all_of_it(a: ServerMessage, b: ServerMessage)
    requires
        a@ == b@,
    ensures
        match (a, b) {
            (
                ServerMessage::Assigned { subdomain: s1, url: u1 },
                ServerMessage::Assigned { subdomain: s2, url: u2 },
            ) => s1@ == s2@ && u1@ == u2@,
            (
                ServerMessage::NewConnection { stream_id: x },
                ServerMessage::NewConnection { stream_id: y },
            ) => x == y,
            (ServerMessage::Heartbeat, ServerMessage::Heartbeat) => true,
            (ServerMessage::Error { message: x }, ServerMessage::Error { message: y }) => x@ == y@,
            _ => false,
        },
{
}

} // verus!
