//! The names that tunnels are reached under.
use rand::Rng;
use vstd::prelude::*;
use vstd::string::StrSliceExecFns;
use vstd::utf8::is_ascii_chars;

use crate::text::{ascii_text, before_first, chars_of, find_char, lowercase, str_eq, to_lowercase};

verus! {

/// What stands before the domain: a dot and the domain itself.
pub open spec fn domain_suffix(domain: Seq<char>) -> Seq<char> {
    seq!['.'] + domain
}

/// The subdomain that a Host header names below `domain`, in lower case. A port
/// does not matter. There is none for the domain itself, for a host elsewhere,
/// nor for a name of more than one label.
pub open spec fn subdomain_of(host: Seq<char>, domain: Seq<char>) -> Option<Seq<char>> {
    let name = before_first(host, ':');
    let suffix = domain_suffix(domain);
    let label = name.take(name.len() - suffix.len());
    if suffix.is_suffix_of(name) && label.len() > 0 && !label.contains('.') {
        Some(lowercase(label))
    } else {
        None
    }
}

/// Extracts the subdomain from the value of a Host header:
/// "abc123.example.com" below "example.com" names "abc123".
pub fn extract_subdomain(host: &str, domain: &str) -> (subdomain: Option<String>)
    ensures
        match subdomain {
            Some(name) => subdomain_of(host@, domain@) == Some(name@),
            None => subdomain_of(host@, domain@) is None,
        },
{
    let host_chars = chars_of(host);
    let domain_chars = chars_of(domain);
    assert(host_chars@.skip(0) =~= host@);
    let end: usize = match find_char(&host_chars, 0, ':') {
        Some(i) => i,
        None => host_chars.len(),
    };
    let ghost name = before_first(host@, ':');
    let ghost suffix = domain_suffix(domain@);
    assert(name =~= host@.take(end as int));
    if end <= domain_chars.len() {
        return None;
    }
    let dot: usize = end - domain_chars.len() - 1;
    let ghost label = name.take(name.len() - suffix.len());
    assert(name.len() - suffix.len() == dot);
    if dot == 0 {
        return None;
    }
    if host_chars[dot] != '.' {
        proof {
            assert(name[dot as int] != suffix[0]);
        }
        return None;
    }
    let mut i: usize = 0;
    while i < domain_chars.len()
        invariant
            i <= domain_chars@.len(),
            domain_chars@ == domain@,
            host_chars@ == host@,
            end <= host_chars@.len(),
            dot + 1 + domain_chars@.len() == end,
            name == host@.take(end as int),
            suffix == domain_suffix(domain@),
            subdomain_of(host@, domain@) is Some ==> suffix.is_suffix_of(name),
            forall|j: int| 0 <= j < i ==> host_chars@[dot + 1 + j] == domain_chars@[j],
        decreases domain_chars@.len() - i,
    {
        if host_chars[dot + 1 + i] != domain_chars[i] {
            proof {
                if suffix.is_suffix_of(name) {
                    let tail = name.subrange(name.len() - suffix.len(), name.len() as int);
                    assert(tail[i + 1] == name[dot + 1 + i]);
                    assert(suffix[i + 1] == domain@[i as int]);
                }
            }
            return None;
        }
        i += 1;
    }
    assert(suffix =~= name.subrange(name.len() - suffix.len(), name.len() as int));
    let mut k: usize = 0;
    while k < dot
        invariant
            k <= dot < host_chars@.len(),
            host_chars@ == host@,
            label =~= host@.take(dot as int),
            subdomain_of(host@, domain@) is Some ==> !label.contains('.'),
            forall|j: int| 0 <= j < k ==> host_chars@[j] != '.',
        decreases dot - k,
    {
        if host_chars[k] == '.' {
            assert(label[k as int] == '.');
            return None;
        }
        k += 1;
    }
    assert(!label.contains('.'));
    assert(host@.subrange(0, dot as int) =~= label);
    Some(to_lowercase(host.substring_char(0, dot)))
}

/// The names that no tunnel can claim.
pub open spec fn is_reserved_name(name: Seq<char>) -> bool {
    ||| name == "new"@
    ||| name == "www"@
    ||| name == "api"@
    ||| name == "admin"@
    ||| name == "app"@
}

/// Whether a name is one of those that no tunnel can claim.
pub fn is_reserved(name: &str) -> (reserved: bool)
    ensures
        reserved == is_reserved_name(name@),
{
    str_eq(name, "new") || str_eq(name, "www") || str_eq(name, "api") || str_eq(name, "admin")
        || str_eq(name, "app")
}

/// The length of a generated name.
pub const NAME_LEN: usize = 8;

/// The number of characters that a generated name is drawn from.
pub const ALPHABET_LEN: u8 = 36;

/// The number of generated names: `ALPHABET_LEN` to the power `NAME_LEN`.
pub const NAME_COUNT: u64 = 2_821_109_907_456;

/// A digit or a lower-case ASCII letter.
pub open spec fn is_name_char(c: char) -> bool {
    ('0' <= c && c <= '9') || ('a' <= c && c <= 'z')
}

/// A name of the form that is generated.
pub open spec fn is_generated_name(name: Seq<char>) -> bool {
    &&& name.len() == NAME_LEN
    &&& forall|i: int| 0 <= i < name.len() ==> is_name_char(#[trigger] name[i])
}

/// The byte of a character of the alphabet: the digits, then the letters.
pub open spec fn name_byte(index: nat) -> u8 {
    if index < 10 {
        (48 + index) as u8
    } else {
        (87 + index) as u8
    }
}

/// A character of the alphabet: the digits, then the letters.
pub open spec fn name_char(index: nat) -> char {
    name_byte(index) as char
}

/// The name that a sequence of alphabet indices spells.
pub open spec fn spelled(draws: Seq<u8>) -> Seq<char> {
    draws.map_values(|d: u8| name_char(d as nat))
}

/// Indices of characters of the alphabet.
pub open spec fn are_indices(draws: Seq<u8>) -> bool {
    forall|i: int| 0 <= i < draws.len() ==> #[trigger] draws[i] < ALPHABET_LEN
}

/// Spells a name.
pub fn spell(draws: &[u8]) -> (name: String)
    requires
        are_indices(draws@),
    ensures
        name@ == spelled(draws@),
        draws@.len() == NAME_LEN ==> is_generated_name(name@),
{
    let mut bytes: Vec<u8> = Vec::new();
    let mut i: usize = 0;
    while i < draws.len()
        invariant
            i <= draws@.len(),
            forall|j: int| 0 <= j < draws@.len() ==> #[trigger] draws@[j] < ALPHABET_LEN,
            bytes@.len() == i,
            forall|j: int| 0 <= j < i ==> #[trigger] bytes@[j] == name_byte(draws@[j] as nat),
            forall|j: int| 0 <= j < i ==> #[trigger] bytes@[j] < 128,
        decreases draws@.len() - i,
    {
        let d: u8 = draws[i];
        if d < 10 {
            bytes.push(48 + d);
        } else {
            bytes.push(87 + d);
        }
        i += 1;
    }
    let name = ascii_text(bytes.as_slice());
    assert(name@ =~= spelled(draws@));
    name
}

/// `Rng::gen_range` of the thread's generator, on the numbers below a bound.
/// Which of them it draws, chance decides. It panics when there are none.
#[verifier::external_body]
fn draw_below(bound: u8) -> (drawn: u8)
    requires
        bound > 0,
    ensures
        drawn < bound,
{
    rand::thread_rng().gen_range(0..bound)
}

/// Draws the numbers of one name: as many as a name has characters, each the
/// index of a character of the alphabet.
pub fn draw_name() -> (draws: Vec<u8>)
    ensures
        draws@.len() == NAME_LEN,
        are_indices(draws@),
{
    let mut draws: Vec<u8> = Vec::new();
    while draws.len() < NAME_LEN
        invariant
            draws@.len() <= NAME_LEN,
            are_indices(draws@),
        decreases NAME_LEN - draws@.len(),
    {
        draws.push(draw_below(ALPHABET_LEN));
    }
    draws
}

/// The last `len` digits of a number in base 36.
pub open spec fn base36(v: nat, len: nat) -> Seq<u8>
    decreases len,
{
    if len == 0 {
        Seq::empty()
    } else {
        base36(v / 36, (len - 1) as nat).push((v % 36) as u8)
    }
}

/// The generated name with a given number.
pub open spec fn numbered_name(number: nat) -> Seq<char> {
    spelled(base36(number, NAME_LEN as nat))
}

/// The generated name with a given number. The numbers below [`NAME_COUNT`]
/// give every generated name.
pub fn name_with_number(number: u64) -> (name: String)
    ensures
        name@ == numbered_name(number as nat),
        is_generated_name(name@),
{
    let mut digits: Vec<u8> = Vec::new();
    while digits.len() < NAME_LEN
        invariant
            digits@.len() <= NAME_LEN,
            forall|i: int| 0 <= i < digits@.len() ==> #[trigger] digits@[i] == 0,
        decreases NAME_LEN - digits@.len(),
    {
        digits.push(0);
    }
    let mut left: u64 = number;
    let mut i: usize = NAME_LEN;
    let ghost all = base36(number as nat, NAME_LEN as nat);
    assert(base36(left as nat, i as nat) + digits@.skip(i as int) =~= all);
    while i > 0
        invariant
            i <= NAME_LEN,
            digits@.len() == NAME_LEN,
            forall|j: int| 0 <= j < digits@.len() ==> #[trigger] digits@[j] < ALPHABET_LEN,
            base36(left as nat, i as nat) + digits@.skip(i as int) == all,
        decreases i,
    {
        let digit: u8 = (left % 36) as u8;
        let ghost before = digits@;
        digits.set(i - 1, digit);
        proof {
            let high = base36(left as nat / 36, (i - 1) as nat);
            assert(base36(left as nat, i as nat) == high.push(digit));
            assert(high.push(digit) + before.skip(i as int) =~= high + digits@.skip(i - 1));
        }
        left = left / 36;
        i -= 1;
    }
    assert(digits@ =~= all);
    spell(digits.as_slice())
}

/// The alphabet index of a character of a name.
spec fn name_index(c: char) -> nat {
    if c <= '9' {
        (c as u8 - 48) as nat
    } else {
        (c as u8 - 87) as nat
    }
}

/// The number of a name of any length.
spec fn name_number(name: Seq<char>) -> nat
    decreases name.len(),
{
    if name.len() == 0 {
        0
    } else {
        name_number(name.drop_last()) * 36 + name_index(name.last())
    }
}

spec fn base36_capacity(len: nat) -> nat
    decreases len,
{
    if len == 0 {
        1
    } else {
        36 * base36_capacity((len - 1) as nat)
    }
}

proof fn lemma_name_number(name: Seq<char>)
    requires
        forall|i: int| 0 <= i < name.len() ==> is_name_char(#[trigger] name[i]),
    ensures
        spelled(base36(name_number(name), name.len())) == name,
        base36(name_number(name), name.len()).len() == name.len(),
        name_number(name) < base36_capacity(name.len()),
    decreases name.len(),
{
    if name.len() == 0 {
        assert(spelled(base36(0, 0)) =~= name);
    } else {
        let init = name.drop_last();
        assert forall|i: int| 0 <= i < init.len() implies is_name_char(#[trigger] init[i]) by {
            assert(init[i] == name[i]);
        }
        lemma_name_number(init);
        let c = name.last();
        assert(is_name_char(name[name.len() - 1]));
        let d = name_index(c);
        assert(d < 36 && name_char(d) == c);
        let v = name_number(name);
        assert(v / 36 == name_number(init) && v % 36 == d);
        assert(spelled(base36(v, name.len())) =~= spelled(base36(v / 36, init.len())).push(c));
        assert(name =~= init.push(c));
    }
}

/// Every generated name has a number below [`NAME_COUNT`].
pub proof fn law_generated_names_are_numbered(name: Seq<char>)
    requires
        is_generated_name(name),
    ensures
        exists|number: nat| number < NAME_COUNT && #[trigger] numbered_name(number) == name,
{
    lemma_name_number(name);
    reveal_with_fuel(base36_capacity, 9);
    let number = name_number(name);
    assert(number < NAME_COUNT && numbered_name(number) == name);
}

/// No generated name is reserved.
pub proof fn law_generated_name_is_not_reserved(name: Seq<char>)
    requires
        is_generated_name(name),
    ensures
        !is_reserved_name(name),
{
    reveal_strlit("new");
    reveal_strlit("www");
    reveal_strlit("api");
    reveal_strlit("admin");
    reveal_strlit("app");
}

/// A name that a host can begin with: not empty, without dots and colons.
pub open spec fn is_label(name: Seq<char>) -> bool {
    &&& name.len() > 0
    &&& !name.contains('.')
    &&& !name.contains(':')
}

/// The host of a tunnel's public URL.
pub open spec fn host_of(name: Seq<char>, domain: Seq<char>) -> Seq<char> {
    name + "."@ + domain
}

/// The ASCII lower-case form has the same length and the same dots and colons,
/// and it is its own lower-case form.
pub proof fn law_lowercase_keeps_labels(name: Seq<char>)
    requires
        is_ascii_chars(name),
    ensures
        lowercase(name).len() == name.len(),
        is_ascii_chars(lowercase(name)),
        lowercase(lowercase(name)) == lowercase(name),
        lowercase(name).contains('.') == name.contains('.'),
        lowercase(name).contains(':') == name.contains(':'),
{
    let lower = lowercase(name);
    assert forall|i: int| 0 <= i < lower.len() implies '\0' <= #[trigger] lower[i] <= '\u{7f}' by {
        assert(name[i] <= '\u{7f}');
    }
    assert(lowercase(lower) =~= lower);
    if name.contains('.') {
        assert(lower[name.index_of('.')] == '.');
    }
    if name.contains(':') {
        assert(lower[name.index_of(':')] == ':');
    }
    if lower.contains('.') {
        assert(name[lower.index_of('.')] == '.');
    }
    if lower.contains(':') {
        assert(name[lower.index_of(':')] == ':');
    }
}

/// The host of a tunnel's public URL, with or without a port, names the tunnel
/// in lower case.
pub proof fn law_public_host_names_the_tunnel(
    name: Seq<char>,
    domain: Seq<char>,
    port: Seq<char>,
)
    requires
        is_label(name),
        !domain.contains(':'),
    ensures
        subdomain_of(host_of(name, domain), domain) == Some(lowercase(name)),
        subdomain_of(host_of(name, domain) + ":"@ + port, domain) == Some(lowercase(name)),
{
    reveal_strlit(".");
    reveal_strlit(":");
    let host = host_of(name, domain);
    let suffix = domain_suffix(domain);
    assert(host =~= name + suffix);
    assert(!host.contains(':')) by {
        if host.contains(':') {
            let i = host.index_of(':');
            if i < name.len() {
                assert(name[i] == ':');
            } else if i > name.len() {
                assert(domain[i - name.len() - 1] == ':');
            }
        }
    }
    host.index_of_first_ensures(':');
    assert(before_first(host, ':') == host);
    let long = host + ":"@ + port;
    long.index_of_first_ensures(':');
    assert(long[host.len() as int] == ':');
    assert(long.contains(':'));
    let at = long.index_of_first(':')->0;
    if at < host.len() {
        assert(host[at] == ':');
    }
    assert(before_first(long, ':') =~= host);
    assert(host.subrange(host.len() - suffix.len(), host.len() as int) =~= suffix);
    assert(host.take(host.len() - suffix.len()) =~= name);
}

/// A subdomain in an ASCII host is one ASCII label in lower case.
pub proof fn law_subdomain_is_a_label(host: Seq<char>, domain: Seq<char>)
    requires
        is_ascii_chars(host),
        subdomain_of(host, domain) is Some,
    ensures
        ({
            let name = subdomain_of(host, domain)->0;
            is_label(name) && is_ascii_chars(name) && lowercase(name) == name
        }),
{
    let part = before_first(host, ':');
    host.index_of_first_ensures(':');
    assert(!part.contains(':')) by {
        if part.contains(':') {
            let i = part.index_of(':');
            assert(host[i] == ':');
        }
    }
    let label = part.take(part.len() - domain_suffix(domain).len());
    assert(is_ascii_chars(label)) by {
        assert forall|i: int|
            0 <= i < label.len() implies '\0' <= #[trigger] label[i] <= '\u{7f}' by {
            assert(label[i] == host[i]);
        }
    }
    assert(!label.contains(':')) by {
        if label.contains(':') {
            assert(part[label.index_of(':')] == ':');
        }
    }
    law_lowercase_keeps_labels(label);
}

/// The domain itself names no tunnel, whatever the port.
pub proof fn law_domain_names_no_tunnel(domain: Seq<char>, port: Seq<char>)
    ensures
        subdomain_of(domain, domain) is None,
        subdomain_of(domain + ":"@ + port, domain) is None,
{
    reveal_strlit(":");
    domain.index_of_first_ensures(':');
    let long = domain + ":"@ + port;
    long.index_of_first_ensures(':');
    assert(long[domain.len() as int] == ':');
    assert(long.contains(':'));
}

/// A generated name is an ASCII label, and its own lower-case form.
pub proof fn law_generated_name_is_a_label(name: Seq<char>)
    requires
        is_generated_name(name),
    ensures
        is_label(name),
        is_ascii_chars(name),
        lowercase(name) == name,
{
    assert forall|i: int| 0 <= i < name.len() implies '\0' <= #[trigger] name[i] <= '\u{7f}' by {
        assert(is_name_char(name[i]));
    }
    if name.contains('.') {
        assert(is_name_char(name[name.index_of('.')]));
    }
    if name.contains(':') {
        assert(is_name_char(name[name.index_of(':')]));
    }
    assert forall|i: int| 0 <= i < name.len() implies #[trigger] lowercase(name)[i] == name[i] by {
        assert(is_name_char(name[i]));
    }
    assert(lowercase(name) =~= name);
}

} // verus!
