//! The registry of live tunnels, by subdomain.
use std::sync::Arc;

use vstd::hash_map::StringHashMap;
use vstd::prelude::*;
use vstd::slice::slice_subrange;

use crate::protocol::text_view;
use crate::subdomain::{
    are_indices, draw_name, is_generated_name, is_reserved, is_reserved_name,
    law_generated_names_are_numbered, name_with_number, numbered_name, spell, spelled, NAME_COUNT,
    NAME_LEN,
};
use crate::text::{joined, lowercase, str_eq, to_lowercase};
use crate::tunnel::{Tunnel, TunnelView};

verus! {

/// How many random names are tried: more than any server gets through. Only then
/// are the free names searched for in order.
pub const RANDOM_ATTEMPTS: u64 = u64::MAX;

/// The live tunnels, and who may open one. `T` is the form in which a tunnel is
/// shared with whoever serves it.
#[verifier::reject_recursive_types(T)]
pub struct TunnelRegistry<T> {
    tunnels: StringHashMap<Arc<T>>,
    allowed_tokens: Option<Vec<String>>,
    domain: String,
}

/// Every name that a tunnel could be given is taken.
#[derive(Debug, Clone, Copy, PartialEq, Eq, Structural)]
pub struct NoNameLeft;

/// What a [`TunnelRegistry`] denotes.
#[verifier::ext_equal]
#[verifier::reject_recursive_types(T)]
pub struct RegistryView<T> {
    pub tunnels: Map<Seq<char>, Arc<T>>,
    pub allowed_tokens: Option<Seq<Seq<char>>>,
    pub domain: Seq<char>,
}

/// The texts of a list of tokens.
pub open spec fn tokens_view(tokens: Seq<String>) -> Seq<Seq<char>> {
    Seq::new(tokens.len(), |i: int| tokens[i]@)
}

/// The texts of an optional list of tokens.
pub open spec fn allow_list_view(tokens: Option<Vec<String>>) -> Option<Seq<Seq<char>>> {
    match tokens {
        Some(list) => Some(tokens_view(list@)),
        None => None,
    }
}

impl<T> View for TunnelRegistry<T> {
    type V = RegistryView<T>;

    closed spec fn view(&self) -> RegistryView<T> {
        RegistryView {
            tunnels: self.tunnels@,
            allowed_tokens: allow_list_view(self.allowed_tokens),
            domain: self.domain@,
        }
    }
}

/// The public URL of a tunnel.
pub open spec fn public_url(subdomain: Seq<char>, domain: Seq<char>) -> Seq<char> {
    "https://"@ + subdomain + "."@ + domain
}

impl<T> RegistryView<T> {
    /// Whether a client with this token may open a tunnel.
    pub open spec fn allows(self, token: Option<Seq<char>>) -> bool {
        match self.allowed_tokens {
            None => true,
            Some(list) => match token {
                Some(t) => list.contains(t),
                None => false,
            },
        }
    }

    /// Whether no tunnel has this name.
    pub open spec fn is_free(self, name: Seq<char>) -> bool {
        !self.tunnels.contains_key(name)
    }

    /// The name that a client gets because it asked for it: what it asked for
    /// in lower case, unless that is reserved or taken.
    pub open spec fn granted(self, requested: Option<Seq<char>>) -> Option<Seq<char>> {
        match requested {
            Some(name) => if !is_reserved_name(lowercase(name)) && self.is_free(lowercase(name)) {
                Some(lowercase(name))
            } else {
                None
            },
            None => None,
        }
    }

    /// Whether a client that asked for `requested` may get `name`.
    pub open spec fn may_assign(self, requested: Option<Seq<char>>, name: Seq<char>) -> bool {
        match self.granted(requested) {
            Some(own) => name == own,
            None => is_generated_name(name) && self.is_free(name),
        }
    }

    /// Whether every generated name is taken.
    pub open spec fn is_full(self) -> bool {
        forall|name: Seq<char>| is_generated_name(name) ==> !#[trigger] self.is_free(name)
    }

    /// The name that a sequence of draws gives: each [`NAME_LEN`] draws spell a
    /// candidate, and the first candidate that is free is taken. There is none
    /// when the draws run out before that.
    pub open spec fn first_drawn(self, draws: Seq<u8>) -> Option<Seq<char>>
        decreases draws.len(),
    {
        if draws.len() < NAME_LEN {
            None
        } else {
            let candidate = spelled(draws.take(NAME_LEN as int));
            if self.is_free(candidate) {
                Some(candidate)
            } else {
                self.first_drawn(draws.skip(NAME_LEN as int))
            }
        }
    }

    /// The registry with one more tunnel.
    pub open spec fn with(self, name: Seq<char>, tunnel: Arc<T>) -> RegistryView<T> {
        RegistryView { tunnels: self.tunnels.insert(name, tunnel), ..self }
    }

    /// The registry without a name.
    pub open spec fn without(self, name: Seq<char>) -> RegistryView<T> {
        RegistryView { tunnels: self.tunnels.remove(name), ..self }
    }

    /// The tunnel that has a name.
    pub open spec fn lookup(self, name: Seq<char>) -> Option<Arc<T>> {
        if self.tunnels.contains_key(name) {
            Some(self.tunnels[name])
        } else {
            None
        }
    }
}

/// Whether a registration went well: the client that asked for `requested` has
/// got `subdomain`, a tunnel that no visitor waits at was put into the form
/// `handle` by `share`, and `after` is `before` with that tunnel.
pub open spec fn registers<S, W, T, F: FnOnce(Tunnel<S, W>) -> T>(
    before: RegistryView<T>,
    after: RegistryView<T>,
    ws_tx: S,
    requested: Option<Seq<char>>,
    share: F,
    subdomain: Seq<char>,
    handle: Arc<T>,
) -> bool {
    &&& before.may_assign(requested, subdomain)
    &&& after == before.with(subdomain, handle)
    &&& exists|tunnel: Tunnel<S, W>|
        tunnel@ == TunnelView::<S, W>::fresh(subdomain, ws_tx) && #[trigger] call_ensures(
            share,
            (tunnel,),
            *handle,
        )
}

/// Whether a text is on a list.
fn contains_text(list: &Vec<String>, text: &str) -> (found: bool)
    ensures
        found == tokens_view(list@).contains(text@),
{
    let ghost texts = tokens_view(list@);
    let mut i: usize = 0;
    while i < list.len()
        invariant
            i <= list@.len(),
            texts == tokens_view(list@),
            forall|j: int| 0 <= j < i ==> texts[j] != text@,
        decreases list@.len() - i,
    {
        if str_eq(list[i].as_str(), text) {
            assert(texts[i as int] == text@);
            return true;
        }
        i += 1;
    }
    false
}

/// `Arc::clone`: another pointer to the same value.
#[verifier::external_body]
fn share_pointer<T>(pointer: &Arc<T>) -> (other: Arc<T>)
    ensures
        other == *pointer,
{
    pointer.clone()
}

impl<T> TunnelRegistry<T> {
    /// An empty registry. Without an allow-list every client may open a tunnel.
    pub fn new(domain: String, allowed_tokens: Option<Vec<String>>) -> (registry: Self)
        ensures
            registry@ == (RegistryView {
                tunnels: Map::<Seq<char>, Arc<T>>::empty(),
                allowed_tokens: allow_list_view(allowed_tokens),
                domain: domain@,
            }),
    {
        TunnelRegistry { tunnels: StringHashMap::new(), allowed_tokens, domain }
    }

    /// Checks an auth token, if authentication is enabled.
    pub fn validate_token(&self, token: &Option<String>) -> (valid: bool)
        ensures
            valid == self@.allows(text_view(*token)),
    {
        match &self.allowed_tokens {
            None => true,
            Some(allowed) => match token {
                Some(t) => contains_text(allowed, t.as_str()),
                None => false,
            },
        }
    }

    /// Registers a new tunnel. Gives back its subdomain, its public URL and the
    /// tunnel itself, in the form that `share` puts it into.
    pub fn register<S, W, F: FnOnce(Tunnel<S, W>) -> T>(
        &mut self,
        ws_tx: S,
        requested_subdomain: Option<String>,
        share: F,
    ) -> (result: Result<(String, String, Arc<T>), NoNameLeft>)
        requires
            forall|tunnel: Tunnel<S, W>| #[trigger] call_requires(share, (tunnel,)),
        ensures
            match result {
                Ok((subdomain, url, handle)) => {
                    &&& registers::<S, W, T, F>(
                        old(self)@,
                        final(self)@,
                        ws_tx,
                        text_view(requested_subdomain),
                        share,
                        subdomain@,
                        handle,
                    )
                    &&& url@ == public_url(subdomain@, old(self)@.domain)
                },
                Err(NoNameLeft) => {
                    &&& old(self)@.granted(text_view(requested_subdomain)) is None
                    &&& old(self)@.is_full()
                    &&& final(self)@ == old(self)@
                },
            },
    {
        let subdomain = match self.assign_subdomain(requested_subdomain) {
            Some(name) => name,
            None => return Err(NoNameLeft),
        };
        let url = joined(
            joined(joined("https://", subdomain.as_str()).as_str(), ".").as_str(),
            self.domain.as_str(),
        );
        let tunnel = Tunnel::<S, W>::new(subdomain.clone(), ws_tx);
        let handle = Arc::new(share(tunnel));
        self.tunnels.insert(subdomain.clone(), share_pointer(&handle));
        Ok((subdomain, url, handle))
    }

    /// Removes a tunnel.
    pub fn unregister(&mut self, subdomain: &str)
        ensures
            final(self)@ == old(self)@.without(subdomain@),
    {
        self.tunnels.remove(subdomain);
    }

    /// Looks up a tunnel.
    pub fn get(&self, subdomain: &str) -> (tunnel: Option<Arc<T>>)
        ensures
            tunnel == self@.lookup(subdomain@),
    {
        match self.tunnels.get(subdomain) {
            Some(tunnel) => Some(share_pointer(tunnel)),
            None => None,
        }
    }

    /// Assigns a subdomain: the requested one if it is available, else a random
    /// one. There is none only when every generated name is taken.
    pub fn assign_subdomain(&self, requested: Option<String>) -> (name: Option<String>)
        ensures
            match name {
                Some(n) => self@.may_assign(text_view(requested), n@),
                None => self@.granted(text_view(requested)) is None && self@.is_full(),
            },
    {
        if let Some(req) = requested {
            let normalized = to_lowercase(req.as_str());
            if !is_reserved(normalized.as_str()) && !self.tunnels.contains_key(
                normalized.as_str(),
            ) {
                return Some(normalized);
            }
        }
        self.generate_random_subdomain()
    }

    /// The first free name among those that the draws spell.
    pub fn first_drawn_name(&self, draws: &[u8]) -> (name: Option<String>)
        requires
            are_indices(draws@),
        ensures
            match name {
                Some(n) => {
                    &&& self@.first_drawn(draws@) == Some(n@)
                    &&& is_generated_name(n@)
                    &&& self@.is_free(n@)
                },
                None => self@.first_drawn(draws@) is None,
            },
    {
        let mut at: usize = 0;
        assert(draws@.skip(0) =~= draws@);
        while draws.len() - at >= NAME_LEN
            invariant
                at <= draws@.len(),
                are_indices(draws@),
                self@.first_drawn(draws@) == self@.first_drawn(draws@.skip(at as int)),
            decreases draws@.len() - at,
        {
            let candidate = slice_subrange(draws, at, at + NAME_LEN);
            let name = spell(candidate);
            proof {
                let rest = draws@.skip(at as int);
                assert(rest.take(NAME_LEN as int) =~= candidate@);
                assert(rest.skip(NAME_LEN as int) =~= draws@.skip(at + NAME_LEN));
            }
            if !self.tunnels.contains_key(name.as_str()) {
                return Some(name);
            }
            at += NAME_LEN;
        }
        None
    }

    /// A free random name: names are drawn until one of them is free. Which one
    /// it is, chance decides; [`TunnelRegistry::first_drawn_name`] says it for
    /// given draws.
    pub fn generate_random_subdomain(&self) -> (name: Option<String>)
        ensures
            match name {
                Some(n) => is_generated_name(n@) && self@.is_free(n@),
                None => self@.is_full(),
            },
    {
        let mut attempts: u64 = 0;
        while attempts < RANDOM_ATTEMPTS
            decreases RANDOM_ATTEMPTS - attempts,
        {
            let draws = draw_name();
            if let Some(name) = self.first_drawn_name(draws.as_slice()) {
                return Some(name);
            }
            attempts += 1;
        }
        self.first_free_name()
    }

    /// The first free generated name, in the order of their numbers.
    fn first_free_name(&self) -> (name: Option<String>)
        ensures
            match name {
                Some(n) => is_generated_name(n@) && self@.is_free(n@),
                None => self@.is_full(),
            },
    {
        let mut number: u64 = 0;
        while number < NAME_COUNT
            invariant
                number <= NAME_COUNT,
                forall|k: nat| k < number ==> !self@.is_free(#[trigger] numbered_name(k)),
            decreases NAME_COUNT - number,
        {
            let name = name_with_number(number);
            if !self.tunnels.contains_key(name.as_str()) {
                return Some(name);
            }
            number += 1;
        }
        proof {
            assert forall|name: Seq<char>|
                is_generated_name(name) implies !#[trigger] self@.is_free(name) by {
                law_generated_names_are_numbered(name);
            }
        }
        None
    }
}

} // verus!
