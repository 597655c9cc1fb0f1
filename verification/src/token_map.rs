//! A map keyed by the three tokens.

use crate::token::SubstitutionToken;
use vstd::prelude::*;

verus! {

/// A map from tokens to values, with one place for each token. Its view is
/// the mathematical map that holds a token exactly if the token's place is
/// taken.
pub struct TokenMap<V> {
    m: Option<V>,
    p: Option<V>,
    t: Option<V>,
}

impl<V> TokenMap<V> {
    /// The place of a token.
    spec fn place(&self, token: SubstitutionToken) -> Option<V> {
        match token {
            SubstitutionToken::M => self.m,
            SubstitutionToken::P => self.p,
            SubstitutionToken::T => self.t,
        }
    }

    /// The tokens whose place is taken, as a set built one by one.
    spec fn taken(&self) -> Set<SubstitutionToken> {
        let none = Set::<SubstitutionToken>::empty();
        let with_m = if self.m is Some {
            none.insert(SubstitutionToken::M)
        } else {
            none
        };
        let with_p = if self.p is Some {
            with_m.insert(SubstitutionToken::P)
        } else {
            with_m
        };
        if self.t is Some {
            with_p.insert(SubstitutionToken::T)
        } else {
            with_p
        }
    }

    /// The view's domain is the set of taken places, which is finite.
    proof fn lemma_domain(&self)
        ensures
            self@.dom() == self.taken(),
            self@.dom().finite(),
            self@.len() == (if self.m is Some { 1nat } else { 0nat }) + (if self.p is Some {
                1nat
            } else {
                0nat
            }) + (if self.t is Some { 1nat } else { 0nat }),
    {
        assert(self@.dom() =~= self.taken()) by {
            assert forall|token: SubstitutionToken|
                self@.dom().contains(token) == self.taken().contains(token) by {
                match token {
                    SubstitutionToken::M => {},
                    SubstitutionToken::P => {},
                    SubstitutionToken::T => {},
                }
            }
        }
    }

    /// The map without any entry.
    pub fn new() -> (map: Self)
        ensures
            map@ == Map::<SubstitutionToken, V>::empty(),
    {
        let map = TokenMap { m: None, p: None, t: None };
        assert(map@ =~= Map::<SubstitutionToken, V>::empty());
        map
    }

    /// Puts `value` at `token` and returns what was there before.
    pub fn insert(&mut self, token: SubstitutionToken, value: V) -> (previous: Option<V>)
        ensures
            final(self)@ == old(self)@.insert(token, value),
            previous == (if old(self)@.contains_key(token) {
                Some(old(self)@[token])
            } else {
                None
            }),
    {
        let mut entry = Some(value);
        match token {
            SubstitutionToken::M => core::mem::swap(&mut self.m, &mut entry),
            SubstitutionToken::P => core::mem::swap(&mut self.p, &mut entry),
            SubstitutionToken::T => core::mem::swap(&mut self.t, &mut entry),
        }
        assert(self@ =~= old(self)@.insert(token, value));
        entry
    }

    /// The value at `token`, if there is one.
    pub fn get(&self, token: SubstitutionToken) -> (value: Option<&V>)
        ensures
            match value {
                Some(found) => self@.contains_key(token) && *found == self@[token],
                None => !self@.contains_key(token),
            },
    {
        match token {
            SubstitutionToken::M => self.m.as_ref(),
            SubstitutionToken::P => self.p.as_ref(),
            SubstitutionToken::T => self.t.as_ref(),
        }
    }

    /// Whether there is a value at `token`.
    pub fn contains_key(&self, token: SubstitutionToken) -> (found: bool)
        ensures
            found == self@.contains_key(token),
    {
        self.get(token).is_some()
    }

    /// The number of entries.
    pub fn len(&self) -> (count: usize)
        ensures
            self@.dom().finite(),
            count == self@.len(),
    {
        proof {
            self.lemma_domain();
        }
        let m: usize = if self.m.is_some() { 1 } else { 0 };
        let p: usize = if self.p.is_some() { 1 } else { 0 };
        let t: usize = if self.t.is_some() { 1 } else { 0 };
        m + p + t
    }

    /// Whether the map has no entry.
    pub fn is_empty(&self) -> (empty: bool)
        ensures
            empty == (self@ == Map::<SubstitutionToken, V>::empty()),
    {
        let empty = self.m.is_none() && self.p.is_none() && self.t.is_none();
        proof {
            if empty {
                assert(self@ =~= Map::<SubstitutionToken, V>::empty());
            } else {
                let token = if self.m is Some {
                    SubstitutionToken::M
                } else if self.p is Some {
                    SubstitutionToken::P
                } else {
                    SubstitutionToken::T
                };
                assert(self@.contains_key(token));
            }
        }
        empty
    }
}

impl<V> View for TokenMap<V> {
    type V = Map<SubstitutionToken, V>;

    closed spec fn view(&self) -> Map<SubstitutionToken, V> {
        Map::new(
            |token: SubstitutionToken| self.place(token) is Some,
            |token: SubstitutionToken| self.place(token)->0,
        )
    }
}

} // verus!
