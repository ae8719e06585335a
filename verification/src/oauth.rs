//! The per-server OAuth bookkeeping: tokens, authorization-server
//! metadata, and the store that keeps one entry per backend identifier.

use vstd::prelude::*;

use crate::assoc::assoc_lookup;

verus! {

/// Tokens obtained from an authorization server.
pub struct OAuthTokens {
    /// The access token.
    pub access_token: String,
    /// The refresh token, when one was granted.
    pub refresh_token: Option<String>,
    /// Seconds until the access token expires, from the server response.
    pub expires_in: Option<u64>,
    /// When these tokens were obtained, as seconds since the epoch.
    pub obtained_at: u64,
}

/// The metadata an authorization server publishes.
pub struct AuthServerMetadata {
    /// The issuer identifier.
    pub issuer: String,
    /// The authorization endpoint.
    pub authorization_endpoint: String,
    /// The token endpoint.
    pub token_endpoint: String,
    /// The dynamic registration endpoint, when offered.
    pub registration_endpoint: Option<String>,
    /// The scopes the server supports.
    pub scopes_supported: Vec<String>,
    /// The code-challenge methods the server supports.
    pub code_challenge_methods_supported: Vec<String>,
}

/// One backend's authorization state.
pub struct OAuthState {
    /// The authorization server's metadata.
    pub auth_server_metadata: AuthServerMetadata,
    /// The registered client identifier, once known.
    pub client_id: Option<String>,
    /// The registered client secret, once known.
    pub client_secret: Option<String>,
    /// The tokens, once obtained.
    pub tokens: Option<OAuthTokens>,
}

/// The authorization state of every backend, keyed by server identifier.
pub struct OAuthStore {
    /// The entries, with distinct identifiers.
    pub entries: Vec<(String, OAuthState)>,
}

impl OAuthStore {
    /// The entry for a server identifier.
    pub open spec fn lookup(&self, id: Seq<char>) -> Option<OAuthState> {
        assoc_lookup(self.entries@, id)
    }

    /// Well-formedness: identifiers are distinct.
    pub open spec fn wf(&self) -> bool {
        forall|i: int, j: int|
            0 <= i < j < self.entries@.len() ==> #[trigger] self.entries@[i].0@
                != #[trigger] self.entries@[j].0@
    }

    /// An empty store.
    pub fn new() -> (r: OAuthStore)
        ensures
            r.wf(),
            r.entries@.len() == 0,
    {
        OAuthStore { entries: Vec::new() }
    }

    /// The stored state for a server identifier.
    pub fn get<'a>(&'a self, server_id: &str) -> (r: Option<&'a OAuthState>)
        requires
            self.wf(),
        ensures
            match r {
                Some(st) => self.lookup(server_id@) == Some(*st),
                None => self.lookup(server_id@) is None,
            },
    {
        let n = self.entries.len();
        let mut i: usize = 0;
        while i < n
            invariant
                self.wf(),
                n == self.entries@.len(),
                i <= n,
                forall|j: int| 0 <= j < i ==> self.entries@[j].0@ != server_id@,
            decreases n - i,
        {
            if crate::text::str_eq(self.entries[i].0.as_str(), server_id) {
                proof {
                    crate::assoc::lemma_assoc_lookup_at(self.entries@, server_id@, i as int);
                }
                return Some(&self.entries[i].1);
            }
            i += 1;
        }
        proof {
            crate::assoc::lemma_assoc_lookup_absent(self.entries@, server_id@);
        }
        None
    }

    /// Store the state for a server identifier, replacing any entry
    /// already present.
    pub fn set(&mut self, server_id: String, state: OAuthState)
        requires
            old(self).wf(),
        ensures
            final(self).wf(),
            final(self).lookup(server_id@) == Some(state),
            forall|k: Seq<char>| k != server_id@ ==> final(self).lookup(k) == old(self).lookup(k),
    {
        let n = self.entries.len();
        let mut i: usize = 0;
        while i < n
            invariant
                *self == *old(self),
                old(self).wf(),
                n == self.entries@.len(),
                i <= n,
                forall|j: int| 0 <= j < i ==> self.entries@[j].0@ != server_id@,
            decreases n - i,
        {
            if crate::text::str_eq(self.entries[i].0.as_str(), server_id.as_str()) {
                let ghost oldpairs = self.entries@;
                let ghost stv = state;
                let elem = &mut self.entries[i];
                elem.1 = state;
                proof {
                    let np = self.entries@;
                    assert(np == oldpairs.update(i as int, (oldpairs[i as int].0, stv)));
                    assert forall|a: int, b: int|
                        0 <= a < b < np.len() implies #[trigger] np[a].0@ != #[trigger] np[b].0@ by {
                        assert(np[a].0 == oldpairs[a].0 && np[b].0 == oldpairs[b].0);
                        assert(oldpairs[a].0@ != oldpairs[b].0@);
                    }
                    assert forall|j: int| 0 <= j < i implies np[j].0@ != server_id@ by {
                        assert(np[j] == oldpairs[j]);
                    }
                    crate::assoc::lemma_assoc_lookup_at(np, server_id@, i as int);
                    assert forall|k: Seq<char>| k != server_id@ implies assoc_lookup(np, k)
                        == assoc_lookup(oldpairs, k) by {
                        crate::assoc::lemma_assoc_lookup_update_other(oldpairs, i as int, stv, k);
                    }
                }
                return;
            }
            i += 1;
        }
        let ghost oldpairs = self.entries@;
        self.entries.push((server_id, state));
        proof {
            let np = self.entries@;
            let k0 = np[np.len() - 1].0@;
            assert forall|a: int, b: int|
                0 <= a < b < np.len() implies #[trigger] np[a].0@ != #[trigger] np[b].0@ by {
                if b < np.len() - 1 {
                    assert(np[a] == oldpairs[a] && np[b] == oldpairs[b]);
                    assert(oldpairs[a].0@ != oldpairs[b].0@);
                } else {
                    assert(np[a] == oldpairs[a]);
                }
            }
            assert forall|j: int| 0 <= j < np.len() - 1 implies np[j].0@ != k0 by {
                assert(np[j] == oldpairs[j]);
            }
            crate::assoc::lemma_assoc_lookup_at(np, k0, np.len() - 1);
            assert forall|k: Seq<char>| k != k0 implies assoc_lookup(np, k) == assoc_lookup(
                oldpairs,
                k,
            ) by {
                crate::assoc::lemma_assoc_lookup_push_other(oldpairs, np[np.len() - 1], k);
            }
        }
    }

    /// Remove and return the state for a server identifier, or nothing if
    /// it is absent.
    pub fn remove(&mut self, server_id: &str) -> (r: Option<OAuthState>)
        requires
            old(self).wf(),
        ensures
            final(self).wf(),
            r == old(self).lookup(server_id@),
            final(self).lookup(server_id@) is None,
            forall|k: Seq<char>| k != server_id@ ==> final(self).lookup(k) == old(self).lookup(k),
    {
        let n = self.entries.len();
        let mut i: usize = 0;
        while i < n
            invariant
                *self == *old(self),
                old(self).wf(),
                n == self.entries@.len(),
                i <= n,
                forall|j: int| 0 <= j < i ==> self.entries@[j].0@ != server_id@,
            decreases n - i,
        {
            if crate::text::str_eq(self.entries[i].0.as_str(), server_id) {
                let ghost oldpairs = self.entries@;
                let pair = self.entries.remove(i);
                proof {
                    oldpairs.remove_ensures(i as int);
                    let np = self.entries@;
                    assert forall|a: int, b: int|
                        0 <= a < b < np.len() implies #[trigger] np[a].0@ != #[trigger] np[b].0@ by {
                        let a0: int = if a < i { a } else { a + 1 };
                        let b0: int = if b < i { b } else { b + 1 };
                        assert(np[a] == oldpairs[a0] && np[b] == oldpairs[b0]);
                        assert(oldpairs[a0].0@ != oldpairs[b0].0@);
                    }
                    crate::assoc::lemma_assoc_lookup_at(oldpairs, server_id@, i as int);
                    assert forall|j: int| 0 <= j < np.len() implies #[trigger] np[j].0@
                        != server_id@ by {
                        let j0: int = if j < i { j } else { j + 1 };
                        assert(np[j] == oldpairs[j0]);
                        if j0 != i {
                            assert(oldpairs[j0].0@ != oldpairs[i as int].0@);
                        }
                    }
                    crate::assoc::lemma_assoc_lookup_absent(np, server_id@);
                    assert forall|k: Seq<char>| k != server_id@ implies assoc_lookup(np, k)
                        == assoc_lookup(oldpairs, k) by {
                        crate::assoc::lemma_assoc_lookup_remove_other(oldpairs, i as int, k);
                    }
                }
                return Some(pair.1);
            }
            i += 1;
        }
        proof {
            crate::assoc::lemma_assoc_lookup_absent(self.entries@, server_id@);
        }
        None
    }

    /// Exclusive access to every entry, for bulk maintenance.
    pub fn entries_mut<'a>(&'a mut self) -> (r: &'a mut Vec<(String, OAuthState)>)
        ensures
            *r == old(self).entries,
            final(self).entries == *final(r),
    {
        &mut self.entries
    }
}

} // verus!
