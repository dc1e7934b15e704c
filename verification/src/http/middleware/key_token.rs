//! Requests are let through where they carry a token that is known.

use crate::http::utils::{all_visible, header_chars, header_text};
use crate::text::{begins_with, chars_of, text_of, texts};
use vstd::prelude::*;

verus! {

/// The tokens that are known.
pub struct KeyTokens {
    pub tokens: Vec<String>,
}

/// Whether a request with the authorization `auth` is let through: it names one of `tokens` that
/// is not empty.
pub open spec fn authorized(tokens: Seq<Seq<char>>, auth: Option<Seq<char>>) -> bool {
    auth matches Some(value) && exists|i: int|
        0 <= i < tokens.len() && (#[trigger] tokens[i]).len() > 0 && value == "Bearer "@
            + tokens[i]
}

impl KeyTokens {
    pub fn new(tokens: Vec<String>) -> (k: Self)
        ensures
            k.tokens == tokens,
    {
        Self { tokens }
    }

    /// These tokens in front of `service`.
    pub fn new_transform<S>(&self, service: S) -> (m: KeyTokenMiddleware<S>)
        ensures
            m.service == service,
            texts(m.key_tokens.tokens@) == texts(self.tokens@),
    {
        let tokens = self.tokens.clone();
        assert(texts(tokens@) =~= texts(self.tokens@));
        KeyTokenMiddleware { service, key_tokens: KeyTokens { tokens } }
    }
}

/// Tokens in front of a service.
pub struct KeyTokenMiddleware<S> {
    pub service: S,
    pub key_tokens: KeyTokens,
}

impl<S> KeyTokenMiddleware<S> {
    /// Whether a request goes on to the service, where `header` are the bytes of the header that
    /// authorizes it, if it has one. One with an invisible character in it has none.
    pub fn is_authorized(&self, header: Option<&[u8]>) -> (r: bool)
        ensures
            r == authorized(
                texts(self.key_tokens.tokens@),
                match header {
                    Some(bytes) => if all_visible(bytes@) {
                        Some(header_chars(bytes@))
                    } else {
                        None
                    },
                    None => None,
                },
            ),
    {
        match header {
            Some(bytes) => match header_text(bytes) {
                Some(value) => self.knows(value.as_str()),
                None => false,
            },
            None => false,
        }
    }

    /// Whether a request with the authorization `value` goes on to the service.
    fn knows(&self, value: &str) -> (r: bool)
        ensures
            r == authorized(texts(self.key_tokens.tokens@), Some(value@)),
    {
        let ghost known = texts(self.key_tokens.tokens@);
        proof {
            reveal_strlit("Bearer ");
        }
        if !begins_with(value, "Bearer ") {
            proof {
                assert forall|i: int| 0 <= i < known.len() implies value@ != "Bearer "@
                    + #[trigger] known[i] by {
                    assert(("Bearer "@ + known[i]).subrange(0, 7) =~= "Bearer "@);
                }
            }
            return false;
        }
        let chars = chars_of(value);
        let token = text_of(&chars, 7, chars.len());
        assert(value@ =~= "Bearer "@ + token@) by {
            assert(value@.subrange(0, 7) == "Bearer "@);
            assert(value@ =~= value@.subrange(0, 7) + value@.subrange(7, value@.len() as int));
        }
        let mut i: usize = 0;
        while i < self.key_tokens.tokens.len()
            invariant
                i <= self.key_tokens.tokens.len(),
                known == texts(self.key_tokens.tokens@),
                "Bearer "@.len() == 7,
                value@ == "Bearer "@ + token@,
                forall|j: int|
                    0 <= j < i ==> (#[trigger] known[j]).len() == 0 || value@ != "Bearer "@
                        + known[j],
            decreases self.key_tokens.tokens.len() - i,
        {
            let t = &self.key_tokens.tokens[i];
            assert(known[i as int] == t@);
            if t.unicode_len() > 0 && token == *t {
                assert(value@ == "Bearer "@ + known[i as int]);
                return true;
            }
            assert(t@.len() > 0 ==> value@ != "Bearer "@ + t@) by {
                if value@ == "Bearer "@ + t@ {
                    assert(value@.subrange(7, value@.len() as int) =~= t@);
                    assert(value@.subrange(7, value@.len() as int) =~= token@);
                }
            }
            i = i + 1;
        }
        false
    }
}

/// Without a token that is not empty nobody is let through.
pub proof fn no_token_no_entry(tokens: Seq<Seq<char>>, auth: Option<Seq<char>>)
    requires
        forall|i: int| 0 <= i < tokens.len() ==> (#[trigger] tokens[i]).len() == 0,
    ensures
        !authorized(tokens, auth),
{
}

} // verus!
