//! The external bearer token and the parsing of its transport header.
//!
//! The `Authorization` header must hold exactly `Bearer <token>`: two
//! space-separated tokens whose first is the literal `Bearer`. Anything else
//! is rejected before any validator is invoked.

use crate::errors::ValidationError;
use vstd::prelude::*;

verus! {

/// An external token presented by a caller to prove identity. The raw
/// credential is secret material: it is carried, never logged or echoed.
pub struct ExternalToken {
    pub token: String,
}

/// Whether `i` is the position of the one and only space in `s`.
pub open spec fn sole_space_at(s: Seq<char>, i: int) -> bool {
    &&& 0 <= i < s.len()
    &&& s[i] == ' '
    &&& forall|j: int| 0 <= j < s.len() && j != i ==> s[j] != ' '
}

/// The token carried by a well-formed `Bearer` header value, if any: the
/// value must consist of exactly two space-separated tokens, and the first
/// must be `Bearer`; the second is the carried token (possibly empty).
pub open spec fn spec_parse_bearer(s: Seq<char>) -> Option<Seq<char>> {
    if exists|i: int| sole_space_at(s, i) {
        let i = choose|i: int| sole_space_at(s, i);
        if s.subrange(0, i) == "Bearer"@ {
            Some(s.subrange(i + 1, s.len() as int))
        } else {
            None
        }
    } else {
        None
    }
}

impl ExternalToken {
    /// Parses an `Authorization` header value of the exact form
    /// `Bearer <token>`; every other shape is rejected as malformed, before
    /// any validator sees the value.
    pub fn parse_bearer(value: &str) -> (r: Result<ExternalToken, ValidationError>)
        ensures
            match r {
                Ok(t) => spec_parse_bearer(value@) == Some(t.token@),
                Err(e) => spec_parse_bearer(value@) is None && e == ValidationError::Malformed,
            },
    {
        let len = value.unicode_len();
        let ghost s = value@;

        // Scan for spaces: count them and remember the first two positions.
        let mut count: usize = 0;
        let mut first: usize = 0;
        let mut second: usize = 0;
        let mut i: usize = 0;
        while i < len
            invariant
                s == value@,
                len == s.len(),
                i <= len,
                count <= i,
                count == 0 ==> forall|j: int| 0 <= j < i ==> s[j] != ' ',
                count >= 1 ==> first < i && s[first as int] == ' ',
                count == 1 ==> forall|j: int| 0 <= j < i && j != first ==> s[j] != ' ',
                count >= 2 ==> first < second < i && s[second as int] == ' ',
            decreases len - i,
        {
            if value.get_char(i) == ' ' {
                if count == 0 {
                    first = i;
                } else if count == 1 {
                    second = i;
                }
                count += 1;
            }
            i += 1;
        }

        if count != 1 {
            proof {
                if exists|k: int| sole_space_at(s, k) {
                    let k = choose|k: int| sole_space_at(s, k);
                    if count == 0 {
                        assert(s[k] != ' ');
                    } else {
                        assert(first != k || second != k);
                        if first != k {
                            assert(s[first as int] != ' ');
                        } else {
                            assert(s[second as int] != ' ');
                        }
                    }
                }
            }
            return Err(ValidationError::Malformed);
        }

        proof {
            assert(sole_space_at(s, first as int));
            let k = choose|k: int| sole_space_at(s, k);
            if k != first {
                assert(s[k] != ' ');
            }
            assert(k == first);
            reveal_strlit("Bearer");
        }

        // The piece before the sole space must be the literal `Bearer`.
        if first != 6 {
            proof {
                assert(s.subrange(0, first as int).len() != "Bearer"@.len());
            }
            return Err(ValidationError::Malformed);
        }
        let scheme_ok = value.get_char(0) == 'B' && value.get_char(1) == 'e' && value.get_char(2)
            == 'a' && value.get_char(3) == 'r' && value.get_char(4) == 'e' && value.get_char(5)
            == 'r';
        if !scheme_ok {
            proof {
                assert(s.subrange(0, 6) != "Bearer"@) by {
                    if s.subrange(0, 6) == "Bearer"@ {
                        assert(s[0] == "Bearer"@[0]);
                        assert(s[1] == "Bearer"@[1]);
                        assert(s[2] == "Bearer"@[2]);
                        assert(s[3] == "Bearer"@[3]);
                        assert(s[4] == "Bearer"@[4]);
                        assert(s[5] == "Bearer"@[5]);
                    }
                }
            }
            return Err(ValidationError::Malformed);
        }

        proof {
            assert(s.subrange(0, 6) =~= "Bearer"@);
        }
        let token = value.substring_char(7, len).to_owned();
        Ok(ExternalToken { token })
    }
}

impl From<String> for ExternalToken {
    fn from(token: String) -> (r: Self) {
        ExternalToken { token }
    }
}

impl vstd::std_specs::convert::FromSpecImpl<String> for ExternalToken {
    open spec fn obeys_from_spec() -> bool {
        true
    }

    open spec fn from_spec(token: String) -> Self {
        ExternalToken { token }
    }
}

impl From<ExternalToken> for String {
    fn from(t: ExternalToken) -> (r: String) {
        t.token
    }
}

impl vstd::std_specs::convert::FromSpecImpl<ExternalToken> for String {
    open spec fn obeys_from_spec() -> bool {
        true
    }

    open spec fn from_spec(t: ExternalToken) -> String {
        t.token
    }
}

} // verus!
