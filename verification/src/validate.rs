//! Sanitizing a user-supplied instance hostname into a safe base URL.
//!
//! The hostname arrives as a path segment of the gateway's own HTTP surface
//! and is interpolated into the upstream request URL, so anything that is not
//! a well-formed DNS-style hostname — embedded schemes, ports, userinfo,
//! path separators, oversized labels — is rejected before any network call.

use vstd::prelude::*;

use crate::escape::push_char;

verus! {

/// The hostname was not a well-formed DNS-style name.
#[derive(Clone, Copy, Debug, PartialEq, Eq, Structural)]
pub struct InvalidInstance;

pub open spec fn is_alnum(c: char) -> bool {
    ('a' <= c && c <= 'z') || ('A' <= c && c <= 'Z') || ('0' <= c && c <= '9')
}

/// A character a DNS label may hold: ASCII alphanumeric or hyphen.
pub open spec fn is_label_char(c: char) -> bool {
    is_alnum(c) || c == '-'
}

/// Some position in the 64-character window starting at `a` holds a dot.
pub open spec fn window_has_dot(s: Seq<char>, a: int) -> bool {
    exists|k: int| a <= k < a + 64 && (#[trigger] s[k]) == '.'
}

/// A well-formed DNS-style hostname: non-empty, at most 253 characters, made
/// of dot-separated labels where every label is 1 to 63 characters of ASCII
/// alphanumerics and hyphens and neither starts nor ends with a hyphen.
///
/// The label rules are stated positionally: no leading, trailing or doubled
/// dot (so labels are non-empty), no hyphen against a label edge, and every
/// window of 64 consecutive characters holds a dot (so no label exceeds 63).
pub open spec fn valid_hostname(s: Seq<char>) -> bool {
    &&& 1 <= s.len() <= 253
    &&& forall|i: int| 0 <= i < s.len() ==> is_label_char(#[trigger] s[i]) || s[i] == '.'
    &&& forall|i: int|
        0 <= i < s.len() && (#[trigger] s[i]) == '.' ==> i > 0 && i < s.len() - 1 && s[i - 1] != '.'
            && s[i - 1] != '-' && s[i + 1] != '-'
    &&& forall|i: int| 0 <= i < s.len() && (#[trigger] s[i]) == '-' ==> i > 0 && i < s.len() - 1
    &&& forall|a: int| 0 <= a && a + 64 <= s.len() ==> #[trigger] window_has_dot(s, a)
}

/// The base URL a validated hostname turns into.
pub open spec fn base_url_spec(host: Seq<char>) -> Seq<char> {
    "https://"@ + host + "/"@
}

/// Validates a user-supplied hostname and, on success, returns the
/// `https://{hostname}/` base URL for upstream requests. Pure and total:
/// exactly the well-formed hostnames are accepted.
pub fn validate(hostname: &str) -> (r: Result<String, InvalidInstance>)
    ensures
        valid_hostname(hostname@) <==> r is Ok,
        r matches Ok(u) ==> u@ == base_url_spec(hostname@),
{
    let len = hostname.unicode_len();
    if len == 0 || len > 253 {
        return Err(InvalidInstance);
    }
    let mut i: usize = 0;
    let mut prev: char = '.';
    let mut run: usize = 0;
    while i < len
        invariant
            len == hostname@.len(),
            1 <= len <= 253,
            i <= len,
            i > 0 ==> prev == hostname@[i - 1],
            forall|k: int| 0 <= k < i ==> is_label_char(#[trigger] hostname@[k]) || hostname@[k] == '.',
            forall|k: int|
                0 <= k < i && (#[trigger] hostname@[k]) == '.' ==> k > 0 && k < len - 1 && hostname@[k - 1] != '.'
                    && hostname@[k - 1] != '-',
            forall|k: int|
                0 <= k < i && (#[trigger] hostname@[k]) == '-' ==> k > 0 && k < len - 1 && hostname@[k - 1] != '.',
            forall|a: int| 0 <= a && a + 64 <= i ==> #[trigger] window_has_dot(hostname@, a),
            run <= 63,
            run <= i,
            forall|k: int| i - run <= k < i ==> hostname@[k] != '.',
            i - run > 0 ==> hostname@[i - run - 1] == '.',
        decreases len - i,
    {
        let c = hostname.get_char(i);
        let alnum = ('a' <= c && c <= 'z') || ('A' <= c && c <= 'Z') || ('0' <= c && c <= '9');
        if !(alnum || c == '-' || c == '.') {
            assert(!(is_label_char(hostname@[i as int]) || hostname@[i as int] == '.'));
            return Err(InvalidInstance);
        }
        if c == '.' {
            if i == 0 || i == len - 1 || prev == '.' || prev == '-' {
                assert(!valid_hostname(hostname@)) by {
                    if valid_hostname(hostname@) {
                        assert(hostname@[i as int] == '.');
                    }
                }
                return Err(InvalidInstance);
            }
            run = 0;
        } else {
            if c == '-' && (i == 0 || i == len - 1 || prev == '.') {
                assert(!valid_hostname(hostname@)) by {
                    if valid_hostname(hostname@) {
                        assert(hostname@[i as int] == '-');
                        if i > 0 && hostname@[i - 1] == '.' {
                            assert(hostname@[i - 1] == '.');
                        }
                    }
                }
                return Err(InvalidInstance);
            }
            if run == 63 {
                assert(!valid_hostname(hostname@)) by {
                    if valid_hostname(hostname@) {
                        let a = i - 63;
                        assert(window_has_dot(hostname@, a));
                        let k = choose|k: int| a <= k < a + 64 && (#[trigger] hostname@[k]) == '.';
                        assert(hostname@[k] == '.');
                        if k < i {
                            assert(i - run <= k < i);
                        }
                    }
                }
                return Err(InvalidInstance);
            }
            run = run + 1;
        }
        proof {
            if i + 1 >= 64 {
                let a = i + 1 - 64;
                if hostname@[i as int] == '.' {
                    assert(a <= i < a + 64 && hostname@[i as int] == '.');
                } else {
                    let ls = i + 1 - run;
                    assert(ls > 0);
                    assert(hostname@[ls - 1] == '.');
                    assert(a <= ls - 1 < a + 64);
                }
                assert(window_has_dot(hostname@, a));
            }
        }
        prev = c;
        i += 1;
    }
    proof {
        assert forall|k: int| 0 <= k < len && (#[trigger] hostname@[k]) == '.' implies k > 0 && k < len - 1
            && hostname@[k - 1] != '.' && hostname@[k - 1] != '-' && hostname@[k + 1] != '-' by {
            if hostname@[k + 1] == '-' {
                assert(hostname@[(k + 1) - 1] != '.');
            }
        }
        assert(valid_hostname(hostname@));
    }
    let mut out = String::new();
    out.append("https://");
    out.append(hostname);
    push_char(&mut out, '/');
    proof {
        assert(seq!['/'] =~= "/"@) by {
            reveal_strlit("/");
        }
        assert(out@ =~= base_url_spec(hostname@));
    }
    Ok(out)
}

/// A hostname holding a `/`, `:` or `@` — an embedded path, port or userinfo
/// — is never accepted.
pub proof fn lemma_rejects_separator(s: Seq<char>, i: int)
    requires
        0 <= i < s.len(),
        s[i] == '/' || s[i] == ':' || s[i] == '@',
    ensures
        !valid_hostname(s),
{
    if valid_hostname(s) {
        assert(is_label_char(s[i]) || s[i] == '.');
    }
}

/// A hostname longer than 253 characters is never accepted.
pub proof fn lemma_rejects_overlong(s: Seq<char>)
    requires
        s.len() > 253,
    ensures
        !valid_hostname(s),
{
}

/// A hostname with a hyphen against a label edge — at the start or end of
/// the whole name or adjacent to a dot — is never accepted.
pub proof fn lemma_rejects_hyphen_at_label_edge(s: Seq<char>, i: int)
    requires
        0 <= i < s.len(),
        s[i] == '-',
        i == 0 || i == s.len() - 1 || s[i - 1] == '.' || s[i + 1] == '.',
    ensures
        !valid_hostname(s),
{
    if valid_hostname(s) {
        assert(i > 0 && i < s.len() - 1);
        if s[i - 1] == '.' {
            assert(s[(i - 1) as int] == '.');
        }
        if s[i + 1] == '.' {
            assert(s[i + 1] == '.');
        }
    }
}

/// A hostname with 64 consecutive non-dot characters — a label longer than
/// 63 — is never accepted.
pub proof fn lemma_rejects_long_label(s: Seq<char>, a: int)
    requires
        0 <= a,
        a + 64 <= s.len(),
        forall|k: int| a <= k < a + 64 ==> (#[trigger] s[k]) != '.',
    ensures
        !valid_hostname(s),
{
    if valid_hostname(s) {
        assert(window_has_dot(s, a));
        let k = choose|k: int| a <= k < a + 64 && (#[trigger] s[k]) == '.';
        assert(s[k] != '.');
    }
}

} // verus!
