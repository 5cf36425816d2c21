//! Deciding what an upstream HTTP response means.
//!
//! Upstream APIs are not contractually guaranteed to return well-typed
//! errors, so the classifier degrades gracefully: on a failure it probes the
//! body — when it is a flat JSON object — for the keys `error`,
//! `error_description` and `message`, in that priority order, and otherwise
//! falls back to a generic message embedding the HTTP status code. Extracted
//! messages are truncated to a bounded preview so unbounded upstream bytes
//! are never echoed to a client.
//!
//! The probe is deliberately a heuristic, not a JSON schema: it understands
//! one top-level object whose values are strings (with single-character
//! escapes), bare scalars, or nested containers (skipped over, their keys
//! never probed), and bails out — to the generic message — on anything
//! else, including `\u` escapes.

use vstd::prelude::*;

use crate::escape::push_char;
use crate::post::NormalizedPost;

verus! {

/// HTTP statuses that indicate upstream success.
pub open spec fn is_success_status(status: u16) -> bool {
    200 <= status < 300
}

/// JSON insignificant whitespace.
pub open spec fn is_json_ws(b: u8) -> bool {
    b == 32 || b == 9 || b == 10 || b == 13
}

/// The suffix left after dropping leading JSON whitespace.
pub open spec fn skip_ws_spec(s: Seq<u8>) -> Seq<u8>
    decreases s.len(),
{
    if s.len() > 0 && is_json_ws(s[0]) {
        skip_ws_spec(s.drop_first())
    } else {
        s
    }
}

proof fn lemma_skip_ws_len(s: Seq<u8>)
    ensures
        skip_ws_spec(s).len() <= s.len(),
    decreases s.len(),
{
    if s.len() > 0 && is_json_ws(s[0]) {
        lemma_skip_ws_len(s.drop_first());
    }
}

/// What a single-character JSON string escape stands for; `None` for any
/// escape the probe does not understand (notably `\u`).
pub open spec fn unescape_spec(b: u8) -> Option<u8> {
    if b == 34 {  // "
        Some(34u8)
    } else if b == 92 {  // \
        Some(92u8)
    } else if b == 47 {  // /
        Some(47u8)
    } else if b == 110 {  // n
        Some(10u8)
    } else if b == 116 {  // t
        Some(9u8)
    } else if b == 114 {  // r
        Some(13u8)
    } else if b == 98 {  // b
        Some(8u8)
    } else if b == 102 {  // f
        Some(12u8)
    } else {
        None
    }
}

/// Parses the body of a JSON string, entered just after its opening quote:
/// the decoded content and the remainder after the closing quote, or `None`
/// when the string never closes or uses an escape the probe rejects.
pub open spec fn parse_string_spec(s: Seq<u8>) -> Option<(Seq<u8>, Seq<u8>)>
    decreases s.len(),
{
    if s.len() == 0 {
        None
    } else if s[0] == 34 {
        Some((Seq::empty(), s.drop_first()))
    } else if s[0] == 92 {
        if s.len() < 2 {
            None
        } else {
            match unescape_spec(s[1]) {
                Some(c) => match parse_string_spec(s.skip(2)) {
                    Some(vr) => Some((seq![c] + vr.0, vr.1)),
                    None => None,
                },
                None => None,
            }
        }
    } else {
        match parse_string_spec(s.drop_first()) {
            Some(vr) => Some((seq![s[0]] + vr.0, vr.1)),
            None => None,
        }
    }
}

/// Termination bound: a parsed string strictly shrinks the suffix.
pub proof fn lemma_parse_string_len(s: Seq<u8>)
    ensures
        parse_string_spec(s) matches Some(vr) ==> vr.1.len() < s.len(),
    decreases s.len(),
{
    if s.len() == 0 {
    } else if s[0] == 34 {
    } else if s[0] == 92 {
        if s.len() >= 2 {
            lemma_parse_string_len(s.skip(2));
        }
    } else {
        lemma_parse_string_len(s.drop_first());
    }
}

/// The suffix left after a bare scalar token: everything up to the next
/// whitespace, comma or closing brace is consumed.
pub open spec fn skip_scalar_spec(s: Seq<u8>) -> Seq<u8>
    decreases s.len(),
{
    if s.len() > 0 && !is_json_ws(s[0]) && s[0] != 44 && s[0] != 125 {
        skip_scalar_spec(s.drop_first())
    } else {
        s
    }
}

proof fn lemma_skip_scalar_len(s: Seq<u8>)
    ensures
        skip_scalar_spec(s).len() <= s.len(),
    decreases s.len(),
{
    if s.len() > 0 && !is_json_ws(s[0]) && s[0] != 44 && s[0] != 125 {
        lemma_skip_scalar_len(s.drop_first());
    }
}

/// The suffix after a balanced nested container, entered at its opening
/// bracket with `depth` brackets already open. Strings inside are honoured
/// (a bracket inside a string does not count); opening and closing brackets
/// are matched only by count, not by kind — close enough for skipping a
/// member this probe never extracts from.
pub open spec fn skip_container_spec(s: Seq<u8>, depth: int) -> Option<Seq<u8>>
    decreases s.len(),
{
    if s.len() == 0 {
        None
    } else if s[0] == 123 || s[0] == 91 {
        skip_container_spec(s.drop_first(), depth + 1)
    } else if s[0] == 125 || s[0] == 93 {
        if depth == 1 {
            Some(s.drop_first())
        } else if depth > 1 {
            skip_container_spec(s.drop_first(), depth - 1)
        } else {
            None
        }
    } else if s[0] == 34 {
        match parse_string_spec(s.drop_first()) {
            Some(vr) => {
                proof {
                    lemma_parse_string_len(s.drop_first());
                }
                skip_container_spec(vr.1, depth)
            },
            None => None,
        }
    } else {
        skip_container_spec(s.drop_first(), depth)
    }
}

proof fn lemma_skip_container_len(s: Seq<u8>, depth: int)
    ensures
        skip_container_spec(s, depth) matches Some(r) ==> r.len() < s.len(),
    decreases s.len(),
{
    if s.len() == 0 {
    } else if s[0] == 123 || s[0] == 91 {
        lemma_skip_container_len(s.drop_first(), depth + 1);
    } else if s[0] == 125 || s[0] == 93 {
        if depth > 1 {
            lemma_skip_container_len(s.drop_first(), depth - 1);
        }
    } else if s[0] == 34 {
        match parse_string_spec(s.drop_first()) {
            Some(vr) => {
                lemma_parse_string_len(s.drop_first());
                lemma_skip_container_len(vr.1, depth);
            },
            None => {},
        }
    } else {
        lemma_skip_container_len(s.drop_first(), depth);
    }
}

/// The bytes of the key `error`.
pub open spec fn key_error_bytes() -> Seq<u8> {
    seq![101u8, 114u8, 114u8, 111u8, 114u8]
}

/// The bytes of the key `error_description`.
pub open spec fn key_error_description_bytes() -> Seq<u8> {
    key_error_bytes() + seq![95u8, 100u8, 101u8, 115u8, 99u8, 114u8, 105u8, 112u8, 116u8, 105u8,
        111u8, 110u8]
}

/// The bytes of the key `message`.
pub open spec fn key_message_bytes() -> Seq<u8> {
    seq![109u8, 101u8, 115u8, 115u8, 97u8, 103u8, 101u8]
}

/// Walks the members of the top-level JSON object, entered just after `{`
/// or a comma, keeping the first string value seen for each of the three
/// probed keys; container-valued members are skipped over, their keys never
/// probed. `None` when the body does not fit the probe's grammar.
pub open spec fn probe_members_spec(
    s: Seq<u8>,
    e: Option<Seq<u8>>,
    d: Option<Seq<u8>>,
    m: Option<Seq<u8>>,
) -> Option<(Option<Seq<u8>>, Option<Seq<u8>>, Option<Seq<u8>>)>
    decreases s.len(),
{
    let t = skip_ws_spec(s);
    if t.len() == 0 {
        None
    } else if t[0] == 125 {
        Some((e, d, m))
    } else if t[0] == 34 {
        match parse_string_spec(t.drop_first()) {
            None => None,
            Some(kr) => {
                let key = kr.0;
                let r2 = skip_ws_spec(kr.1);
                if r2.len() == 0 || r2[0] != 58 {
                    None
                } else {
                    let r3 = skip_ws_spec(r2.drop_first());
                    if r3.len() == 0 {
                        None
                    } else if r3[0] == 34 {
                        match parse_string_spec(r3.drop_first()) {
                            None => None,
                            Some(vr) => {
                                let e2 = if key == key_error_bytes() && e is None {
                                    Some(vr.0)
                                } else {
                                    e
                                };
                                let d2 = if key == key_error_description_bytes() && d is None {
                                    Some(vr.0)
                                } else {
                                    d
                                };
                                let m2 = if key == key_message_bytes() && m is None {
                                    Some(vr.0)
                                } else {
                                    m
                                };
                                let r5 = skip_ws_spec(vr.1);
                                if r5.len() == 0 {
                                    None
                                } else if r5[0] == 44 {
                                    proof {
                                        lemma_probe_step_len(s, t, kr.1, vr.1, r5);
                                    }
                                    probe_members_spec(r5.drop_first(), e2, d2, m2)
                                } else if r5[0] == 125 {
                                    Some((e2, d2, m2))
                                } else {
                                    None
                                }
                            },
                        }
                    } else if r3[0] == 123 || r3[0] == 91 {
                        match skip_container_spec(r3, 0) {
                            None => None,
                            Some(r4) => {
                                let r5 = skip_ws_spec(r4);
                                if r5.len() == 0 {
                                    None
                                } else if r5[0] == 44 {
                                    proof {
                                        lemma_probe_container_step_len(s, t, kr.1, r2, r3, r4, r5);
                                    }
                                    probe_members_spec(r5.drop_first(), e, d, m)
                                } else if r5[0] == 125 {
                                    Some((e, d, m))
                                } else {
                                    None
                                }
                            },
                        }
                    } else {
                        let r4 = skip_scalar_spec(r3);
                        let r5 = skip_ws_spec(r4);
                        if r5.len() == 0 {
                            None
                        } else if r5[0] == 44 {
                            proof {
                                lemma_probe_scalar_step_len(s, t, kr.1, r2, r3, r4, r5);
                            }
                            probe_members_spec(r5.drop_first(), e, d, m)
                        } else if r5[0] == 125 {
                            Some((e, d, m))
                        } else {
                            None
                        }
                    }
                }
            },
        }
    } else {
        None
    }
}

/// Termination bound for the member walk: parsing one string-valued member
/// strictly shrinks the suffix.
pub proof fn lemma_probe_step_len(s: Seq<u8>, t: Seq<u8>, r1: Seq<u8>, r4: Seq<u8>, r5: Seq<u8>)
    requires
        t == skip_ws_spec(s),
        t.len() > 0,
        parse_string_spec(t.drop_first()) matches Some(kr) && kr.1 == r1,
        skip_ws_spec(r1).len() > 0,
        skip_ws_spec(skip_ws_spec(r1).drop_first()).len() > 0,
        parse_string_spec(
            skip_ws_spec(skip_ws_spec(r1).drop_first()).drop_first(),
        ) matches Some(vr) && vr.1 == r4,
        r5 == skip_ws_spec(r4),
    ensures
        r5.len() <= s.len() - 2,
{
    lemma_skip_ws_len(s);
    lemma_parse_string_len(t.drop_first());
    let r2 = skip_ws_spec(r1);
    lemma_skip_ws_len(r1);
    let r3 = skip_ws_spec(r2.drop_first());
    lemma_skip_ws_len(r2.drop_first());
    lemma_parse_string_len(r3.drop_first());
    lemma_skip_ws_len(r4);
}

/// Termination bound for the member walk: skipping one container-valued
/// member strictly shrinks the suffix.
pub proof fn lemma_probe_container_step_len(
    s: Seq<u8>,
    t: Seq<u8>,
    r1: Seq<u8>,
    r2: Seq<u8>,
    r3: Seq<u8>,
    r4: Seq<u8>,
    r5: Seq<u8>,
)
    requires
        t == skip_ws_spec(s),
        t.len() > 0,
        parse_string_spec(t.drop_first()) matches Some(kr) && kr.1 == r1,
        r2 == skip_ws_spec(r1),
        r2.len() > 0,
        r3 == skip_ws_spec(r2.drop_first()),
        skip_container_spec(r3, 0) matches Some(rr) && rr == r4,
        r5 == skip_ws_spec(r4),
    ensures
        r5.len() <= s.len() - 2,
{
    lemma_skip_ws_len(s);
    lemma_parse_string_len(t.drop_first());
    lemma_skip_ws_len(r1);
    lemma_skip_ws_len(r2.drop_first());
    lemma_skip_container_len(r3, 0);
    lemma_skip_ws_len(r4);
}

/// Termination bound for the member walk: parsing one scalar-valued member
/// strictly shrinks the suffix.
pub proof fn lemma_probe_scalar_step_len(
    s: Seq<u8>,
    t: Seq<u8>,
    r1: Seq<u8>,
    r2: Seq<u8>,
    r3: Seq<u8>,
    r4: Seq<u8>,
    r5: Seq<u8>,
)
    requires
        t == skip_ws_spec(s),
        t.len() > 0,
        parse_string_spec(t.drop_first()) matches Some(kr) && kr.1 == r1,
        r2 == skip_ws_spec(r1),
        r2.len() > 0,
        r3 == skip_ws_spec(r2.drop_first()),
        r4 == skip_scalar_spec(r3),
        r5 == skip_ws_spec(r4),
    ensures
        r5.len() <= s.len() - 2,
{
    lemma_skip_ws_len(s);
    lemma_parse_string_len(t.drop_first());
    lemma_skip_ws_len(r1);
    lemma_skip_ws_len(r2.drop_first());
    lemma_skip_scalar_len(r3);
    lemma_skip_ws_len(r4);
}

/// The value of the highest-priority probed key of the body's top-level
/// JSON object, or `None` when the body is not such an object or holds none
/// of the keys at top level.
pub open spec fn probe_spec(body: Seq<u8>) -> Option<Seq<u8>> {
    let t = skip_ws_spec(body);
    if t.len() == 0 || t[0] != 123 {
        None
    } else {
        match probe_members_spec(t.drop_first(), None, None, None) {
            None => None,
            Some(edm) => if edm.0 is Some {
                edm.0
            } else if edm.1 is Some {
                edm.1
            } else {
                edm.2
            },
        }
    }
}


/// The view of an optional byte buffer.
pub open spec fn opt_bytes_view(x: Option<Vec<u8>>) -> Option<Seq<u8>> {
    match x {
        Some(v) => Some(v@),
        None => None,
    }
}

fn skip_ws(body: &Vec<u8>, i: usize) -> (j: usize)
    requires
        i <= body@.len(),
    ensures
        i <= j <= body@.len(),
        body@.skip(j as int) == skip_ws_spec(body@.skip(i as int)),
{
    let mut j = i;
    while j < body.len() && (body[j] == 32 || body[j] == 9 || body[j] == 10 || body[j] == 13)
        invariant
            i <= j <= body@.len(),
            skip_ws_spec(body@.skip(i as int)) == skip_ws_spec(body@.skip(j as int)),
        decreases body@.len() - j,
    {
        proof {
            assert(body@.skip(j as int)[0] == body@[j as int]);
            assert(body@.skip(j as int).drop_first() =~= body@.skip(j + 1));
        }
        j += 1;
    }
    proof {
        if j < body@.len() {
            assert(body@.skip(j as int)[0] == body@[j as int]);
        }
        assert(skip_ws_spec(body@.skip(j as int)) == body@.skip(j as int));
    }
    j
}

fn skip_scalar(body: &Vec<u8>, i: usize) -> (j: usize)
    requires
        i <= body@.len(),
    ensures
        i <= j <= body@.len(),
        body@.skip(j as int) == skip_scalar_spec(body@.skip(i as int)),
{
    let mut j = i;
    while j < body.len() && !(body[j] == 32 || body[j] == 9 || body[j] == 10 || body[j] == 13)
        && body[j] != 44 && body[j] != 125
        invariant
            i <= j <= body@.len(),
            skip_scalar_spec(body@.skip(i as int)) == skip_scalar_spec(body@.skip(j as int)),
        decreases body@.len() - j,
    {
        proof {
            assert(body@.skip(j as int)[0] == body@[j as int]);
            assert(body@.skip(j as int).drop_first() =~= body@.skip(j + 1));
        }
        j += 1;
    }
    proof {
        if j < body@.len() {
            assert(body@.skip(j as int)[0] == body@[j as int]);
        }
        assert(skip_scalar_spec(body@.skip(j as int)) == body@.skip(j as int));
    }
    j
}

fn unescape_byte(b: u8) -> (r: Option<u8>)
    ensures
        r == unescape_spec(b),
{
    if b == 34 {
        Some(34)
    } else if b == 92 {
        Some(92)
    } else if b == 47 {
        Some(47)
    } else if b == 110 {
        Some(10)
    } else if b == 116 {
        Some(9)
    } else if b == 114 {
        Some(13)
    } else if b == 98 {
        Some(8)
    } else if b == 102 {
        Some(12)
    } else {
        None
    }
}

/// Scans a JSON string from just after its opening quote; returns the
/// decoded content and the index just past the closing quote.
fn parse_string(body: &Vec<u8>, i: usize) -> (r: Option<(Vec<u8>, usize)>)
    requires
        i <= body@.len(),
    ensures
        match r {
            Some(vj) => parse_string_spec(body@.skip(i as int)) == Some(
                (vj.0@, body@.skip(vj.1 as int)),
            ) && i < vj.1 <= body@.len(),
            None => parse_string_spec(body@.skip(i as int)) is None,
        },
{
    let mut j = i;
    let mut acc: Vec<u8> = Vec::new();
    loop
        invariant
            i <= j <= body@.len(),
            (match parse_string_spec(body@.skip(j as int)) {
                Some(vr) => parse_string_spec(body@.skip(i as int)) == Some((acc@ + vr.0, vr.1)),
                None => parse_string_spec(body@.skip(i as int)) is None,
            }),
        decreases body@.len() - j,
    {
        if j >= body.len() {
            proof {
                assert(body@.skip(j as int).len() == 0);
            }
            return None;
        }
        let b = body[j];
        proof {
            assert(body@.skip(j as int)[0] == body@[j as int]);
        }
        if b == 34 {
            proof {
                assert(body@.skip(j as int).drop_first() =~= body@.skip(j + 1));
                assert(parse_string_spec(body@.skip(j as int)) == Some(
                    (Seq::<u8>::empty(), body@.skip(j + 1)),
                ));
                assert(acc@ + Seq::<u8>::empty() =~= acc@);
                lemma_parse_string_len(body@.skip(i as int));
            }
            return Some((acc, j + 1));
        }
        if b == 92 {
            if j + 1 >= body.len() {
                proof {
                    assert(body@.skip(j as int).len() < 2);
                }
                return None;
            }
            let eb = body[j + 1];
            proof {
                assert(body@.skip(j as int)[1] == body@[j + 1]);
            }
            match unescape_byte(eb) {
                None => {
                    return None;
                },
                Some(c) => {
                    let ghost old_acc = acc@;
                    acc.push(c);
                    proof {
                        assert(body@.skip(j as int).skip(2) =~= body@.skip(j + 2));
                        assert forall|vr: (Seq<u8>, Seq<u8>)|
                            parse_string_spec(body@.skip(j + 2)) == Some::<(Seq<u8>, Seq<u8>)>(
                                vr,
                            ) implies old_acc + (seq![c] + vr.0) =~= acc@ + vr.0 by {}
                    }
                    j += 2;
                },
            }
        } else {
            let ghost old_acc = acc@;
            acc.push(b);
            proof {
                assert(body@.skip(j as int).drop_first() =~= body@.skip(j + 1));
                assert forall|vr: (Seq<u8>, Seq<u8>)|
                    parse_string_spec(body@.skip(j + 1)) == Some::<(Seq<u8>, Seq<u8>)>(
                        vr,
                    ) implies old_acc + (seq![b] + vr.0) =~= acc@ + vr.0 by {}
            }
            j += 1;
        }
    }
}

fn is_error_key(k: &Vec<u8>) -> (r: bool)
    ensures
        r == (k@ == key_error_bytes()),
{
    let r = k.len() == 5 && k[0] == 101 && k[1] == 114 && k[2] == 114 && k[3] == 111 && k[4]
        == 114;
    proof {
        if r {
            assert(k@ =~= key_error_bytes());
        } else if k@ == key_error_bytes() {
            assert(k@.len() == 5);
            assert(k@[0] == 101 && k@[1] == 114 && k@[2] == 114 && k@[3] == 111 && k@[4] == 114);
        }
    }
    r
}

fn is_error_description_key(k: &Vec<u8>) -> (r: bool)
    ensures
        r == (k@ == key_error_description_bytes()),
{
    let r = k.len() == 17 && k[0] == 101 && k[1] == 114 && k[2] == 114 && k[3] == 111 && k[4]
        == 114 && k[5] == 95 && k[6] == 100 && k[7] == 101 && k[8] == 115 && k[9] == 99 && k[10]
        == 114 && k[11] == 105 && k[12] == 112 && k[13] == 116 && k[14] == 105 && k[15] == 111
        && k[16] == 110;
    proof {
        if r {
            assert(k@ =~= key_error_description_bytes());
        } else if k@ == key_error_description_bytes() {
            assert(k@.len() == 17);
            assert(k@[0] == 101 && k@[1] == 114 && k@[2] == 114 && k@[3] == 111 && k@[4] == 114
                && k@[5] == 95 && k@[6] == 100 && k@[7] == 101 && k@[8] == 115 && k@[9] == 99
                && k@[10] == 114 && k@[11] == 105 && k@[12] == 112 && k@[13] == 116 && k@[14]
                == 105 && k@[15] == 111 && k@[16] == 110);
        }
    }
    r
}

fn is_message_key(k: &Vec<u8>) -> (r: bool)
    ensures
        r == (k@ == key_message_bytes()),
{
    let r = k.len() == 7 && k[0] == 109 && k[1] == 101 && k[2] == 115 && k[3] == 115 && k[4] == 97
        && k[5] == 103 && k[6] == 101;
    proof {
        if r {
            assert(k@ =~= key_message_bytes());
        } else if k@ == key_message_bytes() {
            assert(k@.len() == 7);
            assert(k@[0] == 109 && k@[1] == 101 && k@[2] == 115 && k@[3] == 115 && k@[4] == 97
                && k@[5] == 103 && k@[6] == 101);
        }
    }
    r
}



/// Skips one nested container, mirroring [`skip_container_spec`] from
/// index `i` (at the opening bracket).
fn skip_container(body: &Vec<u8>, i: usize) -> (r: Option<usize>)
    requires
        i <= body@.len(),
    ensures
        match r {
            Some(j) => skip_container_spec(body@.skip(i as int), 0) == Some(
                body@.skip(j as int),
            ) && i < j <= body@.len(),
            None => skip_container_spec(body@.skip(i as int), 0) is None,
        },
{
    let mut j = i;
    let mut depth: usize = 0;
    loop
        invariant
            i <= j <= body@.len(),
            depth <= j - i,
            skip_container_spec(body@.skip(i as int), 0) == skip_container_spec(
                body@.skip(j as int),
                depth as int,
            ),
        decreases body@.len() - j,
    {
        if j >= body.len() {
            proof {
                assert(body@.skip(j as int).len() == 0);
            }
            return None;
        }
        let b = body[j];
        proof {
            assert(body@.skip(j as int)[0] == body@[j as int]);
            assert(body@.skip(j as int).drop_first() =~= body@.skip(j + 1));
        }
        if b == 123 || b == 91 {
            depth = depth + 1;
            j = j + 1;
        } else if b == 125 || b == 93 {
            if depth == 1 {
                return Some(j + 1);
            } else if depth > 1 {
                depth = depth - 1;
                j = j + 1;
            } else {
                return None;
            }
        } else if b == 34 {
            match parse_string(body, j + 1) {
                Some(vj) => {
                    j = vj.1;
                },
                None => {
                    return None;
                },
            }
        } else {
            j = j + 1;
        }
    }
}

/// Walks the members of the body's top-level object, mirroring
/// [`probe_members_spec`] from index `i` (just past the opening brace).
fn probe_members(body: &Vec<u8>, i: usize) -> (r: Option<
    (Option<Vec<u8>>, Option<Vec<u8>>, Option<Vec<u8>>),
>)
    requires
        i <= body@.len(),
    ensures
        match r {
            Some(edm) => probe_members_spec(body@.skip(i as int), None, None, None) == Some(
                (opt_bytes_view(edm.0), opt_bytes_view(edm.1), opt_bytes_view(edm.2)),
            ),
            None => probe_members_spec(body@.skip(i as int), None, None, None) is None,
        },
{
    let mut j = i;
    let mut e: Option<Vec<u8>> = None;
    let mut d: Option<Vec<u8>> = None;
    let mut m: Option<Vec<u8>> = None;
    loop
        invariant
            i <= j <= body@.len(),
            probe_members_spec(body@.skip(i as int), None, None, None) == probe_members_spec(
                body@.skip(j as int),
                opt_bytes_view(e),
                opt_bytes_view(d),
                opt_bytes_view(m),
            ),
        decreases body@.len() - j,
    {
        let jt = skip_ws(body, j);
        if jt >= body.len() {
            proof {
                assert(body@.skip(jt as int).len() == 0);
            }
            return None;
        }
        let b0 = body[jt];
        proof {
            assert(body@.skip(jt as int)[0] == body@[jt as int]);
        }
        if b0 == 125 {
            return Some((e, d, m));
        }
        if b0 != 34 {
            return None;
        }
        proof {
            assert(body@.skip(jt as int).drop_first() =~= body@.skip(jt + 1));
        }
        let key = match parse_string(body, jt + 1) {
            Some(kv) => kv,
            None => {
                return None;
            },
        };
        let j2 = skip_ws(body, key.1);
        if j2 >= body.len() {
            proof {
                assert(body@.skip(j2 as int).len() == 0);
            }
            return None;
        }
        let b2 = body[j2];
        proof {
            assert(body@.skip(j2 as int)[0] == body@[j2 as int]);
        }
        if b2 != 58 {
            return None;
        }
        proof {
            assert(body@.skip(j2 as int).drop_first() =~= body@.skip(j2 + 1));
        }
        let j3 = skip_ws(body, j2 + 1);
        if j3 >= body.len() {
            proof {
                assert(body@.skip(j3 as int).len() == 0);
            }
            return None;
        }
        let b3 = body[j3];
        proof {
            assert(body@.skip(j3 as int)[0] == body@[j3 as int]);
        }
        if b3 == 34 {
            proof {
                assert(body@.skip(j3 as int).drop_first() =~= body@.skip(j3 + 1));
            }
            let val = match parse_string(body, j3 + 1) {
                Some(v) => v,
                None => {
                    return None;
                },
            };
            let is_e = is_error_key(&key.0);
            let is_d = is_error_description_key(&key.0);
            let is_m = is_message_key(&key.0);
            if is_e && e.is_none() {
                e = Some(val.0);
            } else if is_d && d.is_none() {
                d = Some(val.0);
            } else if is_m && m.is_none() {
                m = Some(val.0);
            }
            let j5 = skip_ws(body, val.1);
            if j5 >= body.len() {
                proof {
                    assert(body@.skip(j5 as int).len() == 0);
                }
                return None;
            }
            let b5 = body[j5];
            proof {
                assert(body@.skip(j5 as int)[0] == body@[j5 as int]);
            }
            if b5 == 44 {
                proof {
                    assert(body@.skip(j5 as int).drop_first() =~= body@.skip(j5 + 1));
                }
                j = j5 + 1;
            } else if b5 == 125 {
                return Some((e, d, m));
            } else {
                return None;
            }
        } else if b3 == 123 || b3 == 91 {
            let j4 = match skip_container(body, j3) {
                Some(j4) => j4,
                None => {
                    return None;
                },
            };
            let j5 = skip_ws(body, j4);
            if j5 >= body.len() {
                proof {
                    assert(body@.skip(j5 as int).len() == 0);
                }
                return None;
            }
            let b5 = body[j5];
            proof {
                assert(body@.skip(j5 as int)[0] == body@[j5 as int]);
            }
            if b5 == 44 {
                proof {
                    assert(body@.skip(j5 as int).drop_first() =~= body@.skip(j5 + 1));
                }
                j = j5 + 1;
            } else if b5 == 125 {
                return Some((e, d, m));
            } else {
                return None;
            }
        } else {
            let j4 = skip_scalar(body, j3);
            let j5 = skip_ws(body, j4);
            if j5 >= body.len() {
                proof {
                    assert(body@.skip(j5 as int).len() == 0);
                }
                return None;
            }
            let b5 = body[j5];
            proof {
                assert(body@.skip(j5 as int)[0] == body@[j5 as int]);
            }
            if b5 == 44 {
                proof {
                    assert(body@.skip(j5 as int).drop_first() =~= body@.skip(j5 + 1));
                }
                j = j5 + 1;
            } else if b5 == 125 {
                return Some((e, d, m));
            } else {
                return None;
            }
        }
    }
}

/// Probes the body for the highest-priority error key's string value.
fn probe_error_value(body: &Vec<u8>) -> (r: Option<Vec<u8>>)
    ensures
        match r {
            Some(v) => probe_spec(body@) == Some(v@),
            None => probe_spec(body@) is None,
        },
{
    proof {
        assert(body@.skip(0) =~= body@);
    }
    let t = skip_ws(body, 0);
    if t >= body.len() {
        proof {
            assert(body@.skip(t as int).len() == 0);
        }
        return None;
    }
    let b0 = body[t];
    proof {
        assert(body@.skip(t as int)[0] == body@[t as int]);
    }
    if b0 != 123 {
        return None;
    }
    proof {
        assert(body@.skip(t as int).drop_first() =~= body@.skip(t + 1));
    }
    match probe_members(body, t + 1) {
        None => None,
        Some(edm) => {
            let (e, d, m) = edm;
            if e.is_some() {
                e
            } else if d.is_some() {
                d
            } else {
                m
            }
        },
    }
}



/// The digit character for one decimal digit value.
pub open spec fn digit_char_spec(d: int) -> char {
    if d == 0 {
        '0'
    } else if d == 1 {
        '1'
    } else if d == 2 {
        '2'
    } else if d == 3 {
        '3'
    } else if d == 4 {
        '4'
    } else if d == 5 {
        '5'
    } else if d == 6 {
        '6'
    } else if d == 7 {
        '7'
    } else if d == 8 {
        '8'
    } else {
        '9'
    }
}

/// The decimal representation of a non-negative number, most significant
/// digit first.
pub open spec fn dec_str_spec(n: int) -> Seq<char>
    decreases n,
{
    if n < 10 {
        seq![digit_char_spec(n)]
    } else {
        dec_str_spec(n / 10) + seq![digit_char_spec(n % 10)]
    }
}

fn digit_char(d: u16) -> (c: char)
    requires
        d < 10,
    ensures
        c == digit_char_spec(d as int),
{
    if d == 0 {
        '0'
    } else if d == 1 {
        '1'
    } else if d == 2 {
        '2'
    } else if d == 3 {
        '3'
    } else if d == 4 {
        '4'
    } else if d == 5 {
        '5'
    } else if d == 6 {
        '6'
    } else if d == 7 {
        '7'
    } else if d == 8 {
        '8'
    } else {
        '9'
    }
}

fn push_dec(out: &mut String, n: u16)
    ensures
        final(out)@ == old(out)@ + dec_str_spec(n as int),
    decreases n,
{
    if n >= 10 {
        push_dec(out, n / 10);
        let ghost mid = out@;
        push_char(out, digit_char(n % 10));
        proof {
            assert(out@ =~= old(out)@ + dec_str_spec(n as int));
        }
    } else {
        push_char(out, digit_char(n));
        proof {
            assert(out@ =~= old(out)@ + dec_str_spec(n as int));
        }
    }
}

/// The generic user-safe message for an upstream failure whose body gave no
/// usable error text; it embeds only the HTTP status code.
pub open spec fn generic_message_spec(status: u16) -> Seq<char> {
    "Upstream request failed with status "@ + dec_str_spec(status as int) + "."@
}

fn generic_message(status: u16) -> (r: String)
    ensures
        r@ == generic_message_spec(status),
{
    let mut out = String::new();
    out.append("Upstream request failed with status ");
    push_dec(&mut out, status);
    out.append(".");
    proof {
        assert(out@ =~= generic_message_spec(status));
    }
    out
}

/// How many characters of an extracted upstream message are kept; the rest
/// is cut off so unbounded upstream text is never echoed.
pub const MESSAGE_PREVIEW_LEN: usize = 500;

/// A message cut down to the bounded preview length.
pub open spec fn truncate_spec(s: Seq<char>) -> Seq<char> {
    if s.len() <= MESSAGE_PREVIEW_LEN as int {
        s
    } else {
        s.take(MESSAGE_PREVIEW_LEN as int)
    }
}

fn truncate_message(s: &String) -> (r: String)
    ensures
        r@ == truncate_spec(s@),
{
    let len = s.as_str().unicode_len();
    if len <= MESSAGE_PREVIEW_LEN {
        s.clone()
    } else {
        let sub = s.as_str().substring_char(0, MESSAGE_PREVIEW_LEN);
        proof {
            assert(sub@ =~= truncate_spec(s@));
        }
        sub.to_owned()
    }
}

/// Relies on std's `str::from_utf8`: it accepts exactly the valid UTF-8 byte
/// strings, decoding them to the characters of vstd's UTF-8 model.
#[verifier::external_body]
fn bytes_to_string(b: &Vec<u8>) -> (r: Option<String>)
    ensures
        r matches Some(s) ==> vstd::utf8::valid_utf8(b@) && s@ == vstd::utf8::decode_utf8(b@),
        r is None ==> !vstd::utf8::valid_utf8(b@),
{
    match std::str::from_utf8(b.as_slice()) {
        Ok(s) => Some(s.to_string()),
        Err(_) => None,
    }
}

/// What a classified upstream failure tells the user: the truncated string
/// value of the highest-priority error key when the body yields one, else
/// the generic message embedding the status code.
pub open spec fn upstream_message_spec(status: u16, body: Seq<u8>) -> Seq<char> {
    match probe_spec(body) {
        Some(v) => if vstd::utf8::valid_utf8(v) {
            truncate_spec(vstd::utf8::decode_utf8(v))
        } else {
            generic_message_spec(status)
        },
        None => generic_message_spec(status),
    }
}

/// What an upstream response means for the gateway.
pub enum Outcome {
    /// Success status and the body parsed as the expected post list.
    Success(Vec<NormalizedPost>),
    /// The upstream call failed; the payload is a user-safe message.
    UpstreamError(String),
    /// Success status, but the body is neither a post list nor an object
    /// holding a probed error key; shown as an "unexpected response".
    Unparseable,
}

/// The fixed user-safe message an [`Outcome::Unparseable`] response is
/// reported with.
pub fn unexpected_response_message() -> (r: String)
    ensures
        r@ == "Unexpected response from the upstream service."@,
{
    let mut out = String::new();
    out.append("Unexpected response from the upstream service.");
    proof {
        assert(out@ =~= "Unexpected response from the upstream service."@);
    }
    out
}

/// Classifies an upstream response from its HTTP status, the outcome of the
/// caller's attempt to parse the body as the expected post list, and the raw
/// body bytes.
///
/// The schema parse itself is the upstream client's (outside this crate):
/// the caller hands its result in as `parsed`, and this function decides
/// deterministically from there. A failure status always yields
/// [`Outcome::UpstreamError`]; a success status with an unparsed body yields
/// the probed error message when the body confidently holds one, else
/// [`Outcome::Unparseable`].
pub fn classify(status: u16, parsed: Option<Vec<NormalizedPost>>, body: &Vec<u8>) -> (r: Outcome)
    ensures
        is_success_status(status) && parsed is Some ==> (r matches Outcome::Success(v) && v
            == parsed->Some_0),
        !is_success_status(status) ==> (r matches Outcome::UpstreamError(msg) && msg@
            == upstream_message_spec(status, body@)),
        is_success_status(status) && parsed is None ==> (match probe_spec(body@) {
            Some(pv) => if vstd::utf8::valid_utf8(pv) {
                (r matches Outcome::UpstreamError(msg) && msg@ == truncate_spec(
                    vstd::utf8::decode_utf8(pv),
                ))
            } else {
                r is Unparseable
            },
            None => r is Unparseable,
        }),
{
    let success = 200 <= status && status < 300;
    if success {
        match parsed {
            Some(posts) => {
                return Outcome::Success(posts);
            },
            None => {},
        }
    }
    match probe_error_value(body) {
        Some(vb) => {
            match bytes_to_string(&vb) {
                Some(text) => Outcome::UpstreamError(truncate_message(&text)),
                None => {
                    if success {
                        Outcome::Unparseable
                    } else {
                        Outcome::UpstreamError(generic_message(status))
                    }
                },
            }
        },
        None => {
            if success {
                Outcome::Unparseable
            } else {
                Outcome::UpstreamError(generic_message(status))
            }
        },
    }
}

} // verus!
