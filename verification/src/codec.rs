//! The wire codec for message envelopes.
//!
//! A message travels as one text frame: an object in a fixed field order with
//! string values, e.g. `{"type":"req","id":"a1","method":"ping"}`. Text
//! payloads are escaped so that a quote, a backslash or a line break inside a
//! payload cannot break the frame. `encode` produces exactly the canonical
//! frame of a message, and `decode` accepts exactly the canonical frames:
//! any frame carrying an unrecognized kind or method tag, a field its kind
//! does not permit, or malformed text is rejected whole.
//!
//! The wire contract is canonical frames only, deliberately stricter than a
//! general structured-data reader: a peer must send each frame with the
//! fields in the order shown, without insignificant whitespace, and with
//! payloads escaped through `\"`, `\\`, `\n`, `\r` and `\t` alone. A frame
//! that reorders fields or adds whitespace is rejected like any other
//! non-canonical text. This trades tolerance for a decoder whose accepted
//! language is exactly the encoder's image, stated and proved as one
//! contract.

use vstd::prelude::*;

verus! {

use vstd::string::StrSliceExecFns;
use vstd::string::StringExecFns;
use crate::errors::DecodeError;
use crate::messages::{MessageV, NotificationMethodV, RequestMethodV, ResponseResultV, WsError,
    WsErrorId, WsMessage, WsNotification, WsNotificationMethod, WsRequest, WsRequestMethod,
    WsResponse, WsResponseResult};

/// Whether a payload character cannot stand bare inside a wire string value.
pub open spec fn needs_escape(c: char) -> bool {
    c == '"' || c == '\\' || c == '\n' || c == '\r' || c == '\t'
}

/// How one payload character appears inside a wire string value.
pub open spec fn esc_char(c: char) -> Seq<char> {
    if c == '"' {
        seq!['\\', '"']
    } else if c == '\\' {
        seq!['\\', '\\']
    } else if c == '\n' {
        seq!['\\', 'n']
    } else if c == '\r' {
        seq!['\\', 'r']
    } else if c == '\t' {
        seq!['\\', 't']
    } else {
        seq![c]
    }
}

/// The wire form of a whole text payload.
pub open spec fn esc(s: Seq<char>) -> Seq<char>
    decreases s.len(),
{
    if s.len() == 0 {
        Seq::empty()
    } else {
        esc_char(s[0]) + esc(s.subrange(1, s.len() as int))
    }
}

/// Escaping one more character appends that character's wire form.
pub proof fn lemma_esc_push(s: Seq<char>, c: char)
    ensures
        esc(s.push(c)) == esc(s) + esc_char(c),
    decreases s.len(),
{
    if s.len() == 0 {
        assert(s.push(c)[0] == c);
        assert(esc(s) =~= Seq::<char>::empty());
        assert(s.push(c).subrange(1, 1) =~= s);
        assert(esc(s.push(c)) == esc_char(c) + esc(s));
        assert(esc(s.push(c)) =~= esc(s) + esc_char(c));
    } else {
        assert(s.push(c)[0] == s[0]);
        assert(s.push(c).subrange(1, s.len() as int + 1) =~= s.subrange(1, s.len() as int).push(
            c,
        ));
        lemma_esc_push(s.subrange(1, s.len() as int), c);
        assert(esc(s.push(c)) =~= esc(s) + esc_char(c));
    }
}

/// The canonical frame of a message.
pub open spec fn encode_spec(mv: MessageV) -> Seq<char> {
    "{\"type\":\""@ + body_spec(mv)
}

/// The frame past the common opening, by message kind.
pub open spec fn body_spec(mv: MessageV) -> Seq<char> {
    match mv {
        MessageV::Request { id, method } => "req\",\"id\":\""@ + esc(id) + "\",\"method\":\""@
            + method_spec(method),
        MessageV::Notification { method: NotificationMethodV::AskMe(t) } =>
            "not\",\"method\":\"askMe\",\"params\":\""@ + esc(t) + "\"}"@,
        MessageV::Response { id, result: ResponseResultV::Text(t) } => "res\",\"id\":\""@ + esc(id)
            + "\",\"result\":\""@ + esc(t) + "\"}"@,
        MessageV::Error { id: Some(i), eid: WsErrorId::IncorrectInput, message } =>
            "err\",\"id\":\""@ + esc(i) + "\",\"eid\":\"incorrectInput\",\"message\":\""@ + esc(
            message,
        ) + "\"}"@,
        MessageV::Error { id: None, eid: WsErrorId::IncorrectInput, message } =>
            "err\",\"eid\":\"incorrectInput\",\"message\":\""@ + esc(message) + "\"}"@,
    }
}

/// The frame tail carrying a request's method tag and parameters.
pub open spec fn method_spec(m: RequestMethodV) -> Seq<char> {
    match m {
        RequestMethodV::Ping => "ping\"}"@,
        RequestMethodV::Echo(t) => "echo\",\"params\":\""@ + esc(t) + "\"}"@,
        RequestMethodV::Shutdown => "shutdown\"}"@,
    }
}

/// Relies on String::push: appends exactly the given character at the end.
#[verifier::external_body]
fn push_char(s: &mut String, c: char)
    ensures
        final(s)@ == old(s)@.push(c),
{
    s.push(c);
}

/// Appends the wire form of the payload to the frame under construction.
fn append_escaped(out: &mut String, s: &str)
    ensures
        final(out)@ == old(out)@ + esc(s@),
{
    let n = s.unicode_len();
    let mut i: usize = 0;
    proof {
        assert(old(out)@ + esc(s@.subrange(0, 0)) =~= old(out)@);
    }
    while i < n
        invariant
            i <= n,
            n == s@.len(),
            out@ == old(out)@ + esc(s@.subrange(0, i as int)),
        decreases n - i,
    {
        let c = s.get_char(i);
        proof {
            assert(s@.subrange(0, i + 1) =~= s@.subrange(0, i as int).push(c));
            lemma_esc_push(s@.subrange(0, i as int), c);
        }
        if c == '"' {
            out.append("\\\"");
            proof {
                reveal_strlit("\\\"");
                assert("\\\""@ =~= esc_char(c));
            }
        } else if c == '\\' {
            out.append("\\\\");
            proof {
                reveal_strlit("\\\\");
                assert("\\\\"@ =~= esc_char(c));
            }
        } else if c == '\n' {
            out.append("\\n");
            proof {
                reveal_strlit("\\n");
                assert("\\n"@ =~= esc_char(c));
            }
        } else if c == '\r' {
            out.append("\\r");
            proof {
                reveal_strlit("\\r");
                assert("\\r"@ =~= esc_char(c));
            }
        } else if c == '\t' {
            out.append("\\t");
            proof {
                reveal_strlit("\\t");
                assert("\\t"@ =~= esc_char(c));
            }
        } else {
            push_char(out, c);
            proof {
                assert(seq![c] =~= esc_char(c));
            }
        }
        proof {
            assert(out@ =~= old(out)@ + esc(s@.subrange(0, i + 1)));
        }
        i += 1;
    }
    proof {
        assert(s@.subrange(0, n as int) =~= s@);
    }
}

/// A wire string value's body followed by its closing quote and whatever
/// comes after: the shape a scan works against.
pub open spec fn quoted(s: Seq<char>, tail: Seq<char>) -> Seq<char> {
    esc(s) + seq!['"'] + tail
}

/// A wire string value determines the payload and the rest of the frame: no
/// text reads as a quoted value in two ways.
pub proof fn lemma_quoted_unique(s1: Seq<char>, r1: Seq<char>, s2: Seq<char>, r2: Seq<char>)
    requires
        quoted(s1, r1) == quoted(s2, r2),
    ensures
        s1 == s2,
        r1 == r2,
    decreases s1.len(),
{
    let w = quoted(s1, r1);
    if s1.len() == 0 && s2.len() == 0 {
        assert(esc(s1) =~= Seq::<char>::empty());
        assert(esc(s2) =~= Seq::<char>::empty());
        assert(s1 =~= s2);
        assert(w =~= seq!['"'] + r1);
        assert(w =~= seq!['"'] + r2);
        assert(r1 =~= r2) by {
            assert(r1.len() == w.len() - 1 && r2.len() == w.len() - 1);
            assert forall|x: int| 0 <= x < r1.len() implies r1[x] == r2[x] by {
                assert((seq!['"'] + r1)[x + 1] == r1[x]);
                assert((seq!['"'] + r2)[x + 1] == r2[x]);
            }
        }
    } else if s1.len() == 0 {
        assert(esc(s1) =~= Seq::<char>::empty());
        assert(w[0] == '"');
        assert(esc(s2) == esc_char(s2[0]) + esc(s2.subrange(1, s2.len() as int)));
        assert(w[0] == esc_char(s2[0])[0]);
        assert(esc_char(s2[0])[0] != '"');
        assert(false);
    } else if s2.len() == 0 {
        assert(esc(s2) =~= Seq::<char>::empty());
        assert(w[0] == '"');
        assert(esc(s1) == esc_char(s1[0]) + esc(s1.subrange(1, s1.len() as int)));
        assert(w[0] == esc_char(s1[0])[0]);
        assert(esc_char(s1[0])[0] != '"');
        assert(false);
    } else {
        let a = s1[0];
        let b = s2[0];
        let t1 = s1.subrange(1, s1.len() as int);
        let t2 = s2.subrange(1, s2.len() as int);
        assert(esc(s1) == esc_char(a) + esc(t1));
        assert(esc(s2) == esc_char(b) + esc(t2));
        assert(w =~= esc_char(a) + quoted(t1, r1));
        assert(w =~= esc_char(b) + quoted(t2, r2));
        assert(w[0] == esc_char(a)[0] && w[0] == esc_char(b)[0]);
        if needs_escape(a) || needs_escape(b) {
            assert(needs_escape(a) && needs_escape(b));
            assert(w[1] == esc_char(a)[1] && w[1] == esc_char(b)[1]);
            assert(a == b);
        } else {
            assert(a == b);
        }
        let k = esc_char(a).len() as int;
        assert(quoted(t1, r1) =~= quoted(t2, r2)) by {
            assert forall|x: int| 0 <= x < quoted(t1, r1).len() implies quoted(t1, r1)[x]
                == quoted(t2, r2)[x] by {
                assert(w[x + k] == quoted(t1, r1)[x]);
                assert(w[x + k] == quoted(t2, r2)[x]);
            }
        }
        lemma_quoted_unique(t1, r1, t2, r2);
        assert(s1 =~= s2) by {
            assert(s1.len() == t1.len() + 1 && s2.len() == t2.len() + 1);
            assert forall|x: int| 0 <= x < s1.len() implies s1[x] == s2[x] by {
                if x == 0 {
                    assert(s1[0] == a && s2[0] == b);
                } else {
                    assert(t1[x - 1] == s1[x]);
                    assert(t2[x - 1] == s2[x]);
                }
            }
        }
    }
}

/// Scans a wire string value starting at `from`: the payload up to the next
/// unescaped quote, unescaped, together with the position just past that
/// quote. Fails when no unescaped quote closes the value, when an escape code
/// is unrecognized, or when a character that must be escaped stands bare —
/// exactly when no payload reads out of the text there.
fn scan_string(v: &Vec<char>, from: usize) -> (r: Option<(String, usize)>)
    requires
        from <= v@.len(),
    ensures
        match r {
            Some((s, j)) => from < j <= v@.len() && v@.subrange(from as int, j as int) == esc(s@)
                + seq!['"'],
            None => forall|s: Seq<char>, tail: Seq<char>|
                v@.subrange(from as int, v@.len() as int) != #[trigger] quoted(s, tail),
        },
{
    let len = v.len();
    let mut acc = String::new();
    let mut i: usize = from;
    proof {
        assert(v@.subrange(from as int, from as int) =~= esc(acc@));
        assert forall|s: Seq<char>, tail: Seq<char>|
            v@.subrange(from as int, len as int) == #[trigger] quoted(s, tail) implies acc@.len()
            <= s.len() && s.subrange(0, acc@.len() as int) == acc@ && v@.subrange(
            i as int,
            len as int,
        ) == quoted(s.subrange(acc@.len() as int, s.len() as int), tail) by {
            assert(s.subrange(0, 0) =~= acc@);
            assert(s.subrange(0, s.len() as int) =~= s);
        }
    }
    while i < len
        invariant
            from <= i <= len,
            len == v@.len(),
            v@.subrange(from as int, i as int) == esc(acc@),
            forall|s: Seq<char>, tail: Seq<char>|
                v@.subrange(from as int, len as int) == #[trigger] quoted(s, tail) ==> acc@.len()
                    <= s.len() && s.subrange(0, acc@.len() as int) == acc@ && v@.subrange(
                    i as int,
                    len as int,
                ) == quoted(s.subrange(acc@.len() as int, s.len() as int), tail),
        decreases len - i,
    {
        let c = v[i];
        if c == '"' {
            proof {
                assert(v@.subrange(from as int, i as int + 1) =~= esc(acc@) + seq!['"']);
            }
            return Some((acc, i + 1));
        } else if c == '\\' {
            if i + 1 == len {
                proof {
                    assert forall|s: Seq<char>, tail: Seq<char>|
                        v@.subrange(from as int, len as int) != #[trigger] quoted(s, tail) by {
                        if v@.subrange(from as int, len as int) == quoted(s, tail) {
                            let sp = s.subrange(acc@.len() as int, s.len() as int);
                            let rem = v@.subrange(i as int, len as int);
                            assert(rem == quoted(sp, tail));
                            assert(rem.len() == 1);
                            assert(rem[0] == v@[i as int]);
                            if sp.len() == 0 {
                                assert(esc(sp) =~= Seq::<char>::empty());
                                assert(rem[0] == '"');
                            } else {
                                assert(esc(sp) == esc_char(sp[0]) + esc(
                                    sp.subrange(1, sp.len() as int),
                                ));
                                assert(rem[0] == esc_char(sp[0])[0]);
                                assert(needs_escape(sp[0]));
                                assert(rem.len() >= esc_char(sp[0]).len() + 1);
                            }
                            assert(false);
                        }
                    }
                }
                return None;
            }
            let d = v[i + 1];
            let dec: char;
            if d == '"' {
                dec = '"';
            } else if d == '\\' {
                dec = '\\';
            } else if d == 'n' {
                dec = '\n';
            } else if d == 'r' {
                dec = '\r';
            } else if d == 't' {
                dec = '\t';
            } else {
                proof {
                    assert forall|s: Seq<char>, tail: Seq<char>|
                        v@.subrange(from as int, len as int) != #[trigger] quoted(s, tail) by {
                        if v@.subrange(from as int, len as int) == quoted(s, tail) {
                            let sp = s.subrange(acc@.len() as int, s.len() as int);
                            let rem = v@.subrange(i as int, len as int);
                            assert(rem == quoted(sp, tail));
                            assert(rem[0] == v@[i as int]);
                            if sp.len() == 0 {
                                assert(esc(sp) =~= Seq::<char>::empty());
                                assert(rem[0] == '"');
                            } else {
                                assert(esc(sp) == esc_char(sp[0]) + esc(
                                    sp.subrange(1, sp.len() as int),
                                ));
                                assert(rem[0] == esc_char(sp[0])[0]);
                                assert(needs_escape(sp[0]));
                                assert(rem[1] == esc_char(sp[0])[1]);
                                assert(rem[1] == v@[i as int + 1]);
                            }
                            assert(false);
                        }
                    }
                }
                return None;
            }
            proof {
                assert(esc_char(dec) =~= seq!['\\', d]);
                assert forall|s: Seq<char>, tail: Seq<char>|
                    v@.subrange(from as int, len as int) == #[trigger] quoted(s, tail) implies
                    acc@.push(dec).len() <= s.len() && s.subrange(0, acc@.len() as int + 1)
                        == acc@.push(dec) && v@.subrange(i as int + 2, len as int) == quoted(
                        s.subrange(acc@.len() as int + 1, s.len() as int),
                        tail,
                    ) by {
                    let k = acc@.len() as int;
                    let sp = s.subrange(k, s.len() as int);
                    let rem = v@.subrange(i as int, len as int);
                    assert(rem == quoted(sp, tail));
                    assert(rem[0] == v@[i as int]);
                    if sp.len() == 0 {
                        assert(esc(sp) =~= Seq::<char>::empty());
                        assert(rem[0] == '"');
                        assert(false);
                    }
                    assert(esc(sp) == esc_char(sp[0]) + esc(sp.subrange(1, sp.len() as int)));
                    assert(rem[0] == esc_char(sp[0])[0]);
                    assert(needs_escape(sp[0]));
                    assert(rem[1] == esc_char(sp[0])[1]);
                    assert(rem[1] == v@[i as int + 1]);
                    assert(sp[0] == dec);
                    assert(s.subrange(0, k + 1) =~= acc@.push(dec)) by {
                        assert(s[k] == sp[0]);
                        assert(s.subrange(0, k) == acc@);
                    }
                    assert(v@.subrange(i as int + 2, len as int) =~= quoted(
                        s.subrange(k + 1, s.len() as int),
                        tail,
                    )) by {
                        assert(sp.subrange(1, sp.len() as int) =~= s.subrange(
                            k + 1,
                            s.len() as int,
                        ));
                        assert(rem =~= esc_char(sp[0]) + quoted(
                            sp.subrange(1, sp.len() as int),
                            tail,
                        ));
                        assert(esc_char(sp[0]).len() == 2);
                        let q = quoted(sp.subrange(1, sp.len() as int), tail);
                        assert forall|x: int|
                            0 <= x < q.len() implies v@.subrange(i as int + 2, len as int)[x]
                            == q[x] by {
                            assert(rem[x + 2] == q[x]);
                            assert(rem[x + 2] == v@[i as int + 2 + x]);
                        }
                    }
                }
                assert(v@.subrange(from as int, i as int + 2) =~= esc(acc@) + esc_char(dec));
                lemma_esc_push(acc@, dec);
                assert(v@.subrange(from as int, i as int + 2) == esc(acc@.push(dec)));
            }
            push_char(&mut acc, dec);
            i = i + 2;
        } else if c == '\n' || c == '\r' || c == '\t' {
            proof {
                assert forall|s: Seq<char>, tail: Seq<char>|
                    v@.subrange(from as int, len as int) != #[trigger] quoted(s, tail) by {
                    if v@.subrange(from as int, len as int) == quoted(s, tail) {
                        let sp = s.subrange(acc@.len() as int, s.len() as int);
                        let rem = v@.subrange(i as int, len as int);
                        assert(rem == quoted(sp, tail));
                        assert(rem[0] == v@[i as int]);
                        if sp.len() == 0 {
                            assert(esc(sp) =~= Seq::<char>::empty());
                            assert(rem[0] == '"');
                        } else {
                            assert(esc(sp) == esc_char(sp[0]) + esc(
                                sp.subrange(1, sp.len() as int),
                            ));
                            assert(rem[0] == esc_char(sp[0])[0]);
                        }
                        assert(false);
                    }
                }
            }
            return None;
        } else {
            proof {
                assert(esc_char(c) =~= seq![c]);
                assert forall|s: Seq<char>, tail: Seq<char>|
                    v@.subrange(from as int, len as int) == #[trigger] quoted(s, tail) implies
                    acc@.push(c).len() <= s.len() && s.subrange(0, acc@.len() as int + 1)
                        == acc@.push(c) && v@.subrange(i as int + 1, len as int) == quoted(
                        s.subrange(acc@.len() as int + 1, s.len() as int),
                        tail,
                    ) by {
                    let k = acc@.len() as int;
                    let sp = s.subrange(k, s.len() as int);
                    let rem = v@.subrange(i as int, len as int);
                    assert(rem == quoted(sp, tail));
                    assert(rem[0] == v@[i as int]);
                    if sp.len() == 0 {
                        assert(esc(sp) =~= Seq::<char>::empty());
                        assert(rem[0] == '"');
                        assert(false);
                    }
                    assert(esc(sp) == esc_char(sp[0]) + esc(sp.subrange(1, sp.len() as int)));
                    assert(rem[0] == esc_char(sp[0])[0]);
                    assert(!needs_escape(sp[0]));
                    assert(sp[0] == c);
                    assert(s.subrange(0, k + 1) =~= acc@.push(c)) by {
                        assert(s[k] == sp[0]);
                        assert(s.subrange(0, k) == acc@);
                    }
                    assert(v@.subrange(i as int + 1, len as int) =~= quoted(
                        s.subrange(k + 1, s.len() as int),
                        tail,
                    )) by {
                        assert(sp.subrange(1, sp.len() as int) =~= s.subrange(
                            k + 1,
                            s.len() as int,
                        ));
                        assert(rem =~= esc_char(sp[0]) + quoted(
                            sp.subrange(1, sp.len() as int),
                            tail,
                        ));
                        assert(esc_char(sp[0]).len() == 1);
                        let q = quoted(sp.subrange(1, sp.len() as int), tail);
                        assert forall|x: int|
                            0 <= x < q.len() implies v@.subrange(i as int + 1, len as int)[x]
                            == q[x] by {
                            assert(rem[x + 1] == q[x]);
                            assert(rem[x + 1] == v@[i as int + 1 + x]);
                        }
                    }
                }
                assert(v@.subrange(from as int, i as int + 1) =~= esc(acc@) + esc_char(c));
                lemma_esc_push(acc@, c);
                assert(v@.subrange(from as int, i as int + 1) == esc(acc@.push(c)));
            }
            push_char(&mut acc, c);
            i = i + 1;
        }
    }
    proof {
        assert forall|s: Seq<char>, tail: Seq<char>|
            v@.subrange(from as int, len as int) != #[trigger] quoted(s, tail) by {
            if v@.subrange(from as int, len as int) == quoted(s, tail) {
                let sp = s.subrange(acc@.len() as int, s.len() as int);
                let rem = v@.subrange(i as int, len as int);
                assert(rem == quoted(sp, tail));
                assert(rem.len() == 0);
                assert(quoted(sp, tail).len() >= 1);
                assert(false);
            }
        }
    }
    None
}

/// Splitting a known decomposition of a suffix: the first part stands at its
/// place, the rest follows it, and the lengths add up.
pub proof fn lemma_prefix_at(w: Seq<char>, at: int, a: Seq<char>, b: Seq<char>)
    requires
        0 <= at <= w.len(),
        w.subrange(at, w.len() as int) == a + b,
    ensures
        at + a.len() + b.len() == w.len(),
        w.subrange(at, at + a.len() as int) == a,
        w.subrange(at + a.len() as int, w.len() as int) == b,
{
    let s = w.subrange(at, w.len() as int);
    assert(s.len() == a.len() + b.len());
    assert(w.subrange(at, at + a.len() as int) =~= a) by {
        assert forall|x: int| 0 <= x < a.len() implies w.subrange(at, at + a.len() as int)[x]
            == a[x] by {
            assert(s[x] == (a + b)[x]);
            assert(s[x] == w[at + x]);
        }
    }
    assert(w.subrange(at + a.len() as int, w.len() as int) =~= b) by {
        assert forall|x: int| 0 <= x < b.len() implies w.subrange(
            at + a.len() as int,
            w.len() as int,
        )[x] == b[x] by {
            assert(s[a.len() + x] == (a + b)[a.len() + x]);
            assert(s[a.len() + x] == w[at + a.len() + x]);
        }
    }
}

/// Left cancellation of concatenation.
pub proof fn lemma_cancel(a: Seq<char>, b: Seq<char>, c: Seq<char>)
    requires
        a + b == a + c,
    ensures
        b == c,
{
    assert(b =~= c) by {
        assert((a + b).len() == a.len() + b.len());
        assert((a + c).len() == a.len() + c.len());
        assert(b.len() == c.len());
        assert forall|x: int| 0 <= x < b.len() implies b[x] == c[x] by {
            assert((a + b)[a.len() + x] == b[x]);
            assert((a + c)[a.len() + x] == c[x]);
        }
    }
}

/// Every frame splits into its head literal and a quoted chain: the shape the
/// decoder walks.
pub proof fn lemma_frame_shape(mv: MessageV)
    ensures
        match mv {
            MessageV::Request { id, method } => encode_spec(mv) == "{\"type\":\"req\",\"id\":\""@
                + quoted(id, ",\"method\":\""@ + method_spec(method)),
            MessageV::Notification { method: NotificationMethodV::AskMe(p) } => encode_spec(mv)
                == "{\"type\":\"not\",\"method\":\"askMe\",\"params\":\""@ + quoted(p, "}"@),
            MessageV::Response { id, result: ResponseResultV::Text(x) } => encode_spec(mv)
                == "{\"type\":\"res\",\"id\":\""@ + quoted(id, ",\"result\":\""@ + quoted(x, "}"@)),
            MessageV::Error { id: Some(i), eid: WsErrorId::IncorrectInput, message } => encode_spec(
                mv,
            ) == "{\"type\":\"err\",\"id\":\""@ + quoted(
                i,
                ",\"eid\":\"incorrectInput\",\"message\":\""@ + quoted(message, "}"@),
            ),
            MessageV::Error { id: None, eid: WsErrorId::IncorrectInput, message } => encode_spec(mv)
                == "{\"type\":\"err\",\"eid\":\"incorrectInput\",\"message\":\""@ + quoted(
                message,
                "}"@,
            ),
        },
{
    match mv {
        MessageV::Request { id, method } => {
            assert("{\"type\":\"req\",\"id\":\""@ =~= "{\"type\":\""@ + "req\",\"id\":\""@) by {
                reveal_strlit("{\"type\":\"req\",\"id\":\"");
                reveal_strlit("{\"type\":\"");
                reveal_strlit("req\",\"id\":\"");
            }
            assert("\",\"method\":\""@ =~= seq!['"'] + ",\"method\":\""@) by {
                reveal_strlit("\",\"method\":\"");
                reveal_strlit(",\"method\":\"");
            }
            assert(encode_spec(mv) =~= "{\"type\":\"req\",\"id\":\""@ + quoted(
                id,
                ",\"method\":\""@ + method_spec(method),
            ));
        },
        MessageV::Notification { method: NotificationMethodV::AskMe(p) } => {
            assert("{\"type\":\"not\",\"method\":\"askMe\",\"params\":\""@ =~= "{\"type\":\""@
                + "not\",\"method\":\"askMe\",\"params\":\""@) by {
                reveal_strlit("{\"type\":\"not\",\"method\":\"askMe\",\"params\":\"");
                reveal_strlit("{\"type\":\"");
                reveal_strlit("not\",\"method\":\"askMe\",\"params\":\"");
            }
            assert("\"}"@ =~= seq!['"'] + "}"@) by {
                reveal_strlit("\"}");
                reveal_strlit("}");
            }
            assert(encode_spec(mv) =~= "{\"type\":\"not\",\"method\":\"askMe\",\"params\":\""@
                + quoted(p, "}"@));
        },
        MessageV::Response { id, result: ResponseResultV::Text(x) } => {
            assert("{\"type\":\"res\",\"id\":\""@ =~= "{\"type\":\""@ + "res\",\"id\":\""@) by {
                reveal_strlit("{\"type\":\"res\",\"id\":\"");
                reveal_strlit("{\"type\":\"");
                reveal_strlit("res\",\"id\":\"");
            }
            assert("\",\"result\":\""@ =~= seq!['"'] + ",\"result\":\""@) by {
                reveal_strlit("\",\"result\":\"");
                reveal_strlit(",\"result\":\"");
            }
            assert("\"}"@ =~= seq!['"'] + "}"@) by {
                reveal_strlit("\"}");
                reveal_strlit("}");
            }
            assert(encode_spec(mv) =~= "{\"type\":\"res\",\"id\":\""@ + quoted(
                id,
                ",\"result\":\""@ + quoted(x, "}"@),
            ));
        },
        MessageV::Error { id: Some(i), eid: WsErrorId::IncorrectInput, message } => {
            assert("{\"type\":\"err\",\"id\":\""@ =~= "{\"type\":\""@ + "err\",\"id\":\""@) by {
                reveal_strlit("{\"type\":\"err\",\"id\":\"");
                reveal_strlit("{\"type\":\"");
                reveal_strlit("err\",\"id\":\"");
            }
            assert("\",\"eid\":\"incorrectInput\",\"message\":\""@ =~= seq!['"']
                + ",\"eid\":\"incorrectInput\",\"message\":\""@) by {
                reveal_strlit("\",\"eid\":\"incorrectInput\",\"message\":\"");
                reveal_strlit(",\"eid\":\"incorrectInput\",\"message\":\"");
            }
            assert("\"}"@ =~= seq!['"'] + "}"@) by {
                reveal_strlit("\"}");
                reveal_strlit("}");
            }
            assert(encode_spec(mv) =~= "{\"type\":\"err\",\"id\":\""@ + quoted(
                i,
                ",\"eid\":\"incorrectInput\",\"message\":\""@ + quoted(message, "}"@),
            ));
        },
        MessageV::Error { id: None, eid: WsErrorId::IncorrectInput, message } => {
            assert("{\"type\":\"err\",\"eid\":\"incorrectInput\",\"message\":\""@ =~= "{\"type\":\""@
                + "err\",\"eid\":\"incorrectInput\",\"message\":\""@) by {
                reveal_strlit("{\"type\":\"err\",\"eid\":\"incorrectInput\",\"message\":\"");
                reveal_strlit("{\"type\":\"");
                reveal_strlit("err\",\"eid\":\"incorrectInput\",\"message\":\"");
            }
            assert("\"}"@ =~= seq!['"'] + "}"@) by {
                reveal_strlit("\"}");
                reveal_strlit("}");
            }
            assert(encode_spec(mv) =~= "{\"type\":\"err\",\"eid\":\"incorrectInput\",\"message\":\""@
                + quoted(message, "}"@));
        },
    }
}

/// The frame tail of each request method, in the shape the decoder walks.
pub proof fn lemma_method_shape(m: RequestMethodV)
    ensures
        match m {
            RequestMethodV::Ping => method_spec(m) == "ping\"}"@,
            RequestMethodV::Echo(p) => method_spec(m) == "echo\",\"params\":\""@ + quoted(p, "}"@),
            RequestMethodV::Shutdown => method_spec(m) == "shutdown\"}"@,
        },
{
    match m {
        RequestMethodV::Echo(p) => {
            assert("\"}"@ =~= seq!['"'] + "}"@) by {
                reveal_strlit("\"}");
                reveal_strlit("}");
            }
            assert(method_spec(m) =~= "echo\",\"params\":\""@ + quoted(p, "}"@));
        },
        _ => {},
    }
}

/// A frame that opens like a request frame is one: every other kind differs
/// from it within the first twenty characters.
proof fn lemma_kind_req(w: Seq<char>, mv: MessageV)
    requires
        w == encode_spec(mv),
        w.len() >= 20,
        w.subrange(0, 20) == "{\"type\":\"req\",\"id\":\""@,
    ensures
        mv is Request,
{
    lemma_frame_shape(mv);
    reveal_strlit("{\"type\":\"req\",\"id\":\"");
    reveal_strlit("{\"type\":\"not\",\"method\":\"askMe\",\"params\":\"");
    reveal_strlit("{\"type\":\"res\",\"id\":\"");
    reveal_strlit("{\"type\":\"err\",\"id\":\"");
    reveal_strlit("{\"type\":\"err\",\"eid\":\"incorrectInput\",\"message\":\"");
    assert(w.subrange(0, 20)[9] == w[9]);
    assert(w.subrange(0, 20)[11] == w[11]);
    match mv {
        MessageV::Request { id, method } => {},
        MessageV::Notification { method: NotificationMethodV::AskMe(p) } => {
            assert(("{\"type\":\"not\",\"method\":\"askMe\",\"params\":\""@ + quoted(p, "}"@))[9]
                == 'n');
            assert(false);
        },
        MessageV::Response { id, result: ResponseResultV::Text(x) } => {
            assert(("{\"type\":\"res\",\"id\":\""@ + quoted(id, ",\"result\":\""@ + quoted(x, "}"@)))[11]
                == 's');
            assert(false);
        },
        MessageV::Error { id: Some(i), eid: WsErrorId::IncorrectInput, message } => {
            assert(("{\"type\":\"err\",\"id\":\""@ + quoted(
                i,
                ",\"eid\":\"incorrectInput\",\"message\":\""@ + quoted(message, "}"@),
            ))[9] == 'e');
            assert(false);
        },
        MessageV::Error { id: None, eid: WsErrorId::IncorrectInput, message } => {
            assert(("{\"type\":\"err\",\"eid\":\"incorrectInput\",\"message\":\""@ + quoted(
                message,
                "}"@,
            ))[9] == 'e');
            assert(false);
        },
    }
}

/// A frame that opens like a notification frame is one.
proof fn lemma_kind_not(w: Seq<char>, mv: MessageV)
    requires
        w == encode_spec(mv),
        w.len() >= "{\"type\":\"not\",\"method\":\"askMe\",\"params\":\""@.len(),
        w.subrange(0, "{\"type\":\"not\",\"method\":\"askMe\",\"params\":\""@.len() as int)
            == "{\"type\":\"not\",\"method\":\"askMe\",\"params\":\""@,
    ensures
        mv is Notification,
{
    lemma_frame_shape(mv);
    reveal_strlit("{\"type\":\"req\",\"id\":\"");
    reveal_strlit("{\"type\":\"not\",\"method\":\"askMe\",\"params\":\"");
    reveal_strlit("{\"type\":\"res\",\"id\":\"");
    reveal_strlit("{\"type\":\"err\",\"id\":\"");
    reveal_strlit("{\"type\":\"err\",\"eid\":\"incorrectInput\",\"message\":\"");
    let h = "{\"type\":\"not\",\"method\":\"askMe\",\"params\":\""@;
    assert(w.subrange(0, h.len() as int)[9] == w[9]);
    assert(w[9] == 'n');
    match mv {
        MessageV::Notification { method: NotificationMethodV::AskMe(p) } => {},
        MessageV::Request { id, method } => {
            assert(("{\"type\":\"req\",\"id\":\""@ + quoted(id, ",\"method\":\""@ + method_spec(method)))[9]
                == 'r');
            assert(false);
        },
        MessageV::Response { id, result: ResponseResultV::Text(x) } => {
            assert(("{\"type\":\"res\",\"id\":\""@ + quoted(id, ",\"result\":\""@ + quoted(x, "}"@)))[9]
                == 'r');
            assert(false);
        },
        MessageV::Error { id: Some(i), eid: WsErrorId::IncorrectInput, message } => {
            assert(("{\"type\":\"err\",\"id\":\""@ + quoted(
                i,
                ",\"eid\":\"incorrectInput\",\"message\":\""@ + quoted(message, "}"@),
            ))[9] == 'e');
            assert(false);
        },
        MessageV::Error { id: None, eid: WsErrorId::IncorrectInput, message } => {
            assert(("{\"type\":\"err\",\"eid\":\"incorrectInput\",\"message\":\""@ + quoted(
                message,
                "}"@,
            ))[9] == 'e');
            assert(false);
        },
    }
}

/// A frame that opens like a response frame is one.
proof fn lemma_kind_res(w: Seq<char>, mv: MessageV)
    requires
        w == encode_spec(mv),
        w.len() >= 20,
        w.subrange(0, 20) == "{\"type\":\"res\",\"id\":\""@,
    ensures
        mv is Response,
{
    lemma_frame_shape(mv);
    reveal_strlit("{\"type\":\"req\",\"id\":\"");
    reveal_strlit("{\"type\":\"not\",\"method\":\"askMe\",\"params\":\"");
    reveal_strlit("{\"type\":\"res\",\"id\":\"");
    reveal_strlit("{\"type\":\"err\",\"id\":\"");
    reveal_strlit("{\"type\":\"err\",\"eid\":\"incorrectInput\",\"message\":\"");
    assert(w.subrange(0, 20)[9] == w[9]);
    assert(w.subrange(0, 20)[11] == w[11]);
    match mv {
        MessageV::Response { id, result: ResponseResultV::Text(x) } => {},
        MessageV::Request { id, method } => {
            assert(("{\"type\":\"req\",\"id\":\""@ + quoted(id, ",\"method\":\""@ + method_spec(method)))[11]
                == 'q');
            assert(false);
        },
        MessageV::Notification { method: NotificationMethodV::AskMe(p) } => {
            assert(("{\"type\":\"not\",\"method\":\"askMe\",\"params\":\""@ + quoted(p, "}"@))[9]
                == 'n');
            assert(false);
        },
        MessageV::Error { id: Some(i), eid: WsErrorId::IncorrectInput, message } => {
            assert(("{\"type\":\"err\",\"id\":\""@ + quoted(
                i,
                ",\"eid\":\"incorrectInput\",\"message\":\""@ + quoted(message, "}"@),
            ))[9] == 'e');
            assert(false);
        },
        MessageV::Error { id: None, eid: WsErrorId::IncorrectInput, message } => {
            assert(("{\"type\":\"err\",\"eid\":\"incorrectInput\",\"message\":\""@ + quoted(
                message,
                "}"@,
            ))[9] == 'e');
            assert(false);
        },
    }
}

/// A frame that opens like an error frame with an id is one.
proof fn lemma_kind_err_id(w: Seq<char>, mv: MessageV)
    requires
        w == encode_spec(mv),
        w.len() >= 20,
        w.subrange(0, 20) == "{\"type\":\"err\",\"id\":\""@,
    ensures
        mv matches MessageV::Error { id: Some(_), .. },
{
    lemma_frame_shape(mv);
    reveal_strlit("{\"type\":\"req\",\"id\":\"");
    reveal_strlit("{\"type\":\"not\",\"method\":\"askMe\",\"params\":\"");
    reveal_strlit("{\"type\":\"res\",\"id\":\"");
    reveal_strlit("{\"type\":\"err\",\"id\":\"");
    reveal_strlit("{\"type\":\"err\",\"eid\":\"incorrectInput\",\"message\":\"");
    assert(w.subrange(0, 20)[9] == w[9]);
    assert(w.subrange(0, 20)[15] == w[15]);
    match mv {
        MessageV::Error { id: Some(i), eid: WsErrorId::IncorrectInput, message } => {},
        MessageV::Request { id, method } => {
            assert(("{\"type\":\"req\",\"id\":\""@ + quoted(id, ",\"method\":\""@ + method_spec(method)))[9]
                == 'r');
            assert(false);
        },
        MessageV::Notification { method: NotificationMethodV::AskMe(p) } => {
            assert(("{\"type\":\"not\",\"method\":\"askMe\",\"params\":\""@ + quoted(p, "}"@))[9]
                == 'n');
            assert(false);
        },
        MessageV::Response { id, result: ResponseResultV::Text(x) } => {
            assert(("{\"type\":\"res\",\"id\":\""@ + quoted(id, ",\"result\":\""@ + quoted(x, "}"@)))[9]
                == 'r');
            assert(false);
        },
        MessageV::Error { id: None, eid: WsErrorId::IncorrectInput, message } => {
            assert(("{\"type\":\"err\",\"eid\":\"incorrectInput\",\"message\":\""@ + quoted(
                message,
                "}"@,
            ))[15] == 'e');
            assert(false);
        },
    }
}

/// A frame that opens like an error frame without an id is one.
proof fn lemma_kind_err_noid(w: Seq<char>, mv: MessageV)
    requires
        w == encode_spec(mv),
        w.len() >= "{\"type\":\"err\",\"eid\":\"incorrectInput\",\"message\":\""@.len(),
        w.subrange(0, "{\"type\":\"err\",\"eid\":\"incorrectInput\",\"message\":\""@.len() as int)
            == "{\"type\":\"err\",\"eid\":\"incorrectInput\",\"message\":\""@,
    ensures
        mv matches MessageV::Error { id: None, .. },
{
    lemma_frame_shape(mv);
    reveal_strlit("{\"type\":\"req\",\"id\":\"");
    reveal_strlit("{\"type\":\"not\",\"method\":\"askMe\",\"params\":\"");
    reveal_strlit("{\"type\":\"res\",\"id\":\"");
    reveal_strlit("{\"type\":\"err\",\"id\":\"");
    reveal_strlit("{\"type\":\"err\",\"eid\":\"incorrectInput\",\"message\":\"");
    let h = "{\"type\":\"err\",\"eid\":\"incorrectInput\",\"message\":\""@;
    assert(w.subrange(0, h.len() as int)[9] == w[9]);
    assert(w.subrange(0, h.len() as int)[15] == w[15]);
    match mv {
        MessageV::Error { id: None, eid: WsErrorId::IncorrectInput, message } => {},
        MessageV::Request { id, method } => {
            assert(("{\"type\":\"req\",\"id\":\""@ + quoted(id, ",\"method\":\""@ + method_spec(method)))[9]
                == 'r');
            assert(false);
        },
        MessageV::Notification { method: NotificationMethodV::AskMe(p) } => {
            assert(("{\"type\":\"not\",\"method\":\"askMe\",\"params\":\""@ + quoted(p, "}"@))[9]
                == 'n');
            assert(false);
        },
        MessageV::Response { id, result: ResponseResultV::Text(x) } => {
            assert(("{\"type\":\"res\",\"id\":\""@ + quoted(id, ",\"result\":\""@ + quoted(x, "}"@)))[9]
                == 'r');
            assert(false);
        },
        MessageV::Error { id: Some(i), eid: WsErrorId::IncorrectInput, message } => {
            assert(("{\"type\":\"err\",\"id\":\""@ + quoted(
                i,
                ",\"eid\":\"incorrectInput\",\"message\":\""@ + quoted(message, "}"@),
            ))[15] == 'i');
            assert(false);
        },
    }
}

/// The characters of a text, one by one.
fn str_to_chars(s: &str) -> (r: Vec<char>)
    ensures
        r@ == s@,
{
    let n = s.unicode_len();
    let mut r: Vec<char> = Vec::new();
    let mut i: usize = 0;
    while i < n
        invariant
            i <= n,
            n == s@.len(),
            r@ == s@.subrange(0, i as int),
        decreases n - i,
    {
        r.push(s.get_char(i));
        proof {
            assert(r@ =~= s@.subrange(0, i + 1));
        }
        i += 1;
    }
    proof {
        assert(s@.subrange(0, n as int) =~= s@);
    }
    r
}

/// Whether the pattern stands in the text at the given position.
fn match_lit(v: &Vec<char>, at: usize, pat: &str) -> (r: bool)
    ensures
        r <==> (at + pat@.len() <= v@.len() && v@.subrange(at as int, at + pat@.len()) == pat@),
{
    let n = pat.unicode_len();
    let vlen = v.len();
    if at > vlen || n > vlen - at {
        return false;
    }
    let mut k: usize = 0;
    while k < n
        invariant
            at + n <= vlen,
            vlen == v@.len(),
            k <= n,
            n == pat@.len(),
            forall|x: int| 0 <= x < k ==> v@[at + x] == pat@[x],
        decreases n - k,
    {
        if v[at + k] != pat.get_char(k) {
            proof {
                assert(v@.subrange(at as int, at + pat@.len())[k as int] == v@[at + k]);
            }
            return false;
        }
        k += 1;
    }
    proof {
        assert(v@.subrange(at as int, at + pat@.len()) =~= pat@);
    }
    true
}

/// A scanned wire string value lines up with any known decomposition of the
/// same suffix: the payloads and the rests agree.
proof fn lemma_align(w: Seq<char>, at: int, j: int, s: Seq<char>, id: Seq<char>, rest: Seq<char>)
    requires
        0 <= at <= j <= w.len(),
        w.subrange(at, j) == esc(s) + seq!['"'],
        w.subrange(at, w.len() as int) == quoted(id, rest),
    ensures
        s == id,
        w.subrange(j, w.len() as int) == rest,
{
    let back = w.subrange(j, w.len() as int);
    assert(w.subrange(at, w.len() as int) =~= w.subrange(at, j) + back);
    assert(quoted(s, back) =~= (esc(s) + seq!['"']) + back);
    lemma_quoted_unique(s, back, id, rest);
}

/// Parses a frame known to open like a request frame.
fn decode_request(v: &Vec<char>) -> (r: Result<WsMessage, DecodeError>)
    requires
        "{\"type\":\"req\",\"id\":\""@.len() <= v@.len(),
        v@.subrange(0, "{\"type\":\"req\",\"id\":\""@.len() as int) == "{\"type\":\"req\",\"id\":\""@,
    ensures
        r matches Ok(m) ==> v@ == encode_spec(m@),
        r is Err ==> forall|mv: MessageV| v@ != encode_spec(mv),
{
    let ghost w = v@;
    let len = v.len();
    proof {
        reveal_strlit("{\"type\":\"req\",\"id\":\"");
        reveal_strlit(",\"method\":\"");
        reveal_strlit("ping\"}");
        reveal_strlit("shutdown\"}");
        reveal_strlit("echo\",\"params\":\"");
        reveal_strlit("}");
    }
    let hl = "{\"type\":\"req\",\"id\":\"".unicode_len();
    match scan_string(v, hl) {
        None => {
            proof {
                assert forall|mv: MessageV| w != encode_spec(mv) by {
                    if w == encode_spec(mv) {
                        lemma_kind_req(w, mv);
                        lemma_frame_shape(mv);
                        if let MessageV::Request { id, method } = mv {
                            assert(w.subrange(0, w.len() as int) =~= w);
                            lemma_prefix_at(
                                w,
                                0,
                                "{\"type\":\"req\",\"id\":\""@,
                                quoted(id, ",\"method\":\""@ + method_spec(method)),
                            );
                            assert(false);
                        }
                    }
                }
            }
            Err(DecodeError {})
        },
        Some((id_s, j)) => {
            if match_lit(v, j, ",\"method\":\"") {
                let k = j + 11;
                if match_lit(v, k, "ping\"}") && k + 6 == len {
                    proof {
                        let mvb = MessageV::Request { id: id_s@, method: RequestMethodV::Ping };
                        lemma_frame_shape(mvb);
                        assert(w =~= w.subrange(0, 20) + w.subrange(20, w.len() as int));
                        assert(w.subrange(20, w.len() as int) =~= w.subrange(20, j as int)
                            + w.subrange(j as int, w.len() as int));
                        assert(w.subrange(j as int, w.len() as int) =~= w.subrange(j as int, k as int)
                            + w.subrange(k as int, w.len() as int));
                        assert(w.subrange(k as int, w.len() as int) == "ping\"}"@);
                        assert(quoted(id_s@, ",\"method\":\""@ + "ping\"}"@) =~= (esc(id_s@)
                            + seq!['"']) + (",\"method\":\""@ + "ping\"}"@));
                        assert(w =~= "{\"type\":\"req\",\"id\":\""@ + quoted(
                            id_s@,
                            ",\"method\":\""@ + "ping\"}"@,
                        ));
                    }
                    return Ok(
                        WsMessage::Request(WsRequest { id: id_s, method: WsRequestMethod::Ping }),
                    );
                }
                if match_lit(v, k, "shutdown\"}") && k + 10 == len {
                    proof {
                        let mvb = MessageV::Request { id: id_s@, method: RequestMethodV::Shutdown };
                        lemma_frame_shape(mvb);
                        assert(w =~= w.subrange(0, 20) + w.subrange(20, w.len() as int));
                        assert(w.subrange(20, w.len() as int) =~= w.subrange(20, j as int)
                            + w.subrange(j as int, w.len() as int));
                        assert(w.subrange(j as int, w.len() as int) =~= w.subrange(j as int, k as int)
                            + w.subrange(k as int, w.len() as int));
                        assert(w.subrange(k as int, w.len() as int) == "shutdown\"}"@);
                        assert(quoted(id_s@, ",\"method\":\""@ + "shutdown\"}"@) =~= (esc(id_s@)
                            + seq!['"']) + (",\"method\":\""@ + "shutdown\"}"@));
                        assert(w =~= "{\"type\":\"req\",\"id\":\""@ + quoted(
                            id_s@,
                            ",\"method\":\""@ + "shutdown\"}"@,
                        ));
                    }
                    return Ok(
                        WsMessage::Request(
                            WsRequest { id: id_s, method: WsRequestMethod::Shutdown },
                        ),
                    );
                }
                if match_lit(v, k, "echo\",\"params\":\"") {
                    let k2 = k + 16;
                    match scan_string(v, k2) {
                        Some((p_s, j2)) => {
                            if match_lit(v, j2, "}") && j2 + 1 == len {
                                proof {
                                    let mvb = MessageV::Request {
                                        id: id_s@,
                                        method: RequestMethodV::Echo(p_s@),
                                    };
                                    lemma_frame_shape(mvb);
                                    lemma_method_shape(RequestMethodV::Echo(p_s@));
                                    assert(w =~= w.subrange(0, 20) + w.subrange(
                                        20,
                                        w.len() as int,
                                    ));
                                    assert(w.subrange(20, w.len() as int) =~= w.subrange(
                                        20,
                                        j as int,
                                    ) + w.subrange(j as int, w.len() as int));
                                    assert(w.subrange(j as int, w.len() as int) =~= w.subrange(
                                        j as int,
                                        k as int,
                                    ) + w.subrange(k as int, w.len() as int));
                                    assert(w.subrange(k as int, w.len() as int) =~= w.subrange(
                                        k as int,
                                        k2 as int,
                                    ) + w.subrange(k2 as int, w.len() as int));
                                    assert(w.subrange(k2 as int, w.len() as int) =~= w.subrange(
                                        k2 as int,
                                        j2 as int,
                                    ) + w.subrange(j2 as int, w.len() as int));
                                    assert(w.subrange(j2 as int, w.len() as int) == "}"@);
                                    assert(quoted(p_s@, "}"@) =~= (esc(p_s@) + seq!['"']) + "}"@);
                                    assert(w.subrange(k as int, w.len() as int)
                                        =~= "echo\",\"params\":\""@ + quoted(p_s@, "}"@));
                                    assert(quoted(
                                        id_s@,
                                        ",\"method\":\""@ + method_spec(RequestMethodV::Echo(p_s@)),
                                    ) =~= (esc(id_s@) + seq!['"']) + (",\"method\":\""@
                                        + ("echo\",\"params\":\""@ + quoted(p_s@, "}"@))));
                                    assert(w =~= "{\"type\":\"req\",\"id\":\""@ + quoted(
                                        id_s@,
                                        ",\"method\":\""@ + method_spec(RequestMethodV::Echo(p_s@)),
                                    ));
                                }
                                return Ok(
                                    WsMessage::Request(
                                        WsRequest {
                                            id: id_s,
                                            method: WsRequestMethod::Echo(p_s),
                                        },
                                    ),
                                );
                            }
                            proof {
                                assert forall|mv: MessageV| w != encode_spec(mv) by {
                                    if w == encode_spec(mv) {
                                        lemma_kind_req(w, mv);
                                        lemma_frame_shape(mv);
                                        if let MessageV::Request { id, method } = mv {
                                            assert(w.subrange(0, w.len() as int) =~= w);
                                            let rest = ",\"method\":\""@ + method_spec(method);
                                            lemma_prefix_at(
                                                w,
                                                0,
                                                "{\"type\":\"req\",\"id\":\""@,
                                                quoted(id, rest),
                                            );
                                            lemma_align(w, 20, j as int, id_s@, id, rest);
                                            lemma_prefix_at(
                                                w,
                                                j as int,
                                                ",\"method\":\""@,
                                                method_spec(method),
                                            );
                                            lemma_method_shape(method);
                                            match method {
                                                RequestMethodV::Ping => {
                                                    assert(false);
                                                },
                                                RequestMethodV::Shutdown => {
                                                    assert(false);
                                                },
                                                RequestMethodV::Echo(p) => {
                                                    lemma_prefix_at(
                                                        w,
                                                        k as int,
                                                        "echo\",\"params\":\""@,
                                                        quoted(p, "}"@),
                                                    );
                                                    lemma_align(w, k2 as int, j2 as int, p_s@, p, "}"@);
                                                    assert(false);
                                                },
                                            }
                                        }
                                    }
                                }
                            }
                            Err(DecodeError {})
                        },
                        None => {
                            proof {
                                assert forall|mv: MessageV| w != encode_spec(mv) by {
                                    if w == encode_spec(mv) {
                                        lemma_kind_req(w, mv);
                                        lemma_frame_shape(mv);
                                        if let MessageV::Request { id, method } = mv {
                                            assert(w.subrange(0, w.len() as int) =~= w);
                                            let rest = ",\"method\":\""@ + method_spec(method);
                                            lemma_prefix_at(
                                                w,
                                                0,
                                                "{\"type\":\"req\",\"id\":\""@,
                                                quoted(id, rest),
                                            );
                                            lemma_align(w, 20, j as int, id_s@, id, rest);
                                            lemma_prefix_at(
                                                w,
                                                j as int,
                                                ",\"method\":\""@,
                                                method_spec(method),
                                            );
                                            lemma_method_shape(method);
                                            match method {
                                                RequestMethodV::Ping => {
                                                    assert(false);
                                                },
                                                RequestMethodV::Shutdown => {
                                                    assert(false);
                                                },
                                                RequestMethodV::Echo(p) => {
                                                    lemma_prefix_at(
                                                        w,
                                                        k as int,
                                                        "echo\",\"params\":\""@,
                                                        quoted(p, "}"@),
                                                    );
                                                    assert(false);
                                                },
                                            }
                                        }
                                    }
                                }
                            }
                            Err(DecodeError {})
                        },
                    }
                } else {
                    proof {
                        assert forall|mv: MessageV| w != encode_spec(mv) by {
                            if w == encode_spec(mv) {
                                lemma_kind_req(w, mv);
                                lemma_frame_shape(mv);
                                if let MessageV::Request { id, method } = mv {
                                    assert(w.subrange(0, w.len() as int) =~= w);
                                    let rest = ",\"method\":\""@ + method_spec(method);
                                    lemma_prefix_at(
                                        w,
                                        0,
                                        "{\"type\":\"req\",\"id\":\""@,
                                        quoted(id, rest),
                                    );
                                    lemma_align(w, 20, j as int, id_s@, id, rest);
                                    lemma_prefix_at(w, j as int, ",\"method\":\""@, method_spec(method));
                                    lemma_method_shape(method);
                                    match method {
                                        RequestMethodV::Ping => {
                                            assert(method_spec(method) =~= "ping\"}"@
                                                + Seq::<char>::empty());
                                            lemma_prefix_at(w, k as int, "ping\"}"@, Seq::empty());
                                            assert(false);
                                        },
                                        RequestMethodV::Shutdown => {
                                            assert(method_spec(method) =~= "shutdown\"}"@
                                                + Seq::<char>::empty());
                                            lemma_prefix_at(
                                                w,
                                                k as int,
                                                "shutdown\"}"@,
                                                Seq::empty(),
                                            );
                                            assert(false);
                                        },
                                        RequestMethodV::Echo(p) => {
                                            lemma_prefix_at(
                                                w,
                                                k as int,
                                                "echo\",\"params\":\""@,
                                                quoted(p, "}"@),
                                            );
                                            assert(false);
                                        },
                                    }
                                }
                            }
                        }
                    }
                    Err(DecodeError {})
                }
            } else {
                proof {
                    assert forall|mv: MessageV| w != encode_spec(mv) by {
                        if w == encode_spec(mv) {
                            lemma_kind_req(w, mv);
                            lemma_frame_shape(mv);
                            if let MessageV::Request { id, method } = mv {
                                assert(w.subrange(0, w.len() as int) =~= w);
                                let rest = ",\"method\":\""@ + method_spec(method);
                                lemma_prefix_at(w, 0, "{\"type\":\"req\",\"id\":\""@, quoted(id, rest));
                                lemma_align(w, 20, j as int, id_s@, id, rest);
                                lemma_prefix_at(w, j as int, ",\"method\":\""@, method_spec(method));
                                assert(false);
                            }
                        }
                    }
                }
                Err(DecodeError {})
            }
        },
    }
}

/// Parses a frame known to open like a notification frame.
fn decode_notification(v: &Vec<char>) -> (r: Result<WsMessage, DecodeError>)
    requires
        "{\"type\":\"not\",\"method\":\"askMe\",\"params\":\""@.len() <= v@.len(),
        v@.subrange(0, "{\"type\":\"not\",\"method\":\"askMe\",\"params\":\""@.len() as int)
            == "{\"type\":\"not\",\"method\":\"askMe\",\"params\":\""@,
    ensures
        r matches Ok(m) ==> v@ == encode_spec(m@),
        r is Err ==> forall|mv: MessageV| v@ != encode_spec(mv),
{
    let ghost w = v@;
    let len = v.len();
    proof {
        reveal_strlit("{\"type\":\"not\",\"method\":\"askMe\",\"params\":\"");
        reveal_strlit("}");
    }
    let hl = "{\"type\":\"not\",\"method\":\"askMe\",\"params\":\"".unicode_len();
    match scan_string(v, hl) {
        None => {
            proof {
                assert forall|mv: MessageV| w != encode_spec(mv) by {
                    if w == encode_spec(mv) {
                        lemma_kind_not(w, mv);
                        lemma_frame_shape(mv);
                        if let MessageV::Notification { method: NotificationMethodV::AskMe(p) } =
                            mv {
                            assert(w.subrange(0, w.len() as int) =~= w);
                            lemma_prefix_at(
                                w,
                                0,
                                "{\"type\":\"not\",\"method\":\"askMe\",\"params\":\""@,
                                quoted(p, "}"@),
                            );
                            assert(false);
                        }
                    }
                }
            }
            Err(DecodeError {})
        },
        Some((p_s, j)) => {
            if match_lit(v, j, "}") && j + 1 == len {
                proof {
                    let mvb = MessageV::Notification {
                        method: NotificationMethodV::AskMe(p_s@),
                    };
                    lemma_frame_shape(mvb);
                    assert(w =~= w.subrange(0, hl as int) + w.subrange(hl as int, w.len() as int));
                    assert(w.subrange(hl as int, w.len() as int) =~= w.subrange(hl as int, j as int)
                        + w.subrange(j as int, w.len() as int));
                    assert(w.subrange(j as int, w.len() as int) == "}"@);
                    assert(quoted(p_s@, "}"@) =~= (esc(p_s@) + seq!['"']) + "}"@);
                    assert(w =~= "{\"type\":\"not\",\"method\":\"askMe\",\"params\":\""@ + quoted(
                        p_s@,
                        "}"@,
                    ));
                }
                return Ok(
                    WsMessage::Notification(
                        WsNotification { method: WsNotificationMethod::AskMe(p_s) },
                    ),
                );
            }
            proof {
                assert forall|mv: MessageV| w != encode_spec(mv) by {
                    if w == encode_spec(mv) {
                        lemma_kind_not(w, mv);
                        lemma_frame_shape(mv);
                        if let MessageV::Notification { method: NotificationMethodV::AskMe(p) } =
                            mv {
                            assert(w.subrange(0, w.len() as int) =~= w);
                            lemma_prefix_at(
                                w,
                                0,
                                "{\"type\":\"not\",\"method\":\"askMe\",\"params\":\""@,
                                quoted(p, "}"@),
                            );
                            lemma_align(w, hl as int, j as int, p_s@, p, "}"@);
                            assert(false);
                        }
                    }
                }
            }
            Err(DecodeError {})
        },
    }
}

/// Parses a frame known to open like a response frame.
fn decode_response(v: &Vec<char>) -> (r: Result<WsMessage, DecodeError>)
    requires
        "{\"type\":\"res\",\"id\":\""@.len() <= v@.len(),
        v@.subrange(0, "{\"type\":\"res\",\"id\":\""@.len() as int) == "{\"type\":\"res\",\"id\":\""@,
    ensures
        r matches Ok(m) ==> v@ == encode_spec(m@),
        r is Err ==> forall|mv: MessageV| v@ != encode_spec(mv),
{
    let ghost w = v@;
    let len = v.len();
    proof {
        reveal_strlit("{\"type\":\"res\",\"id\":\"");
        reveal_strlit(",\"result\":\"");
        reveal_strlit("}");
    }
    let hl = "{\"type\":\"res\",\"id\":\"".unicode_len();
    match scan_string(v, hl) {
        None => {
            proof {
                assert forall|mv: MessageV| w != encode_spec(mv) by {
                    if w == encode_spec(mv) {
                        lemma_kind_res(w, mv);
                        lemma_frame_shape(mv);
                        if let MessageV::Response { id, result: ResponseResultV::Text(x) } = mv {
                            assert(w.subrange(0, w.len() as int) =~= w);
                            lemma_prefix_at(
                                w,
                                0,
                                "{\"type\":\"res\",\"id\":\""@,
                                quoted(id, ",\"result\":\""@ + quoted(x, "}"@)),
                            );
                            assert(false);
                        }
                    }
                }
            }
            Err(DecodeError {})
        },
        Some((id_s, j)) => {
            if match_lit(v, j, ",\"result\":\"") {
                let k = j + 11;
                match scan_string(v, k) {
                    None => {
                        proof {
                            assert forall|mv: MessageV| w != encode_spec(mv) by {
                                if w == encode_spec(mv) {
                                    lemma_kind_res(w, mv);
                                    lemma_frame_shape(mv);
                                    if let MessageV::Response {
                                        id,
                                        result: ResponseResultV::Text(x),
                                    } = mv {
                                        assert(w.subrange(0, w.len() as int) =~= w);
                                        let rest = ",\"result\":\""@ + quoted(x, "}"@);
                                        lemma_prefix_at(
                                            w,
                                            0,
                                            "{\"type\":\"res\",\"id\":\""@,
                                            quoted(id, rest),
                                        );
                                        lemma_align(w, 20, j as int, id_s@, id, rest);
                                        lemma_prefix_at(
                                            w,
                                            j as int,
                                            ",\"result\":\""@,
                                            quoted(x, "}"@),
                                        );
                                        assert(false);
                                    }
                                }
                            }
                        }
                        Err(DecodeError {})
                    },
                    Some((x_s, j2)) => {
                        if match_lit(v, j2, "}") && j2 + 1 == len {
                            proof {
                                let mvb = MessageV::Response {
                                    id: id_s@,
                                    result: ResponseResultV::Text(x_s@),
                                };
                                lemma_frame_shape(mvb);
                                assert(w =~= w.subrange(0, 20) + w.subrange(20, w.len() as int));
                                assert(w.subrange(20, w.len() as int) =~= w.subrange(20, j as int)
                                    + w.subrange(j as int, w.len() as int));
                                assert(w.subrange(j as int, w.len() as int) =~= w.subrange(
                                    j as int,
                                    k as int,
                                ) + w.subrange(k as int, w.len() as int));
                                assert(w.subrange(k as int, w.len() as int) =~= w.subrange(
                                    k as int,
                                    j2 as int,
                                ) + w.subrange(j2 as int, w.len() as int));
                                assert(w.subrange(j2 as int, w.len() as int) == "}"@);
                                assert(quoted(x_s@, "}"@) =~= (esc(x_s@) + seq!['"']) + "}"@);
                                assert(quoted(id_s@, ",\"result\":\""@ + quoted(x_s@, "}"@))
                                    =~= (esc(id_s@) + seq!['"']) + (",\"result\":\""@ + quoted(
                                    x_s@,
                                    "}"@,
                                )));
                                assert(w =~= "{\"type\":\"res\",\"id\":\""@ + quoted(
                                    id_s@,
                                    ",\"result\":\""@ + quoted(x_s@, "}"@),
                                ));
                            }
                            return Ok(
                                WsMessage::Response(
                                    WsResponse {
                                        id: id_s,
                                        result: WsResponseResult::Text(x_s),
                                    },
                                ),
                            );
                        }
                        proof {
                            assert forall|mv: MessageV| w != encode_spec(mv) by {
                                if w == encode_spec(mv) {
                                    lemma_kind_res(w, mv);
                                    lemma_frame_shape(mv);
                                    if let MessageV::Response {
                                        id,
                                        result: ResponseResultV::Text(x),
                                    } = mv {
                                        assert(w.subrange(0, w.len() as int) =~= w);
                                        let rest = ",\"result\":\""@ + quoted(x, "}"@);
                                        lemma_prefix_at(
                                            w,
                                            0,
                                            "{\"type\":\"res\",\"id\":\""@,
                                            quoted(id, rest),
                                        );
                                        lemma_align(w, 20, j as int, id_s@, id, rest);
                                        lemma_prefix_at(
                                            w,
                                            j as int,
                                            ",\"result\":\""@,
                                            quoted(x, "}"@),
                                        );
                                        lemma_align(w, k as int, j2 as int, x_s@, x, "}"@);
                                        assert(false);
                                    }
                                }
                            }
                        }
                        Err(DecodeError {})
                    },
                }
            } else {
                proof {
                    assert forall|mv: MessageV| w != encode_spec(mv) by {
                        if w == encode_spec(mv) {
                            lemma_kind_res(w, mv);
                            lemma_frame_shape(mv);
                            if let MessageV::Response { id, result: ResponseResultV::Text(x) } =
                                mv {
                                assert(w.subrange(0, w.len() as int) =~= w);
                                let rest = ",\"result\":\""@ + quoted(x, "}"@);
                                lemma_prefix_at(
                                    w,
                                    0,
                                    "{\"type\":\"res\",\"id\":\""@,
                                    quoted(id, rest),
                                );
                                lemma_align(w, 20, j as int, id_s@, id, rest);
                                lemma_prefix_at(w, j as int, ",\"result\":\""@, quoted(x, "}"@));
                                assert(false);
                            }
                        }
                    }
                }
                Err(DecodeError {})
            }
        },
    }
}

/// Parses a frame known to open like an error frame that answers a request.
fn decode_error_id(v: &Vec<char>) -> (r: Result<WsMessage, DecodeError>)
    requires
        "{\"type\":\"err\",\"id\":\""@.len() <= v@.len(),
        v@.subrange(0, "{\"type\":\"err\",\"id\":\""@.len() as int) == "{\"type\":\"err\",\"id\":\""@,
    ensures
        r matches Ok(m) ==> v@ == encode_spec(m@),
        r is Err ==> forall|mv: MessageV| v@ != encode_spec(mv),
{
    let ghost w = v@;
    let len = v.len();
    proof {
        reveal_strlit("{\"type\":\"err\",\"id\":\"");
        reveal_strlit(",\"eid\":\"incorrectInput\",\"message\":\"");
        reveal_strlit("}");
    }
    let hl = "{\"type\":\"err\",\"id\":\"".unicode_len();
    match scan_string(v, hl) {
        None => {
            proof {
                assert forall|mv: MessageV| w != encode_spec(mv) by {
                    if w == encode_spec(mv) {
                        lemma_kind_err_id(w, mv);
                        lemma_frame_shape(mv);
                        if let MessageV::Error {
                            id: Some(i),
                            eid: WsErrorId::IncorrectInput,
                            message,
                        } = mv {
                            assert(w.subrange(0, w.len() as int) =~= w);
                            lemma_prefix_at(
                                w,
                                0,
                                "{\"type\":\"err\",\"id\":\""@,
                                quoted(
                                    i,
                                    ",\"eid\":\"incorrectInput\",\"message\":\""@ + quoted(
                                        message,
                                        "}"@,
                                    ),
                                ),
                            );
                            assert(false);
                        }
                    }
                }
            }
            Err(DecodeError {})
        },
        Some((id_s, j)) => {
            if match_lit(v, j, ",\"eid\":\"incorrectInput\",\"message\":\"") {
                let k = j + ",\"eid\":\"incorrectInput\",\"message\":\"".unicode_len();
                match scan_string(v, k) {
                    None => {
                        proof {
                            assert forall|mv: MessageV| w != encode_spec(mv) by {
                                if w == encode_spec(mv) {
                                    lemma_kind_err_id(w, mv);
                                    lemma_frame_shape(mv);
                                    if let MessageV::Error {
                                        id: Some(i),
                                        eid: WsErrorId::IncorrectInput,
                                        message,
                                    } = mv {
                                        assert(w.subrange(0, w.len() as int) =~= w);
                                        let rest = ",\"eid\":\"incorrectInput\",\"message\":\""@
                                            + quoted(message, "}"@);
                                        lemma_prefix_at(
                                            w,
                                            0,
                                            "{\"type\":\"err\",\"id\":\""@,
                                            quoted(i, rest),
                                        );
                                        lemma_align(w, 20, j as int, id_s@, i, rest);
                                        lemma_prefix_at(
                                            w,
                                            j as int,
                                            ",\"eid\":\"incorrectInput\",\"message\":\""@,
                                            quoted(message, "}"@),
                                        );
                                        assert(false);
                                    }
                                }
                            }
                        }
                        Err(DecodeError {})
                    },
                    Some((m_s, j2)) => {
                        if match_lit(v, j2, "}") && j2 + 1 == len {
                            proof {
                                let mvb = MessageV::Error {
                                    id: Some(id_s@),
                                    eid: WsErrorId::IncorrectInput,
                                    message: m_s@,
                                };
                                lemma_frame_shape(mvb);
                                assert(w =~= w.subrange(0, 20) + w.subrange(20, w.len() as int));
                                assert(w.subrange(20, w.len() as int) =~= w.subrange(20, j as int)
                                    + w.subrange(j as int, w.len() as int));
                                assert(w.subrange(j as int, w.len() as int) =~= w.subrange(
                                    j as int,
                                    k as int,
                                ) + w.subrange(k as int, w.len() as int));
                                assert(w.subrange(k as int, w.len() as int) =~= w.subrange(
                                    k as int,
                                    j2 as int,
                                ) + w.subrange(j2 as int, w.len() as int));
                                assert(w.subrange(j2 as int, w.len() as int) == "}"@);
                                assert(quoted(m_s@, "}"@) =~= (esc(m_s@) + seq!['"']) + "}"@);
                                assert(quoted(
                                    id_s@,
                                    ",\"eid\":\"incorrectInput\",\"message\":\""@ + quoted(
                                        m_s@,
                                        "}"@,
                                    ),
                                ) =~= (esc(id_s@) + seq!['"'])
                                    + (",\"eid\":\"incorrectInput\",\"message\":\""@ + quoted(
                                    m_s@,
                                    "}"@,
                                )));
                                assert(w =~= "{\"type\":\"err\",\"id\":\""@ + quoted(
                                    id_s@,
                                    ",\"eid\":\"incorrectInput\",\"message\":\""@ + quoted(
                                        m_s@,
                                        "}"@,
                                    ),
                                ));
                            }
                            return Ok(
                                WsMessage::Error(
                                    WsError {
                                        id: Some(id_s),
                                        eid: WsErrorId::IncorrectInput,
                                        message: m_s,
                                    },
                                ),
                            );
                        }
                        proof {
                            assert forall|mv: MessageV| w != encode_spec(mv) by {
                                if w == encode_spec(mv) {
                                    lemma_kind_err_id(w, mv);
                                    lemma_frame_shape(mv);
                                    if let MessageV::Error {
                                        id: Some(i),
                                        eid: WsErrorId::IncorrectInput,
                                        message,
                                    } = mv {
                                        assert(w.subrange(0, w.len() as int) =~= w);
                                        let rest = ",\"eid\":\"incorrectInput\",\"message\":\""@
                                            + quoted(message, "}"@);
                                        lemma_prefix_at(
                                            w,
                                            0,
                                            "{\"type\":\"err\",\"id\":\""@,
                                            quoted(i, rest),
                                        );
                                        lemma_align(w, 20, j as int, id_s@, i, rest);
                                        lemma_prefix_at(
                                            w,
                                            j as int,
                                            ",\"eid\":\"incorrectInput\",\"message\":\""@,
                                            quoted(message, "}"@),
                                        );
                                        lemma_align(w, k as int, j2 as int, m_s@, message, "}"@);
                                        assert(false);
                                    }
                                }
                            }
                        }
                        Err(DecodeError {})
                    },
                }
            } else {
                proof {
                    assert forall|mv: MessageV| w != encode_spec(mv) by {
                        if w == encode_spec(mv) {
                            lemma_kind_err_id(w, mv);
                            lemma_frame_shape(mv);
                            if let MessageV::Error {
                                id: Some(i),
                                eid: WsErrorId::IncorrectInput,
                                message,
                            } = mv {
                                assert(w.subrange(0, w.len() as int) =~= w);
                                let rest = ",\"eid\":\"incorrectInput\",\"message\":\""@ + quoted(
                                    message,
                                    "}"@,
                                );
                                lemma_prefix_at(
                                    w,
                                    0,
                                    "{\"type\":\"err\",\"id\":\""@,
                                    quoted(i, rest),
                                );
                                lemma_align(w, 20, j as int, id_s@, i, rest);
                                lemma_prefix_at(
                                    w,
                                    j as int,
                                    ",\"eid\":\"incorrectInput\",\"message\":\""@,
                                    quoted(message, "}"@),
                                );
                                assert(false);
                            }
                        }
                    }
                }
                Err(DecodeError {})
            }
        },
    }
}

/// Parses a frame known to open like an unsolicited error frame.
fn decode_error_noid(v: &Vec<char>) -> (r: Result<WsMessage, DecodeError>)
    requires
        "{\"type\":\"err\",\"eid\":\"incorrectInput\",\"message\":\""@.len() <= v@.len(),
        v@.subrange(
            0,
            "{\"type\":\"err\",\"eid\":\"incorrectInput\",\"message\":\""@.len() as int,
        ) == "{\"type\":\"err\",\"eid\":\"incorrectInput\",\"message\":\""@,
    ensures
        r matches Ok(m) ==> v@ == encode_spec(m@),
        r is Err ==> forall|mv: MessageV| v@ != encode_spec(mv),
{
    let ghost w = v@;
    let len = v.len();
    proof {
        reveal_strlit("{\"type\":\"err\",\"eid\":\"incorrectInput\",\"message\":\"");
        reveal_strlit("}");
    }
    let hl = "{\"type\":\"err\",\"eid\":\"incorrectInput\",\"message\":\"".unicode_len();
    match scan_string(v, hl) {
        None => {
            proof {
                assert forall|mv: MessageV| w != encode_spec(mv) by {
                    if w == encode_spec(mv) {
                        lemma_kind_err_noid(w, mv);
                        lemma_frame_shape(mv);
                        if let MessageV::Error {
                            id: None,
                            eid: WsErrorId::IncorrectInput,
                            message,
                        } = mv {
                            assert(w.subrange(0, w.len() as int) =~= w);
                            lemma_prefix_at(
                                w,
                                0,
                                "{\"type\":\"err\",\"eid\":\"incorrectInput\",\"message\":\""@,
                                quoted(message, "}"@),
                            );
                            assert(false);
                        }
                    }
                }
            }
            Err(DecodeError {})
        },
        Some((m_s, j)) => {
            if match_lit(v, j, "}") && j + 1 == len {
                proof {
                    let mvb = MessageV::Error {
                        id: None,
                        eid: WsErrorId::IncorrectInput,
                        message: m_s@,
                    };
                    lemma_frame_shape(mvb);
                    assert(w =~= w.subrange(0, hl as int) + w.subrange(hl as int, w.len() as int));
                    assert(w.subrange(hl as int, w.len() as int) =~= w.subrange(hl as int, j as int)
                        + w.subrange(j as int, w.len() as int));
                    assert(w.subrange(j as int, w.len() as int) == "}"@);
                    assert(quoted(m_s@, "}"@) =~= (esc(m_s@) + seq!['"']) + "}"@);
                    assert(w =~= "{\"type\":\"err\",\"eid\":\"incorrectInput\",\"message\":\""@
                        + quoted(m_s@, "}"@));
                }
                return Ok(
                    WsMessage::Error(
                        WsError { id: None, eid: WsErrorId::IncorrectInput, message: m_s },
                    ),
                );
            }
            proof {
                assert forall|mv: MessageV| w != encode_spec(mv) by {
                    if w == encode_spec(mv) {
                        lemma_kind_err_noid(w, mv);
                        lemma_frame_shape(mv);
                        if let MessageV::Error {
                            id: None,
                            eid: WsErrorId::IncorrectInput,
                            message,
                        } = mv {
                            assert(w.subrange(0, w.len() as int) =~= w);
                            lemma_prefix_at(
                                w,
                                0,
                                "{\"type\":\"err\",\"eid\":\"incorrectInput\",\"message\":\""@,
                                quoted(message, "}"@),
                            );
                            lemma_align(w, hl as int, j as int, m_s@, message, "}"@);
                            assert(false);
                        }
                    }
                }
            }
            Err(DecodeError {})
        },
    }
}

/// Parses a text frame back into a message. Succeeds exactly on the
/// canonical frames — those `encode` emits, with the fields of each kind in
/// their fixed order and nothing besides: a frame with an unrecognized kind
/// or method tag, a field not in its kind's schema, reordered fields or
/// stray whitespace, or malformed text decodes to an error and to nothing
/// else.
pub fn decode(t: &str) -> (r: Result<WsMessage, DecodeError>)
    ensures
        r matches Ok(m) ==> t@ == encode_spec(m@),
        r is Err ==> forall|mv: MessageV| t@ != encode_spec(mv),
{
    let v = str_to_chars(t);
    let ghost w = t@;
    if match_lit(&v, 0, "{\"type\":\"req\",\"id\":\"") {
        decode_request(&v)
    } else if match_lit(&v, 0, "{\"type\":\"not\",\"method\":\"askMe\",\"params\":\"") {
        decode_notification(&v)
    } else if match_lit(&v, 0, "{\"type\":\"res\",\"id\":\"") {
        decode_response(&v)
    } else if match_lit(&v, 0, "{\"type\":\"err\",\"id\":\"") {
        decode_error_id(&v)
    } else if match_lit(&v, 0, "{\"type\":\"err\",\"eid\":\"incorrectInput\",\"message\":\"") {
        decode_error_noid(&v)
    } else {
        proof {
            assert forall|mv: MessageV| w != encode_spec(mv) by {
                if w == encode_spec(mv) {
                    lemma_frame_shape(mv);
                    assert(w.subrange(0, w.len() as int) =~= w);
                    match mv {
                        MessageV::Request { id, method } => {
                            lemma_prefix_at(
                                w,
                                0,
                                "{\"type\":\"req\",\"id\":\""@,
                                quoted(id, ",\"method\":\""@ + method_spec(method)),
                            );
                            assert(false);
                        },
                        MessageV::Notification { method: NotificationMethodV::AskMe(p) } => {
                            lemma_prefix_at(
                                w,
                                0,
                                "{\"type\":\"not\",\"method\":\"askMe\",\"params\":\""@,
                                quoted(p, "}"@),
                            );
                            assert(false);
                        },
                        MessageV::Response { id, result: ResponseResultV::Text(x) } => {
                            lemma_prefix_at(
                                w,
                                0,
                                "{\"type\":\"res\",\"id\":\""@,
                                quoted(id, ",\"result\":\""@ + quoted(x, "}"@)),
                            );
                            assert(false);
                        },
                        MessageV::Error { id: Some(i), eid: WsErrorId::IncorrectInput, message } => {
                            lemma_prefix_at(
                                w,
                                0,
                                "{\"type\":\"err\",\"id\":\""@,
                                quoted(
                                    i,
                                    ",\"eid\":\"incorrectInput\",\"message\":\""@ + quoted(
                                        message,
                                        "}"@,
                                    ),
                                ),
                            );
                            assert(false);
                        },
                        MessageV::Error { id: None, eid: WsErrorId::IncorrectInput, message } => {
                            lemma_prefix_at(
                                w,
                                0,
                                "{\"type\":\"err\",\"eid\":\"incorrectInput\",\"message\":\""@,
                                quoted(message, "}"@),
                            );
                            assert(false);
                        },
                    }
                }
            }
        }
        Err(DecodeError {})
    }
}

/// The round-trip law's core: no two distinct messages share a frame, so the
/// decoder's exact contract gives back precisely the message that was
/// encoded.
pub proof fn lemma_encode_injective(m1: MessageV, m2: MessageV)
    requires
        encode_spec(m1) == encode_spec(m2),
    ensures
        m1 == m2,
{
    let w = encode_spec(m1);
    lemma_frame_shape(m1);
    lemma_frame_shape(m2);
    assert(w.subrange(0, w.len() as int) =~= w);
    reveal_strlit("{\"type\":\"req\",\"id\":\"");
    reveal_strlit("{\"type\":\"not\",\"method\":\"askMe\",\"params\":\"");
    reveal_strlit("{\"type\":\"res\",\"id\":\"");
    reveal_strlit("{\"type\":\"err\",\"id\":\"");
    reveal_strlit("{\"type\":\"err\",\"eid\":\"incorrectInput\",\"message\":\"");
    reveal_strlit(",\"method\":\"");
    reveal_strlit(",\"result\":\"");
    reveal_strlit(",\"eid\":\"incorrectInput\",\"message\":\"");
    reveal_strlit("ping\"}");
    reveal_strlit("shutdown\"}");
    reveal_strlit("echo\",\"params\":\"");
    reveal_strlit("}");
    match m1 {
        MessageV::Request { id: id1, method: me1 } => {
            lemma_prefix_at(
                w,
                0,
                "{\"type\":\"req\",\"id\":\""@,
                quoted(id1, ",\"method\":\""@ + method_spec(me1)),
            );
            lemma_kind_req(w, m2);
            if let MessageV::Request { id: id2, method: me2 } = m2 {
                lemma_cancel(
                    "{\"type\":\"req\",\"id\":\""@,
                    quoted(id1, ",\"method\":\""@ + method_spec(me1)),
                    quoted(id2, ",\"method\":\""@ + method_spec(me2)),
                );
                lemma_quoted_unique(
                    id1,
                    ",\"method\":\""@ + method_spec(me1),
                    id2,
                    ",\"method\":\""@ + method_spec(me2),
                );
                lemma_cancel(",\"method\":\""@, method_spec(me1), method_spec(me2));
                lemma_method_shape(me1);
                lemma_method_shape(me2);
                let u = method_spec(me1);
                match me1 {
                    RequestMethodV::Ping => {
                        match me2 {
                            RequestMethodV::Ping => {},
                            RequestMethodV::Shutdown => {
                                assert(u.len() == 6 && u.len() == 10);
                                assert(false);
                            },
                            RequestMethodV::Echo(p2) => {
                                assert(u[0] == 'p');
                                assert(("echo\",\"params\":\""@ + quoted(p2, "}"@))[0] == 'e');
                                assert(false);
                            },
                        }
                    },
                    RequestMethodV::Shutdown => {
                        match me2 {
                            RequestMethodV::Shutdown => {},
                            RequestMethodV::Ping => {
                                assert(u.len() == 10 && u.len() == 6);
                                assert(false);
                            },
                            RequestMethodV::Echo(p2) => {
                                assert(u[0] == 's');
                                assert(("echo\",\"params\":\""@ + quoted(p2, "}"@))[0] == 'e');
                                assert(false);
                            },
                        }
                    },
                    RequestMethodV::Echo(p1) => {
                        match me2 {
                            RequestMethodV::Echo(p2) => {
                                lemma_cancel(
                                    "echo\",\"params\":\""@,
                                    quoted(p1, "}"@),
                                    quoted(p2, "}"@),
                                );
                                lemma_quoted_unique(p1, "}"@, p2, "}"@);
                            },
                            RequestMethodV::Ping => {
                                assert(u[0] == 'e');
                                assert("ping\"}"@[0] == 'p');
                                assert(false);
                            },
                            RequestMethodV::Shutdown => {
                                assert(u[0] == 'e');
                                assert("shutdown\"}"@[0] == 's');
                                assert(false);
                            },
                        }
                    },
                }
            }
        },
        MessageV::Notification { method: NotificationMethodV::AskMe(p1) } => {
            lemma_prefix_at(
                w,
                0,
                "{\"type\":\"not\",\"method\":\"askMe\",\"params\":\""@,
                quoted(p1, "}"@),
            );
            lemma_kind_not(w, m2);
            if let MessageV::Notification { method: NotificationMethodV::AskMe(p2) } = m2 {
                lemma_cancel(
                    "{\"type\":\"not\",\"method\":\"askMe\",\"params\":\""@,
                    quoted(p1, "}"@),
                    quoted(p2, "}"@),
                );
                lemma_quoted_unique(p1, "}"@, p2, "}"@);
            }
        },
        MessageV::Response { id: id1, result: ResponseResultV::Text(x1) } => {
            lemma_prefix_at(
                w,
                0,
                "{\"type\":\"res\",\"id\":\""@,
                quoted(id1, ",\"result\":\""@ + quoted(x1, "}"@)),
            );
            lemma_kind_res(w, m2);
            if let MessageV::Response { id: id2, result: ResponseResultV::Text(x2) } = m2 {
                lemma_cancel(
                    "{\"type\":\"res\",\"id\":\""@,
                    quoted(id1, ",\"result\":\""@ + quoted(x1, "}"@)),
                    quoted(id2, ",\"result\":\""@ + quoted(x2, "}"@)),
                );
                lemma_quoted_unique(
                    id1,
                    ",\"result\":\""@ + quoted(x1, "}"@),
                    id2,
                    ",\"result\":\""@ + quoted(x2, "}"@),
                );
                lemma_cancel(",\"result\":\""@, quoted(x1, "}"@), quoted(x2, "}"@));
                lemma_quoted_unique(x1, "}"@, x2, "}"@);
            }
        },
        MessageV::Error { id: Some(i1), eid: WsErrorId::IncorrectInput, message: g1 } => {
            lemma_prefix_at(
                w,
                0,
                "{\"type\":\"err\",\"id\":\""@,
                quoted(i1, ",\"eid\":\"incorrectInput\",\"message\":\""@ + quoted(g1, "}"@)),
            );
            lemma_kind_err_id(w, m2);
            if let MessageV::Error { id: Some(i2), eid: WsErrorId::IncorrectInput, message: g2 } =
                m2 {
                lemma_cancel(
                    "{\"type\":\"err\",\"id\":\""@,
                    quoted(i1, ",\"eid\":\"incorrectInput\",\"message\":\""@ + quoted(g1, "}"@)),
                    quoted(i2, ",\"eid\":\"incorrectInput\",\"message\":\""@ + quoted(g2, "}"@)),
                );
                lemma_quoted_unique(
                    i1,
                    ",\"eid\":\"incorrectInput\",\"message\":\""@ + quoted(g1, "}"@),
                    i2,
                    ",\"eid\":\"incorrectInput\",\"message\":\""@ + quoted(g2, "}"@),
                );
                lemma_cancel(
                    ",\"eid\":\"incorrectInput\",\"message\":\""@,
                    quoted(g1, "}"@),
                    quoted(g2, "}"@),
                );
                lemma_quoted_unique(g1, "}"@, g2, "}"@);
            }
        },
        MessageV::Error { id: None, eid: WsErrorId::IncorrectInput, message: g1 } => {
            lemma_prefix_at(
                w,
                0,
                "{\"type\":\"err\",\"eid\":\"incorrectInput\",\"message\":\""@,
                quoted(g1, "}"@),
            );
            lemma_kind_err_noid(w, m2);
            if let MessageV::Error { id: None, eid: WsErrorId::IncorrectInput, message: g2 } = m2 {
                lemma_cancel(
                    "{\"type\":\"err\",\"eid\":\"incorrectInput\",\"message\":\""@,
                    quoted(g1, "}"@),
                    quoted(g2, "}"@),
                );
                lemma_quoted_unique(g1, "}"@, g2, "}"@);
            }
        },
    }
}

/// The round-trip law: every message's canonical frame decodes back to that
/// very message — it is the frame of no other message, and the decoder's
/// contract owes success and exactness on it.
pub proof fn lemma_round_trip(m: MessageV, t: Seq<char>, r: Option<MessageV>)
    requires
        t == encode_spec(m),
        r matches Some(m2) ==> t == encode_spec(m2),
        r is None ==> forall|mv: MessageV| t != encode_spec(mv),
    ensures
        r == Some(m),
{
    if let Some(m2) = r {
        lemma_encode_injective(m, m2);
    }
}

/// An unrecognized request method is always rejected: a request frame whose
/// method value is anything but `ping`, `echo` or `shutdown` is the frame of
/// no message at all, so by the decoder's contract decoding it always fails —
/// and, the decoder being a pure function, touches no session state.
pub proof fn lemma_unknown_request_method(id: Seq<char>, tag: Seq<char>)
    requires
        forall|i: int| 0 <= i < tag.len() ==> tag[i] != '"',
        tag != "ping"@,
        tag != "echo"@,
        tag != "shutdown"@,
    ensures
        forall|mv: MessageV|
            "{\"type\":\"req\",\"id\":\""@ + quoted(id, ",\"method\":\""@ + (tag + "\"}"@))
                != encode_spec(mv),
{
    reveal_strlit("{\"type\":\"req\",\"id\":\"");
    reveal_strlit(",\"method\":\"");
    reveal_strlit("ping\"}");
    reveal_strlit("shutdown\"}");
    reveal_strlit("echo\",\"params\":\"");
    reveal_strlit("\"}");
    reveal_strlit("ping");
    reveal_strlit("shutdown");
    let t = "{\"type\":\"req\",\"id\":\""@ + quoted(id, ",\"method\":\""@ + (tag + "\"}"@));
    assert forall|mv: MessageV| t != encode_spec(mv) by {
        if t == encode_spec(mv) {
            assert(t.subrange(0, t.len() as int) =~= t);
            lemma_prefix_at(
                t,
                0,
                "{\"type\":\"req\",\"id\":\""@,
                quoted(id, ",\"method\":\""@ + (tag + "\"}"@)),
            );
            lemma_kind_req(t, mv);
            lemma_frame_shape(mv);
            if let MessageV::Request { id: id2, method } = mv {
                lemma_cancel(
                    "{\"type\":\"req\",\"id\":\""@,
                    quoted(id, ",\"method\":\""@ + (tag + "\"}"@)),
                    quoted(id2, ",\"method\":\""@ + method_spec(method)),
                );
                lemma_quoted_unique(
                    id,
                    ",\"method\":\""@ + (tag + "\"}"@),
                    id2,
                    ",\"method\":\""@ + method_spec(method),
                );
                lemma_cancel(",\"method\":\""@, tag + "\"}"@, method_spec(method));
                lemma_method_shape(method);
                let u = tag + "\"}"@;
                match method {
                    RequestMethodV::Ping => {
                        assert(u.len() == 6);
                        assert(tag.len() == 4);
                        assert(tag =~= "ping"@) by {
                            assert forall|x: int| 0 <= x < 4 implies tag[x] == "ping"@[x] by {
                                assert(u[x] == tag[x]);
                                assert(u[x] == "ping\"}"@[x]);
                            }
                        }
                        assert(false);
                    },
                    RequestMethodV::Shutdown => {
                        assert(u.len() == 10);
                        assert(tag.len() == 8);
                        assert(tag =~= "shutdown"@) by {
                            assert forall|x: int| 0 <= x < 8 implies tag[x] == "shutdown"@[x] by {
                                assert(u[x] == tag[x]);
                                assert(u[x] == "shutdown\"}"@[x]);
                            }
                        }
                        assert(false);
                    },
                    RequestMethodV::Echo(p) => {
                        let e = "echo\",\"params\":\""@;
                        assert(u == e + quoted(p, "}"@));
                        assert(u.len() == tag.len() + 2);
                        assert(quoted(p, "}"@).len() >= 2);
                        assert(u.len() >= 18);
                        assert(tag.len() >= 16);
                        assert(u[4] == tag[4]);
                        assert((e + quoted(p, "}"@))[4] == e[4]);
                        assert(e[4] == '"');
                        assert(false);
                    },
                }
            }
        }
    }
}

/// An unrecognized notification method is always rejected: a notification
/// frame whose method value is anything but `askMe` is the frame of no
/// message, so decoding it always fails.
pub proof fn lemma_unknown_notification_method(tag: Seq<char>, p: Seq<char>)
    requires
        forall|i: int| 0 <= i < tag.len() ==> tag[i] != '"',
        tag != "askMe"@,
    ensures
        forall|mv: MessageV|
            "{\"type\":\"not\",\"method\":\""@ + (tag + ("\",\"params\":\""@ + quoted(p, "}"@)))
                != encode_spec(mv),
{
    reveal_strlit("{\"type\":\"not\",\"method\":\"");
    reveal_strlit("\",\"params\":\"");
    reveal_strlit("{\"type\":\"req\",\"id\":\"");
    reveal_strlit("{\"type\":\"not\",\"method\":\"askMe\",\"params\":\"");
    reveal_strlit("{\"type\":\"res\",\"id\":\"");
    reveal_strlit("{\"type\":\"err\",\"id\":\"");
    reveal_strlit("{\"type\":\"err\",\"eid\":\"incorrectInput\",\"message\":\"");
    reveal_strlit("askMe");
    let a = "{\"type\":\"not\",\"method\":\""@;
    let b = "\",\"params\":\""@;
    let h = "{\"type\":\"not\",\"method\":\"askMe\",\"params\":\""@;
    let t = a + (tag + (b + quoted(p, "}"@)));
    assert forall|mv: MessageV| t != encode_spec(mv) by {
        if t == encode_spec(mv) {
            lemma_frame_shape(mv);
            assert(t[9] == a[9]);
            assert(a[9] == 'n');
            match mv {
                MessageV::Notification { method: NotificationMethodV::AskMe(p2) } => {
                    assert(t == h + quoted(p2, "}"@));
                    // The method value region of t starts at position 24 and
                    // is followed by a quote; in h the five characters at 24
                    // spell askMe and a quote stands at 29.
                    assert forall|x: int| 0 <= x < tag.len() implies t[24 + x] == tag[x] by {
                        assert((tag + (b + quoted(p, "}"@)))[x] == tag[x]);
                    }
                    assert(t[24 + tag.len() as int] == b[0]) by {
                        assert((tag + (b + quoted(p, "}"@)))[tag.len() as int] == (b + quoted(
                            p,
                            "}"@,
                        ))[0]);
                    }
                    assert(b[0] == '"');
                    if tag.len() < 5 {
                        assert(t[24 + tag.len() as int] == h[24 + tag.len() as int]);
                        assert(h[24] == 'a' && h[25] == 's' && h[26] == 'k' && h[27] == 'M'
                            && h[28] == 'e');
                        assert(false);
                    } else if tag.len() == 5 {
                        assert(tag =~= "askMe"@) by {
                            assert forall|x: int| 0 <= x < 5 implies tag[x] == "askMe"@[x] by {
                                assert(t[24 + x] == h[24 + x]);
                                assert(h[24 + x] == "askMe"@[x]);
                            }
                        }
                        assert(false);
                    } else {
                        assert(t[29] == tag[5]);
                        assert(t[29] == h[29]);
                        assert(h[29] == '"');
                        assert(false);
                    }
                },
                MessageV::Request { id, method } => {
                    assert(t[9] == "{\"type\":\"req\",\"id\":\""@[9]);
                    assert(false);
                },
                MessageV::Response { id, result: ResponseResultV::Text(x) } => {
                    assert(t[9] == "{\"type\":\"res\",\"id\":\""@[9]);
                    assert(false);
                },
                MessageV::Error { id: Some(i), eid: WsErrorId::IncorrectInput, message } => {
                    assert(t[9] == "{\"type\":\"err\",\"id\":\""@[9]);
                    assert(false);
                },
                MessageV::Error { id: None, eid: WsErrorId::IncorrectInput, message } => {
                    assert(t[9] == "{\"type\":\"err\",\"eid\":\"incorrectInput\",\"message\":\""@[9]);
                    assert(false);
                },
            }
        }
    }
}

/// A field beyond the schema is always rejected: a request frame that goes on
/// after `"method":"ping"` with a further field instead of the closing brace
/// is the frame of no message, so decoding it always fails. The
/// deny-unknown-fields policy is not a choice the decoder makes but a fact of
/// the wire language.
pub proof fn lemma_extra_field_rejected(id: Seq<char>, rest: Seq<char>)
    ensures
        forall|mv: MessageV|
            "{\"type\":\"req\",\"id\":\""@ + quoted(id, ",\"method\":\""@ + ("ping\",\""@ + rest))
                != encode_spec(mv),
{
    reveal_strlit("{\"type\":\"req\",\"id\":\"");
    reveal_strlit(",\"method\":\"");
    reveal_strlit("ping\"}");
    reveal_strlit("shutdown\"}");
    reveal_strlit("echo\",\"params\":\"");
    reveal_strlit("ping\",\"");
    let t = "{\"type\":\"req\",\"id\":\""@ + quoted(id, ",\"method\":\""@ + ("ping\",\""@ + rest));
    assert forall|mv: MessageV| t != encode_spec(mv) by {
        if t == encode_spec(mv) {
            assert(t.subrange(0, t.len() as int) =~= t);
            lemma_prefix_at(
                t,
                0,
                "{\"type\":\"req\",\"id\":\""@,
                quoted(id, ",\"method\":\""@ + ("ping\",\""@ + rest)),
            );
            lemma_kind_req(t, mv);
            lemma_frame_shape(mv);
            if let MessageV::Request { id: id2, method } = mv {
                lemma_cancel(
                    "{\"type\":\"req\",\"id\":\""@,
                    quoted(id, ",\"method\":\""@ + ("ping\",\""@ + rest)),
                    quoted(id2, ",\"method\":\""@ + method_spec(method)),
                );
                lemma_quoted_unique(
                    id,
                    ",\"method\":\""@ + ("ping\",\""@ + rest),
                    id2,
                    ",\"method\":\""@ + method_spec(method),
                );
                lemma_cancel(",\"method\":\""@, "ping\",\""@ + rest, method_spec(method));
                lemma_method_shape(method);
                let u = "ping\",\""@ + rest;
                match method {
                    RequestMethodV::Ping => {
                        assert(u[5] == "ping\",\""@[5]);
                        assert(u[5] == "ping\"}"@[5]);
                        assert(false);
                    },
                    RequestMethodV::Shutdown => {
                        assert(u[0] == "ping\",\""@[0]);
                        assert(u[0] == "shutdown\"}"@[0]);
                        assert(false);
                    },
                    RequestMethodV::Echo(p) => {
                        assert(u[0] == "ping\",\""@[0]);
                        assert(u[0] == ("echo\",\"params\":\""@ + quoted(p, "}"@))[0]);
                        assert(false);
                    },
                }
            }
        }
    }
}

/// Serializes a message to its canonical text frame. Never fails: every
/// message value has exactly one frame.
pub fn encode(m: &WsMessage) -> (r: String)
    ensures
        r@ == encode_spec(m@),
{
    let mut out = String::from_str("{\"type\":\"");
    match m {
        WsMessage::Request(req) => {
            out.append("req\",\"id\":\"");
            append_escaped(&mut out, req.id.as_str());
            out.append("\",\"method\":\"");
            match &req.method {
                WsRequestMethod::Ping => {
                    out.append("ping\"}");
                },
                WsRequestMethod::Echo(t) => {
                    out.append("echo\",\"params\":\"");
                    append_escaped(&mut out, t.as_str());
                    out.append("\"}");
                },
                WsRequestMethod::Shutdown => {
                    out.append("shutdown\"}");
                },
            }
        },
        WsMessage::Notification(n) => {
            out.append("not\",\"method\":\"askMe\",\"params\":\"");
            match &n.method {
                WsNotificationMethod::AskMe(t) => {
                    append_escaped(&mut out, t.as_str());
                },
            }
            out.append("\"}");
        },
        WsMessage::Response(resp) => {
            out.append("res\",\"id\":\"");
            append_escaped(&mut out, resp.id.as_str());
            out.append("\",\"result\":\"");
            match &resp.result {
                WsResponseResult::Text(t) => {
                    append_escaped(&mut out, t.as_str());
                },
            }
            out.append("\"}");
        },
        WsMessage::Error(e) => {
            match &e.id {
                Some(id) => {
                    out.append("err\",\"id\":\"");
                    append_escaped(&mut out, id.as_str());
                    out.append("\",\"eid\":\"incorrectInput\",\"message\":\"");
                },
                None => {
                    out.append("err\",\"eid\":\"incorrectInput\",\"message\":\"");
                },
            }
            append_escaped(&mut out, e.message.as_str());
            out.append("\"}");
        },
    }
    proof {
        assert(out@ =~= encode_spec(m@));
    }
    out
}

} // verus!
