//! Envelope codec: the wire grammar of one gateway frame, an encoder and a
//! decoder over it, and the proof that they are symmetric.
//!
//! A frame is a sequence of characters: one JSON object with the members
//! `op` (numeric opcode), `t` (event name or null), `s` (sequence number or
//! null) and `d` (body, whose shape the opcode — and for dispatch envelopes
//! the event name — determines). The encoder emits one canonical rendering;
//! the decoder accepts insignificant whitespace, the members in any order,
//! and unknown members alongside the known ones, whose values it skips by
//! bracket matching without interpreting them.

use vstd::prelude::*;

use crate::error::Error;
use crate::payload::{
    spec_from_code, spec_to_code, Body, Hello, Identify, Op, PartialPayload, Payload, Resume,
    UpdVState,
};

verus! {

/// The wire form of one character inside a quoted string: quote and
/// backslash are escaped with a backslash, every other character stands as
/// itself.
pub open spec fn esc_char(c: char) -> Seq<char> {
    if c == '"' || c == '\\' {
        seq!['\\', c]
    } else {
        seq![c]
    }
}

/// The wire form of a string's characters, escaped one by one.
pub open spec fn spec_escape(s: Seq<char>) -> Seq<char>
    decreases s.len(),
{
    if s.len() == 0 {
        Seq::empty()
    } else {
        esc_char(s[0]) + spec_escape(s.drop_first())
    }
}

/// The wire form of a quoted string.
pub open spec fn spec_string(s: Seq<char>) -> Seq<char> {
    seq!['"'] + spec_escape(s) + seq!['"']
}

/// The decimal digit character of a value below ten.
pub open spec fn digit_char(d: nat) -> char {
    if d == 0 {
        '0'
    } else if d == 1 {
        '1'
    } else if d == 2 {
        '2'
    } else if d == 3 {
        '3'
    } else if d == 4 {
        '4'
    } else if d == 5 {
        '5'
    } else if d == 6 {
        '6'
    } else if d == 7 {
        '7'
    } else if d == 8 {
        '8'
    } else {
        '9'
    }
}

/// The decimal digits of a number, most significant first.
pub open spec fn spec_digits(n: nat) -> Seq<char>
    decreases n,
{
    if n < 10 {
        seq![digit_char(n)]
    } else {
        spec_digits(n / 10).push(digit_char(n % 10))
    }
}

/// The wire form of an absent field.
pub open spec fn spec_null() -> Seq<char> {
    "null"@
}

/// The wire form of a boolean.
pub open spec fn spec_bool(b: bool) -> Seq<char> {
    if b {
        "true"@
    } else {
        "false"@
    }
}

/// The wire form of an optional number.
pub open spec fn spec_opt_num(o: Option<usize>) -> Seq<char> {
    match o {
        Option::None => spec_null(),
        Option::Some(n) => spec_digits(n as nat),
    }
}

/// The wire form of an optional quoted string.
pub open spec fn spec_opt_string(o: Option<String>) -> Seq<char> {
    match o {
        Option::None => spec_null(),
        Option::Some(s) => spec_string(s@),
    }
}

/// One `key:value` member in wire form.
pub open spec fn kv(k: Seq<char>, v: Seq<char>) -> Seq<char> {
    spec_string(k) + (seq![':'] + v)
}

/// An object of one member in wire form.
pub open spec fn obj1(k1: Seq<char>, v1: Seq<char>) -> Seq<char> {
    seq!['{'] + (kv(k1, v1) + seq!['}'])
}

/// An object of two members in wire form.
pub open spec fn obj2(k1: Seq<char>, v1: Seq<char>, k2: Seq<char>, v2: Seq<char>) -> Seq<char> {
    seq!['{'] + (kv(k1, v1) + (seq![','] + (kv(k2, v2) + seq!['}'])))
}

/// An object of three members in wire form.
pub open spec fn obj3(
    k1: Seq<char>,
    v1: Seq<char>,
    k2: Seq<char>,
    v2: Seq<char>,
    k3: Seq<char>,
    v3: Seq<char>,
) -> Seq<char> {
    seq!['{'] + (kv(k1, v1) + (seq![','] + (kv(k2, v2) + (seq![','] + (kv(k3, v3) + seq!['}'])))))
}

/// An object of four members in wire form.
pub open spec fn obj4(
    k1: Seq<char>,
    v1: Seq<char>,
    k2: Seq<char>,
    v2: Seq<char>,
    k3: Seq<char>,
    v3: Seq<char>,
    k4: Seq<char>,
    v4: Seq<char>,
) -> Seq<char> {
    seq!['{'] + (kv(k1, v1) + (seq![','] + (kv(k2, v2) + (seq![','] + (kv(k3, v3) + (seq![','] + (kv(
        k4,
        v4,
    ) + seq!['}'])))))))
}

/// The wire form of an envelope body.
pub open spec fn spec_encode_body(d: Body) -> Seq<char> {
    match d {
        Body::Heartbeat(o) => spec_opt_num(o),
        Body::Identify(i) => obj3(
            "token"@,
            spec_string(i.token@),
            "properties"@,
            obj3(
                "os"@,
                spec_string(i.properties.os@),
                "browser"@,
                spec_string(i.properties.browser@),
                "device"@,
                spec_string(i.properties.device@),
            ),
            "intents"@,
            spec_digits(i.intents as nat),
        ),
        Body::Resume(r) => obj3(
            "token"@,
            spec_string(r.token@),
            "session_id"@,
            spec_string(r.session_id@),
            "seq"@,
            spec_digits(r.seq as nat),
        ),
        Body::UpdVState(v) => obj4(
            "guild_id"@,
            spec_string(v.guild_id@),
            "channel_id"@,
            spec_opt_string(v.channel_id),
            "self_mute"@,
            spec_bool(v.self_mute),
            "self_deaf"@,
            spec_bool(v.self_deaf),
        ),
        Body::Hello(h) => obj1("heartbeat_interval"@, spec_digits(h.heartbeat_interval as nat)),
        Body::InvSession(b) => spec_bool(b),
        Body::HbACK(o) => match o {
            Option::None => spec_null(),
            Option::Some(b) => spec_bool(b),
        },
        Body::Ready(r) => obj1("session_id"@, spec_string(r.session_id@)),
        Body::Message(m) => obj1("channel_id"@, spec_string(m.channel_id@)),
        Body::Empty => spec_null(),
    }
}

/// The wire form of a whole envelope.
pub open spec fn spec_encode(p: Payload) -> Seq<char> {
    obj4(
        "op"@,
        spec_digits(spec_to_code(p.op) as nat),
        "t"@,
        spec_opt_string(p.t),
        "s"@,
        spec_opt_num(p.s),
        "d"@,
        spec_encode_body(p.d),
    )
}

/// Append every character of a literal.
fn push_lit(out: &mut Vec<char>, lit: &str)
    ensures
        final(out)@ == old(out)@ + lit@,
{
    let n = lit.unicode_len();
    let mut k: usize = 0;
    while k < n
        invariant
            k <= n,
            n == lit@.len(),
            out@ == old(out)@ + lit@.take(k as int),
        decreases n - k,
    {
        out.push(lit.get_char(k));
        k = k + 1;
        proof {
            assert(lit@.take(k as int) =~= lit@.take(k - 1).push(lit@[k - 1]));
            assert(out@ =~= old(out)@ + lit@.take(k as int));
        }
    }
    proof {
        assert(lit@.take(n as int) =~= lit@);
    }
}

/// Append the digit character of a value below ten.
fn push_digit(out: &mut Vec<char>, d: usize)
    requires
        d < 10,
    ensures
        final(out)@ == old(out)@ + seq![digit_char(d as nat)],
{
    let c: char = if d == 0 {
        '0'
    } else if d == 1 {
        '1'
    } else if d == 2 {
        '2'
    } else if d == 3 {
        '3'
    } else if d == 4 {
        '4'
    } else if d == 5 {
        '5'
    } else if d == 6 {
        '6'
    } else if d == 7 {
        '7'
    } else if d == 8 {
        '8'
    } else {
        '9'
    };
    out.push(c);
    proof {
        assert(out@ =~= old(out)@ + seq![digit_char(d as nat)]);
    }
}

/// Append the decimal digits of a number, most significant first.
fn push_num(out: &mut Vec<char>, n: usize)
    ensures
        final(out)@ == old(out)@ + spec_digits(n as nat),
    decreases n,
{
    if n < 10 {
        push_digit(out, n);
    } else {
        push_num(out, n / 10);
        push_digit(out, n % 10);
        proof {
            assert(out@ =~= old(out)@ + spec_digits(n as nat));
        }
    }
}

/// Escaping distributes over appending one character at the end.
proof fn lemma_escape_snoc(s: Seq<char>, c: char)
    ensures
        spec_escape(s.push(c)) == spec_escape(s) + esc_char(c),
    decreases s.len(),
{
    if s.len() == 0 {
        assert(s.push(c)[0] == c);
        assert(s.push(c).drop_first() =~= Seq::<char>::empty());
        assert(spec_escape(Seq::<char>::empty()) == Seq::<char>::empty());
        assert(spec_escape(s.push(c)) =~= spec_escape(s) + esc_char(c));
    } else {
        assert(s.push(c).drop_first() =~= s.drop_first().push(c));
        lemma_escape_snoc(s.drop_first(), c);
        assert(spec_escape(s.push(c)) =~= spec_escape(s) + esc_char(c));
    }
}

/// Append a string's characters in escaped wire form.
fn push_escaped(out: &mut Vec<char>, s: &str)
    ensures
        final(out)@ == old(out)@ + spec_escape(s@),
{
    let n = s.unicode_len();
    let mut k: usize = 0;
    while k < n
        invariant
            k <= n,
            n == s@.len(),
            out@ == old(out)@ + spec_escape(s@.take(k as int)),
        decreases n - k,
    {
        let c = s.get_char(k);
        if c == '"' || c == '\\' {
            out.push('\\');
            out.push(c);
        } else {
            out.push(c);
        }
        k = k + 1;
        proof {
            assert(s@.take(k as int) =~= s@.take(k - 1).push(s@[k - 1]));
            lemma_escape_snoc(s@.take(k - 1), s@[k - 1]);
            assert(out@ =~= old(out)@ + spec_escape(s@.take(k as int)));
        }
    }
    proof {
        assert(s@.take(n as int) =~= s@);
    }
}

/// Append a quoted string in wire form.
fn push_string(out: &mut Vec<char>, s: &str)
    ensures
        final(out)@ == old(out)@ + spec_string(s@),
{
    out.push('"');
    push_escaped(out, s);
    out.push('"');
    proof {
        assert(out@ =~= old(out)@ + spec_string(s@));
    }
}

/// Append an optional number in wire form.
fn push_opt_num(out: &mut Vec<char>, o: &Option<usize>)
    ensures
        final(out)@ == old(out)@ + spec_opt_num(*o),
{
    match o {
        Option::None => push_lit(out, "null"),
        Option::Some(n) => push_num(out, *n),
    }
}

/// Append a boolean in wire form.
fn push_bool(out: &mut Vec<char>, b: bool)
    ensures
        final(out)@ == old(out)@ + spec_bool(b),
{
    if b {
        push_lit(out, "true");
    } else {
        push_lit(out, "false");
    }
}

/// Append an optional quoted string in wire form.
fn push_opt_string(out: &mut Vec<char>, o: &Option<String>)
    ensures
        final(out)@ == old(out)@ + spec_opt_string(*o),
{
    match o {
        Option::None => push_lit(out, "null"),
        Option::Some(s) => push_string(out, s.as_str()),
    }
}

/// Append one member's key and separator in wire form.
fn push_key(out: &mut Vec<char>, k: &str)
    ensures
        final(out)@ == old(out)@ + (spec_string(k@) + seq![':']),
{
    push_string(out, k);
    out.push(':');
    proof {
        assert(out@ =~= old(out)@ + (spec_string(k@) + seq![':']));
    }
}

/// Append one whole member whose value is a quoted string.
fn push_member_string(out: &mut Vec<char>, k: &str, v: &str)
    ensures
        final(out)@ == old(out)@ + kv(k@, spec_string(v@)),
{
    push_key(out, k);
    push_string(out, v);
    proof {
        assert(out@ =~= old(out)@ + kv(k@, spec_string(v@)));
    }
}

/// Append one whole member whose value is a number.
fn push_member_num(out: &mut Vec<char>, k: &str, n: usize)
    ensures
        final(out)@ == old(out)@ + kv(k@, spec_digits(n as nat)),
{
    push_key(out, k);
    push_num(out, n);
    proof {
        assert(out@ =~= old(out)@ + kv(k@, spec_digits(n as nat)));
    }
}

/// Append one whole member whose value is a boolean.
fn push_member_bool(out: &mut Vec<char>, k: &str, b: bool)
    ensures
        final(out)@ == old(out)@ + kv(k@, spec_bool(b)),
{
    push_key(out, k);
    push_bool(out, b);
    proof {
        assert(out@ =~= old(out)@ + kv(k@, spec_bool(b)));
    }
}

/// Append one whole member whose value is a quoted string or null.
fn push_member_opt_string(out: &mut Vec<char>, k: &str, o: &Option<String>)
    ensures
        final(out)@ == old(out)@ + kv(k@, spec_opt_string(*o)),
{
    push_key(out, k);
    push_opt_string(out, o);
    proof {
        assert(out@ =~= old(out)@ + kv(k@, spec_opt_string(*o)));
    }
}

/// Append one whole member whose value is a number or null.
fn push_member_opt_num(out: &mut Vec<char>, k: &str, o: &Option<usize>)
    ensures
        final(out)@ == old(out)@ + kv(k@, spec_opt_num(*o)),
{
    push_key(out, k);
    push_opt_num(out, o);
    proof {
        assert(out@ =~= old(out)@ + kv(k@, spec_opt_num(*o)));
    }
}

/// Append an identify body in wire form.
#[verifier::rlimit(100)]
fn push_identify(out: &mut Vec<char>, i: &Identify)
    ensures
        final(out)@ == old(out)@ + spec_encode_body(Body::Identify(*i)),
{
    out.push('{');
    push_member_string(out, "token", i.token.as_str());
    out.push(',');
    let ghost mid = out@;
    push_key(out, "properties");
    out.push('{');
    push_member_string(out, "os", i.properties.os.as_str());
    out.push(',');
    push_member_string(out, "browser", i.properties.browser.as_str());
    out.push(',');
    push_member_string(out, "device", i.properties.device.as_str());
    out.push('}');
    proof {
        assert(out@ =~= mid + kv(
            "properties"@,
            obj3(
                "os"@,
                spec_string(i.properties.os@),
                "browser"@,
                spec_string(i.properties.browser@),
                "device"@,
                spec_string(i.properties.device@),
            ),
        ));
    }
    out.push(',');
    push_member_num(out, "intents", i.intents);
    out.push('}');
    proof {
        assert(out@ =~= old(out)@ + spec_encode_body(Body::Identify(*i)));
    }
}

/// Append a resume body in wire form.
#[verifier::rlimit(100)]
fn push_resume(out: &mut Vec<char>, r: &Resume)
    ensures
        final(out)@ == old(out)@ + spec_encode_body(Body::Resume(*r)),
{
    out.push('{');
    push_member_string(out, "token", r.token.as_str());
    out.push(',');
    push_member_string(out, "session_id", r.session_id.as_str());
    out.push(',');
    push_member_num(out, "seq", r.seq);
    out.push('}');
    proof {
        assert(out@ =~= old(out)@ + spec_encode_body(Body::Resume(*r)));
    }
}

/// Append a voice-state body in wire form.
#[verifier::rlimit(100)]
fn push_vstate(out: &mut Vec<char>, v: &UpdVState)
    ensures
        final(out)@ == old(out)@ + spec_encode_body(Body::UpdVState(*v)),
{
    out.push('{');
    push_member_string(out, "guild_id", v.guild_id.as_str());
    out.push(',');
    push_member_opt_string(out, "channel_id", &v.channel_id);
    out.push(',');
    push_member_bool(out, "self_mute", v.self_mute);
    out.push(',');
    push_member_bool(out, "self_deaf", v.self_deaf);
    out.push('}');
    proof {
        assert(out@ =~= old(out)@ + spec_encode_body(Body::UpdVState(*v)));
    }
}

/// Append an envelope body in wire form.
#[verifier::rlimit(100)]
fn push_body(out: &mut Vec<char>, d: &Body)
    ensures
        final(out)@ == old(out)@ + spec_encode_body(*d),
{
    match d {
        Body::Heartbeat(o) => push_opt_num(out, o),
        Body::Identify(i) => push_identify(out, i),
        Body::Resume(r) => push_resume(out, r),
        Body::UpdVState(v) => push_vstate(out, v),
        Body::Hello(h) => {
            out.push('{');
            push_member_num(out, "heartbeat_interval", h.heartbeat_interval);
            out.push('}');
            proof {
                assert(out@ =~= old(out)@ + spec_encode_body(*d));
            }
        },
        Body::InvSession(b) => push_bool(out, *b),
        Body::HbACK(o) => {
            match o {
                Option::None => push_lit(out, "null"),
                Option::Some(b) => push_bool(out, *b),
            }
        },
        Body::Ready(r) => {
            out.push('{');
            push_member_string(out, "session_id", r.session_id.as_str());
            out.push('}');
            proof {
                assert(out@ =~= old(out)@ + spec_encode_body(*d));
            }
        },
        Body::Message(m) => {
            out.push('{');
            push_member_string(out, "channel_id", m.channel_id.as_str());
            out.push('}');
            proof {
                assert(out@ =~= old(out)@ + spec_encode_body(*d));
            }
        },
        Body::Empty => push_lit(out, "null"),
    }
}

/// Encode an envelope as one wire frame, in the canonical rendering: the
/// members `op`, `t`, `s`, `d` in that order, with no padding.
#[verifier::rlimit(100)]
pub fn encode(p: &Payload) -> (r: Vec<char>)
    requires
        p.wf(),
    ensures
        r@ == spec_encode(*p),
{
    let mut out: Vec<char> = Vec::new();
    out.push('{');
    push_member_num(&mut out, "op", p.op.to_code() as usize);
    out.push(',');
    push_member_opt_string(&mut out, "t", &p.t);
    out.push(',');
    push_member_opt_num(&mut out, "s", &p.s);
    out.push(',');
    let ghost mid = out@;
    push_key(&mut out, "d");
    push_body(&mut out, &p.d);
    proof {
        assert(out@ =~= mid + kv("d"@, spec_encode_body(p.d)));
    }
    out.push('}');
    proof {
        assert(out@ =~= spec_encode(*p));
    }
    out
}

} // verus!


verus! {

/// Whether a character is a decimal digit.
pub open spec fn is_digit(c: char) -> bool {
    48 <= c as u32 && c as u32 <= 57
}

/// The value of a decimal digit character.
pub open spec fn digit_val(c: char) -> nat {
    (c as u32 - 48) as nat
}

/// The digit characters are exactly the wire form of the values below ten.
proof fn lemma_digit_char(d: nat)
    requires
        d < 10,
    ensures
        is_digit(digit_char(d)),
        digit_val(digit_char(d)) == d,
{
}

/// Consume an expected literal from the front of a frame.
pub open spec fn parse_lit(t: Seq<char>, lit: Seq<char>) -> Option<Seq<char>> {
    if t.len() >= lit.len() && t.take(lit.len() as int) == lit {
        Option::Some(t.skip(lit.len() as int))
    } else {
        Option::None
    }
}

/// Consume a run of digits, accumulating their value onto `acc`.
pub open spec fn parse_digits(t: Seq<char>, acc: nat) -> (nat, Seq<char>)
    decreases t.len(),
{
    if t.len() > 0 && is_digit(t[0]) {
        parse_digits(t.drop_first(), acc * 10 + digit_val(t[0]))
    } else {
        (acc, t)
    }
}

/// Consume a number: at least one digit, value unbounded.
pub open spec fn parse_num(t: Seq<char>) -> Option<(nat, Seq<char>)> {
    if t.len() > 0 && is_digit(t[0]) {
        Option::Some(parse_digits(t, 0))
    } else {
        Option::None
    }
}

/// Consume a number that a machine word can hold.
pub open spec fn parse_unum(t: Seq<char>) -> Option<(nat, Seq<char>)> {
    match parse_num(t) {
        Option::Some(p) => if p.0 <= usize::MAX as nat {
            Option::Some(p)
        } else {
            Option::None
        },
        Option::None => Option::None,
    }
}

/// Consume the remainder of a quoted string after its opening quote,
/// undoing the escaping: a closing quote ends it, a backslash must be
/// followed by a quote or a backslash.
pub open spec fn parse_string_rec(t: Seq<char>) -> Option<(Seq<char>, Seq<char>)>
    decreases t.len(),
{
    if t.len() == 0 {
        Option::None
    } else if t[0] == '"' {
        Option::Some((Seq::empty(), t.drop_first()))
    } else if t[0] == '\\' {
        if t.len() >= 2 && (t[1] == '"' || t[1] == '\\') {
            match parse_string_rec(t.skip(2)) {
                Option::Some(p) => Option::Some((seq![t[1]] + p.0, p.1)),
                Option::None => Option::None,
            }
        } else {
            Option::None
        }
    } else {
        match parse_string_rec(t.drop_first()) {
            Option::Some(p) => Option::Some((seq![t[0]] + p.0, p.1)),
            Option::None => Option::None,
        }
    }
}

/// Consume a quoted string.
pub open spec fn parse_string(t: Seq<char>) -> Option<(Seq<char>, Seq<char>)> {
    if t.len() > 0 && t[0] == '"' {
        parse_string_rec(t.drop_first())
    } else {
        Option::None
    }
}

/// Consume a boolean.
pub open spec fn parse_bool(t: Seq<char>) -> Option<(bool, Seq<char>)> {
    match parse_lit(t, "true"@) {
        Option::Some(r) => Option::Some((true, r)),
        Option::None => match parse_lit(t, "false"@) {
            Option::Some(r) => Option::Some((false, r)),
            Option::None => Option::None,
        },
    }
}

/// Consume a number or `null`.
pub open spec fn parse_opt_unum(t: Seq<char>) -> Option<(Option<nat>, Seq<char>)> {
    match parse_lit(t, spec_null()) {
        Option::Some(r) => Option::Some((Option::None, r)),
        Option::None => match parse_unum(t) {
            Option::Some(p) => Option::Some((Option::Some(p.0), p.1)),
            Option::None => Option::None,
        },
    }
}

/// Consume a quoted string or `null`.
pub open spec fn parse_opt_string(t: Seq<char>) -> Option<(Option<Seq<char>>, Seq<char>)> {
    match parse_lit(t, spec_null()) {
        Option::Some(r) => Option::Some((Option::None, r)),
        Option::None => match parse_string(t) {
            Option::Some(p) => Option::Some((Option::Some(p.0), p.1)),
            Option::None => Option::None,
        },
    }
}

/// The value a digit run accumulates never falls below what it started from.
proof fn lemma_parse_digits_ge(t: Seq<char>, acc: nat)
    ensures
        parse_digits(t, acc).0 >= acc,
    decreases t.len(),
{
    if t.len() > 0 && is_digit(t[0]) {
        assert(acc * 10 + digit_val(t[0]) >= acc) by (nonlinear_arith);
        lemma_parse_digits_ge(t.drop_first(), acc * 10 + digit_val(t[0]));
    }
}

/// Consume an expected literal from the front of a frame slice.
fn eat_lit<'a>(t: &'a [char], lit: &str) -> (r: Option<&'a [char]>)
    ensures
        match r {
            Option::Some(rest) => parse_lit(t@, lit@) == Option::Some(rest@),
            Option::None => parse_lit(t@, lit@) is None,
        },
{
    let n = lit.unicode_len();
    if t.len() < n {
        return Option::None;
    }
    let mut k: usize = 0;
    while k < n
        invariant
            k <= n,
            n == lit@.len(),
            n <= t@.len(),
            forall|j: int| 0 <= j < k ==> t@[j] == lit@[j],
        decreases n - k,
    {
        if *vstd::slice::slice_index_get(t, k) != lit.get_char(k) {
            proof {
                assert(t@.take(n as int)[k as int] == t@[k as int]);
                assert(t@.take(n as int) != lit@);
            }
            return Option::None;
        }
        k = k + 1;
    }
    proof {
        assert(t@.take(n as int) =~= lit@);
    }
    let rest = vstd::slice::slice_subrange(t, n, t.len());
    proof {
        assert(rest@ =~= t@.skip(n as int));
    }
    Option::Some(rest)
}

/// Consume a number from the front of a frame slice; `None` both when no
/// digit stands there and when the value exceeds what a machine word holds.
fn eat_num<'a>(t: &'a [char]) -> (r: Option<(usize, &'a [char])>)
    ensures
        match r {
            Option::Some(p) => parse_num(t@) == Option::Some((p.0 as nat, p.1@))
                && parse_unum(t@) == Option::Some((p.0 as nat, p.1@)),
            Option::None => parse_unum(t@) is None,
        },
{
    if t.len() == 0 {
        return Option::None;
    }
    let c0 = *vstd::slice::slice_index_get(t, 0);
    let v0 = c0 as u32;
    if !(48 <= v0 && v0 <= 57) {
        proof {
            assert(!is_digit(t@[0]));
        }
        return Option::None;
    }
    proof {
        assert(is_digit(t@[0]));
    }
    let mut i: usize = 0;
    let mut acc: usize = 0;
    proof {
        assert(t@.skip(0) =~= t@);
    }
    loop
        invariant
            i <= t@.len(),
            parse_digits(t@, 0) == parse_digits(t@.skip(i as int), acc as nat),
        ensures
            i <= t@.len(),
            parse_digits(t@, 0) == parse_digits(t@.skip(i as int), acc as nat),
            i == t@.len() || !is_digit(t@[i as int]),
        decreases t@.len() - i,
    {
        if i >= t.len() {
            break;
        }
        let c = *vstd::slice::slice_index_get(t, i);
        let v = c as u32;
        if !(48 <= v && v <= 57) {
            proof {
                assert(!is_digit(t@[i as int]));
            }
            break;
        }
        let d = (v - 48) as usize;
        proof {
            assert(is_digit(t@[i as int]));
            assert(digit_val(t@[i as int]) == d as nat);
        }
        if acc > (usize::MAX - d) / 10 {
            // The full value only grows from here on; it already exceeds a
            // machine word.
            proof {
                let suf = t@.skip(i as int);
                assert(suf.len() > 0 && is_digit(suf[0]));
                assert(suf.drop_first() =~= t@.skip(i as int + 1));
                lemma_parse_digits_ge(suf.drop_first(), acc as nat * 10 + d as nat);
                assert(acc as nat * 10 + d as nat > usize::MAX as nat) by (nonlinear_arith)
                    requires
                        acc > (usize::MAX - d) / 10,
                        d < 10,
                ;
            }
            return Option::None;
        }
        proof {
            assert(acc as nat * 10 + d as nat <= usize::MAX as nat) by (nonlinear_arith)
                requires
                    acc <= (usize::MAX - d) / 10,
                    d < 10,
            ;
            let suf = t@.skip(i as int);
            assert(suf.drop_first() =~= t@.skip(i as int + 1));
        }
        acc = acc * 10 + d;
        i = i + 1;
    }
    proof {
        let suf = t@.skip(i as int);
        assert(suf.len() == 0 || !is_digit(suf[0]));
        assert(parse_digits(suf, acc as nat) == (acc as nat, suf));
    }
    let rest = vstd::slice::slice_subrange(t, i, t.len());
    proof {
        assert(rest@ =~= t@.skip(i as int));
    }
    Option::Some((acc, rest))
}

/// How a prefix of already-read characters composes with the parse of the
/// remaining string body.
spec fn compose_str(
    pre: Seq<char>,
    r: Option<(Seq<char>, Seq<char>)>,
) -> Option<(Seq<char>, Seq<char>)> {
    match r {
        Option::Some(p) => Option::Some((pre + p.0, p.1)),
        Option::None => Option::None,
    }
}

/// Consume a quoted string from the front of a frame slice, undoing the
/// escaping.
fn eat_string<'a>(t: &'a [char]) -> (r: Option<(Vec<char>, &'a [char])>)
    ensures
        match r {
            Option::Some(p) => parse_string(t@) == Option::Some((p.0@, p.1@)),
            Option::None => parse_string(t@) is None,
        },
{
    if t.len() == 0 || *vstd::slice::slice_index_get(t, 0) != '"' {
        return Option::None;
    }
    proof {
        assert(t@.drop_first() =~= t@.skip(1));
    }
    let mut i: usize = 1;
    let mut out: Vec<char> = Vec::new();
    loop
        invariant
            1 <= i <= t@.len(),
            t@.len() > 0 && t@[0] == '"',
            compose_str(out@, parse_string_rec(t@.skip(i as int))) == parse_string_rec(
                t@.skip(1),
            ),
        decreases t@.len() - i,
    {
        if i >= t.len() {
            proof {
                assert(t@.skip(i as int) =~= Seq::<char>::empty());
                assert(t@.drop_first() =~= t@.skip(1));
            }
            return Option::None;
        }
        let c = *vstd::slice::slice_index_get(t, i);
        if c == '"' {
            proof {
                let suf = t@.skip(i as int);
                assert(suf.len() > 0 && suf[0] == '"');
                assert(suf.drop_first() =~= t@.skip(i as int + 1));
                assert(parse_string_rec(suf) == Option::Some(
                    (Seq::<char>::empty(), t@.skip(i as int + 1)),
                ));
                assert(out@ + Seq::<char>::empty() =~= out@);
                assert(parse_string_rec(t@.skip(1)) == Option::Some(
                    (out@, t@.skip(i as int + 1)),
                ));
                assert(t@.drop_first() =~= t@.skip(1));
            }
            let rest = vstd::slice::slice_subrange(t, i + 1, t.len());
            proof {
                assert(rest@ =~= t@.skip(i as int + 1));
            }
            return Option::Some((out, rest));
        } else if c == '\\' {
            if i + 1 >= t.len() {
                proof {
                    let suf = t@.skip(i as int);
                    assert(suf.len() < 2 && suf[0] == '\\');
                    assert(t@.drop_first() =~= t@.skip(1));
                }
                return Option::None;
            }
            let c2 = *vstd::slice::slice_index_get(t, i + 1);
            if c2 == '"' || c2 == '\\' {
                proof {
                    let suf = t@.skip(i as int);
                    assert(suf[1] == c2);
                    assert(suf.skip(2) =~= t@.skip(i as int + 2));
                    if parse_string_rec(t@.skip(i as int + 2)) is Some {
                        let p = parse_string_rec(t@.skip(i as int + 2)).unwrap();
                        assert(out@ + (seq![c2] + p.0) =~= out@.push(c2) + p.0);
                    }
                }
                out.push(c2);
                i = i + 2;
            } else {
                proof {
                    let suf = t@.skip(i as int);
                    assert(suf[0] == '\\' && suf.len() >= 2 && suf[1] == c2);
                    assert(t@.drop_first() =~= t@.skip(1));
                }
                return Option::None;
            }
        } else {
            proof {
                let suf = t@.skip(i as int);
                assert(suf.drop_first() =~= t@.skip(i as int + 1));
                if parse_string_rec(t@.skip(i as int + 1)) is Some {
                    let p = parse_string_rec(t@.skip(i as int + 1)).unwrap();
                    assert(out@ + (seq![c] + p.0) =~= out@.push(c) + p.0);
                }
            }
            out.push(c);
            i = i + 1;
        }
    }
}

/// Consume a boolean from the front of a frame slice.
fn eat_bool<'a>(t: &'a [char]) -> (r: Option<(bool, &'a [char])>)
    ensures
        match r {
            Option::Some(p) => parse_bool(t@) == Option::Some((p.0, p.1@)),
            Option::None => parse_bool(t@) is None,
        },
{
    match eat_lit(t, "true") {
        Option::Some(rest) => Option::Some((true, rest)),
        Option::None => match eat_lit(t, "false") {
            Option::Some(rest) => Option::Some((false, rest)),
            Option::None => Option::None,
        },
    }
}

/// Consume a number or `null` from the front of a frame slice.
fn eat_opt_num<'a>(t: &'a [char]) -> (r: Option<(Option<usize>, &'a [char])>)
    ensures
        match r {
            Option::Some(p) => match p.0 {
                Option::Some(n) => parse_opt_unum(t@) == Option::Some(
                    (Option::Some(n as nat), p.1@),
                ),
                Option::None => parse_opt_unum(t@) == Option::Some(
                    (Option::None::<nat>, p.1@),
                ),
            },
            Option::None => parse_opt_unum(t@) is None,
        },
{
    match eat_lit(t, "null") {
        Option::Some(rest) => Option::Some((Option::None, rest)),
        Option::None => match eat_num(t) {
            Option::Some(p) => Option::Some((Option::Some(p.0), p.1)),
            Option::None => Option::None,
        },
    }
}

/// Consume a quoted string or `null` from the front of a frame slice.
fn eat_opt_string<'a>(t: &'a [char]) -> (r: Option<(Option<Vec<char>>, &'a [char])>)
    ensures
        match r {
            Option::Some(p) => match p.0 {
                Option::Some(v) => parse_opt_string(t@) == Option::Some(
                    (Option::Some(v@), p.1@),
                ),
                Option::None => parse_opt_string(t@) == Option::Some(
                    (Option::None::<Seq<char>>, p.1@),
                ),
            },
            Option::None => parse_opt_string(t@) is None,
        },
{
    match eat_lit(t, "null") {
        Option::Some(rest) => Option::Some((Option::None, rest)),
        Option::None => match eat_string(t) {
            Option::Some(p) => Option::Some((Option::Some(p.0), p.1)),
            Option::None => Option::None,
        },
    }
}

} // verus!

verus! {

/// An envelope body with every string abstracted to its characters and every
/// number to its value: what a frame determines about the body it carries.
pub enum AbsBody {
    Heartbeat(Option<nat>),
    Identify { token: Seq<char>, os: Seq<char>, browser: Seq<char>, device: Seq<char>, intents: nat },
    Resume { token: Seq<char>, session_id: Seq<char>, seq: nat },
    UpdVState { guild_id: Seq<char>, channel_id: Option<Seq<char>>, self_mute: bool, self_deaf: bool },
    Hello(nat),
    InvSession(bool),
    HbACK(Option<bool>),
    Ready(Seq<char>),
    Message(Seq<char>),
    Empty,
}

/// An envelope with every string abstracted to its characters: what a frame
/// determines about the envelope it carries.
pub struct AbsPayload {
    pub op: Op,
    pub t: Option<Seq<char>>,
    pub s: Option<nat>,
    pub d: AbsBody,
}

/// The characters of an optional string.
pub open spec fn abs_opt_str(o: Option<String>) -> Option<Seq<char>> {
    match o {
        Option::Some(s) => Option::Some(s@),
        Option::None => Option::None,
    }
}

/// The characters of an optional character vector.
pub open spec fn abs_opt_chars(o: Option<Vec<char>>) -> Option<Seq<char>> {
    match o {
        Option::Some(v) => Option::Some(v@),
        Option::None => Option::None,
    }
}

/// The value of an optional machine word.
pub open spec fn abs_opt_num(o: Option<usize>) -> Option<nat> {
    match o {
        Option::Some(n) => Option::Some(n as nat),
        Option::None => Option::None,
    }
}

/// The abstraction of a concrete envelope body.
pub open spec fn abs_body(d: Body) -> AbsBody {
    match d {
        Body::Heartbeat(o) => AbsBody::Heartbeat(abs_opt_num(o)),
        Body::Identify(i) => AbsBody::Identify {
            token: i.token@,
            os: i.properties.os@,
            browser: i.properties.browser@,
            device: i.properties.device@,
            intents: i.intents as nat,
        },
        Body::Resume(r) => AbsBody::Resume {
            token: r.token@,
            session_id: r.session_id@,
            seq: r.seq as nat,
        },
        Body::UpdVState(v) => AbsBody::UpdVState {
            guild_id: v.guild_id@,
            channel_id: abs_opt_str(v.channel_id),
            self_mute: v.self_mute,
            self_deaf: v.self_deaf,
        },
        Body::Hello(h) => AbsBody::Hello(h.heartbeat_interval as nat),
        Body::InvSession(b) => AbsBody::InvSession(b),
        Body::HbACK(o) => AbsBody::HbACK(o),
        Body::Ready(r) => AbsBody::Ready(r.session_id@),
        Body::Message(m) => AbsBody::Message(m.channel_id@),
        Body::Empty => AbsBody::Empty,
    }
}

/// The abstraction of a concrete envelope.
pub open spec fn abs_of(p: Payload) -> AbsPayload {
    AbsPayload { op: p.op, t: abs_opt_str(p.t), s: abs_opt_num(p.s), d: abs_body(p.d) }
}

/// The opcode a frame routes to, read from its numeric code alone;
/// out-of-range codes classify as `Unknown`.
pub open spec fn op_of_code(c: nat) -> Op {
    if c <= 255 {
        spec_from_code(c as u8)
    } else {
        Op::Unknown
    }
}

} // verus!

verus! {

/// Whether a character vector holds exactly the characters of a literal.
fn eq_lit(v: &Vec<char>, lit: &str) -> (r: bool)
    ensures
        r == (v@ == lit@),
{
    let n = lit.unicode_len();
    if v.len() != n {
        proof {
            assert(v@.len() != lit@.len());
        }
        return false;
    }
    let mut k: usize = 0;
    while k < n
        invariant
            k <= n,
            n == lit@.len() == v@.len(),
            forall|j: int| 0 <= j < k ==> v@[j] == lit@[j],
        decreases n - k,
    {
        if v[k] != lit.get_char(k) {
            return false;
        }
        k = k + 1;
    }
    proof {
        assert(v@ =~= lit@);
    }
    true
}

/// Relies on `String`'s `FromIterator` over `char`: collecting characters
/// yields a string of exactly those characters in order.
#[verifier::external_body]
fn chars_to_string(v: Vec<char>) -> (r: String)
    ensures
        r@ == v@,
{
    v.into_iter().collect()
}

} // verus!

verus! {

/// The characters of a text frame, one by one.
pub fn str_to_chars(s: &str) -> (r: Vec<char>)
    ensures
        r@ == s@,
{
    let n = s.unicode_len();
    let mut out: Vec<char> = Vec::new();
    let mut k: usize = 0;
    while k < n
        invariant
            k <= n,
            n == s@.len(),
            out@ == s@.take(k as int),
        decreases n - k,
    {
        out.push(s.get_char(k));
        k = k + 1;
        proof {
            assert(s@.take(k as int) =~= s@.take(k - 1).push(s@[k - 1]));
        }
    }
    proof {
        assert(s@.take(n as int) =~= s@);
    }
    out
}

/// Encode an envelope as one text frame.
pub fn encode_text(p: &Payload) -> (r: String)
    requires
        p.wf(),
    ensures
        r@ == spec_encode(*p),
{
    let chars = encode(p);
    chars_to_string(chars)
}

/// Decode a whole text frame into a typed envelope.
pub fn decode_text(s: &str) -> (r: Result<Payload, Error>)
    ensures
        match spec_decode(s@) {
            Option::Some(a) => r matches Ok(p) && abs_of(p) == a && p.wf(),
            Option::None => r == Result::<Payload, Error>::Err(Error::MalformedFrame),
        },
{
    let chars = str_to_chars(s);
    decode(chars.as_slice())
}

/// Extract just the opcode of a text frame.
pub fn decode_partial_text(s: &str) -> (r: Result<PartialPayload, Error>)
    ensures
        match spec_decode_partial(s@) {
            Option::Some(c) => r == Result::<PartialPayload, Error>::Ok(
                PartialPayload { op: op_of_code(c) },
            ),
            Option::None => r == Result::<PartialPayload, Error>::Err(Error::MalformedFrame),
        },
{
    let chars = str_to_chars(s);
    decode_partial(chars.as_slice())
}

} // verus!

verus! {

/// A literal at the front of a frame parses to exactly the remainder.
proof fn lemma_parse_lit_round(lit: Seq<char>, rest: Seq<char>)
    ensures
        parse_lit(lit + rest, lit) == Option::Some(rest),
{
    assert((lit + rest).take(lit.len() as int) =~= lit);
    assert((lit + rest).skip(lit.len() as int) =~= rest);
}

/// Ten to the `k`.
spec fn pow10(k: nat) -> nat
    decreases k,
{
    if k == 0 {
        1
    } else {
        10 * pow10((k - 1) as nat)
    }
}

/// The first character of a number's wire form is a digit.
proof fn lemma_digits_first_is_digit(n: nat)
    ensures
        spec_digits(n).len() >= 1,
        is_digit(spec_digits(n)[0]),
    decreases n,
{
    if n < 10 {
        lemma_digit_char(n);
    } else {
        lemma_digits_first_is_digit(n / 10);
        assert(spec_digits(n)[0] == spec_digits(n / 10)[0]);
    }
}

/// Consuming a number's digits multiplies the accumulator past them and adds
/// the number, whatever follows.
proof fn lemma_parse_digits_chain(n: nat, rest: Seq<char>, acc: nat)
    ensures
        parse_digits(spec_digits(n) + rest, acc) == parse_digits(
            rest,
            acc * pow10(spec_digits(n).len()) + n,
        ),
    decreases n,
{
    if n < 10 {
        lemma_digit_char(n);
        let t = spec_digits(n) + rest;
        assert(t[0] == digit_char(n));
        assert(t.drop_first() =~= rest);
        assert(pow10(0) == 1);
        assert(pow10(1) == 10);
        assert(acc * 10 + n == acc * pow10(1) + n);
    } else {
        let d = digit_char(n % 10);
        lemma_digit_char(n % 10);
        let inner = seq![d] + rest;
        assert(spec_digits(n) + rest =~= spec_digits(n / 10) + inner);
        lemma_parse_digits_chain(n / 10, inner, acc);
        let k = spec_digits(n / 10).len();
        let acc2 = acc * pow10(k) + n / 10;
        assert(inner[0] == d);
        assert(inner.drop_first() =~= rest);
        assert(parse_digits(inner, acc2) == parse_digits(rest, acc2 * 10 + n % 10));
        assert(spec_digits(n).len() == k + 1);
        assert(pow10(k + 1) == 10 * pow10((k + 1 - 1) as nat));
        assert(pow10(k + 1) == 10 * pow10(k));
        vstd::arithmetic::div_mod::lemma_fundamental_div_mod(n as int, 10);
        assert(acc2 * 10 + n % 10 == acc * pow10(k + 1) + n) by (nonlinear_arith)
            requires
                acc2 == acc * pow10(k) + n / 10,
                pow10(k + 1) == 10 * pow10(k),
                n == 10 * (n / 10) + n % 10,
        ;
    }
}

/// A number's wire form parses back to the number, whenever what follows
/// does not begin with a digit.
proof fn lemma_parse_num_round(n: nat, rest: Seq<char>)
    requires
        rest.len() == 0 || !is_digit(rest[0]),
    ensures
        parse_num(spec_digits(n) + rest) == Option::Some((n, rest)),
{
    lemma_digits_first_is_digit(n);
    let t = spec_digits(n) + rest;
    assert(t[0] == spec_digits(n)[0]);
    lemma_parse_digits_chain(n, rest, 0);
    assert(0 * pow10(spec_digits(n).len()) == 0) by (nonlinear_arith);
    assert(parse_digits(rest, n) == (n, rest));
}

/// A quoted string's escaped characters parse back to the string.
proof fn lemma_parse_string_rec_round(s: Seq<char>, rest: Seq<char>)
    ensures
        parse_string_rec(spec_escape(s) + (seq!['"'] + rest)) == Option::Some((s, rest)),
    decreases s.len(),
{
    if s.len() == 0 {
        let t = spec_escape(s) + (seq!['"'] + rest);
        assert(t =~= seq!['"'] + rest);
        assert(t[0] == '"');
        assert(t.drop_first() =~= rest);
        assert(Seq::<char>::empty() =~= s);
    } else {
        let c = s[0];
        let s1 = s.drop_first();
        let t = spec_escape(s) + (seq!['"'] + rest);
        lemma_parse_string_rec_round(s1, rest);
        if c == '"' || c == '\\' {
            assert(t =~= seq!['\\', c] + (spec_escape(s1) + (seq!['"'] + rest)));
            assert(t[0] == '\\');
            assert(t[1] == c);
            assert(t.len() >= 2);
            assert(t.skip(2) =~= spec_escape(s1) + (seq!['"'] + rest));
            assert(seq![c] + s1 =~= s);
        } else {
            assert(t =~= seq![c] + (spec_escape(s1) + (seq!['"'] + rest)));
            assert(t[0] == c);
            assert(t.drop_first() =~= spec_escape(s1) + (seq!['"'] + rest));
            assert(seq![c] + s1 =~= s);
        }
    }
}

/// A quoted string's wire form parses back to the string, whatever follows.
proof fn lemma_parse_string_round(s: Seq<char>, rest: Seq<char>)
    ensures
        parse_string(spec_string(s) + rest) == Option::Some((s, rest)),
{
    let t = spec_string(s) + rest;
    assert(t[0] == '"');
    assert(t.drop_first() =~= spec_escape(s) + (seq!['"'] + rest));
    lemma_parse_string_rec_round(s, rest);
}

/// A boolean's wire form parses back to the boolean.
proof fn lemma_parse_bool_round(b: bool, rest: Seq<char>)
    ensures
        parse_bool(spec_bool(b) + rest) == Option::Some((b, rest)),
{
    reveal_strlit("true");
    reveal_strlit("false");
    if b {
        lemma_parse_lit_round("true"@, rest);
    } else {
        let t = "false"@ + rest;
        if t.len() >= 4 && t.take(4) == "true"@ {
            assert(t.take(4)[0] == 't');
            assert(t[0] == 'f');
            assert(false);
        }
        lemma_parse_lit_round("false"@, rest);
    }
}

/// An optional number's wire form parses back to it, whenever what follows
/// does not begin with a digit.
proof fn lemma_parse_opt_unum_round(o: Option<usize>, rest: Seq<char>)
    requires
        rest.len() == 0 || !is_digit(rest[0]),
    ensures
        parse_opt_unum(spec_opt_num(o) + rest) == Option::Some((abs_opt_num(o), rest)),
{
    reveal_strlit("null");
    match o {
        Option::None => {
            lemma_parse_lit_round("null"@, rest);
        },
        Option::Some(n) => {
            let t = spec_digits(n as nat) + rest;
            lemma_digits_first_is_digit(n as nat);
            assert(t[0] == spec_digits(n as nat)[0]);
            if t.len() >= 4 && t.take(4) == "null"@ {
                assert(t.take(4)[0] == 'n');
                assert(t[0] == 'n');
                assert(false);
            }
            lemma_parse_num_round(n as nat, rest);
        },
    }
}

/// An optional quoted string's wire form parses back to it, whatever
/// follows.
proof fn lemma_parse_opt_string_round(o: Option<String>, rest: Seq<char>)
    ensures
        parse_opt_string(spec_opt_string(o) + rest) == Option::Some((abs_opt_str(o), rest)),
{
    reveal_strlit("null");
    match o {
        Option::None => {
            lemma_parse_lit_round("null"@, rest);
        },
        Option::Some(s) => {
            let t = spec_string(s@) + rest;
            assert(t[0] == '"');
            if t.len() >= 4 && t.take(4) == "null"@ {
                assert(t.take(4)[0] == 'n');
                assert(t[0] == 'n');
                assert(false);
            }
            lemma_parse_string_round(s@, rest);
        },
    }
}

} // verus!



verus! {

/// Insignificant whitespace between tokens.
pub open spec fn is_ws(c: char) -> bool {
    c == ' ' || c == '\t' || c == '\n' || c == '\r'
}

/// Drop insignificant whitespace from the front.
pub open spec fn skip_ws(t: Seq<char>) -> Seq<char>
    decreases t.len(),
{
    if t.len() > 0 && is_ws(t[0]) {
        skip_ws(t.drop_first())
    } else {
        t
    }
}

proof fn lemma_skip_ws_len(t: Seq<char>)
    ensures
        skip_ws(t).len() <= t.len(),
    decreases t.len(),
{
    if t.len() > 0 && is_ws(t[0]) {
        lemma_skip_ws_len(t.drop_first());
    }
}

/// Skip the rest of a quoted string without interpreting it: a backslash
/// hides whatever follows it, the first bare quote ends it.
pub open spec fn skip_string_tail(t: Seq<char>) -> Option<Seq<char>>
    decreases t.len(),
{
    if t.len() == 0 {
        Option::None
    } else if t[0] == '"' {
        Option::Some(t.drop_first())
    } else if t[0] == '\\' {
        if t.len() >= 2 {
            skip_string_tail(t.skip(2))
        } else {
            Option::None
        }
    } else {
        skip_string_tail(t.drop_first())
    }
}

proof fn lemma_skip_string_tail_len(t: Seq<char>)
    ensures
        skip_string_tail(t) matches Some(r) ==> r.len() < t.len(),
    decreases t.len(),
{
    if t.len() >= 2 && t[0] == '\\' {
        lemma_skip_string_tail_len(t.skip(2));
    } else if t.len() > 0 && t[0] != '"' {
        lemma_skip_string_tail_len(t.drop_first());
    }
}

/// Consume one member value without interpreting it: scan to the comma or
/// closing brace that ends the member, tracking bracket depth and strings.
/// Deliberately lenient inside: only the bracket structure and strings are
/// checked, since the value is not one the envelope shape speaks of.
pub open spec fn skip_member_value(t: Seq<char>, depth: nat) -> Option<Seq<char>>
    decreases t.len(),
    via skip_member_value_dec
{
    if t.len() == 0 {
        Option::None
    } else if depth == 0 && (t[0] == ',' || t[0] == '}') {
        Option::Some(t)
    } else if t[0] == '{' || t[0] == '[' {
        skip_member_value(t.drop_first(), depth + 1)
    } else if t[0] == '}' || t[0] == ']' {
        if depth == 0 {
            Option::None
        } else {
            skip_member_value(t.drop_first(), (depth - 1) as nat)
        }
    } else if t[0] == '"' {
        match skip_string_tail(t.drop_first()) {
            Option::Some(r) => skip_member_value(r, depth),
            Option::None => Option::None,
        }
    } else {
        skip_member_value(t.drop_first(), depth)
    }
}

#[via_fn]
proof fn skip_member_value_dec(t: Seq<char>, depth: nat) {
    if t.len() > 0 {
        lemma_skip_string_tail_len(t.drop_first());
    }
}

proof fn lemma_smv_len(t: Seq<char>, depth: nat)
    ensures
        skip_member_value(t, depth) matches Some(r) ==> r.len() <= t.len(),
    decreases t.len(),
{
    if t.len() == 0 {
    } else if depth == 0 && (t[0] == ',' || t[0] == '}') {
    } else if t[0] == '{' || t[0] == '[' {
        lemma_smv_len(t.drop_first(), depth + 1);
    } else if t[0] == '}' || t[0] == ']' {
        if depth > 0 {
            lemma_smv_len(t.drop_first(), (depth - 1) as nat);
        }
    } else if t[0] == '"' {
        lemma_skip_string_tail_len(t.drop_first());
        match skip_string_tail(t.drop_first()) {
            Option::Some(r) => {
                lemma_smv_len(r, depth);
            },
            Option::None => {},
        }
    } else {
        lemma_smv_len(t.drop_first(), depth);
    }
}

proof fn lemma_parse_string_rec_len(t: Seq<char>)
    ensures
        parse_string_rec(t) matches Some(p) ==> p.1.len() < t.len(),
    decreases t.len(),
{
    if t.len() == 0 {
    } else if t[0] == '"' {
    } else if t[0] == '\\' {
        if t.len() >= 2 && (t[1] == '"' || t[1] == '\\') {
            lemma_parse_string_rec_len(t.skip(2));
        }
    } else {
        lemma_parse_string_rec_len(t.drop_first());
    }
}

proof fn lemma_parse_string_len(t: Seq<char>)
    ensures
        parse_string(t) matches Some(p) ==> p.1.len() + 2 <= t.len(),
{
    if t.len() > 0 && t[0] == '"' {
        lemma_parse_string_rec_len(t.drop_first());
    }
}

/// Scan the members of an object, from just after its opening brace: each
/// key with the text where its value stands, and the rest after the closing
/// brace.
pub open spec fn scan_members(t: Seq<char>) -> Option<(Seq<(Seq<char>, Seq<char>)>, Seq<char>)>
    decreases t.len(),
    via scan_members_dec
{
    let t1 = skip_ws(t);
    if t1.len() == 0 {
        Option::None
    } else if t1[0] == '}' {
        Option::Some((Seq::empty(), t1.drop_first()))
    } else {
        match parse_string(t1) {
            Option::None => Option::None,
            Option::Some((key, r1)) => {
                let r2 = skip_ws(r1);
                if r2.len() > 0 && r2[0] == ':' {
                    let v = skip_ws(r2.drop_first());
                    match skip_member_value(v, 0) {
                        Option::None => Option::None,
                        Option::Some(r3) => if r3.len() > 0 && r3[0] == ',' {
                            match scan_members(r3.drop_first()) {
                                Option::None => Option::None,
                                Option::Some((ms, rest)) => Option::Some(
                                    (seq![(key, v)] + ms, rest),
                                ),
                            }
                        } else if r3.len() > 0 && r3[0] == '}' {
                            Option::Some((seq![(key, v)], r3.drop_first()))
                        } else {
                            Option::None
                        },
                    }
                } else {
                    Option::None
                }
            },
        }
    }
}

#[via_fn]
proof fn scan_members_dec(t: Seq<char>) {
    lemma_skip_ws_len(t);
    let t1 = skip_ws(t);
    if t1.len() > 0 && t1[0] != '}' {
        lemma_parse_string_len(t1);
        match parse_string(t1) {
            Option::Some(p) => {
                lemma_skip_ws_len(p.1);
                let r2 = skip_ws(p.1);
                if r2.len() > 0 && r2[0] == ':' {
                    lemma_skip_ws_len(r2.drop_first());
                    lemma_smv_len(skip_ws(r2.drop_first()), 0);
                }
            },
            Option::None => {},
        }
    }
}

/// The text where the value of the named member stands: the first member
/// under that key, if any is there.
pub open spec fn find_member(ms: Seq<(Seq<char>, Seq<char>)>, key: Seq<char>) -> Option<Seq<char>>
    decreases ms.len(),
{
    if ms.len() == 0 {
        Option::None
    } else if ms[0].0 == key {
        Option::Some(ms[0].1)
    } else {
        find_member(ms.drop_first(), key)
    }
}

/// After a member's typed value: nothing but spacing may stand before the
/// comma or closing brace that ends the member.
pub open spec fn at_member_end(t: Seq<char>) -> bool {
    skip_ws(t).len() > 0 && (skip_ws(t)[0] == ',' || skip_ws(t)[0] == '}')
}

/// A member value that is a quoted string.
pub open spec fn val_string(v: Seq<char>) -> Option<Seq<char>> {
    match parse_string(v) {
        Option::Some((s, r)) => if at_member_end(r) {
            Option::Some(s)
        } else {
            Option::None
        },
        Option::None => Option::None,
    }
}

/// A member value that is a number a machine word can hold.
pub open spec fn val_unum(v: Seq<char>) -> Option<nat> {
    match parse_unum(v) {
        Option::Some((n, r)) => if at_member_end(r) {
            Option::Some(n)
        } else {
            Option::None
        },
        Option::None => Option::None,
    }
}

/// A member value that is a boolean.
pub open spec fn val_bool(v: Seq<char>) -> Option<bool> {
    match parse_bool(v) {
        Option::Some((b, r)) => if at_member_end(r) {
            Option::Some(b)
        } else {
            Option::None
        },
        Option::None => Option::None,
    }
}

/// A member value that is `null`.
pub open spec fn val_null(v: Seq<char>) -> bool {
    match parse_lit(v, spec_null()) {
        Option::Some(r) => at_member_end(r),
        Option::None => false,
    }
}

/// A member value that is a quoted string or `null`.
pub open spec fn val_opt_string(v: Seq<char>) -> Option<Option<Seq<char>>> {
    match parse_opt_string(v) {
        Option::Some((o, r)) => if at_member_end(r) {
            Option::Some(o)
        } else {
            Option::None
        },
        Option::None => Option::None,
    }
}

/// A member value that is a number or `null`.
pub open spec fn val_opt_unum(v: Seq<char>) -> Option<Option<nat>> {
    match parse_opt_unum(v) {
        Option::Some((o, r)) => if at_member_end(r) {
            Option::Some(o)
        } else {
            Option::None
        },
        Option::None => Option::None,
    }
}

/// A required string member of an object.
pub open spec fn member_string(ms: Seq<(Seq<char>, Seq<char>)>, key: Seq<char>) -> Option<
    Seq<char>,
> {
    match find_member(ms, key) {
        Option::Some(v) => val_string(v),
        Option::None => Option::None,
    }
}

/// A required numeric member of an object.
pub open spec fn member_unum(ms: Seq<(Seq<char>, Seq<char>)>, key: Seq<char>) -> Option<nat> {
    match find_member(ms, key) {
        Option::Some(v) => val_unum(v),
        Option::None => Option::None,
    }
}

/// A required boolean member of an object.
pub open spec fn member_bool(ms: Seq<(Seq<char>, Seq<char>)>, key: Seq<char>) -> Option<bool> {
    match find_member(ms, key) {
        Option::Some(v) => val_bool(v),
        Option::None => Option::None,
    }
}

/// An optional string member: absent and `null` both mean none.
pub open spec fn member_opt_string(ms: Seq<(Seq<char>, Seq<char>)>, key: Seq<char>) -> Option<
    Option<Seq<char>>,
> {
    match find_member(ms, key) {
        Option::Some(v) => val_opt_string(v),
        Option::None => Option::Some(Option::None),
    }
}

/// An optional numeric member: absent and `null` both mean none.
pub open spec fn member_opt_unum(ms: Seq<(Seq<char>, Seq<char>)>, key: Seq<char>) -> Option<
    Option<nat>,
> {
    match find_member(ms, key) {
        Option::Some(v) => val_opt_unum(v),
        Option::None => Option::Some(Option::None),
    }
}

/// A member value that is an object: its scanned members, with anything the
/// envelope shape does not speak of tolerated among them.
pub open spec fn parse_obj_body(v: Seq<char>) -> Option<Seq<(Seq<char>, Seq<char>)>> {
    if v.len() > 0 && v[0] == '{' {
        match scan_members(v.drop_first()) {
            Option::Some((ms, rest)) => if at_member_end(rest) {
                Option::Some(ms)
            } else {
                Option::None
            },
            Option::None => Option::None,
        }
    } else {
        Option::None
    }
}

/// Parse the body of an envelope from the text of its `d` member, the
/// opcode (and, for dispatch envelopes, the event name) being known. Object
/// bodies may carry their members in any order, with spacing, and with
/// unknown members alongside, which are tolerated.
pub open spec fn parse_body(op: Op, ev: Option<Seq<char>>, v: Seq<char>) -> Option<AbsBody> {
    match op {
        Op::Dispatch => if ev == Option::Some(crate::payload::ready_event()) {
            match parse_obj_body(v) {
                Option::None => Option::None,
                Option::Some(bms) => match member_string(bms, "session_id"@) {
                    Option::None => Option::None,
                    Option::Some(sid) => Option::Some(AbsBody::Ready(sid)),
                },
            }
        } else if ev == Option::Some(crate::payload::message_event()) {
            match parse_obj_body(v) {
                Option::None => Option::None,
                Option::Some(bms) => match member_string(bms, "channel_id"@) {
                    Option::None => Option::None,
                    Option::Some(cid) => Option::Some(AbsBody::Message(cid)),
                },
            }
        } else {
            Option::None
        },
        Op::Heartbeat => match val_opt_unum(v) {
            Option::Some(o) => Option::Some(AbsBody::Heartbeat(o)),
            Option::None => Option::None,
        },
        Op::Identify => match parse_obj_body(v) {
            Option::None => Option::None,
            Option::Some(bms) => match member_string(bms, "token"@) {
                Option::None => Option::None,
                Option::Some(token) => match find_member(bms, "properties"@) {
                    Option::None => Option::None,
                    Option::Some(pv) => match parse_obj_body(pv) {
                        Option::None => Option::None,
                        Option::Some(pms) => match member_string(pms, "os"@) {
                            Option::None => Option::None,
                            Option::Some(os) => match member_string(pms, "browser"@) {
                                Option::None => Option::None,
                                Option::Some(browser) => match member_string(pms, "device"@) {
                                    Option::None => Option::None,
                                    Option::Some(device) => match member_unum(bms, "intents"@) {
                                        Option::None => Option::None,
                                        Option::Some(intents) => Option::Some(
                                            AbsBody::Identify {
                                                token,
                                                os,
                                                browser,
                                                device,
                                                intents,
                                            },
                                        ),
                                    },
                                },
                            },
                        },
                    },
                },
            },
        },
        Op::PUpd => if val_null(v) {
            Option::Some(AbsBody::Empty)
        } else {
            Option::None
        },
        Op::VSUpd => match parse_obj_body(v) {
            Option::None => Option::None,
            Option::Some(bms) => match member_string(bms, "guild_id"@) {
                Option::None => Option::None,
                Option::Some(guild_id) => match member_opt_string(bms, "channel_id"@) {
                    Option::None => Option::None,
                    Option::Some(channel_id) => match member_bool(bms, "self_mute"@) {
                        Option::None => Option::None,
                        Option::Some(self_mute) => match member_bool(bms, "self_deaf"@) {
                            Option::None => Option::None,
                            Option::Some(self_deaf) => Option::Some(
                                AbsBody::UpdVState { guild_id, channel_id, self_mute, self_deaf },
                            ),
                        },
                    },
                },
            },
        },
        Op::Resume => match parse_obj_body(v) {
            Option::None => Option::None,
            Option::Some(bms) => match member_string(bms, "token"@) {
                Option::None => Option::None,
                Option::Some(token) => match member_string(bms, "session_id"@) {
                    Option::None => Option::None,
                    Option::Some(session_id) => match member_unum(bms, "seq"@) {
                        Option::None => Option::None,
                        Option::Some(seq) => Option::Some(
                            AbsBody::Resume { token, session_id, seq },
                        ),
                    },
                },
            },
        },
        Op::Reconnect => if val_null(v) {
            Option::Some(AbsBody::Empty)
        } else {
            Option::None
        },
        Op::ReqGuildMembers => if val_null(v) {
            Option::Some(AbsBody::Empty)
        } else {
            Option::None
        },
        Op::InvSession => match val_bool(v) {
            Option::Some(b) => Option::Some(AbsBody::InvSession(b)),
            Option::None => Option::None,
        },
        Op::Hello => match parse_obj_body(v) {
            Option::None => Option::None,
            Option::Some(bms) => match member_unum(bms, "heartbeat_interval"@) {
                Option::None => Option::None,
                Option::Some(n) => Option::Some(AbsBody::Hello(n)),
            },
        },
        Op::HbACK => if val_null(v) {
            Option::Some(AbsBody::HbACK(Option::None))
        } else {
            match val_bool(v) {
                Option::Some(b) => Option::Some(AbsBody::HbACK(Option::Some(b))),
                Option::None => Option::None,
            }
        },
        Op::Unknown => Option::None,
    }
}

/// What a whole frame decodes to: insignificant whitespace and any order of
/// the top-level members are accepted; the body shape is the one the opcode
/// and event name imply.
pub open spec fn spec_decode(f: Seq<char>) -> Option<AbsPayload> {
    let t0 = skip_ws(f);
    if t0.len() > 0 && t0[0] == '{' {
        match scan_members(t0.drop_first()) {
            Option::None => Option::None,
            Option::Some((ms, rest)) => if skip_ws(rest).len() != 0 {
                Option::None
            } else {
                match find_member(ms, "op"@) {
                    Option::None => Option::None,
                    Option::Some(vop) => match val_unum(vop) {
                        Option::None => Option::None,
                        Option::Some(code) => if code > 255 || spec_from_code(code as u8)
                            == Op::Unknown {
                            Option::None
                        } else {
                            let op = spec_from_code(code as u8);
                            match member_opt_string(ms, "t"@) {
                                Option::None => Option::None,
                                Option::Some(ev) => if (ev is Some) != (op == Op::Dispatch) {
                                    Option::None
                                } else {
                                    match member_opt_unum(ms, "s"@) {
                                        Option::None => Option::None,
                                        Option::Some(s) => if s is Some && op != Op::Dispatch {
                                            Option::None
                                        } else {
                                            match find_member(ms, "d"@) {
                                                Option::None => Option::None,
                                                Option::Some(vd) => match parse_body(op, ev, vd) {
                                                    Option::None => Option::None,
                                                    Option::Some(d) => Option::Some(
                                                        AbsPayload { op, t: ev, s, d },
                                                    ),
                                                },
                                            }
                                        },
                                    }
                                },
                            }
                        },
                    },
                }
            },
        }
    } else {
        Option::None
    }
}

/// What the cheap partial decode extracts from a frame: the numeric code of
/// its `op` member, wherever among the members it stands, without committing
/// to a typed decode of the rest.
pub open spec fn spec_decode_partial(f: Seq<char>) -> Option<nat> {
    let t0 = skip_ws(f);
    if t0.len() > 0 && t0[0] == '{' {
        match scan_members(t0.drop_first()) {
            Option::None => Option::None,
            Option::Some((ms, _)) => match find_member(ms, "op"@) {
                Option::None => Option::None,
                Option::Some(vop) => match parse_num(vop) {
                    Option::None => Option::None,
                    Option::Some((code, _)) => Option::Some(code),
                },
            },
        }
    } else {
        Option::None
    }
}

} // verus!

verus! {

/// Consume insignificant whitespace from the front of a frame slice.
fn eat_ws<'a>(t: &'a [char]) -> (r: &'a [char])
    ensures
        r@ == skip_ws(t@),
{
    let mut i: usize = 0;
    proof {
        assert(t@.skip(0) =~= t@);
    }
    loop
        invariant
            i <= t@.len(),
            skip_ws(t@.skip(i as int)) == skip_ws(t@),
        ensures
            i <= t@.len(),
            skip_ws(t@.skip(i as int)) == skip_ws(t@),
            i == t@.len() || !is_ws(t@[i as int]),
        decreases t@.len() - i,
    {
        if i >= t.len() {
            break;
        }
        let c = *vstd::slice::slice_index_get(t, i);
        if !(c == ' ' || c == '\t' || c == '\n' || c == '\r') {
            break;
        }
        proof {
            assert(t@.skip(i as int).drop_first() =~= t@.skip(i as int + 1));
        }
        i = i + 1;
    }
    let r = vstd::slice::slice_subrange(t, i, t.len());
    proof {
        assert(r@ =~= t@.skip(i as int));
        let suf = t@.skip(i as int);
        assert(suf.len() == 0 || !is_ws(suf[0]));
    }
    r
}

/// Consume the rest of a quoted string without interpreting it.
fn eat_string_tail<'a>(t: &'a [char]) -> (r: Option<&'a [char]>)
    ensures
        match r {
            Option::Some(rest) => skip_string_tail(t@) == Option::Some(rest@),
            Option::None => skip_string_tail(t@) is None,
        },
{
    let mut i: usize = 0;
    proof {
        assert(t@.skip(0) =~= t@);
    }
    loop
        invariant
            i <= t@.len(),
            skip_string_tail(t@.skip(i as int)) == skip_string_tail(t@),
        decreases t@.len() - i,
    {
        if i >= t.len() {
            return Option::None;
        }
        let c = *vstd::slice::slice_index_get(t, i);
        if c == '"' {
            let rest = vstd::slice::slice_subrange(t, i + 1, t.len());
            proof {
                assert(t@.skip(i as int).drop_first() =~= t@.skip(i as int + 1));
                assert(rest@ =~= t@.skip(i as int + 1));
            }
            return Option::Some(rest);
        } else if c == '\\' {
            if i + 1 >= t.len() {
                proof {
                    assert(t@.skip(i as int).len() < 2);
                }
                return Option::None;
            }
            proof {
                assert(t@.skip(i as int).skip(2) =~= t@.skip(i as int + 2));
            }
            i = i + 2;
        } else {
            proof {
                assert(t@.skip(i as int).drop_first() =~= t@.skip(i as int + 1));
            }
            i = i + 1;
        }
    }
}

/// Consume one member value without interpreting it.
fn eat_member_value<'a>(t: &'a [char]) -> (r: Option<&'a [char]>)
    ensures
        match r {
            Option::Some(rest) => skip_member_value(t@, 0) == Option::Some(rest@),
            Option::None => skip_member_value(t@, 0) is None,
        },
{
    let total = t.len();
    let mut cur: &[char] = t;
    let mut depth: usize = 0;
    loop
        invariant
            skip_member_value(cur@, depth as nat) == skip_member_value(t@, 0),
            depth as int <= t@.len() - cur@.len(),
            cur@.len() <= t@.len(),
            total == t@.len(),
        decreases cur@.len(),
    {
        if cur.len() == 0 {
            return Option::None;
        }
        let c = *vstd::slice::slice_index_get(cur, 0);
        if depth == 0 && (c == ',' || c == '}') {
            return Option::Some(cur);
        }
        if c == '{' || c == '[' {
            let next = vstd::slice::slice_subrange(cur, 1, cur.len());
            proof {
                assert(cur@.drop_first() =~= next@);
            }
            depth = depth + 1;
            cur = next;
        } else if c == '}' || c == ']' {
            if depth == 0 {
                return Option::None;
            }
            let next = vstd::slice::slice_subrange(cur, 1, cur.len());
            proof {
                assert(cur@.drop_first() =~= next@);
            }
            depth = depth - 1;
            cur = next;
        } else if c == '"' {
            let inner = vstd::slice::slice_subrange(cur, 1, cur.len());
            proof {
                assert(cur@.drop_first() =~= inner@);
            }
            match eat_string_tail(inner) {
                Option::Some(rest) => {
                    proof {
                        lemma_skip_string_tail_len(inner@);
                    }
                    cur = rest;
                },
                Option::None => {
                    return Option::None;
                },
            }
        } else {
            let next = vstd::slice::slice_subrange(cur, 1, cur.len());
            proof {
                assert(cur@.drop_first() =~= next@);
            }
            cur = next;
        }
    }
}

/// Where every key before `i` differs and the key at `i` matches, the found
/// member stands exactly at `i`.
proof fn lemma_find_member_at(ms: Seq<(Seq<char>, Seq<char>)>, key: Seq<char>, i: int)
    requires
        0 <= i < ms.len(),
        ms[i].0 == key,
        forall|j: int| 0 <= j < i ==> ms[j].0 != key,
    ensures
        find_member(ms, key) == Option::Some(ms[i].1),
    decreases i,
{
    if i > 0 {
        lemma_find_member_at(ms.drop_first(), key, i - 1);
    }
}

/// Where every key differs, no member is found.
proof fn lemma_find_member_none(ms: Seq<(Seq<char>, Seq<char>)>, key: Seq<char>)
    requires
        forall|j: int| 0 <= j < ms.len() ==> ms[j].0 != key,
    ensures
        find_member(ms, key) is None,
    decreases ms.len(),
{
    if ms.len() > 0 {
        lemma_find_member_none(ms.drop_first(), key);
    }
}

/// The scanned members of one object: each key with the text where its
/// value stands.
struct Members<'a> {
    list: Vec<(Vec<char>, &'a [char])>,
    view: Ghost<Seq<(Seq<char>, Seq<char>)>>,
}

impl<'a> Members<'a> {
    spec fn wf(&self) -> bool {
        &&& self.view@.len() == self.list@.len()
        &&& forall|i: int|
            0 <= i < self.list@.len() ==> self.view@[i] == (
                (#[trigger] self.list@[i]).0@,
                self.list@[i].1@,
            )
    }

    /// The text where the value of the named member stands.
    fn find(&self, key: &str) -> (r: Option<&'a [char]>)
        requires
            self.wf(),
        ensures
            match r {
                Option::Some(v) => find_member(self.view@, key@) == Option::Some(v@),
                Option::None => find_member(self.view@, key@) is None,
            },
    {
        let n = self.list.len();
        let mut i: usize = 0;
        while i < n
            invariant
                i <= n,
                n == self.list@.len(),
                self.wf(),
                forall|j: int| 0 <= j < i ==> self.view@[j].0 != key@,
            decreases n - i,
        {
            let pair = vstd::slice::slice_index_get(self.list.as_slice(), i);
            if eq_lit(&pair.0, key) {
                proof {
                    lemma_find_member_at(self.view@, key@, i as int);
                }
                return Option::Some(pair.1);
            }
            i = i + 1;
        }
        proof {
            lemma_find_member_none(self.view@, key@);
        }
        Option::None
    }
}

/// How already-scanned members compose with the scan of the remaining text.
spec fn cons_scan(
    pre: Seq<(Seq<char>, Seq<char>)>,
    r: Option<(Seq<(Seq<char>, Seq<char>)>, Seq<char>)>,
) -> Option<(Seq<(Seq<char>, Seq<char>)>, Seq<char>)> {
    match r {
        Option::Some(p) => Option::Some((pre + p.0, p.1)),
        Option::None => Option::None,
    }
}

/// Scan the members of an object from just after its opening brace.
fn eat_scan_members<'a>(t: &'a [char]) -> (r: Option<(Members<'a>, &'a [char])>)
    ensures
        match r {
            Option::Some(p) => p.0.wf() && scan_members(t@) == Option::Some((p.0.view@, p.1@)),
            Option::None => scan_members(t@) is None,
        },
{
    let mut cur: &[char] = t;
    let mut list: Vec<(Vec<char>, &'a [char])> = Vec::new();
    let ghost mut gview: Seq<(Seq<char>, Seq<char>)> = Seq::empty();
    proof {
        match scan_members(t@) {
            Option::Some(p) => {
                assert(Seq::<(Seq<char>, Seq<char>)>::empty() + p.0 =~= p.0);
            },
            Option::None => {},
        }
    }
    loop
        invariant
            gview.len() == list@.len(),
            forall|i: int|
                0 <= i < list@.len() ==> gview[i] == ((#[trigger] list@[i]).0@, list@[i].1@),
            cons_scan(gview, scan_members(cur@)) == scan_members(t@),
        decreases cur@.len(),
    {
        let w = eat_ws(cur);
        proof {
            lemma_skip_ws_len(cur@);
        }
        if w.len() == 0 {
            return Option::None;
        }
        let c0 = *vstd::slice::slice_index_get(w, 0);
        if c0 == '}' {
            let rest = vstd::slice::slice_subrange(w, 1, w.len());
            proof {
                assert(w@.drop_first() =~= rest@);
                assert(gview + Seq::<(Seq<char>, Seq<char>)>::empty() =~= gview);
            }
            return Option::Some((Members { list, view: Ghost(gview) }, rest));
        }
        let (key, r1) = match eat_string(w) {
            Option::Some(p) => p,
            Option::None => {
                return Option::None;
            },
        };
        proof {
            lemma_parse_string_len(w@);
        }
        let r2 = eat_ws(r1);
        proof {
            lemma_skip_ws_len(r1@);
        }
        if !(r2.len() > 0 && *vstd::slice::slice_index_get(r2, 0) == ':') {
            return Option::None;
        }
        let vstart = vstd::slice::slice_subrange(r2, 1, r2.len());
        proof {
            assert(r2@.drop_first() =~= vstart@);
        }
        let v = eat_ws(vstart);
        proof {
            lemma_skip_ws_len(vstart@);
        }
        let r3 = match eat_member_value(v) {
            Option::Some(r3) => r3,
            Option::None => {
                return Option::None;
            },
        };
        proof {
            lemma_smv_len(v@, 0);
        }
        let ghost gkey = key@;
        let ghost gval = v@;
        if r3.len() > 0 && *vstd::slice::slice_index_get(r3, 0) == ',' {
            list.push((key, v));
            let next = vstd::slice::slice_subrange(r3, 1, r3.len());
            proof {
                assert(r3@.drop_first() =~= next@);
                match scan_members(next@) {
                    Option::Some(p) => {
                        assert(gview + (seq![(gkey, gval)] + p.0) =~= gview.push((gkey, gval))
                            + p.0);
                    },
                    Option::None => {},
                }
                gview = gview.push((gkey, gval));
            }
            cur = next;
        } else if r3.len() > 0 && *vstd::slice::slice_index_get(r3, 0) == '}' {
            list.push((key, v));
            let rest = vstd::slice::slice_subrange(r3, 1, r3.len());
            proof {
                assert(r3@.drop_first() =~= rest@);
                assert(gview + seq![(gkey, gval)] =~= gview.push((gkey, gval)));
                gview = gview.push((gkey, gval));
            }
            return Option::Some((Members { list, view: Ghost(gview) }, rest));
        } else {
            return Option::None;
        }
    }
}

/// Whether a typed member value ends where the member ends.
fn is_member_end(t: &[char]) -> (r: bool)
    ensures
        r == at_member_end(t@),
{
    let w = eat_ws(t);
    if w.len() == 0 {
        return false;
    }
    let c = *vstd::slice::slice_index_get(w, 0);
    c == ',' || c == '}'
}

} // verus!

verus! {

/// Consume a member value that is a quoted string.
fn eat_val_string(v: &[char]) -> (r: Option<Vec<char>>)
    ensures
        match r {
            Option::Some(s) => val_string(v@) == Option::Some(s@),
            Option::None => val_string(v@) is None,
        },
{
    match eat_string(v) {
        Option::Some((s, rest)) => {
            if is_member_end(rest) {
                Option::Some(s)
            } else {
                Option::None
            }
        },
        Option::None => Option::None,
    }
}

/// Consume a member value that is a number a machine word can hold.
fn eat_val_unum(v: &[char]) -> (r: Option<usize>)
    ensures
        match r {
            Option::Some(n) => val_unum(v@) == Option::Some(n as nat),
            Option::None => val_unum(v@) is None,
        },
{
    match eat_num(v) {
        Option::Some((n, rest)) => {
            if is_member_end(rest) {
                Option::Some(n)
            } else {
                Option::None
            }
        },
        Option::None => Option::None,
    }
}

/// Consume a member value that is a boolean.
fn eat_val_bool(v: &[char]) -> (r: Option<bool>)
    ensures
        match r {
            Option::Some(b) => val_bool(v@) == Option::Some(b),
            Option::None => val_bool(v@) is None,
        },
{
    match eat_bool(v) {
        Option::Some((b, rest)) => {
            if is_member_end(rest) {
                Option::Some(b)
            } else {
                Option::None
            }
        },
        Option::None => Option::None,
    }
}

/// Whether a member value is `null`.
fn eat_val_null(v: &[char]) -> (r: bool)
    ensures
        r == val_null(v@),
{
    match eat_lit(v, "null") {
        Option::Some(rest) => is_member_end(rest),
        Option::None => false,
    }
}

/// Consume a member value that is a quoted string or `null`.
fn eat_val_opt_string(v: &[char]) -> (r: Option<Option<Vec<char>>>)
    ensures
        match r {
            Option::Some(o) => val_opt_string(v@) == Option::Some(abs_opt_chars(o)),
            Option::None => val_opt_string(v@) is None,
        },
{
    match eat_opt_string(v) {
        Option::Some((o, rest)) => {
            if is_member_end(rest) {
                Option::Some(o)
            } else {
                Option::None
            }
        },
        Option::None => Option::None,
    }
}

/// Consume a member value that is a number or `null`.
fn eat_val_opt_unum(v: &[char]) -> (r: Option<Option<usize>>)
    ensures
        match r {
            Option::Some(o) => val_opt_unum(v@) == Option::Some(abs_opt_num(o)),
            Option::None => val_opt_unum(v@) is None,
        },
{
    match eat_opt_num(v) {
        Option::Some((o, rest)) => {
            if is_member_end(rest) {
                Option::Some(o)
            } else {
                Option::None
            }
        },
        Option::None => Option::None,
    }
}

/// Consume a member value that is an object, keeping its scanned members.
fn eat_obj_body<'a>(v: &'a [char]) -> (r: Option<Members<'a>>)
    ensures
        match r {
            Option::Some(ms) => ms.wf() && parse_obj_body(v@) == Option::Some(ms.view@),
            Option::None => parse_obj_body(v@) is None,
        },
{
    if v.len() == 0 || *vstd::slice::slice_index_get(v, 0) != '{' {
        return Option::None;
    }
    let inner = vstd::slice::slice_subrange(v, 1, v.len());
    proof {
        assert(v@.drop_first() =~= inner@);
    }
    match eat_scan_members(inner) {
        Option::Some((ms, rest)) => {
            if is_member_end(rest) {
                Option::Some(ms)
            } else {
                Option::None
            }
        },
        Option::None => Option::None,
    }
}

/// Consume the `d` member of an envelope whose opcode and event name are
/// already known.
fn eat_body(op: Op, ev: &Option<Vec<char>>, v: &[char]) -> (r: Option<Body>)
    ensures
        match r {
            Option::Some(d) => parse_body(op, abs_opt_chars(*ev), v@) == Option::Some(abs_body(d)),
            Option::None => parse_body(op, abs_opt_chars(*ev), v@) is None,
        },
{
    match op {
        Op::Dispatch => {
            let name = match ev {
                Option::Some(name) => name,
                Option::None => {
                    return Option::None;
                },
            };
            if eq_lit(name, "READY") {
                let bms = match eat_obj_body(v) {
                    Option::Some(bms) => bms,
                    Option::None => {
                        return Option::None;
                    },
                };
                let vs = match bms.find("session_id") {
                    Option::Some(vs) => vs,
                    Option::None => {
                        return Option::None;
                    },
                };
                match eat_val_string(vs) {
                    Option::Some(sid) => Option::Some(
                        Body::Ready(crate::events::Ready { session_id: chars_to_string(sid) }),
                    ),
                    Option::None => Option::None,
                }
            } else if eq_lit(name, "MESSAGE_CREATE") {
                let bms = match eat_obj_body(v) {
                    Option::Some(bms) => bms,
                    Option::None => {
                        return Option::None;
                    },
                };
                let vc = match bms.find("channel_id") {
                    Option::Some(vc) => vc,
                    Option::None => {
                        return Option::None;
                    },
                };
                match eat_val_string(vc) {
                    Option::Some(cid) => Option::Some(
                        Body::Message(crate::events::Message { channel_id: chars_to_string(cid) }),
                    ),
                    Option::None => Option::None,
                }
            } else {
                Option::None
            }
        },
        Op::Heartbeat => match eat_val_opt_unum(v) {
            Option::Some(o) => Option::Some(Body::Heartbeat(o)),
            Option::None => Option::None,
        },
        Op::Identify => {
            let bms = match eat_obj_body(v) {
                Option::Some(bms) => bms,
                Option::None => {
                    return Option::None;
                },
            };
            let vt = match bms.find("token") {
                Option::Some(vt) => vt,
                Option::None => {
                    return Option::None;
                },
            };
            let token = match eat_val_string(vt) {
                Option::Some(token) => token,
                Option::None => {
                    return Option::None;
                },
            };
            let pv = match bms.find("properties") {
                Option::Some(pv) => pv,
                Option::None => {
                    return Option::None;
                },
            };
            let pms = match eat_obj_body(pv) {
                Option::Some(pms) => pms,
                Option::None => {
                    return Option::None;
                },
            };
            let vos = match pms.find("os") {
                Option::Some(vos) => vos,
                Option::None => {
                    return Option::None;
                },
            };
            let os = match eat_val_string(vos) {
                Option::Some(os) => os,
                Option::None => {
                    return Option::None;
                },
            };
            let vb = match pms.find("browser") {
                Option::Some(vb) => vb,
                Option::None => {
                    return Option::None;
                },
            };
            let browser = match eat_val_string(vb) {
                Option::Some(browser) => browser,
                Option::None => {
                    return Option::None;
                },
            };
            let vdev = match pms.find("device") {
                Option::Some(vdev) => vdev,
                Option::None => {
                    return Option::None;
                },
            };
            let device = match eat_val_string(vdev) {
                Option::Some(device) => device,
                Option::None => {
                    return Option::None;
                },
            };
            let vi = match bms.find("intents") {
                Option::Some(vi) => vi,
                Option::None => {
                    return Option::None;
                },
            };
            let intents = match eat_val_unum(vi) {
                Option::Some(intents) => intents,
                Option::None => {
                    return Option::None;
                },
            };
            Option::Some(
                Body::Identify(
                    Identify {
                        token: chars_to_string(token),
                        properties: crate::payload::IdentifyProperties {
                            os: chars_to_string(os),
                            browser: chars_to_string(browser),
                            device: chars_to_string(device),
                        },
                        intents,
                    },
                ),
            )
        },
        Op::PUpd => {
            if eat_val_null(v) {
                Option::Some(Body::Empty)
            } else {
                Option::None
            }
        },
        Op::VSUpd => {
            let bms = match eat_obj_body(v) {
                Option::Some(bms) => bms,
                Option::None => {
                    return Option::None;
                },
            };
            let vg = match bms.find("guild_id") {
                Option::Some(vg) => vg,
                Option::None => {
                    return Option::None;
                },
            };
            let guild_id = match eat_val_string(vg) {
                Option::Some(guild_id) => guild_id,
                Option::None => {
                    return Option::None;
                },
            };
            let channel_id = match bms.find("channel_id") {
                Option::Some(vc) => match eat_val_opt_string(vc) {
                    Option::Some(channel_id) => channel_id,
                    Option::None => {
                        return Option::None;
                    },
                },
                Option::None => Option::None,
            };
            let vm = match bms.find("self_mute") {
                Option::Some(vm) => vm,
                Option::None => {
                    return Option::None;
                },
            };
            let self_mute = match eat_val_bool(vm) {
                Option::Some(self_mute) => self_mute,
                Option::None => {
                    return Option::None;
                },
            };
            let vdf = match bms.find("self_deaf") {
                Option::Some(vdf) => vdf,
                Option::None => {
                    return Option::None;
                },
            };
            let self_deaf = match eat_val_bool(vdf) {
                Option::Some(self_deaf) => self_deaf,
                Option::None => {
                    return Option::None;
                },
            };
            let channel_id_s = match channel_id {
                Option::Some(cv) => Option::Some(chars_to_string(cv)),
                Option::None => Option::None,
            };
            Option::Some(
                Body::UpdVState(
                    UpdVState {
                        guild_id: chars_to_string(guild_id),
                        channel_id: channel_id_s,
                        self_mute,
                        self_deaf,
                    },
                ),
            )
        },
        Op::Resume => {
            let bms = match eat_obj_body(v) {
                Option::Some(bms) => bms,
                Option::None => {
                    return Option::None;
                },
            };
            let vt = match bms.find("token") {
                Option::Some(vt) => vt,
                Option::None => {
                    return Option::None;
                },
            };
            let token = match eat_val_string(vt) {
                Option::Some(token) => token,
                Option::None => {
                    return Option::None;
                },
            };
            let vs = match bms.find("session_id") {
                Option::Some(vs) => vs,
                Option::None => {
                    return Option::None;
                },
            };
            let session_id = match eat_val_string(vs) {
                Option::Some(session_id) => session_id,
                Option::None => {
                    return Option::None;
                },
            };
            let vq = match bms.find("seq") {
                Option::Some(vq) => vq,
                Option::None => {
                    return Option::None;
                },
            };
            let seq_n = match eat_val_unum(vq) {
                Option::Some(seq_n) => seq_n,
                Option::None => {
                    return Option::None;
                },
            };
            Option::Some(
                Body::Resume(
                    Resume {
                        token: chars_to_string(token),
                        session_id: chars_to_string(session_id),
                        seq: seq_n,
                    },
                ),
            )
        },
        Op::Reconnect => {
            if eat_val_null(v) {
                Option::Some(Body::Empty)
            } else {
                Option::None
            }
        },
        Op::ReqGuildMembers => {
            if eat_val_null(v) {
                Option::Some(Body::Empty)
            } else {
                Option::None
            }
        },
        Op::InvSession => match eat_val_bool(v) {
            Option::Some(b) => Option::Some(Body::InvSession(b)),
            Option::None => Option::None,
        },
        Op::Hello => {
            let bms = match eat_obj_body(v) {
                Option::Some(bms) => bms,
                Option::None => {
                    return Option::None;
                },
            };
            let vh = match bms.find("heartbeat_interval") {
                Option::Some(vh) => vh,
                Option::None => {
                    return Option::None;
                },
            };
            match eat_val_unum(vh) {
                Option::Some(n) => Option::Some(Body::Hello(Hello { heartbeat_interval: n })),
                Option::None => Option::None,
            }
        },
        Op::HbACK => {
            if eat_val_null(v) {
                Option::Some(Body::HbACK(Option::None))
            } else {
                match eat_val_bool(v) {
                    Option::Some(b) => Option::Some(Body::HbACK(Option::Some(b))),
                    Option::None => Option::None,
                }
            }
        },
        Op::Unknown => Option::None,
    }
}

/// Decode a whole frame into a typed envelope. Succeeds exactly on the
/// frames the wire grammar admits — with insignificant whitespace, any order
/// of the top-level members, and unknown members inside object bodies
/// tolerated; everything else is a malformed frame.
pub fn decode(f: &[char]) -> (r: Result<Payload, Error>)
    ensures
        match spec_decode(f@) {
            Option::Some(a) => r matches Ok(p) && abs_of(p) == a && p.wf(),
            Option::None => r == Result::<Payload, Error>::Err(Error::MalformedFrame),
        },
{
    let t0 = eat_ws(f);
    if t0.len() == 0 || *vstd::slice::slice_index_get(t0, 0) != '{' {
        return Result::Err(Error::MalformedFrame);
    }
    let inner = vstd::slice::slice_subrange(t0, 1, t0.len());
    proof {
        assert(t0@.drop_first() =~= inner@);
    }
    let (ms, rest) = match eat_scan_members(inner) {
        Option::Some(p) => p,
        Option::None => {
            return Result::Err(Error::MalformedFrame);
        },
    };
    let rw = eat_ws(rest);
    if rw.len() != 0 {
        return Result::Err(Error::MalformedFrame);
    }
    let vop = match ms.find("op") {
        Option::Some(vop) => vop,
        Option::None => {
            return Result::Err(Error::MalformedFrame);
        },
    };
    let code = match eat_val_unum(vop) {
        Option::Some(code) => code,
        Option::None => {
            return Result::Err(Error::MalformedFrame);
        },
    };
    if code > 255 {
        return Result::Err(Error::MalformedFrame);
    }
    let op = Op::from_code(code as u8);
    if matches!(op, Op::Unknown) {
        return Result::Err(Error::MalformedFrame);
    }
    let ev: Option<Vec<char>> = match ms.find("t") {
        Option::None => Option::None,
        Option::Some(vt) => match eat_val_opt_string(vt) {
            Option::Some(o) => o,
            Option::None => {
                return Result::Err(Error::MalformedFrame);
            },
        },
    };
    let is_dispatch = matches!(op, Op::Dispatch);
    if ev.is_some() != is_dispatch {
        return Result::Err(Error::MalformedFrame);
    }
    let s: Option<usize> = match ms.find("s") {
        Option::None => Option::None,
        Option::Some(vs) => match eat_val_opt_unum(vs) {
            Option::Some(o) => o,
            Option::None => {
                return Result::Err(Error::MalformedFrame);
            },
        },
    };
    if s.is_some() && !is_dispatch {
        return Result::Err(Error::MalformedFrame);
    }
    let vd = match ms.find("d") {
        Option::Some(vd) => vd,
        Option::None => {
            return Result::Err(Error::MalformedFrame);
        },
    };
    let d = match eat_body(op, &ev, vd) {
        Option::Some(d) => d,
        Option::None => {
            return Result::Err(Error::MalformedFrame);
        },
    };
    let t = match ev {
        Option::Some(vt) => Option::Some(chars_to_string(vt)),
        Option::None => Option::None,
    };
    let p = Payload { op, d, s, t };
    proof {
        let a = spec_decode(f@).unwrap();
        assert(abs_of(p) == a);
        assert(crate::payload::body_matches(p.op, p.t, p.d));
        assert(p.wf());
    }
    Result::Ok(p)
}

/// Extract just the opcode of a frame, wherever among the members it
/// stands: enough to route it. A numeric code outside the assignment
/// classifies as `Unknown`.
pub fn decode_partial(f: &[char]) -> (r: Result<PartialPayload, Error>)
    ensures
        match spec_decode_partial(f@) {
            Option::Some(c) => r == Result::<PartialPayload, Error>::Ok(
                PartialPayload { op: op_of_code(c) },
            ),
            Option::None => r == Result::<PartialPayload, Error>::Err(Error::MalformedFrame),
        },
{
    let t0 = eat_ws(f);
    if t0.len() == 0 || *vstd::slice::slice_index_get(t0, 0) != '{' {
        return Result::Err(Error::MalformedFrame);
    }
    let inner = vstd::slice::slice_subrange(t0, 1, t0.len());
    proof {
        assert(t0@.drop_first() =~= inner@);
    }
    let ms = match eat_scan_members(inner) {
        Option::Some((ms, _)) => ms,
        Option::None => {
            return Result::Err(Error::MalformedFrame);
        },
    };
    let vop = match ms.find("op") {
        Option::Some(vop) => vop,
        Option::None => {
            return Result::Err(Error::MalformedFrame);
        },
    };
    match eat_num(vop) {
        Option::Some((code, _)) => {
            let op = if code <= 255 {
                Op::from_code(code as u8)
            } else {
                Op::Unknown
            };
            Result::Ok(PartialPayload { op })
        },
        Option::None => {
            // Either no digit stands there, or the value overflows a machine
            // word; an overflowing code is merely outside the assignment.
            if vop.len() > 0 {
                let c0 = *vstd::slice::slice_index_get(vop, 0);
                let v0 = c0 as u32;
                if 48 <= v0 && v0 <= 57 {
                    proof {
                        assert(is_digit(vop@[0]));
                        assert(parse_num(vop@) is Some);
                        let c = parse_num(vop@).unwrap().0;
                        assert(c > usize::MAX as nat);
                        assert(op_of_code(c) == Op::Unknown);
                    }
                    return Result::Ok(PartialPayload { op: Op::Unknown });
                }
                proof {
                    assert(!is_digit(vop@[0]));
                }
                return Result::Err(Error::MalformedFrame);
            }
            Result::Err(Error::MalformedFrame)
        },
    }
}

} // verus!

verus! {

/// The scanner walks over any single character that is not a bracket, a
/// quote, or a member delimiter at top depth.
proof fn lemma_smv_char(c: char, t: Seq<char>, depth: nat)
    requires
        c != '{' && c != '[' && c != '}' && c != ']' && c != '"',
        depth == 0 ==> c != ',',
    ensures
        skip_member_value(seq![c] + t, depth) == skip_member_value(t, depth),
{
    assert((seq![c] + t).drop_first() =~= t);
}

/// The scanner walks over a number.
proof fn lemma_smv_digits(n: nat, t: Seq<char>, depth: nat)
    ensures
        skip_member_value(spec_digits(n) + t, depth) == skip_member_value(t, depth),
    decreases n,
{
    lemma_digit_char(n % 10);
    if n < 10 {
        lemma_digit_char(n);
        lemma_smv_char(digit_char(n), t, depth);
        assert(spec_digits(n) + t =~= seq![digit_char(n)] + t);
    } else {
        let dc = digit_char(n % 10);
        assert(spec_digits(n) + t =~= spec_digits(n / 10) + (seq![dc] + t));
        lemma_smv_digits(n / 10, seq![dc] + t, depth);
        lemma_smv_char(dc, t, depth);
    }
}

/// The lenient string skipper consumes exactly one escaped string body.
proof fn lemma_sst_round(s: Seq<char>, t: Seq<char>)
    ensures
        skip_string_tail(spec_escape(s) + (seq!['"'] + t)) == Option::Some(t),
    decreases s.len(),
{
    if s.len() == 0 {
        let u = spec_escape(s) + (seq!['"'] + t);
        assert(u =~= seq!['"'] + t);
        assert(u.drop_first() =~= t);
    } else {
        let c = s[0];
        let s1 = s.drop_first();
        lemma_sst_round(s1, t);
        let u = spec_escape(s) + (seq!['"'] + t);
        if c == '"' || c == '\\' {
            assert(u =~= seq!['\\', c] + (spec_escape(s1) + (seq!['"'] + t)));
            assert(u[0] == '\\');
            assert(u.len() >= 2);
            assert(u.skip(2) =~= spec_escape(s1) + (seq!['"'] + t));
        } else {
            assert(u =~= seq![c] + (spec_escape(s1) + (seq!['"'] + t)));
            assert(u[0] == c);
            assert(u.drop_first() =~= spec_escape(s1) + (seq!['"'] + t));
        }
    }
}

/// The scanner walks over a quoted string.
proof fn lemma_smv_string(s: Seq<char>, t: Seq<char>, depth: nat)
    ensures
        skip_member_value(spec_string(s) + t, depth) == skip_member_value(t, depth),
{
    let u = spec_string(s) + t;
    assert(u[0] == '"');
    assert(u.drop_first() =~= spec_escape(s) + (seq!['"'] + t));
    lemma_sst_round(s, t);
}

/// The scanner walks over `null`.
proof fn lemma_smv_null(t: Seq<char>, depth: nat)
    ensures
        skip_member_value(spec_null() + t, depth) == skip_member_value(t, depth),
{
    reveal_strlit("null");
    assert(spec_null() + t =~= seq!['n'] + (seq!['u'] + (seq!['l'] + (seq!['l'] + t))));
    lemma_smv_char('n', seq!['u'] + (seq!['l'] + (seq!['l'] + t)), depth);
    lemma_smv_char('u', seq!['l'] + (seq!['l'] + t), depth);
    lemma_smv_char('l', seq!['l'] + t, depth);
    lemma_smv_char('l', t, depth);
}

/// The scanner walks over a boolean.
proof fn lemma_smv_bool(b: bool, t: Seq<char>, depth: nat)
    ensures
        skip_member_value(spec_bool(b) + t, depth) == skip_member_value(t, depth),
{
    if b {
        reveal_strlit("true");
        assert(spec_bool(b) + t =~= seq!['t'] + (seq!['r'] + (seq!['u'] + (seq!['e'] + t))));
        lemma_smv_char('t', seq!['r'] + (seq!['u'] + (seq!['e'] + t)), depth);
        lemma_smv_char('r', seq!['u'] + (seq!['e'] + t), depth);
        lemma_smv_char('u', seq!['e'] + t, depth);
        lemma_smv_char('e', t, depth);
    } else {
        reveal_strlit("false");
        assert(spec_bool(b) + t =~= seq!['f'] + (seq!['a'] + (seq!['l'] + (seq!['s'] + (seq!['e']
            + t)))));
        lemma_smv_char('f', seq!['a'] + (seq!['l'] + (seq!['s'] + (seq!['e'] + t))), depth);
        lemma_smv_char('a', seq!['l'] + (seq!['s'] + (seq!['e'] + t)), depth);
        lemma_smv_char('l', seq!['s'] + (seq!['e'] + t), depth);
        lemma_smv_char('s', seq!['e'] + t, depth);
        lemma_smv_char('e', t, depth);
    }
}

/// The scanner walks over a number or `null`.
proof fn lemma_smv_opt_num(o: Option<usize>, t: Seq<char>, depth: nat)
    ensures
        skip_member_value(spec_opt_num(o) + t, depth) == skip_member_value(t, depth),
{
    match o {
        Option::None => lemma_smv_null(t, depth),
        Option::Some(n) => lemma_smv_digits(n as nat, t, depth),
    }
}

/// The scanner walks over a quoted string or `null`.
proof fn lemma_smv_opt_string(o: Option<String>, t: Seq<char>, depth: nat)
    ensures
        skip_member_value(spec_opt_string(o) + t, depth) == skip_member_value(t, depth),
{
    match o {
        Option::None => lemma_smv_null(t, depth),
        Option::Some(s) => lemma_smv_string(s@, t, depth),
    }
}

/// The scanner walks into an object.
proof fn lemma_smv_open(t: Seq<char>, depth: nat)
    ensures
        skip_member_value(seq!['{'] + t, depth) == skip_member_value(t, depth + 1),
{
    assert((seq!['{'] + t).drop_first() =~= t);
}

/// The scanner walks out of an object.
proof fn lemma_smv_close(t: Seq<char>, depth: nat)
    requires
        depth >= 1,
    ensures
        skip_member_value(seq!['}'] + t, depth) == skip_member_value(t, (depth - 1) as nat),
{
    assert((seq!['}'] + t).drop_first() =~= t);
}

/// The scanner walks over one whole `key:value` member, whenever it walks
/// over the value.
proof fn lemma_smv_kv(k: Seq<char>, v: Seq<char>, t: Seq<char>, depth: nat)
    requires
        skip_member_value(v + t, depth) == skip_member_value(t, depth),
    ensures
        skip_member_value(kv(k, v) + t, depth) == skip_member_value(t, depth),
{
    assert(kv(k, v) + t =~= spec_string(k) + (seq![':'] + (v + t)));
    lemma_smv_string(k, seq![':'] + (v + t), depth);
    lemma_smv_char(':', v + t, depth);
}

/// The scanner walks over the identify properties object.
proof fn lemma_smv_props(os: Seq<char>, browser: Seq<char>, device: Seq<char>, t: Seq<char>, depth: nat)
    ensures
        skip_member_value(
            obj3("os"@, spec_string(os), "browser"@, spec_string(browser), "device"@, spec_string(device)) + t,
            depth,
        ) == skip_member_value(t, depth),
{
    let o = obj3("os"@, spec_string(os), "browser"@, spec_string(browser), "device"@, spec_string(device));
    let x3 = seq!['}'] + t;
    let x2 = kv("device"@, spec_string(device)) + x3;
    let x1 = seq![','] + x2;
    let x0 = kv("browser"@, spec_string(browser)) + x1;
    let y1 = seq![','] + x0;
    let y0 = kv("os"@, spec_string(os)) + y1;
    assert(o + t =~= seq!['{'] + y0);
    lemma_smv_open(y0, depth);
    lemma_smv_string(device, x3, depth + 1);
    lemma_smv_kv("device"@, spec_string(device), x3, depth + 1);
    lemma_smv_close(t, depth + 1);
    lemma_smv_char(',', x2, depth + 1);
    lemma_smv_string(browser, x1, depth + 1);
    lemma_smv_kv("browser"@, spec_string(browser), x1, depth + 1);
    lemma_smv_char(',', x0, depth + 1);
    lemma_smv_string(os, y1, depth + 1);
    lemma_smv_kv("os"@, spec_string(os), y1, depth + 1);
}

/// The scanner walks over any encoded body.
#[verifier::rlimit(100)]
proof fn lemma_smv_encoded_body(d: Body, t: Seq<char>)
    ensures
        skip_member_value(spec_encode_body(d) + t, 0) == skip_member_value(t, 0),
{
    match d {
        Body::Heartbeat(o) => lemma_smv_opt_num(o, t, 0),
        Body::Identify(i) => {
            let props = obj3(
                "os"@,
                spec_string(i.properties.os@),
                "browser"@,
                spec_string(i.properties.browser@),
                "device"@,
                spec_string(i.properties.device@),
            );
            let x3 = seq!['}'] + t;
            let x2 = kv("intents"@, spec_digits(i.intents as nat)) + x3;
            let x1 = seq![','] + x2;
            let x0 = kv("properties"@, props) + x1;
            let y1 = seq![','] + x0;
            let y0 = kv("token"@, spec_string(i.token@)) + y1;
            assert(spec_encode_body(d) + t =~= seq!['{'] + y0);
            lemma_smv_open(y0, 0);
            lemma_smv_digits(i.intents as nat, x3, 1);
            lemma_smv_kv("intents"@, spec_digits(i.intents as nat), x3, 1);
            lemma_smv_close(t, 1);
            lemma_smv_char(',', x2, 1);
            lemma_smv_props(i.properties.os@, i.properties.browser@, i.properties.device@, x1, 1);
            lemma_smv_kv("properties"@, props, x1, 1);
            lemma_smv_char(',', x0, 1);
            lemma_smv_string(i.token@, y1, 1);
            lemma_smv_kv("token"@, spec_string(i.token@), y1, 1);
        },
        Body::Resume(r) => {
            let x3 = seq!['}'] + t;
            let x2 = kv("seq"@, spec_digits(r.seq as nat)) + x3;
            let x1 = seq![','] + x2;
            let x0 = kv("session_id"@, spec_string(r.session_id@)) + x1;
            let y1 = seq![','] + x0;
            let y0 = kv("token"@, spec_string(r.token@)) + y1;
            assert(spec_encode_body(d) + t =~= seq!['{'] + y0);
            lemma_smv_open(y0, 0);
            lemma_smv_digits(r.seq as nat, x3, 1);
            lemma_smv_kv("seq"@, spec_digits(r.seq as nat), x3, 1);
            lemma_smv_close(t, 1);
            lemma_smv_char(',', x2, 1);
            lemma_smv_string(r.session_id@, x1, 1);
            lemma_smv_kv("session_id"@, spec_string(r.session_id@), x1, 1);
            lemma_smv_char(',', x0, 1);
            lemma_smv_string(r.token@, y1, 1);
            lemma_smv_kv("token"@, spec_string(r.token@), y1, 1);
        },
        Body::UpdVState(v) => {
            let x3 = seq!['}'] + t;
            let x2 = kv("self_deaf"@, spec_bool(v.self_deaf)) + x3;
            let x1 = seq![','] + x2;
            let x0 = kv("self_mute"@, spec_bool(v.self_mute)) + x1;
            let y1 = seq![','] + x0;
            let y0 = kv("channel_id"@, spec_opt_string(v.channel_id)) + y1;
            let z1 = seq![','] + y0;
            let z0 = kv("guild_id"@, spec_string(v.guild_id@)) + z1;
            assert(spec_encode_body(d) + t =~= seq!['{'] + z0);
            lemma_smv_open(z0, 0);
            lemma_smv_bool(v.self_deaf, x3, 1);
            lemma_smv_kv("self_deaf"@, spec_bool(v.self_deaf), x3, 1);
            lemma_smv_close(t, 1);
            lemma_smv_char(',', x2, 1);
            lemma_smv_bool(v.self_mute, x1, 1);
            lemma_smv_kv("self_mute"@, spec_bool(v.self_mute), x1, 1);
            lemma_smv_char(',', x0, 1);
            lemma_smv_opt_string(v.channel_id, y1, 1);
            lemma_smv_kv("channel_id"@, spec_opt_string(v.channel_id), y1, 1);
            lemma_smv_char(',', y0, 1);
            lemma_smv_string(v.guild_id@, z1, 1);
            lemma_smv_kv("guild_id"@, spec_string(v.guild_id@), z1, 1);
        },
        Body::Hello(h) => {
            let x1 = seq!['}'] + t;
            let x0 = kv("heartbeat_interval"@, spec_digits(h.heartbeat_interval as nat)) + x1;
            assert(spec_encode_body(d) + t =~= seq!['{'] + x0);
            lemma_smv_open(x0, 0);
            lemma_smv_digits(h.heartbeat_interval as nat, x1, 1);
            lemma_smv_kv("heartbeat_interval"@, spec_digits(h.heartbeat_interval as nat), x1, 1);
            lemma_smv_close(t, 1);
        },
        Body::InvSession(b) => lemma_smv_bool(b, t, 0),
        Body::HbACK(o) => {
            match o {
                Option::None => lemma_smv_null(t, 0),
                Option::Some(b) => lemma_smv_bool(b, t, 0),
            }
        },
        Body::Ready(r) => {
            let x1 = seq!['}'] + t;
            let x0 = kv("session_id"@, spec_string(r.session_id@)) + x1;
            assert(spec_encode_body(d) + t =~= seq!['{'] + x0);
            lemma_smv_open(x0, 0);
            lemma_smv_string(r.session_id@, x1, 1);
            lemma_smv_kv("session_id"@, spec_string(r.session_id@), x1, 1);
            lemma_smv_close(t, 1);
        },
        Body::Message(m) => {
            let x1 = seq!['}'] + t;
            let x0 = kv("channel_id"@, spec_string(m.channel_id@)) + x1;
            assert(spec_encode_body(d) + t =~= seq!['{'] + x0);
            lemma_smv_open(x0, 0);
            lemma_smv_string(m.channel_id@, x1, 1);
            lemma_smv_kv("channel_id"@, spec_string(m.channel_id@), x1, 1);
            lemma_smv_close(t, 1);
        },
        Body::Empty => lemma_smv_null(t, 0),
    }
}

} // verus!

verus! {

/// One scanned member followed by more members: the scan records it with
/// the text where its value stands, and goes on behind the comma.
proof fn lemma_scan_cons(key: Seq<char>, vtext: Seq<char>, tail: Seq<char>)
    requires
        vtext.len() > 0,
        !is_ws(vtext[0]),
        skip_member_value(vtext + (seq![','] + tail), 0) == Option::Some(seq![','] + tail),
    ensures
        scan_members(kv(key, vtext) + (seq![','] + tail)) == (match scan_members(tail) {
            Option::Some(p) => Option::Some(
                (seq![(key, vtext + (seq![','] + tail))] + p.0, p.1),
            ),
            Option::None => Option::None::<(Seq<(Seq<char>, Seq<char>)>, Seq<char>)>,
        }),
{
    let m = kv(key, vtext) + (seq![','] + tail);
    let x1 = seq![':'] + (vtext + (seq![','] + tail));
    assert(m =~= spec_string(key) + x1);
    assert(m[0] == '"');
    assert(skip_ws(m) == m);
    lemma_parse_string_round(key, x1);
    assert(skip_ws(x1) == x1);
    assert(x1.drop_first() =~= vtext + (seq![','] + tail));
    assert(skip_ws(vtext + (seq![','] + tail)) == vtext + (seq![','] + tail));
    assert((seq![','] + tail)[0] == ',');
    assert((seq![','] + tail).drop_first() =~= tail);
}

/// The last scanned member: the scan records it and ends behind the closing
/// brace.
proof fn lemma_scan_last(key: Seq<char>, vtext: Seq<char>, tail: Seq<char>)
    requires
        vtext.len() > 0,
        !is_ws(vtext[0]),
        skip_member_value(vtext + (seq!['}'] + tail), 0) == Option::Some(seq!['}'] + tail),
    ensures
        scan_members(kv(key, vtext) + (seq!['}'] + tail)) == Option::Some(
            (seq![(key, vtext + (seq!['}'] + tail))], tail),
        ),
{
    let m = kv(key, vtext) + (seq!['}'] + tail);
    let x1 = seq![':'] + (vtext + (seq!['}'] + tail));
    assert(m =~= spec_string(key) + x1);
    assert(m[0] == '"');
    assert(skip_ws(m) == m);
    lemma_parse_string_round(key, x1);
    assert(skip_ws(x1) == x1);
    assert(x1.drop_first() =~= vtext + (seq!['}'] + tail));
    assert(skip_ws(vtext + (seq!['}'] + tail)) == vtext + (seq!['}'] + tail));
    assert((seq!['}'] + tail)[0] == '}');
    assert((seq!['}'] + tail).drop_first() =~= tail);
}

/// A delimiter ends a member.
proof fn lemma_member_end(rest: Seq<char>)
    requires
        rest.len() > 0,
        rest[0] == ',' || rest[0] == '}',
    ensures
        at_member_end(rest),
{
    assert(skip_ws(rest) == rest);
}

/// A quoted string followed by a delimiter is one string member value.
proof fn lemma_val_string_round(s: Seq<char>, rest: Seq<char>)
    requires
        rest.len() > 0,
        rest[0] == ',' || rest[0] == '}',
    ensures
        val_string(spec_string(s) + rest) == Option::Some(s),
{
    lemma_parse_string_round(s, rest);
    lemma_member_end(rest);
}

/// A number followed by a delimiter is one numeric member value.
proof fn lemma_val_unum_round(n: nat, rest: Seq<char>)
    requires
        n <= usize::MAX as nat,
        rest.len() > 0,
        rest[0] == ',' || rest[0] == '}',
    ensures
        val_unum(spec_digits(n) + rest) == Option::Some(n),
{
    assert(!is_digit(rest[0]));
    lemma_parse_num_round(n, rest);
    lemma_member_end(rest);
}

/// A boolean followed by a delimiter is one boolean member value.
proof fn lemma_val_bool_round(b: bool, rest: Seq<char>)
    requires
        rest.len() > 0,
        rest[0] == ',' || rest[0] == '}',
    ensures
        val_bool(spec_bool(b) + rest) == Option::Some(b),
{
    lemma_parse_bool_round(b, rest);
    lemma_member_end(rest);
}

/// `null` followed by a delimiter is one null member value.
proof fn lemma_val_null_round(rest: Seq<char>)
    requires
        rest.len() > 0,
        rest[0] == ',' || rest[0] == '}',
    ensures
        val_null(spec_null() + rest),
{
    reveal_strlit("null");
    lemma_parse_lit_round("null"@, rest);
    lemma_member_end(rest);
}

/// An optional string followed by a delimiter is one such member value.
proof fn lemma_val_opt_string_round(o: Option<String>, rest: Seq<char>)
    requires
        rest.len() > 0,
        rest[0] == ',' || rest[0] == '}',
    ensures
        val_opt_string(spec_opt_string(o) + rest) == Option::Some(abs_opt_str(o)),
{
    lemma_parse_opt_string_round(o, rest);
    lemma_member_end(rest);
}

/// An optional number followed by a delimiter is one such member value.
proof fn lemma_val_opt_unum_round(o: Option<usize>, rest: Seq<char>)
    requires
        rest.len() > 0,
        rest[0] == ',' || rest[0] == '}',
    ensures
        val_opt_unum(spec_opt_num(o) + rest) == Option::Some(abs_opt_num(o)),
{
    assert(rest.len() == 0 || !is_digit(rest[0]));
    lemma_parse_opt_unum_round(o, rest);
    lemma_member_end(rest);
}

} // verus!

verus! {

/// A canonical Hello body parses back to its abstraction.
proof fn lemma_body_hello_round(h: Hello, ev: Option<Seq<char>>, rest: Seq<char>)
    requires
        rest.len() > 0,
        rest[0] == ',' || rest[0] == '}',
    ensures
        parse_body(Op::Hello, ev, spec_encode_body(Body::Hello(h)) + rest) == Option::Some(
            abs_body(Body::Hello(h)),
        ),
{
    let n = h.heartbeat_interval as nat;
    let vfull = spec_encode_body(Body::Hello(h)) + rest;
    let x1 = seq!['}'] + rest;
    let x0 = kv("heartbeat_interval"@, spec_digits(n)) + x1;
    assert(vfull =~= seq!['{'] + x0);
    assert(vfull[0] == '{');
    assert(vfull.drop_first() =~= x0);
    lemma_smv_digits(n, x1, 0);
    assert(skip_member_value(x1, 0) == Option::Some(x1));
    lemma_digits_first_is_digit(n);
    assert(!is_ws(spec_digits(n)[0]));
    lemma_scan_last("heartbeat_interval"@, spec_digits(n), rest);
    lemma_member_end(rest);
    let ms = seq![("heartbeat_interval"@, spec_digits(n) + x1)];
    assert(parse_obj_body(vfull) == Option::Some(ms));
    lemma_val_unum_round(n, x1);
}

/// A canonical dispatch body parses back to its abstraction, under its event
/// name.
proof fn lemma_body_dispatch_round(t: Option<String>, d: Body, rest: Seq<char>)
    requires
        crate::payload::body_matches(Op::Dispatch, t, d),
        rest.len() > 0,
        rest[0] == ',' || rest[0] == '}',
    ensures
        parse_body(Op::Dispatch, abs_opt_str(t), spec_encode_body(d) + rest) == Option::Some(
            abs_body(d),
        ),
{
    reveal_strlit("READY");
    reveal_strlit("MESSAGE_CREATE");
    let vfull = spec_encode_body(d) + rest;
    let x1 = seq!['}'] + rest;
    match d {
        Body::Ready(r) => {
            let x0 = kv("session_id"@, spec_string(r.session_id@)) + x1;
            assert(vfull =~= seq!['{'] + x0);
            assert(vfull.drop_first() =~= x0);
            lemma_smv_string(r.session_id@, x1, 0);
            assert(skip_member_value(x1, 0) == Option::Some(x1));
            lemma_scan_last("session_id"@, spec_string(r.session_id@), rest);
            lemma_member_end(rest);
            let ms = seq![("session_id"@, spec_string(r.session_id@) + x1)];
            assert(parse_obj_body(vfull) == Option::Some(ms));
            lemma_val_string_round(r.session_id@, x1);
            assert(abs_opt_str(t) == Option::Some(crate::payload::ready_event()));
        },
        Body::Message(m) => {
            let x0 = kv("channel_id"@, spec_string(m.channel_id@)) + x1;
            assert(vfull =~= seq!['{'] + x0);
            assert(vfull.drop_first() =~= x0);
            lemma_smv_string(m.channel_id@, x1, 0);
            assert(skip_member_value(x1, 0) == Option::Some(x1));
            lemma_scan_last("channel_id"@, spec_string(m.channel_id@), rest);
            lemma_member_end(rest);
            let ms = seq![("channel_id"@, spec_string(m.channel_id@) + x1)];
            assert(parse_obj_body(vfull) == Option::Some(ms));
            lemma_val_string_round(m.channel_id@, x1);
            assert(crate::payload::ready_event().len() != crate::payload::message_event().len());
            assert(abs_opt_str(t) == Option::Some(crate::payload::message_event()));
            assert(abs_opt_str(t) != Option::Some(crate::payload::ready_event()));
        },
        _ => {
            assert(false);
        },
    }
}

/// A canonical Resume body parses back to its abstraction.
#[verifier::rlimit(100)]
proof fn lemma_body_resume_round(r: Resume, ev: Option<Seq<char>>, rest: Seq<char>)
    requires
        rest.len() > 0,
        rest[0] == ',' || rest[0] == '}',
    ensures
        parse_body(Op::Resume, ev, spec_encode_body(Body::Resume(r)) + rest) == Option::Some(
            abs_body(Body::Resume(r)),
        ),
{
    reveal_strlit("token");
    reveal_strlit("session_id");
    reveal_strlit("seq");
    let vfull = spec_encode_body(Body::Resume(r)) + rest;
    let v1 = spec_string(r.token@);
    let v2 = spec_string(r.session_id@);
    let v3 = spec_digits(r.seq as nat);
    let x5 = seq!['}'] + rest;
    let m3 = kv("seq"@, v3) + x5;
    let x4 = seq![','] + m3;
    let m2 = kv("session_id"@, v2) + x4;
    let x3 = seq![','] + m2;
    let m1 = kv("token"@, v1) + x3;
    assert(vfull =~= seq!['{'] + m1);
    assert(vfull[0] == '{');
    assert(vfull.drop_first() =~= m1);
    lemma_smv_digits(r.seq as nat, x5, 0);
    assert(skip_member_value(x5, 0) == Option::Some(x5));
    lemma_digits_first_is_digit(r.seq as nat);
    assert(!is_ws(v3[0]));
    lemma_scan_last("seq"@, v3, rest);
    lemma_smv_string(r.session_id@, x4, 0);
    assert(skip_member_value(x4, 0) == Option::Some(x4));
    lemma_scan_cons("session_id"@, v2, m3);
    lemma_smv_string(r.token@, x3, 0);
    assert(skip_member_value(x3, 0) == Option::Some(x3));
    lemma_scan_cons("token"@, v1, m2);
    assert(scan_members(m3) == Option::Some((seq![("seq"@, v3 + x5)], rest)));
    assert(scan_members(m2) == Option::Some(
        (seq![("session_id"@, v2 + x4)] + seq![("seq"@, v3 + x5)], rest),
    ));
    let ms = seq![("token"@, v1 + x3)] + (seq![("session_id"@, v2 + x4)] + seq![("seq"@, v3 + x5)]);
    assert(scan_members(m1) == Option::Some((ms, rest)));
    lemma_member_end(rest);
    assert(parse_obj_body(vfull) == Option::Some(ms));
    assert("token"@.len() != "session_id"@.len());
    assert("token"@.len() != "seq"@.len());
    assert("session_id"@.len() != "seq"@.len());
    let ms1 = seq![("session_id"@, v2 + x4)] + seq![("seq"@, v3 + x5)];
    let ms2 = seq![("seq"@, v3 + x5)];
    assert(ms.drop_first() =~= ms1);
    assert(ms1.drop_first() =~= ms2);
    assert(ms[0].0 == "token"@);
    assert(find_member(ms, "token"@) == Option::Some(v1 + x3));
    lemma_val_string_round(r.token@, x3);
    assert(member_string(ms, "token"@) == Option::Some(r.token@));
    assert(find_member(ms1, "session_id"@) == Option::Some(v2 + x4));
    assert(find_member(ms, "session_id"@) == Option::Some(v2 + x4));
    lemma_val_string_round(r.session_id@, x4);
    assert(member_string(ms, "session_id"@) == Option::Some(r.session_id@));
    assert(find_member(ms2, "seq"@) == Option::Some(v3 + x5));
    assert(find_member(ms1, "seq"@) == Option::Some(v3 + x5));
    assert(find_member(ms, "seq"@) == Option::Some(v3 + x5));
    lemma_val_unum_round(r.seq as nat, x5);
    assert(member_unum(ms, "seq"@) == Option::Some(r.seq as nat));
}

/// A canonical Identify body parses back to its abstraction.
#[verifier::rlimit(100)]
proof fn lemma_body_identify_round(i: Identify, ev: Option<Seq<char>>, rest: Seq<char>)
    requires
        rest.len() > 0,
        rest[0] == ',' || rest[0] == '}',
    ensures
        parse_body(Op::Identify, ev, spec_encode_body(Body::Identify(i)) + rest) == Option::Some(
            abs_body(Body::Identify(i)),
        ),
{
    reveal_strlit("token");
    reveal_strlit("properties");
    reveal_strlit("intents");
    reveal_strlit("os");
    reveal_strlit("browser");
    reveal_strlit("device");
    let vfull = spec_encode_body(Body::Identify(i)) + rest;
    let v1 = spec_string(i.token@);
    let props = obj3(
        "os"@,
        spec_string(i.properties.os@),
        "browser"@,
        spec_string(i.properties.browser@),
        "device"@,
        spec_string(i.properties.device@),
    );
    let v3 = spec_digits(i.intents as nat);
    let x5 = seq!['}'] + rest;
    let m3 = kv("intents"@, v3) + x5;
    let x4 = seq![','] + m3;
    let m2 = kv("properties"@, props) + x4;
    let x3 = seq![','] + m2;
    let m1 = kv("token"@, v1) + x3;
    assert(vfull =~= seq!['{'] + m1);
    assert(vfull[0] == '{');
    assert(vfull.drop_first() =~= m1);
    lemma_smv_digits(i.intents as nat, x5, 0);
    assert(skip_member_value(x5, 0) == Option::Some(x5));
    lemma_digits_first_is_digit(i.intents as nat);
    assert(!is_ws(v3[0]));
    lemma_scan_last("intents"@, v3, rest);
    lemma_smv_props(i.properties.os@, i.properties.browser@, i.properties.device@, x4, 0);
    assert(skip_member_value(x4, 0) == Option::Some(x4));
    assert(props[0] == '{');
    assert(!is_ws('{'));
    lemma_scan_cons("properties"@, props, m3);
    lemma_smv_string(i.token@, x3, 0);
    assert(skip_member_value(x3, 0) == Option::Some(x3));
    lemma_scan_cons("token"@, v1, m2);
    assert(scan_members(m3) == Option::Some((seq![("intents"@, v3 + x5)], rest)));
    assert(scan_members(m2) == Option::Some(
        (seq![("properties"@, props + x4)] + seq![("intents"@, v3 + x5)], rest),
    ));
    let ms = seq![("token"@, v1 + x3)] + (seq![("properties"@, props + x4)] + seq![
        ("intents"@, v3 + x5),
    ]);
    assert(scan_members(m1) == Option::Some((ms, rest)));
    lemma_member_end(rest);
    assert(parse_obj_body(vfull) == Option::Some(ms));
    assert("token"@.len() != "properties"@.len());
    assert("token"@.len() != "intents"@.len());
    assert("properties"@.len() != "intents"@.len());
    let ms1 = seq![("properties"@, props + x4)] + seq![("intents"@, v3 + x5)];
    let ms2 = seq![("intents"@, v3 + x5)];
    assert(ms.drop_first() =~= ms1);
    assert(ms1.drop_first() =~= ms2);
    assert(ms[0].0 == "token"@);
    assert(find_member(ms, "token"@) == Option::Some(v1 + x3));
    lemma_val_string_round(i.token@, x3);
    assert(member_string(ms, "token"@) == Option::Some(i.token@));
    assert(find_member(ms1, "properties"@) == Option::Some(props + x4));
    assert(find_member(ms, "properties"@) == Option::Some(props + x4));
    assert(find_member(ms2, "intents"@) == Option::Some(v3 + x5));
    assert(find_member(ms1, "intents"@) == Option::Some(v3 + x5));
    assert(find_member(ms, "intents"@) == Option::Some(v3 + x5));
    lemma_val_unum_round(i.intents as nat, x5);
    assert(member_unum(ms, "intents"@) == Option::Some(i.intents as nat));
    // The nested properties object.
    let pv = props + x4;
    let pos = spec_string(i.properties.os@);
    let pbr = spec_string(i.properties.browser@);
    let pde = spec_string(i.properties.device@);
    let y5 = seq!['}'] + x4;
    let pm3 = kv("device"@, pde) + y5;
    let y4 = seq![','] + pm3;
    let pm2 = kv("browser"@, pbr) + y4;
    let y3 = seq![','] + pm2;
    let pm1 = kv("os"@, pos) + y3;
    assert(pv =~= seq!['{'] + pm1);
    assert(pv[0] == '{');
    assert(pv.drop_first() =~= pm1);
    lemma_smv_string(i.properties.device@, y5, 0);
    assert(skip_member_value(y5, 0) == Option::Some(y5));
    lemma_scan_last("device"@, pde, x4);
    lemma_smv_string(i.properties.browser@, y4, 0);
    assert(skip_member_value(y4, 0) == Option::Some(y4));
    lemma_scan_cons("browser"@, pbr, pm3);
    lemma_smv_string(i.properties.os@, y3, 0);
    assert(skip_member_value(y3, 0) == Option::Some(y3));
    lemma_scan_cons("os"@, pos, pm2);
    assert(scan_members(pm3) == Option::Some((seq![("device"@, pde + y5)], x4)));
    assert(scan_members(pm2) == Option::Some(
        (seq![("browser"@, pbr + y4)] + seq![("device"@, pde + y5)], x4),
    ));
    let pms = seq![("os"@, pos + y3)] + (seq![("browser"@, pbr + y4)] + seq![("device"@, pde + y5)]);
    assert(scan_members(pm1) == Option::Some((pms, x4)));
    assert(at_member_end(x4)) by {
        lemma_member_end(x4);
    }
    assert(parse_obj_body(pv) == Option::Some(pms));
    assert("os"@.len() != "browser"@.len());
    assert("os"@.len() != "device"@.len());
    assert("browser"@.len() != "device"@.len());
    let pms1 = seq![("browser"@, pbr + y4)] + seq![("device"@, pde + y5)];
    let pms2 = seq![("device"@, pde + y5)];
    assert(pms.drop_first() =~= pms1);
    assert(pms1.drop_first() =~= pms2);
    assert(pms[0].0 == "os"@);
    assert(find_member(pms, "os"@) == Option::Some(pos + y3));
    lemma_val_string_round(i.properties.os@, y3);
    assert(member_string(pms, "os"@) == Option::Some(i.properties.os@));
    assert(find_member(pms1, "browser"@) == Option::Some(pbr + y4));
    assert(find_member(pms, "browser"@) == Option::Some(pbr + y4));
    lemma_val_string_round(i.properties.browser@, y4);
    assert(member_string(pms, "browser"@) == Option::Some(i.properties.browser@));
    assert(find_member(pms2, "device"@) == Option::Some(pde + y5));
    assert(find_member(pms1, "device"@) == Option::Some(pde + y5));
    assert(find_member(pms, "device"@) == Option::Some(pde + y5));
    lemma_val_string_round(i.properties.device@, y5);
    assert(member_string(pms, "device"@) == Option::Some(i.properties.device@));
}

/// A canonical voice-state body parses back to its abstraction.
#[verifier::rlimit(100)]
proof fn lemma_body_vstate_round(v: UpdVState, ev: Option<Seq<char>>, rest: Seq<char>)
    requires
        rest.len() > 0,
        rest[0] == ',' || rest[0] == '}',
    ensures
        parse_body(Op::VSUpd, ev, spec_encode_body(Body::UpdVState(v)) + rest) == Option::Some(
            abs_body(Body::UpdVState(v)),
        ),
{
    reveal_strlit("guild_id");
    reveal_strlit("channel_id");
    reveal_strlit("self_mute");
    reveal_strlit("self_deaf");
    let vfull = spec_encode_body(Body::UpdVState(v)) + rest;
    let v1 = spec_string(v.guild_id@);
    let v2 = spec_opt_string(v.channel_id);
    let v3 = spec_bool(v.self_mute);
    let v4 = spec_bool(v.self_deaf);
    let x7 = seq!['}'] + rest;
    let m4 = kv("self_deaf"@, v4) + x7;
    let x6 = seq![','] + m4;
    let m3 = kv("self_mute"@, v3) + x6;
    let x5 = seq![','] + m3;
    let m2 = kv("channel_id"@, v2) + x5;
    let x4 = seq![','] + m2;
    let m1 = kv("guild_id"@, v1) + x4;
    assert(vfull =~= seq!['{'] + m1);
    assert(vfull[0] == '{');
    assert(vfull.drop_first() =~= m1);
    reveal_strlit("true");
    reveal_strlit("false");
    reveal_strlit("null");
    lemma_smv_bool(v.self_deaf, x7, 0);
    assert(skip_member_value(x7, 0) == Option::Some(x7));
    assert(!is_ws(v4[0]));
    lemma_scan_last("self_deaf"@, v4, rest);
    lemma_smv_bool(v.self_mute, x6, 0);
    assert(skip_member_value(x6, 0) == Option::Some(x6));
    assert(!is_ws(v3[0]));
    lemma_scan_cons("self_mute"@, v3, m4);
    lemma_smv_opt_string(v.channel_id, x5, 0);
    assert(skip_member_value(x5, 0) == Option::Some(x5));
    assert(!is_ws(v2[0]));
    lemma_scan_cons("channel_id"@, v2, m3);
    lemma_smv_string(v.guild_id@, x4, 0);
    assert(skip_member_value(x4, 0) == Option::Some(x4));
    lemma_scan_cons("guild_id"@, v1, m2);
    assert(scan_members(m4) == Option::Some((seq![("self_deaf"@, v4 + x7)], rest)));
    assert(scan_members(m3) == Option::Some(
        (seq![("self_mute"@, v3 + x6)] + seq![("self_deaf"@, v4 + x7)], rest),
    ));
    assert(scan_members(m2) == Option::Some(
        (
            seq![("channel_id"@, v2 + x5)] + (seq![("self_mute"@, v3 + x6)] + seq![
                ("self_deaf"@, v4 + x7),
            ]),
            rest,
        ),
    ));
    let ms = seq![("guild_id"@, v1 + x4)] + (seq![("channel_id"@, v2 + x5)] + (seq![
        ("self_mute"@, v3 + x6),
    ] + seq![("self_deaf"@, v4 + x7)]));
    assert(scan_members(m1) == Option::Some((ms, rest)));
    lemma_member_end(rest);
    assert(parse_obj_body(vfull) == Option::Some(ms));
    assert("guild_id"@.len() != "channel_id"@.len());
    assert("guild_id"@.len() != "self_mute"@.len());
    assert("guild_id"@.len() != "self_deaf"@.len());
    assert("channel_id"@.len() != "self_mute"@.len());
    assert("channel_id"@.len() != "self_deaf"@.len());
    assert("self_mute"@[5] == 'm' && "self_deaf"@[5] == 'd');
    assert("self_mute"@ != "self_deaf"@);
    let ms1 = seq![("channel_id"@, v2 + x5)] + (seq![("self_mute"@, v3 + x6)] + seq![
        ("self_deaf"@, v4 + x7),
    ]);
    let ms2 = seq![("self_mute"@, v3 + x6)] + seq![("self_deaf"@, v4 + x7)];
    let ms3 = seq![("self_deaf"@, v4 + x7)];
    assert(ms.drop_first() =~= ms1);
    assert(ms1.drop_first() =~= ms2);
    assert(ms2.drop_first() =~= ms3);
    assert(ms[0].0 == "guild_id"@);
    assert(find_member(ms, "guild_id"@) == Option::Some(v1 + x4));
    lemma_val_string_round(v.guild_id@, x4);
    assert(member_string(ms, "guild_id"@) == Option::Some(v.guild_id@));
    assert(find_member(ms1, "channel_id"@) == Option::Some(v2 + x5));
    assert(find_member(ms, "channel_id"@) == Option::Some(v2 + x5));
    lemma_val_opt_string_round(v.channel_id, x5);
    assert(member_opt_string(ms, "channel_id"@) == Option::Some(abs_opt_str(v.channel_id)));
    assert(find_member(ms2, "self_mute"@) == Option::Some(v3 + x6));
    assert(find_member(ms1, "self_mute"@) == Option::Some(v3 + x6));
    assert(find_member(ms, "self_mute"@) == Option::Some(v3 + x6));
    lemma_val_bool_round(v.self_mute, x6);
    assert(member_bool(ms, "self_mute"@) == Option::Some(v.self_mute));
    assert(find_member(ms3, "self_deaf"@) == Option::Some(v4 + x7));
    assert(find_member(ms2, "self_deaf"@) == Option::Some(v4 + x7));
    assert(find_member(ms1, "self_deaf"@) == Option::Some(v4 + x7));
    assert(find_member(ms, "self_deaf"@) == Option::Some(v4 + x7));
    lemma_val_bool_round(v.self_deaf, x7);
    assert(member_bool(ms, "self_deaf"@) == Option::Some(v.self_deaf));
}

/// A canonical body parses back to its abstraction, under the opcode and
/// event name the envelope carries.
proof fn lemma_parse_body_round(op: Op, t: Option<String>, d: Body, rest: Seq<char>)
    requires
        crate::payload::body_matches(op, t, d),
        rest.len() > 0,
        rest[0] == ',' || rest[0] == '}',
    ensures
        parse_body(op, abs_opt_str(t), spec_encode_body(d) + rest) == Option::Some(abs_body(d)),
{
    reveal_strlit("null");
    reveal_strlit("true");
    reveal_strlit("false");
    match d {
        Body::Heartbeat(o) => {
            lemma_val_opt_unum_round(o, rest);
        },
        Body::Identify(i) => {
            lemma_body_identify_round(i, abs_opt_str(t), rest);
        },
        Body::Resume(r) => {
            lemma_body_resume_round(r, abs_opt_str(t), rest);
        },
        Body::UpdVState(v) => {
            lemma_body_vstate_round(v, abs_opt_str(t), rest);
        },
        Body::Hello(h) => {
            lemma_body_hello_round(h, abs_opt_str(t), rest);
        },
        Body::InvSession(b) => {
            lemma_val_bool_round(b, rest);
        },
        Body::HbACK(o) => {
            match o {
                Option::None => {
                    lemma_val_null_round(rest);
                },
                Option::Some(b) => {
                    let e = spec_bool(b) + rest;
                    assert(e[0] == 't' || e[0] == 'f');
                    if e.len() >= 4 && e.take(4) == "null"@ {
                        assert(e.take(4)[0] == 'n');
                        assert(false);
                    }
                    lemma_val_bool_round(b, rest);
                },
            }
        },
        Body::Ready(_) => {
            lemma_body_dispatch_round(t, d, rest);
        },
        Body::Message(_) => {
            lemma_body_dispatch_round(t, d, rest);
        },
        Body::Empty => {
            lemma_val_null_round(rest);
        },
    }
}

/// Round trip: every representable envelope survives an encode followed by
/// a decode unchanged.
#[verifier::rlimit(100)]
pub proof fn lemma_round_trip(p: Payload)
    requires
        p.wf(),
    ensures
        spec_decode(spec_encode(p)) == Option::Some(abs_of(p)),
{
    reveal_strlit("op");
    reveal_strlit("t");
    reveal_strlit("s");
    reveal_strlit("d");
    reveal_strlit("null");
    reveal_strlit("true");
    reveal_strlit("false");
    let code = spec_to_code(p.op) as nat;
    let v1 = spec_digits(code);
    let v2 = spec_opt_string(p.t);
    let v3 = spec_opt_num(p.s);
    let v4 = spec_encode_body(p.d);
    let e = spec_encode(p);
    let x7: Seq<char> = seq!['}'] + Seq::<char>::empty();
    let m4 = kv("d"@, v4) + x7;
    let x6 = seq![','] + m4;
    let m3 = kv("s"@, v3) + x6;
    let x5 = seq![','] + m3;
    let m2 = kv("t"@, v2) + x5;
    let x4 = seq![','] + m2;
    let m1 = kv("op"@, v1) + x4;
    assert(e =~= seq!['{'] + m1);
    assert(e[0] == '{');
    assert(skip_ws(e) == e);
    assert(e.drop_first() =~= m1);
    lemma_smv_encoded_body(p.d, x7);
    assert(skip_member_value(x7, 0) == Option::Some(x7));
    assert(v4.len() > 0 && !is_ws(v4[0])) by {
        lemma_digits_first_is_digit(0);
        match p.d {
            Body::Heartbeat(o) => {
                match o {
                    Option::Some(n) => {
                        lemma_digits_first_is_digit(n as nat);
                    },
                    Option::None => {},
                }
            },
            Body::InvSession(_) => {},
            Body::HbACK(o) => {},
            _ => {},
        }
    }
    assert(x7[0] == '}');
    lemma_scan_last("d"@, v4, Seq::<char>::empty());
    lemma_smv_opt_num(p.s, x6, 0);
    assert(skip_member_value(x6, 0) == Option::Some(x6));
    assert(v3.len() > 0 && !is_ws(v3[0])) by {
        match p.s {
            Option::Some(n) => {
                lemma_digits_first_is_digit(n as nat);
            },
            Option::None => {},
        }
    }
    lemma_scan_cons("s"@, v3, m4);
    lemma_smv_opt_string(p.t, x5, 0);
    assert(skip_member_value(x5, 0) == Option::Some(x5));
    assert(v2.len() > 0 && !is_ws(v2[0]));
    lemma_scan_cons("t"@, v2, m3);
    lemma_smv_digits(code, x4, 0);
    assert(skip_member_value(x4, 0) == Option::Some(x4));
    lemma_digits_first_is_digit(code);
    assert(!is_ws(v1[0]));
    lemma_scan_cons("op"@, v1, m2);
    assert(scan_members(m4) == Option::Some(
        (seq![("d"@, v4 + x7)], Seq::<char>::empty()),
    ));
    assert(scan_members(m3) == Option::Some(
        (seq![("s"@, v3 + x6)] + seq![("d"@, v4 + x7)], Seq::<char>::empty()),
    ));
    assert(scan_members(m2) == Option::Some(
        (
            seq![("t"@, v2 + x5)] + (seq![("s"@, v3 + x6)] + seq![("d"@, v4 + x7)]),
            Seq::<char>::empty(),
        ),
    ));
    let ms = seq![("op"@, v1 + x4)] + (seq![("t"@, v2 + x5)] + (seq![("s"@, v3 + x6)] + seq![
        ("d"@, v4 + x7),
    ]));
    assert(scan_members(m1) == Option::Some((ms, Seq::<char>::empty())));
    assert(skip_ws(Seq::<char>::empty()).len() == 0);
    assert("op"@.len() != "t"@.len());
    assert("op"@.len() != "s"@.len());
    assert("op"@.len() != "d"@.len());
    assert("t"@[0] == 't' && "s"@[0] == 's' && "d"@[0] == 'd');
    assert("t"@ != "s"@ && "t"@ != "d"@ && "s"@ != "d"@);
    let ms1 = seq![("t"@, v2 + x5)] + (seq![("s"@, v3 + x6)] + seq![("d"@, v4 + x7)]);
    let ms2 = seq![("s"@, v3 + x6)] + seq![("d"@, v4 + x7)];
    let ms3 = seq![("d"@, v4 + x7)];
    assert(ms.drop_first() =~= ms1);
    assert(ms1.drop_first() =~= ms2);
    assert(ms2.drop_first() =~= ms3);
    assert(ms[0].0 == "op"@);
    assert(find_member(ms, "op"@) == Option::Some(v1 + x4));
    lemma_val_unum_round(code, x4);
    assert(val_unum(v1 + x4) == Option::Some(code));
    crate::payload::lemma_code_round_trip(p.op, spec_to_code(p.op));
    assert(find_member(ms1, "t"@) == Option::Some(v2 + x5));
    assert(find_member(ms, "t"@) == Option::Some(v2 + x5));
    lemma_val_opt_string_round(p.t, x5);
    assert(member_opt_string(ms, "t"@) == Option::Some(abs_opt_str(p.t)));
    assert(find_member(ms2, "s"@) == Option::Some(v3 + x6));
    assert(find_member(ms1, "s"@) == Option::Some(v3 + x6));
    assert(find_member(ms, "s"@) == Option::Some(v3 + x6));
    lemma_val_opt_unum_round(p.s, x6);
    assert(member_opt_unum(ms, "s"@) == Option::Some(abs_opt_num(p.s)));
    assert(find_member(ms3, "d"@) == Option::Some(v4 + x7));
    assert(find_member(ms2, "d"@) == Option::Some(v4 + x7));
    assert(find_member(ms1, "d"@) == Option::Some(v4 + x7));
    assert(find_member(ms, "d"@) == Option::Some(v4 + x7));
    lemma_parse_body_round(p.op, p.t, p.d, x7);
    assert(parse_body(spec_from_code(code as u8), abs_opt_str(p.t), v4 + x7) == Option::Some(
        abs_body(p.d),
    ));
}

/// Partial-decode consistency: whenever a frame fully decodes, the cheap
/// partial decode extracts the same opcode.
pub proof fn lemma_partial_consistency(f: Seq<char>)
    ensures
        spec_decode(f) matches Option::Some(a) ==> (spec_decode_partial(f) matches Option::Some(c)
            && op_of_code(c) == a.op),
{
}

} // verus!
