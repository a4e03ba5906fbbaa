//! Decimal rendering and the JSON texts that the proxy hands to miners.
use vstd::prelude::*;
use vstd::string::*;
use crate::chain::{MiningInfo, MiningInfoView};

verus! {

pub open spec fn digit_char(d: nat) -> char {
    if d == 0 { '0' }
    else if d == 1 { '1' }
    else if d == 2 { '2' }
    else if d == 3 { '3' }
    else if d == 4 { '4' }
    else if d == 5 { '5' }
    else if d == 6 { '6' }
    else if d == 7 { '7' }
    else if d == 8 { '8' }
    else { '9' }
}

/// Decimal digits of `n`, without leading zeros.
pub open spec fn decimal(n: nat) -> Seq<char>
    decreases n,
{
    if n < 10 {
        seq![digit_char(n)]
    } else {
        decimal(n / 10).push(digit_char(n % 10))
    }
}

fn digit_str(d: u64) -> (r: &'static str)
    requires
        d < 10,
    ensures
        r@ == seq![digit_char(d as nat)],
{
    proof {
        reveal_strlit("0");
        reveal_strlit("1");
        reveal_strlit("2");
        reveal_strlit("3");
        reveal_strlit("4");
        reveal_strlit("5");
        reveal_strlit("6");
        reveal_strlit("7");
        reveal_strlit("8");
        reveal_strlit("9");
    }
    if d == 0 { "0" }
    else if d == 1 { "1" }
    else if d == 2 { "2" }
    else if d == 3 { "3" }
    else if d == 4 { "4" }
    else if d == 5 { "5" }
    else if d == 6 { "6" }
    else if d == 7 { "7" }
    else if d == 8 { "8" }
    else { "9" }
}

/// Appends the decimal digits of `n`.
pub fn push_decimal(out: &mut String, n: u64)
    ensures
        final(out)@ == old(out)@ + decimal(n as nat),
    decreases n,
{
    if n >= 10 {
        push_decimal(out, n / 10);
    }
    out.append(digit_str(n % 10));
    assert(old(out)@ + decimal(n as nat) =~= if n >= 10 {
        old(out)@ + decimal((n / 10) as nat) + seq![digit_char((n % 10) as nat)]
    } else {
        old(out)@ + seq![digit_char((n % 10) as nat)]
    });
}

/// The decimal digits of `n` as a string.
pub fn decimal_string(n: u64) -> (r: String)
    ensures
        r@ == decimal(n as nat),
{
    let mut s = String::new();
    push_decimal(&mut s, n);
    assert(s@ =~= decimal(n as nat));
    s
}

pub open spec fn hex_char(d: nat) -> char {
    if d < 10 {
        digit_char(d)
    } else if d == 10 { 'a' }
    else if d == 11 { 'b' }
    else if d == 12 { 'c' }
    else if d == 13 { 'd' }
    else if d == 14 { 'e' }
    else { 'f' }
}

fn hex_str(d: u32) -> (r: &'static str)
    requires
        d < 16,
    ensures
        r@ == seq![hex_char(d as nat)],
{
    if d < 10 {
        return digit_str(d as u64);
    }
    proof {
        reveal_strlit("a");
        reveal_strlit("b");
        reveal_strlit("c");
        reveal_strlit("d");
        reveal_strlit("e");
        reveal_strlit("f");
    }
    if d == 10 { "a" }
    else if d == 11 { "b" }
    else if d == 12 { "c" }
    else if d == 13 { "d" }
    else if d == 14 { "e" }
    else { "f" }
}

/// `\u00XX` for a control character.
pub open spec fn unicode_escape(c: char) -> Seq<char> {
    seq!['\\', 'u', '0', '0', hex_char((c as u32 / 16) as nat), hex_char((c as u32 % 16) as nat)]
}

/// `s` escaped for a JSON string literal: `"` and `\` get a backslash, line feed,
/// carriage return and tab their short forms, every other character below U+0020
/// its `\u00XX` form.
pub open spec fn json_escaped(s: Seq<char>) -> Seq<char>
    decreases s.len(),
{
    if s.len() == 0 {
        s
    } else {
        let c = s.last();
        json_escaped(s.drop_last()) + if c == '"' {
            seq!['\\', '"']
        } else if c == '\\' {
            seq!['\\', '\\']
        } else if c == '\n' {
            seq!['\\', 'n']
        } else if c == '\r' {
            seq!['\\', 'r']
        } else if c == '\t' {
            seq!['\\', 't']
        } else if (c as u32) < 0x20 {
            unicode_escape(c)
        } else {
            seq![c]
        }
    }
}

/// Appends `s` as the body of a JSON string literal.
pub fn push_json_escaped(out: &mut String, s: &str)
    ensures
        final(out)@ == old(out)@ + json_escaped(s@),
{
    let n = s.unicode_len();
    let mut i: usize = 0;
    assert(s@.subrange(0, 0) =~= Seq::<char>::empty());
    while i < n
        invariant
            n == s@.len(),
            i <= n,
            out@ == old(out)@ + json_escaped(s@.subrange(0, i as int)),
        decreases n - i,
    {
        proof {
            reveal_strlit("\\\"");
            reveal_strlit("\\\\");
            reveal_strlit("\\n");
            reveal_strlit("\\r");
            reveal_strlit("\\t");
            reveal_strlit("\\u00");
        }
        let c = s.get_char(i);
        assert(s@.subrange(i as int, i + 1) =~= seq![c]);
        assert(s@.subrange(0, i + 1).drop_last() =~= s@.subrange(0, i as int));
        assert(s@.subrange(0, i + 1).last() == c);
        if c == '"' {
            out.append("\\\"");
        } else if c == '\\' {
            out.append("\\\\");
        } else if c == '\n' {
            out.append("\\n");
        } else if c == '\r' {
            out.append("\\r");
        } else if c == '\t' {
            out.append("\\t");
        } else if (c as u32) < 0x20 {
            out.append("\\u00");
            out.append(hex_str(c as u32 / 16));
            out.append(hex_str(c as u32 % 16));
        } else {
            out.append(s.substring_char(i, i + 1));
        }
        assert(out@ =~= old(out)@ + json_escaped(s@.subrange(0, i + 1)));
        i = i + 1;
    }
    assert(s@.subrange(0, n as int) =~= s@);
}

/// `{"height":H,"baseTarget":B,"generationSignature":"G"}`, with
/// `,"targetDeadline":T` before the closing brace where the block has one.
pub open spec fn mining_info_json(m: MiningInfoView) -> Seq<char> {
    "{\"height\":"@ + decimal(m.height as nat) + ",\"baseTarget\":"@ + decimal(
        m.base_target as nat,
    ) + ",\"generationSignature\":\""@ + json_escaped(m.generation_signature) + "\""@ + match m.target_deadline {
        Some(t) => ",\"targetDeadline\":"@ + decimal(t as nat),
        None => Seq::<char>::empty(),
    } + "}"@
}

/// The JSON that miners receive for a block.
pub fn mining_info_to_json(m: &MiningInfo) -> (r: String)
    ensures
        r@ == mining_info_json(m@),
{
    let mut s = String::from_str("{\"height\":");
    push_decimal(&mut s, m.height as u64);
    s.append(",\"baseTarget\":");
    push_decimal(&mut s, m.base_target as u64);
    s.append(",\"generationSignature\":\"");
    push_json_escaped(&mut s, m.generation_signature.as_str());
    s.append("\"");
    match m.target_deadline {
        Some(t) => {
            s.append(",\"targetDeadline\":");
            push_decimal(&mut s, t);
        },
        None => {},
    }
    s.append("}");
    assert(s@ =~= mining_info_json(m@));
    s
}

/// `{"result":"success","deadline":D}`.
pub open spec fn success_json(deadline: u64) -> Seq<char> {
    "{\"result\":\"success\",\"deadline\":"@ + decimal(deadline as nat) + "}"@
}

/// `{"result":"failure","reason":"R"}`.
pub open spec fn failure_json(reason: Seq<char>) -> Seq<char> {
    "{\"result\":\"failure\",\"reason\":\""@ + json_escaped(reason) + "\"}"@
}

/// The reply to a miner whose deadline was accepted.
pub fn success_reply(deadline: u64) -> (r: String)
    ensures
        r@ == success_json(deadline),
{
    let mut s = String::from_str("{\"result\":\"success\",\"deadline\":");
    push_decimal(&mut s, deadline);
    s.append("}");
    s
}

/// The reply to a miner whose submission failed.
pub fn failure_reply(reason: &str) -> (r: String)
    ensures
        r@ == failure_json(reason@),
{
    let mut s = String::from_str("{\"result\":\"failure\",\"reason\":\"");
    push_json_escaped(&mut s, reason);
    s.append("\"}");
    s
}

} // verus!
