//! The texts that the echo client sends and the echo servers answer.

use vstd::prelude::*;
use vstd::string::StringExecFns;
use crate::text::{all_visible_ascii, ascii_chars_of, visible_ascii_text};

verus! {

/// The character of the decimal digit `d`.
pub open spec fn digit_char(d: nat) -> char {
    (48 + d) as char
}

/// `n` written in decimal, most significant digit first, without leading zeros.
pub open spec fn decimal(n: nat) -> Seq<char>
    decreases n,
{
    if n < 10 {
        seq![digit_char(n)]
    } else {
        decimal(n / 10).push(digit_char(n % 10))
    }
}

/// `n` written in decimal and padded with zeros to at least two digits, as
/// the format `{:02}` writes it.
pub open spec fn decimal_width2(n: nat) -> Seq<char> {
    if n < 10 {
        seq!['0', digit_char(n)]
    } else {
        decimal(n)
    }
}

/// The message of the `i`-th request that the streaming client sends:
/// `msg ` and the number, padded to two digits.
pub open spec fn request_message(i: nat) -> Seq<char> {
    seq!['m', 's', 'g', ' '] + decimal_width2(i)
}

/// The answer of an echo server to `message`: the message, then the address
/// of the server that answered in brackets, `<message> (from <origin>)`.
pub open spec fn reply_message(message: Seq<char>, origin: Seq<char>) -> Seq<char> {
    message + seq![' ', '(', 'f', 'r', 'o', 'm', ' '] + origin + seq![')']
}

/// The number that a string of decimal digits stands for.
pub open spec fn digits_value(s: Seq<char>) -> nat
    decreases s.len(),
{
    if s.len() == 0 {
        0
    } else {
        digits_value(s.drop_last()) * 10 + ((s.last() as nat) - 48) as nat
    }
}

proof fn lemma_digit_char(d: nat)
    requires
        d < 10,
    ensures
        digit_char(d) as nat == 48 + d,
{
    assert(((48 + d) as char) as nat == 48 + d);
}

proof fn lemma_decimal_value(n: nat)
    ensures
        digits_value(decimal(n)) == n,
    decreases n,
{
    lemma_digit_char(n % 10);
    let s = decimal(n);
    if n >= 10 {
        lemma_decimal_value(n / 10);
        assert(s.drop_last() =~= decimal(n / 10));
        assert(s.last() == digit_char(n % 10));
        assert(digits_value(s) == digits_value(s.drop_last()) * 10 + ((s.last() as nat) - 48) as nat);
        assert(digits_value(s) == (n / 10) * 10 + n % 10);
    } else {
        assert(s.drop_last() =~= Seq::<char>::empty());
        assert(s.last() == digit_char(n));
        assert(digits_value(s) == digits_value(s.drop_last()) * 10 + ((s.last() as nat) - 48) as nat);
    }
}

proof fn lemma_width2_value(n: nat)
    ensures
        digits_value(decimal_width2(n)) == n,
{
    if n < 10 {
        lemma_digit_char(n);
        assert('0' as nat == 48);
        let s = seq!['0', digit_char(n)];
        assert(s.drop_last() =~= seq!['0']);
        assert(seq!['0'].drop_last() =~= Seq::<char>::empty());
        assert(digits_value(seq!['0']) == digits_value(seq!['0'].drop_last()) * 10 + (('0' as nat) - 48) as nat);
        assert(digits_value(seq!['0']) == 0);
        assert(digits_value(s) == digits_value(s.drop_last()) * 10 + ((s.last() as nat) - 48) as nat);
    } else {
        lemma_decimal_value(n);
    }
}

/// Every request of the stream carries its own message: different numbers
/// give different texts.
pub proof fn lemma_request_messages_distinct(i: nat, j: nat)
    requires
        i != j,
    ensures
        request_message(i) != request_message(j),
{
    lemma_width2_value(i);
    lemma_width2_value(j);
    if request_message(i) == request_message(j) {
        assert(request_message(i).skip(4) =~= decimal_width2(i));
        assert(request_message(j).skip(4) =~= decimal_width2(j));
    }
}

/// The reply holds the whole message, then ` (from `, then the whole origin,
/// then `)`.
pub proof fn lemma_reply_holds_message_and_origin(message: Seq<char>, origin: Seq<char>)
    ensures
        reply_message(message, origin).len() == message.len() + origin.len() + 8,
        reply_message(message, origin).subrange(0, message.len() as int) == message,
        reply_message(message, origin).subrange(message.len() as int, message.len() as int + 7)
            == seq![' ', '(', 'f', 'r', 'o', 'm', ' '],
        reply_message(message, origin).subrange(message.len() as int + 7, message.len() as int + 7 + origin.len() as int)
            == origin,
        reply_message(message, origin)[message.len() as int + 7 + origin.len() as int] == ')',
{
    let r = reply_message(message, origin);
    let m = message.len() as int;
    assert(r.subrange(0, m) =~= message);
    assert(r.subrange(m, m + 7) =~= seq![' ', '(', 'f', 'r', 'o', 'm', ' ']);
    assert(r.subrange(m + 7, m + 7 + origin.len()) =~= origin);
}

/// The `i`-th request's message is `msg ` followed by decimal digits, at least
/// two of them, that stand for `i`.
pub proof fn lemma_request_message_numbers(i: nat)
    ensures
        request_message(i).subrange(0, 4) == seq!['m', 's', 'g', ' '],
        request_message(i).len() >= 6,
        forall|k: int| 4 <= k < request_message(i).len() ==> '0' <= #[trigger] request_message(i)[k] <= '9',
        digits_value(request_message(i).skip(4)) == i,
        i >= 10 ==> request_message(i)[4] != '0',
{
    lemma_width2_value(i);
    lemma_width2_digits(i);
    let r = request_message(i);
    assert(r.subrange(0, 4) =~= seq!['m', 's', 'g', ' ']);
    assert(r.skip(4) =~= decimal_width2(i));
}

proof fn lemma_decimal_digits(n: nat)
    ensures
        decimal(n).len() >= 1,
        forall|k: int| 0 <= k < decimal(n).len() ==> '0' <= #[trigger] decimal(n)[k] <= '9',
        n >= 10 ==> decimal(n).len() >= 2,
        n >= 1 ==> decimal(n)[0] != '0',
    decreases n,
{
    lemma_digit_char(n % 10);
    if n >= 10 {
        lemma_decimal_digits(n / 10);
        let s = decimal(n);
        assert forall|k: int| 0 <= k < s.len() implies '0' <= #[trigger] s[k] <= '9' by {
            if k < s.len() - 1 {
                assert(s[k] == decimal(n / 10)[k]);
            }
        }
        assert(s[0] == decimal(n / 10)[0]);
    } else {
        lemma_digit_char(n);
    }
}

proof fn lemma_width2_digits(n: nat)
    ensures
        decimal_width2(n).len() >= 2,
        forall|k: int| 0 <= k < decimal_width2(n).len() ==> '0' <= #[trigger] decimal_width2(n)[k] <= '9',
        n >= 10 ==> decimal_width2(n)[0] != '0',
{
    lemma_decimal_digits(n);
    if n < 10 {
        lemma_digit_char(n);
    }
}

proof fn lemma_push_char(bytes: Seq<u8>, b: u8)
    ensures
        ascii_chars_of(bytes.push(b)) == ascii_chars_of(bytes).push(b as char),
{
    assert(ascii_chars_of(bytes.push(b)) =~= ascii_chars_of(bytes).push(b as char));
}

/// Appends the decimal digits of `n` to `out`.
fn push_decimal(out: &mut Vec<u8>, n: usize)
    requires
        all_visible_ascii(old(out)@),
    ensures
        ascii_chars_of(final(out)@) == ascii_chars_of(old(out)@) + decimal(n as nat),
        all_visible_ascii(final(out)@),
    decreases n,
{
    let ghost start = out@;
    if n >= 10 {
        push_decimal(out, n / 10);
    }
    let d: u8 = (n % 10) as u8;
    let ghost before = out@;
    out.push(48u8 + d);
    proof {
        lemma_push_char(before, (48u8 + d) as u8);
        assert(((48u8 + d) as u8) as char == digit_char((n % 10) as nat));
        if n >= 10 {
            assert(decimal(n as nat) == decimal((n / 10) as nat).push(digit_char((n % 10) as nat)));
            assert(ascii_chars_of(out@) =~= ascii_chars_of(start) + decimal(n as nat));
        } else {
            assert(ascii_chars_of(out@) =~= ascii_chars_of(start) + decimal(n as nat));
        }
        assert forall|i: int| 0 <= i < out@.len() implies crate::text::visible_ascii_byte(#[trigger] out@[i]) by {
            if i < before.len() {
                assert(out@[i] == before[i]);
            }
        }
    }
}

/// The message of the `i`-th request that the streaming client sends, as
/// `format!("msg {:02}", i)` writes it.
pub fn echo_request_message(i: usize) -> (r: String)
    ensures
        r@ == request_message(i as nat),
        r@.subrange(0, 4) == seq!['m', 's', 'g', ' '],
        digits_value(r@.skip(4)) == i,
{
    let mut bytes: Vec<u8> = Vec::new();
    bytes.push(109u8);
    bytes.push(115u8);
    bytes.push(103u8);
    bytes.push(32u8);
    if i < 10 {
        bytes.push(48u8);
    }
    proof {
        assert(ascii_chars_of(bytes@) =~= seq!['m', 's', 'g', ' '] + (if i < 10 {
            seq!['0']
        } else {
            Seq::<char>::empty()
        }));
    }
    push_decimal(&mut bytes, i);
    proof {
        if i < 10 {
            assert(decimal(i as nat) == seq![digit_char(i as nat)]);
            assert(ascii_chars_of(bytes@) =~= request_message(i as nat));
        } else {
            assert(ascii_chars_of(bytes@) =~= request_message(i as nat));
        }
    }
    proof {
        lemma_request_message_numbers(i as nat);
    }
    match visible_ascii_text(bytes.as_slice()) {
        Some(text) => text.to_owned(),
        None => {
            proof {
                assert(false);
            }
            String::new()
        },
    }
}

/// The answer of an echo server to `message`, as
/// `format!("{} (from {})", message, origin)` writes it.
pub fn echo_reply_message(message: &str, origin: &str) -> (r: String)
    ensures
        r@ == reply_message(message@, origin@),
        r@.len() == message@.len() + origin@.len() + 8,
        r@.subrange(0, message@.len() as int) == message@,
        r@.subrange(message@.len() as int + 7, message@.len() as int + 7 + origin@.len() as int) == origin@,
{
    let mut r = message.to_owned();
    r.append(" (from ");
    r.append(origin);
    r.append(")");
    proof {
        reveal_strlit(" (from ");
        reveal_strlit(")");
        lemma_reply_holds_message_and_origin(message@, origin@);
    }
    r
}

} // verus!
