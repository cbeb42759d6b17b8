//! Request and client identifiers: a timestamp and a random number, each
//! written in lower-case hexadecimal and joined by a dash.
use crate::text::{digit_char, hex, push_char, push_hex};
use vstd::prelude::*;

verus! {

/// The identifier of a request made at `now` with the random draw `random`.
pub open spec fn request_id(now: u64, random: u64) -> Seq<char> {
    hex(now as nat) + seq!['-'] + hex(random as nat)
}

/// The prefix of every generated client identifier.
pub open spec fn client_prefix() -> Seq<char> {
    seq!['z', 'a', 'p', '-']
}

/// The identifier of a client created at `now` with the random draw `random`.
pub open spec fn client_id(now: u64, random: u64) -> Seq<char> {
    client_prefix() + request_id(now, random)
}

/// Writes a request identifier.
pub fn format_id(now: u64, random: u64) -> (id: String)
    ensures
        id@ == request_id(now, random),
{
    let mut id = String::new();
    push_hex(&mut id, now);
    push_char(&mut id, '-');
    push_hex(&mut id, random);
    assert(id@ =~= request_id(now, random));
    id
}

/// Writes a client identifier.
pub fn format_client_id(now: u64, random: u64) -> (id: String)
    ensures
        id@ == client_id(now, random),
        id@.len() > 4,
        id@.take(4) == client_prefix(),
{
    let mut id = String::new();
    push_char(&mut id, 'z');
    push_char(&mut id, 'a');
    push_char(&mut id, 'p');
    push_char(&mut id, '-');
    push_hex(&mut id, now);
    push_char(&mut id, '-');
    push_hex(&mut id, random);
    assert(id@ =~= client_id(now, random));
    proof {
        lemma_hex_nonempty(now as nat);
        assert(id@.take(4) =~= client_prefix());
    }
    id
}

/// A hexadecimal numeral has at least one digit, and two when `n >= 16`.
pub proof fn lemma_hex_nonempty(n: nat)
    ensures
        hex(n).len() >= 1,
        n >= 16 ==> hex(n).len() >= 2,
    decreases n,
{
    if n >= 16 {
        lemma_hex_nonempty(n / 16);
    }
}

/// No hexadecimal digit is a dash.
pub proof fn lemma_hex_has_no_dash(n: nat)
    ensures
        forall|i: int| 0 <= i < hex(n).len() ==> hex(n)[i] != '-',
    decreases n,
{
    if n >= 16 {
        lemma_hex_has_no_dash(n / 16);
        assert forall|i: int| 0 <= i < hex(n).len() implies hex(n)[i] != '-' by {
            if i < hex(n / 16).len() {
                assert(hex(n)[i] == hex(n / 16)[i]);
            } else {
                assert(hex(n)[i] == digit_char(n % 16));
            }
        }
    }
}

proof fn lemma_digit_char_injective(a: nat, b: nat)
    requires
        a < 16,
        b < 16,
        digit_char(a) == digit_char(b),
    ensures
        a == b,
{
    assert(digit_char(a) as u32 == digit_char(b) as u32);
}

/// Distinct numbers have distinct hexadecimal numerals.
pub proof fn lemma_hex_injective(a: nat, b: nat)
    requires
        hex(a) == hex(b),
    ensures
        a == b,
    decreases a,
{
    lemma_hex_nonempty(a);
    lemma_hex_nonempty(b);
    if a < 16 && b < 16 {
        assert(hex(a) == seq![digit_char(a)]);
        assert(hex(b) == seq![digit_char(b)]);
        assert(hex(a)[0] == digit_char(a));
        assert(hex(b)[0] == digit_char(b));
        lemma_digit_char_injective(a, b);
    } else if a >= 16 && b >= 16 {
        assert(hex(a) == hex(a / 16).push(digit_char(a % 16)));
        assert(hex(b) == hex(b / 16).push(digit_char(b % 16)));
        assert(hex(a).last() == digit_char(a % 16));
        assert(hex(b).last() == digit_char(b % 16));
        assert(hex(a).last() == hex(b).last());
        lemma_digit_char_injective(a % 16, b % 16);
        assert(hex(a).drop_last() =~= hex(a / 16));
        assert(hex(b).drop_last() =~= hex(b / 16));
        lemma_hex_injective(a / 16, b / 16);
    } else {
        assert(hex(a).len() != hex(b).len());
    }
}

/// Two dash-free parts joined by a dash determine the parts.
proof fn lemma_split_at_dash(x1: Seq<char>, y1: Seq<char>, x2: Seq<char>, y2: Seq<char>)
    requires
        forall|i: int| 0 <= i < x1.len() ==> x1[i] != '-',
        forall|i: int| 0 <= i < x2.len() ==> x2[i] != '-',
        x1 + seq!['-'] + y1 == x2 + seq!['-'] + y2,
    ensures
        x1 == x2,
        y1 == y2,
{
    let s1 = x1 + seq!['-'] + y1;
    let s2 = x2 + seq!['-'] + y2;
    if x1.len() < x2.len() {
        assert(s1[x1.len() as int] == '-');
        assert(s2[x1.len() as int] == x2[x1.len() as int]);
    } else if x2.len() < x1.len() {
        assert(s2[x2.len() as int] == '-');
        assert(s1[x2.len() as int] == x1[x2.len() as int]);
    } else {
        assert(x1 =~= s1.take(x1.len() as int));
        assert(x2 =~= s2.take(x2.len() as int));
        assert(y1 =~= s1.skip(x1.len() as int + 1));
        assert(y2 =~= s2.skip(x2.len() as int + 1));
    }
}

/// Request identifiers drawn at different times or with different random
/// numbers differ.
pub proof fn lemma_request_id_injective(now1: u64, random1: u64, now2: u64, random2: u64)
    ensures
        request_id(now1, random1) == request_id(now2, random2) ==> now1 == now2 && random1
            == random2,
{
    if request_id(now1, random1) == request_id(now2, random2) {
        lemma_hex_has_no_dash(now1 as nat);
        lemma_hex_has_no_dash(now2 as nat);
        lemma_split_at_dash(hex(now1 as nat), hex(random1 as nat), hex(now2 as nat), hex(random2 as nat));
        lemma_hex_injective(now1 as nat, now2 as nat);
        lemma_hex_injective(random1 as nat, random2 as nat);
    }
}

/// Client identifiers drawn at different times or with different random
/// numbers differ, and every one starts with `zap-`.
pub proof fn lemma_client_id_injective(now1: u64, random1: u64, now2: u64, random2: u64)
    ensures
        client_id(now1, random1).take(4) == client_prefix(),
        client_id(now1, random1) == client_id(now2, random2) ==> now1 == now2 && random1
            == random2,
{
    assert(client_id(now1, random1).take(4) =~= client_prefix());
    if client_id(now1, random1) == client_id(now2, random2) {
        assert(request_id(now1, random1) =~= client_id(now1, random1).skip(4));
        assert(request_id(now2, random2) =~= client_id(now2, random2).skip(4));
        lemma_request_id_injective(now1, random1, now2, random2);
    }
}

} // verus!
