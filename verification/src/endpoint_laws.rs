//! Which hosts are this machine, and what is said of the hosts that are not.

use crate::endpoint::{
    combined_status, is_bracket, is_local_ollama, is_loopback, is_octets, leading_digits,
    lemma_leading_digits, octet, pull_commands, remote_hosts, same_ignoring_case, status_of_host,
    without_brackets, StatusView,
};
use crate::text::{decimal, digit, digit_value, digits_value, joined};
use vstd::prelude::*;

verus! {

// ---------------------------------------------------------------------------
// Numbers of an address
// ---------------------------------------------------------------------------

proof fn lemma_digit(d: nat)
    requires
        d < 10,
    ensures
        digit_value(digit(d)) == Some(d),
        d > 0 ==> digit(d) != '0',
{
    assert(d == 0 || d == 1 || d == 2 || d == 3 || d == 4 || d == 5 || d == 6 || d == 7 || d == 8
        || d == 9);
}

proof fn lemma_digit_back(c: char)
    requires
        digit_value(c) is Some,
    ensures
        digit_value(c)->0 < 10,
        digit(digit_value(c)->0) == c,
        c != '0' ==> digit_value(c)->0 > 0,
{
    let d = digit_value(c)->0;
    assert(d < 10);
    assert(d == 0 || d == 1 || d == 2 || d == 3 || d == 4 || d == 5 || d == 6 || d == 7 || d == 8
        || d == 9);
    assert(c as u32 == 48 + d);
    lemma_digit(d);
    assert(digit(d) as u32 == 48 + d);
}

proof fn lemma_decimal(n: nat)
    ensures
        digits_value(decimal(n)) == Some(n),
        decimal(n).len() >= 1,
        n < 10 ==> decimal(n).len() == 1,
        10 <= n < 100 ==> decimal(n).len() == 2,
        100 <= n < 1000 ==> decimal(n).len() == 3,
        n > 0 ==> decimal(n)[0] != '0',
        forall|i: int|
            0 <= i < decimal(n).len() ==> digit_value(#[trigger] decimal(n)[i]) is Some,
    decreases n,
{
    lemma_digit(n % 10);
    if n < 10 {
        let one = seq![digit(n)];
        assert(one.drop_last() =~= Seq::<char>::empty());
        assert(digits_value(one.drop_last()) == Some(0nat));
        assert(one.last() == digit(n));
    } else {
        lemma_decimal(n / 10);
        let high = decimal(n / 10);
        assert(decimal(n).drop_last() =~= high);
        assert forall|i: int| 0 <= i < decimal(n).len() implies digit_value(
            #[trigger] decimal(n)[i],
        ) is Some by {
            if i < high.len() {
                assert(decimal(n)[i] == high[i]);
            }
        }
        assert(decimal(n)[0] == high[0]);
    }
}

proof fn lemma_value_back(s: Seq<char>)
    requires
        s.len() >= 1,
        forall|i: int| 0 <= i < s.len() ==> digit_value(#[trigger] s[i]) is Some,
        s.len() == 1 || s[0] != '0',
        digits_value(s) is Some,
    ensures
        decimal(digits_value(s)->0) == s,
        s[0] != '0' ==> digits_value(s)->0 > 0,
    decreases s.len(),
{
    let rest = s.drop_last();
    let n = digits_value(s)->0;
    assert(digit_value(s[s.len() - 1]) is Some);
    lemma_digit_back(s.last());
    let low = digit_value(s.last())->0;
    let high = digits_value(rest)->0;
    assert(n == high * 10 + low);
    if s.len() == 1 {
        assert(rest =~= Seq::<char>::empty());
        assert(high == 0);
        assert(decimal(n) =~= s);
    } else {
        assert forall|i: int| 0 <= i < rest.len() implies digit_value(#[trigger] rest[i]) is Some by {
            assert(rest[i] == s[i]);
        }
        assert(rest[0] == s[0]);
        lemma_value_back(rest);
        assert(high > 0);
        assert(n >= 10);
        assert(n / 10 == high && n % 10 == low) by (nonlinear_arith)
            requires
                n == high * 10 + low,
                low < 10,
        ;
        assert(decimal(n) =~= s);
    }
}

/// A text begins with a number of an address exactly where it begins with a number up
/// to 255 in decimal, without leading zeros, and no digit follows.
proof fn lemma_octet(n: nat, rest: Seq<char>)
    requires
        n <= 255,
        rest.len() > 0 ==> digit_value(rest[0]) is None,
    ensures
        octet(decimal(n) + rest) == Some((n, rest)),
{
    lemma_decimal(n);
    let s = decimal(n) + rest;
    let k = decimal(n).len() as int;
    assert forall|i: int| 0 <= i < k implies digit_value(#[trigger] s[i]) is Some by {
        assert(s[i] == decimal(n)[i]);
    }
    if k < s.len() {
        assert(s[k] == rest[0]);
    }
    lemma_leading_digits(s, k);
    assert(s.subrange(0, k) =~= decimal(n));
    assert(s.subrange(k, s.len() as int) =~= rest);
}

proof fn lemma_leading(s: Seq<char>)
    ensures
        leading_digits(s) <= s.len(),
        forall|i: int| 0 <= i < leading_digits(s) ==> digit_value(#[trigger] s[i]) is Some,
        leading_digits(s) < s.len() ==> digit_value(s[leading_digits(s) as int]) is None,
    decreases s.len(),
{
    if s.len() > 0 && digit_value(s[0]) is Some {
        let rest = s.drop_first();
        lemma_leading(rest);
        assert forall|i: int| 0 <= i < leading_digits(s) implies digit_value(
            #[trigger] s[i],
        ) is Some by {
            if i > 0 {
                assert(s[i] == rest[i - 1]);
            }
        }
        if leading_digits(s) < s.len() {
            assert(s[leading_digits(s) as int] == rest[leading_digits(rest) as int]);
        }
    }
}

proof fn lemma_octet_back(s: Seq<char>)
    requires
        octet(s) is Some,
    ensures
        ({
            let (value, rest) = octet(s)->0;
            value <= 255 && s == decimal(value) + rest
        }),
{
    lemma_leading(s);
    let k = leading_digits(s) as int;
    let digits = s.subrange(0, k);
    assert forall|i: int| 0 <= i < digits.len() implies digit_value(#[trigger] digits[i]) is Some by {
        assert(digits[i] == s[i]);
    }
    assert(digits[0] == s[0]);
    lemma_value_back(digits);
    assert(s =~= digits + s.subrange(k, s.len() as int));
}

/// An address of the fourth version, as a URL writes it.
pub open spec fn dotted(a: nat, b: nat, c: nat, d: nat) -> Seq<char> {
    decimal(a) + (seq!['.'] + (decimal(b) + (seq!['.'] + (decimal(c) + (seq!['.'] + decimal(d))))))
}

proof fn lemma_octets(n: nat, rest: Seq<char>, count: nat)
    requires
        n <= 255,
        is_octets(rest, count),
    ensures
        is_octets(seq!['.'] + (decimal(n) + rest), count + 1),
{
    let s = seq!['.'] + (decimal(n) + rest);
    assert(s.drop_first() =~= decimal(n) + rest);
    lemma_octet(n, rest);
}

proof fn lemma_octets_back(s: Seq<char>, count: nat) -> (r: (nat, Seq<char>))
    requires
        count > 0,
        is_octets(s, count),
    ensures
        r.0 <= 255,
        s == seq!['.'] + (decimal(r.0) + r.1),
        is_octets(r.1, (count - 1) as nat),
{
    let r = octet(s.drop_first())->0;
    lemma_octet_back(s.drop_first());
    assert(s =~= seq!['.'] + s.drop_first());
    r
}

proof fn lemma_dotted(b: nat, c: nat, d: nat)
    requires
        b <= 255,
        c <= 255,
        d <= 255,
    ensures
        is_loopback(dotted(127, b, c, d)),
{
    let none = Seq::<char>::empty();
    assert(decimal(d) + none =~= decimal(d));
    let third = seq!['.'] + decimal(d);
    let second = seq!['.'] + (decimal(c) + third);
    let first = seq!['.'] + (decimal(b) + second);
    assert(is_octets(none, 0));
    lemma_octets(d, none, 0);
    lemma_octets(c, third, 1);
    lemma_octets(b, second, 2);
    assert(first[0] == '.');
    lemma_octet(127, first);
}

proof fn lemma_dotted_back(host: Seq<char>)
    requires
        octet(host) is Some,
        ({
            let (value, rest) = octet(host)->0;
            value == 127 && is_octets(rest, 3)
        }),
    ensures
        exists|b: nat, c: nat, d: nat|
            b <= 255 && c <= 255 && d <= 255 && host == #[trigger] dotted(127, b, c, d),
{
    let (value, first) = octet(host)->0;
    lemma_octet_back(host);
    let (b, second) = lemma_octets_back(first, 3);
    let (c, third) = lemma_octets_back(second, 2);
    let (d, none) = lemma_octets_back(third, 1);
    assert(none =~= Seq::<char>::empty());
    assert(decimal(d) + none =~= decimal(d));
    assert(host == dotted(127, b, c, d));
}

/// A host is this machine exactly where it is called so, in whatever case, or is an
/// address of the fourth version that begins with 127, or the one of the sixth version.
pub proof fn this_machine_is_recognized(host: Seq<char>)
    ensures
        is_loopback(host) <==> same_ignoring_case(host, "localhost"@) || host == "::1"@ || exists|
            b: nat,
            c: nat,
            d: nat,
        |
            b <= 255 && c <= 255 && d <= 255 && host == #[trigger] dotted(127, b, c, d),
{
    if exists|b: nat, c: nat, d: nat|
        b <= 255 && c <= 255 && d <= 255 && host == #[trigger] dotted(127, b, c, d) {
        let (b, c, d) = choose|b: nat, c: nat, d: nat|
            b <= 255 && c <= 255 && d <= 255 && host == #[trigger] dotted(127, b, c, d);
        lemma_dotted(b, c, d);
    }
    if is_loopback(host) && !same_ignoring_case(host, "localhost"@) && host != "::1"@ {
        lemma_dotted_back(host);
    }
}

/// Whether a part of a host is what stands between the brackets around it.
pub open spec fn is_within_brackets(host: Seq<char>, i: int, j: int) -> bool {
    &&& 0 <= i <= j <= host.len()
    &&& forall|k: int|
        0 <= k < i || j <= k < host.len() ==> #[trigger] host[k] == '[' || host[k] == ']'
    &&& i < j ==> host[i] != '[' && host[i] != ']' && host[j - 1] != '[' && host[j - 1] != ']'
}

proof fn lemma_brackets(host: Seq<char>) -> (r: (int, int))
    ensures
        is_within_brackets(host, r.0, r.1),
        without_brackets(host) == host.subrange(r.0, r.1),
    decreases host.len(),
{
    let n = host.len() as int;
    if n > 0 && is_bracket(host[0]) {
        let rest = host.drop_first();
        let (i, j) = lemma_brackets(rest);
        assert(host.subrange(i + 1, j + 1) =~= rest.subrange(i, j));
        assert forall|k: int| 0 <= k < i + 1 || j + 1 <= k < n implies #[trigger] host[k] == '['
            || host[k] == ']' by {
            if k > 0 {
                assert(host[k] == rest[k - 1]);
            }
        }
        (i + 1, j + 1)
    } else if n > 0 && is_bracket(host.last()) {
        let rest = host.drop_last();
        let (i, j) = lemma_brackets(rest);
        assert(host.subrange(i, j) =~= rest.subrange(i, j));
        assert forall|k: int| 0 <= k < i || j <= k < n implies #[trigger] host[k] == '[' || host[k]
            == ']' by {
            if k < n - 1 {
                assert(host[k] == rest[k]);
            }
        }
        (i, j)
    } else {
        assert(host.subrange(0, n) =~= host);
        (0, n)
    }
}

/// The name of a host is what stands between the brackets around it.
pub proof fn a_host_is_named_without_its_brackets(host: Seq<char>)
    ensures
        exists|i: int, j: int| #[trigger]
            is_within_brackets(host, i, j) && without_brackets(host) == host.subrange(i, j),
{
    let (i, j) = lemma_brackets(host);
    assert(is_within_brackets(host, i, j) && without_brackets(host) == host.subrange(i, j));
}

/// An address without a host is unavailable, one on this machine is local, and any
/// other one is remote, under the name of its host.
pub proof fn a_remote_host_is_named(host: Seq<char>)
    ensures
        status_of_host(None) == StatusView::Unavailable,
        is_loopback(without_brackets(host)) ==> status_of_host(Some(host)) == StatusView::Local,
        !is_loopback(without_brackets(host)) ==> status_of_host(Some(host))
            == (StatusView::Remote { hostname: without_brackets(host) }),
        status_of_host(Some(host)).label() == (if is_loopback(without_brackets(host)) {
            "本地"@
        } else {
            "远程 · "@ + without_brackets(host)
        }),
        status_of_host(None).label() == "端点不可用"@,
{
}

/// What is said of a role that is served by a remote host; nothing of any other one.
pub open spec fn remote_part(role: Seq<char>, status: StatusView) -> Seq<Seq<char>> {
    if status is Remote {
        seq![role + "："@ + status->hostname]
    } else {
        Seq::empty()
    }
}

/// All roles together are remote where each can be reached and one is remote; every
/// remote host is then named with its role, and no other one is.
pub proof fn every_remote_role_is_named(
    chat: StatusView,
    embedding: StatusView,
    vision: StatusView,
)
    requires
        !(chat is Unavailable),
        !(embedding is Unavailable),
        !(vision is Unavailable),
        chat is Remote || embedding is Remote || vision is Remote,
    ensures
        combined_status(chat, embedding, vision) == (StatusView::Remote {
            hostname: joined(
                remote_part("对话"@, chat) + remote_part("Embedding"@, embedding) + remote_part(
                    "视觉"@,
                    vision,
                ),
                "；"@,
            ),
        }),
{
    let roles = seq![("对话"@, chat), ("Embedding"@, embedding), ("视觉"@, vision)];
    assert(roles.drop_last() =~= seq![("对话"@, chat), ("Embedding"@, embedding)]);
    assert(roles.drop_last().drop_last() =~= seq![("对话"@, chat)]);
    assert(roles.drop_last().drop_last().drop_last() =~= Seq::empty());
    reveal_with_fuel(remote_hosts, 4);
    assert(remote_hosts(roles) =~= remote_part("对话"@, chat) + remote_part(
        "Embedding"@,
        embedding,
    ) + remote_part("视觉"@, vision));
}

/// Ollama on this machine is an address with a host that is this machine and the port
/// 11434; the commands name every model that is missing, in order.
pub proof fn local_ollama_is_told_by_host_and_port(
    host: Option<Seq<char>>,
    port: Option<u16>,
    models: Seq<Seq<char>>,
    i: int,
)
    ensures
        !is_local_ollama(None),
        is_local_ollama(Some((host, port))) <==> host is Some && is_loopback(
            without_brackets(host->0),
        ) && port == Some(11434u16),
        pull_commands(models).len() == models.len(),
        0 <= i < models.len() ==> pull_commands(models)[i] == "ollama pull "@ + models[i],
{
}

} // verus!
