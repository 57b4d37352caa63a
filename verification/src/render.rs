//! Canonical text for the final summary.
//!
//! One header line, then one line per account in the table's order
//! (ascending client id): `client,available,held,total,locked`. An
//! amount is rendered in minimal canonical form: no sign for zero or
//! positive values, no trailing zeros after the decimal point, and no
//! decimal point at all for whole values. A fixed numeric value thus
//! always renders as the same bytes.

use vstd::prelude::*;
use crate::account::Client;
use crate::amount::Amount;

verus! {

/// The decimal digit character for `d` (0 to 9).
pub open spec fn spec_digit(d: nat) -> char {
    if d == 0 {
        '0'
    } else if d == 1 {
        '1'
    } else if d == 2 {
        '2'
    } else if d == 3 {
        '3'
    } else if d == 4 {
        '4'
    } else if d == 5 {
        '5'
    } else if d == 6 {
        '6'
    } else if d == 7 {
        '7'
    } else if d == 8 {
        '8'
    } else {
        '9'
    }
}

/// The usual decimal digits of `n`, most significant first, with no
/// leading zeros (a single zero for `n == 0`).
pub open spec fn spec_udec(n: nat) -> Seq<char>
    decreases n,
{
    if n < 10 {
        seq![spec_digit(n)]
    } else {
        spec_udec(n / 10).push(spec_digit(n % 10))
    }
}

/// The digits after the decimal point for the fractional part `f` (in
/// ten-thousandths, `0 < f < 10000`), trailing zeros removed.
pub open spec fn spec_frac(f: nat) -> Seq<char>
    recommends
        0 < f < 10000,
{
    let d1 = spec_digit(f / 1000 % 10);
    let d2 = spec_digit(f / 100 % 10);
    let d3 = spec_digit(f / 10 % 10);
    let d4 = spec_digit(f % 10);
    if f % 10 != 0 {
        seq![d1, d2, d3, d4]
    } else if f % 100 != 0 {
        seq![d1, d2, d3]
    } else if f % 1000 != 0 {
        seq![d1, d2]
    } else {
        seq![d1]
    }
}

/// The canonical text of an amount of `units` ten-thousandths: an
/// optional minus sign, the whole part, and the fractional digits only
/// if they are not all zero.
pub open spec fn spec_amount(units: int) -> Seq<char> {
    let m = (if units < 0 {
        -units
    } else {
        units
    }) as nat;
    let sign: Seq<char> = if units < 0 {
        seq!['-']
    } else {
        Seq::<char>::empty()
    };
    if m % 10000 == 0 {
        sign + spec_udec(m / 10000)
    } else {
        sign + spec_udec(m / 10000) + seq!['.'] + spec_frac(m % 10000)
    }
}

/// The boolean literals.
pub open spec fn spec_bool(b: bool) -> Seq<char> {
    if b {
        seq!['t', 'r', 'u', 'e']
    } else {
        seq!['f', 'a', 'l', 's', 'e']
    }
}

/// One summary line: the client id and the account's balances.
pub open spec fn spec_client_row(c: Client) -> Seq<char> {
    spec_udec(c.id as nat) + seq![','] + spec_amount(c.available@) + seq![','] + spec_amount(
        c.held@,
    ) + seq![','] + spec_amount(c.total@) + seq![','] + spec_bool(c.locked) + seq!['\n']
}

/// The summary's header line.
pub open spec fn spec_header() -> Seq<char> {
    seq![
        'c', 'l', 'i', 'e', 'n', 't', ',', 'a', 'v', 'a', 'i', 'l', 'a', 'b', 'l', 'e', ',', 'h',
        'e', 'l', 'd', ',', 't', 'o', 't', 'a', 'l', ',', 'l', 'o', 'c', 'k', 'e', 'd', '\n',
    ]
}

/// The summary lines for the accounts, in the table's order.
pub open spec fn spec_rows(s: Seq<Client>) -> Seq<char>
    decreases s.len(),
{
    if s.len() == 0 {
        Seq::<char>::empty()
    } else {
        spec_rows(s.drop_last()) + spec_client_row(s.last())
    }
}

/// The whole summary: the header, then one line per account.
pub open spec fn spec_summary(s: Seq<Client>) -> Seq<char> {
    spec_header() + spec_rows(s)
}

/// The one-character string for digit `d`.
fn digit_str(d: u64) -> (r: &'static str)
    requires
        d < 10,
    ensures
        r@ == seq![spec_digit(d as nat)],
{
    proof {
        reveal_strlit("0");
        reveal_strlit("1");
        reveal_strlit("2");
        reveal_strlit("3");
        reveal_strlit("4");
        reveal_strlit("5");
        reveal_strlit("6");
        reveal_strlit("7");
        reveal_strlit("8");
        reveal_strlit("9");
    }
    if d == 0 {
        "0"
    } else if d == 1 {
        "1"
    } else if d == 2 {
        "2"
    } else if d == 3 {
        "3"
    } else if d == 4 {
        "4"
    } else if d == 5 {
        "5"
    } else if d == 6 {
        "6"
    } else if d == 7 {
        "7"
    } else if d == 8 {
        "8"
    } else {
        "9"
    }
}

/// Appends the decimal digits of `n` to `out`.
fn push_udec(out: &mut String, n: u64)
    ensures
        final(out)@ == old(out)@ + spec_udec(n as nat),
    decreases n,
{
    if n < 10 {
        out.append(digit_str(n));
    } else {
        push_udec(out, n / 10);
        out.append(digit_str(n % 10));
        assert(old(out)@ + spec_udec((n / 10) as nat) + seq![spec_digit((n % 10) as nat)]
            =~= old(out)@ + spec_udec(n as nat));
    }
}

/// Renders one amount in minimal canonical form.
pub fn render_amount(a: &Amount) -> (r: String)
    ensures
        r@ == spec_amount(a@),
{
    let mut out = String::new();
    let m: u64 = if a.units < 0 {
        (-(a.units as i128)) as u64
    } else {
        a.units as u64
    };
    if a.units < 0 {
        out.append("-");
        proof {
            reveal_strlit("-");
        }
    }
    let whole = m / 10000;
    let frac = m % 10000;
    push_udec(&mut out, whole);
    if frac != 0 {
        out.append(".");
        proof {
            reveal_strlit(".");
        }
        let d1 = frac / 1000;
        let d2 = frac / 100 % 10;
        let d3 = frac / 10 % 10;
        let d4 = frac % 10;
        out.append(digit_str(d1));
        if frac % 1000 != 0 {
            out.append(digit_str(d2));
        }
        if frac % 100 != 0 {
            out.append(digit_str(d3));
        }
        if frac % 10 != 0 {
            out.append(digit_str(d4));
        }
        assert(out@ =~= spec_amount(a@));
    } else {
        assert(out@ =~= spec_amount(a@));
    }
    out
}

/// Renders `true` or `false`.
fn bool_str(b: bool) -> (r: &'static str)
    ensures
        r@ == spec_bool(b),
{
    proof {
        reveal_strlit("true");
        reveal_strlit("false");
    }
    if b {
        "true"
    } else {
        "false"
    }
}

/// Renders one summary line, newline included.
#[verifier::rlimit(50)]
pub fn render_row(c: &Client) -> (r: String)
    ensures
        r@ == spec_client_row(*c),
{
    let mut out = String::new();
    push_udec(&mut out, c.id as u64);
    out.append(",");
    let available = render_amount(&c.available);
    out.append(available.as_str());
    out.append(",");
    let held = render_amount(&c.held);
    out.append(held.as_str());
    out.append(",");
    let total = render_amount(&c.total);
    out.append(total.as_str());
    out.append(",");
    out.append(bool_str(c.locked));
    out.append("\n");
    proof {
        reveal_strlit(",");
        reveal_strlit("\n");
        assert(out@ =~= spec_client_row(*c));
    }
    out
}

/// Renders the whole summary for the given accounts, in their order:
/// the header line, then `client,available,held,total,locked` for each
/// account.
pub fn render_summary(clients: &Vec<Client>) -> (r: String)
    ensures
        r@ == spec_summary(clients@),
{
    let mut out = String::new();
    out.append("client,available,held,total,locked\n");
    proof {
        reveal_strlit("client,available,held,total,locked\n");
        assert(out@ =~= spec_header());
    }
    let n = clients.len();
    for i in 0..n
        invariant
            n == clients@.len(),
            out@ == spec_header() + spec_rows(clients@.take(i as int)),
    {
        let row = render_row(&clients[i]);
        out.append(row.as_str());
        proof {
            let longer = clients@.take(i + 1 as int);
            assert(longer.drop_last() =~= clients@.take(i as int));
            assert(longer.last() == clients@[i as int]);
            assert(out@ =~= spec_header() + spec_rows(longer));
        }
    }
    assert(clients@.take(n as int) =~= clients@);
    out
}

} // verus!
