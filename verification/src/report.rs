//! Rendering of the final plain-text report, byte for byte: the
//! average packet size to two decimal places, the total volume, the
//! ranked destination addresses and the protocol tally.

use vstd::prelude::*;
use vstd::string::*;
use vstd::arithmetic::div_mod::{lemma_fundamental_div_mod, lemma_mod_bound};

verus! {

/// The decimal digits of `n`, most significant first.
pub open spec fn dec_digits(n: nat) -> Seq<u8>
    decreases n,
{
    if n < 10 {
        seq![(48 + n) as u8]
    } else {
        dec_digits(n / 10).push((48 + n % 10) as u8)
    }
}

/// `n` space characters.
pub open spec fn spaces(n: nat) -> Seq<u8>
    decreases n,
{
    if n == 0 {
        Seq::empty()
    } else {
        spaces((n - 1) as nat).push(32u8)
    }
}

/// The dotted-quad text of an address, octets most significant first.
pub open spec fn ip_digits(a: u32) -> Seq<u8> {
    dec_digits((a >> 24) as nat) + seq![46u8] + dec_digits(((a >> 16) & 0xFF) as nat)
        + seq![46u8] + dec_digits(((a >> 8) & 0xFF) as nat) + seq![46u8] + dec_digits(
        (a & 0xFF) as nat,
    )
}

/// `s` padded on the right with spaces to `width` columns.
pub open spec fn pad_right(s: Seq<u8>, width: nat) -> Seq<u8> {
    if s.len() < width {
        s + spaces((width - s.len()) as nat)
    } else {
        s
    }
}

/// The reported average in hundredths of a byte: the volume over the
/// packet count, rounded to the nearest hundredth, halves rounding up.
pub open spec fn avg_hundredths(volume: nat, count: nat) -> nat
    recommends
        count > 0,
{
    (200 * volume + count) / (2 * count)
}

/// The text of the reported average: decimal digits with exactly two
/// decimal places, or `NaN` when no packets were processed (the stated
/// policy for a report over an empty capture).
pub open spec fn avg_digits(volume: nat, count: nat) -> Seq<u8> {
    if count == 0 {
        seq![78u8, 97u8, 78u8]
    } else {
        let h = avg_hundredths(volume, count);
        dec_digits(h / 100) + seq![46u8, (48 + (h / 10) % 10) as u8, (48 + h % 10) as u8]
    }
}

/// The reported hundredths are the true ratio to within half a
/// hundredth: 200·volume lies within `count` of 2·count·hundredths.
pub proof fn lemma_average_rounding(volume: nat, count: nat)
    requires
        count > 0,
    ensures
        2 * count * avg_hundredths(volume, count) - count <= 200 * volume,
        200 * volume < 2 * count * avg_hundredths(volume, count) + count,
{
    let n = 200 * volume + count;
    let d = 2 * count;
    lemma_fundamental_div_mod(n as int, d as int);
    lemma_mod_bound(n as int, d as int);
}

/// One report line for a ranked entry: a tab, the address padded to 15
/// columns, then its packet count.
pub open spec fn entry_line(e: (u32, u64)) -> Seq<u8> {
    seq![9u8] + pad_right(ip_digits(e.0), 15) + " (".spec_bytes() + dec_digits(e.1 as nat)
        + " packets recieved)\n".spec_bytes()
}

/// The report lines of all ranked entries, in order.
pub open spec fn entry_lines(s: Seq<(u32, u64)>) -> Seq<u8>
    decreases s.len(),
{
    if s.len() == 0 {
        Seq::empty()
    } else {
        entry_lines(s.drop_last()) + entry_line(s.last())
    }
}

/// The whole report, byte for byte.
pub open spec fn report_bytes(
    volume: u64,
    count: u64,
    entries: Seq<(u32, u64)>,
    udp: u64,
    tcp: u64,
    other: u64,
) -> Seq<u8> {
    "Average packet size: ".spec_bytes() + avg_digits(volume as nat, count as nat)
        + " bytes\nTotal volume: ".spec_bytes() + dec_digits(volume as nat)
        + " bytes\n\nPrimary targets:\n".spec_bytes() + entry_lines(entries)
        + "\nProtocols:\n\tUDP   : ".spec_bytes() + dec_digits(udp as nat)
        + "\n\tTCP   : ".spec_bytes() + dec_digits(tcp as nat) + "\n\tOther : ".spec_bytes()
        + dec_digits(other as nat) + "\n".spec_bytes()
}

/// Append the decimal digits of `n`.
fn push_dec(out: &mut Vec<u8>, n: u128)
    ensures
        final(out)@ == old(out)@ + dec_digits(n as nat),
    decreases n,
{
    if n < 10 {
        out.push(48 + n as u8);
        proof {
            assert(out@ =~= old(out)@ + dec_digits(n as nat));
        }
    } else {
        push_dec(out, n / 10);
        out.push(48 + (n % 10) as u8);
        proof {
            assert(out@ =~= old(out)@ + dec_digits(n as nat));
        }
    }
}

/// Append a string's UTF-8 bytes.
fn push_str_bytes(out: &mut Vec<u8>, s: &str)
    ensures
        final(out)@ == old(out)@ + s.spec_bytes(),
{
    let b = s.as_bytes();
    proof {
        assert(old(out)@ + b@.take(0int) =~= old(out)@);
    }
    let mut i: usize = 0;
    while i < b.len()
        invariant
            i <= b@.len(),
            b@ == s.spec_bytes(),
            out@ == old(out)@ + b@.take(i as int),
        decreases b@.len() - i,
    {
        out.push(b[i]);
        proof {
            assert(out@ =~= old(out)@ + b@.take(i + 1));
        }
        i = i + 1;
    }
    proof {
        assert(b@.take(b@.len() as int) =~= b@);
    }
}

/// Append the dotted-quad text of `a`, padded to 15 columns.
fn push_padded_ip(out: &mut Vec<u8>, a: u32)
    ensures
        final(out)@ == old(out)@ + pad_right(ip_digits(a), 15),
{
    let ghost head = old(out)@;
    let base = out.len();
    push_dec(out, (a >> 24) as u128);
    out.push(46u8);
    push_dec(out, ((a >> 16) & 0xFF) as u128);
    out.push(46u8);
    push_dec(out, ((a >> 8) & 0xFF) as u128);
    out.push(46u8);
    push_dec(out, (a & 0xFF) as u128);
    let ghost ipd = ip_digits(a);
    proof {
        assert(out@ =~= head + ipd);
        assert(head + ipd + spaces(0) =~= head + ipd);
    }
    while out.len() - base < 15
        invariant
            base == head.len(),
            base + ipd.len() <= out@.len(),
            out@.len() <= base + 15 || out@.len() == base + ipd.len(),
            out@ == head + ipd + spaces((out@.len() - base - ipd.len()) as nat),
        decreases 15 + base - out.len(),
    {
        let ghost k = (out@.len() - base - ipd.len()) as nat;
        out.push(32u8);
        proof {
            assert(out@ =~= head + ipd + spaces(k + 1));
        }
    }
    proof {
        if ipd.len() < 15 {
            assert(out@.len() - base == 15);
            assert(out@ =~= head + pad_right(ipd, 15));
        } else {
            assert(out@.len() - base - ipd.len() == 0);
            assert(out@ =~= head + pad_right(ipd, 15));
        }
    }
}

/// Append the reported average for this volume and packet count.
fn push_avg(out: &mut Vec<u8>, volume: u64, count: u64)
    ensures
        final(out)@ == old(out)@ + avg_digits(volume as nat, count as nat),
{
    if count == 0 {
        out.push(78u8);
        out.push(97u8);
        out.push(78u8);
        proof {
            assert(out@ =~= old(out)@ + avg_digits(volume as nat, count as nat));
        }
    } else {
        let h: u128 = (200u128 * (volume as u128) + (count as u128)) / (2u128 * (count as u128));
        proof {
            assert(h == avg_hundredths(volume as nat, count as nat));
        }
        push_dec(out, h / 100);
        out.push(46u8);
        out.push(48 + ((h / 10) % 10) as u8);
        out.push(48 + (h % 10) as u8);
        proof {
            assert(out@ =~= old(out)@ + avg_digits(volume as nat, count as nat));
        }
    }
}

/// Render the whole report over the given counters and ranked entries.
pub fn render_report(
    volume: u64,
    count: u64,
    entries: &Vec<(u32, u64)>,
    udp: u64,
    tcp: u64,
    other: u64,
) -> (r: Vec<u8>)
    ensures
        r@ == report_bytes(volume, count, entries@, udp, tcp, other),
{
    let mut out: Vec<u8> = Vec::new();
    push_str_bytes(&mut out, "Average packet size: ");
    push_avg(&mut out, volume, count);
    push_str_bytes(&mut out, " bytes\nTotal volume: ");
    push_dec(&mut out, volume as u128);
    push_str_bytes(&mut out, " bytes\n\nPrimary targets:\n");
    let ghost head = out@;
    proof {
        assert(head + entry_lines(entries@.take(0int)) =~= head);
    }
    let mut i: usize = 0;
    while i < entries.len()
        invariant
            i <= entries@.len(),
            out@ == head + entry_lines(entries@.take(i as int)),
        decreases entries@.len() - i,
    {
        let e = entries[i];
        out.push(9u8);
        push_padded_ip(&mut out, e.0);
        push_str_bytes(&mut out, " (");
        push_dec(&mut out, e.1 as u128);
        push_str_bytes(&mut out, " packets recieved)\n");
        proof {
            assert(entries@.take(i + 1).drop_last() =~= entries@.take(i as int));
            assert(entries@.take(i + 1).last() == entries@[i as int]);
            assert(out@ =~= head + entry_lines(entries@.take(i + 1)));
        }
        i = i + 1;
    }
    proof {
        assert(entries@.take(entries@.len() as int) =~= entries@);
    }
    push_str_bytes(&mut out, "\nProtocols:\n\tUDP   : ");
    push_dec(&mut out, udp as u128);
    push_str_bytes(&mut out, "\n\tTCP   : ");
    push_dec(&mut out, tcp as u128);
    push_str_bytes(&mut out, "\n\tOther : ");
    push_dec(&mut out, other as u128);
    push_str_bytes(&mut out, "\n");
    proof {
        assert(out@ =~= report_bytes(volume, count, entries@, udp, tcp, other));
    }
    out
}

} // verus!
