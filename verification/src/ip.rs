//! Canonical textual rendering of IP addresses found in subjectAltName
//! entries: dotted-quad for 4 octets, compressed lower-case colon-hex for
//! 16 octets. IPv4-mapped IPv6 addresses keep their dotted-quad tail.

use vstd::prelude::*;
use vstd::string::StringExecFns;

use crate::text::{push_decimal, push_hex, spec_decimal, spec_hex};

verus! {

/// The dotted-quad rendering of four octets.
pub open spec fn spec_ipv4_quad(a: u8, b: u8, c: u8, d: u8) -> Seq<char> {
    spec_decimal(a as nat) + seq!['.'] + spec_decimal(b as nat) + seq!['.']
        + spec_decimal(c as nat) + seq!['.'] + spec_decimal(d as nat)
}

/// The dotted-quad rendering of a four-octet sequence.
pub open spec fn spec_ipv4_text(b: Seq<u8>) -> Seq<char>
    recommends
        b.len() == 4,
{
    spec_ipv4_quad(b[0], b[1], b[2], b[3])
}

/// The eight 16-bit groups of a sixteen-octet address, big-endian.
pub open spec fn spec_groups(b: Seq<u8>) -> Seq<u16>
    recommends
        b.len() == 16,
{
    Seq::new(8, |i: int| (b[2 * i] * 256 + b[2 * i + 1]) as u16)
}

/// Whether the groups form an IPv4-mapped address (`::ffff:a.b.c.d`).
pub open spec fn spec_is_v4_mapped(gs: Seq<u16>) -> bool
    recommends
        gs.len() == 8,
{
    gs[0] == 0 && gs[1] == 0 && gs[2] == 0 && gs[3] == 0 && gs[4] == 0 && gs[5] == 0xffffu16
}

/// The number of consecutive zero groups starting at `i`.
pub open spec fn spec_run_len(gs: Seq<u16>, i: int) -> int
    recommends
        0 <= i <= 8,
        gs.len() == 8,
    decreases 8 - i,
{
    if i < 0 || i >= 8 {
        0
    } else if gs[i] != 0 {
        0
    } else {
        1 + spec_run_len(gs, i + 1)
    }
}

/// The leftmost longest zero run at or after `i`: its start and length.
/// A start of 8 with length 0 means there is no zero group at all.
pub open spec fn spec_best_run(gs: Seq<u16>, i: int) -> (int, int)
    recommends
        0 <= i <= 8,
        gs.len() == 8,
    decreases 8 - i,
{
    if i < 0 || i >= 8 {
        (8, 0)
    } else {
        let rest = spec_best_run(gs, i + 1);
        let here = spec_run_len(gs, i);
        if here >= rest.1 {
            (i, here)
        } else {
            rest
        }
    }
}

/// The hexadecimal renderings of `gs[from..to]`, joined by colons.
pub open spec fn spec_join_groups(gs: Seq<u16>, from: int, to: int) -> Seq<char>
    recommends
        0 <= from <= to <= gs.len(),
    decreases to - from,
{
    if from >= to {
        Seq::empty()
    } else if from + 1 >= to {
        spec_hex(gs[from] as nat)
    } else {
        spec_hex(gs[from] as nat) + seq![':'] + spec_join_groups(gs, from + 1, to)
    }
}

/// The canonical compressed rendering of a sixteen-octet address: the
/// leftmost longest run of at least two zero groups becomes `::`, and an
/// IPv4-mapped address keeps its dotted-quad form.
pub open spec fn spec_ipv6_text(b: Seq<u8>) -> Seq<char>
    recommends
        b.len() == 16,
{
    let gs = spec_groups(b);
    if spec_is_v4_mapped(gs) {
        seq![':', ':', 'f', 'f', 'f', 'f', ':'] + spec_ipv4_text(b.skip(12))
    } else {
        let best = spec_best_run(gs, 0);
        if best.1 >= 2 {
            spec_join_groups(gs, 0, best.0) + seq![':', ':']
                + spec_join_groups(gs, best.0 + best.1, 8)
        } else {
            spec_join_groups(gs, 0, 8)
        }
    }
}

/// A zero run starting at `i` ends by index 8.
proof fn lemma_run_len_bound(gs: Seq<u16>, i: int)
    requires
        0 <= i <= 8,
        gs.len() == 8,
    ensures
        0 <= spec_run_len(gs, i) <= 8 - i,
    decreases 8 - i,
{
    if i < 8 && gs[i] == 0 {
        lemma_run_len_bound(gs, i + 1);
    }
}

/// The best run at or after `i` starts no earlier than `i`, fits inside the
/// eight groups, and has exactly the length of the zero run at its start.
proof fn lemma_best_run_bounds(gs: Seq<u16>, i: int)
    requires
        0 <= i <= 8,
        gs.len() == 8,
    ensures
        i <= spec_best_run(gs, i).0 <= 8,
        spec_best_run(gs, i).1 == spec_run_len(gs, spec_best_run(gs, i).0),
        0 <= spec_best_run(gs, i).1 <= 8 - spec_best_run(gs, i).0,
    decreases 8 - i,
{
    if i < 8 {
        lemma_best_run_bounds(gs, i + 1);
        lemma_run_len_bound(gs, i);
    }
}

/// Appends the dotted-quad rendering of four octets.
fn push_ipv4(s: &mut String, a: u8, b: u8, c: u8, d: u8)
    ensures
        final(s)@ == old(s)@ + spec_ipv4_quad(a, b, c, d),
{
    proof {
        reveal_strlit(".");
    }
    assert("."@ =~= seq!['.']);
    push_decimal(s, a as u64);
    s.append(".");
    push_decimal(s, b as u64);
    s.append(".");
    push_decimal(s, c as u64);
    s.append(".");
    push_decimal(s, d as u64);
    assert(final(s)@ =~= old(s)@ + spec_ipv4_quad(a, b, c, d));
}

/// The dotted-quad rendering of a four-octet address.
pub fn ipv4_text(b: &Vec<u8>) -> (s: String)
    requires
        b@.len() == 4,
    ensures
        s@ == spec_ipv4_text(b@),
{
    let mut s = String::new();
    push_ipv4(&mut s, b[0], b[1], b[2], b[3]);
    assert(s@ =~= spec_ipv4_text(b@));
    s
}

/// Appends `gs[from..to]` in hexadecimal, joined by colons.
fn push_groups(s: &mut String, gs: &Vec<u16>, from: usize, to: usize)
    requires
        from <= to,
        to <= gs@.len(),
    ensures
        final(s)@ == old(s)@ + spec_join_groups(gs@, from as int, to as int),
    decreases to - from,
{
    if from < to {
        push_hex(s, gs[from]);
        if from + 1 < to {
            proof {
                reveal_strlit(":");
            }
            assert(":"@ =~= seq![':']);
            s.append(":");
            push_groups(s, gs, from + 1, to);
            assert(old(s)@ + spec_hex(gs@[from as int] as nat) + seq![':']
                + spec_join_groups(gs@, from as int + 1, to as int)
                =~= old(s)@ + spec_join_groups(gs@, from as int, to as int));
        }
    } else {
        assert(old(s)@ + spec_join_groups(gs@, from as int, to as int) =~= old(s)@);
    }
}

/// The canonical compressed rendering of a sixteen-octet address.
pub fn ipv6_text(b: &Vec<u8>) -> (s: String)
    requires
        b@.len() == 16,
    ensures
        s@ == spec_ipv6_text(b@),
{
    let mut gs: Vec<u16> = Vec::new();
    for i in 0..8
        invariant
            b@.len() == 16,
            gs@.len() == i,
            forall|j: int| 0 <= j < i ==> gs@[j] == spec_groups(b@)[j],
    {
        let g = (b[2 * i] as u16) * 256 + (b[2 * i + 1] as u16);
        gs.push(g);
    }
    assert(gs@ =~= spec_groups(b@));

    if gs[0] == 0 && gs[1] == 0 && gs[2] == 0 && gs[3] == 0 && gs[4] == 0 && gs[5] == 0xffffu16 {
        let mut s = String::new();
        proof {
            reveal_strlit("::ffff:");
        }
        assert("::ffff:"@ =~= seq![':', ':', 'f', 'f', 'f', 'f', ':']);
        s.append("::ffff:");
        push_ipv4(&mut s, b[12], b[13], b[14], b[15]);
        assert(b@.skip(12)[0] == b@[12] && b@.skip(12)[1] == b@[13] && b@.skip(12)[2] == b@[14]
            && b@.skip(12)[3] == b@[15]);
        assert(s@ =~= spec_ipv6_text(b@));
        s
    } else {
        let mut start: usize = 8;
        let mut len: usize = 0;
        let mut run: usize = 0;
        let mut i: usize = 8;
        while i > 0
            invariant
                i <= 8,
                gs@.len() == 8,
                run <= 8 - i,
                run == spec_run_len(gs@, i as int),
                (start as int, len as int) == spec_best_run(gs@, i as int),
            decreases i,
        {
            i = i - 1;
            if gs[i] != 0 {
                run = 0;
            } else {
                run = run + 1;
            }
            if run >= len {
                start = i;
                len = run;
            }
        }
        proof {
            lemma_best_run_bounds(gs@, 0);
        }
        let mut s = String::new();
        if len >= 2 {
            push_groups(&mut s, &gs, 0, start);
            proof {
                reveal_strlit("::");
            }
            assert("::"@ =~= seq![':', ':']);
            s.append("::");
            push_groups(&mut s, &gs, start + len, 8);
            proof {
                assert(spec_run_len(gs@, start as int) == len as int);
                assert(start + len <= 8);
            }
            assert(s@ =~= spec_ipv6_text(b@));
        } else {
            push_groups(&mut s, &gs, 0, 8);
            assert(s@ =~= spec_ipv6_text(b@));
        }
        s
    }
}

} // verus!
