use vstd::prelude::*;

verus! {

/// A 24-bit color.
#[derive(Clone, Copy, Debug, PartialEq, Eq, Structural)]
pub struct Rgb {
    pub r: u8,
    pub g: u8,
    pub b: u8,
}

pub open spec fn is_hex(b: u8) -> bool {
    (0x30 <= b <= 0x39) || (0x41 <= b <= 0x46) || (0x61 <= b <= 0x66)
}

pub open spec fn hex_digit(b: u8) -> nat {
    if 0x30 <= b <= 0x39 {
        (b - 0x30) as nat
    } else if 0x41 <= b <= 0x46 {
        (b - 0x41 + 10) as nat
    } else {
        (b - 0x61 + 10) as nat
    }
}

pub open spec fn all_hex(s: Seq<u8>) -> bool {
    forall|i: int| 0 <= i < s.len() ==> is_hex(#[trigger] s[i])
}

/// The number that hexadecimal digits spell, most significant first.
pub open spec fn hex_value(s: Seq<u8>) -> nat
    decreases s.len(),
{
    if s.len() == 0 {
        0
    } else {
        hex_value(s.drop_last()) * 16 + hex_digit(s.last())
    }
}

pub open spec fn pow16(n: nat) -> nat
    decreases n,
{
    if n == 0 {
        1
    } else {
        16 * pow16((n - 1) as nat)
    }
}

/// One channel of `rgb:r/g/b`: one to four hex digits, scaled to 8 bits.
pub open spec fn scaled_channel(s: Seq<u8>) -> Option<u8> {
    if 1 <= s.len() <= 4 && all_hex(s) {
        Some((255 * hex_value(s) / ((pow16(s.len()) - 1) as nat)) as u8)
    } else {
        None
    }
}

/// One channel of `#rgb` and its longer forms: its `n` digits cut or padded
/// to two.
pub open spec fn legacy_channel(s: Seq<u8>) -> u8 {
    if s.len() == 1 {
        (hex_value(s) * 16) as u8
    } else {
        (hex_value(s) / pow16((s.len() - 2) as nat)) as u8
    }
}

/// Indices of the `/` bytes, in order.
pub open spec fn slash_positions(t: Seq<u8>) -> Seq<int>
    decreases t.len(),
{
    if t.len() == 0 {
        seq![]
    } else if t.last() == 0x2f {
        slash_positions(t.drop_last()).push(t.len() - 1)
    } else {
        slash_positions(t.drop_last())
    }
}

/// `rgb:` followed by three channels separated by `/`.
pub open spec fn parse_rgb_form(t: Seq<u8>) -> Option<Rgb> {
    let p = slash_positions(t);
    if p.len() != 2 {
        None
    } else {
        let r = scaled_channel(t.subrange(0, p[0]));
        let g = scaled_channel(t.subrange(p[0] + 1, p[1]));
        let b = scaled_channel(t.subrange(p[1] + 1, t.len() as int));
        if r is Some && g is Some && b is Some {
            Some(Rgb { r: r->0, g: g->0, b: b->0 })
        } else {
            None
        }
    }
}

/// `#` followed by 3, 6, 9 or 12 hex digits, a third for each channel.
pub open spec fn parse_legacy_form(t: Seq<u8>) -> Option<Rgb> {
    let n = t.len() / 3;
    if (t.len() == 3 || t.len() == 6 || t.len() == 9 || t.len() == 12) && all_hex(t) {
        Some(
            Rgb {
                r: legacy_channel(t.subrange(0, n as int)),
                g: legacy_channel(t.subrange(n as int, 2 * n as int)),
                b: legacy_channel(t.subrange(2 * n as int, t.len() as int)),
            },
        )
    } else {
        None
    }
}

/// An XTerm color specification: `rgb:r/g/b` or `#rgb` and its longer forms.
pub open spec fn xparse_color_spec(s: Seq<u8>) -> Option<Rgb> {
    if s.len() >= 4 && s.subrange(0, 4) == seq![0x72u8, 0x67u8, 0x62u8, 0x3au8] {
        parse_rgb_form(s.skip(4))
    } else if s.len() >= 1 && s[0] == 0x23 {
        parse_legacy_form(s.skip(1))
    } else {
        None
    }
}

fn is_hex_byte(b: u8) -> (r: bool)
    ensures
        r == is_hex(b),
{
    (0x30 <= b && b <= 0x39) || (0x41 <= b && b <= 0x46) || (0x61 <= b && b <= 0x66)
}

fn hex_digit_of(b: u8) -> (r: u32)
    requires
        is_hex(b),
    ensures
        r == hex_digit(b),
        r < 16,
{
    if 0x30 <= b && b <= 0x39 {
        (b - 0x30) as u32
    } else if 0x41 <= b && b <= 0x46 {
        (b - 0x41 + 10) as u32
    } else {
        (b - 0x61 + 10) as u32
    }
}

proof fn lemma_pow16_small()
    ensures
        pow16(0) == 1,
        pow16(1) == 16,
        pow16(2) == 256,
        pow16(3) == 4096,
        pow16(4) == 65536,
{
    reveal_with_fuel(pow16, 5);
}

/// The value of `s[start..end]` when it is all hex digits, at most four.
fn hex_run(s: &[u8], start: usize, end: usize) -> (r: Option<u32>)
    requires
        start <= end <= s@.len(),
        end - start <= 4,
    ensures
        r is Some == all_hex(s@.subrange(start as int, end as int)),
        r is Some ==> r->0 == hex_value(s@.subrange(start as int, end as int)),
        r is Some ==> r->0 < pow16((end - start) as nat),
{
    proof {
        lemma_pow16_small();
    }
    let mut v: u32 = 0;
    let mut i: usize = start;
    while i < end
        invariant
            start <= i <= end <= s@.len(),
            end - start <= 4,
            all_hex(s@.subrange(start as int, i as int)),
            v == hex_value(s@.subrange(start as int, i as int)),
            v < pow16((i - start) as nat),
            pow16(0) == 1 && pow16(1) == 16 && pow16(2) == 256 && pow16(3) == 4096 && pow16(4)
                == 65536,
        decreases end - i,
    {
        if !is_hex_byte(s[i]) {
            proof {
                let sub = s@.subrange(start as int, end as int);
                assert(sub[i - start] == s@[i as int]);
            }
            return None;
        }
        let d = hex_digit_of(s[i]);
        proof {
            let next = s@.subrange(start as int, i as int + 1);
            assert(next.drop_last() =~= s@.subrange(start as int, i as int));
            assert(pow16((i + 1 - start) as nat) == 16 * pow16((i - start) as nat));
            assert(v * 16 + d < 16 * pow16((i - start) as nat)) by (nonlinear_arith)
                requires
                    v < pow16((i - start) as nat),
                    d < 16,
            ;
        }
        v = v * 16 + d;
        i = i + 1;
    }
    Some(v)
}

fn scaled(s: &[u8], start: usize, end: usize) -> (r: Option<u8>)
    requires
        start <= end <= s@.len(),
    ensures
        r == scaled_channel(s@.subrange(start as int, end as int)),
{
    if end - start < 1 || end - start > 4 {
        return None;
    }
    proof {
        lemma_pow16_small();
    }
    match hex_run(s, start, end) {
        None => None,
        Some(v) => {
            let n = end - start;
            let max: u32 = if n == 1 {
                15
            } else if n == 2 {
                255
            } else if n == 3 {
                4095
            } else {
                65535
            };
            assert(max as nat == (pow16(n as nat) - 1) as nat);
            assert(255 * v <= 255 * 65535) by (nonlinear_arith)
                requires
                    v < 65536,
            ;
            Some((255 * v / max) as u8)
        },
    }
}

fn legacy(s: &[u8], start: usize, end: usize) -> (r: u8)
    requires
        start < end <= s@.len(),
        end - start <= 4,
        all_hex(s@.subrange(start as int, end as int)),
    ensures
        r == legacy_channel(s@.subrange(start as int, end as int)),
{
    proof {
        lemma_pow16_small();
    }
    let v = hex_run(s, start, end).unwrap();
    let n = end - start;
    let ghost sub = s@.subrange(start as int, end as int);
    assert(v == hex_value(sub) && sub.len() == n);
    if n == 1 {
        assert(v < 16);
        (v * 16) as u8
    } else if n == 2 {
        assert(v < 256 && pow16(0) == 1);
        assert((sub.len() - 2) as nat == 0nat);
        assert(hex_value(sub) / 1 == hex_value(sub));
        assert(hex_value(sub) / pow16((sub.len() - 2) as nat) == v);
        v as u8
    } else if n == 3 {
        assert(v < 4096 && pow16(1) == 16);
        assert(hex_value(sub) / pow16((sub.len() - 2) as nat) == v / 16);
        (v / 16) as u8
    } else {
        assert(v < 65536 && pow16(2) == 256);
        assert(hex_value(sub) / pow16((sub.len() - 2) as nat) == v / 256);
        (v / 256) as u8
    }
}

/// Parses an XTerm color specification.
pub fn xparse_color(s: &[u8]) -> (r: Option<Rgb>)
    ensures
        r == xparse_color_spec(s@),
{
    if s.len() >= 4 && s[0] == 0x72 && s[1] == 0x67 && s[2] == 0x62 && s[3] == 0x3a {
        proof {
            assert(s@.subrange(0, 4) =~= seq![0x72u8, 0x67u8, 0x62u8, 0x3au8]);
        }
        let ghost t = s@.skip(4);
        let mut slashes: Vec<usize> = Vec::new();
        let mut i: usize = 4;
        while i < s.len()
            invariant
                4 <= i <= s@.len(),
                t == s@.skip(4),
                slashes@.len() == slash_positions(t.take(i - 4)).len(),
                forall|k: int|
                    0 <= k < slashes@.len() ==> slashes@[k] as int == #[trigger] slash_positions(
                        t.take(i - 4),
                    )[k] + 4,
            decreases s.len() - i,
        {
            proof {
                assert(t.take(i - 4 + 1).drop_last() =~= t.take(i - 4));
                assert(t.take(i - 4 + 1).last() == s@[i as int]);
            }
            if s[i] == 0x2f {
                slashes.push(i);
            }
            i = i + 1;
        }
        proof {
            assert(t.take(s.len() - 4) =~= t);
        }
        if slashes.len() != 2 {
            return None;
        }
        let p0 = slashes[0];
        let p1 = slashes[1];
        proof {
            lemma_slash_positions_bounds(t);
            assert(t.subrange(0, p0 - 4) =~= s@.subrange(4, p0 as int));
            assert(t.subrange(p0 - 4 + 1, p1 - 4) =~= s@.subrange(p0 + 1, p1 as int));
            assert(t.subrange(p1 - 4 + 1, t.len() as int) =~= s@.subrange(p1 + 1, s@.len() as int));
        }
        let r = scaled(s, 4, p0);
        let g = scaled(s, p0 + 1, p1);
        let b = scaled(s, p1 + 1, s.len());
        match (r, g, b) {
            (Some(r), Some(g), Some(b)) => Some(Rgb { r, g, b }),
            _ => None,
        }
    } else if s.len() >= 1 && s[0] == 0x23 {
        proof {
            if s.len() >= 4 {
                assert(s@.subrange(0, 4)[0] == s@[0]);
            }
        }
        let len = s.len() - 1;
        if !(len == 3 || len == 6 || len == 9 || len == 12) {
            return None;
        }
        let n = len / 3;
        let ghost t = s@.skip(1);
        match hex_all(s, 1) {
            false => None,
            true => {
                proof {
                    assert forall|a: int, b: int|
                        1 <= a <= b <= s@.len() implies all_hex(s@.subrange(a, b)) by {
                        assert forall|k: int| 0 <= k < b - a implies is_hex(
                            #[trigger] s@.subrange(a, b)[k],
                        ) by {
                            assert(s@.subrange(a, b)[k] == t[a - 1 + k]);
                        }
                    }
                    assert(t.subrange(0, n as int) =~= s@.subrange(1, 1 + n as int));
                    assert(t.subrange(n as int, 2 * n as int) =~= s@.subrange(
                        1 + n as int,
                        1 + 2 * n as int,
                    ));
                    assert(t.subrange(2 * n as int, t.len() as int) =~= s@.subrange(
                        1 + 2 * n as int,
                        s@.len() as int,
                    ));
                }
                Some(
                    Rgb {
                        r: legacy(s, 1, 1 + n),
                        g: legacy(s, 1 + n, 1 + 2 * n),
                        b: legacy(s, 1 + 2 * n, s.len()),
                    },
                )
            },
        }
    } else {
        proof {
            if s.len() >= 4 {
                let q = s@.subrange(0, 4);
                if q == seq![0x72u8, 0x67u8, 0x62u8, 0x3au8] {
                    assert(q[0] == s@[0] && q[1] == s@[1] && q[2] == s@[2] && q[3] == s@[3]);
                }
            }
        }
        None
    }
}

/// Whether every byte of `s[from..]` is a hex digit.
fn hex_all(s: &[u8], from: usize) -> (r: bool)
    requires
        from <= s@.len(),
    ensures
        r == all_hex(s@.skip(from as int)),
{
    let mut i: usize = from;
    while i < s.len()
        invariant
            from <= i <= s@.len(),
            forall|k: int| from <= k < i ==> is_hex(#[trigger] s@[k]),
        decreases s.len() - i,
    {
        if !is_hex_byte(s[i]) {
            assert(s@.skip(from as int)[i - from] == s@[i as int]);
            return false;
        }
        i = i + 1;
    }
    assert forall|k: int| 0 <= k < s@.skip(from as int).len() implies is_hex(
        #[trigger] s@.skip(from as int)[k],
    ) by {
        assert(s@.skip(from as int)[k] == s@[from + k]);
    }
    true
}

proof fn lemma_slash_positions_bounds(t: Seq<u8>)
    ensures
        forall|k: int|
            0 <= k < slash_positions(t).len() ==> 0 <= #[trigger] slash_positions(t)[k] < t.len()
                && t[slash_positions(t)[k]] == 0x2f,
        forall|k: int, m: int|
            0 <= k < m < slash_positions(t).len() ==> #[trigger] slash_positions(t)[k]
                < #[trigger] slash_positions(t)[m],
    decreases t.len(),
{
    if t.len() > 0 {
        lemma_slash_positions_bounds(t.drop_last());
        let p = slash_positions(t.drop_last());
        assert forall|k: int| 0 <= k < p.len() implies t[p[k]] == 0x2f by {
            assert(t.drop_last()[p[k]] == t[p[k]]);
        }
    }
}

} // verus!
