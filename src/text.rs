use vstd::prelude::*;
use vstd::string::StringExecFns;

verus! {

/// The text that a byte string encodes as UTF-8, or `None` where it is not
/// valid UTF-8.
pub uninterp spec fn utf8_text(b: Seq<u8>) -> Option<Seq<char>>;

/// Whether a character has the Unicode `White_Space` property.
pub open spec fn is_white_space(c: char) -> bool {
    let v = c as u32;
    (0x09 <= v <= 0x0d) || v == 0x20 || v == 0x85 || v == 0xa0 || v == 0x1680 || (0x2000 <= v
        <= 0x200a) || v == 0x2028 || v == 0x2029 || v == 0x202f || v == 0x205f || v == 0x3000
}

/// The text without its leading whitespace.
pub open spec fn trim_start(s: Seq<char>) -> Seq<char>
    decreases s.len(),
{
    if s.len() > 0 && is_white_space(s[0]) {
        trim_start(s.skip(1))
    } else {
        s
    }
}

/// The text without its trailing whitespace.
pub open spec fn trim_end(s: Seq<char>) -> Seq<char>
    decreases s.len(),
{
    if s.len() > 0 && is_white_space(s.last()) {
        trim_end(s.drop_last())
    } else {
        s
    }
}

/// The text without its leading and trailing whitespace.
pub open spec fn trimmed(s: Seq<char>) -> Seq<char> {
    trim_end(trim_start(s))
}

/// Relies on `std::str::from_utf8`: `Ok` exactly for valid UTF-8, holding the
/// decoded text.
#[verifier::external_body]
pub(crate) fn decode_utf8(b: &[u8]) -> (r: Option<String>)
    ensures
        r.is_some() == utf8_text(b@).is_some(),
        r.is_some() ==> utf8_text(b@) == Some(r.unwrap()@),
{
    match std::str::from_utf8(b) {
        Ok(s) => Some(s.to_owned()),
        Err(_) => None,
    }
}

/// Relies on `str::trim`: drops the longest prefix and suffix of characters
/// with the `White_Space` property.
#[verifier::external_body]
pub(crate) fn trim_text(s: &str) -> (r: String)
    ensures
        r@ == trimmed(s@),
{
    s.trim().to_owned()
}

/// The texts of those byte strings that are valid UTF-8, in order.
pub open spec fn valid_texts(ps: Seq<Seq<u8>>) -> Seq<Seq<char>>
    decreases ps.len(),
{
    if ps.len() == 0 {
        seq![]
    } else {
        let prev = valid_texts(ps.drop_last());
        match utf8_text(ps.last()) {
            Some(t) => prev.push(t),
            None => prev,
        }
    }
}

/// The texts joined with `;` between neighbours.
pub open spec fn join_semicolon(parts: Seq<Seq<char>>) -> Seq<char>
    decreases parts.len(),
{
    if parts.len() == 0 {
        seq![]
    } else if parts.len() == 1 {
        parts[0]
    } else {
        join_semicolon(parts.drop_last()) + seq![';'] + parts.last()
    }
}

pub open spec fn string_views(v: Seq<String>) -> Seq<Seq<char>> {
    v.map_values(|s: String| s@)
}

/// Joins title fragments with `;` between neighbours.
pub fn join_title_parts(parts: &Vec<String>) -> (r: String)
    ensures
        r@ == join_semicolon(string_views(parts@)),
{
    let mut out = String::new();
    let mut i: usize = 0;
    while i < parts.len()
        invariant
            i <= parts.len(),
            out@ == join_semicolon(string_views(parts@).take(i as int)),
        decreases parts.len() - i,
    {
        let ghost before = out@;
        proof {
            reveal_strlit(";");
        }
        if i > 0 {
            out.append(";");
        }
        out.append(parts[i].as_str());
        proof {
            let vs = string_views(parts@);
            assert(vs.take(i as int + 1).drop_last() == vs.take(i as int));
        }
        i = i + 1;
    }
    proof {
        assert(string_views(parts@).take(parts.len() as int) == string_views(parts@));
    }
    out
}

/// The UTF-8 texts of `ps[from..]`, skipping the invalid ones.
pub(crate) fn decode_valid_texts(ps: &Vec<Vec<u8>>, from: usize) -> (r: Vec<String>)
    requires
        from <= ps.len(),
    ensures
        string_views(r@) == valid_texts(ps@.map_values(|p: Vec<u8>| p@).skip(from as int)),
{
    let ghost all = ps@.map_values(|p: Vec<u8>| p@);
    let mut out: Vec<String> = Vec::new();
    let mut i: usize = from;
    while i < ps.len()
        invariant
            from <= i <= ps.len(),
            all == ps@.map_values(|p: Vec<u8>| p@),
            string_views(out@) == valid_texts(all.subrange(from as int, i as int)),
        decreases ps.len() - i,
    {
        let d = decode_utf8(ps[i].as_slice());
        proof {
            let next = all.subrange(from as int, i as int + 1);
            assert(next.drop_last() == all.subrange(from as int, i as int));
            assert(next.last() == ps@[i as int]@);
        }
        match d {
            Some(t) => {
                let ghost prev = out@;
                let ghost tv = t@;
                out.push(t);
                assert(string_views(out@) =~= string_views(prev).push(tv));
            },
            None => {},
        }
        i = i + 1;
    }
    proof {
        assert(all.subrange(from as int, ps.len() as int) == all.skip(from as int));
    }
    out
}

} // verus!
