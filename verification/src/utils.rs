use vstd::prelude::*;

verus! {

/// Whether `u` is a code unit that opens a surrogate pair.
pub open spec fn is_high_surrogate(u: u16) -> bool {
    0xD800 <= u <= 0xDBFF
}

/// Whether `u` is a code unit that closes a surrogate pair.
pub open spec fn is_low_surrogate(u: u16) -> bool {
    0xDC00 <= u <= 0xDFFF
}

/// Whether `v` is a Unicode scalar value.
pub open spec fn is_scalar_value(v: u32) -> bool {
    v <= 0xD7FF || 0xE000 <= v <= 0x10FFFF
}

/// The scalar value that the surrogate pair `hi`, `lo` encodes.
pub open spec fn pair_scalar(hi: u16, lo: u16) -> int {
    0x10000 + (hi - 0xD800) * 0x400 + (lo - 0xDC00)
}

/// Whether `s` is well-formed UTF-16: every surrogate is part of a pair of a
/// high surrogate directly followed by a low one.
pub open spec fn wide_well_formed(s: Seq<u16>) -> bool
    decreases s.len(),
{
    if s.len() == 0 {
        true
    } else if !is_high_surrogate(s[0]) && !is_low_surrogate(s[0]) {
        wide_well_formed(s.skip(1))
    } else {
        &&& is_high_surrogate(s[0])
        &&& s.len() >= 2
        &&& is_low_surrogate(s[1])
        &&& wide_well_formed(s.skip(2))
    }
}

/// The characters that well-formed UTF-16 text `s` encodes.
pub open spec fn wide_decode(s: Seq<u16>) -> Seq<char>
    decreases s.len(),
{
    if s.len() == 0 {
        Seq::empty()
    } else if !is_high_surrogate(s[0]) && !is_low_surrogate(s[0]) {
        seq![(s[0] as u32) as char] + wide_decode(s.skip(1))
    } else if s.len() >= 2 {
        seq![(pair_scalar(s[0], s[1]) as u32) as char] + wide_decode(s.skip(2))
    } else {
        Seq::empty()
    }
}

/// `char::from_u32` of std: `Some` exactly for the Unicode scalar values, and
/// then the character whose code point is `v`.
#[verifier::external_body]
fn char_from_scalar(v: u32) -> (r: Option<char>)
    ensures
        r is Some <==> is_scalar_value(v),
        r is Some ==> r->0 as u32 == v,
{
    char::from_u32(v)
}

/// `String::push` of std: appends `c` to the end of `s`.
#[verifier::external_body]
fn push_char(s: &mut String, c: char)
    ensures
        final(s)@ == old(s)@.push(c),
{
    s.push(c)
}

/// Tells whether `s` is well-formed UTF-16.
pub fn is_well_formed_wide(s: &[u16]) -> (b: bool)
    ensures
        b == wide_well_formed(s@),
{
    let mut i: usize = 0;
    assert(s@.skip(0) =~= s@);
    while i < s.len()
        invariant
            i <= s.len(),
            wide_well_formed(s@) == wide_well_formed(s@.skip(i as int)),
        decreases s.len() - i,
    {
        let u: u16 = s[i];
        let ghost rest = s@.skip(i as int);
        assert(rest.len() == s.len() - i && rest[0] == u);
        if u < 0xD800 || u > 0xDFFF {
            assert(rest.skip(1) =~= s@.skip(i + 1));
            i += 1;
        } else if u <= 0xDBFF && i + 1 < s.len() && 0xDC00 <= s[i + 1] && s[i + 1] <= 0xDFFF {
            assert(rest[1] == s[i + 1]);
            assert(rest.skip(2) =~= s@.skip(i + 2));
            i += 2;
        } else {
            assert(rest.len() >= 2 ==> rest[1] == s[i + 1]);
            return false;
        }
    }
    assert(s@.skip(i as int).len() == 0);
    true
}

/// Decodes UTF-16 text: `Some` exactly when `s` is well-formed, and then the
/// string of the characters it encodes.
pub fn try_string_from_wide(s: &[u16]) -> (r: Option<String>)
    ensures
        r is Some <==> wide_well_formed(s@),
        r is Some ==> r->0@ == wide_decode(s@),
{
    let mut out = String::new();
    let mut i: usize = 0;
    assert(s@.skip(0) =~= s@);
    assert(out@ + wide_decode(s@) =~= wide_decode(s@));
    while i < s.len()
        invariant
            i <= s.len(),
            wide_well_formed(s@) == wide_well_formed(s@.skip(i as int)),
            wide_decode(s@) == out@ + wide_decode(s@.skip(i as int)),
        decreases s.len() - i,
    {
        let u: u16 = s[i];
        let ghost rest = s@.skip(i as int);
        let ghost before = out@;
        assert(rest.len() == s.len() - i && rest[0] == u);
        if u < 0xD800 || u > 0xDFFF {
            match char_from_scalar(u as u32) {
                Some(c) => {
                    push_char(&mut out, c);
                    proof {
                        vstd::utf8::char_u32_cast(c, u as u32);
                    }
                },
                None => {
                    return None;
                },
            }
            assert(rest.skip(1) =~= s@.skip(i + 1));
            assert(out@ + wide_decode(s@.skip(i + 1)) =~= before + wide_decode(rest));
            i += 1;
        } else if u <= 0xDBFF && i + 1 < s.len() && 0xDC00 <= s[i + 1] && s[i + 1] <= 0xDFFF {
            let lo: u16 = s[i + 1];
            assert(rest[1] == lo);
            let v: u32 = 0x10000 + ((u - 0xD800) as u32) * 0x400 + ((lo - 0xDC00) as u32);
            assert(v == pair_scalar(u, lo));
            match char_from_scalar(v) {
                Some(c) => {
                    push_char(&mut out, c);
                    proof {
                        vstd::utf8::char_u32_cast(c, v);
                    }
                },
                None => {
                    return None;
                },
            }
            assert(rest.skip(2) =~= s@.skip(i + 2));
            assert(out@ + wide_decode(s@.skip(i + 2)) =~= before + wide_decode(rest));
            i += 2;
        } else {
            assert(rest.len() >= 2 ==> rest[1] == s[i + 1]);
            return None;
        }
    }
    assert(s@.skip(i as int).len() == 0);
    assert(out@ + Seq::<char>::empty() =~= out@);
    Some(out)
}

/// The string that the well-formed UTF-16 text `s` encodes.
pub fn string_from_wide(s: &[u16]) -> (text: String)
    requires
        wide_well_formed(s@),
    ensures
        text@ == wide_decode(s@),
{
    match try_string_from_wide(s) {
        Some(text) => text,
        None => String::new(),
    }
}

} // verus!
