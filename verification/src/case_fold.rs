//! Unicode simple case folding of text that `str::to_lowercase` has
//! already lowercased.
use vstd::prelude::*;

verus! {

/// The simple case folding (Unicode's `CaseFolding.txt`, statuses C and S)
/// of a character that lowercasing leaves as it is: the micro sign, long s,
/// the Greek symbol forms and final sigma, iota subscripts, the Cyrillic
/// variants of U+1C80..=U+1C88, long s with dot above, three Greek and Latin
/// forms given foldings by Unicode 15.1, and the Cherokee small letters,
/// which fold to the capitals; every other character stays. Lowercasing a
/// text and then folding each character gives its simple case folding,
/// except for U+0130 (capital I with dot above), which simple folding keeps
/// and lowercasing turns into "i" and a combining dot above (its full
/// folding).
pub open spec fn fold_lowercase_char(c: char) -> char {
    let u = c as u32;
    if 0xAB70 <= u <= 0xABBF {
        (u - 0xAB70 + 0x13A0) as char
    } else if 0x13F8 <= u <= 0x13FD {
        (u - 0x13F8 + 0x13F0) as char
    } else if u == 0xB5 {
        '\u{3BC}'
    } else if u == 0x17F {
        's'
    } else if u == 0x345 {
        '\u{3B9}'
    } else if u == 0x3C2 {
        '\u{3C3}'
    } else if u == 0x3D0 {
        '\u{3B2}'
    } else if u == 0x3D1 {
        '\u{3B8}'
    } else if u == 0x3D5 {
        '\u{3C6}'
    } else if u == 0x3D6 {
        '\u{3C0}'
    } else if u == 0x3F0 {
        '\u{3BA}'
    } else if u == 0x3F1 {
        '\u{3C1}'
    } else if u == 0x3F5 {
        '\u{3B5}'
    } else if u == 0x1C80 {
        '\u{432}'
    } else if u == 0x1C81 {
        '\u{434}'
    } else if u == 0x1C82 {
        '\u{43E}'
    } else if u == 0x1C83 {
        '\u{441}'
    } else if u == 0x1C84 {
        '\u{442}'
    } else if u == 0x1C85 {
        '\u{442}'
    } else if u == 0x1C86 {
        '\u{44A}'
    } else if u == 0x1C87 {
        '\u{463}'
    } else if u == 0x1C88 {
        '\u{A64B}'
    } else if u == 0x1E9B {
        '\u{1E61}'
    } else if u == 0x1FBE {
        '\u{3B9}'
    } else if u == 0x1FD3 {
        '\u{390}'
    } else if u == 0x1FE3 {
        '\u{3B0}'
    } else if u == 0xFB05 {
        '\u{FB06}'
    } else {
        c
    }
}

/// Folds each character of a lowercased text.
pub open spec fn fold_lowercase(s: Seq<char>) -> Seq<char> {
    s.map_values(|c: char| fold_lowercase_char(c))
}

fn fold_cherokee_0(c: char) -> (r: char)
    requires
        0xAB70 <= c as u32 <= 0xAB83,
    ensures
        r == fold_lowercase_char(c),
{
    match c {
        '\u{AB70}' => '\u{13A0}',
        '\u{AB71}' => '\u{13A1}',
        '\u{AB72}' => '\u{13A2}',
        '\u{AB73}' => '\u{13A3}',
        '\u{AB74}' => '\u{13A4}',
        '\u{AB75}' => '\u{13A5}',
        '\u{AB76}' => '\u{13A6}',
        '\u{AB77}' => '\u{13A7}',
        '\u{AB78}' => '\u{13A8}',
        '\u{AB79}' => '\u{13A9}',
        '\u{AB7A}' => '\u{13AA}',
        '\u{AB7B}' => '\u{13AB}',
        '\u{AB7C}' => '\u{13AC}',
        '\u{AB7D}' => '\u{13AD}',
        '\u{AB7E}' => '\u{13AE}',
        '\u{AB7F}' => '\u{13AF}',
        '\u{AB80}' => '\u{13B0}',
        '\u{AB81}' => '\u{13B1}',
        '\u{AB82}' => '\u{13B2}',
        '\u{AB83}' => '\u{13B3}',
        _ => c,
    }
}

fn fold_cherokee_1(c: char) -> (r: char)
    requires
        0xAB84 <= c as u32 <= 0xAB97,
    ensures
        r == fold_lowercase_char(c),
{
    match c {
        '\u{AB84}' => '\u{13B4}',
        '\u{AB85}' => '\u{13B5}',
        '\u{AB86}' => '\u{13B6}',
        '\u{AB87}' => '\u{13B7}',
        '\u{AB88}' => '\u{13B8}',
        '\u{AB89}' => '\u{13B9}',
        '\u{AB8A}' => '\u{13BA}',
        '\u{AB8B}' => '\u{13BB}',
        '\u{AB8C}' => '\u{13BC}',
        '\u{AB8D}' => '\u{13BD}',
        '\u{AB8E}' => '\u{13BE}',
        '\u{AB8F}' => '\u{13BF}',
        '\u{AB90}' => '\u{13C0}',
        '\u{AB91}' => '\u{13C1}',
        '\u{AB92}' => '\u{13C2}',
        '\u{AB93}' => '\u{13C3}',
        '\u{AB94}' => '\u{13C4}',
        '\u{AB95}' => '\u{13C5}',
        '\u{AB96}' => '\u{13C6}',
        '\u{AB97}' => '\u{13C7}',
        _ => c,
    }
}

fn fold_cherokee_2(c: char) -> (r: char)
    requires
        0xAB98 <= c as u32 <= 0xABAB,
    ensures
        r == fold_lowercase_char(c),
{
    match c {
        '\u{AB98}' => '\u{13C8}',
        '\u{AB99}' => '\u{13C9}',
        '\u{AB9A}' => '\u{13CA}',
        '\u{AB9B}' => '\u{13CB}',
        '\u{AB9C}' => '\u{13CC}',
        '\u{AB9D}' => '\u{13CD}',
        '\u{AB9E}' => '\u{13CE}',
        '\u{AB9F}' => '\u{13CF}',
        '\u{ABA0}' => '\u{13D0}',
        '\u{ABA1}' => '\u{13D1}',
        '\u{ABA2}' => '\u{13D2}',
        '\u{ABA3}' => '\u{13D3}',
        '\u{ABA4}' => '\u{13D4}',
        '\u{ABA5}' => '\u{13D5}',
        '\u{ABA6}' => '\u{13D6}',
        '\u{ABA7}' => '\u{13D7}',
        '\u{ABA8}' => '\u{13D8}',
        '\u{ABA9}' => '\u{13D9}',
        '\u{ABAA}' => '\u{13DA}',
        '\u{ABAB}' => '\u{13DB}',
        _ => c,
    }
}

fn fold_cherokee_3(c: char) -> (r: char)
    requires
        0xABAC <= c as u32 <= 0xABBF,
    ensures
        r == fold_lowercase_char(c),
{
    match c {
        '\u{ABAC}' => '\u{13DC}',
        '\u{ABAD}' => '\u{13DD}',
        '\u{ABAE}' => '\u{13DE}',
        '\u{ABAF}' => '\u{13DF}',
        '\u{ABB0}' => '\u{13E0}',
        '\u{ABB1}' => '\u{13E1}',
        '\u{ABB2}' => '\u{13E2}',
        '\u{ABB3}' => '\u{13E3}',
        '\u{ABB4}' => '\u{13E4}',
        '\u{ABB5}' => '\u{13E5}',
        '\u{ABB6}' => '\u{13E6}',
        '\u{ABB7}' => '\u{13E7}',
        '\u{ABB8}' => '\u{13E8}',
        '\u{ABB9}' => '\u{13E9}',
        '\u{ABBA}' => '\u{13EA}',
        '\u{ABBB}' => '\u{13EB}',
        '\u{ABBC}' => '\u{13EC}',
        '\u{ABBD}' => '\u{13ED}',
        '\u{ABBE}' => '\u{13EE}',
        '\u{ABBF}' => '\u{13EF}',
        _ => c,
    }
}

/// Folds one character of a lowercased text (see `fold_lowercase_char`).
pub fn fold_char(c: char) -> (r: char)
    ensures
        r == fold_lowercase_char(c),
{
    let u = c as u32;
    if 0xAB70 <= u && u <= 0xABBF {
        if u < 0xAB84 {
            fold_cherokee_0(c)
        } else if u < 0xAB98 {
            fold_cherokee_1(c)
        } else if u < 0xABAC {
            fold_cherokee_2(c)
        } else {
            fold_cherokee_3(c)
        }
    } else {
        match c {
            '\u{B5}' => '\u{3BC}',
            '\u{17F}' => 's',
            '\u{345}' => '\u{3B9}',
            '\u{3C2}' => '\u{3C3}',
            '\u{3D0}' => '\u{3B2}',
            '\u{3D1}' => '\u{3B8}',
            '\u{3D5}' => '\u{3C6}',
            '\u{3D6}' => '\u{3C0}',
            '\u{3F0}' => '\u{3BA}',
            '\u{3F1}' => '\u{3C1}',
            '\u{3F5}' => '\u{3B5}',
            '\u{1C80}' => '\u{432}',
            '\u{1C81}' => '\u{434}',
            '\u{1C82}' => '\u{43E}',
            '\u{1C83}' => '\u{441}',
            '\u{1C84}' => '\u{442}',
            '\u{1C85}' => '\u{442}',
            '\u{1C86}' => '\u{44A}',
            '\u{1C87}' => '\u{463}',
            '\u{1C88}' => '\u{A64B}',
            '\u{1E9B}' => '\u{1E61}',
            '\u{1FBE}' => '\u{3B9}',
            '\u{1FD3}' => '\u{390}',
            '\u{1FE3}' => '\u{3B0}',
            '\u{FB05}' => '\u{FB06}',
            '\u{13F8}' => '\u{13F0}',
            '\u{13F9}' => '\u{13F1}',
            '\u{13FA}' => '\u{13F2}',
            '\u{13FB}' => '\u{13F3}',
            '\u{13FC}' => '\u{13F4}',
            '\u{13FD}' => '\u{13F5}',
            _ => c,
        }
    }
}

/// Folds each character of a lowercased text.
pub fn fold_chars(s: &Vec<char>) -> (r: Vec<char>)
    ensures
        r@ == fold_lowercase(s@),
{
    let mut out: Vec<char> = Vec::new();
    let mut i: usize = 0;
    while i < s.len()
        invariant
            i <= s@.len(),
            out@ == fold_lowercase(s@.take(i as int)),
        decreases s@.len() - i,
    {
        out.push(fold_char(s[i]));
        assert(fold_lowercase(s@.take(i + 1)) =~= fold_lowercase(s@.take(i as int)).push(
            fold_lowercase_char(s@[i as int]),
        ));
        i += 1;
    }
    assert(s@.take(s@.len() as int) =~= s@);
    out
}

} // verus!
