//! IPv4 dotted-quad addresses: parsing from strings, the private ranges, and
//! the eligibility predicate that decides which resolved addresses may be
//! scanned.

use crate::text::chars_of;
use vstd::prelude::*;

verus! {

/// An IPv4 address as four octets.
#[derive(Clone, Copy, Debug, PartialEq, Eq, Structural)]
pub struct Ipv4 {
    pub a: u8,
    pub b: u8,
    pub c: u8,
    pub d: u8,
}

/// The fields of `s` split on '.'; splitting the empty sequence gives one
/// empty field.
pub open spec fn split_dot(s: Seq<char>) -> Seq<Seq<char>>
    decreases s.len(),
{
    if s.len() == 0 {
        seq![Seq::<char>::empty()]
    } else if s.last() == '.' {
        split_dot(s.drop_last()).push(Seq::<char>::empty())
    } else {
        let r = split_dot(s.drop_last());
        r.update(r.len() - 1, r.last().push(s.last()))
    }
}

/// Whether `c` is a decimal digit.
pub open spec fn is_digit(c: char) -> bool {
    ('0' as int) <= (c as int) && (c as int) <= ('9' as int)
}

/// The value of a decimal digit.
pub open spec fn digit_val(c: char) -> int {
    c as int - '0' as int
}

/// The decimal value of a field of one to three digits.
pub open spec fn octet_val(f: Seq<char>) -> int {
    if f.len() == 1 {
        digit_val(f[0])
    } else if f.len() == 2 {
        10 * digit_val(f[0]) + digit_val(f[1])
    } else {
        100 * digit_val(f[0]) + 10 * digit_val(f[1]) + digit_val(f[2])
    }
}

/// A well-formed decimal octet: one to three digits, no leading zero, value
/// at most 255.
pub open spec fn valid_octet(f: Seq<char>) -> bool {
    &&& 1 <= f.len() <= 3
    &&& forall|k: int| 0 <= k < f.len() ==> is_digit(#[trigger] f[k])
    &&& f.len() > 1 ==> f[0] != '0'
    &&& octet_val(f) <= 255
}

/// The address that `s` denotes: four well-formed octets separated by dots,
/// or nothing.
pub open spec fn spec_parse_ipv4(s: Seq<char>) -> Option<Ipv4> {
    let fs = split_dot(s);
    if fs.len() == 4 && valid_octet(fs[0]) && valid_octet(fs[1]) && valid_octet(fs[2])
        && valid_octet(fs[3]) {
        Some(
            Ipv4 {
                a: octet_val(fs[0]) as u8,
                b: octet_val(fs[1]) as u8,
                c: octet_val(fs[2]) as u8,
                d: octet_val(fs[3]) as u8,
            },
        )
    } else {
        None
    }
}

/// Whether the address lies in 10.0.0.0/8, 172.16.0.0/12 or 192.168.0.0/16.
pub open spec fn spec_is_private(ip: Ipv4) -> bool {
    ||| ip.a == 10
    ||| ip.a == 172 && 16 <= ip.b && ip.b <= 31
    ||| ip.a == 192 && ip.b == 168
}

/// An address string may be scanned when it is non-empty, parses as IPv4 and
/// is not private.
pub open spec fn spec_eligible(s: Seq<char>) -> bool {
    s.len() > 0 && (spec_parse_ipv4(s) matches Some(ip) && !spec_is_private(ip))
}

/// The views of a sequence of character vectors.
pub open spec fn fields_views(r: Seq<Vec<char>>) -> Seq<Seq<char>> {
    r.map_values(|f: Vec<char>| f@)
}

/// Splits `v` into its '.'-separated fields.
pub fn split_on_dot(v: &Vec<char>) -> (r: Vec<Vec<char>>)
    ensures
        fields_views(r@) == split_dot(v@),
{
    let mut fields: Vec<Vec<char>> = Vec::new();
    let mut cur: Vec<char> = Vec::new();
    let mut i: usize = 0;
    proof {
        assert(v@.take(0) =~= Seq::<char>::empty());
        assert(fields_views(fields@).push(cur@) =~= split_dot(v@.take(0)));
    }
    while i < v.len()
        invariant
            i <= v.len(),
            fields_views(fields@).push(cur@) == split_dot(v@.take(i as int)),
        decreases v.len() - i,
    {
        let ghost old_fields = fields@;
        let ghost old_cur = cur@;
        let ghost r = split_dot(v@.take(i as int));
        let c = v[i];
        proof {
            assert(v@.take(i + 1).drop_last() =~= v@.take(i as int));
            assert(v@.take(i + 1).last() == v@[i as int]);
        }
        if c == '.' {
            fields.push(cur);
            cur = Vec::new();
            proof {
                assert(fields_views(fields@) =~= fields_views(old_fields).push(old_cur));
                assert(fields_views(fields@).push(cur@) =~= r.push(Seq::<char>::empty()));
            }
        } else {
            cur.push(c);
            proof {
                assert(r.last() == old_cur);
                assert(fields_views(fields@).push(cur@) =~= r.update(
                    r.len() - 1,
                    old_cur.push(v@[i as int]),
                ));
            }
        }
        i = i + 1;
    }
    proof {
        assert(v@.take(v@.len() as int) =~= v@);
    }
    fields.push(cur);
    proof {
        assert(fields_views(fields@) =~= split_dot(v@));
    }
    fields
}

/// The value of a digit character.
fn digit_of(c: char) -> (n: u32)
    requires
        is_digit(c),
    ensures
        n as int == digit_val(c),
{
    c as u32 - '0' as u32
}

/// Parses one field as a decimal octet.
fn parse_octet(f: &Vec<char>) -> (r: Option<u8>)
    ensures
        match r {
            Some(n) => valid_octet(f@) && n as int == octet_val(f@),
            None => !valid_octet(f@),
        },
{
    if f.len() == 0 || f.len() > 3 {
        return None;
    }
    let mut i: usize = 0;
    while i < f.len()
        invariant
            i <= f.len(),
            forall|k: int| 0 <= k < i ==> is_digit(#[trigger] f@[k]),
        decreases f.len() - i,
    {
        let c = f[i];
        if c < '0' || c > '9' {
            return None;
        }
        i = i + 1;
    }
    if f.len() > 1 && f[0] == '0' {
        return None;
    }
    let n: u32 = if f.len() == 1 {
        digit_of(f[0])
    } else if f.len() == 2 {
        10 * digit_of(f[0]) + digit_of(f[1])
    } else {
        100 * digit_of(f[0]) + 10 * digit_of(f[1]) + digit_of(f[2])
    };
    if n > 255 {
        None
    } else {
        Some(n as u8)
    }
}

/// Parses a dotted-quad IPv4 address string.
pub fn parse_ipv4(s: &str) -> (r: Option<Ipv4>)
    ensures
        r == spec_parse_ipv4(s@),
{
    let v = chars_of(s);
    let fields = split_on_dot(&v);
    proof {
        assert(fields@.len() == fields_views(fields@).len());
    }
    if fields.len() != 4 {
        return None;
    }
    proof {
        assert(fields_views(fields@)[0] == fields@[0]@);
        assert(fields_views(fields@)[1] == fields@[1]@);
        assert(fields_views(fields@)[2] == fields@[2]@);
        assert(fields_views(fields@)[3] == fields@[3]@);
    }
    let a = match parse_octet(&fields[0]) {
        Some(n) => n,
        None => {
            return None;
        },
    };
    let b = match parse_octet(&fields[1]) {
        Some(n) => n,
        None => {
            return None;
        },
    };
    let c = match parse_octet(&fields[2]) {
        Some(n) => n,
        None => {
            return None;
        },
    };
    let d = match parse_octet(&fields[3]) {
        Some(n) => n,
        None => {
            return None;
        },
    };
    Some(Ipv4 { a, b, c, d })
}

/// Whether the address lies in a private range.
pub fn is_private(ip: &Ipv4) -> (b: bool)
    ensures
        b == spec_is_private(*ip),
{
    ip.a == 10 || (ip.a == 172 && 16 <= ip.b && ip.b <= 31) || (ip.a == 192 && ip.b == 168)
}

/// Decides whether a resolved address string may be handed to the scanner.
pub fn is_eligible_address(s: &String) -> (b: bool)
    ensures
        b == spec_eligible(s@),
{
    if s.as_str().is_empty() {
        return false;
    }
    match parse_ipv4(s.as_str()) {
        Some(ip) => !is_private(&ip),
        None => false,
    }
}

} // verus!
