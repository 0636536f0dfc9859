//! IP addresses as plain values: the text grammar for IPv4 and IPv6
//! addresses, a verified parser, canonical text formatting, and the
//! loopback predicate.

use vstd::prelude::*;

verus! {

use vstd::string::StrSliceExecFns;
use vstd::string::StringSliceAdditionalSpecFns;

/// A parsed IP address. An IPv4 address holds its four octets; an IPv6
/// address holds its eight 16-bit groups.
#[derive(Clone, Copy, PartialEq, Eq, Structural, Debug)]
pub enum IpAddress {
    V4 { o1: u8, o2: u8, o3: u8, o4: u8 },
    V6 { g0: u16, g1: u16, g2: u16, g3: u16, g4: u16, g5: u16, g6: u16, g7: u16 },
}

pub open spec fn is_digit(c: u8) -> bool {
    48 <= c <= 57
}

pub open spec fn digit_val(c: u8) -> int {
    c - 48
}

pub open spec fn is_hex_digit(c: u8) -> bool {
    is_digit(c) || (97 <= c <= 102) || (65 <= c <= 70)
}

pub open spec fn hex_digit_val(c: u8) -> int {
    if is_digit(c) {
        c - 48
    } else if 97 <= c <= 102 {
        c - 87
    } else {
        c - 55
    }
}

/// The first index at or after `i` that does not hold a decimal digit.
pub open spec fn digits_end(b: Seq<u8>, i: int) -> int
    decreases b.len() - i
    when 0 <= i <= b.len()
{
    if i >= b.len() || !is_digit(b[i]) {
        i
    } else {
        digits_end(b, i + 1)
    }
}

/// The value of the decimal digits in `[i, j)`.
pub open spec fn dec_val(b: Seq<u8>, i: int, j: int) -> int
    decreases j - i
    when i <= j
{
    if j <= i {
        0
    } else {
        dec_val(b, i, j - 1) * 10 + digit_val(b[j - 1])
    }
}

/// A decimal octet starts at `i` and ends at `j`: one to three digits,
/// no leading zero unless the octet is exactly `0`, value at most 255.
pub open spec fn valid_octet(b: Seq<u8>, i: int, j: int) -> bool {
    1 <= j - i <= 3 && (j - i > 1 ==> b[i] != 48) && dec_val(b, i, j) <= 255
}

/// Parse a decimal octet at `i`: its value and the index just past it.
pub open spec fn octet_at(b: Seq<u8>, i: int) -> Option<(u8, int)>
    recommends 0 <= i <= b.len()
{
    let j = digits_end(b, i);
    if valid_octet(b, i, j) {
        Some((dec_val(b, i, j) as u8, j))
    } else {
        None
    }
}

/// Parse a dotted quad spanning from `i` to the end of the text.
pub open spec fn spec_ipv4_at(b: Seq<u8>, i: int) -> Option<(u8, u8, u8, u8)>
    recommends 0 <= i <= b.len()
{
    match octet_at(b, i) {
        None => None,
        Some((x1, j1)) => if j1 < b.len() && b[j1] == 46 {
            match octet_at(b, j1 + 1) {
                None => None,
                Some((x2, j2)) => if j2 < b.len() && b[j2] == 46 {
                    match octet_at(b, j2 + 1) {
                        None => None,
                        Some((x3, j3)) => if j3 < b.len() && b[j3] == 46 {
                            match octet_at(b, j3 + 1) {
                                None => None,
                                Some((x4, j4)) => if j4 == b.len() {
                                    Some((x1, x2, x3, x4))
                                } else {
                                    None
                                },
                            }
                        } else {
                            None
                        },
                    }
                } else {
                    None
                },
            }
        } else {
            None
        },
    }
}

/// The whole text is an IPv4 address.
pub open spec fn spec_parse_ipv4(b: Seq<u8>) -> Option<(u8, u8, u8, u8)> {
    spec_ipv4_at(b, 0)
}

/// The first index at or after `i` that does not hold a hexadecimal digit.
pub open spec fn hex_end(b: Seq<u8>, i: int) -> int
    decreases b.len() - i
    when 0 <= i <= b.len()
{
    if i >= b.len() || !is_hex_digit(b[i]) {
        i
    } else {
        hex_end(b, i + 1)
    }
}

/// The value of the hexadecimal digits in `[i, j)`.
pub open spec fn hex_val(b: Seq<u8>, i: int, j: int) -> int
    decreases j - i
    when i <= j
{
    if j <= i {
        0
    } else {
        hex_val(b, i, j - 1) * 16 + hex_digit_val(b[j - 1])
    }
}

/// Parse one hexadecimal group (one to four hex digits) at `i`:
/// its value and the index just past it.
pub open spec fn group_at(b: Seq<u8>, i: int) -> Option<(u16, int)>
    recommends 0 <= i <= b.len()
{
    let j = hex_end(b, i);
    if 1 <= j - i <= 4 {
        Some((hex_val(b, i, j) as u16, j))
    } else {
        None
    }
}

/// Parse the colon-separated groups spanning `[i, end)`. The final piece
/// may be an embedded dotted quad (standing for two groups) only when the
/// span runs to the end of the whole text, where an IPv4 tail is allowed.
pub open spec fn groups_from(b: Seq<u8>, i: int, end: int) -> Option<Seq<u16>>
    decreases end - i
    when 0 <= i <= end <= b.len()
{
    let v4 = if end == b.len() {
        spec_ipv4_at(b, i)
    } else {
        None
    };
    match v4 {
        Some((x1, x2, x3, x4)) => Some(
            seq![((x1 as int) * 256 + (x2 as int)) as u16, ((x3 as int) * 256 + (x4 as int)) as u16],
        ),
        None => match group_at(b, i) {
            None => None,
            Some((v, j)) => if j == end {
                Some(seq![v])
            } else if i < j && j < end && b[j] == 58 {
                match groups_from(b, j + 1, end) {
                    None => None,
                    Some(rest) => Some(seq![v] + rest),
                }
            } else {
                None
            },
        },
    }
}

/// The first index at or after `i` where a double colon starts, or the
/// length of the text if there is none.
pub open spec fn dcolon_idx(b: Seq<u8>, i: int) -> int
    decreases b.len() - i
    when 0 <= i <= b.len()
{
    if i + 1 >= b.len() {
        b.len() as int
    } else if b[i] == 58 && b[i + 1] == 58 {
        i
    } else {
        dcolon_idx(b, i + 1)
    }
}

pub open spec fn zero_groups(n: int) -> Seq<u16> {
    Seq::new(n as nat, |k: int| 0u16)
}

/// The whole text is an IPv6 address: either eight groups with no double
/// colon, or a double colon standing for the missing all-zero groups, with
/// at most seven written groups around it.
pub open spec fn spec_parse_ipv6(b: Seq<u8>) -> Option<Seq<u16>> {
    let d = dcolon_idx(b, 0);
    if d == b.len() {
        match groups_from(b, 0, b.len() as int) {
            Some(g) => if g.len() == 8 {
                Some(g)
            } else {
                None
            },
            None => None,
        }
    } else {
        let left = if d == 0 {
            Some(Seq::<u16>::empty())
        } else {
            groups_from(b, 0, d)
        };
        let right = if d + 2 == b.len() {
            Some(Seq::<u16>::empty())
        } else {
            groups_from(b, d + 2, b.len() as int)
        };
        match (left, right) {
            (Some(l), Some(r)) => if l.len() + r.len() <= 7 {
                Some(l + zero_groups(8 - l.len() - r.len()) + r)
            } else {
                None
            },
            _ => None,
        }
    }
}

/// The IP-address grammar over the UTF-8 bytes of the request text:
/// a dotted quad, or else an IPv6 address.
pub open spec fn spec_parse_ip(b: Seq<u8>) -> Option<IpAddress> {
    match spec_parse_ipv4(b) {
        Some((x1, x2, x3, x4)) => Some(IpAddress::V4 { o1: x1, o2: x2, o3: x3, o4: x4 }),
        None => match spec_parse_ipv6(b) {
            Some(g) => Some(
                IpAddress::V6 {
                    g0: g[0],
                    g1: g[1],
                    g2: g[2],
                    g3: g[3],
                    g4: g[4],
                    g5: g[5],
                    g6: g[6],
                    g7: g[7],
                },
            ),
            None => None,
        },
    }
}

pub open spec fn spec_p10(n: int) -> int
    decreases n
    when n >= 0
{
    if n <= 0 {
        1
    } else {
        10 * spec_p10(n - 1)
    }
}

pub open spec fn spec_p16(n: int) -> int
    decreases n
    when n >= 0
{
    if n <= 0 {
        1
    } else {
        16 * spec_p16(n - 1)
    }
}

proof fn lemma_digits_end(b: Seq<u8>, i: int)
    requires
        0 <= i <= b.len(),
    ensures
        i <= digits_end(b, i) <= b.len(),
        forall|k: int| i <= k < digits_end(b, i) ==> is_digit(b[k]),
        digits_end(b, i) < b.len() ==> !is_digit(b[digits_end(b, i)]),
    decreases b.len() - i,
{
    if i < b.len() && is_digit(b[i]) {
        lemma_digits_end(b, i + 1);
    }
}

proof fn lemma_hex_end(b: Seq<u8>, i: int)
    requires
        0 <= i <= b.len(),
    ensures
        i <= hex_end(b, i) <= b.len(),
        forall|k: int| i <= k < hex_end(b, i) ==> is_hex_digit(b[k]),
        hex_end(b, i) < b.len() ==> !is_hex_digit(b[hex_end(b, i)]),
    decreases b.len() - i,
{
    if i < b.len() && is_hex_digit(b[i]) {
        lemma_hex_end(b, i + 1);
    }
}

proof fn lemma_dec_val_bound(b: Seq<u8>, i: int, j: int)
    requires
        0 <= i <= j <= b.len(),
        forall|k: int| i <= k < j ==> is_digit(b[k]),
    ensures
        0 <= dec_val(b, i, j) < spec_p10(j - i),
    decreases j - i,
{
    if j > i {
        lemma_dec_val_bound(b, i, j - 1);
    }
}

proof fn lemma_hex_val_bound(b: Seq<u8>, i: int, j: int)
    requires
        0 <= i <= j <= b.len(),
        forall|k: int| i <= k < j ==> is_hex_digit(b[k]),
    ensures
        0 <= hex_val(b, i, j) < spec_p16(j - i),
    decreases j - i,
{
    if j > i {
        lemma_hex_val_bound(b, i, j - 1);
    }
}

fn is_digit_x(c: u8) -> (r: bool)
    ensures
        r == is_digit(c),
{
    48 <= c && c <= 57
}

fn is_hex_digit_x(c: u8) -> (r: bool)
    ensures
        r == is_hex_digit(c),
{
    (48 <= c && c <= 57) || (97 <= c && c <= 102) || (65 <= c && c <= 70)
}

fn digits_end_x(b: &Vec<u8>, i: usize) -> (r: usize)
    requires
        i <= b.len(),
    ensures
        r == digits_end(b@, i as int),
        i <= r <= b.len(),
    decreases b.len() - i,
{
    if i < b.len() && is_digit_x(b[i]) {
        digits_end_x(b, i + 1)
    } else {
        i
    }
}

fn hex_end_x(b: &Vec<u8>, i: usize) -> (r: usize)
    requires
        i <= b.len(),
    ensures
        r == hex_end(b@, i as int),
        i <= r <= b.len(),
    decreases b.len() - i,
{
    if i < b.len() && is_hex_digit_x(b[i]) {
        hex_end_x(b, i + 1)
    } else {
        i
    }
}

fn dec_val_x(b: &Vec<u8>, i: usize, j: usize) -> (r: u16)
    requires
        i <= j <= b.len(),
        j - i <= 3,
        forall|k: int| i <= k < j ==> is_digit(b@[k]),
    ensures
        r == dec_val(b@, i as int, j as int),
        r < spec_p10(j - i),
    decreases j - i,
{
    proof {
        lemma_dec_val_bound(b@, i as int, j as int);
        assert(spec_p10(0) == 1);
        assert(spec_p10(1) == 10);
        assert(spec_p10(2) == 100);
        assert(spec_p10(3) == 1000);
    }
    if j <= i {
        0
    } else {
        let hi = dec_val_x(b, i, j - 1);
        hi * 10 + ((b[j - 1] - 48) as u16)
    }
}

fn hex_val_x(b: &Vec<u8>, i: usize, j: usize) -> (r: u16)
    requires
        i <= j <= b.len(),
        j - i <= 4,
        forall|k: int| i <= k < j ==> is_hex_digit(b@[k]),
    ensures
        r == hex_val(b@, i as int, j as int),
        r < spec_p16(j - i),
    decreases j - i,
{
    proof {
        lemma_hex_val_bound(b@, i as int, j as int);
        assert(spec_p16(0) == 1);
        assert(spec_p16(1) == 16);
        assert(spec_p16(2) == 256);
        assert(spec_p16(3) == 4096);
        assert(spec_p16(4) == 65536);
    }
    if j <= i {
        0
    } else {
        let hi = hex_val_x(b, i, j - 1);
        let c = b[j - 1];
        let d: u16 = if 48 <= c && c <= 57 {
            (c - 48) as u16
        } else if 97 <= c && c <= 102 {
            (c - 87) as u16
        } else {
            (c - 55) as u16
        };
        hi * 16 + d
    }
}

fn octet_at_x(b: &Vec<u8>, i: usize) -> (r: Option<(u8, usize)>)
    requires
        i <= b.len(),
    ensures
        match r {
            Some(p) => octet_at(b@, i as int) == Some((p.0, p.1 as int)) && i < p.1 <= b.len(),
            None => octet_at(b@, i as int) is None,
        },
{
    let j = digits_end_x(b, i);
    proof {
        lemma_digits_end(b@, i as int);
    }
    if 1 <= j - i && j - i <= 3 {
        let v = dec_val_x(b, i, j);
        if v <= 255 && !(j - i > 1 && b[i] == 48) {
            Some(((v as u8), j))
        } else {
            None
        }
    } else {
        None
    }
}

fn group_at_x(b: &Vec<u8>, i: usize) -> (r: Option<(u16, usize)>)
    requires
        i <= b.len(),
    ensures
        match r {
            Some(p) => group_at(b@, i as int) == Some((p.0, p.1 as int)) && i < p.1 <= b.len(),
            None => group_at(b@, i as int) is None,
        },
{
    let j = hex_end_x(b, i);
    proof {
        lemma_hex_end(b@, i as int);
    }
    if 1 <= j - i && j - i <= 4 {
        let v = hex_val_x(b, i, j);
        Some((v, j))
    } else {
        None
    }
}

fn parse_ipv4_at(b: &Vec<u8>, i: usize) -> (r: Option<(u8, u8, u8, u8)>)
    requires
        i <= b.len(),
    ensures
        r == spec_ipv4_at(b@, i as int),
{
    let o1 = match octet_at_x(b, i) {
        None => {
            return None;
        },
        Some(p) => p,
    };
    if !(o1.1 < b.len() && b[o1.1] == 46) {
        return None;
    }
    let o2 = match octet_at_x(b, o1.1 + 1) {
        None => {
            return None;
        },
        Some(p) => p,
    };
    if !(o2.1 < b.len() && b[o2.1] == 46) {
        return None;
    }
    let o3 = match octet_at_x(b, o2.1 + 1) {
        None => {
            return None;
        },
        Some(p) => p,
    };
    if !(o3.1 < b.len() && b[o3.1] == 46) {
        return None;
    }
    let o4 = match octet_at_x(b, o3.1 + 1) {
        None => {
            return None;
        },
        Some(p) => p,
    };
    if o4.1 == b.len() {
        Some((o1.0, o2.0, o3.0, o4.0))
    } else {
        None
    }
}

fn groups_from_x(b: &Vec<u8>, i: usize, end: usize) -> (r: Option<Vec<u16>>)
    requires
        i <= end <= b.len(),
    ensures
        match r {
            Some(v) => groups_from(b@, i as int, end as int) == Some(v@),
            None => groups_from(b@, i as int, end as int) is None,
        },
    decreases end - i,
{
    if end == b.len() {
        match parse_ipv4_at(b, i) {
            Some((x1, x2, x3, x4)) => {
                let g1: u16 = (x1 as u16) * 256 + (x2 as u16);
                let g2: u16 = (x3 as u16) * 256 + (x4 as u16);
                let out: Vec<u16> = vec![g1, g2];
                proof {
                    assert(out@ =~= seq![g1, g2]);
                }
                return Some(out);
            },
            None => {},
        }
    }
    match group_at_x(b, i) {
        None => None,
        Some((v, j)) => {
            if j == end {
                let out: Vec<u16> = vec![v];
                proof {
                    assert(out@ =~= seq![v]);
                }
                Some(out)
            } else if j < end && b[j] == 58 {
                match groups_from_x(b, j + 1, end) {
                    None => None,
                    Some(mut rest) => {
                        rest.insert(0, v);
                        proof {
                            assert(rest@ =~= seq![v] + rest@.subrange(1, rest@.len() as int));
                        }
                        Some(rest)
                    },
                }
            } else {
                None
            }
        },
    }
}

fn dcolon_idx_x(b: &Vec<u8>, i: usize) -> (r: usize)
    requires
        i <= b.len(),
    ensures
        r == dcolon_idx(b@, i as int),
        i <= r <= b.len(),
        r < b.len() ==> r + 1 < b.len() && b@[r as int] == 58 && b@[r + 1] == 58,
    decreases b.len() - i,
{
    if b.len() - i <= 1 {
        b.len()
    } else if b[i] == 58 && b[i + 1] == 58 {
        i
    } else {
        dcolon_idx_x(b, i + 1)
    }
}

fn parse_ipv6_bytes(b: &Vec<u8>) -> (r: Option<Vec<u16>>)
    ensures
        match r {
            Some(v) => spec_parse_ipv6(b@) == Some(v@) && v@.len() == 8,
            None => spec_parse_ipv6(b@) is None,
        },
{
    let d = dcolon_idx_x(b, 0);
    if d == b.len() {
        match groups_from_x(b, 0, b.len()) {
            Some(g) => {
                if g.len() == 8 {
                    Some(g)
                } else {
                    None
                }
            },
            None => None,
        }
    } else {
        let left: Option<Vec<u16>> = if d == 0 {
            let e: Vec<u16> = Vec::new();
            proof {
                assert(e@ =~= Seq::<u16>::empty());
            }
            Some(e)
        } else {
            groups_from_x(b, 0, d)
        };
        let l = match left {
            None => {
                return None;
            },
            Some(l) => l,
        };
        let right: Option<Vec<u16>> = if b.len() - d == 2 {
            let e: Vec<u16> = Vec::new();
            proof {
                assert(e@ =~= Seq::<u16>::empty());
            }
            Some(e)
        } else {
            groups_from_x(b, d + 2, b.len())
        };
        let rg = match right {
            None => {
                return None;
            },
            Some(rg) => rg,
        };
        if l.len() <= 7 && rg.len() <= 7 && l.len() + rg.len() <= 7 {
            let ghost lv = l@;
            let ghost rv = rg@;
            let zeros: usize = 8 - l.len() - rg.len();
            let mut out = l;
            let mut z: usize = 0;
            while z < zeros
                invariant
                    z <= zeros,
                    out@ =~= lv + zero_groups(z as int),
                decreases zeros - z,
            {
                out.push(0u16);
                z = z + 1;
                proof {
                    assert(out@ =~= lv + zero_groups(z as int));
                }
            }
            let mut k: usize = 0;
            while k < rg.len()
                invariant
                    k <= rg.len(),
                    rg@ == rv,
                    out@ =~= lv + zero_groups(zeros as int) + rv.subrange(0, k as int),
                decreases rg.len() - k,
            {
                out.push(rg[k]);
                k = k + 1;
                proof {
                    assert(out@ =~= lv + zero_groups(zeros as int) + rv.subrange(0, k as int));
                }
            }
            proof {
                assert(rv.subrange(0, rv.len() as int) =~= rv);
                assert(out@ =~= lv + zero_groups(zeros as int) + rv);
            }
            Some(out)
        } else {
            None
        }
    }
}

/// Parse the text as an IPv4 or IPv6 address, over the UTF-8 bytes of
/// the text. Returns `None` exactly when the text matches neither grammar.
pub fn parse_ip_bytes(b: &Vec<u8>) -> (r: Option<IpAddress>)
    ensures
        r == spec_parse_ip(b@),
{
    match parse_ipv4_at(b, 0) {
        Some((x1, x2, x3, x4)) => Some(IpAddress::V4 { o1: x1, o2: x2, o3: x3, o4: x4 }),
        None => match parse_ipv6_bytes(b) {
            Some(g) => Some(
                IpAddress::V6 {
                    g0: g[0],
                    g1: g[1],
                    g2: g[2],
                    g3: g[3],
                    g4: g[4],
                    g5: g[5],
                    g6: g[6],
                    g7: g[7],
                },
            ),
            None => None,
        },
    }
}

/// Parse a request string as an IPv4 or IPv6 address.
pub fn parse_ip(s: &str) -> (r: Option<IpAddress>)
    ensures
        r == spec_parse_ip(s.spec_bytes()),
{
    let b = s.as_bytes_vec();
    parse_ip_bytes(&b)
}

/// The loopback rule: 127.0.0.0/8 for IPv4, `::1` for IPv6.
pub open spec fn spec_is_loopback(ip: IpAddress) -> bool {
    match ip {
        IpAddress::V4 { o1, .. } => o1 == 127,
        IpAddress::V6 { g0, g1, g2, g3, g4, g5, g6, g7 } => g0 == 0 && g1 == 0 && g2 == 0
            && g3 == 0 && g4 == 0 && g5 == 0 && g6 == 0 && g7 == 1,
    }
}

/// Whether the address is a loopback address, which carries no
/// geolocation meaning.
pub fn is_loopback(ip: &IpAddress) -> (r: bool)
    ensures
        r == spec_is_loopback(*ip),
{
    match ip {
        IpAddress::V4 { o1, .. } => *o1 == 127,
        IpAddress::V6 { g0, g1, g2, g3, g4, g5, g6, g7 } => *g0 == 0 && *g1 == 0 && *g2 == 0
            && *g3 == 0 && *g4 == 0 && *g5 == 0 && *g6 == 0 && *g7 == 1,
    }
}

/// Decimal text of a non-negative number, as bytes.
pub open spec fn dec_bytes(n: int) -> Seq<u8>
    decreases n
    when n >= 0
{
    if n < 10 {
        seq![(48 + n) as u8]
    } else {
        dec_bytes(n / 10) + seq![(48 + n % 10) as u8]
    }
}

pub open spec fn hex_digit_byte(d: int) -> u8 {
    if d < 10 {
        (48 + d) as u8
    } else {
        (87 + d) as u8
    }
}

/// Lowercase hexadecimal text of a non-negative number, as bytes,
/// without leading zeros.
pub open spec fn hex_bytes(n: int) -> Seq<u8>
    decreases n
    when n >= 0
{
    if n < 16 {
        seq![hex_digit_byte(n)]
    } else {
        hex_bytes(n / 16) + seq![hex_digit_byte(n % 16)]
    }
}

/// Dotted-quad text.
pub open spec fn spec_format_ipv4(o1: u8, o2: u8, o3: u8, o4: u8) -> Seq<u8> {
    dec_bytes(o1 as int) + seq![46u8] + dec_bytes(o2 as int) + seq![46u8] + dec_bytes(o3 as int)
        + seq![46u8] + dec_bytes(o4 as int)
}

/// The length of the run of zero groups starting at `i`.
pub open spec fn run_len(g: Seq<u16>, i: int) -> int
    decreases g.len() - i
    when 0 <= i <= g.len()
{
    if i >= g.len() || g[i] != 0 {
        0
    } else {
        1 + run_len(g, i + 1)
    }
}

/// The leftmost longest run of zero groups at or after `i`: its start
/// and its length.
pub open spec fn best_run(g: Seq<u16>, i: int) -> (int, int)
    decreases g.len() - i
    when 0 <= i <= g.len()
{
    if i >= g.len() {
        (i, 0)
    } else {
        let here = run_len(g, i);
        let rest = best_run(g, i + 1);
        if here >= rest.1 {
            (i, here)
        } else {
            rest
        }
    }
}

/// The groups in `[i, end)` as lowercase hexadecimal, joined by colons.
pub open spec fn join_hex(g: Seq<u16>, i: int, end: int) -> Seq<u8>
    decreases end - i
    when 0 <= i && i <= end && end <= g.len()
{
    if i >= end {
        Seq::<u8>::empty()
    } else if i == end - 1 {
        hex_bytes(g[i] as int)
    } else {
        hex_bytes(g[i] as int) + seq![58u8] + join_hex(g, i + 1, end)
    }
}

pub open spec fn ip_groups(ip: IpAddress) -> Seq<u16>
    recommends ip is V6
{
    match ip {
        IpAddress::V4 { .. } => Seq::<u16>::empty(),
        IpAddress::V6 { g0, g1, g2, g3, g4, g5, g6, g7 } => seq![g0, g1, g2, g3, g4, g5, g6, g7],
    }
}

/// Canonical IPv6 text: an IPv4-mapped address keeps its dotted-quad
/// tail; otherwise the leftmost longest run of two or more zero groups
/// is written as a double colon.
pub open spec fn spec_format_ipv6(g: Seq<u16>) -> Seq<u8>
    recommends g.len() == 8
{
    if g[0] == 0 && g[1] == 0 && g[2] == 0 && g[3] == 0 && g[4] == 0 && g[5] == 0xffff {
        "::ffff:".spec_bytes() + spec_format_ipv4(
            (g[6] / 256) as u8,
            (g[6] % 256) as u8,
            (g[7] / 256) as u8,
            (g[7] % 256) as u8,
        )
    } else {
        let br = best_run(g, 0);
        if br.1 >= 2 {
            join_hex(g, 0, br.0) + seq![58u8, 58u8] + join_hex(g, br.0 + br.1, g.len() as int)
        } else {
            join_hex(g, 0, g.len() as int)
        }
    }
}

/// The canonical text of an address, as bytes.
pub open spec fn spec_format_ip(ip: IpAddress) -> Seq<u8> {
    match ip {
        IpAddress::V4 { o1, o2, o3, o4 } => spec_format_ipv4(o1, o2, o3, o4),
        IpAddress::V6 { .. } => spec_format_ipv6(ip_groups(ip)),
    }
}

fn push_dec(out: &mut Vec<u8>, n: u8)
    ensures
        final(out)@ == old(out)@ + dec_bytes(n as int),
    decreases n,
{
    if n < 10 {
        out.push(48 + n);
        proof {
            assert(out@ =~= old(out)@ + dec_bytes(n as int));
        }
    } else {
        push_dec(out, n / 10);
        out.push(48 + n % 10);
        proof {
            assert(out@ =~= old(out)@ + dec_bytes(n as int));
        }
    }
}

fn push_hex(out: &mut Vec<u8>, n: u16)
    ensures
        final(out)@ == old(out)@ + hex_bytes(n as int),
    decreases n,
{
    if n < 16 {
        let d: u8 = if n < 10 {
            (48 + n) as u8
        } else {
            (87 + n) as u8
        };
        out.push(d);
        proof {
            assert(out@ =~= old(out)@ + hex_bytes(n as int));
        }
    } else {
        push_hex(out, n / 16);
        let m = n % 16;
        let d: u8 = if m < 10 {
            (48 + m) as u8
        } else {
            (87 + m) as u8
        };
        out.push(d);
        proof {
            assert(out@ =~= old(out)@ + hex_bytes(n as int));
        }
    }
}

fn push_ipv4(out: &mut Vec<u8>, o1: u8, o2: u8, o3: u8, o4: u8)
    ensures
        final(out)@ == old(out)@ + spec_format_ipv4(o1, o2, o3, o4),
{
    push_dec(out, o1);
    out.push(46);
    push_dec(out, o2);
    out.push(46);
    push_dec(out, o3);
    out.push(46);
    push_dec(out, o4);
    proof {
        assert(out@ =~= old(out)@ + spec_format_ipv4(o1, o2, o3, o4));
    }
}

fn run_len_x(g: &Vec<u16>, i: usize) -> (r: usize)
    requires
        i <= g.len(),
    ensures
        r == run_len(g@, i as int),
        i + r <= g.len(),
    decreases g.len() - i,
{
    if i < g.len() && g[i] == 0 {
        1 + run_len_x(g, i + 1)
    } else {
        0
    }
}

fn best_run_x(g: &Vec<u16>, i: usize) -> (r: (usize, usize))
    requires
        i <= g.len(),
    ensures
        (r.0 as int, r.1 as int) == best_run(g@, i as int),
        i <= r.0 && r.0 + r.1 <= g.len(),
    decreases g.len() - i,
{
    if i >= g.len() {
        (i, 0)
    } else {
        let here = run_len_x(g, i);
        let rest = best_run_x(g, i + 1);
        if here >= rest.1 {
            (i, here)
        } else {
            rest
        }
    }
}

fn push_join_hex(out: &mut Vec<u8>, g: &Vec<u16>, i: usize, end: usize)
    requires
        i <= end <= g.len(),
    ensures
        final(out)@ == old(out)@ + join_hex(g@, i as int, end as int),
    decreases end - i,
{
    if i >= end {
        proof {
            assert(out@ =~= old(out)@ + join_hex(g@, i as int, end as int));
        }
    } else if i == end - 1 {
        push_hex(out, g[i]);
    } else {
        push_hex(out, g[i]);
        out.push(58);
        push_join_hex(out, g, i + 1, end);
        proof {
            assert(out@ =~= old(out)@ + join_hex(g@, i as int, end as int));
        }
    }
}

/// The canonical text of an address, as UTF-8 bytes.
pub fn format_ip(ip: &IpAddress) -> (r: Vec<u8>)
    ensures
        r@ == spec_format_ip(*ip),
{
    match ip {
        IpAddress::V4 { o1, o2, o3, o4 } => {
            let mut out: Vec<u8> = Vec::new();
            push_ipv4(&mut out, *o1, *o2, *o3, *o4);
            proof {
                assert(out@ =~= spec_format_ip(*ip));
            }
            out
        },
        IpAddress::V6 { g0, g1, g2, g3, g4, g5, g6, g7 } => {
            let g: Vec<u16> = vec![*g0, *g1, *g2, *g3, *g4, *g5, *g6, *g7];
            proof {
                assert(g@ =~= ip_groups(*ip));
            }
            let mut out: Vec<u8> = Vec::new();
            if g[0] == 0 && g[1] == 0 && g[2] == 0 && g[3] == 0 && g[4] == 0 && g[5] == 0xffff {
                let lit = "::ffff:";
                let mut pre = lit.as_bytes_vec();
                push_ipv4(
                    &mut pre,
                    (g[6] / 256) as u8,
                    (g[6] % 256) as u8,
                    (g[7] / 256) as u8,
                    (g[7] % 256) as u8,
                );
                proof {
                    assert(pre@ =~= spec_format_ip(*ip));
                }
                return pre;
            }
            let br = best_run_x(&g, 0);
            if br.1 >= 2 {
                push_join_hex(&mut out, &g, 0, br.0);
                out.push(58);
                out.push(58);
                push_join_hex(&mut out, &g, br.0 + br.1, g.len());
                proof {
                    assert(out@ =~= spec_format_ip(*ip));
                }
            } else {
                push_join_hex(&mut out, &g, 0, g.len());
                proof {
                    assert(out@ =~= spec_format_ip(*ip));
                }
            }
            out
        },
    }
}

} // verus!
