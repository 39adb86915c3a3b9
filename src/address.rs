//! The address resolver: IPv4 dotted-quad literals and nothing else.
use vstd::prelude::*;
use crate::decimal::{decimal, digit_char, is_digit, lemma_decimal_octet, lemma_digit_char};

verus! {

/// An IPv4 address, as its four octets in network order.
#[derive(Clone, Copy, Debug, PartialEq, Eq, Structural)]
pub struct Ipv4Address {
    pub a: u8,
    pub b: u8,
    pub c: u8,
    pub d: u8,
}

/// The dotted-quad text of the four octets, each in canonical decimal.
pub open spec fn ipv4_text(a: u8, b: u8, c: u8, d: u8) -> Seq<char> {
    decimal(a as nat) + seq!['.'] + decimal(b as nat) + seq!['.'] + decimal(c as nat) + seq!['.']
        + decimal(d as nat)
}

/// Whether `s` is the dotted-quad text of some IPv4 address.
pub open spec fn is_ipv4_text(s: Seq<char>) -> bool {
    exists|a: u8, b: u8, c: u8, d: u8| s == ipv4_text(a, b, c, d)
}

impl Ipv4Address {
    /// The address's dotted-quad text.
    pub open spec fn text(self) -> Seq<char> {
        ipv4_text(self.a, self.b, self.c, self.d)
    }
}

/// An octet of value `v` is written in `s` from `start` to `end`, and no digit follows it.
pub open spec fn octet_at(s: Seq<char>, start: int, v: nat, end: int) -> bool {
    &&& 0 <= start <= end <= s.len()
    &&& v < 256
    &&& s.subrange(start, end) == decimal(v)
    &&& (end == s.len() || !is_digit(s[end]))
}

/// The value of the digit at `i`, if there is one.
fn digit_at(s: &str, len: usize, i: usize) -> (r: Option<u64>)
    requires
        len == s@.len(),
    ensures
        match r {
            Some(d) => i < len && d < 10 && s@[i as int] == digit_char(d as nat),
            None => i >= len || !is_digit(s@[i as int]),
        },
{
    if i >= len {
        return None;
    }
    let c = s.get_char(i);
    match c {
        '0' => Some(0),
        '1' => Some(1),
        '2' => Some(2),
        '3' => Some(3),
        '4' => Some(4),
        '5' => Some(5),
        '6' => Some(6),
        '7' => Some(7),
        '8' => Some(8),
        '9' => Some(9),
        _ => None,
    }
}

/// What an octet written at `start` shows, digit by digit.
proof fn lemma_octet_digits(t: Seq<char>, start: int, v: nat, end: int)
    requires
        octet_at(t, start, v, end),
    ensures
        start < end <= start + 3,
        end - start == 1 ==> v < 10 && t[start] == digit_char(v),
        end - start == 2 ==> 10 <= v < 100 && t[start] == digit_char(v / 10) && t[start + 1]
            == digit_char(v % 10) && v / 10 != 0,
        end - start == 3 ==> 100 <= v && t[start] == digit_char(v / 100) && t[start + 1]
            == digit_char((v / 10) % 10) && t[start + 2] == digit_char(v % 10) && v / 100 != 0,
        forall|i: int| start <= i < end ==> is_digit(#[trigger] t[i]),
{
    lemma_decimal_octet(v);
    let w = t.subrange(start, end);
    assert(w == decimal(v));
    assert(w.len() == end - start);
    assert(forall|i: int| 0 <= i < w.len() ==> w[i] == t[start + i]);
    lemma_digit_char(v % 10);
    lemma_digit_char((v / 10) % 10);
    if v >= 100 {
        lemma_digit_char(v / 100);
        assert(t[start] == w[0] && t[start + 1] == w[1] && t[start + 2] == w[2]);
    } else if v >= 10 {
        lemma_digit_char(v / 10);
        assert(t[start] == w[0] && t[start + 1] == w[1]);
    } else {
        lemma_digit_char(v);
        assert(decimal(v).len() == 1);
        assert(t[start] == w[0]);
    }
}

/// Reads the octet that starts at `start`: the digits there, if they are the canonical
/// decimal text of a number below 256 and no further digit follows.
fn parse_octet(s: &str, len: usize, start: usize) -> (r: Option<(u8, usize)>)
    requires
        len == s@.len(),
        start <= len,
    ensures
        match r {
            Some((v, end)) => octet_at(s@, start as int, v as nat, end as int),
            None => forall|v: nat, end: int| !octet_at(s@, start as int, v, end),
        },
{
    let ghost t = s@;
    let ghost st = start as int;
    let d0 = match digit_at(s, len, start) {
        Some(d) => d,
        None => {
            proof {
                assert forall|v: nat, end: int| !octet_at(t, st, v, end) by {
                    if octet_at(t, st, v, end) {
                        lemma_octet_digits(t, st, v, end);
                    }
                }
            }
            return None;
        },
    };
    proof {
        lemma_digit_char(d0 as nat);
    }
    let d1 = match digit_at(s, len, start + 1) {
        Some(d) => d,
        None => {
            proof {
                lemma_decimal_octet(d0 as nat);
                assert(t.subrange(st, st + 1) =~= decimal(d0 as nat));
            }
            return Some((d0 as u8, start + 1));
        },
    };
    proof {
        lemma_digit_char(d1 as nat);
    }
    if d0 == 0 {
        proof {
            assert forall|v: nat, end: int| !octet_at(t, st, v, end) by {
                if octet_at(t, st, v, end) {
                    lemma_octet_digits(t, st, v, end);
                    lemma_digit_char(v);
                    lemma_digit_char(v / 10);
                    lemma_digit_char(v / 100);
                }
            }
        }
        return None;
    }
    let d2 = match digit_at(s, len, start + 2) {
        Some(d) => d,
        None => {
            let n = d0 * 10 + d1;
            proof {
                lemma_decimal_octet(n as nat);
                assert(n / 10 == d0 && n % 10 == d1);
                assert(t.subrange(st, st + 2) =~= decimal(n as nat));
            }
            return Some((n as u8, start + 2));
        },
    };
    proof {
        lemma_digit_char(d2 as nat);
    }
    let n = d0 * 100 + d1 * 10 + d2;
    proof {
        assert(n / 100 == d0 && (n / 10) % 10 == d1 && n % 10 == d2);
    }
    if digit_at(s, len, start + 3).is_some() || n > 255 {
        proof {
            assert forall|v: nat, end: int| !octet_at(t, st, v, end) by {
                if octet_at(t, st, v, end) {
                    lemma_octet_digits(t, st, v, end);
                    lemma_digit_char(v % 10);
                    lemma_digit_char((v / 10) % 10);
                    lemma_digit_char(v / 100);
                    if end - st == 3 {
                        assert(v / 100 == d0 && (v / 10) % 10 == d1 && v % 10 == d2);
                        assert(v == n);
                    }
                }
            }
        }
        return None;
    }
    proof {
        lemma_decimal_octet(n as nat);
        assert(t.subrange(st, st + 3) =~= decimal(n as nat));
    }
    Some((n as u8, start + 3))
}

/// Two octets read from the same place are the same octet.
proof fn lemma_octet_unique(t: Seq<char>, start: int, v: nat, end: int, w: nat, f: int)
    requires
        octet_at(t, start, v, end),
        octet_at(t, start, w, f),
    ensures
        v == w,
        end == f,
{
    lemma_octet_digits(t, start, v, end);
    lemma_octet_digits(t, start, w, f);
    if end < f {
        assert(is_digit(t[end]));
    } else if f < end {
        assert(is_digit(t[f]));
    }
    lemma_digit_char(v % 10);
    lemma_digit_char(w % 10);
    if end - start == 1 {
        lemma_digit_char(v);
        lemma_digit_char(w);
    } else if end - start == 2 {
        lemma_digit_char(v / 10);
        lemma_digit_char(w / 10);
    } else {
        lemma_digit_char((v / 10) % 10);
        lemma_digit_char((w / 10) % 10);
        lemma_digit_char(v / 100);
        lemma_digit_char(w / 100);
    }
}

/// Where the octets and dots of a dotted-quad text stand.
proof fn lemma_ipv4_fields(s: Seq<char>, a: u8, b: u8, c: u8, d: u8)
    requires
        s == ipv4_text(a, b, c, d),
    ensures
        ({
            let e1 = decimal(a as nat).len() as int;
            let e2 = e1 + 1 + decimal(b as nat).len();
            let e3 = e2 + 1 + decimal(c as nat).len();
            &&& octet_at(s, 0, a as nat, e1) && s[e1] == '.'
            &&& octet_at(s, e1 + 1, b as nat, e2) && s[e2] == '.'
            &&& octet_at(s, e2 + 1, c as nat, e3) && s[e3] == '.'
            &&& octet_at(s, e3 + 1, d as nat, s.len() as int)
        }),
{
    let da = decimal(a as nat);
    let db = decimal(b as nat);
    let dc = decimal(c as nat);
    let dd = decimal(d as nat);
    let e1 = da.len() as int;
    let e2 = e1 + 1 + db.len();
    let e3 = e2 + 1 + dc.len();
    assert(s.len() == e3 + 1 + dd.len());
    assert(s.subrange(0, e1) =~= da);
    assert(s.subrange(e1 + 1, e2) =~= db);
    assert(s.subrange(e2 + 1, e3) =~= dc);
    assert(s.subrange(e3 + 1, s.len() as int) =~= dd);
    assert(s[e1] == '.' && s[e2] == '.' && s[e3] == '.');
}

/// Distinct addresses have distinct texts, so a text names at most one address.
pub proof fn lemma_text_determines_address(x: Ipv4Address, y: Ipv4Address)
    requires
        x.text() == y.text(),
    ensures
        x == y,
{
    let t = x.text();
    lemma_ipv4_fields(t, x.a, x.b, x.c, x.d);
    lemma_ipv4_fields(t, y.a, y.b, y.c, y.d);
    let f1 = decimal(x.a as nat).len() as int;
    let g1 = decimal(y.a as nat).len() as int;
    lemma_octet_unique(t, 0, x.a as nat, f1, y.a as nat, g1);
    let f2 = f1 + 1 + decimal(x.b as nat).len();
    let g2 = g1 + 1 + decimal(y.b as nat).len();
    lemma_octet_unique(t, f1 + 1, x.b as nat, f2, y.b as nat, g2);
    let f3 = f2 + 1 + decimal(x.c as nat).len();
    let g3 = g2 + 1 + decimal(y.c as nat).len();
    lemma_octet_unique(t, f2 + 1, x.c as nat, f3, y.c as nat, g3);
    lemma_octet_unique(t, f3 + 1, x.d as nat, t.len() as int, y.d as nat, t.len() as int);
}

/// Whether the character at `i` is a dot.
fn dot_at(s: &str, len: usize, i: usize) -> (r: bool)
    requires
        len == s@.len(),
    ensures
        r == (i < len && s@[i as int] == '.'),
{
    i < len && s.get_char(i) == '.'
}

/// Parses an IPv4 dotted-quad literal: four canonical decimal octets below 256, separated
/// by dots, and nothing else. Host names are not looked up.
pub fn parse_ipv4(s: &str) -> (r: Option<Ipv4Address>)
    ensures
        match r {
            Some(addr) => s@ == addr.text(),
            None => !is_ipv4_text(s@),
        },
{
    let ghost t = s@;
    let len = s.unicode_len();
    let (a, e1) = match parse_octet(s, len, 0) {
        Some(p) => p,
        None => {
            proof {
                assert forall|a: u8, b: u8, c: u8, d: u8| t != ipv4_text(a, b, c, d) by {
                    if t == ipv4_text(a, b, c, d) {
                        lemma_ipv4_fields(t, a, b, c, d);
                    }
                }
            }
            return None;
        },
    };
    if !dot_at(s, len, e1) {
        proof {
            assert forall|a2: u8, b: u8, c: u8, d: u8| t != ipv4_text(a2, b, c, d) by {
                if t == ipv4_text(a2, b, c, d) {
                    lemma_ipv4_fields(t, a2, b, c, d);
                    lemma_octet_unique(t, 0, a as nat, e1 as int, a2 as nat, decimal(a2 as nat).len() as int);
                }
            }
        }
        return None;
    }
    let (b, e2) = match parse_octet(s, len, e1 + 1) {
        Some(p) => p,
        None => {
            proof {
                assert forall|a2: u8, b2: u8, c: u8, d: u8| t != ipv4_text(a2, b2, c, d) by {
                    if t == ipv4_text(a2, b2, c, d) {
                        lemma_ipv4_fields(t, a2, b2, c, d);
                        lemma_octet_unique(t, 0, a as nat, e1 as int, a2 as nat, decimal(a2 as nat).len() as int);
                    }
                }
            }
            return None;
        },
    };
    if !dot_at(s, len, e2) {
        proof {
            assert forall|a2: u8, b2: u8, c: u8, d: u8| t != ipv4_text(a2, b2, c, d) by {
                if t == ipv4_text(a2, b2, c, d) {
                    lemma_ipv4_fields(t, a2, b2, c, d);
                    let f1 = decimal(a2 as nat).len() as int;
                    lemma_octet_unique(t, 0, a as nat, e1 as int, a2 as nat, f1);
                    lemma_octet_unique(t, f1 + 1, b as nat, e2 as int, b2 as nat, f1 + 1 + decimal(b2 as nat).len());
                }
            }
        }
        return None;
    }
    let (c, e3) = match parse_octet(s, len, e2 + 1) {
        Some(p) => p,
        None => {
            proof {
                assert forall|a2: u8, b2: u8, c2: u8, d: u8| t != ipv4_text(a2, b2, c2, d) by {
                    if t == ipv4_text(a2, b2, c2, d) {
                        lemma_ipv4_fields(t, a2, b2, c2, d);
                        let f1 = decimal(a2 as nat).len() as int;
                        lemma_octet_unique(t, 0, a as nat, e1 as int, a2 as nat, f1);
                        lemma_octet_unique(t, f1 + 1, b as nat, e2 as int, b2 as nat, f1 + 1 + decimal(b2 as nat).len());
                    }
                }
            }
            return None;
        },
    };
    let ok3 = dot_at(s, len, e3);
    let fourth = if ok3 { parse_octet(s, len, e3 + 1) } else { None };
    match fourth {
        Some((d, e4)) => {
            if e4 == len {
                proof {
                    assert(t.subrange(0, e1 as int) + seq!['.'] + t.subrange(e1 + 1, e2 as int) + seq!['.']
                        + t.subrange(e2 + 1, e3 as int) + seq!['.'] + t.subrange(e3 + 1, e4 as int) =~= t);
                }
                return Some(Ipv4Address { a, b, c, d });
            }
        },
        None => {},
    }
    proof {
        assert forall|a2: u8, b2: u8, c2: u8, d2: u8| t != ipv4_text(a2, b2, c2, d2) by {
            if t == ipv4_text(a2, b2, c2, d2) {
                lemma_ipv4_fields(t, a2, b2, c2, d2);
                let f1 = decimal(a2 as nat).len() as int;
                let f2 = f1 + 1 + decimal(b2 as nat).len();
                let f3 = f2 + 1 + decimal(c2 as nat).len();
                lemma_octet_unique(t, 0, a as nat, e1 as int, a2 as nat, f1);
                lemma_octet_unique(t, f1 + 1, b as nat, e2 as int, b2 as nat, f2);
                lemma_octet_unique(t, f2 + 1, c as nat, e3 as int, c2 as nat, f3);
                if let Some((d, e4)) = fourth {
                    lemma_octet_unique(t, f3 + 1, d as nat, e4 as int, d2 as nat, t.len() as int);
                }
            }
        }
    }
    None
}

} // verus!
