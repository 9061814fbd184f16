//! IPv4 addresses and their dotted-decimal text.
use vstd::prelude::*;

use crate::text::{append_decimal, chars_of};

verus! {

/// An IPv4 address, by its four octets.
#[derive(Debug, Clone, Copy, PartialEq, Eq, Structural)]
pub struct Ipv4Address {
    pub a: u8,
    pub b: u8,
    pub c: u8,
    pub d: u8,
}

impl Ipv4Address {
    /// The dotted-decimal text of the address.
    pub open spec fn dotted(self) -> Seq<char> {
        crate::text::decimal(self.a as nat) + seq!['.'] + crate::text::decimal(self.b as nat)
            + seq!['.'] + crate::text::decimal(self.c as nat) + seq!['.'] + crate::text::decimal(
            self.d as nat,
        )
    }

    /// The address as a number, its first octet the most significant.
    pub open spec fn bits(self) -> int {
        self.a * 0x1000000 + self.b * 0x10000 + self.c * 0x100 + self.d
    }

    /// The address `a.b.c.d`.
    pub fn new(a: u8, b: u8, c: u8, d: u8) -> (address: Self)
        ensures
            address == (Ipv4Address { a, b, c, d }),
    {
        Ipv4Address { a, b, c, d }
    }

    /// The address as a number, its first octet the most significant.
    pub fn to_bits(&self) -> (bits: u32)
        ensures
            bits == self.bits(),
    {
        self.a as u32 * 0x1000000 + self.b as u32 * 0x10000 + self.c as u32 * 0x100 + self.d as u32
    }

    /// The address that a number stands for.
    pub fn from_bits(bits: u32) -> (address: Self)
        ensures
            address.bits() == bits,
    {
        Ipv4Address {
            a: (bits / 0x1000000) as u8,
            b: (bits / 0x10000 % 0x100) as u8,
            c: (bits / 0x100 % 0x100) as u8,
            d: (bits % 0x100) as u8,
        }
    }

    /// Whether the address is one of `127.0.0.0/8`.
    pub fn is_loopback(&self) -> (loopback: bool)
        ensures
            loopback == (self.a == 127),
    {
        self.a == 127
    }

    /// The dotted-decimal text of the address.
    pub fn to_text(&self) -> (text: String)
        ensures
            text@ == self.dotted(),
    {
        let mut text: String = String::new();
        proof {
            reveal_strlit(".");
            assert("."@ =~= seq!['.']);
        }
        append_decimal(&mut text, self.a as u64);
        text.append(".");
        append_decimal(&mut text, self.b as u64);
        text.append(".");
        append_decimal(&mut text, self.c as u64);
        text.append(".");
        append_decimal(&mut text, self.d as u64);
        assert(text@ =~= self.dotted());
        text
    }

    /// Reads the dotted-decimal text of an address: four decimal numbers of at
    /// most 255, without leading zeros, and three points between them.
    pub fn parse(text: &str) -> (address: Option<Self>)
        ensures
            match address {
                Some(ip) => text@ == ip.dotted(),
                None => forall|ip: Ipv4Address| text@ != #[trigger] ip.dotted(),
            },
    {
        let chars: Vec<char> = chars_of(text);
        let address: Option<Ipv4Address> = parse_dotted(&chars);
        proof {
            if address is None {
                assert forall|ip: Ipv4Address| text@ != #[trigger] ip.dotted() by {
                    if text@ == ip.dotted() {
                        lemma_dotted_parts(ip);
                        assert(dotted_at(chars@, ip));
                    }
                }
            } else {
                lemma_parts_dotted(chars@, address.unwrap());
            }
        }
        address
    }
}

/// `s[at..next]` is the decimal of `v`, and no digit follows it.
spec fn octet_at(s: Seq<char>, at: int, v: u8, next: int) -> bool {
    &&& 0 <= at <= next <= s.len()
    &&& s.subrange(at, next) == crate::text::decimal(v as nat)
    &&& next < s.len() ==> !crate::text::is_digit(s[next])
}

spec fn point_at(s: Seq<char>, at: int) -> bool {
    0 <= at < s.len() && s[at] == '.'
}

/// `s` is the octets of `ip` with points between them.
spec fn dotted_at(s: Seq<char>, ip: Ipv4Address) -> bool {
    exists|i: int, j: int, k: int|
        #![trigger octet_at(s, i + 1, ip.b, j), octet_at(s, j + 1, ip.c, k)]
        octet_at(s, 0, ip.a, i) && point_at(s, i) && octet_at(s, i + 1, ip.b, j) && point_at(s, j)
            && octet_at(s, j + 1, ip.c, k) && point_at(s, k) && octet_at(
            s,
            k + 1,
            ip.d,
            s.len() as int,
        )
}

proof fn lemma_dotted_parts(ip: Ipv4Address)
    ensures
        dotted_at(ip.dotted(), ip),
{
    let s = ip.dotted();
    let a = crate::text::decimal(ip.a as nat);
    let b = crate::text::decimal(ip.b as nat);
    let c = crate::text::decimal(ip.c as nat);
    let d = crate::text::decimal(ip.d as nat);
    let i = a.len() as int;
    let j = i + 1 + b.len();
    let k = j + 1 + c.len();
    assert(s.subrange(0, i) =~= a);
    assert(s.subrange(i + 1, j) =~= b);
    assert(s.subrange(j + 1, k) =~= c);
    assert(s.subrange(k + 1, s.len() as int) =~= d);
    assert(octet_at(s, 0, ip.a, i));
    assert(octet_at(s, i + 1, ip.b, j));
    assert(octet_at(s, j + 1, ip.c, k));
    assert(octet_at(s, k + 1, ip.d, s.len() as int));
}

proof fn lemma_parts_dotted(s: Seq<char>, ip: Ipv4Address)
    requires
        dotted_at(s, ip),
    ensures
        s == ip.dotted(),
{
    let (i, j, k) = choose|i: int, j: int, k: int|
        #![trigger octet_at(s, i + 1, ip.b, j), octet_at(s, j + 1, ip.c, k)]
        octet_at(s, 0, ip.a, i) && point_at(s, i) && octet_at(s, i + 1, ip.b, j) && point_at(s, j)
            && octet_at(s, j + 1, ip.c, k) && point_at(s, k) && octet_at(
            s,
            k + 1,
            ip.d,
            s.len() as int,
        );
    assert(s =~= s.subrange(0, i) + seq![s[i]] + s.subrange(i + 1, j) + seq![s[j]] + s.subrange(
        j + 1,
        k,
    ) + seq![s[k]] + s.subrange(k + 1, s.len() as int));
}

/// At most one octet starts at a place.
broadcast proof fn lemma_octet_unique(s: Seq<char>, at: int, v1: u8, next1: int, v2: u8, next2: int)
    requires
        #[trigger] octet_at(s, at, v1, next1),
        #[trigger] octet_at(s, at, v2, next2),
    ensures
        v1 == v2,
        next1 == next2,
{
    crate::text::law_decimal_round_trip(v1 as nat);
    crate::text::law_decimal_round_trip(v2 as nat);
    if next1 < next2 {
        assert(s.subrange(at, next2)[next1 - at] == s[next1]);
    } else if next2 < next1 {
        assert(s.subrange(at, next1)[next2 - at] == s[next2]);
    }
}

/// Reads the octet that starts at a place, and says where it ends.
fn read_octet(s: &Vec<char>, at: usize) -> (octet: Option<(u8, usize)>)
    requires
        at <= s.len(),
    ensures
        match octet {
            Some((v, next)) => octet_at(s@, at as int, v, next as int),
            None => forall|v: u8, next: int| !octet_at(s@, at as int, v, next),
        },
{
    let mut end: usize = at;
    let mut value: u32 = 0;
    assert(s@.subrange(at as int, at as int) =~= Seq::<char>::empty());
    while end < s.len() && end - at < 4 && '0' <= s[end] && s[end] <= '9'
        invariant
            at <= end <= s.len(),
            end - at <= 4,
            end - at == 0 ==> value == 0,
            end - at == 1 ==> value < 10,
            end - at == 2 ==> value < 100,
            end - at == 3 ==> value < 1000,
            end - at == 4 ==> value < 10000,
            crate::text::all_digits(s@.subrange(at as int, end as int)),
            value == crate::text::digits_value(s@.subrange(at as int, end as int)),
        decreases s.len() - end,
    {
        let ghost before: Seq<char> = s@.subrange(at as int, end as int);
        value = value * 10 + (s[end] as u32 - '0' as u32);
        end = end + 1;
        proof {
            let now = s@.subrange(at as int, end as int);
            assert(now.drop_last() =~= before);
            assert forall|i: int| 0 <= i < now.len() implies crate::text::is_digit(
                #[trigger] now[i],
            ) by {
                if i < before.len() {
                    assert(now[i] == before[i]);
                }
            }
        }
    }
    let ghost run: Seq<char> = s@.subrange(at as int, end as int);
    if end == at || end - at > 3 || (end - at > 1 && s[at] == '0') || value > 255 {
        proof {
            assert forall|v: u8, next: int| !octet_at(s@, at as int, v, next) by {
                if octet_at(s@, at as int, v, next) {
                    let text = s@.subrange(at as int, next);
                    crate::text::law_decimal_round_trip(v as nat);
                    crate::text::lemma_octet_width(v as nat);
                    crate::text::lemma_no_leading_zero(v as nat);
                    if next < end {
                        assert(run[next - at] == s@[next]);
                    } else if end < next {
                        assert(text[end - at] == s@[end as int]);
                    } else {
                        assert(text == run);
                        assert(run[0] == s@[at as int]);
                    }
                }
            }
        }
        return None;
    }
    proof {
        assert(run[0] == s@[at as int]);
        crate::text::lemma_canonical_digits(run);
    }
    Some((value as u8, end))
}

fn parse_dotted(s: &Vec<char>) -> (address: Option<Ipv4Address>)
    ensures
        match address {
            Some(ip) => dotted_at(s@, ip),
            None => forall|ip: Ipv4Address| !dotted_at(s@, ip),
        },
{
    broadcast use lemma_octet_unique;

    let (a, i) = read_octet(s, 0)?;
    if i >= s.len() || s[i] != '.' {
        return None;
    }
    let (b, j) = read_octet(s, i + 1)?;
    if j >= s.len() || s[j] != '.' {
        return None;
    }
    let (c, k) = read_octet(s, j + 1)?;
    if k >= s.len() || s[k] != '.' {
        return None;
    }
    let (d, end) = read_octet(s, k + 1)?;
    if end != s.len() {
        return None;
    }
    let ip: Ipv4Address = Ipv4Address { a, b, c, d };
    assert(octet_at(s@, i + 1, ip.b, j as int) && octet_at(s@, j + 1, ip.c, k as int));
    Some(ip)
}

/// The dotted-decimal texts of two addresses differ where the addresses do.
pub proof fn law_dotted_is_unique(x: Ipv4Address, y: Ipv4Address)
    requires
        x.dotted() == y.dotted(),
    ensures
        x == y,
{
    let s = x.dotted();
    lemma_dotted_parts(x);
    lemma_dotted_parts(y);
    let (i, j, k) = choose|i: int, j: int, k: int|
        #![trigger octet_at(s, i + 1, x.b, j), octet_at(s, j + 1, x.c, k)]
        octet_at(s, 0, x.a, i) && point_at(s, i) && octet_at(s, i + 1, x.b, j) && point_at(s, j)
            && octet_at(s, j + 1, x.c, k) && point_at(s, k) && octet_at(
            s,
            k + 1,
            x.d,
            s.len() as int,
        );
    let (l, m, n) = choose|l: int, m: int, n: int|
        #![trigger octet_at(s, l + 1, y.b, m), octet_at(s, m + 1, y.c, n)]
        octet_at(s, 0, y.a, l) && point_at(s, l) && octet_at(s, l + 1, y.b, m) && point_at(s, m)
            && octet_at(s, m + 1, y.c, n) && point_at(s, n) && octet_at(
            s,
            n + 1,
            y.d,
            s.len() as int,
        );
    lemma_octet_unique(s, 0, x.a, i, y.a, l);
    lemma_octet_unique(s, i + 1, x.b, j, y.b, m);
    lemma_octet_unique(s, j + 1, x.c, k, y.c, n);
    lemma_octet_unique(s, k + 1, x.d, s.len() as int, y.d, s.len() as int);
}

/// Addresses with the same number are the same.
pub proof fn law_bits_are_unique(x: Ipv4Address, y: Ipv4Address)
    requires
        x.bits() == y.bits(),
    ensures
        x == y,
{
    assert(x.a == x.bits() / 0x1000000 && y.a == y.bits() / 0x1000000);
    assert(x.b == (x.bits() - x.a * 0x1000000) / 0x10000);
    assert(y.b == (y.bits() - y.a * 0x1000000) / 0x10000);
}

/// The text of an address is its four octets in decimal, in their order, with a
/// point between two of them.
pub proof fn law_dotted_shows_the_octets(ip: Ipv4Address)
    ensures
        exists|i: int, j: int, k: int|
            0 < i < j < k < ip.dotted().len() - 1 && #[trigger] ip.dotted()[i] == '.'
                && #[trigger] ip.dotted()[j] == '.' && #[trigger] ip.dotted()[k] == '.'
                && ip.dotted().take(i) == crate::text::decimal(ip.a as nat)
                && ip.dotted().subrange(i + 1, j) == crate::text::decimal(ip.b as nat)
                && ip.dotted().subrange(j + 1, k) == crate::text::decimal(ip.c as nat)
                && ip.dotted().skip(k + 1) == crate::text::decimal(ip.d as nat),
{
    let s = ip.dotted();
    let a = crate::text::decimal(ip.a as nat);
    let b = crate::text::decimal(ip.b as nat);
    let c = crate::text::decimal(ip.c as nat);
    let d = crate::text::decimal(ip.d as nat);
    crate::text::law_decimal_round_trip(ip.a as nat);
    crate::text::law_decimal_round_trip(ip.d as nat);
    let i = a.len() as int;
    let j = i + 1 + b.len();
    let k = j + 1 + c.len();
    assert(s.take(i) =~= a);
    assert(s.subrange(i + 1, j) =~= b);
    assert(s.subrange(j + 1, k) =~= c);
    assert(s.skip(k + 1) =~= d);
    assert(s[i] == '.' && s[j] == '.' && s[k] == '.');
}

/// The number of an address holds its octets, the first one on top.
pub proof fn law_bits_hold_the_octets(ip: Ipv4Address)
    ensures
        ip.bits() / 0x1000000 == ip.a,
        ip.bits() / 0x10000 % 0x100 == ip.b,
        ip.bits() / 0x100 % 0x100 == ip.c,
        ip.bits() % 0x100 == ip.d,
{
    assert(ip.bits() / 0x10000 == ip.a * 0x100 + ip.b);
    assert(ip.bits() / 0x100 == ip.a * 0x10000 + ip.b * 0x100 + ip.c);
}

} // verus!
