//! IPv4 addresses and how they are written.

use vstd::prelude::*;
use vstd::string::*;

use crate::text;

verus! {

/// An IPv4 address, as its four octets.
#[derive(Debug, Clone, Copy, PartialEq, Eq, Structural)]
pub struct Ipv4Addr(pub u8, pub u8, pub u8, pub u8);

/// How an address is written: its octets in decimal, with dots between them.
pub open spec fn dotted(addr: Ipv4Addr) -> Seq<char> {
    text::decimal(addr.0 as nat) + "."@ + text::decimal(addr.1 as nat) + "."@ + text::decimal(
        addr.2 as nat,
    ) + "."@ + text::decimal(addr.3 as nat)
}

/// The octet that `part` writes: one to three digits, without a leading zero.
pub open spec fn octet_of(part: Seq<char>) -> Option<u8> {
    if 1 <= part.len() <= 3 && text::all_digits(part) && (part.len() == 1 || part[0] != '0')
        && text::digits_value(part) <= 255 {
        Some(text::digits_value(part) as u8)
    } else {
        None
    }
}

/// The address that `s` writes: four octets, with dots between them.
pub open spec fn ipv4_of(s: Seq<char>) -> Option<Ipv4Addr> {
    let parts = text::split_of(s, '.');
    if parts.len() == 4 {
        match (octet_of(parts[0]), octet_of(parts[1]), octet_of(parts[2]), octet_of(parts[3])) {
            (Some(a), Some(b), Some(c), Some(d)) => Some(Ipv4Addr(a, b, c, d)),
            _ => None,
        }
    } else {
        None
    }
}

fn parse_octet(part: &str) -> (r: Option<u8>)
    ensures
        r == octet_of(part@),
{
    let chars: Vec<char> = text::to_chars(part);
    if chars.len() == 0 || chars.len() > 3 || (chars.len() > 1 && chars[0] == '0') || chars[0]
        == '+' {
        proof {
            if part@.len() > 0 && part@[0] == '+' {
                assert(!text::is_digit(part@[0]));
            }
        }
        return None;
    }
    match text::parse_number(part, 255) {
        Some(n) => Some(n as u8),
        None => None,
    }
}

impl Ipv4Addr {
    pub fn new(a: u8, b: u8, c: u8, d: u8) -> (r: Self)
        ensures
            r == Ipv4Addr(a, b, c, d),
    {
        Ipv4Addr(a, b, c, d)
    }

    /// The address that `s` writes, if it writes one.
    pub fn parse(s: &str) -> (r: Option<Self>)
        ensures
            r == ipv4_of(s@),
    {
        let parts: Vec<String> = text::split(s, '.');
        let ghost views = text::views(parts@);
        if parts.len() != 4 {
            return None;
        }
        assert(views[0] == parts@[0]@ && views[1] == parts@[1]@ && views[2] == parts@[2]@
            && views[3] == parts@[3]@);
        let a: Option<u8> = parse_octet(parts[0].as_str());
        let b: Option<u8> = parse_octet(parts[1].as_str());
        let c: Option<u8> = parse_octet(parts[2].as_str());
        let d: Option<u8> = parse_octet(parts[3].as_str());
        match (a, b, c, d) {
            (Some(a), Some(b), Some(c), Some(d)) => Some(Ipv4Addr(a, b, c, d)),
            _ => None,
        }
    }

    /// How the address is written.
    pub fn to_string(&self) -> (r: String)
        ensures
            r@ == dotted(*self),
    {
        text::cat7(
            text::to_decimal(self.0 as u64).as_str(),
            ".",
            text::to_decimal(self.1 as u64).as_str(),
            ".",
            text::to_decimal(self.2 as u64).as_str(),
            ".",
            text::to_decimal(self.3 as u64).as_str(),
        )
    }
}

proof fn lemma_octet_round_trip(n: u8)
    ensures
        octet_of(text::decimal(n as nat)) == Some(n),
{
    let s = text::decimal(n as nat);
    text::lemma_decimal_reads_back(n as nat);
    reveal_with_fuel(text::decimal, 4);
    if n >= 100 {
        assert(s.len() == 3);
        assert(s[0] == text::digit_char(n as nat / 10 / 10));
    } else if n >= 10 {
        assert(s.len() == 2);
        assert(s[0] == text::digit_char(n as nat / 10));
    } else {
        assert(s.len() == 1);
    }
}

proof fn lemma_split_first(piece: Seq<char>, rest: Seq<char>)
    requires
        !piece.contains('.'),
    ensures
        text::split_of(piece + "."@ + rest, '.') == seq![piece] + text::split_of(rest, '.'),
{
    reveal_strlit(".");
    let s = piece + "."@ + rest;
    assert(s[piece.len() as int] == '.');
    assert forall|i: int| 0 <= i < piece.len() implies s[i] != '.' by {
        assert(s[i] == piece[i]);
    }
    text::lemma_position_is(s, '.', piece.len() as int);
    assert(s.take(piece.len() as int) =~= piece);
    assert(s.skip(piece.len() as int + 1) =~= rest);
}

proof fn lemma_split_one(piece: Seq<char>)
    requires
        !piece.contains('.'),
    ensures
        text::split_of(piece, '.') == seq![piece],
{
    text::lemma_position_is(piece, '.', piece.len() as int);
}

proof fn lemma_decimal_holds_no_dot(n: nat)
    ensures
        !text::decimal(n).contains('.'),
{
    text::lemma_decimal_reads_back(n);
    let s = text::decimal(n);
    assert forall|i: int| 0 <= i < s.len() implies s[i] != '.' by {
        assert(text::is_digit(s[i]));
    }
}

/// Reading an address as it is written gives the address.
pub proof fn written_address_reads_back(addr: Ipv4Addr)
    ensures
        ipv4_of(dotted(addr)) == Some(addr),
{
    let (a, b, c, d) = (
        text::decimal(addr.0 as nat),
        text::decimal(addr.1 as nat),
        text::decimal(addr.2 as nat),
        text::decimal(addr.3 as nat),
    );
    lemma_octet_round_trip(addr.0);
    lemma_octet_round_trip(addr.1);
    lemma_octet_round_trip(addr.2);
    lemma_octet_round_trip(addr.3);
    lemma_decimal_holds_no_dot(addr.0 as nat);
    lemma_decimal_holds_no_dot(addr.1 as nat);
    lemma_decimal_holds_no_dot(addr.2 as nat);
    lemma_decimal_holds_no_dot(addr.3 as nat);
    assert(dotted(addr) =~= a + "."@ + (b + "."@ + (c + "."@ + d)));
    lemma_split_first(a, b + "."@ + (c + "."@ + d));
    lemma_split_first(b, c + "."@ + d);
    lemma_split_first(c, d);
    lemma_split_one(d);
    assert(text::split_of(dotted(addr), '.') =~= seq![a, b, c, d]);
}

proof fn lemma_digits_written_back(s: Seq<char>)
    requires
        s.len() > 0,
        text::all_digits(s),
        s.len() == 1 || s[0] != '0',
    ensures
        text::decimal(text::digits_value(s)) == s,
        s[0] != '0' ==> text::digits_value(s) > 0,
    decreases s.len(),
{
    reveal_with_fuel(text::digits_value, 2);
    let init = s.drop_last();
    let last = s.last();
    assert(text::is_digit(last));
    assert(text::digit_char(text::digit_value(last)) == last);
    if s.len() == 1 {
        assert(text::digits_value(init) == 0);
        assert(text::decimal(text::digits_value(s)) =~= s);
    } else {
        assert(init[0] == s[0]);
        assert forall|i: int| 0 <= i < init.len() implies text::is_digit(#[trigger] init[i]) by {
            assert(init[i] == s[i]);
        }
        lemma_digits_written_back(init);
        let n = text::digits_value(s);
        assert(n / 10 == text::digits_value(init));
        assert(n % 10 == text::digit_value(last));
        assert(text::decimal(n) =~= init.push(last));
    }
}

proof fn lemma_split_once_joins(s: Seq<char>)
    ensures
        text::split_of(s, '.').len() >= 1,
        text::split_of(s, '.').len() == 1 ==> text::split_of(s, '.')[0] == s,
        text::split_of(s, '.').len() > 1 ==> {
            let rest = s.skip(text::position(s, '.') + 1);
            &&& s == text::split_of(s, '.')[0] + "."@ + rest
            &&& text::split_of(rest, '.') == text::split_of(s, '.').drop_first()
            &&& rest.len() < s.len()
        },
    decreases s.len(),
{
    reveal_strlit(".");
    text::lemma_position(s, '.');
    let p = text::position(s, '.');
    if p < s.len() {
        let rest = s.skip(p + 1);
        lemma_split_once_joins(rest);
        assert(s =~= s.take(p) + "."@ + rest);
        assert(text::split_of(s, '.').drop_first() =~= text::split_of(rest, '.'));
    }
}

/// There is one way to write an address: what reads as one is written just so.
pub proof fn read_address_writes_back(s: Seq<char>)
    requires
        ipv4_of(s) is Some,
    ensures
        dotted(ipv4_of(s)->0) == s,
{
    let parts = text::split_of(s, '.');
    let rest = s.skip(text::position(s, '.') + 1);
    let tail = rest.skip(text::position(rest, '.') + 1);
    let end = tail.skip(text::position(tail, '.') + 1);
    lemma_split_once_joins(s);
    lemma_split_once_joins(rest);
    lemma_split_once_joins(tail);
    lemma_split_once_joins(end);
    assert(text::split_of(rest, '.')[0] == parts[1]);
    assert(text::split_of(tail, '.')[0] == parts[2]);
    assert(text::split_of(end, '.')[0] == parts[3]);
    lemma_digits_written_back(parts[0]);
    lemma_digits_written_back(parts[1]);
    lemma_digits_written_back(parts[2]);
    lemma_digits_written_back(parts[3]);
    assert(dotted(ipv4_of(s)->0) =~= parts[0] + "."@ + (parts[1] + "."@ + (parts[2] + "."@
        + parts[3])));
}

} // verus!
